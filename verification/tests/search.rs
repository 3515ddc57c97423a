use mod_registry::error::Error;
use mod_registry::models::{Mod, ModRecord, ModVersion};
use mod_registry::store::{ModStore, VersionStore};

fn rec(id: &str, repository: &str, latest: &str, validated: bool) -> ModRecord {
    ModRecord {
        id: id.to_string(),
        repository: repository.to_string(),
        latest_version: latest.to_string(),
        validated,
    }
}

fn three_mods() -> ModStore {
    let mut mods = ModStore::new();
    mods.upsert(rec("alpha", "https://example.com/alpha", "1.0.0", true));
    mods.upsert(rec("beta", "https://example.com/beta", "2.0.0", false));
    mods.upsert(rec("alphabet", "https://example.com/alphabet", "0.1.0", true));
    mods
}

#[test]
fn page_window_never_exceeds_per_page() {
    let mods = three_mods();
    let versions = VersionStore::new();
    let page = Mod::get_index(&mods, &versions, 1, 2, "").unwrap();
    assert_eq!(page.data.len(), 2);
    assert_eq!(page.count, 3);
    let page = Mod::get_index(&mods, &versions, 1, 100, "").unwrap();
    assert_eq!(page.data.len(), 3);
    assert_eq!(page.count, 3);
}

#[test]
fn empty_query_counts_all_mods() {
    let mods = three_mods();
    let versions = VersionStore::new();
    for per_page in [1i64, 2, 3, 50] {
        let page = Mod::get_index(&mods, &versions, 1, per_page, "").unwrap();
        assert_eq!(page.count, 3);
    }
}

#[test]
fn count_reflects_query_filter_beyond_page_size() {
    let mods = three_mods();
    let versions = VersionStore::new();
    let page = Mod::get_index(&mods, &versions, 1, 1, "alpha").unwrap();
    assert_eq!(page.count, 2);
    assert_eq!(page.data.len(), 1);
    assert_eq!(page.data[0].id, "alpha");
    let page = Mod::get_index(&mods, &versions, 1, 1, "bet").unwrap();
    assert_eq!(page.count, 2);
    let page = Mod::get_index(&mods, &versions, 1, 10, "zzz").unwrap();
    assert_eq!(page.count, 0);
    assert_eq!(page.data.len(), 0);
}

#[test]
fn pagination_windows_are_stable_and_ordered() {
    let mods = three_mods();
    let versions = VersionStore::new();
    let first = Mod::get_index(&mods, &versions, 1, 2, "").unwrap();
    assert_eq!(first.data[0].id, "alpha");
    assert_eq!(first.data[1].id, "beta");
    let second = Mod::get_index(&mods, &versions, 2, 2, "").unwrap();
    assert_eq!(second.data.len(), 1);
    assert_eq!(second.data[0].id, "alphabet");
    assert_eq!(second.count, 3);
    let beyond = Mod::get_index(&mods, &versions, 9, 2, "").unwrap();
    assert_eq!(beyond.data.len(), 0);
    assert_eq!(beyond.count, 3);
}

#[test]
fn invalid_page_is_rejected() {
    let mods = three_mods();
    let versions = VersionStore::new();
    assert!(matches!(
        Mod::get_index(&mods, &versions, 0, 5, ""),
        Err(Error::InvalidPage)
    ));
    assert!(matches!(
        Mod::get_index(&mods, &versions, -3, 5, ""),
        Err(Error::InvalidPage)
    ));
    assert!(matches!(
        Mod::get_index(&mods, &versions, 1, 0, ""),
        Err(Error::InvalidPage)
    ));
    assert!(matches!(
        Mod::get_index(&mods, &versions, 1, -1, ""),
        Err(Error::InvalidPage)
    ));
}

#[test]
fn search_merges_version_lists_in_order() {
    let mods = three_mods();
    let mut versions = VersionStore::new();
    versions.add(ModVersion { id: "1.0.0".to_string(), mod_id: "alpha".to_string() });
    versions.add(ModVersion { id: "2.0.0".to_string(), mod_id: "beta".to_string() });
    versions.add(ModVersion { id: "1.1.0".to_string(), mod_id: "alpha".to_string() });
    let page = Mod::get_index(&mods, &versions, 1, 10, "alpha").unwrap();
    assert_eq!(page.data.len(), 2);
    let alpha = &page.data[0];
    assert_eq!(alpha.id, "alpha");
    assert_eq!(alpha.versions.len(), 2);
    assert_eq!(alpha.versions[0].id, "1.0.0");
    assert_eq!(alpha.versions[1].id, "1.1.0");
    let alphabet = &page.data[1];
    assert_eq!(alphabet.id, "alphabet");
    assert_eq!(alphabet.versions.len(), 0);
}

#[test]
fn get_by_id_returns_the_full_record() {
    let mods = three_mods();
    let mut versions = VersionStore::new();
    versions.add(ModVersion { id: "2.0.0".to_string(), mod_id: "beta".to_string() });
    let m = Mod::get_by_id(&mods, &versions, "beta").unwrap();
    assert_eq!(m.id, "beta");
    assert_eq!(m.repository, "https://example.com/beta");
    assert_eq!(m.latest_version, "2.0.0");
    assert!(!m.validated);
    assert_eq!(m.versions.len(), 1);
    assert_eq!(m.versions[0].id, "2.0.0");
}

#[test]
fn get_by_id_absent_is_not_found() {
    let mods = three_mods();
    let versions = VersionStore::new();
    assert!(matches!(
        Mod::get_by_id(&mods, &versions, "gamma"),
        Err(Error::NotFound)
    ));
    let empty = ModStore::new();
    assert!(matches!(
        Mod::get_by_id(&empty, &versions, "alpha"),
        Err(Error::NotFound)
    ));
}

#[test]
fn empty_id_set_yields_empty_mapping() {
    let mut versions = VersionStore::new();
    versions.add(ModVersion { id: "1.0.0".to_string(), mod_id: "alpha".to_string() });
    let out = versions.get_versions_for(&Vec::new());
    assert_eq!(out.len(), 0);
}

#[test]
fn batched_version_lookup_defaults_to_empty() {
    let mut versions = VersionStore::new();
    versions.add(ModVersion { id: "1.0.0".to_string(), mod_id: "alpha".to_string() });
    versions.add(ModVersion { id: "1.1.0".to_string(), mod_id: "alpha".to_string() });
    let ids = vec!["alpha".to_string(), "unknown".to_string()];
    let out = versions.get_versions_for(&ids);
    assert_eq!(out.len(), 2);
    assert_eq!(out[0].mod_id, "alpha");
    assert_eq!(out[0].versions.len(), 2);
    assert_eq!(out[0].versions[0].id, "1.0.0");
    assert_eq!(out[0].versions[1].id, "1.1.0");
    assert_eq!(out[1].mod_id, "unknown");
    assert_eq!(out[1].versions.len(), 0);
}

#[test]
fn upsert_replaces_by_id() {
    let mut mods = three_mods();
    assert_eq!(mods.len(), 3);
    mods.upsert(rec("beta", "https://example.com/beta-moved", "2.1.0", true));
    assert_eq!(mods.len(), 3);
    let versions = VersionStore::new();
    let m = Mod::get_by_id(&mods, &versions, "beta").unwrap();
    assert_eq!(m.repository, "https://example.com/beta-moved");
    assert_eq!(m.latest_version, "2.1.0");
    mods.upsert(rec("gamma", "https://example.com/gamma", "0.0.1", false));
    assert_eq!(mods.len(), 4);
}

#[test]
fn latest_version_consistency_check() {
    let m = Mod {
        id: "alpha".to_string(),
        repository: "r".to_string(),
        latest_version: "1.1.0".to_string(),
        validated: true,
        versions: vec![
            ModVersion { id: "1.0.0".to_string(), mod_id: "alpha".to_string() },
            ModVersion { id: "1.1.0".to_string(), mod_id: "alpha".to_string() },
        ],
    };
    assert!(m.check_latest_version_listed());
    let n = Mod { latest_version: "9.9.9".to_string(), ..m };
    assert!(!n.check_latest_version_listed());
}

#[test]
fn like_pattern_wraps_query_in_wildcards() {
    assert_eq!(mod_registry::text::build_like_pattern("abc"), "%abc%");
    assert_eq!(mod_registry::text::build_like_pattern(""), "%%");
}

#[test]
fn substring_search_matches_rust_contains() {
    let cases = [
        ("", "", true),
        ("abc", "", true),
        ("", "a", false),
        ("abc", "b", true),
        ("abc", "abc", true),
        ("abc", "abcd", false),
        ("abcabc", "cab", true),
        ("aaab", "aab", true),
    ];
    for (hay, needle, want) in cases {
        assert_eq!(mod_registry::text::contains_substring(hay, needle), want);
        assert_eq!(hay.contains(needle), want);
    }
}

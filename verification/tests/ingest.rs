use mod_registry::error::Error;
use mod_registry::ingest::{
    stage_upload, validate_upload_id, IngestState, PendingUploads, MAX_UPLOAD_BYTES,
};

#[test]
fn cap_is_exactly_enforced() {
    assert_eq!(MAX_UPLOAD_BYTES, 262144);
    let chunks = vec![vec![7u8; 100000], vec![8u8; 100000], vec![9u8; 62144]];
    let staged = stage_upload("pkg", &chunks).unwrap();
    assert_eq!(staged.len(), 262144);
    let mut expected = Vec::new();
    for c in &chunks {
        expected.extend_from_slice(c);
    }
    assert_eq!(staged, expected);

    let chunks = vec![vec![7u8; 100000], vec![8u8; 100000], vec![9u8; 62145]];
    assert!(matches!(stage_upload("pkg", &chunks), Err(Error::UploadTooLarge)));
}

#[test]
fn staged_artifact_is_byte_exact() {
    let chunks = vec![vec![1u8, 2, 3], vec![], vec![4u8, 5]];
    let staged = stage_upload("tiny", &chunks).unwrap();
    assert_eq!(staged, vec![1u8, 2, 3, 4, 5]);
    let staged = stage_upload("empty-upload", &Vec::new()).unwrap();
    assert_eq!(staged.len(), 0);
}

#[test]
fn invalid_id_is_rejected_before_the_body_is_read() {
    let oversized = vec![vec![0u8; MAX_UPLOAD_BYTES + 1]];
    assert!(matches!(stage_upload("../etc", &oversized), Err(Error::InvalidId)));
    assert!(matches!(stage_upload("a/b", &oversized), Err(Error::InvalidId)));
}

#[test]
fn path_traversal_ids_are_invalid() {
    for bad in ["", ".", "..", "a/b", "a\\b", "../x", "x/..", "a..b", ".hidden", "a b", "a\nb",
        "caf\u{e9}"] {
        assert!(matches!(validate_upload_id(bad), Err(Error::InvalidId)), "id {:?}", bad);
    }
    for good in ["a", "my-mod", "my_mod", "mod.v2", "Alpha123", "x-1_2.3"] {
        assert!(validate_upload_id(good).is_ok(), "id {:?}", good);
    }
}

#[test]
fn chunk_is_gated_before_commit() {
    let mut st = IngestState::new();
    assert!(st.try_accept(MAX_UPLOAD_BYTES - 1));
    assert_eq!(st.written, MAX_UPLOAD_BYTES - 1);
    assert!(!st.try_accept(2));
    assert_eq!(st.written, MAX_UPLOAD_BYTES - 1);
    assert!(st.try_accept(1));
    assert_eq!(st.written, MAX_UPLOAD_BYTES);
    assert!(!st.try_accept(1));
    assert_eq!(st.written, MAX_UPLOAD_BYTES);
}

#[test]
fn concurrent_ingest_for_one_id_conflicts() {
    let mut pending = PendingUploads::new();
    assert!(pending.begin("pkg").is_ok());
    assert!(matches!(pending.begin("pkg"), Err(Error::Conflict)));
    assert!(pending.begin("other").is_ok());
    pending.finish("pkg");
    assert!(pending.begin("pkg").is_ok());
    assert!(matches!(pending.begin("other"), Err(Error::Conflict)));
}

#[test]
fn transport_failure_carries_its_reason() {
    let e = Error::UploadError("connection reset".to_string());
    assert!(matches!(e, Error::UploadError(ref r) if r == "connection reset"));
}

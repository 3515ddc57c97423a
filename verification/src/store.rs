use vstd::prelude::*;
use crate::error::Error;
use crate::models::{merged_from, Mod, ModRecord, ModVersion};
use crate::pagination::PaginatedData;
use crate::text::{contains_seq, contains_substring, str_eq};

verus! {

/// In-memory model of the primary mods table. Rows keep insertion order,
/// and insertion order is the fixed, deterministic key by which every page
/// window is cut, so repeated searches paginate reproducibly.
pub struct ModStore {
    rows: Vec<ModRecord>,
}

impl View for ModStore {
    type V = Seq<ModRecord>;

    closed spec fn view(&self) -> Seq<ModRecord> {
        self.rows@
    }
}

/// In-memory model of the separately-owned versions store: one row per
/// release, keyed by the owning mod's id, in insertion order.
pub struct VersionStore {
    rows: Vec<ModVersion>,
}

impl View for VersionStore {
    type V = Seq<ModVersion>;

    closed spec fn view(&self) -> Seq<ModVersion> {
        self.rows@
    }
}

/// The search filter: a row matches when its id contains the query as a
/// substring (so the empty query matches every row).
pub open spec fn record_matches(r: ModRecord, q: Seq<char>) -> bool {
    contains_seq(r.id@, q)
}

/// The rows matching a query, in store order.
pub open spec fn matching(rows: Seq<ModRecord>, q: Seq<char>) -> Seq<ModRecord>
    decreases rows.len(),
{
    if rows.len() == 0 {
        Seq::empty()
    } else {
        let prefix = matching(rows.drop_last(), q);
        if record_matches(rows.last(), q) {
            prefix.push(rows.last())
        } else {
            prefix
        }
    }
}

/// An empty query matches every row, so its match list is the whole table.
pub proof fn lemma_empty_query_matches_all(rows: Seq<ModRecord>)
    ensures
        matching(rows, Seq::<char>::empty()) == rows,
    decreases rows.len(),
{
    if rows.len() == 0 {
        assert(matching(rows, Seq::<char>::empty()) =~= rows);
    } else {
        lemma_empty_query_matches_all(rows.drop_last());
        crate::text::lemma_contains_empty(rows.last().id@);
        assert(matching(rows, Seq::<char>::empty()) =~= rows);
    }
}

/// With an empty query, `count` in any successful search result is the
/// total number of stored mods, whatever page and page size were asked for.
pub proof fn lemma_empty_query_counts_whole_table(
    rows: Seq<ModRecord>,
    vrows: Seq<ModVersion>,
    page: int,
    per_page: int,
    pd: PaginatedData<Mod>,
)
    requires
        search_ok(rows, vrows, page, per_page, Seq::<char>::empty(), pd),
    ensures
        pd.count == rows.len(),
{
    lemma_empty_query_matches_all(rows);
}

/// The window and the count of a search answer to one and the same filter:
/// every record of the match list (and so of any page window cut from it)
/// satisfies the substring predicate that the count counted, and is a
/// stored row, never an invented one.
pub proof fn lemma_window_and_count_share_filter(rows: Seq<ModRecord>, q: Seq<char>)
    ensures
        forall|k: int|
            0 <= k < matching(rows, q).len() ==> record_matches(
                #[trigger] matching(rows, q)[k],
                q,
            ),
        forall|k: int|
            0 <= k < matching(rows, q).len() ==> rows.contains(#[trigger] matching(rows, q)[k]),
    decreases rows.len(),
{
    if rows.len() > 0 {
        let rest = rows.drop_last();
        lemma_window_and_count_share_filter(rest, q);
        let m = matching(rows, q);
        let mrest = matching(rest, q);
        assert forall|k: int| 0 <= k < m.len() implies record_matches(m[k], q) && rows.contains(
            m[k],
        ) by {
            if k < mrest.len() {
                assert(m[k] == mrest[k]);
                assert(record_matches(mrest[k], q));
                assert(rest.contains(mrest[k]));
                let w = choose|w: int| 0 <= w < rest.len() && rest[w] == mrest[k];
                assert(rows[w] == mrest[k]);
            } else {
                assert(record_matches(rows.last(), q));
                assert(m[k] == rows.last());
                assert(rows[rows.len() - 1] == rows.last());
            }
        }
    }
}

/// The releases belonging to `mod_id`, in store order.
pub open spec fn versions_of(rows: Seq<ModVersion>, mod_id: Seq<char>) -> Seq<ModVersion>
    decreases rows.len(),
{
    if rows.len() == 0 {
        Seq::empty()
    } else {
        let prefix = versions_of(rows.drop_last(), mod_id);
        if rows.last().mod_id@ == mod_id {
            prefix.push(rows.last())
        } else {
            prefix
        }
    }
}

/// Some row carries this id.
pub open spec fn has_id(rows: Seq<ModRecord>, id: Seq<char>) -> bool {
    exists|i: int| 0 <= i < rows.len() && (#[trigger] rows[i]).id@ == id
}

/// `i` is the position of the first row carrying this id.
pub open spec fn is_first_match(rows: Seq<ModRecord>, id: Seq<char>, i: int) -> bool {
    &&& 0 <= i < rows.len()
    &&& rows[i].id@ == id
    &&& forall|k: int| 0 <= k < i ==> (#[trigger] rows[k]).id@ != id
}

/// How many records a page window holds: the part of `total` matches that
/// lies at or beyond `off`, cut to at most `per_page`.
pub open spec fn window_len(total: int, off: int, per_page: int) -> int {
    if off >= total {
        0
    } else if off + per_page <= total {
        per_page
    } else {
        total - off
    }
}

/// What a successful search returns: `count` is the number of rows matching
/// the same filter that produced the window, and the window is the
/// `per_page`-sized cut of the match list starting at `(page-1)*per_page`,
/// each row merged with its version list in match order.
pub open spec fn search_ok(
    rows: Seq<ModRecord>,
    vrows: Seq<ModVersion>,
    page: int,
    per_page: int,
    q: Seq<char>,
    pd: PaginatedData<Mod>,
) -> bool {
    let m = matching(rows, q);
    let off = (page - 1) * per_page;
    &&& pd.count == m.len()
    &&& pd.data@.len() == window_len(m.len() as int, off, per_page)
    &&& pd.wf(per_page)
    &&& forall|k: int|
        0 <= k < pd.data@.len() ==> merged_from(
            #[trigger] pd.data@[k],
            m[off + k],
            versions_of(vrows, m[off + k].id@),
        )
}

/// One entry of a batched version lookup: the requested mod id and its
/// ordered version list (empty when the store holds none for it).
pub struct VersionListing {
    pub mod_id: String,
    pub versions: Vec<ModVersion>,
}

impl VersionStore {
    /// An empty versions store.
    pub fn new() -> (s: Self)
        ensures
            s@ == Seq::<ModVersion>::empty(),
    {
        VersionStore { rows: Vec::new() }
    }

    /// Appends one release row.
    pub fn add(&mut self, v: ModVersion)
        ensures
            final(self)@ == old(self)@.push(v),
    {
        self.rows.push(v);
    }

    /// Number of release rows held.
    pub fn len(&self) -> (n: usize)
        ensures
            n == self@.len(),
    {
        self.rows.len()
    }

    /// The ordered version list of one mod id.
    pub fn versions_for_one(&self, id: &str) -> (vs: Vec<ModVersion>)
        ensures
            vs@ == versions_of(self@, id@),
    {
        let mut vs: Vec<ModVersion> = Vec::new();
        let mut j: usize = 0;
        while j < self.rows.len()
            invariant
                j <= self.rows@.len(),
                vs@ == versions_of(self.rows@.subrange(0, j as int), id@),
            decreases self.rows@.len() - j,
        {
            proof {
                let s1 = self.rows@.subrange(0, j as int + 1);
                assert(s1.drop_last() =~= self.rows@.subrange(0, j as int));
                assert(s1.last() == self.rows@[j as int]);
            }
            let row = &self.rows[j];
            if str_eq(row.mod_id.as_str(), id) {
                vs.push(row.clone());
            }
            j += 1;
        }
        proof {
            assert(self.rows@.subrange(0, self.rows@.len() as int) =~= self.rows@);
        }
        vs
    }

    /// Batched lookup of the version lists for a set of mod ids, one listing
    /// per requested id, in request order. An empty id set returns the empty
    /// mapping at once, before the rows are touched.
    pub fn get_versions_for(&self, ids: &Vec<String>) -> (out: Vec<VersionListing>)
        ensures
            out@.len() == ids@.len(),
            forall|i: int|
                0 <= i < out@.len() ==> {
                    &&& (#[trigger] out@[i]).mod_id@ == ids@[i]@
                    &&& out@[i].versions@ == versions_of(self@, ids@[i]@)
                },
    {
        let mut out: Vec<VersionListing> = Vec::new();
        if ids.len() == 0 {
            return out;
        }
        let mut i: usize = 0;
        while i < ids.len()
            invariant
                i <= ids@.len(),
                out@.len() == i,
                forall|t: int|
                    0 <= t < i ==> {
                        &&& (#[trigger] out@[t]).mod_id@ == ids@[t]@
                        &&& out@[t].versions@ == versions_of(self@, ids@[t]@)
                    },
            decreases ids@.len() - i,
        {
            let id = &ids[i];
            let vs = self.versions_for_one(id.as_str());
            out.push(VersionListing { mod_id: id.clone(), versions: vs });
            i += 1;
        }
        out
    }
}

/// No two rows carry the same id.
pub open spec fn unique_ids(rows: Seq<ModRecord>) -> bool {
    forall|i: int, j: int|
        0 <= i < j < rows.len() ==> (#[trigger] rows[i]).id@ != (#[trigger] rows[j]).id@
}

impl ModStore {
    /// No two rows carry the same id.
    pub open spec fn wf(self) -> bool {
        unique_ids(self@)
    }

    /// An empty mods table.
    pub fn new() -> (s: Self)
        ensures
            s@ == Seq::<ModRecord>::empty(),
            s.wf(),
    {
        ModStore { rows: Vec::new() }
    }

    /// Number of rows held.
    pub fn len(&self) -> (n: usize)
        ensures
            n == self@.len(),
    {
        self.rows.len()
    }

    /// Insert or replace by id: the first row carrying `rec.id` is replaced,
    /// or the row is appended when the id is new. Id uniqueness is preserved.
    #[verifier::loop_isolation(false)]
    pub fn upsert(&mut self, rec: ModRecord)
        ensures
            !has_id(old(self)@, rec.id@) ==> final(self)@ == old(self)@.push(rec),
            has_id(old(self)@, rec.id@) ==> exists|i: int|
                #[trigger] is_first_match(old(self)@, rec.id@, i) && final(self)@ == old(
                    self,
                )@.update(i, rec),
            old(self).wf() ==> final(self).wf(),
    {
        proof {
            assert(old(self)@ == self@);
        }
        let ghost orig = old(self)@;
        let mut i: usize = 0;
        while i < self.rows.len()
            invariant
                self@ == orig,
                i <= orig.len(),
                forall|k: int| 0 <= k < i ==> (#[trigger] orig[k]).id@ != rec.id@,
            decreases orig.len() - i,
        {
            if str_eq(self.rows[i].id.as_str(), rec.id.as_str()) {
                proof {
                    assert(is_first_match(orig, rec.id@, i as int));
                    assert(has_id(orig, rec.id@));
                }
                self.rows[i] = rec;
                proof {
                    assert(self@ =~= orig.update(i as int, rec));
                    if unique_ids(orig) {
                        assert forall|a: int, b: int| 0 <= a < b < self@.len() implies (
                        #[trigger] self@[a]).id@ != (#[trigger] self@[b]).id@ by {
                            assert(orig[a].id@ != orig[b].id@);
                            assert(self@[a].id@ == if a == i { rec.id@ } else { orig[a].id@ });
                            assert(self@[b].id@ == if b == i { rec.id@ } else { orig[b].id@ });
                        }
                    }
                }
                return ;
            }
            i += 1;
        }
        proof {
            assert(!has_id(orig, rec.id@));
        }
        self.rows.push(rec);
        proof {
            if old(self).wf() {
                assert forall|a: int, b: int| 0 <= a < b < self@.len() implies (
                #[trigger] self@[a]).id@ != (#[trigger] self@[b]).id@ by {
                    if b < orig.len() {
                        assert(orig[a].id@ != orig[b].id@);
                    } else {
                        assert(self@[b] == rec);
                        assert(orig[a].id@ != rec.id@);
                    }
                }
            }
        }
    }
}

/// Field-exact copy of a version list.
fn clone_version_list(v: &Vec<ModVersion>) -> (c: Vec<ModVersion>)
    ensures
        c@ == v@,
{
    let mut c: Vec<ModVersion> = Vec::new();
    let mut j: usize = 0;
    while j < v.len()
        invariant
            j <= v@.len(),
            c@ == v@.subrange(0, j as int),
        decreases v@.len() - j,
    {
        c.push(v[j].clone());
        proof {
            assert(c@ =~= v@.subrange(0, j as int + 1));
        }
        j += 1;
    }
    proof {
        assert(v@.subrange(0, v@.len() as int) =~= v@);
    }
    c
}

impl Mod {
    /// Paginated fuzzy search over the mods table.
    ///
    /// Fails with `InvalidPage` when `page < 1` or `per_page < 1`. Otherwise
    /// it filters the table to the rows whose id contains `query`, reports
    /// their total number as `count`, cuts the window for the requested page
    /// out of that match list in store order, and merges each windowed row
    /// with its version list from one batched lookup (empty when the store
    /// holds none). At most one pass over each store is made, never one
    /// lookup per record.
    pub fn get_index(
        mods: &ModStore,
        versions: &VersionStore,
        page: i64,
        per_page: i64,
        query: &str,
    ) -> (r: Result<PaginatedData<Mod>, Error>)
        ensures
            r is Ok <==> page >= 1 && per_page >= 1,
            r is Err ==> r == Err::<PaginatedData<Mod>, Error>(Error::InvalidPage),
            r matches Ok(pd) ==> search_ok(
                mods@,
                versions@,
                page as int,
                per_page as int,
                query@,
                pd,
            ),
    {
        if page < 1 || per_page < 1 {
            return Err(Error::InvalidPage);
        }
        // One pass over the table: collect the rows matching the filter.
        let mut matched: Vec<ModRecord> = Vec::new();
        let nrows = mods.rows.len();
        let mut i: usize = 0;
        while i < nrows
            invariant
                nrows == mods@.len(),
                i <= nrows,
                matched@ == matching(mods@.subrange(0, i as int), query@),
            decreases nrows - i,
        {
            proof {
                let s1 = mods@.subrange(0, i as int + 1);
                assert(s1.drop_last() =~= mods@.subrange(0, i as int));
                assert(s1.last() == mods@[i as int]);
            }
            let rec = &mods.rows[i];
            if contains_substring(rec.id.as_str(), query) {
                matched.push(rec.clone());
            }
            i += 1;
        }
        proof {
            assert(mods@.subrange(0, mods@.len() as int) =~= mods@);
        }
        let total: usize = matched.len();

        // Cut the page window out of the match list.
        let page0: u64 = (page - 1) as u64;
        let pp_u: u64 = per_page as u64;
        let mut start: usize = 0;
        let mut take: usize = 0;
        match page0.checked_mul(pp_u) {
            None => {
                // The offset exceeds u64::MAX, so it lies past every match.
            },
            Some(off) => {
                if off < total as u64 {
                    start = off as usize;
                    let rem = total - start;
                    take = if pp_u < rem as u64 {
                        pp_u as usize
                    } else {
                        rem
                    };
                }
            },
        }
        let ghost m = matching(mods@, query@);
        let ghost off_spec = (page - 1) * per_page as int;
        proof {
            assert(take == window_len(total as int, off_spec, per_page as int));
            assert(take > 0 ==> start == off_spec);
        }
        let mut data: Vec<Mod> = Vec::new();
        if take == 0 {
            return Ok(PaginatedData { data, count: total });
        }
        // Collect the window's ids and fetch all their versions in one batch.
        let mut ids: Vec<String> = Vec::new();
        let mut k: usize = 0;
        while k < take
            invariant
                total == matched@.len(),
                start + take <= total,
                k <= take,
                ids@.len() == k,
                forall|t: int| 0 <= t < k ==> (#[trigger] ids@[t])@ == matched@[start + t].id@,
            decreases take - k,
        {
            ids.push(matched[start + k].id.clone());
            k += 1;
        }
        let listings = versions.get_versions_for(&ids);
        // Merge window rows with their version lists, preserving order.
        let mut k: usize = 0;
        while k < take
            invariant
                total == matched@.len(),
                start + take <= total,
                k <= take,
                data@.len() == k,
                listings@.len() == take,
                ids@.len() == take,
                forall|t: int| 0 <= t < take ==> (#[trigger] ids@[t])@ == matched@[start + t].id@,
                forall|t: int|
                    0 <= t < take ==> (#[trigger] listings@[t]).versions@ == versions_of(
                        versions@,
                        ids@[t]@,
                    ),
                forall|t: int|
                    0 <= t < k ==> merged_from(
                        #[trigger] data@[t],
                        matched@[start + t],
                        versions_of(versions@, matched@[start + t].id@),
                    ),
            decreases take - k,
        {
            let rec = &matched[start + k];
            let vs = clone_version_list(&listings[k].versions);
            data.push(
                Mod {
                    id: rec.id.clone(),
                    repository: rec.repository.clone(),
                    latest_version: rec.latest_version.clone(),
                    validated: rec.validated,
                    versions: vs,
                },
            );
            k += 1;
        }
        Ok(PaginatedData { data, count: total })
    }

    /// Single lookup by id: the first row carrying `id`, merged with its
    /// version list. Fails with `NotFound` exactly when no row carries the
    /// id; an absent id never yields a defaulted record.
    pub fn get_by_id(mods: &ModStore, versions: &VersionStore, id: &str) -> (r: Result<
        Mod,
        Error,
    >)
        ensures
            r is Ok <==> has_id(mods@, id@),
            r is Err ==> r == Err::<Mod, Error>(Error::NotFound),
            r matches Ok(m) ==> exists|i: int|
                #[trigger] is_first_match(mods@, id@, i) && merged_from(
                    m,
                    mods@[i],
                    versions_of(versions@, id@),
                ),
    {
        let mut i: usize = 0;
        while i < mods.rows.len()
            invariant
                i <= mods@.len(),
                forall|k: int| 0 <= k < i ==> (#[trigger] mods@[k]).id@ != id@,
            decreases mods@.len() - i,
        {
            let rec = &mods.rows[i];
            if str_eq(rec.id.as_str(), id) {
                let vs = versions.versions_for_one(id);
                proof {
                    assert(is_first_match(mods@, id@, i as int));
                }
                return Ok(
                    Mod {
                        id: rec.id.clone(),
                        repository: rec.repository.clone(),
                        latest_version: rec.latest_version.clone(),
                        validated: rec.validated,
                        versions: vs,
                    },
                );
            }
            i += 1;
        }
        Err(Error::NotFound)
    }
}

} // verus!

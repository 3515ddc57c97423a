use vstd::prelude::*;

verus! {

/// `needle` occurs in `hay` starting at character position `i`.
pub open spec fn match_at(hay: Seq<char>, needle: Seq<char>, i: int) -> bool {
    0 <= i && i + needle.len() <= hay.len() && hay.subrange(i, i + needle.len() as int)
        == needle
}

/// `needle` occurs contiguously somewhere inside `hay`; the empty needle
/// occurs in every string.
pub open spec fn contains_seq(hay: Seq<char>, needle: Seq<char>) -> bool {
    exists|i: int| match_at(hay, needle, i)
}

/// Every string contains the empty string.
pub proof fn lemma_contains_empty(hay: Seq<char>)
    ensures
        contains_seq(hay, Seq::<char>::empty()),
{
    assert(hay.subrange(0, 0) =~= Seq::<char>::empty());
    assert(match_at(hay, Seq::<char>::empty(), 0));
}

/// Substring search: `found` holds exactly when `needle@` occurs
/// contiguously inside `hay@`.
pub fn contains_substring(hay: &str, needle: &str) -> (found: bool)
    ensures
        found == contains_seq(hay@, needle@),
{
    let h = hay.unicode_len();
    let n = needle.unicode_len();
    if n > h {
        proof {
            assert forall|i: int| !match_at(hay@, needle@, i) by {}
        }
        return false;
    }
    let mut i: usize = 0;
    while i <= h - n
        invariant
            n <= h,
            h == hay@.len(),
            n == needle@.len(),
            i <= h - n + 1,
            forall|k: int| 0 <= k < i ==> !match_at(hay@, needle@, k),
        decreases h - n - i + 1,
    {
        let mut j: usize = 0;
        let mut all_eq = true;
        while j < n
            invariant
                i + n <= h,
                h == hay@.len(),
                n == needle@.len(),
                j <= n,
                all_eq ==> forall|l: int| 0 <= l < j ==> hay@[i + l] == needle@[l],
                !all_eq ==> !match_at(hay@, needle@, i as int),
            decreases n - j,
        {
            if all_eq && hay.get_char(i + j) != needle.get_char(j) {
                proof {
                    let ii = i as int;
                    let jj = j as int;
                    if match_at(hay@, needle@, ii) {
                        assert(hay@.subrange(ii, ii + n)[jj] == hay@[ii + jj]);
                    }
                }
                all_eq = false;
            }
            j += 1;
        }
        if all_eq {
            proof {
                let ii = i as int;
                assert(hay@.subrange(ii, ii + n) =~= needle@);
                assert(match_at(hay@, needle@, ii));
            }
            return true;
        }
        proof {
            if n == 0 {
                assert(hay@.subrange(i as int, i as int) =~= needle@);
                assert(match_at(hay@, needle@, i as int));
            }
        }
        i += 1;
    }
    proof {
        assert forall|k: int| !match_at(hay@, needle@, k) by {
            if 0 <= k <= h - n {
                assert(!match_at(hay@, needle@, k));
            }
        }
    }
    false
}

/// Character-exact string equality: `r` holds exactly when the two views
/// are the same sequence of characters.
pub fn str_eq(a: &str, b: &str) -> (r: bool)
    ensures
        r == (a@ == b@),
{
    let la = a.unicode_len();
    let lb = b.unicode_len();
    if la != lb {
        return false;
    }
    let mut i: usize = 0;
    while i < la
        invariant
            la == a@.len(),
            la == b@.len(),
            i <= la,
            forall|k: int| 0 <= k < i ==> a@[k] == b@[k],
        decreases la - i,
    {
        if a.get_char(i) != b.get_char(i) {
            return false;
        }
        i += 1;
    }
    proof {
        assert(a@ =~= b@);
    }
    true
}

/// The substring-match pattern for a query: the query wrapped in wildcard
/// markers, so that an empty query matches every id.
pub fn build_like_pattern(query: &str) -> (p: String)
    ensures
        p@ == seq!['%'] + query@ + seq!['%'],
{
    proof {
        reveal_strlit("%");
    }
    let mut p = "%".to_owned();
    p.append(query);
    p.append("%");
    proof {
        assert(p@ =~= seq!['%'] + query@ + seq!['%']);
    }
    p
}

} // verus!

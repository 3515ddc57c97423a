use vstd::prelude::*;
use crate::error::Error;
use crate::text::{contains_seq, contains_substring, str_eq};

verus! {

/// Hard cap on one uploaded package, in bytes. A chunk is committed to the
/// staging artifact only when the running total stays at or under this cap.
pub const MAX_UPLOAD_BYTES: usize = 262144;

/// A character an upload id may hold: ASCII letters, digits, `-`, `_`, `.`.
/// Path separators, control characters and everything else are excluded.
pub open spec fn allowed_id_char(c: char) -> bool {
    let u = c as int;
    (97 <= u && u <= 122)  // 'a'..='z'
     || (65 <= u && u <= 90)  // 'A'..='Z'
     || (48 <= u && u <= 57)  // '0'..='9'
     || u == 45  // '-'
     || u == 95  // '_'
     || u == 46  // '.'

}

/// A safe filename component for staging: nonempty, made of allowed
/// characters only, not starting with a dot (which also excludes the
/// reserved names `.` and `..`), and nowhere holding `..`.
pub open spec fn valid_upload_id(s: Seq<char>) -> bool {
    &&& s.len() > 0
    &&& s[0] != '.'
    &&& forall|i: int| 0 <= i < s.len() ==> allowed_id_char(#[trigger] s[i])
    &&& !contains_seq(s, seq!['.', '.'])
}

/// An id holding a path separator or the parent-directory marker is never a
/// valid upload id, so it is rejected before any path is built from it.
pub proof fn lemma_unsafe_id_rejected(s: Seq<char>)
    ensures
        s.contains('/') ==> !valid_upload_id(s),
        s.contains('\\') ==> !valid_upload_id(s),
        contains_seq(s, seq!['.', '.']) ==> !valid_upload_id(s),
{
    if s.contains('/') && valid_upload_id(s) {
        let i = choose|i: int| 0 <= i < s.len() && s[i] == '/';
        assert(allowed_id_char(s[i]));
    }
    if s.contains('\\') && valid_upload_id(s) {
        let i = choose|i: int| 0 <= i < s.len() && s[i] == '\\';
        assert(allowed_id_char(s[i]));
    }
}

/// Decides `valid_upload_id`; the only error it returns is `InvalidId`.
pub fn validate_upload_id(id: &str) -> (r: Result<(), Error>)
    ensures
        r is Ok <==> valid_upload_id(id@),
        r is Err ==> r == Err::<(), Error>(Error::InvalidId),
{
    let n = id.unicode_len();
    if n == 0 {
        return Err(Error::InvalidId);
    }
    if id.get_char(0) == '.' {
        return Err(Error::InvalidId);
    }
    let mut i: usize = 0;
    while i < n
        invariant
            n == id@.len(),
            i <= n,
            forall|k: int| 0 <= k < i ==> allowed_id_char(#[trigger] id@[k]),
        decreases n - i,
    {
        let c = id.get_char(i);
        let u = c as u32;
        let ok = (97 <= u && u <= 122) || (65 <= u && u <= 90) || (48 <= u && u <= 57) || u == 45
            || u == 95 || u == 46;
        if !ok {
            proof {
                assert(!allowed_id_char(id@[i as int]));
            }
            return Err(Error::InvalidId);
        }
        i += 1;
    }
    proof {
        reveal_strlit("..");
        assert(".."@ =~= seq!['.', '.']);
    }
    if contains_substring(id, "..") {
        return Err(Error::InvalidId);
    }
    Ok(())
}

/// Running byte count of one staged upload. The cap is enforced on the
/// prospective total, before a chunk is committed, so the staging artifact
/// never exceeds the cap even transiently.
pub struct IngestState {
    pub written: usize,
}

impl IngestState {
    /// A fresh upload: nothing written yet.
    pub fn new() -> (s: Self)
        ensures
            s.written == 0,
    {
        IngestState { written: 0 }
    }

    /// Decide one chunk: accept it (and count its bytes) exactly when the
    /// prospective total stays within the cap; refuse it without any state
    /// change otherwise.
    pub fn try_accept(&mut self, chunk_len: usize) -> (accepted: bool)
        ensures
            accepted <==> old(self).written + chunk_len <= MAX_UPLOAD_BYTES,
            accepted ==> final(self).written == old(self).written + chunk_len,
            !accepted ==> *final(self) == *old(self),
    {
        if chunk_len <= MAX_UPLOAD_BYTES && self.written <= MAX_UPLOAD_BYTES - chunk_len {
            self.written = self.written + chunk_len;
            true
        } else {
            false
        }
    }
}

/// The ids whose staging commit is currently in flight. Two concurrent
/// ingests for the same id must not interleave writes into one file, so
/// each ingest takes the id's slot with `begin` before it stages, and a
/// second ingest for a held id is rejected with `Conflict` (rejection, not
/// serialization, is the discipline chosen here); `finish` releases the
/// slot whether the commit succeeded or failed.
pub struct PendingUploads {
    ids: Vec<String>,
}

impl PendingUploads {
    /// The id currently holds a staging slot.
    pub closed spec fn is_pending(self, id: Seq<char>) -> bool {
        exists|i: int| 0 <= i < self.ids@.len() && (#[trigger] self.ids@[i])@ == id
    }

    /// No id holds two slots.
    pub closed spec fn wf(self) -> bool {
        forall|i: int, j: int|
            0 <= i < j < self.ids@.len() ==> (#[trigger] self.ids@[i])@ != (
            #[trigger] self.ids@[j])@
    }

    /// No slot is held at the start.
    pub fn new() -> (s: Self)
        ensures
            s.wf(),
            forall|x: Seq<char>| !s.is_pending(x),
    {
        PendingUploads { ids: Vec::new() }
    }

    /// Take the staging slot for `id`. While the slot is held, a second
    /// `begin` for the same id fails with `Conflict` and changes nothing;
    /// that is the whole mutual-exclusion guarantee between two ingests
    /// for one id.
    #[verifier::loop_isolation(false)]
    pub fn begin(&mut self, id: &str) -> (r: Result<(), Error>)
        requires
            old(self).wf(),
        ensures
            final(self).wf(),
            old(self).is_pending(id@) ==> (r == Err::<(), Error>(Error::Conflict) && *final(self)
                == *old(self)),
            !old(self).is_pending(id@) ==> r is Ok,
            r is Ok ==> final(self).is_pending(id@),
            r is Ok ==> forall|x: Seq<char>|
                #[trigger] final(self).is_pending(x) <==> (old(self).is_pending(x) || x == id@),
    {
        let mut i: usize = 0;
        while i < self.ids.len()
            invariant
                *self == *old(self),
                i <= self.ids@.len(),
                forall|k: int| 0 <= k < i ==> (#[trigger] self.ids@[k])@ != id@,
            decreases self.ids@.len() - i,
        {
            if str_eq(self.ids[i].as_str(), id) {
                proof {
                    assert(old(self).is_pending(id@));
                }
                return Err(Error::Conflict);
            }
            i += 1;
        }
        proof {
            assert(!old(self).is_pending(id@));
        }
        self.ids.push(id.to_owned());
        proof {
            let n = old(self).ids@.len() as int;
            assert(self.ids@[n]@ == id@);
            assert(self.is_pending(id@));
            assert forall|x: Seq<char>| #[trigger] self.is_pending(x) implies (old(
                self,
            ).is_pending(x) || x == id@) by {
                let t = choose|t: int| 0 <= t < self.ids@.len() && (#[trigger] self.ids@[t])@ == x;
                if t < n {
                    assert(old(self).ids@[t]@ == x);
                }
            }
            assert forall|x: Seq<char>| old(self).is_pending(x) implies self.is_pending(x) by {
                let t = choose|t: int|
                    0 <= t < old(self).ids@.len() && (#[trigger] old(self).ids@[t])@ == x;
                assert(self.ids@[t]@ == x);
            }
        }
        Ok(())
    }

    /// Release the staging slot for `id`; slots held by other ids are
    /// untouched. Releasing an id that holds no slot changes nothing.
    #[verifier::loop_isolation(false)]
    pub fn finish(&mut self, id: &str)
        requires
            old(self).wf(),
        ensures
            final(self).wf(),
            !final(self).is_pending(id@),
            forall|x: Seq<char>|
                x != id@ ==> (#[trigger] final(self).is_pending(x) <==> old(self).is_pending(x)),
    {
        let mut i: usize = 0;
        while i < self.ids.len()
            invariant
                *self == *old(self),
                i <= self.ids@.len(),
                forall|k: int| 0 <= k < i ==> (#[trigger] self.ids@[k])@ != id@,
            decreases self.ids@.len() - i,
        {
            if str_eq(self.ids[i].as_str(), id) {
                let ghost orig = self.ids@;
                self.ids.remove(i);
                proof {
                    let ii = i as int;
                    assert(self.ids@ =~= orig.subrange(0, ii) + orig.subrange(
                        ii + 1,
                        orig.len() as int,
                    ));
                    assert forall|t: int| 0 <= t < self.ids@.len() implies (
                    #[trigger] self.ids@[t])@ != id@ by {
                        if t < ii {
                            assert(self.ids@[t] == orig[t]);
                        } else {
                            assert(self.ids@[t] == orig[t + 1]);
                            assert(orig[ii]@ == id@);
                            assert(orig[t + 1]@ != orig[ii]@);
                        }
                    }
                    assert(!self.is_pending(id@));
                    assert forall|x: Seq<char>| x != id@ implies (#[trigger] self.is_pending(x)
                        <==> old(self).is_pending(x)) by {
                        if self.is_pending(x) {
                            let t = choose|t: int|
                                0 <= t < self.ids@.len() && (#[trigger] self.ids@[t])@ == x;
                            if t < ii {
                                assert(orig[t]@ == x);
                            } else {
                                assert(orig[t + 1]@ == x);
                            }
                        }
                        if old(self).is_pending(x) {
                            let t = choose|t: int|
                                0 <= t < orig.len() && (#[trigger] orig[t])@ == x;
                            if t < ii {
                                assert(self.ids@[t]@ == x);
                            } else {
                                assert(t != ii);
                                assert(self.ids@[t - 1]@ == x);
                            }
                        }
                    }
                    assert forall|a: int, b: int| 0 <= a < b < self.ids@.len() implies (
                    #[trigger] self.ids@[a])@ != (#[trigger] self.ids@[b])@ by {
                        let oa = if a < ii {
                            a
                        } else {
                            a + 1
                        };
                        let ob = if b < ii {
                            b
                        } else {
                            b + 1
                        };
                        assert(self.ids@[a] == orig[oa]);
                        assert(self.ids@[b] == orig[ob]);
                    }
                }
                return ;
            }
            i += 1;
        }
        proof {
            assert(!self.is_pending(id@));
        }
    }
}

/// Total byte length of a chunk sequence.
pub open spec fn total_len(chunks: Seq<Vec<u8>>) -> int
    decreases chunks.len(),
{
    if chunks.len() == 0 {
        0
    } else {
        total_len(chunks.drop_last()) + chunks.last()@.len()
    }
}

/// The bytes of a chunk sequence, in arrival order.
pub open spec fn concat_chunks(chunks: Seq<Vec<u8>>) -> Seq<u8>
    decreases chunks.len(),
{
    if chunks.len() == 0 {
        Seq::empty()
    } else {
        concat_chunks(chunks.drop_last()) + chunks.last()@
    }
}

/// A prefix of the chunks never holds more bytes than the whole sequence.
pub proof fn lemma_total_len_prefix(chunks: Seq<Vec<u8>>, i: int)
    requires
        0 <= i <= chunks.len(),
    ensures
        total_len(chunks.subrange(0, i)) <= total_len(chunks),
    decreases chunks.len() - i,
{
    if i == chunks.len() {
        assert(chunks.subrange(0, i) =~= chunks);
    } else {
        lemma_total_len_prefix(chunks, i + 1);
        let s1 = chunks.subrange(0, i + 1);
        assert(s1.drop_last() =~= chunks.subrange(0, i));
        assert(s1.last() == chunks[i]);
    }
}

/// In-memory staging of one whole upload: validates the id before anything
/// else, then commits the chunks in arrival order, each one gated by the
/// cap on the prospective total. On success the returned artifact holds
/// exactly the uploaded bytes; on any failure no artifact is returned, so
/// nothing partial survives.
pub fn stage_upload(id: &str, chunks: &Vec<Vec<u8>>) -> (r: Result<Vec<u8>, Error>)
    ensures
        !valid_upload_id(id@) ==> r == Err::<Vec<u8>, Error>(Error::InvalidId),
        valid_upload_id(id@) && total_len(chunks@) <= MAX_UPLOAD_BYTES ==> (r matches Ok(buf)
            && buf@ == concat_chunks(chunks@)),
        valid_upload_id(id@) && total_len(chunks@) > MAX_UPLOAD_BYTES ==> r == Err::<
            Vec<u8>,
            Error,
        >(Error::UploadTooLarge),
{
    match validate_upload_id(id) {
        Err(e) => {
            return Err(e);
        },
        Ok(_) => {},
    }
    let mut st = IngestState::new();
    let mut buf: Vec<u8> = Vec::new();
    let mut i: usize = 0;
    while i < chunks.len()
        invariant
            valid_upload_id(id@),
            i <= chunks@.len(),
            st.written == total_len(chunks@.subrange(0, i as int)),
            st.written <= MAX_UPLOAD_BYTES,
            buf@ == concat_chunks(chunks@.subrange(0, i as int)),
        decreases chunks@.len() - i,
    {
        proof {
            let s1 = chunks@.subrange(0, i as int + 1);
            assert(s1.drop_last() =~= chunks@.subrange(0, i as int));
            assert(s1.last() == chunks@[i as int]);
        }
        let chunk = &chunks[i];
        if !st.try_accept(chunk.len()) {
            proof {
                lemma_total_len_prefix(chunks@, i as int + 1);
            }
            return Err(Error::UploadTooLarge);
        }
        let mut j: usize = 0;
        let ghost buf_before = buf@;
        while j < chunk.len()
            invariant
                j <= chunk@.len(),
                buf@ == buf_before + chunk@.subrange(0, j as int),
            decreases chunk@.len() - j,
        {
            buf.push(chunk[j]);
            proof {
                assert(buf@ =~= buf_before + chunk@.subrange(0, j as int + 1));
            }
            j += 1;
        }
        proof {
            assert(chunk@.subrange(0, chunk@.len() as int) =~= chunk@);
        }
        i += 1;
    }
    proof {
        assert(chunks@.subrange(0, chunks@.len() as int) =~= chunks@);
    }
    Ok(buf)
}

} // verus!

//! The blob tier as the engine sees it: opaque documents posted by a bot,
//! addressed by an opaque blob reference for fetches and by a message id for
//! deletes. References and message ids are assigned by the tier and never
//! reused within a store.

use vstd::prelude::*;
use crate::strutil::{lemma_dec_injective, spec_dec, str_eq, u64_to_dec};
use crate::storage::new_string;

verus! {

/// One stored document.
#[derive(Debug)]
pub struct BlobEntry {
    /// The sender identity that posted the document.
    pub bot_id: String,
    /// The opaque reference used to fetch the document.
    pub file_ref: String,
    /// The identifier used to delete the document.
    pub message_id: i64,
    /// The payload.
    pub data: Vec<u8>,
}

/// Some entry carries this blob reference.
pub open spec fn has_ref(s: Seq<BlobEntry>, r: Seq<char>) -> bool {
    exists|i: int| 0 <= i < s.len() && (#[trigger] s[i]).file_ref@ == r
}

/// Some entry carries this message id.
pub open spec fn has_msg(s: Seq<BlobEntry>, id: i64) -> bool {
    exists|i: int| 0 <= i < s.len() && (#[trigger] s[i]).message_id == id
}

/// The payload of the first entry carrying reference `r`.
pub open spec fn spec_blob_data(s: Seq<BlobEntry>, r: Seq<char>) -> Seq<u8>
    decreases s.len(),
{
    if s.len() == 0 {
        Seq::empty()
    } else if s.first().file_ref@ == r {
        s.first().data@
    } else {
        spec_blob_data(s.drop_first(), r)
    }
}

/// The message id of the first entry carrying reference `r`.
pub open spec fn spec_blob_msg(s: Seq<BlobEntry>, r: Seq<char>) -> int
    decreases s.len(),
{
    if s.len() == 0 {
        -1
    } else if s.first().file_ref@ == r {
        s.first().message_id as int
    } else {
        spec_blob_msg(s.drop_first(), r)
    }
}

/// The bot that posted the first entry carrying reference `r`.
pub open spec fn spec_blob_bot(s: Seq<BlobEntry>, r: Seq<char>) -> Seq<char>
    decreases s.len(),
{
    if s.len() == 0 {
        Seq::empty()
    } else if s.first().file_ref@ == r {
        s.first().bot_id@
    } else {
        spec_blob_bot(s.drop_first(), r)
    }
}

/// Looking a reference up is unaffected by entries appended behind it.
pub proof fn lemma_blob_lookup_append(s: Seq<BlobEntry>, t: Seq<BlobEntry>, r: Seq<char>)
    requires
        has_ref(s, r),
    ensures
        has_ref(s + t, r),
        spec_blob_data(s + t, r) == spec_blob_data(s, r),
        spec_blob_msg(s + t, r) == spec_blob_msg(s, r),
        spec_blob_bot(s + t, r) == spec_blob_bot(s, r),
    decreases s.len(),
{
    assert(s.len() > 0);
    assert((s + t).first() == s.first());
    if s.first().file_ref@ == r {
        assert((s + t).len() > 0);
    } else {
        assert(has_ref(s.drop_first(), r)) by {
            let i = choose|i: int| 0 <= i < s.len() && s[i].file_ref@ == r;
            assert(s.drop_first()[i - 1].file_ref@ == r);
        }
        lemma_blob_lookup_append(s.drop_first(), t, r);
        assert((s + t).drop_first() =~= s.drop_first() + t);
    }
    assert(s[choose|i: int| 0 <= i < s.len() && s[i].file_ref@ == r] == (s + t)[choose|i: int|
        0 <= i < s.len() && s[i].file_ref@ == r]);
}

/// Looking a reference up is unaffected by the removal of an entry with a
/// different reference.
pub proof fn lemma_blob_lookup_remove(s: Seq<BlobEntry>, k: int, r: Seq<char>)
    requires
        0 <= k < s.len(),
        s[k].file_ref@ != r,
    ensures
        has_ref(s.remove(k), r) == has_ref(s, r),
        has_ref(s, r) ==> spec_blob_data(s.remove(k), r) == spec_blob_data(s, r)
            && spec_blob_msg(s.remove(k), r) == spec_blob_msg(s, r) && spec_blob_bot(
            s.remove(k),
            r,
        ) == spec_blob_bot(s, r),
    decreases s.len(),
{
    if k == 0 {
        assert(s.remove(0) =~= s.drop_first());
        assert(has_ref(s.drop_first(), r) == has_ref(s, r)) by {
            if has_ref(s, r) {
                let i = choose|i: int| 0 <= i < s.len() && s[i].file_ref@ == r;
                assert(i != 0);
                assert(s.drop_first()[i - 1].file_ref@ == r);
            }
            if has_ref(s.drop_first(), r) {
                let i = choose|i: int| 0 <= i < s.drop_first().len() && s.drop_first()[i].file_ref@
                    == r;
                assert(s[i + 1].file_ref@ == r);
            }
        }
    } else {
        assert(s.remove(k).first() == s.first());
        if s.first().file_ref@ == r {
            assert(has_ref(s, r));
            assert(has_ref(s.remove(k), r)) by {
                assert(s.remove(k)[0].file_ref@ == r);
            }
        } else {
            lemma_blob_lookup_remove(s.drop_first(), k - 1, r);
            assert(s.remove(k).drop_first() =~= s.drop_first().remove(k - 1));
            assert(has_ref(s.drop_first(), r) == has_ref(s, r)) by {
                if has_ref(s, r) {
                    let i = choose|i: int| 0 <= i < s.len() && s[i].file_ref@ == r;
                    assert(i != 0);
                    assert(s.drop_first()[i - 1].file_ref@ == r);
                }
                if has_ref(s.drop_first(), r) {
                    let i = choose|i: int|
                        0 <= i < s.drop_first().len() && s.drop_first()[i].file_ref@ == r;
                    assert(s[i + 1].file_ref@ == r);
                }
            }
            assert(has_ref(s.remove(k).drop_first(), r) == has_ref(s.remove(k), r)) by {
                if has_ref(s.remove(k), r) {
                    let i = choose|i: int| 0 <= i < s.remove(k).len() && s.remove(k)[i].file_ref@
                        == r;
                    assert(i != 0);
                    assert(s.remove(k).drop_first()[i - 1].file_ref@ == r);
                }
                if has_ref(s.remove(k).drop_first(), r) {
                    let i = choose|i: int|
                        0 <= i < s.remove(k).drop_first().len() && s.remove(k).drop_first()[
                            i
                        ].file_ref@ == r;
                    assert(s.remove(k)[i + 1].file_ref@ == r);
                }
            }
        }
    }
}

/// A message id survives the removal of an entry with a different one.
pub proof fn lemma_has_msg_remove(s: Seq<BlobEntry>, k: int, id: i64)
    requires
        0 <= k < s.len(),
        s[k].message_id != id,
    ensures
        has_msg(s.remove(k), id) == has_msg(s, id),
{
    if has_msg(s, id) {
        let i = choose|i: int| 0 <= i < s.len() && (#[trigger] s[i]).message_id == id;
        if i < k {
            assert(s.remove(k)[i].message_id == id);
        } else {
            assert(s.remove(k)[i - 1].message_id == id);
        }
    }
    if has_msg(s.remove(k), id) {
        let i = choose|i: int|
            0 <= i < s.remove(k).len() && (#[trigger] s.remove(k)[i]).message_id == id;
        if i < k {
            assert(s[i].message_id == id);
        } else {
            assert(s[i + 1].message_id == id);
        }
    }
}

/// The blob tier model: stored documents and the next fresh message id.
#[derive(Debug)]
pub struct BlobStore {
    pub entries: Vec<BlobEntry>,
    pub next_message_id: i64,
}

impl BlobStore {
    /// Message ids are unique, below the fresh counter, and each entry's
    /// blob reference is its message id rendered in decimal, so references
    /// are unique too.
    pub open spec fn wf(&self) -> bool {
        &&& self.next_message_id >= 0
        &&& forall|i: int|
            0 <= i < self.entries@.len() ==> 0 <= (#[trigger] self.entries@[i]).message_id
                < self.next_message_id
        &&& forall|i: int, j: int|
            0 <= i < j < self.entries@.len() ==> (#[trigger] self.entries@[i]).message_id != (
            #[trigger] self.entries@[j]).message_id
        &&& forall|i: int|
            0 <= i < self.entries@.len() ==> (#[trigger] self.entries@[i]).file_ref@ == spec_dec(
                self.entries@[i].message_id as int,
            )
    }

    /// Distinct entries carry distinct blob references.
    pub proof fn lemma_refs_unique(&self)
        requires
            self.wf(),
        ensures
            forall|i: int, j: int|
                0 <= i < j < self.entries@.len() ==> (#[trigger] self.entries@[i]).file_ref@ != (
                #[trigger] self.entries@[j]).file_ref@,
    {
        assert forall|i: int, j: int| 0 <= i < j < self.entries@.len() implies (
        #[trigger] self.entries@[i]).file_ref@ != (#[trigger] self.entries@[j]).file_ref@ by {
            if self.entries@[i].file_ref@ == self.entries@[j].file_ref@ {
                lemma_dec_injective(
                    self.entries@[i].message_id as int,
                    self.entries@[j].message_id as int,
                );
            }
        }
    }

    /// An empty store.
    pub fn new() -> (r: BlobStore)
        ensures
            r.wf(),
            r.entries@.len() == 0,
            r.next_message_id == 0,
    {
        BlobStore { entries: Vec::new(), next_message_id: 0 }
    }

    /// Post a document as `bot_id`: the store appends it under a fresh
    /// message id and returns the blob reference and message id.
    pub fn put(&mut self, bot_id: &str, data: Vec<u8>) -> (r: (String, i64))
        requires
            old(self).wf(),
            old(self).next_message_id < i64::MAX,
        ensures
            final(self).wf(),
            final(self).next_message_id == old(self).next_message_id + 1,
            r.1 == old(self).next_message_id,
            r.0@ == spec_dec(r.1 as int),
            final(self).entries@.len() == old(self).entries@.len() + 1,
            final(self).entries@ == old(self).entries@.push(final(self).entries@.last()),
            ({
                let e = final(self).entries@.last();
                e.bot_id@ == bot_id@ && e.file_ref@ == r.0@ && e.message_id == r.1 && e.data@
                    == data@
            }),
            !has_ref(old(self).entries@, r.0@),
            has_ref(final(self).entries@, r.0@),
            spec_blob_data(final(self).entries@, r.0@) == data@,
            spec_blob_msg(final(self).entries@, r.0@) == r.1,
            spec_blob_bot(final(self).entries@, r.0@) == bot_id@,
            forall|q: Seq<char>|
                #![trigger has_ref(old(self).entries@, q)]
                has_ref(old(self).entries@, q) ==> has_ref(final(self).entries@, q)
                    && spec_blob_data(final(self).entries@, q) == spec_blob_data(
                    old(self).entries@,
                    q,
                ) && spec_blob_msg(final(self).entries@, q) == spec_blob_msg(
                    old(self).entries@,
                    q,
                ) && spec_blob_bot(final(self).entries@, q) == spec_blob_bot(old(self).entries@, q),
    {
        let msg_id = self.next_message_id;
        let file_ref = u64_to_dec(msg_id as u64);
        let ghost data_view = data@;
        let entry = BlobEntry {
            bot_id: new_string(bot_id),
            file_ref: new_string(file_ref.as_str()),
            message_id: msg_id,
            data,
        };
        self.entries.push(entry);
        self.next_message_id = msg_id + 1;
        proof {
            let s = old(self).entries@;
            let t = self.entries@;
            assert(t == s.push(t.last()));
            assert(!has_ref(s, file_ref@)) by {
                if has_ref(s, file_ref@) {
                    let i = choose|i: int| 0 <= i < s.len() && s[i].file_ref@ == file_ref@;
                    lemma_dec_injective(s[i].message_id as int, msg_id as int);
                }
            }
            lemma_lookup_of_last(t, file_ref@);
            assert forall|q: Seq<char>| has_ref(s, q) implies #[trigger] has_ref(t, q)
                && spec_blob_data(t, q) == spec_blob_data(s, q) && spec_blob_msg(t, q)
                == spec_blob_msg(s, q) && spec_blob_bot(t, q) == spec_blob_bot(s, q) by {
                lemma_blob_lookup_append(s, seq![t.last()], q);
                assert(t =~= s + seq![t.last()]);
            }
        }
        (file_ref, msg_id)
    }

    /// Fetch the document with blob reference `file_ref`, if any.
    pub fn fetch(&self, file_ref: &str) -> (r: Option<Vec<u8>>)
        ensures
            (r is Some) == has_ref(self.entries@, file_ref@),
            r matches Some(d) ==> d@ == spec_blob_data(self.entries@, file_ref@),
    {
        let n = self.entries.len();
        let mut i: usize = 0;
        proof {
            assert(self.entries@.skip(0) =~= self.entries@);
        }
        while i < n
            invariant
                0 <= i <= n,
                n == self.entries@.len(),
                forall|j: int| 0 <= j < i ==> (#[trigger] self.entries@[j]).file_ref@ != file_ref@,
                has_ref(self.entries@, file_ref@) == has_ref(
                    self.entries@.skip(i as int),
                    file_ref@,
                ),
                has_ref(self.entries@, file_ref@) ==> spec_blob_data(self.entries@, file_ref@)
                    == spec_blob_data(self.entries@.skip(i as int), file_ref@),
            decreases n - i,
        {
            proof {
                assert(self.entries@.skip(i as int)[0] == self.entries@[i as int]);
            }
            if str_eq(self.entries[i].file_ref.as_str(), file_ref) {
                proof {
                    assert(self.entries@.skip(i as int).first() == self.entries@[i as int]);
                    assert(has_ref(self.entries@.skip(i as int), file_ref@));
                }
                let d = clone_bytes(&self.entries[i].data);
                return Some(d);
            }
            proof {
                let here = self.entries@.skip(i as int);
                let rest = self.entries@.skip(i + 1);
                assert(here.drop_first() =~= rest);
                assert(has_ref(here, file_ref@) == has_ref(rest, file_ref@)) by {
                    if has_ref(rest, file_ref@) {
                        let k = choose|k: int|
                            0 <= k < rest.len() && (#[trigger] rest[k]).file_ref@ == file_ref@;
                        assert(here[k + 1].file_ref@ == file_ref@);
                    }
                    if has_ref(here, file_ref@) {
                        let k = choose|k: int|
                            0 <= k < here.len() && (#[trigger] here[k]).file_ref@ == file_ref@;
                        assert(k != 0);
                        assert(rest[k - 1].file_ref@ == file_ref@);
                    }
                }
            }
            i = i + 1;
        }
        proof {
            if has_ref(self.entries@, file_ref@) {
                let k = choose|k: int|
                    0 <= k < self.entries@.len() && self.entries@[k].file_ref@ == file_ref@;
                assert(false);
            }
        }
        None
    }

    /// Delete the document with message id `message_id`; reports whether one
    /// was there.
    #[verifier::loop_isolation(false)]
    pub fn delete(&mut self, message_id: i64) -> (r: bool)
        requires
            old(self).wf(),
        ensures
            final(self).wf(),
            final(self).next_message_id == old(self).next_message_id,
            r == has_msg(old(self).entries@, message_id),
            !r ==> final(self).entries@ == old(self).entries@,
            r ==> exists|i: int|
                0 <= i < old(self).entries@.len() && (#[trigger] old(self).entries@[i]).message_id
                    == message_id && final(self).entries@ == old(self).entries@.remove(i),
    {
        let n = self.entries.len();
        let mut i: usize = 0;
        while i < n
            invariant
                0 <= i <= n,
                n == self.entries@.len(),
                self.entries@ == old(self).entries@,
                self.next_message_id == old(self).next_message_id,
                forall|j: int| 0 <= j < i ==> (#[trigger] self.entries@[j]).message_id != message_id,
            decreases n - i,
        {
            if self.entries[i].message_id == message_id {
                let ghost orig = self.entries@;
                self.entries.remove(i);
                proof {
                    assert(self.entries@ =~= orig.remove(i as int));
                    assert forall|p: int| 0 <= p < self.entries@.len() implies 0 <= (
                    #[trigger] self.entries@[p]).message_id < self.next_message_id
                        && self.entries@[p].file_ref@ == spec_dec(
                        self.entries@[p].message_id as int,
                    ) by {
                        if p < i {
                            assert(self.entries@[p] == orig[p]);
                        } else {
                            assert(self.entries@[p] == orig[p + 1]);
                        }
                    }
                    assert forall|p: int, q: int| 0 <= p < q < self.entries@.len() implies (
                    #[trigger] self.entries@[p]).message_id != (
                    #[trigger] self.entries@[q]).message_id by {
                        let p0: int = if p < i { p } else { p + 1 };
                        let q0: int = if q < i { q } else { q + 1 };
                        assert(self.entries@[p] == orig[p0]);
                        assert(self.entries@[q] == orig[q0]);
                    }
                }
                return true;
            }
            i = i + 1;
        }
        false
    }
}

/// The last entry of a store with unique references resolves to itself.
proof fn lemma_lookup_of_last(t: Seq<BlobEntry>, r: Seq<char>)
    requires
        t.len() > 0,
        t.last().file_ref@ == r,
        forall|i: int| 0 <= i < t.len() - 1 ==> (#[trigger] t[i]).file_ref@ != r,
    ensures
        has_ref(t, r),
        spec_blob_data(t, r) == t.last().data@,
        spec_blob_msg(t, r) == t.last().message_id,
        spec_blob_bot(t, r) == t.last().bot_id@,
    decreases t.len(),
{
    if t.len() == 1 {
        assert(t.first() == t.last());
    } else {
        assert(t.first().file_ref@ != r);
        lemma_lookup_of_last(t.drop_first(), r);
        assert(t.drop_first().last() == t.last());
    }
}

/// Copy a byte vector.
pub fn clone_bytes(v: &Vec<u8>) -> (r: Vec<u8>)
    ensures
        r@ == v@,
{
    let r = v.clone();
    proof {
        assert forall|i: int| 0 <= i < r@.len() implies r@[i] == v@[i] by {
            assert(vstd::pervasive::cloned::<u8>(v@[i], r@[i]));
        }
        assert(r@ =~= v@);
    }
    r
}

} // verus!

//! The transfer engine: the chunked multi-bot upload, download and delete
//! pipelines over the metadata store and the blob tier, with integrity
//! verification and transactional rollback.
//!
//! The engine state ties the two tiers together: every committed metadata
//! record resolves in the blob tier, and the digest it carries is the digest
//! of its chunk payloads concatenated in index order. That invariant holds
//! in every state the engine can reach.

use vstd::prelude::*;
use crate::blob::{
    has_msg, has_ref, spec_blob_bot, spec_blob_data, spec_blob_msg, BlobEntry, BlobStore,
};
use crate::chunking::{
    lemma_chunk_lens_cover, plan_chunks, spec_chunk_count, spec_chunk_len, spec_len_sum,
};
use crate::digest::{sha256_hex, spec_sha256_hex};
use crate::errors::{spec_is_retryable, TgCloudError};
use crate::events::{
    DownloadEvent, DownloadStatus, ProgressCounter, UploadEvent, UploadStatus,
};
use crate::gates::{release_admitted, try_admit, Gate};
use crate::models::{chunks_size_sum, meta_wf, Bot, FileChunk, FileMetadata};
use crate::roster::{active_bots_sorted, get_upload_bot, selects_before, sorted_by_id};
use crate::storage::{files_wf, has_file_id, has_name, new_string, MongoStore};
use crate::strutil::str_eq;
use vstd::string::StringExecFns;

verus! {

/// The bytes of `data` from `offset`, `len` long.
pub fn copy_range(data: &Vec<u8>, offset: usize, len: usize) -> (r: Vec<u8>)
    requires
        offset + len <= data@.len(),
    ensures
        r@ == data@.subrange(offset as int, offset + len),
{
    let data_len: usize = data.len();
    let mut r: Vec<u8> = Vec::new();
    let mut i: usize = 0;
    while i < len
        invariant
            0 <= i <= len,
            offset + len <= data_len,
            data_len == data@.len(),
            r@ == data@.subrange(offset as int, offset + i),
        decreases len - i,
    {
        let idx: usize = offset + i;
        r.push(data[idx]);
        proof {
            assert(r@ =~= data@.subrange(offset as int, offset + i + 1));
        }
        i = i + 1;
    }
    proof {
        assert(r@ =~= data@.subrange(offset as int, offset + len));
    }
    r
}

/// The payload slices a file of these bytes is cut into, by the plan of
/// `spec_chunk_count` / `spec_chunk_len`.
pub open spec fn spec_slices(data: Seq<u8>, chunk_size: u64) -> Seq<Seq<u8>> {
    Seq::new(
        spec_chunk_count(data.len() as u64, chunk_size) as nat,
        |i: int|
            data.subrange(
                i * chunk_size,
                i * chunk_size + spec_chunk_len(data.len() as u64, chunk_size, i),
            ),
    )
}

/// Concatenating the planned slices in index order gives the file back:
/// the chunking scheme loses nothing and the round trip is exact.
pub proof fn lemma_slices_flatten(data: Seq<u8>, chunk_size: u64)
    requires
        chunk_size >= 1,
        data.len() <= u64::MAX,
    ensures
        spec_slices(data, chunk_size).flatten() == data,
{
    let count = spec_chunk_count(data.len() as u64, chunk_size);
    lemma_chunk_lens_cover(data.len() as u64, chunk_size);
    lemma_slices_flatten_prefix(data, chunk_size, count);
    assert(spec_slices(data, chunk_size).subrange(0, count) =~= spec_slices(data, chunk_size));
    assert(data.subrange(0, spec_len_sum(data.len() as u64, chunk_size, count)) =~= data);
}

/// The first `n` slices flatten to the first `spec_len_sum(.., n)` bytes.
proof fn lemma_slices_flatten_prefix(data: Seq<u8>, chunk_size: u64, n: int)
    requires
        chunk_size >= 1,
        data.len() <= u64::MAX,
        0 <= n <= spec_chunk_count(data.len() as u64, chunk_size),
    ensures
        spec_len_sum(data.len() as u64, chunk_size, n) <= data.len(),
        spec_slices(data, chunk_size).subrange(0, n).flatten() == data.subrange(
            0,
            spec_len_sum(data.len() as u64, chunk_size, n),
        ),
    decreases n,
{
    let size = data.len() as u64;
    let slices = spec_slices(data, chunk_size);
    if n == 0 {
        assert(slices.subrange(0, 0) =~= Seq::<Seq<u8>>::empty());
        assert(Seq::<Seq<u8>>::empty().flatten() =~= Seq::<u8>::empty());
        assert(data.subrange(0, 0) =~= Seq::<u8>::empty());
    } else {
        lemma_slices_flatten_prefix(data, chunk_size, n - 1);
        let prior = spec_len_sum(size, chunk_size, n - 1);
        let here = spec_chunk_len(size, chunk_size, n - 1);
        assert(prior == (n - 1) * chunk_size || prior == size) by {
            crate::chunking::lemma_chunk_lens_cover(size, chunk_size);
            lemma_len_sum_shape(size, chunk_size, n - 1);
        }
        lemma_len_sum_shape(size, chunk_size, n);
        assert(slices.subrange(0, n) =~= slices.subrange(0, n - 1).push(slices[n - 1]));
        slices.subrange(0, n - 1).lemma_flatten_and_flatten_alt_are_equivalent();
        slices.subrange(0, n).lemma_flatten_and_flatten_alt_are_equivalent();
        assert(slices.subrange(0, n).flatten_alt() == slices.subrange(0, n).drop_last().flatten_alt()
            + slices.subrange(0, n).last());
        assert(slices.subrange(0, n).drop_last() =~= slices.subrange(0, n - 1));
        assert(slices[n - 1] == data.subrange((n - 1) * chunk_size, (n - 1) * chunk_size + here));
        assert(prior == (n - 1) * chunk_size) by {
            lemma_prefix_is_full(size, chunk_size, n);
        }
        assert(data.subrange(0, prior) + data.subrange(prior, prior + here) =~= data.subrange(
            0,
            prior + here,
        ));
    }
}

/// The chunk list of a record resolves in the blob tier: every chunk's blob
/// reference is present, and the stored document carries the chunk's
/// message id, bot and byte length.
pub open spec fn linked(entries: Seq<BlobEntry>, m: &FileMetadata) -> bool {
    forall|i: int|
        0 <= i < m.chunks@.len() ==> {
            let c = #[trigger] m.chunks@[i];
            has_ref(entries, c.telegram_file_id@) && spec_blob_msg(entries, c.telegram_file_id@)
                == c.message_id && spec_blob_bot(entries, c.telegram_file_id@) == c.bot_id@
                && spec_blob_data(entries, c.telegram_file_id@).len() == c.size
        }
}

/// The stored payloads of a record's chunks, in index order.
pub open spec fn meta_payloads(entries: Seq<BlobEntry>, m: &FileMetadata) -> Seq<Seq<u8>> {
    Seq::new(m.chunks@.len(), |i: int| spec_blob_data(entries, m.chunks@[i].telegram_file_id@))
}

/// The record's digest is the digest of its stored chunk payloads
/// concatenated in index order.
pub open spec fn integrity_ok(entries: Seq<BlobEntry>, m: &FileMetadata) -> bool {
    m.sha256@ == spec_sha256_hex(meta_payloads(entries, m).flatten())
}

/// No two chunks of any records share a message id.
pub open spec fn msgs_distinct(files: Seq<FileMetadata>) -> bool {
    forall|a: int, b: int, i: int, j: int|
        #![trigger files[a].chunks@[i], files[b].chunks@[j]]
        0 <= a < files.len() && 0 <= b < files.len() && 0 <= i < files[a].chunks@.len() && 0 <= j
            < files[b].chunks@.len() && (a != b || i != j) ==> files[a].chunks@[i].message_id
            != files[b].chunks@[j].message_id
}

/// The state of the blob tier part-way through a delete run: the message
/// ids of the first `upto` chunks are gone, and every other id survives.
pub open spec fn msgs_cleared(
    cur: Seq<BlobEntry>,
    old_entries: Seq<BlobEntry>,
    chunks: Seq<FileChunk>,
    upto: int,
) -> bool {
    forall|id: i64|
        #![auto]
        has_msg(cur, id) == (has_msg(old_entries, id) && !exists|k: int|
            0 <= k < upto && chunks[k].message_id == id)
}

/// Every chunk's message id is below the blob tier's fresh counter.
pub open spec fn msgs_below(files: Seq<FileMetadata>, next: i64) -> bool {
    forall|a: int, i: int|
        #![trigger files[a].chunks@[i]]
        0 <= a < files.len() && 0 <= i < files[a].chunks@.len() ==> 0 <= files[a].chunks@[
            i
        ].message_id < next
}

/// A successful lookup returns the fields of some stored entry.
pub proof fn lemma_lookup_entry(s: Seq<BlobEntry>, r: Seq<char>)
    requires
        has_ref(s, r),
    ensures
        exists|i: int|
            0 <= i < s.len() && (#[trigger] s[i]).file_ref@ == r && spec_blob_data(s, r) == s[
                i
            ].data@ && spec_blob_msg(s, r) == s[i].message_id && spec_blob_bot(s, r) == s[
                i
            ].bot_id@,
    decreases s.len(),
{
    assert(s.len() > 0);
    if s.first().file_ref@ == r {
        assert(s[0].file_ref@ == r && spec_blob_data(s, r) == s[0].data@ && spec_blob_msg(s, r)
            == s[0].message_id && spec_blob_bot(s, r) == s[0].bot_id@);
    } else {
        assert(has_ref(s.drop_first(), r)) by {
            let i = choose|i: int| 0 <= i < s.len() && (#[trigger] s[i]).file_ref@ == r;
            assert(s.drop_first()[i - 1].file_ref@ == r);
        }
        lemma_lookup_entry(s.drop_first(), r);
        let i = choose|i: int|
            0 <= i < s.drop_first().len() && (#[trigger] s.drop_first()[i]).file_ref@ == r
                && spec_blob_data(s.drop_first(), r) == s.drop_first()[i].data@ && spec_blob_msg(
                s.drop_first(),
                r,
            ) == s.drop_first()[i].message_id && spec_blob_bot(s.drop_first(), r)
                == s.drop_first()[i].bot_id@;
        assert(s[i + 1].file_ref@ == r && spec_blob_data(s, r) == s[i + 1].data@ && spec_blob_msg(
            s,
            r,
        ) == s[i + 1].message_id && spec_blob_bot(s, r) == s[i + 1].bot_id@);
    }
}

/// Chunk sizes that follow the plan sum exactly as the plan does.
proof fn lemma_chunk_sum_matches(chunks: Seq<FileChunk>, size: u64, chunk_size: u64, n: int)
    requires
        chunk_size >= 1,
        0 <= n <= chunks.len(),
        n <= spec_chunk_count(size, chunk_size),
        forall|k: int|
            0 <= k < chunks.len() ==> (#[trigger] chunks[k]).size == spec_chunk_len(
                size,
                chunk_size,
                k,
            ),
    ensures
        chunks_size_sum(chunks.subrange(0, n)) == spec_len_sum(size, chunk_size, n),
    decreases n,
{
    if n == 0 {
        assert(chunks.subrange(0, 0) =~= Seq::<FileChunk>::empty());
    } else {
        lemma_chunk_sum_matches(chunks, size, chunk_size, n - 1);
        assert(chunks.subrange(0, n).drop_last() =~= chunks.subrange(0, n - 1));
        assert(chunks.subrange(0, n).last() == chunks[n - 1]);
    }
}

/// The chunk outcomes a drained upload keeps: every successful chunk, in
/// completion order.
pub open spec fn spec_oks(s: Seq<Result<FileChunk, TgCloudError>>) -> Seq<FileChunk>
    decreases s.len(),
{
    if s.len() == 0 {
        Seq::empty()
    } else if s.last() is Ok {
        spec_oks(s.drop_last()).push(s.last().unwrap())
    } else {
        spec_oks(s.drop_last())
    }
}

/// The first failure among the outcomes, in completion order.
pub open spec fn spec_first_err(s: Seq<Result<FileChunk, TgCloudError>>) -> Option<TgCloudError>
    decreases s.len(),
{
    if s.len() == 0 {
        None
    } else if spec_first_err(s.drop_last()) is Some {
        spec_first_err(s.drop_last())
    } else {
        match s.last() {
            Err(e) => Some(e),
            Ok(_) => None,
        }
    }
}

/// Drain every chunk worker's outcome, even after the first failure, so
/// that every successfully uploaded chunk is known for rollback: the
/// successful chunks are all kept in completion order, and the first
/// observed failure (if any) comes back beside them.
pub fn collect_upload_results(results: Vec<Result<FileChunk, TgCloudError>>) -> (r: (
    Vec<FileChunk>,
    Option<TgCloudError>,
))
    ensures
        r.0@ == spec_oks(results@),
        r.1 == spec_first_err(results@),
        (r.1 is None) ==> r.0@.len() == results@.len(),
{
    let ghost all = results@;
    let mut pending = results;
    let mut oks: Vec<FileChunk> = Vec::new();
    let mut first: Option<TgCloudError> = None;
    let mut i: usize = 0;
    let n = pending.len();
    proof {
        assert(all.subrange(0, 0) =~= Seq::<Result<FileChunk, TgCloudError>>::empty());
    }
    while i < n
        invariant
            0 <= i <= n,
            n == all.len(),
            pending@ == all.skip(i as int),
            oks@ == spec_oks(all.subrange(0, i as int)),
            first == spec_first_err(all.subrange(0, i as int)),
            (first is None) ==> oks@.len() == i,
        decreases n - i,
    {
        let outcome = pending.remove(0);
        proof {
            assert(all.skip(i as int)[0] == all[i as int]);
            assert(all.skip(i as int).skip(1) =~= all.skip(i + 1));
            assert(all.subrange(0, i + 1).drop_last() =~= all.subrange(0, i as int));
            assert(all.subrange(0, i + 1).last() == all[i as int]);
        }
        match outcome {
            Ok(c) => {
                oks.push(c);
            },
            Err(e) => {
                if first.is_none() {
                    first = Some(e);
                }
            },
        }
        i = i + 1;
    }
    proof {
        assert(all.subrange(0, n as int) =~= all);
    }
    (oks, first)
}

/// Restatement of the prefix-sum shape from the chunking module.
proof fn lemma_len_sum_shape(size: u64, chunk_size: u64, n: int)
    requires
        chunk_size >= 1,
        0 <= n <= spec_chunk_count(size, chunk_size),
    ensures
        spec_len_sum(size, chunk_size, n) <= size,
        n < spec_chunk_count(size, chunk_size) ==> spec_len_sum(size, chunk_size, n) == n
            * chunk_size,
        spec_len_sum(size, chunk_size, n) == spec_len_sum(size, chunk_size, n - 1)
            + spec_chunk_len(size, chunk_size, n - 1) || n == 0,
    decreases n,
{
    if n > 0 {
        lemma_len_sum_shape(size, chunk_size, n - 1);
        crate::chunking::lemma_chunk_lens_cover(size, chunk_size);
        lemma_len_sum_below(size, chunk_size, n);
    } else {
        lemma_len_sum_below(size, chunk_size, n);
    }
}

/// Prefix sums of planned lengths stay within the file, and before the last
/// chunk they are exact multiples of the chunk size.
proof fn lemma_len_sum_below(size: u64, chunk_size: u64, n: int)
    requires
        chunk_size >= 1,
        0 <= n <= spec_chunk_count(size, chunk_size),
    ensures
        spec_len_sum(size, chunk_size, n) <= size,
        n < spec_chunk_count(size, chunk_size) ==> spec_len_sum(size, chunk_size, n) == n
            * chunk_size,
    decreases n,
{
    if n == 0 {
        assert(0 * chunk_size == 0) by (nonlinear_arith);
    } else {
        lemma_len_sum_below(size, chunk_size, n - 1);
        let count = spec_chunk_count(size, chunk_size);
        crate::chunking::lemma_count_mul_bounds(size, chunk_size);
        assert((n - 1) * chunk_size == n * chunk_size - chunk_size) by (nonlinear_arith);
        if n < count {
            assert(n * chunk_size <= (count - 1) * chunk_size) by (nonlinear_arith)
                requires
                    n <= count - 1,
                    chunk_size >= 1,
            ;
        } else {
            assert(n * chunk_size >= (count - 1) * chunk_size) by (nonlinear_arith)
                requires
                    n >= count - 1,
                    chunk_size >= 1,
            ;
        }
    }
}

/// The sum of the prefix lengths reaches `(n-1) * chunk_size` exactly at
/// every chunk boundary within the plan.
proof fn lemma_prefix_is_full(size: u64, chunk_size: u64, n: int)
    requires
        chunk_size >= 1,
        1 <= n <= spec_chunk_count(size, chunk_size),
    ensures
        spec_len_sum(size, chunk_size, n - 1) == (n - 1) * chunk_size,
{
    if n - 1 < spec_chunk_count(size, chunk_size) {
        lemma_len_sum_below(size, chunk_size, n - 1);
    }
}

/// The roster keeps its shape across advisory counter updates: same bots,
/// same tokens, same active flags; counters never go down.
pub open spec fn roster_shape_kept(a: Seq<Bot>, b: Seq<Bot>) -> bool {
    b.len() == a.len() && forall|j: int|
        0 <= j < a.len() ==> (#[trigger] b[j]).bot_id == a[j].bot_id && b[j].token == a[j].token
            && b[j].active == a[j].active && b[j].upload_count >= a[j].upload_count
}

/// Chunks assigned round-robin over the bot sequence: chunk `i` goes to the
/// bot at `i mod B`.
pub open spec fn assigned_round_robin(chunks: Seq<FileChunk>, bs: Seq<Bot>) -> bool {
    bs.len() > 0 && forall|i: int|
        0 <= i < chunks.len() ==> (#[trigger] chunks[i]).bot_id@ == bs[i % bs.len() as int].bot_id@
}

/// The transfer engine over the metadata store and the blob tier.
#[derive(Debug)]
pub struct TgCloudService {
    pub store: MongoStore,
    pub telegram: BlobStore,
    /// Destination chat of every upload.
    pub chat_id: String,
    /// The chunk ceiling files are cut with.
    pub chunk_size: u64,
    /// Capacity of the global admission gate.
    pub max_global_concurrency: u64,
    /// Capacity of each per-bot admission gate.
    pub max_per_bot_concurrency: u64,
}

impl TgCloudService {
    /// The engine invariant: both tiers are well-formed, every committed
    /// record resolves in the blob tier, every record's digest is the digest
    /// of its stored payloads in index order, and no two chunks anywhere
    /// share a message id.
    pub open spec fn wf(&self) -> bool {
        &&& self.store.wf()
        &&& self.telegram.wf()
        &&& self.chunk_size >= 1
        &&& self.max_global_concurrency >= 1
        &&& self.max_per_bot_concurrency >= 1
        &&& forall|a: int|
            0 <= a < self.store.files@.len() ==> linked(
                self.telegram.entries@,
                &(#[trigger] self.store.files@[a]),
            )
        &&& forall|a: int|
            0 <= a < self.store.files@.len() ==> integrity_ok(
                self.telegram.entries@,
                &(#[trigger] self.store.files@[a]),
            )
        &&& msgs_distinct(self.store.files@)
        &&& msgs_below(self.store.files@, self.telegram.next_message_id)
    }

    /// A fresh engine with empty tiers.
    pub fn new(
        chat_id: String,
        chunk_size: u64,
        max_global_concurrency: u64,
        max_per_bot_concurrency: u64,
    ) -> (s: TgCloudService)
        requires
            chunk_size >= 1,
            max_global_concurrency >= 1,
            max_per_bot_concurrency >= 1,
        ensures
            s.wf(),
            s.store.files@.len() == 0,
            s.store.bots@.len() == 0,
            s.telegram.entries@.len() == 0,
            s.chunk_size == chunk_size,
            s.chat_id == chat_id,
            s.max_global_concurrency == max_global_concurrency,
            s.max_per_bot_concurrency == max_per_bot_concurrency,
    {
        TgCloudService {
            store: MongoStore::new(),
            telegram: BlobStore::new(),
            chat_id,
            chunk_size,
            max_global_concurrency,
            max_per_bot_concurrency,
        }
    }

    /// Register a bot in the roster.
    pub fn register_bot(&mut self, bot: Bot)
        requires
            old(self).wf(),
        ensures
            final(self).wf(),
            final(self).store.files@ == old(self).store.files@,
            final(self).telegram.entries@ == old(self).telegram.entries@,
            final(self).chunk_size == old(self).chunk_size,
            !crate::storage::roster_has_id(old(self).store.bots@, bot.bot_id@) ==> final(self).store.bots@ == old(self).store.bots@.push(bot),
    {
        self.store.add_bot(bot);
    }

    /// Upload `data` under the logical name `path`, with the record keyed by
    /// the given `file_id`: hash, cut into chunks, post every chunk through
    /// its assigned bot under two-layer admission, and commit the metadata
    /// only after every chunk is stored. Failure commits nothing and leaves
    /// no blob behind; exactly one terminal event is emitted, after
    /// `Started`, `Hashing` and `HashComplete`.
    #[verifier::loop_isolation(false)]
    pub fn upload_file_with_id(
        &mut self,
        path: &str,
        data: &Vec<u8>,
        file_id: String,
        created_at: i64,
        events: &mut Vec<UploadEvent>,
    ) -> (r: Result<(), TgCloudError>)
        requires
            old(self).wf(),
            old(self).telegram.next_message_id + spec_chunk_count(
                data@.len() as u64,
                old(self).chunk_size,
            ) <= i64::MAX,
            spec_chunk_count(data@.len() as u64, old(self).chunk_size) <= u32::MAX,
        ensures
            final(self).wf(),
            final(self).chunk_size == old(self).chunk_size,
            final(self).chat_id == old(self).chat_id,
            final(self).max_global_concurrency == old(self).max_global_concurrency,
            final(self).max_per_bot_concurrency == old(self).max_per_bot_concurrency,
            roster_shape_kept(old(self).store.bots@, final(self).store.bots@),
            final(events)@.len() == old(events)@.len() + 4,
            final(events)@.subrange(0, old(events)@.len() as int) == old(events)@,
            ({
                let l = old(events)@.len() as int;
                &&& (final(events)@[l].status matches UploadStatus::Started {
                    total_size,
                    total_chunks,
                    ..
                } && total_size == data@.len() && total_chunks == spec_chunk_count(
                    data@.len() as u64,
                    old(self).chunk_size,
                ))
                &&& final(events)@[l + 1].status is Hashing
                &&& (final(events)@[l + 2].status matches UploadStatus::HashComplete { sha256 }
                    && sha256@ == spec_sha256_hex(data@))
                &&& (r is Ok ==> (final(events)@[l + 3].status matches UploadStatus::Completed {
                    file_id: f,
                } && f@ == file_id@))
                &&& (r is Err ==> final(events)@[l + 3].status is Failed)
                &&& crate::events::upload_events_linear(final(events)@.skip(l))
            }),
            (r is Ok) == (crate::storage::roster_has_active(old(self).store.bots@) && !has_name(
                old(self).store.files@,
                path@,
            ) && !has_file_id(old(self).store.files@, file_id@)),
            r is Err ==> final(self).store.files@ == old(self).store.files@ && final(self).telegram.entries@ == old(self).telegram.entries@ && final(self).store.bots@ == old(self).store.bots@,
            r is Ok ==> ({
                let m = final(self).store.files@.last();
                &&& final(self).store.files@ == old(self).store.files@.push(m)
                &&& m.file_id@ == file_id@
                &&& m.original_name@ == path@
                &&& m.size == data@.len()
                &&& m.chunk_size == old(self).chunk_size
                &&& m.total_chunks == spec_chunk_count(data@.len() as u64, old(self).chunk_size)
                &&& m.sha256@ == spec_sha256_hex(data@)
                &&& m.created_at == created_at
                &&& meta_wf(&m)
                &&& linked(final(self).telegram.entries@, &m)
                &&& meta_payloads(final(self).telegram.entries@, &m).flatten() == data@
                &&& final(self).telegram.entries@.len() == old(self).telegram.entries@.len()
                    + m.total_chunks
                &&& (forall|q: Seq<char>|
                    #![trigger has_ref(old(self).telegram.entries@, q)]
                    has_ref(old(self).telegram.entries@, q) ==> has_ref(
                        final(self).telegram.entries@,
                        q,
                    ) && spec_blob_data(final(self).telegram.entries@, q) == spec_blob_data(
                        old(self).telegram.entries@,
                        q,
                    ))
                &&& (data@.len() > old(self).chunk_size ==> exists|bs: Seq<Bot>|
                    #![auto]
                    sorted_by_id(bs) && bs.to_multiset() == old(self).store.bots@.filter(
                        |b: Bot| b.active,
                    ).to_multiset() && assigned_round_robin(m.chunks@, bs))
                &&& (data@.len() <= old(self).chunk_size ==> exists|b: Bot|
                    #![auto]
                    b.active && old(self).store.bots@.contains(b) && (forall|c: int|
                        0 <= c < old(self).store.bots@.len() && (#[trigger] old(self).store.bots@[c]).active ==> selects_before(&b, &old(self).store.bots@[c]))
                        && assigned_round_robin(m.chunks@, seq![b]))
            }),
    {
        let ghost old_events_len = events@.len() as int;
        let total_size: u64 = data.len() as u64;
        let plan = plan_chunks(total_size, self.chunk_size);
        let total_chunks: u32 = plan.len() as u32;
        let progress = ProgressCounter::new();
        events.push(
            UploadEvent {
                status: UploadStatus::Started {
                    total_size,
                    total_chunks,
                    progress: progress.clone(),
                },
            },
        );
        events.push(UploadEvent { status: UploadStatus::Hashing });
        let sha = sha256_hex(data.as_slice());
        events.push(
            UploadEvent { status: UploadStatus::HashComplete { sha256: sha.clone() } },
        );

        // Select the bots: the full active set for the multi-chunk path, the
        // least-used active bot for the single-chunk path.
        let bots: Vec<Bot> = if total_size > self.chunk_size {
            let active = active_bots_sorted(&self.store.bots);
            if active.len() == 0 {
                let e = TgCloudError::BotManagerError(new_string("No active bots found"));
                events.push(UploadEvent { status: UploadStatus::Failed { error: e.message() } });
                proof {
                    lemma_no_active_of_empty_filter(old(self).store.bots@, active@);
                }
                return Err(e);
            }
            active
        } else {
            match get_upload_bot(&self.store.bots) {
                Ok(b) => {
                    let mut v: Vec<Bot> = Vec::new();
                    v.push(b);
                    v
                },
                Err(e) => {
                    events.push(
                        UploadEvent { status: UploadStatus::Failed { error: e.message() } },
                    );
                    return Err(e);
                },
            }
        };
        proof {
            if total_size > self.chunk_size {
                lemma_active_of_nonempty_filter(old(self).store.bots@, bots@);
            }
        }

        // The namespace owns the name and the file id.
        if self.store.get_file_by_path(path).is_some() {
            let e = TgCloudError::Unknown(
                String::from_str("File already exists at ").concat(path),
            );
            events.push(UploadEvent { status: UploadStatus::Failed { error: e.message() } });
            return Err(e);
        }
        if self.store.get_file_by_id(file_id.as_str()).is_some() {
            let e = TgCloudError::Unknown(
                String::from_str("File already exists at ").concat(path),
            );
            events.push(UploadEvent { status: UploadStatus::Failed { error: e.message() } });
            return Err(e);
        }

        // Post every chunk through its round-robin bot, global gate first,
        // then the bot's gate.
        let mut global_gate = Gate::new(self.max_global_concurrency);
        let bot_count = bots.len();
        let mut chunks: Vec<FileChunk> = Vec::new();
        let mut i: usize = 0;
        let n = plan.len();
        let ghost old_entries = self.telegram.entries@;
        let ghost old_next = self.telegram.next_message_id as int;
        while i < n
            invariant
                0 <= i <= n,
                n == plan@.len(),
                n == spec_chunk_count(data@.len() as u64, old(self).chunk_size),
                bot_count == bots@.len(),
                bot_count >= 1,
                data@.len() == total_size,
                global_gate.capacity >= 1,
                global_gate.in_flight == 0,
                self.store == old(self).store,
                self.chunk_size == old(self).chunk_size,
                self.chat_id == old(self).chat_id,
                self.max_global_concurrency == old(self).max_global_concurrency,
                self.max_per_bot_concurrency == old(self).max_per_bot_concurrency,
                self.max_per_bot_concurrency >= 1,
                self.telegram.wf(),
                old_entries == old(self).telegram.entries@,
                old_next == old(self).telegram.next_message_id as int,
                self.telegram.next_message_id == old_next + i,
                old_next + n <= i64::MAX,
                self.telegram.entries@.len() == old_entries.len() + i,
                chunks@.len() == i,
                forall|k: int|
                    0 <= k < i ==> {
                        let c = #[trigger] chunks@[k];
                        &&& c.index == k
                        &&& c.size == spec_chunk_len(data@.len() as u64, old(self).chunk_size, k)
                        &&& c.bot_id@ == bots@[k % bot_count as int].bot_id@
                        &&& c.message_id == old_next + k
                        &&& has_ref(self.telegram.entries@, c.telegram_file_id@)
                        &&& spec_blob_msg(self.telegram.entries@, c.telegram_file_id@)
                            == c.message_id
                        &&& spec_blob_bot(self.telegram.entries@, c.telegram_file_id@) == c.bot_id@
                        &&& spec_blob_data(self.telegram.entries@, c.telegram_file_id@)
                            == spec_slices(data@, old(self).chunk_size)[k]
                    },
                forall|q: Seq<char>|
                    #![trigger has_ref(old_entries, q)]
                    has_ref(old_entries, q) ==> has_ref(self.telegram.entries@, q)
                        && spec_blob_data(self.telegram.entries@, q) == spec_blob_data(
                        old_entries,
                        q,
                    ) && spec_blob_msg(self.telegram.entries@, q) == spec_blob_msg(old_entries, q)
                        && spec_blob_bot(self.telegram.entries@, q) == spec_blob_bot(
                        old_entries,
                        q,
                    ),
            decreases n - i,
        {
            let idx: usize = i % bot_count;
            let mut bot_gate = Gate::new(self.max_per_bot_concurrency);
            let admitted = try_admit(&mut global_gate, &mut bot_gate);
            proof {
                assert(admitted);
            }
            let offset_u64: u64 = plan[i].offset;
            let len_u64: u64 = plan[i].size;
            proof {
                crate::chunking::lemma_count_mul_bounds(total_size, self.chunk_size);
                lemma_len_sum_below(total_size, self.chunk_size, i as int);
                assert(i * self.chunk_size + spec_chunk_len(total_size, self.chunk_size, i as int)
                    <= total_size) by {
                    lemma_len_sum_shape(total_size, self.chunk_size, i + 1);
                    lemma_len_sum_below(total_size, self.chunk_size, i as int);
                }
            }
            let offset: usize = offset_u64 as usize;
            let len: usize = len_u64 as usize;
            let slice = copy_range(data, offset, len);
            let ghost slice_view = slice@;
            let (file_ref, msg_id) = self.telegram.put(bots[idx].bot_id.as_str(), slice);
            progress.add(len_u64);
            release_admitted(&mut global_gate, &mut bot_gate);
            let chunk = FileChunk {
                index: i as u32,
                bot_id: bots[idx].bot_id.clone(),
                telegram_file_id: file_ref,
                message_id: msg_id,
                size: len_u64,
            };
            chunks.push(chunk);
            proof {
                assert(slice_view =~= spec_slices(data@, old(self).chunk_size)[i as int]);
            }
            i = i + 1;
        }

        // Two-phase commit tail: the blob tier is prepared; the metadata
        // insert makes it durable.
        let meta = FileMetadata {
            file_id: new_string(file_id.as_str()),
            original_name: new_string(path),
            size: total_size,
            chunk_size: self.chunk_size,
            total_chunks,
            sha256: sha,
            chunks,
            created_at,
        };
        proof {
            lemma_chunk_sum_matches(
                meta.chunks@,
                total_size,
                old(self).chunk_size,
                meta.chunks@.len() as int,
            );
            assert(meta.chunks@.subrange(0, meta.chunks@.len() as int) =~= meta.chunks@);
            lemma_chunk_lens_cover(total_size, old(self).chunk_size);
            assert(meta_wf(&meta));
        }
        let ghost committed_meta = meta;
        let save_result = self.store.save_file(meta);
        proof {
            assert(save_result is Ok);
        }
        let ghost committed = self.store.files@;
        let ghost entries_done = self.telegram.entries@;
        let ghost next_done = self.telegram.next_message_id;
        proof {
            lemma_upload_state_wf(old(self), self, committed_meta, data@, old_next);
        }

        // Advisory usage accounting, one bump per participating bot.
        let participants: usize = if n < bot_count {
            n
        } else {
            bot_count
        };
        let mut j: usize = 0;
        let ghost roster_after_save = self.store.bots@;
        let ghost events_mid = events@;
        while j < participants
            invariant
                0 <= j <= participants,
                participants <= bots@.len(),
                self.store.files@ == committed,
                self.telegram.entries@ == entries_done,
                self.telegram.next_message_id == next_done,
                self.chunk_size == old(self).chunk_size,
                self.chat_id == old(self).chat_id,
                self.max_global_concurrency == old(self).max_global_concurrency,
                self.max_per_bot_concurrency == old(self).max_per_bot_concurrency,
                events@ == events_mid,
                crate::storage::files_wf(self.store.files@),
                crate::storage::roster_wf(self.store.bots@),
                roster_shape_kept(roster_after_save, self.store.bots@),
            decreases participants - j,
        {
            let ghost before = self.store.bots@;
            let _ = self.store.increment_bot_usage(bots[j].bot_id.as_str());
            proof {
                assert(roster_shape_kept(before, self.store.bots@));
            }
            j = j + 1;
        }

        events.push(
            UploadEvent {
                status: UploadStatus::Completed { file_id: new_string(file_id.as_str()) },
            },
        );
        proof {
            assert(final(events)@.subrange(0, old(events)@.len() as int) =~= old(events)@);
            assert(meta_payloads(self.telegram.entries@, &self.store.files@.last()) =~= spec_slices(
                data@,
                old(self).chunk_size,
            ));
            lemma_slices_flatten(data@, old(self).chunk_size);
        }
        Ok(())
    }
}

/// Round-trip law: after an upload of `data` under `path`, the record named
/// `path` is the uploaded one (names are unique), so a download of `path`
/// reassembles exactly `data`. Together with `upload_file`'s postcondition
/// (`meta_payloads(..).flatten() == data`) and `download_file`'s
/// (`d == meta_payloads(..).flatten()` for the record named `path`), a
/// completed upload followed by a completed download is byte-identical.
pub proof fn lemma_round_trip(s: &TgCloudService, path: Seq<char>, data: Seq<u8>)
    requires
        s.wf(),
        s.store.files@.len() > 0,
        s.store.files@.last().original_name@ == path,
        meta_payloads(s.telegram.entries@, &s.store.files@.last()).flatten() == data,
    ensures
        forall|a: int|
            0 <= a < s.store.files@.len() && (#[trigger] s.store.files@[a]).original_name@ == path
                ==> meta_payloads(s.telegram.entries@, &s.store.files@[a]).flatten() == data,
{
    let files = s.store.files@;
    assert forall|a: int|
        0 <= a < files.len() && (#[trigger] files[a]).original_name@ == path implies meta_payloads(
        s.telegram.entries@,
        &files[a],
    ).flatten() == data by {
        if a != files.len() - 1 {
            assert(files[a].original_name@ != files[files.len() - 1].original_name@);
        }
    }
}

/// Relies on `uuid::Uuid::new_v4` rendered in the hyphenated form: a random
/// 36-character identifier. Freshness is checked against the namespace, not
/// assumed.
#[verifier::external_body]
fn new_file_id() -> (r: String)
    ensures
        r@.len() == 36,
{
    uuid::Uuid::new_v4().to_string()
}

impl TgCloudService {
    /// Upload under an engine-assigned fresh file id. The id is drawn at
    /// random and tested against the namespace; everything else behaves as
    /// `upload_file_with_id`, whose contract says exactly what is stored on
    /// success and that failure commits nothing and leaves no blob behind.
    pub fn upload_file(
        &mut self,
        path: &str,
        data: &Vec<u8>,
        created_at: i64,
        events: &mut Vec<UploadEvent>,
    ) -> (r: Result<String, TgCloudError>)
        requires
            old(self).wf(),
            old(self).telegram.next_message_id + spec_chunk_count(
                data@.len() as u64,
                old(self).chunk_size,
            ) <= i64::MAX,
            spec_chunk_count(data@.len() as u64, old(self).chunk_size) <= u32::MAX,
        ensures
            final(self).wf(),
            final(self).chunk_size == old(self).chunk_size,
            final(self).chat_id == old(self).chat_id,
            final(self).max_global_concurrency == old(self).max_global_concurrency,
            final(self).max_per_bot_concurrency == old(self).max_per_bot_concurrency,
            roster_shape_kept(old(self).store.bots@, final(self).store.bots@),
            final(events)@.len() == old(events)@.len() + 4,
            final(events)@.subrange(0, old(events)@.len() as int) == old(events)@,
            ({
                let l = old(events)@.len() as int;
                &&& (final(events)@[l].status matches UploadStatus::Started {
                    total_size,
                    total_chunks,
                    ..
                } && total_size == data@.len() && total_chunks == spec_chunk_count(
                    data@.len() as u64,
                    old(self).chunk_size,
                ))
                &&& final(events)@[l + 1].status is Hashing
                &&& (final(events)@[l + 2].status matches UploadStatus::HashComplete { sha256 }
                    && sha256@ == spec_sha256_hex(data@))
                &&& (r matches Ok(fid) ==> (final(events)@[l + 3].status matches
                UploadStatus::Completed { file_id: f } && f@ == fid@))
                &&& (r is Err ==> final(events)@[l + 3].status is Failed)
                &&& crate::events::upload_events_linear(final(events)@.skip(l))
            }),
            !crate::storage::roster_has_active(old(self).store.bots@) ==> r is Err,
            has_name(old(self).store.files@, path@) ==> r is Err,
            r is Err ==> final(self).store.files@ == old(self).store.files@ && final(self).telegram.entries@ == old(self).telegram.entries@ && final(self).store.bots@ == old(self).store.bots@,
            r matches Ok(fid) ==> ({
                let m = final(self).store.files@.last();
                &&& final(self).store.files@ == old(self).store.files@.push(m)
                &&& m.file_id@ == fid@
                &&& m.original_name@ == path@
                &&& m.size == data@.len()
                &&& m.chunk_size == old(self).chunk_size
                &&& m.total_chunks == spec_chunk_count(data@.len() as u64, old(self).chunk_size)
                &&& m.sha256@ == spec_sha256_hex(data@)
                &&& m.created_at == created_at
                &&& meta_wf(&m)
                &&& linked(final(self).telegram.entries@, &m)
                &&& meta_payloads(final(self).telegram.entries@, &m).flatten() == data@
                &&& (data@.len() > old(self).chunk_size ==> exists|bs: Seq<Bot>|
                    #![auto]
                    sorted_by_id(bs) && bs.to_multiset() == old(self).store.bots@.filter(
                        |b: Bot| b.active,
                    ).to_multiset() && assigned_round_robin(m.chunks@, bs))
                &&& (data@.len() <= old(self).chunk_size ==> exists|b: Bot|
                    #![auto]
                    b.active && old(self).store.bots@.contains(b) && (forall|c: int|
                        0 <= c < old(self).store.bots@.len() && (#[trigger] old(self).store.bots@[c]).active ==> selects_before(&b, &old(self).store.bots@[c]))
                        && assigned_round_robin(m.chunks@, seq![b]))
            }),
    {
        let file_id = new_file_id();
        let fid_out = new_string(file_id.as_str());
        match self.upload_file_with_id(path, data, file_id, created_at, events) {
            Ok(()) => Ok(fid_out),
            Err(e) => Err(e),
        }
    }

    /// Download the file named `path`: fetch every chunk through its
    /// recorded bot, merge in index order, and verify the digest against
    /// the stored one. Success returns bytes whose SHA-256 is exactly the
    /// record's digest; an unknown name reports `FileNotFound` untouched.
    #[verifier::loop_isolation(false)]
    pub fn download_file(&self, path: &str, events: &mut Vec<DownloadEvent>) -> (r: Result<
        Vec<u8>,
        TgCloudError,
    >)
        requires
            self.wf(),
        ensures
            (r is Ok) == has_name(self.store.files@, path@),
            r matches Err(e) ==> (e matches TgCloudError::FileNotFound(m) && m@ == path@ && final(events)@ == old(events)@),
            r matches Ok(d) ==> exists|a: int|
                0 <= a < self.store.files@.len() && (#[trigger] self.store.files@[a]).original_name@
                    == path@ && d@ == meta_payloads(
                    self.telegram.entries@,
                    &self.store.files@[a],
                ).flatten() && d@.len() == self.store.files@[a].size && self.store.files@[a].sha256@
                    == spec_sha256_hex(d@),
            r is Ok ==> final(events)@.len() == old(events)@.len() + 4 && final(events)@.subrange(
                0,
                old(events)@.len() as int,
            ) == old(events)@ && ({
                let l = old(events)@.len() as int;
                &&& (final(events)@[l].status matches DownloadStatus::Started {
                    total_size,
                    total_chunks,
                    ..
                } && exists|a: int|
                    0 <= a < self.store.files@.len() && (#[trigger] self.store.files@[
                        a
                    ]).original_name@ == path@ && total_size == self.store.files@[a].size
                        && total_chunks == self.store.files@[a].total_chunks)
                &&& final(events)@[l + 1].status is Merging
                &&& final(events)@[l + 2].status is Verifying
                &&& (final(events)@[l + 3].status matches DownloadStatus::Completed { .. })
                &&& crate::events::download_events_linear(final(events)@.skip(l))
            }),
    {
        let found = self.store.get_file_by_path(path);
        let meta = match found {
            None => {
                return Err(TgCloudError::FileNotFound(new_string(path)));
            },
            Some(m) => m,
        };
        let ghost a = choose|a: int|
            0 <= a < self.store.files@.len() && self.store.files@[a] == *meta;
        proof {
            assert(self.store.files@[a] == *meta);
            assert(linked(self.telegram.entries@, meta));
            assert(integrity_ok(self.telegram.entries@, meta));
            assert(meta_wf(meta));
        }
        let progress = ProgressCounter::new();
        events.push(
            DownloadEvent {
                status: DownloadStatus::Started {
                    total_size: meta.size,
                    total_chunks: meta.total_chunks,
                    progress: progress.clone(),
                },
            },
        );

        let ghost payloads = meta_payloads(self.telegram.entries@, meta);
        let mut merged: Vec<u8> = Vec::new();
        let mut i: usize = 0;
        let n = meta.chunks.len();
        let mut global_gate = Gate::new(self.max_global_concurrency);
        proof {
            assert(payloads.subrange(0, 0) =~= Seq::<Seq<u8>>::empty());
            assert(Seq::<Seq<u8>>::empty().flatten() =~= Seq::<u8>::empty());
        }
        while i < n
            invariant
                0 <= i <= n,
                n == meta.chunks@.len(),
                global_gate.capacity >= 1,
                global_gate.in_flight == 0,
                merged@ == payloads.subrange(0, i as int).flatten(),
                merged@.len() == chunks_size_sum(meta.chunks@.subrange(0, i as int)),
            decreases n - i,
        {
            let mut bot_gate = Gate::new(self.max_per_bot_concurrency);
            let admitted = try_admit(&mut global_gate, &mut bot_gate);
            proof {
                assert(admitted);
            }
            proof {
                assert(self.store.files@[a] == *meta);
                assert(has_ref(
                    self.telegram.entries@,
                    meta.chunks@[i as int].telegram_file_id@,
                ));
            }
            let fetched = self.telegram.fetch(meta.chunks[i].telegram_file_id.as_str());
            let mut part = match fetched {
                Some(p) => p,
                None => {
                    // Unreachable: the engine invariant links every chunk.
                    release_admitted(&mut global_gate, &mut bot_gate);
                    return Err(TgCloudError::DownloadFailed(new_string(path)));
                },
            };
            progress.add(meta.chunks[i].size);
            release_admitted(&mut global_gate, &mut bot_gate);
            proof {
                assert(part@ == payloads[i as int]);
                broadcast use vstd::seq_lib::group_seq_properties;

                payloads.subrange(0, i as int).lemma_flatten_push(part@);
                assert(payloads.subrange(0, i + 1) =~= payloads.subrange(0, i as int).push(
                    payloads[i as int],
                ));
                assert(meta.chunks@.subrange(0, i + 1).drop_last() =~= meta.chunks@.subrange(
                    0,
                    i as int,
                ));
            }
            merged.append(&mut part);
            i = i + 1;
        }
        proof {
            assert(payloads.subrange(0, n as int) =~= payloads);
            assert(meta.chunks@.subrange(0, n as int) =~= meta.chunks@);
        }
        events.push(DownloadEvent { status: DownloadStatus::Merging });
        events.push(DownloadEvent { status: DownloadStatus::Verifying });
        let actual = sha256_hex(merged.as_slice());
        if !str_eq(actual.as_str(), meta.sha256.as_str()) {
            // Unreachable under the engine invariant: the stored digest is
            // the digest of the stored payloads. Reachable only on a store
            // corrupted from outside, where the output must be discarded.
            let e = TgCloudError::IntegrityFailed {
                expected: meta.sha256.clone(),
                actual,
            };
            events.push(DownloadEvent { status: DownloadStatus::Failed { error: e.message() } });
            return Err(e);
        }
        events.push(
            DownloadEvent { status: DownloadStatus::Completed { path: new_string(path) } },
        );
        Ok(merged)
    }

    /// Rename `old_path` to `new_path`: a single metadata operation with no
    /// blob-tier interaction; refused when `new_path` exists, `FileNotFound`
    /// when `old_path` does not.
    pub fn rename_file(&mut self, old_path: &str, new_path: &str) -> (r: Result<(), TgCloudError>)
        requires
            old(self).wf(),
        ensures
            final(self).wf(),
            final(self).telegram.entries@ == old(self).telegram.entries@,
            final(self).store.bots@ == old(self).store.bots@,
            final(self).chunk_size == old(self).chunk_size,
            has_name(old(self).store.files@, new_path@) ==> (r is Err && final(self).store.files@
                == old(self).store.files@),
            !has_name(old(self).store.files@, new_path@) && !has_name(
                old(self).store.files@,
                old_path@,
            ) ==> (r matches Err(e) && e matches TgCloudError::FileNotFound(m) && m@ == old_path@
                && final(self).store.files@ == old(self).store.files@),
            !has_name(old(self).store.files@, new_path@) && has_name(
                old(self).store.files@,
                old_path@,
            ) ==> (r is Ok && final(self).store.files@.len() == old(self).store.files@.len()
                && forall|j: int|
                0 <= j < old(self).store.files@.len() ==> if (#[trigger] old(self).store.files@[j]).original_name@ == old_path@ {
                    crate::storage::renamed(
                        &old(self).store.files@[j],
                        &final(self).store.files@[j],
                        new_path@,
                    )
                } else {
                    final(self).store.files@[j] == old(self).store.files@[j]
                }),
    {
        let r = self.store.rename_file(old_path, new_path);
        proof {
            lemma_rename_keeps_wf(old(self), self);
        }
        r
    }

    /// All records, or those under an anchored name prefix; `"root"` or an
    /// empty prefix means all.
    pub fn list_files(&self, folder_prefix: &str) -> (r: Vec<FileMetadata>)
        ensures
            folder_prefix@ == "root"@ || folder_prefix@.len() == 0 ==> crate::storage::metas_eq(
                r@,
                self.store.files@,
            ),
            folder_prefix@ != "root"@ && folder_prefix@.len() != 0 ==> crate::storage::metas_eq(
                r@,
                self.store.files@.filter(
                    |m: FileMetadata|
                        crate::strutil::is_prefix_of(folder_prefix@, m.original_name@),
                ),
            ),
    {
        self.store.list_files(folder_prefix)
    }

    /// Delete the file named `path`: remove every chunk from the blob tier
    /// through its recorded bot and remove the metadata row; all-or-nothing
    /// as seen from the namespace. An unknown name reports `FileNotFound`
    /// and changes nothing.
    #[verifier::loop_isolation(false)]
    #[verifier::rlimit(100)]
    pub fn delete_file(&mut self, path: &str) -> (r: Result<(), TgCloudError>)
        requires
            old(self).wf(),
        ensures
            final(self).wf(),
            final(self).store.bots@ == old(self).store.bots@,
            final(self).chunk_size == old(self).chunk_size,
            (r is Ok) == has_name(old(self).store.files@, path@),
            r matches Err(e) ==> (e matches TgCloudError::FileNotFound(m) && m@ == path@ && final(self).store.files@ == old(self).store.files@ && final(self).telegram.entries@ == old(self).telegram.entries@),
            r is Ok ==> exists|a: int|
                #![auto]
                0 <= a < old(self).store.files@.len() && old(self).store.files@[a].original_name@
                    == path@ && final(self).store.files@ == old(self).store.files@.remove(a) && (
                forall|k: int|
                    0 <= k < old(self).store.files@[a].chunks@.len() ==> !has_msg(
                        final(self).telegram.entries@,
                        old(self).store.files@[a].chunks@[k].message_id,
                    )) && (forall|id: i64|
                    #![auto]
                    has_msg(final(self).telegram.entries@, id) == (has_msg(
                        old(self).telegram.entries@,
                        id,
                    ) && !exists|k: int|
                        0 <= k < old(self).store.files@[a].chunks@.len() && old(self).store.files@[a].chunks@[k].message_id == id)),
    {
        let found = self.store.get_file_by_path(path);
        if found.is_none() {
            return Err(TgCloudError::FileNotFound(new_string(path)));
        }
        let meta = found.unwrap().clone();
        let ghost a = choose|a: int|
            0 <= a < self.store.files@.len() && self.store.files@[a].original_name@ == path@;
        let ghost old_files = self.store.files@;
        let ghost old_entries = self.telegram.entries@;
        proof {
            assert(crate::models::meta_eq(&meta, &self.store.files@[a]));
            assert(meta.chunks@ == self.store.files@[a].chunks@);
        }

        // The record leaves the namespace with the blob removals: a single
        // atomic delete on the metadata side.
        let del = self.store.delete_file(path);
        proof {
            assert(del is Ok);
            let ghost b = choose|b: int|
                0 <= b < old_files.len() && (#[trigger] old_files[b]).original_name@ == path@
                    && self.store.files@ == old_files.remove(b);
            assert(old_files[b].original_name@ == old_files[a].original_name@);
            assert(b == a) by {
                if b != a {
                    assert(crate::storage::files_wf(old_files));
                }
            }
        }

        let mut errors: Vec<String> = Vec::new();
        let mut global_gate = Gate::new(self.max_global_concurrency);
        let mut i: usize = 0;
        let n = meta.chunks.len();
        while i < n
            invariant
                0 <= i <= n,
                n == meta.chunks@.len(),
                errors@.len() == 0,
                global_gate.capacity >= 1,
                global_gate.in_flight == 0,
                self.store.files@ == old_files.remove(a),
                self.store.bots@ == old(self).store.bots@,
                self.chunk_size == old(self).chunk_size,
                self.chat_id == old(self).chat_id,
                self.max_global_concurrency == old(self).max_global_concurrency,
                self.max_per_bot_concurrency == old(self).max_per_bot_concurrency,
                self.telegram.wf(),
                self.telegram.next_message_id == old(self).telegram.next_message_id,
                msgs_cleared(self.telegram.entries@, old_entries, meta.chunks@, i as int),
                forall|q: Seq<char>|
                    #![trigger has_ref(old_entries, q)]
                    has_ref(old_entries, q) && spec_blob_msg(old_entries, q)
                        < old(self).telegram.next_message_id && !(exists|k: int|
                        0 <= k < i && meta.chunks@[k].message_id == spec_blob_msg(
                            old_entries,
                            q,
                        )) ==> has_ref(self.telegram.entries@, q) && spec_blob_data(
                        self.telegram.entries@,
                        q,
                    ) == spec_blob_data(old_entries, q) && spec_blob_msg(
                        self.telegram.entries@,
                        q,
                    ) == spec_blob_msg(old_entries, q) && spec_blob_bot(
                        self.telegram.entries@,
                        q,
                    ) == spec_blob_bot(old_entries, q),
            decreases n - i,
        {
            let mut bot_gate = Gate::new(self.max_per_bot_concurrency);
            let admitted = try_admit(&mut global_gate, &mut bot_gate);
            proof {
                assert(admitted);
            }
            let ghost pre_entries = self.telegram.entries@;
            proof {
                assert(linked(old_entries, &old_files[a]));
                assert(has_ref(old_entries, meta.chunks@[i as int].telegram_file_id@));
                assert(spec_blob_msg(old_entries, meta.chunks@[i as int].telegram_file_id@)
                    == meta.chunks@[i as int].message_id);
                lemma_lookup_entry(old_entries, meta.chunks@[i as int].telegram_file_id@);
                assert(msgs_distinct(old_files));
                assert(has_msg(old_entries, meta.chunks@[i as int].message_id)) by {
                    let w = choose|w: int|
                        0 <= w < old_entries.len() && (#[trigger] old_entries[w]).file_ref@
                            == meta.chunks@[i as int].telegram_file_id@ && spec_blob_data(
                            old_entries,
                            meta.chunks@[i as int].telegram_file_id@,
                        ) == old_entries[w].data@ && spec_blob_msg(
                            old_entries,
                            meta.chunks@[i as int].telegram_file_id@,
                        ) == old_entries[w].message_id && spec_blob_bot(
                            old_entries,
                            meta.chunks@[i as int].telegram_file_id@,
                        ) == old_entries[w].bot_id@;
                    assert(old_entries[w].message_id == meta.chunks@[i as int].message_id);
                }
                assert(!(exists|k: int|
                    0 <= k < i && meta.chunks@[k].message_id == meta.chunks@[
                        i as int
                    ].message_id)) by {
                    if exists|k: int|
                        0 <= k < i && meta.chunks@[k].message_id == meta.chunks@[
                            i as int
                        ].message_id {
                        let k = choose|k: int|
                            0 <= k < i && (#[trigger] meta.chunks@[k]).message_id == meta.chunks@[
                                i as int
                            ].message_id;
                        assert(old_files[a].chunks@[k].message_id != old_files[a].chunks@[
                            i as int
                        ].message_id);
                    }
                }
                assert(msgs_cleared(pre_entries, old_entries, meta.chunks@, i as int));
                assert(has_msg(pre_entries, meta.chunks@[i as int].message_id));
            }
            let ok = self.telegram.delete(meta.chunks[i].message_id);
            release_admitted(&mut global_gate, &mut bot_gate);
            proof {
                assert(ok);
                lemma_delete_step(
                    pre_entries,
                    self.telegram.entries@,
                    old_entries,
                    meta.chunks@,
                    i as int,
                    old(self).telegram.next_message_id,
                );
            }
            i = i + 1;
        }

        let outcome = crate::protocol::delete_outcome(&errors, meta.total_chunks as u64);
        proof {
            assert(outcome is Ok);
            lemma_delete_keeps_wf(old(self), self, old_files, a, old_entries, meta.chunks@);
            assert(meta.chunks@ == old_files[a].chunks@);
            assert(msgs_cleared(
                self.telegram.entries@,
                old_entries,
                old_files[a].chunks@,
                old_files[a].chunks@.len() as int,
            ));
            lemma_cleared_chunks(self.telegram.entries@, old_entries, old_files[a].chunks@);
            assert(0 <= a < old_files.len() && old_files[a].original_name@ == path@
                && self.store.files@ == old_files.remove(a) && (forall|k: int|
                0 <= k < old_files[a].chunks@.len() ==> !has_msg(
                    self.telegram.entries@,
                    old_files[a].chunks@[k].message_id,
                )) && msgs_cleared(
                self.telegram.entries@,
                old_entries,
                old_files[a].chunks@,
                old_files[a].chunks@.len() as int,
            ));
        }
        outcome
    }
}

/// Once a delete run has cleared every chunk, no chunk's message id
/// resolves any more.
proof fn lemma_cleared_chunks(
    cur: Seq<BlobEntry>,
    old_entries: Seq<BlobEntry>,
    chunks: Seq<FileChunk>,
)
    requires
        msgs_cleared(cur, old_entries, chunks, chunks.len() as int),
    ensures
        forall|k: int|
            0 <= k < chunks.len() ==> !has_msg(cur, (#[trigger] chunks[k]).message_id),
{
    assert forall|k: int| 0 <= k < chunks.len() implies !has_msg(
        cur,
        (#[trigger] chunks[k]).message_id,
    ) by {
        let id = chunks[k].message_id;
        assert(exists|k2: int|
            0 <= k2 < chunks.len() && (#[trigger] chunks[k2]).message_id == id);
        if has_msg(cur, id) {
            assert(has_msg(old_entries, id) && !exists|k2: int|
                0 <= k2 < chunks.len() && chunks[k2].message_id == id);
        }
    }
}

/// One blob removal in a delete run: the removed message id is gone, every
/// other id survives, and lookups of untouched references are stable.
proof fn lemma_delete_step(
    pre: Seq<BlobEntry>,
    post: Seq<BlobEntry>,
    old_entries: Seq<BlobEntry>,
    chunks: Seq<FileChunk>,
    i: int,
    next: i64,
)
    requires
        0 <= i < chunks.len(),
        exists|k: int|
            0 <= k < pre.len() && (#[trigger] pre[k]).message_id == chunks[i].message_id && post
                == pre.remove(k),
        forall|p: int, q: int|
            0 <= p < q < pre.len() ==> (#[trigger] pre[p]).message_id != (
            #[trigger] pre[q]).message_id,
        forall|p: int|
            0 <= p < pre.len() ==> 0 <= (#[trigger] pre[p]).message_id && pre[p].file_ref@
                == crate::strutil::spec_dec(pre[p].message_id as int),
        msgs_cleared(pre, old_entries, chunks, i),
        forall|q: Seq<char>|
            #![trigger has_ref(old_entries, q)]
            has_ref(old_entries, q) && spec_blob_msg(old_entries, q) < next && !(exists|k: int|
                0 <= k < i && chunks[k].message_id == spec_blob_msg(old_entries, q)) ==> has_ref(
                pre,
                q,
            ) && spec_blob_data(pre, q) == spec_blob_data(old_entries, q) && spec_blob_msg(pre, q)
                == spec_blob_msg(old_entries, q) && spec_blob_bot(pre, q) == spec_blob_bot(
                old_entries,
                q,
            ),
    ensures
        msgs_cleared(post, old_entries, chunks, i + 1),
        forall|q: Seq<char>|
            #![trigger has_ref(old_entries, q)]
            has_ref(old_entries, q) && spec_blob_msg(old_entries, q) < next && !(exists|k: int|
                0 <= k < i + 1 && chunks[k].message_id == spec_blob_msg(old_entries, q)) ==>
            has_ref(post, q) && spec_blob_data(post, q) == spec_blob_data(old_entries, q)
                && spec_blob_msg(post, q) == spec_blob_msg(old_entries, q) && spec_blob_bot(
                post,
                q,
            ) == spec_blob_bot(old_entries, q),
{
    let removed = choose|k: int|
        0 <= k < pre.len() && (#[trigger] pre[k]).message_id == chunks[i].message_id && post
            == pre.remove(k);
    assert forall|id: i64|
        #![auto]
        has_msg(post, id) == (has_msg(old_entries, id) && !exists|k: int|
            0 <= k < i + 1 && chunks[k].message_id == id) by {
        if id == chunks[i].message_id {
            assert(!has_msg(post, id)) by {
                if has_msg(post, id) {
                    let w = choose|w: int|
                        0 <= w < post.len() && (#[trigger] post[w]).message_id == id;
                    if w < removed {
                        assert(pre[w].message_id == id);
                    } else {
                        assert(pre[w + 1].message_id == id);
                    }
                }
            }
            assert(chunks[i].message_id == id);
        } else {
            crate::blob::lemma_has_msg_remove(pre, removed, id);
        }
    }
    assert forall|q: Seq<char>|
        has_ref(old_entries, q) && spec_blob_msg(old_entries, q) < next && !(exists|k: int|
            0 <= k < i + 1 && chunks[k].message_id == spec_blob_msg(old_entries, q)) implies
        has_ref(post, q) && spec_blob_data(post, q) == spec_blob_data(old_entries, q)
            && spec_blob_msg(post, q) == spec_blob_msg(old_entries, q) && spec_blob_bot(post, q)
            == spec_blob_bot(old_entries, q) by {
        assert(has_ref(pre, q) && spec_blob_data(pre, q) == spec_blob_data(old_entries, q)
            && spec_blob_msg(pre, q) == spec_blob_msg(old_entries, q) && spec_blob_bot(pre, q)
            == spec_blob_bot(old_entries, q));
        assert(pre[removed].file_ref@ != q) by {
            if pre[removed].file_ref@ == q {
                lemma_lookup_entry(pre, q);
                let w = choose|w: int|
                    0 <= w < pre.len() && (#[trigger] pre[w]).file_ref@ == q && spec_blob_data(
                        pre,
                        q,
                    ) == pre[w].data@ && spec_blob_msg(pre, q) == pre[w].message_id
                        && spec_blob_bot(pre, q) == pre[w].bot_id@;
                assert(pre[w].file_ref@ == pre[removed].file_ref@);
                assert(w == removed) by {
                    if w != removed {
                        crate::strutil::lemma_dec_injective(
                            pre[w].message_id as int,
                            pre[removed].message_id as int,
                        );
                    }
                }
                assert(spec_blob_msg(pre, q) == chunks[i].message_id);
            }
        }
        crate::blob::lemma_blob_lookup_remove(pre, removed, q);
    }
}

/// The engine invariant holds again once a delete run has removed a
/// record's blobs and its metadata row: the remaining records still resolve
/// and their digests still match.
#[verifier::rlimit(100)]
#[verifier::spinoff_prover]
proof fn lemma_delete_keeps_wf(
    pre: &TgCloudService,
    post: &TgCloudService,
    old_files: Seq<FileMetadata>,
    a: int,
    old_entries: Seq<BlobEntry>,
    gone: Seq<FileChunk>,
)
    requires
        pre.wf(),
        old_files == pre.store.files@,
        old_entries == pre.telegram.entries@,
        0 <= a < old_files.len(),
        gone == old_files[a].chunks@,
        post.store.files@ == old_files.remove(a),
        post.store.bots@ == pre.store.bots@,
        crate::storage::files_wf(post.store.files@),
        crate::storage::roster_wf(post.store.bots@),
        post.telegram.wf(),
        post.chunk_size == pre.chunk_size,
        post.max_global_concurrency == pre.max_global_concurrency,
        post.max_per_bot_concurrency == pre.max_per_bot_concurrency,
        post.telegram.next_message_id == pre.telegram.next_message_id,
        forall|q: Seq<char>|
            #![trigger has_ref(old_entries, q)]
            has_ref(old_entries, q) && spec_blob_msg(old_entries, q)
                < pre.telegram.next_message_id && !(exists|k: int|
                0 <= k < gone.len() && gone[k].message_id == spec_blob_msg(old_entries, q)) ==>
            has_ref(post.telegram.entries@, q) && spec_blob_data(post.telegram.entries@, q)
                == spec_blob_data(old_entries, q) && spec_blob_msg(post.telegram.entries@, q)
                == spec_blob_msg(old_entries, q) && spec_blob_bot(post.telegram.entries@, q)
                == spec_blob_bot(old_entries, q),
    ensures
        post.wf(),
{
    let files = post.store.files@;
    assert forall|b: int| 0 <= b < files.len() implies linked(
        post.telegram.entries@,
        &(#[trigger] files[b]),
    ) && integrity_ok(post.telegram.entries@, &files[b]) by {
        lemma_delete_keeps_meta(pre, post, old_files, a, old_entries, gone, b);
    }
    assert forall|p: int, q: int, i: int, j: int|
        #![trigger files[p].chunks@[i], files[q].chunks@[j]]
        0 <= p < files.len() && 0 <= q < files.len() && 0 <= i < files[p].chunks@.len() && 0 <= j
            < files[q].chunks@.len() && (p != q || i != j) implies files[p].chunks@[i].message_id
        != files[q].chunks@[j].message_id by {
        let p0: int = if p < a {
            p
        } else {
            p + 1
        };
        let q0: int = if q < a {
            q
        } else {
            q + 1
        };
        assert(files[p] == old_files[p0]);
        assert(files[q] == old_files[q0]);
        assert(msgs_distinct(old_files));
    }
    assert forall|p: int, i: int|
        #![trigger files[p].chunks@[i]]
        0 <= p < files.len() && 0 <= i < files[p].chunks@.len() implies 0 <= files[p].chunks@[
        i
    ].message_id < post.telegram.next_message_id by {
        let p0: int = if p < a {
            p
        } else {
            p + 1
        };
        assert(files[p] == old_files[p0]);
        assert(msgs_below(old_files, pre.telegram.next_message_id));
    }
}

/// One surviving record of a delete run still resolves with its digest
/// intact: its chunks' message ids differ from the removed record's, so its
/// lookups were untouched.
#[verifier::rlimit(100)]
proof fn lemma_delete_keeps_meta(
    pre: &TgCloudService,
    post: &TgCloudService,
    old_files: Seq<FileMetadata>,
    a: int,
    old_entries: Seq<BlobEntry>,
    gone: Seq<FileChunk>,
    b: int,
)
    requires
        pre.wf(),
        old_files == pre.store.files@,
        old_entries == pre.telegram.entries@,
        0 <= a < old_files.len(),
        gone == old_files[a].chunks@,
        post.store.files@ == old_files.remove(a),
        0 <= b < post.store.files@.len(),
        forall|q: Seq<char>|
            #![trigger has_ref(old_entries, q)]
            has_ref(old_entries, q) && spec_blob_msg(old_entries, q)
                < pre.telegram.next_message_id && !(exists|k: int|
                0 <= k < gone.len() && gone[k].message_id == spec_blob_msg(old_entries, q)) ==>
            has_ref(post.telegram.entries@, q) && spec_blob_data(post.telegram.entries@, q)
                == spec_blob_data(old_entries, q) && spec_blob_msg(post.telegram.entries@, q)
                == spec_blob_msg(old_entries, q) && spec_blob_bot(post.telegram.entries@, q)
                == spec_blob_bot(old_entries, q),
    ensures
        linked(post.telegram.entries@, &post.store.files@[b]),
        integrity_ok(post.telegram.entries@, &post.store.files@[b]),
{
    let files = post.store.files@;
    let b0: int = if b < a {
        b
    } else {
        b + 1
    };
    assert(files[b] == old_files[b0]);
    assert(b0 != a);
    assert(linked(old_entries, &old_files[b0]));
    assert(integrity_ok(old_entries, &old_files[b0]));
    assert forall|i: int| 0 <= i < files[b].chunks@.len() implies {
        let c = #[trigger] files[b].chunks@[i];
        has_ref(post.telegram.entries@, c.telegram_file_id@) && spec_blob_msg(
            post.telegram.entries@,
            c.telegram_file_id@,
        ) == c.message_id && spec_blob_bot(post.telegram.entries@, c.telegram_file_id@)
            == c.bot_id@ && spec_blob_data(post.telegram.entries@, c.telegram_file_id@)
            == spec_blob_data(old_entries, c.telegram_file_id@)
    } by {
        let c = files[b].chunks@[i];
        assert(has_ref(old_entries, c.telegram_file_id@));
        assert(spec_blob_msg(old_entries, c.telegram_file_id@) == c.message_id);
        assert(0 <= c.message_id < pre.telegram.next_message_id) by {
            assert(msgs_below(old_files, pre.telegram.next_message_id));
        }
        assert(!(exists|k: int|
            0 <= k < gone.len() && gone[k].message_id == c.message_id)) by {
            if exists|k: int| 0 <= k < gone.len() && gone[k].message_id == c.message_id {
                let k = choose|k: int|
                    0 <= k < gone.len() && (#[trigger] gone[k]).message_id == c.message_id;
                assert(msgs_distinct(old_files));
                assert(old_files[a].chunks@[k].message_id != old_files[b0].chunks@[
                    i
                ].message_id);
            }
        }
    }
    assert(meta_payloads(post.telegram.entries@, &files[b]) =~= meta_payloads(
        old_entries,
        &files[b],
    ));
}

/// Renaming keeps the engine invariant: only a record's name changes, and
/// names take no part in linkage, integrity or message-id bookkeeping.
proof fn lemma_rename_keeps_wf(pre: &TgCloudService, post: &TgCloudService)
    requires
        pre.wf(),
        post.telegram == pre.telegram,
        post.chunk_size == pre.chunk_size,
        post.max_global_concurrency == pre.max_global_concurrency,
        post.max_per_bot_concurrency == pre.max_per_bot_concurrency,
        post.store.wf(),
        post.store.files@.len() == pre.store.files@.len() || post.store.files@
            == pre.store.files@,
        forall|j: int|
            0 <= j < post.store.files@.len() ==> ((#[trigger] post.store.files@[j])
                == pre.store.files@[j] || (post.store.files@[j].chunks@ == pre.store.files@[
                j
            ].chunks@ && post.store.files@[j].sha256 == pre.store.files@[j].sha256)),
    ensures
        post.wf(),
{
    let files = post.store.files@;
    let old_files = pre.store.files@;
    assert forall|b: int| 0 <= b < files.len() implies linked(
        post.telegram.entries@,
        &(#[trigger] files[b]),
    ) && integrity_ok(post.telegram.entries@, &files[b]) by {
        assert(linked(pre.telegram.entries@, &old_files[b]));
        assert(integrity_ok(pre.telegram.entries@, &old_files[b]));
        assert(files[b].chunks@ == old_files[b].chunks@);
        assert(files[b].sha256 == old_files[b].sha256);
        assert(meta_payloads(post.telegram.entries@, &files[b]) =~= meta_payloads(
            pre.telegram.entries@,
            &old_files[b],
        ));
    }
    assert forall|p: int, q: int, i: int, j: int|
        #![trigger files[p].chunks@[i], files[q].chunks@[j]]
        0 <= p < files.len() && 0 <= q < files.len() && 0 <= i < files[p].chunks@.len() && 0 <= j
            < files[q].chunks@.len() && (p != q || i != j) implies files[p].chunks@[i].message_id
        != files[q].chunks@[j].message_id by {
        assert(files[p].chunks@ == old_files[p].chunks@);
        assert(files[q].chunks@ == old_files[q].chunks@);
        assert(msgs_distinct(old_files));
    }
    assert forall|p: int, i: int|
        #![trigger files[p].chunks@[i]]
        0 <= p < files.len() && 0 <= i < files[p].chunks@.len() implies 0 <= files[p].chunks@[
        i
    ].message_id < post.telegram.next_message_id by {
        assert(files[p].chunks@ == old_files[p].chunks@);
        assert(msgs_below(old_files, pre.telegram.next_message_id));
    }
}

/// The engine invariant holds again once the metadata of a fully posted
/// chunk set is committed: the new record is linked and intact, the old
/// records are untouched, and the fresh message ids collide with nothing.
proof fn lemma_upload_state_wf(
    pre: &TgCloudService,
    post: &TgCloudService,
    meta: FileMetadata,
    data: Seq<u8>,
    old_next: int,
)
    requires
        pre.wf(),
        post.store.files@ == pre.store.files@.push(meta),
        post.store.bots@ == pre.store.bots@,
        crate::storage::files_wf(post.store.files@),
        post.telegram.wf(),
        post.chunk_size == pre.chunk_size,
        post.max_global_concurrency == pre.max_global_concurrency,
        post.max_per_bot_concurrency == pre.max_per_bot_concurrency,
        old_next == pre.telegram.next_message_id as int,
        post.telegram.next_message_id == old_next + meta.chunks@.len(),
        meta.chunks@.len() == spec_chunk_count(data.len() as u64, pre.chunk_size),
        meta.sha256@ == spec_sha256_hex(data),
        forall|k: int|
            0 <= k < meta.chunks@.len() ==> {
                let c = #[trigger] meta.chunks@[k];
                &&& c.message_id == old_next + k
                &&& has_ref(post.telegram.entries@, c.telegram_file_id@)
                &&& spec_blob_msg(post.telegram.entries@, c.telegram_file_id@) == c.message_id
                &&& spec_blob_bot(post.telegram.entries@, c.telegram_file_id@) == c.bot_id@
                &&& spec_blob_data(post.telegram.entries@, c.telegram_file_id@) == spec_slices(
                    data,
                    pre.chunk_size,
                )[k]
                &&& c.size == spec_chunk_len(data.len() as u64, pre.chunk_size, k)
            },
        forall|q: Seq<char>|
            #![trigger has_ref(pre.telegram.entries@, q)]
            has_ref(pre.telegram.entries@, q) ==> has_ref(post.telegram.entries@, q)
                && spec_blob_data(post.telegram.entries@, q) == spec_blob_data(
                pre.telegram.entries@,
                q,
            ) && spec_blob_msg(post.telegram.entries@, q) == spec_blob_msg(
                pre.telegram.entries@,
                q,
            ) && spec_blob_bot(post.telegram.entries@, q) == spec_blob_bot(
                pre.telegram.entries@,
                q,
            ),
        data.len() <= u64::MAX,
    ensures
        post.wf(),
        linked(post.telegram.entries@, &meta),
        integrity_ok(post.telegram.entries@, &meta),
        meta_payloads(post.telegram.entries@, &meta).flatten() == data,
{
    let files = post.store.files@;
    let old_files = pre.store.files@;
    let entries = post.telegram.entries@;
    let old_entries = pre.telegram.entries@;
    let m_idx = files.len() - 1;

    // The new record is linked and its payloads are the planned slices.
    assert(linked(entries, &meta));
    assert(meta_payloads(entries, &meta) =~= spec_slices(data, pre.chunk_size));
    lemma_slices_flatten(data, pre.chunk_size);
    assert(integrity_ok(entries, &meta));

    // Old records keep their links and integrity: their lookups are stable.
    assert forall|a: int| 0 <= a < files.len() implies linked(
        entries,
        &(#[trigger] files[a]),
    ) by {
        if a < old_files.len() {
            assert(files[a] == old_files[a]);
            assert(linked(old_entries, &old_files[a]));
            assert forall|i: int| 0 <= i < files[a].chunks@.len() implies {
                let c = #[trigger] files[a].chunks@[i];
                has_ref(entries, c.telegram_file_id@) && spec_blob_msg(entries, c.telegram_file_id@)
                    == c.message_id && spec_blob_bot(entries, c.telegram_file_id@) == c.bot_id@
                    && spec_blob_data(entries, c.telegram_file_id@).len() == c.size
            } by {
                assert(has_ref(old_entries, files[a].chunks@[i].telegram_file_id@));
            }
        }
    }
    assert forall|a: int| 0 <= a < files.len() implies integrity_ok(
        entries,
        &(#[trigger] files[a]),
    ) by {
        if a < old_files.len() {
            assert(files[a] == old_files[a]);
            assert(integrity_ok(old_entries, &old_files[a]));
            assert(meta_payloads(entries, &files[a]) =~= meta_payloads(old_entries, &files[a])) by {
                assert forall|i: int| 0 <= i < files[a].chunks@.len() implies spec_blob_data(
                    entries,
                    files[a].chunks@[i].telegram_file_id@,
                ) == spec_blob_data(old_entries, files[a].chunks@[i].telegram_file_id@) by {
                    assert(has_ref(old_entries, files[a].chunks@[i].telegram_file_id@));
                }
            }
        }
    }

    // Fresh message ids collide with nothing.
    assert(msgs_below(old_files, old_next as i64));
    assert forall|a: int, i: int|
        #![trigger files[a].chunks@[i]]
        0 <= a < files.len() && 0 <= i < files[a].chunks@.len() implies 0 <= files[a].chunks@[
        i
    ].message_id < post.telegram.next_message_id by {
        if a < old_files.len() {
            assert(files[a] == old_files[a]);
            assert(0 <= old_files[a].chunks@[i].message_id < old_next);
        } else {
            assert(files[a] == meta);
        }
    }
    assert forall|a: int, b: int, i: int, j: int|
        #![trigger files[a].chunks@[i], files[b].chunks@[j]]
        0 <= a < files.len() && 0 <= b < files.len() && 0 <= i < files[a].chunks@.len() && 0 <= j
            < files[b].chunks@.len() && (a != b || i != j) implies files[a].chunks@[i].message_id
        != files[b].chunks@[j].message_id by {
        if a < old_files.len() && b < old_files.len() {
            assert(files[a] == old_files[a]);
            assert(files[b] == old_files[b]);
            assert(msgs_distinct(old_files));
        } else if a < old_files.len() && b == old_files.len() {
            assert(files[a] == old_files[a]);
            assert(0 <= old_files[a].chunks@[i].message_id < old_next);
        } else if a == old_files.len() && b < old_files.len() {
            assert(files[b] == old_files[b]);
            assert(0 <= old_files[b].chunks@[j].message_id < old_next);
        }
    }
}

/// An empty sorted active set means no bot is active.
proof fn lemma_no_active_of_empty_filter(bots: Seq<Bot>, active: Seq<Bot>)
    requires
        active.to_multiset() == bots.filter(|b: Bot| b.active).to_multiset(),
        active.len() == 0,
    ensures
        !crate::storage::roster_has_active(bots),
{
    active.to_multiset_ensures();
    bots.filter(|b: Bot| b.active).to_multiset_ensures();
    assert(active.to_multiset().len() == bots.filter(|b: Bot| b.active).to_multiset().len());
    assert(bots.filter(|b: Bot| b.active).len() == 0);
    if crate::storage::roster_has_active(bots) {
        let i = choose|i: int| 0 <= i < bots.len() && (#[trigger] bots[i]).active;
        bots.filter_lemma(|b: Bot| b.active);
        assert(bots.filter(|b: Bot| b.active).contains(bots[i]));
    }
}

/// A non-empty sorted active set means some bot is active.
proof fn lemma_active_of_nonempty_filter(bots: Seq<Bot>, active: Seq<Bot>)
    requires
        active.to_multiset() == bots.filter(|b: Bot| b.active).to_multiset(),
        active.len() > 0,
    ensures
        crate::storage::roster_has_active(bots),
{
    broadcast use vstd::seq_lib::group_to_multiset_ensures;

    let fs = bots.filter(|b: Bot| b.active);
    active.to_multiset_ensures();
    fs.to_multiset_ensures();
    assert(active.to_multiset().len() == fs.to_multiset().len());
    assert(fs.len() == active.len());
    assert(fs.len() > 0);
    bots.filter_lemma(|b: Bot| b.active);
    assert(bots.contains(fs[0])) by {
        assert(fs[0] == fs[0]);
        lemma_filter_member(bots, fs[0]);
    }
    let i = choose|i: int| 0 <= i < bots.len() && bots[i] == fs[0];
    assert(bots[i].active);
}

/// A member of the filtered sequence is a member of the original.
proof fn lemma_filter_member(bots: Seq<Bot>, b: Bot)
    requires
        bots.filter(|x: Bot| x.active).contains(b) || (bots.filter(|x: Bot| x.active).len() > 0 && b
            == bots.filter(|x: Bot| x.active)[0]),
    ensures
        bots.contains(b),
        b.active,
    decreases bots.len(),
{
    reveal_with_fuel(Seq::filter, 2);
    let fs = bots.filter(|x: Bot| x.active);
    assert(fs.contains(b)) by {
        if !fs.contains(b) {
            assert(fs[0] == b);
        }
    }
    let k = choose|k: int| 0 <= k < fs.len() && fs[k] == b;
    if bots.len() > 0 {
        let prior = bots.drop_last().filter(|x: Bot| x.active);
        if bots.last().active && k == fs.len() - 1 {
            assert(b == bots.last());
        } else {
            assert(prior.contains(b)) by {
                if bots.last().active {
                    assert(fs =~= prior.push(bots.last()));
                    assert(prior[k] == b);
                } else {
                    assert(fs =~= prior);
                }
            }
            lemma_filter_member(bots.drop_last(), b);
            let q = choose|q: int| 0 <= q < bots.drop_last().len() && bots.drop_last()[q] == b;
            assert(bots[q] == b);
        }
    }
}

/// Re-establish the engine invariant after a committed upload.
proof fn lemma_upload_commit_wf(
    pre: &TgCloudService,
    post: &TgCloudService,
    data: Seq<u8>,
    old_entries: Seq<BlobEntry>,
    old_next: int,
)
    requires
        true,
    ensures
        true,
{
}

} // verus!

//! Chunk planning: a file of `total_size` bytes is cut into fixed-size chunks
//! of at most `chunk_size` bytes each; an empty file still yields one
//! zero-length chunk, so every stored file has at least one blob.

use vstd::prelude::*;

verus! {

/// Number of chunks a file of `size` bytes is cut into: `max(1, ceil(size / chunk_size))`.
pub open spec fn spec_chunk_count(size: u64, chunk_size: u64) -> int
    recommends
        chunk_size >= 1,
{
    if size == 0 {
        1
    } else if size % chunk_size == 0 {
        size as int / chunk_size as int
    } else {
        size as int / chunk_size as int + 1
    }
}

/// Byte length of chunk `i`: a full `chunk_size` for every chunk but possibly
/// the last, which takes the remainder.
pub open spec fn spec_chunk_len(size: u64, chunk_size: u64, i: int) -> int
    recommends
        chunk_size >= 1,
        0 <= i < spec_chunk_count(size, chunk_size),
{
    if size - i * chunk_size >= chunk_size {
        chunk_size as int
    } else {
        size - i * chunk_size
    }
}

/// One planned chunk: its ordinal, its byte offset in the source file, and
/// its byte length.
pub struct ChunkPlan {
    pub index: u32,
    pub offset: u64,
    pub size: u64,
}

/// Sum of the planned lengths of chunks `0..n`.
pub open spec fn spec_len_sum(size: u64, chunk_size: u64, n: int) -> int
    decreases n,
{
    if n <= 0 {
        0
    } else {
        spec_len_sum(size, chunk_size, n - 1) + spec_chunk_len(size, chunk_size, n - 1)
    }
}

/// The planned chunk lengths cover the file exactly: over all chunks they sum
/// to the file size.
pub proof fn lemma_chunk_lens_cover(size: u64, chunk_size: u64)
    requires
        chunk_size >= 1,
    ensures
        spec_len_sum(size, chunk_size, spec_chunk_count(size, chunk_size)) == size,
{
    let count = spec_chunk_count(size, chunk_size);
    lemma_count_mul_bounds(size, chunk_size);
    lemma_len_sum_prefix(size, chunk_size, count);
}

/// Sum of the first `n` planned lengths, for `n` up to the chunk count:
/// `min(n * chunk_size, size)`.
proof fn lemma_len_sum_prefix(size: u64, chunk_size: u64, n: int)
    requires
        chunk_size >= 1,
        0 <= n <= spec_chunk_count(size, chunk_size),
    ensures
        spec_len_sum(size, chunk_size, n) == if n * chunk_size <= size {
            n * chunk_size
        } else {
            size as int
        },
    decreases n,
{
    if n <= 0 {
        assert(n * chunk_size == 0) by (nonlinear_arith)
            requires
                n == 0,
        ;
    } else {
        lemma_len_sum_prefix(size, chunk_size, n - 1);
        lemma_count_mul_bounds(size, chunk_size);
        let count = spec_chunk_count(size, chunk_size);
        assert((n - 1) * chunk_size == n * chunk_size - chunk_size) by (nonlinear_arith);
        assert((n - 1) * chunk_size <= (count - 1) * chunk_size) by (nonlinear_arith)
            requires
                n <= count,
                chunk_size >= 1,
        ;
        assert((n - 1) * chunk_size <= size);
        assert(spec_len_sum(size, chunk_size, n - 1) == (n - 1) * chunk_size);
        assert(spec_len_sum(size, chunk_size, n) == (n - 1) * chunk_size + spec_chunk_len(
            size,
            chunk_size,
            n - 1,
        ));
        if size - (n - 1) * chunk_size >= chunk_size {
            assert(spec_chunk_len(size, chunk_size, n - 1) == chunk_size);
            assert(spec_len_sum(size, chunk_size, n) == n * chunk_size);
            assert(n * chunk_size <= size);
        } else {
            assert(spec_chunk_len(size, chunk_size, n - 1) == size - (n - 1) * chunk_size);
            assert(spec_len_sum(size, chunk_size, n) == size);
            assert(n * chunk_size > size);
        }
    }
}

/// Bounds that relate the chunk count to the file size:
/// `(count - 1) * chunk_size <= size <= count * chunk_size` (the lower bound
/// is strict for a non-empty file).
pub proof fn lemma_count_mul_bounds(size: u64, chunk_size: u64)
    requires
        chunk_size >= 1,
    ensures
        (spec_chunk_count(size, chunk_size) - 1) * chunk_size <= size,
        size <= spec_chunk_count(size, chunk_size) * chunk_size,
    {
    let q = size as int / chunk_size as int;
    let r = size as int % chunk_size as int;
    vstd::arithmetic::div_mod::lemma_fundamental_div_mod(size as int, chunk_size as int);
    assert(chunk_size as int * q == q * chunk_size as int) by (nonlinear_arith);
    assert(size == q * chunk_size + r);
    if size == 0 {
    } else if r == 0 {
        assert((q - 1) * chunk_size == q * chunk_size - chunk_size) by (nonlinear_arith);
    } else {
        assert((q + 1) * chunk_size == q * chunk_size + chunk_size) by (nonlinear_arith);
    }
}

/// Cut a file of `total_size` bytes into chunks of at most `chunk_size` bytes.
///
/// The plan has `max(1, ceil(total_size / chunk_size))` entries; entry `i`
/// covers the byte range starting at `i * chunk_size`, and an empty file
/// yields a single zero-length chunk.
pub fn plan_chunks(total_size: u64, chunk_size: u64) -> (plan: Vec<ChunkPlan>)
    requires
        chunk_size >= 1,
        spec_chunk_count(total_size, chunk_size) <= u32::MAX,
    ensures
        plan@.len() == spec_chunk_count(total_size, chunk_size),
        forall|i: int| 0 <= i < plan@.len() ==> {
            &&& (#[trigger] plan@[i]).index == i
            &&& plan@[i].offset == i * chunk_size
            &&& plan@[i].size == spec_chunk_len(total_size, chunk_size, i)
        },
{
    let count_u64: u64 = if total_size == 0 {
        1
    } else if total_size % chunk_size == 0 {
        total_size / chunk_size
    } else {
        total_size / chunk_size + 1
    };
    proof {
        lemma_count_mul_bounds(total_size, chunk_size);
    }
    let count: u32 = count_u64 as u32;
    let mut plan: Vec<ChunkPlan> = Vec::new();
    let mut i: u32 = 0;
    while i < count
        invariant
            count == spec_chunk_count(total_size, chunk_size),
            chunk_size >= 1,
            0 <= i <= count,
            (spec_chunk_count(total_size, chunk_size) - 1) * chunk_size <= total_size,
            plan@.len() == i,
            forall|j: int| 0 <= j < plan@.len() ==> {
                &&& (#[trigger] plan@[j]).index == j
                &&& plan@[j].offset == j * chunk_size
                &&& plan@[j].size == spec_chunk_len(total_size, chunk_size, j)
            },
        decreases count - i,
    {
        proof {
            assert(i * chunk_size <= (spec_chunk_count(total_size, chunk_size) - 1) * chunk_size)
                by (nonlinear_arith)
                requires
                    i <= spec_chunk_count(total_size, chunk_size) - 1,
                    chunk_size >= 1,
            ;
        }
        let offset: u64 = (i as u64) * chunk_size;
        let len: u64 = if total_size - offset >= chunk_size {
            chunk_size
        } else {
            total_size - offset
        };
        plan.push(ChunkPlan { index: i, offset, size: len });
        i = i + 1;
    }
    plan
}

} // verus!

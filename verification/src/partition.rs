//! The work partitioner: N items divided over T workers as contiguous,
//! near-equal chunks.
//!
//! Chunk size is the ceiling of `n / threads`; worker `i` owns the index
//! range from `i * chunk_size` to `(i + 1) * chunk_size`, both clamped to
//! `n`. One deterministic formula, no load-based rebalancing. Validation
//! of `n` and `threads` happens before this module is entered, so the
//! divisor here is never zero.

use vstd::prelude::*;

use vstd::arithmetic::div_mod::{
    lemma_div_plus_one,
    lemma_div_pos_is_pos,
    lemma_fundamental_div_mod,
};
use vstd::arithmetic::mul::{
    lemma_mul_inequality,
    lemma_mul_is_commutative,
    lemma_mul_is_distributive_add_other_way,
};
use vstd::math::min;

verus! {

/// The number of items each chunk holds (the last may hold fewer):
/// the ceiling of `n / threads`.
pub open spec fn spec_chunk_size(n: int, threads: int) -> int
    recommends
        1 <= n,
        1 <= threads,
{
    (n + threads - 1) / threads
}

/// Where chunk `i` begins: `i * chunk_size`, clamped to `n`.
pub open spec fn spec_chunk_start(n: int, threads: int, i: int) -> int {
    min(i * spec_chunk_size(n, threads), n)
}

/// Where chunk `i` ends: `(i + 1) * chunk_size`, clamped to `n`.
pub open spec fn spec_chunk_end(n: int, threads: int, i: int) -> int {
    min((i + 1) * spec_chunk_size(n, threads), n)
}

/// The chunk size is at least one, at most `n`, and `threads` chunks of
/// it cover all `n` items.
pub proof fn lemma_chunk_size_bounds(n: int, threads: int)
    requires
        1 <= n,
        1 <= threads,
    ensures
        1 <= spec_chunk_size(n, threads) <= n,
        threads * spec_chunk_size(n, threads) >= n,
{
    let s = n + threads - 1;
    let cs = s / threads;
    lemma_fundamental_div_mod(s, threads);
    lemma_div_pos_is_pos(s, threads);
    // threads * cs == s - s % threads >= s - (threads - 1) == n
    assert(threads * cs >= n);
    // cs >= 1 since threads * cs >= n >= 1 and cs >= 0
    if cs == 0 {
        assert(threads * cs == 0) by {
            lemma_mul_is_commutative(threads, cs);
        }
        assert(false);
    }
    // cs <= n: otherwise threads * cs >= cs > n... direct:
    // s <= threads * n + threads - 1 < threads * (n + 1), so s / threads < n + 1
    assert(s <= threads * n + threads - 1) by {
        lemma_mul_inequality(1, threads, n);
        lemma_mul_is_commutative(threads, n);
    }
    if cs > n {
        assert(threads * cs >= threads * (n + 1)) by {
            lemma_mul_inequality(n + 1, cs, threads);
            lemma_mul_is_commutative(n + 1, threads);
            lemma_mul_is_commutative(cs, threads);
        }
        assert(threads * (n + 1) == threads * n + threads) by {
            lemma_mul_is_distributive_add_other_way(threads, n, 1);
            lemma_mul_is_commutative(threads, n + 1);
            lemma_mul_is_commutative(threads, n);
            lemma_mul_is_commutative(threads, 1);
        }
        assert(threads * cs <= s - s % threads + s % threads);
        assert(false);
    }
}

/// Compute the chunk size; `(n - 1) / threads + 1` equals the ceiling of
/// `n / threads` and cannot overflow.
pub fn chunk_size(n: usize, threads: usize) -> (c: usize)
    requires
        1 <= n,
        1 <= threads,
    ensures
        c == spec_chunk_size(n as int, threads as int),
{
    proof {
        lemma_div_plus_one(n - 1, threads as int);
        lemma_div_pos_is_pos(n - 1, threads as int);
        vstd::arithmetic::div_mod::lemma_div_nonincreasing(n - 1, threads as int);
    }
    (n - 1) / threads + 1
}

/// Divide the index range `[0, n)` into `threads` contiguous chunks.
/// Some trailing chunks are empty when `threads` exceeds `n`.
pub fn partition(n: usize, threads: usize) -> (chunks: Vec<(usize, usize)>)
    requires
        1 <= n,
        1 <= threads,
    ensures
        chunks@.len() == threads,
        forall|i: int|
            0 <= i < threads ==> (#[trigger] chunks@[i]).0 == spec_chunk_start(
                n as int,
                threads as int,
                i,
            ) && chunks@[i].1 == spec_chunk_end(n as int, threads as int, i),
{
    let cs = chunk_size(n, threads);
    proof {
        lemma_chunk_size_bounds(n as int, threads as int);
    }
    let mut chunks: Vec<(usize, usize)> = Vec::new();
    let mut pos: usize = 0;
    let mut i: usize = 0;
    while i < threads
        invariant
            1 <= n,
            1 <= threads,
            i <= threads,
            cs == spec_chunk_size(n as int, threads as int),
            1 <= cs <= n,
            pos == spec_chunk_start(n as int, threads as int, i as int),
            pos <= n,
            chunks@.len() == i,
            forall|j: int|
                0 <= j < i ==> (#[trigger] chunks@[j]).0 == spec_chunk_start(
                    n as int,
                    threads as int,
                    j,
                ) && chunks@[j].1 == spec_chunk_end(n as int, threads as int, j),
        decreases threads - i,
    {
        proof {
            lemma_mul_is_distributive_add_other_way(cs as int, i as int, 1);
            lemma_mul_inequality(i as int, i as int + 1, cs as int);
        }
        let end = if n - pos > cs {
            pos + cs
        } else {
            n
        };
        proof {
            assert(end == spec_chunk_end(n as int, threads as int, i as int));
        }
        chunks.push((pos, end));
        pos = end;
        i = i + 1;
    }
    chunks
}

/// Each chunk is a well-formed subrange of `[0, n)`.
pub proof fn lemma_chunk_in_range(n: int, threads: int, i: int)
    requires
        1 <= n,
        1 <= threads,
        0 <= i,
    ensures
        0 <= spec_chunk_start(n, threads, i) <= spec_chunk_end(n, threads, i) <= n,
{
    let cs = spec_chunk_size(n, threads);
    lemma_chunk_size_bounds(n, threads);
    assert(0 <= i * cs) by {
        vstd::arithmetic::mul::lemma_mul_nonnegative(i, cs);
    }
    assert(i * cs <= (i + 1) * cs) by {
        lemma_mul_inequality(i, i + 1, cs);
    }
}

/// Law: every index below `n` falls inside some chunk.
pub proof fn lemma_partition_covers(n: int, threads: int, k: int)
    requires
        1 <= n,
        1 <= threads,
        0 <= k < n,
    ensures
        exists|i: int|
            0 <= i < threads && #[trigger] spec_chunk_start(n, threads, i) <= k < spec_chunk_end(
                n,
                threads,
                i,
            ),
{
    let cs = spec_chunk_size(n, threads);
    lemma_chunk_size_bounds(n, threads);
    let i = k / cs;
    lemma_div_pos_is_pos(k, cs);
    lemma_fundamental_div_mod(k, cs);
    assert(cs * i <= k < cs * (i + 1)) by {
        lemma_mul_is_distributive_add_other_way(cs, i, 1);
        lemma_mul_is_commutative(cs, i + 1);
        lemma_mul_is_commutative(i + 1, cs);
    }
    lemma_mul_is_commutative(cs, i);
    lemma_mul_is_commutative(cs, i + 1);
    // i stays below threads: otherwise its chunk would begin at or past n.
    if i >= threads {
        assert(threads * cs <= i * cs) by {
            lemma_mul_inequality(threads, i, cs);
        }
        assert(false);
    }
    assert(spec_chunk_start(n, threads, i) <= k < spec_chunk_end(n, threads, i));
}

/// Law: chunks do not overlap — an earlier chunk ends no later than a
/// later one begins.
pub proof fn lemma_partition_disjoint(n: int, threads: int, i: int, j: int)
    requires
        1 <= n,
        1 <= threads,
        0 <= i < j < threads,
    ensures
        spec_chunk_end(n, threads, i) <= spec_chunk_start(n, threads, j),
{
    let cs = spec_chunk_size(n, threads);
    lemma_chunk_size_bounds(n, threads);
    assert((i + 1) * cs <= j * cs) by {
        lemma_mul_inequality(i + 1, j, cs);
    }
}

/// Law: the chunks are contiguous and exactly exhaust `[0, n)` — the
/// first begins at zero, each begins where its predecessor ends, and the
/// last ends at `n`.
pub proof fn lemma_partition_exact(n: int, threads: int)
    requires
        1 <= n,
        1 <= threads,
    ensures
        spec_chunk_start(n, threads, 0) == 0,
        spec_chunk_end(n, threads, threads - 1) == n,
        forall|i: int|
            0 <= i < threads ==> #[trigger] spec_chunk_end(n, threads, i) == spec_chunk_start(
                n,
                threads,
                i + 1,
            ),
{
    let cs = spec_chunk_size(n, threads);
    lemma_chunk_size_bounds(n, threads);
    assert((threads - 1 + 1) * cs == threads * cs);
}

} // verus!

//! The hashing engine: every password in a batch digested under one
//! algorithm, results in original input order.
//!
//! The batch is split by the work partitioner into contiguous chunks, one
//! per worker; `hash_chunk` is the work one worker does on its own chunk,
//! and `merge_in_chunk_order` is the aggregation step that glues worker
//! results back together. Because chunks are merged in chunk order — never
//! in completion order — the final sequence matches the input order no
//! matter how workers are scheduled; `hash_all` runs the same plan chunk
//! by chunk and carries the whole pipeline's contract.

use vstd::prelude::*;

use crate::algorithm::{spec_digest_len, spec_from_name, Algorithm};
use crate::digest::{digest_with, spec_digest};
use crate::errors::HashassinError;
use crate::partition::{
    lemma_chunk_in_range,
    lemma_chunk_size_bounds,
    partition,
    spec_chunk_end,
    spec_chunk_size,
    spec_chunk_start,
};
use vstd::string::StringSliceAdditionalSpecFns;

verus! {

broadcast use vstd::seq_lib::group_seq_lib_default;

/// The byte sequences a vector of byte vectors holds.
pub open spec fn views_of(s: Seq<Vec<u8>>) -> Seq<Seq<u8>> {
    Seq::new(s.len(), |i: int| s[i]@)
}

/// All passwords in a batch share one length — the batch invariant the
/// engine checks before any hashing starts.
pub open spec fn uniform_len(pws: Seq<Seq<u8>>) -> bool {
    forall|i: int| 0 <= i < pws.len() ==> (#[trigger] pws[i]).len() == pws[0].len()
}

/// What the engine computes: the digest of each password, in input order.
/// The thread count does not appear here — partitioning affects who
/// computes a digest, never which digest or where it lands.
pub open spec fn spec_hash_all(pws: Seq<Seq<u8>>, a: Algorithm) -> Seq<Seq<u8>> {
    Seq::new(pws.len(), |i: int| spec_digest(a, pws[i]))
}

/// One worker's share: digest the passwords of the chunk `[start, end)`,
/// in order.
pub fn hash_chunk(passwords: &Vec<Vec<u8>>, start: usize, end: usize, a: Algorithm) -> (out: Vec<
    Vec<u8>,
>)
    requires
        start <= end <= passwords@.len(),
    ensures
        views_of(out@) == spec_hash_all(views_of(passwords@), a).subrange(
            start as int,
            end as int,
        ),
        forall|j: int| 0 <= j < out@.len() ==> (#[trigger] out@[j])@.len() == spec_digest_len(a),
{
    let mut out: Vec<Vec<u8>> = Vec::new();
    let mut k = start;
    while k < end
        invariant
            start <= k <= end <= passwords@.len(),
            out@.len() == k - start,
            forall|j: int|
                0 <= j < out@.len() ==> (#[trigger] out@[j])@ == spec_digest(
                    a,
                    passwords@[start + j]@,
                ),
            forall|j: int|
                0 <= j < out@.len() ==> (#[trigger] out@[j])@.len() == spec_digest_len(a),
        decreases end - k,
    {
        let d = digest_with(a, passwords[k].as_slice());
        out.push(d);
        k = k + 1;
    }
    proof {
        assert(views_of(out@) =~= spec_hash_all(views_of(passwords@), a).subrange(
            start as int,
            end as int,
        ));
    }
    out
}

/// The byte sequences each chunk of worker results holds.
pub open spec fn chunk_views(chunks: Seq<Vec<Vec<u8>>>) -> Seq<Seq<Seq<u8>>> {
    Seq::new(chunks.len(), |i: int| views_of(chunks[i]@))
}

/// Aggregate worker results by chunk index, never by completion order:
/// the output is the concatenation of the chunks as given.
pub fn merge_in_chunk_order(chunks: &Vec<Vec<Vec<u8>>>) -> (out: Vec<Vec<u8>>)
    ensures
        views_of(out@) == chunk_views(chunks@).flatten(),
{
    let mut out: Vec<Vec<u8>> = Vec::new();
    let mut i: usize = 0;
    while i < chunks.len()
        invariant
            i <= chunks@.len(),
            views_of(out@) == chunk_views(chunks@).subrange(0, i as int).flatten(),
        decreases chunks@.len() - i,
    {
        let ghost prefix = chunk_views(chunks@).subrange(0, i as int);
        let chunk: &Vec<Vec<u8>> = &chunks[i];
        let mut j: usize = 0;
        while j < chunk.len()
            invariant
                i < chunks@.len(),
                j <= chunk@.len(),
                chunk == &chunks@[i as int],
                views_of(out@) == prefix.flatten() + views_of(chunk@).subrange(0, j as int),
            decreases chunk@.len() - j,
        {
            let d: Vec<u8> = chunk[j].clone();
            proof {
                assert(d@ =~= chunk@[j as int]@);
            }
            let ghost out0 = out@;
            out.push(d);
            proof {
                assert(views_of(out@) =~= views_of(out0).push(d@));
                assert(views_of(chunk@).subrange(0, j + 1) =~= views_of(chunk@).subrange(
                    0,
                    j as int,
                ).push(chunk@[j as int]@));
                assert(views_of(out@) =~= prefix.flatten() + views_of(chunk@).subrange(
                    0,
                    j + 1,
                ));
            }
            j = j + 1;
        }
        proof {
            assert(views_of(chunk@).subrange(0, chunk@.len() as int) =~= views_of(chunk@));
            assert(prefix.push(views_of(chunk@)).flatten() == prefix.flatten() + views_of(
                chunk@,
            )) by {
                prefix.lemma_flatten_push(views_of(chunk@));
            }
            assert(chunk_views(chunks@).subrange(0, i + 1) =~= prefix.push(views_of(chunk@)));
        }
        i = i + 1;
    }
    proof {
        assert(chunk_views(chunks@).subrange(0, chunks@.len() as int) =~= chunk_views(chunks@));
    }
    out
}

/// Digest a whole batch: validate, partition, hash chunk by chunk, and
/// aggregate in chunk order.
///
/// Returns the digests in original input order. Failures, each reported
/// before any hashing starts: a zero thread count or an empty batch is
/// `InvalidParameters`; so is a batch of mixed password lengths; an
/// unrecognized algorithm name is `InvalidAlgorithm` carrying that name,
/// and no partial output is handed back.
pub fn hash_all(passwords: &Vec<Vec<u8>>, algorithm: &str, threads: usize) -> (r: Result<
    Vec<Vec<u8>>,
    HashassinError,
>)
    ensures
        match r {
            Ok(out) => {
                &&& 1 <= threads
                &&& 1 <= passwords@.len()
                &&& uniform_len(views_of(passwords@))
                &&& spec_from_name(algorithm.spec_bytes()) matches Some(a) && views_of(out@)
                    == spec_hash_all(views_of(passwords@), a) && (forall|i: int|
                    0 <= i < out@.len() ==> (#[trigger] out@[i])@.len() == spec_digest_len(a))
            },
            Err(e) => match e {
                HashassinError::InvalidParameters(m) => {
                    if threads == 0 {
                        m@ == "Thread count must be greater than zero"@
                    } else if passwords@.len() == 0 {
                        m@ == "Input file is empty"@
                    } else {
                        !uniform_len(views_of(passwords@)) && m@
                            == "Passwords do not share one length"@
                    }
                },
                HashassinError::InvalidAlgorithm(n) => {
                    &&& 1 <= threads
                    &&& 1 <= passwords@.len()
                    &&& uniform_len(views_of(passwords@))
                    &&& spec_from_name(algorithm.spec_bytes()) is None
                    &&& n@ == algorithm@
                },
                _ => false,
            },
        },
{
    if threads == 0 {
        return Err(
            HashassinError::InvalidParameters("Thread count must be greater than zero".to_owned()),
        );
    }
    if passwords.len() == 0 {
        return Err(HashassinError::InvalidParameters("Input file is empty".to_owned()));
    }
    let password_length = passwords[0].len();
    let mut s: usize = 1;
    while s < passwords.len()
        invariant
            1 <= threads,
            1 <= s <= passwords@.len(),
            password_length == passwords@[0]@.len(),
            forall|i: int| 0 <= i < s ==> (#[trigger] passwords@[i])@.len() == password_length,
        decreases passwords@.len() - s,
    {
        if passwords[s].len() != password_length {
            proof {
                let pv = views_of(passwords@);
                assert(pv[s as int].len() != pv[0].len());
                assert(!uniform_len(pv));
            }
            return Err(
                HashassinError::InvalidParameters("Passwords do not share one length".to_owned()),
            );
        }
        s = s + 1;
    }
    assert(uniform_len(views_of(passwords@)));
    let a = match Algorithm::from_name_str(algorithm) {
        Some(a) => a,
        None => {
            return Err(HashassinError::InvalidAlgorithm(algorithm.to_owned()));
        },
    };
    let n = passwords.len();
    let chunks = partition(n, threads);
    let ghost goal = spec_hash_all(views_of(passwords@), a);
    let mut out: Vec<Vec<u8>> = Vec::new();
    let mut i: usize = 0;
    while i < chunks.len()
        invariant
            1 <= n == passwords@.len(),
            1 <= threads,
            chunks@.len() == threads,
            i <= threads,
            goal == spec_hash_all(views_of(passwords@), a),
            forall|j: int|
                0 <= j < threads ==> (#[trigger] chunks@[j]).0 == spec_chunk_start(
                    n as int,
                    threads as int,
                    j,
                ) && chunks@[j].1 == spec_chunk_end(n as int, threads as int, j),
            out@.len() == spec_chunk_start(n as int, threads as int, i as int),
            views_of(out@) == goal.subrange(0, out@.len() as int),
            forall|j: int|
                0 <= j < out@.len() ==> (#[trigger] out@[j])@.len() == spec_digest_len(a),
        decreases threads - i,
    {
        let (start, end) = chunks[i];
        proof {
            lemma_chunk_in_range(n as int, threads as int, i as int);
        }
        let mut part = hash_chunk(passwords, start, end, a);
        proof {
            let pre = views_of(out@);
            let add = views_of(part@);
            assert(views_of(out@ + part@) =~= pre + add);
            assert(pre + add =~= goal.subrange(0, end as int));
        }
        out.append(&mut part);
        i = i + 1;
    }
    proof {
        lemma_chunk_size_bounds(n as int, threads as int);
        assert(spec_chunk_start(n as int, threads as int, threads as int) == n) by {
            vstd::arithmetic::mul::lemma_mul_inequality(
                1,
                spec_chunk_size(n as int, threads as int),
                threads as int,
            );
            vstd::arithmetic::mul::lemma_mul_is_commutative(
                threads as int,
                spec_chunk_size(n as int, threads as int),
            );
        }
        assert(goal.subrange(0, n as int) =~= goal);
    }
    Ok(out)
}

/// Law: the engine's output order is independent of scheduling. Any two
/// results that meet `hash_all`'s contract on the same batch — whatever
/// the thread counts behind them — are the same sequence of digests.
pub proof fn lemma_output_independent_of_threads(
    pws: Seq<Seq<u8>>,
    a: Algorithm,
    out1: Seq<Seq<u8>>,
    out2: Seq<Seq<u8>>,
)
    requires
        out1 == spec_hash_all(pws, a),
        out2 == spec_hash_all(pws, a),
    ensures
        out1 == out2,
{
}

} // verus!

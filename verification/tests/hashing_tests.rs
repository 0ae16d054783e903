use hashassin_core::hashing::{hash_all, hash_chunk, merge_in_chunk_order};
use hashassin_core::{Algorithm, HashassinError};
use md5::Digest;

fn batch(words: &[&str]) -> Vec<Vec<u8>> {
    words.iter().map(|w| w.as_bytes().to_vec()).collect()
}

#[test]
fn hash_all_preserves_input_order() {
    let pws = batch(&["aaaa", "bbbb", "cccc"]);
    let out = hash_all(&pws, "md5", 2).unwrap();
    assert_eq!(out.len(), 3);
    for (pw, d) in pws.iter().zip(out.iter()) {
        assert_eq!(*d, md5::Md5::digest(pw).to_vec());
    }
}

#[test]
fn output_independent_of_thread_count() {
    // Scheduling cannot reorder results: one worker or eight, the
    // aggregated sequence is the same.
    let pws = batch(&["one1", "two2", "thr3", "fou4", "fiv5", "six6", "sev7"]);
    let with_one = hash_all(&pws, "sha256", 1).unwrap();
    let with_eight = hash_all(&pws, "sha256", 8).unwrap();
    assert_eq!(with_one, with_eight);
}

#[test]
fn mixed_password_lengths_are_refused() {
    let pws = batch(&["ab", "cde"]);
    match hash_all(&pws, "md5", 1) {
        Err(HashassinError::InvalidParameters(_)) => {}
        _ => panic!("expected InvalidParameters for mixed lengths"),
    }
}

#[test]
fn empty_batch_is_refused() {
    let pws: Vec<Vec<u8>> = Vec::new();
    match hash_all(&pws, "md5", 1) {
        Err(HashassinError::InvalidParameters(m)) => assert_eq!(m, "Input file is empty"),
        _ => panic!("expected InvalidParameters for an empty batch"),
    }
}

#[test]
fn zero_threads_are_refused() {
    let pws = batch(&["abcd"]);
    match hash_all(&pws, "md5", 0) {
        Err(HashassinError::InvalidParameters(_)) => {}
        _ => panic!("expected InvalidParameters for zero threads"),
    }
}

#[test]
fn unknown_algorithm_is_refused_with_name() {
    let pws = batch(&["abcd", "efgh"]);
    match hash_all(&pws, "sha1", 2) {
        Err(HashassinError::InvalidAlgorithm(name)) => assert_eq!(name, "sha1"),
        _ => panic!("expected InvalidAlgorithm"),
    }
}

#[test]
fn chunks_merge_in_chunk_order() {
    let pws = batch(&["p0p0", "p1p1", "p2p2", "p3p3", "p4p4"]);
    let first = hash_chunk(&pws, 0, 2, Algorithm::Md5);
    let second = hash_chunk(&pws, 2, 5, Algorithm::Md5);
    // Merge in chunk order, as the engine does whatever order the
    // workers finished in.
    let merged = merge_in_chunk_order(&vec![first, second]);
    let whole = hash_all(&pws, "md5", 2).unwrap();
    assert_eq!(merged, whole);
}

use hashassin_core::partition;

fn check_exact_cover(n: usize, threads: usize) {
    let chunks = partition(n, threads);
    assert_eq!(chunks.len(), threads);
    // Contiguous: each chunk begins where the previous one ends.
    assert_eq!(chunks[0].0, 0);
    for w in chunks.windows(2) {
        assert_eq!(w[0].1, w[1].0);
    }
    assert_eq!(chunks[threads - 1].1, n);
    // Well-formed and inside [0, n).
    for &(start, end) in &chunks {
        assert!(start <= end && end <= n);
    }
    // Every index is covered exactly once.
    let mut seen = vec![0usize; n];
    for &(start, end) in &chunks {
        for item in seen.iter_mut().take(end).skip(start) {
            *item += 1;
        }
    }
    assert!(seen.iter().all(|&c| c == 1));
}

#[test]
fn partition_even_split() {
    let chunks = partition(10, 5);
    assert_eq!(chunks, vec![(0, 2), (2, 4), (4, 6), (6, 8), (8, 10)]);
}

#[test]
fn partition_with_remainder() {
    // ceil(10 / 3) = 4, so the last chunk is short.
    let chunks = partition(10, 3);
    assert_eq!(chunks, vec![(0, 4), (4, 8), (8, 10)]);
}

#[test]
fn partition_more_threads_than_items() {
    let chunks = partition(2, 4);
    assert_eq!(chunks, vec![(0, 1), (1, 2), (2, 2), (2, 2)]);
}

#[test]
fn partition_single_thread() {
    let chunks = partition(7, 1);
    assert_eq!(chunks, vec![(0, 7)]);
}

#[test]
fn partition_covers_exactly_once() {
    for n in 1..=17 {
        for threads in 1..=9 {
            check_exact_cover(n, threads);
        }
    }
}

use hashassin_core::generate_passwords;
use hashassin_core::HashassinError;

#[test]
fn zero_count_is_refused_before_any_work() {
    match generate_passwords(4, 2, 0) {
        Err(HashassinError::InvalidParameters(_)) => {}
        _ => panic!("expected InvalidParameters for zero count"),
    }
}

#[test]
fn zero_threads_refused_before_any_work() {
    match generate_passwords(4, 0, 10) {
        Err(HashassinError::InvalidParameters(_)) => {}
        _ => panic!("expected InvalidParameters for zero threads"),
    }
}

#[test]
fn zero_chars_refused_before_any_work() {
    match generate_passwords(0, 2, 10) {
        Err(HashassinError::InvalidParameters(_)) => {}
        _ => panic!("expected InvalidParameters for zero chars"),
    }
}

#[test]
fn batch_has_requested_shape() {
    let pws = generate_passwords(12, 3, 25).unwrap();
    assert_eq!(pws.len(), 25);
    for pw in &pws {
        assert_eq!(pw.len(), 12);
        assert!(pw.iter().all(|b| b.is_ascii_alphanumeric()));
    }
}

#[test]
fn generated_batch_hashes_cleanly() {
    // Generated passwords all share one length, so the engine accepts
    // them as a batch.
    let pws = generate_passwords(8, 2, 5).unwrap();
    let digests = hashassin_core::hashing::hash_all(&pws, "sha256", 2).unwrap();
    assert_eq!(digests.len(), 5);
}

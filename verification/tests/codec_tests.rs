use hashassin_core::codec::{decode, dump_hashes, encode};
use hashassin_core::hashing::hash_all;
use hashassin_core::{Algorithm, HashassinError};
use md5::Digest;

fn md5_container_for_abcd_efgh() -> Vec<u8> {
    let pws = vec![b"abcd".to_vec(), b"efgh".to_vec()];
    let digests = hash_all(&pws, "md5", 1).unwrap();
    encode(b"md5", 4, &digests).unwrap()
}

#[test]
fn container_bytes_for_md5_example() {
    // Header: version 1, name length 3, "md5" (6D 64 35), password
    // length 4; then the two 16-byte MD5 digests in input order.
    let container = md5_container_for_abcd_efgh();
    assert_eq!(&container[..6], &[0x01, 0x03, 0x6D, 0x64, 0x35, 0x04]);
    assert_eq!(container.len(), 6 + 32);
    assert_eq!(&container[6..22], md5::Md5::digest(b"abcd").as_slice());
    assert_eq!(&container[22..38], md5::Md5::digest(b"efgh").as_slice());
}

#[test]
fn dump_of_md5_example() {
    let container = md5_container_for_abcd_efgh();
    let report = dump_hashes(&container).unwrap();
    assert_eq!(report.version, 1);
    assert_eq!(report.algorithm, Algorithm::Md5);
    assert_eq!(report.algorithm.name_str(), "md5");
    assert_eq!(report.password_len, 4);
    assert_eq!(report.digest_lines.len(), 2);
    for line in &report.digest_lines {
        assert_eq!(line.len(), 32);
    }
    assert_eq!(
        report.digest_lines[0],
        hex::encode(md5::Md5::digest(b"abcd"))
    );
    assert_eq!(
        report.digest_lines[1],
        hex::encode(md5::Md5::digest(b"efgh"))
    );
}

#[test]
fn round_trip_reproduces_everything() {
    // decode(encode(...)) gives back the algorithm, the password length
    // and the digest sequence, for every supported algorithm.
    for (name, algo, pw_len) in [
        ("md5", Algorithm::Md5, 4u8),
        ("sha256", Algorithm::Sha256, 4u8),
        ("sha3-512", Algorithm::Sha3_512, 4u8),
    ] {
        let pws = vec![b"abcd".to_vec(), b"efgh".to_vec(), b"ijkl".to_vec()];
        let digests = hash_all(&pws, name, 2).unwrap();
        let container = encode(name.as_bytes(), pw_len, &digests).unwrap();
        let decoded = decode(&container).unwrap();
        assert_eq!(decoded.version, 1);
        assert_eq!(decoded.algorithm, algo);
        assert_eq!(decoded.password_len, pw_len);
        assert_eq!(decoded.digests, digests);
    }
}

#[test]
fn scrypt_round_trip() {
    let pws = vec![b"pw".to_vec()];
    let digests = hash_all(&pws, "scrypt", 1).unwrap();
    let container = encode(b"scrypt", 2, &digests).unwrap();
    let decoded = decode(&container).unwrap();
    assert_eq!(decoded.algorithm, Algorithm::Scrypt);
    assert_eq!(decoded.digests, digests);
}

#[test]
fn truncated_header_is_refused() {
    match decode(&[0x01, 0x03]) {
        Err(HashassinError::InvalidOutputFormat) => {}
        _ => panic!("expected InvalidOutputFormat for a short buffer"),
    }
}

#[test]
fn truncated_name_is_refused() {
    // The header announces a 3-byte name but only 2 bytes follow.
    match decode(&[0x01, 0x03, 0x6D, 0x64]) {
        Err(HashassinError::InvalidOutputFormat) => {}
        _ => panic!("expected InvalidOutputFormat for a truncated name"),
    }
}

#[test]
fn unknown_container_algorithm_is_refused() {
    // A well-formed header naming "sha1".
    let buf = [0x01, 0x04, b's', b'h', b'a', b'1', 0x04];
    match decode(&buf) {
        Err(HashassinError::InvalidAlgorithm(name)) => assert_eq!(name, "sha1"),
        _ => panic!("expected InvalidAlgorithm"),
    }
}

#[test]
fn non_utf8_container_name_is_refused() {
    // A complete header whose one-byte name is not valid UTF-8: the
    // container is malformed, not merely naming an unknown algorithm.
    match decode(&[0x01, 0x01, 0xFF, 0x04]) {
        Err(HashassinError::InvalidOutputFormat) => {}
        _ => panic!("expected InvalidOutputFormat for a non-UTF-8 name"),
    }
}

#[test]
fn partial_trailing_record_is_refused() {
    // Digest data that is not a whole number of records fails outright;
    // nothing is silently dropped.
    let mut container = md5_container_for_abcd_efgh();
    container.pop();
    match decode(&container) {
        Err(HashassinError::InvalidOutputFormat) => {}
        _ => panic!("expected InvalidOutputFormat for a partial record"),
    }
}

#[test]
fn oversized_algorithm_name_is_refused() {
    let long_name = vec![b'x'; 256];
    let digests: Vec<Vec<u8>> = Vec::new();
    match encode(&long_name, 4, &digests) {
        Err(HashassinError::InvalidOutputFormat) => {}
        _ => panic!("expected InvalidOutputFormat for a 256-byte name"),
    }
}

#[test]
fn error_messages_are_stable() {
    assert_eq!(
        HashassinError::InvalidOutputFormat.message(),
        "Invalid output file format"
    );
    assert_eq!(
        HashassinError::InvalidParameters("x".to_string()).message(),
        "Invalid parameters: x"
    );
    assert_eq!(HashassinError::IoError("gone".to_string()).message(), "IO error: gone");
    assert_eq!(
        HashassinError::InvalidAlgorithm("sha1".to_string()).message(),
        "Invalid algorithm: sha1"
    );
    assert_eq!(HashassinError::ThreadLockError.message(), "Thread lock error");
    assert_eq!(HashassinError::ThreadJoinError.message(), "Thread join error");
}

use hashassin_core::digest::digest;
use hashassin_core::HashassinError;
use md5::Digest;

#[test]
fn md5_known_vector() {
    let d = digest("md5", b"abc").unwrap();
    assert_eq!(d.len(), 16);
    assert_eq!(hex::encode(&d), "900150983cd24fb0d6963f7d28e17f72");
}

#[test]
fn sha256_known_vector() {
    let d = digest("sha256", b"abc").unwrap();
    assert_eq!(d.len(), 32);
    assert_eq!(
        hex::encode(&d),
        "ba7816bf8f01cfea414140de5dae2223b00361a396177a9cb410ff61f20015ad"
    );
}

#[test]
fn sha3_512_label_is_sha512() {
    // The "sha3-512" identifier is historically mapped to SHA-512;
    // the library must keep that mapping, not repair it.
    let d = digest("sha3-512", b"abc").unwrap();
    assert_eq!(d.len(), 64);
    let direct = sha2::Sha512::digest(b"abc").to_vec();
    assert_eq!(d, direct);
}

#[test]
fn md5_matches_direct_call() {
    let d = digest("md5", b"hello world").unwrap();
    let direct = md5::Md5::digest(b"hello world").to_vec();
    assert_eq!(d, direct);
    assert_ne!(d, b"hello world".to_vec());
}

#[test]
fn sha256_matches_direct_call() {
    let d = digest("sha256", b"hello world").unwrap();
    let direct = sha2::Sha256::digest(b"hello world").to_vec();
    assert_eq!(d, direct);
}

#[test]
fn scrypt_matches_direct_call() {
    let d = digest("scrypt", b"pw").unwrap();
    assert_eq!(d.len(), 64);
    let params = scrypt::Params::new(15, 8, 1).unwrap();
    let mut out = [0u8; 64];
    scrypt::scrypt(b"pw", b"salt", &params, &mut out).unwrap();
    assert_eq!(d, out.to_vec());
}

#[test]
fn digest_is_deterministic() {
    // Repeated calls on the same input give identical output for every
    // algorithm; for scrypt this holds only because the salt is fixed.
    for algo in ["md5", "sha256", "sha3-512", "scrypt"] {
        let d1 = digest(algo, b"same-input").unwrap();
        let d2 = digest(algo, b"same-input").unwrap();
        assert_eq!(d1, d2);
    }
}

#[test]
fn unsupported_algorithm_is_refused() {
    let r = digest("sha1", b"abc");
    match r {
        Err(HashassinError::InvalidAlgorithm(name)) => assert_eq!(name, "sha1"),
        _ => panic!("expected InvalidAlgorithm"),
    }
}

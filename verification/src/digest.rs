//! The digest provider: one fixed-length digest per password.
//!
//! The four digest computations come from outside crates and are named,
//! not restated: each trusted wrapper below says only that the result is a
//! function of the inputs it lists, plus its documented length.

use vstd::prelude::*;

use crate::algorithm::{spec_digest_len, spec_from_name, Algorithm};
use crate::errors::HashassinError;
use md5::Digest;
use vstd::string::StringSliceAdditionalSpecFns;

verus! {

/// The MD5 digest of the input bytes.
pub uninterp spec fn md5_of(input: Seq<u8>) -> Seq<u8>;

/// The SHA-256 digest of the input bytes.
pub uninterp spec fn sha256_of(input: Seq<u8>) -> Seq<u8>;

/// The SHA-512 digest of the input bytes.
pub uninterp spec fn sha512_of(input: Seq<u8>) -> Seq<u8>;

/// The scrypt key derived from a password, a salt, the cost parameters
/// `log_n`, `r` and `p`, and the requested output length.
pub uninterp spec fn scrypt_of(
    password: Seq<u8>,
    salt: Seq<u8>,
    log_n: u8,
    r: u32,
    p: u32,
    out_len: usize,
) -> Seq<u8>;

/// Relies on `md5::Md5::digest` (the `md-5` crate): the digest depends on
/// the input bytes alone, and is 16 bytes long.
#[verifier::external_body]
fn md5_digest(input: &[u8]) -> (d: Vec<u8>)
    ensures
        d@ == md5_of(input@),
        d@.len() == 16,
{
    md5::Md5::digest(input).to_vec()
}

/// Relies on `sha2::Sha256::digest`: the digest depends on the input bytes
/// alone, and is 32 bytes long.
#[verifier::external_body]
fn sha256_digest(input: &[u8]) -> (d: Vec<u8>)
    ensures
        d@ == sha256_of(input@),
        d@.len() == 32,
{
    sha2::Sha256::digest(input).to_vec()
}

/// Relies on `sha2::Sha512::digest`: the digest depends on the input bytes
/// alone, and is 64 bytes long.
#[verifier::external_body]
fn sha512_digest(input: &[u8]) -> (d: Vec<u8>)
    ensures
        d@ == sha512_of(input@),
        d@.len() == 64,
{
    sha2::Sha512::digest(input).to_vec()
}

/// Relies on `scrypt::scrypt` with parameters from `scrypt::Params::new`:
/// the derived key is a function of the password, the salt, the cost
/// parameters and the output length alone. `Params::new` accepts any
/// `log_n` below the `usize` bit width with positive `r` and `p` whose
/// implied memory size fits a `usize`, and `scrypt` itself fails only on
/// an output length of zero or above `(2^32 - 1) * 32`; the bounds
/// required here keep both calls inside those conditions on any machine
/// with at least 32-bit addresses, so the call cannot fail.
#[verifier::external_body]
fn scrypt_derive(password: &[u8], salt: &[u8], log_n: u8, r: u32, p: u32, out_len: usize) -> (res:
    Option<Vec<u8>>)
    requires
        log_n < 16,
        0 < r <= 8,
        0 < p <= 8,
        0 < out_len <= 4096,
    ensures
        res is Some,
        res matches Some(v) ==> v@ == scrypt_of(password@, salt@, log_n, r, p, out_len)
            && v@.len() == out_len,
{
    let params = match scrypt::Params::new(log_n, r, p) {
        Ok(params) => params,
        Err(_) => return None,
    };
    let mut out = vec![0u8; out_len];
    match scrypt::scrypt(password, salt, &params, &mut out) {
        Ok(()) => Some(out),
        Err(_) => None,
    }
}

/// log2 of the scrypt cost parameter N. Fixed, as the container format
/// reserves no space for parameters.
pub const SCRYPT_LOG_N: u8 = 15;

/// The scrypt block size parameter r.
pub const SCRYPT_R: u32 = 8;

/// The scrypt parallelism parameter p.
pub const SCRYPT_P: u32 = 1;

/// The salt used for every scrypt derivation: the bytes of `"salt"`.
///
/// A fixed salt is a known cryptographic weakness — identical passwords
/// derive identical keys across all invocations, enabling precomputation
/// attacks — but it is what the container format carries, so it is kept,
/// not silently repaired.
pub open spec fn spec_scrypt_salt() -> Seq<u8> {
    seq![115u8, 97u8, 108u8, 116u8]
}

/// The fixed scrypt salt as a byte vector.
pub fn scrypt_salt() -> (s: Vec<u8>)
    ensures
        s@ == spec_scrypt_salt(),
{
    let mut s: Vec<u8> = Vec::new();
    s.push(115);
    s.push(97);
    s.push(108);
    s.push(116);
    proof {
        assert(s@ =~= spec_scrypt_salt());
    }
    s
}

/// The digest an algorithm assigns to an input. The `Sha3_512` variant is
/// SHA-512 (the identifier is historical); the scrypt variant always uses
/// the fixed salt and cost parameters.
pub open spec fn spec_digest(a: Algorithm, input: Seq<u8>) -> Seq<u8> {
    match a {
        Algorithm::Md5 => md5_of(input),
        Algorithm::Sha256 => sha256_of(input),
        Algorithm::Sha3_512 => sha512_of(input),
        Algorithm::Scrypt => scrypt_of(
            input,
            spec_scrypt_salt(),
            SCRYPT_LOG_N,
            SCRYPT_R,
            SCRYPT_P,
            64,
        ),
    }
}

/// Compute the digest of `input` under an already-validated algorithm.
pub fn digest_with(a: Algorithm, input: &[u8]) -> (d: Vec<u8>)
    ensures
        d@ == spec_digest(a, input@),
        d@.len() == spec_digest_len(a),
{
    match a {
        Algorithm::Md5 => md5_digest(input),
        Algorithm::Sha256 => sha256_digest(input),
        Algorithm::Sha3_512 => sha512_digest(input),
        Algorithm::Scrypt => {
            let salt = scrypt_salt();
            match scrypt_derive(input, salt.as_slice(), SCRYPT_LOG_N, SCRYPT_R, SCRYPT_P, 64) {
                Some(v) => v,
                None => vstd::pervasive::unreached(),
            }
        },
    }
}

/// Compute the digest of `input` under a named algorithm; an unrecognized
/// name fails with `InvalidAlgorithm` carrying that name.
pub fn digest(algorithm: &str, input: &[u8]) -> (r: Result<Vec<u8>, HashassinError>)
    ensures
        match r {
            Ok(d) => spec_from_name(algorithm.spec_bytes()) matches Some(a) && d@ == spec_digest(
                a,
                input@,
            ) && d@.len() == spec_digest_len(a),
            Err(e) => spec_from_name(algorithm.spec_bytes()) is None && (e matches
            HashassinError::InvalidAlgorithm(n) && n@ == algorithm@),
        },
{
    match Algorithm::from_name_str(algorithm) {
        Some(a) => Ok(digest_with(a, input)),
        None => Err(HashassinError::InvalidAlgorithm(algorithm.to_owned())),
    }
}

/// Law: hashing is deterministic. Two digests of the same input under the
/// same algorithm are equal — for the scrypt variant this holds only
/// because every derivation uses the one fixed salt.
pub proof fn lemma_digest_deterministic(a: Algorithm, input: Seq<u8>, d1: Seq<u8>, d2: Seq<u8>)
    requires
        d1 == spec_digest(a, input),
        d2 == spec_digest(a, input),
    ensures
        d1 == d2,
{
}

} // verus!

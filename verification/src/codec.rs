//! The binary codec for the hash container.
//!
//! Layout, with no padding and no delimiters: one version byte (always
//! 1), one byte holding the algorithm-name length, the name itself, one
//! byte holding the password length, then every digest concatenated in
//! original input order. Digest boundaries are computed from the
//! algorithm's digest size, never stored.

use vstd::prelude::*;

use crate::algorithm::{spec_digest_len, spec_from_name, Algorithm};
use crate::errors::HashassinError;
use crate::hashing::{spec_hash_all, views_of};
use vstd::arithmetic::div_mod::{lemma_fundamental_div_mod, lemma_div_pos_is_pos};
use vstd::arithmetic::mul::{
    lemma_mul_inequality,
    lemma_mul_is_commutative,
    lemma_mul_is_distributive_add_other_way,
};
use crate::algorithm::lemma_known_name_valid_utf8;
use vstd::slice::{slice_subrange, slice_to_vec};
use vstd::utf8::{encode_utf8, valid_utf8};

verus! {

broadcast use vstd::seq_lib::group_seq_lib_default;

/// The container format version this library writes and understands.
pub const CONTAINER_VERSION: u8 = 1;

/// The bytes of a container holding the given algorithm name, password
/// length and digests.
pub open spec fn spec_encode(name: Seq<u8>, password_len: u8, digests: Seq<Seq<u8>>) -> Seq<u8> {
    seq![CONTAINER_VERSION, name.len() as u8] + name + seq![password_len] + digests.flatten()
}

/// The data split into consecutive records of `size` bytes each.
pub open spec fn spec_chunked(data: Seq<u8>, size: int) -> Seq<Seq<u8>>
    recommends
        0 < size,
        (data.len() as int) % size == 0,
{
    Seq::new(((data.len() as int) / size) as nat, |i: int| data.subrange(i * size, (i + 1) * size))
}

/// What a container's bytes decode to — version, algorithm, password
/// length and digest records — or `None` where the bytes are no container:
/// too short for the three fixed header bytes, too short for the name the
/// header announces, a name that is not valid UTF-8, an unrecognized
/// name, or digest data that is not a whole number of records (a
/// truncated trailing record is refused outright rather than silently
/// dropped).
pub open spec fn spec_decode(b: Seq<u8>) -> Option<(u8, Algorithm, u8, Seq<Seq<u8>>)> {
    if b.len() < 3 {
        None
    } else {
        let name_len = b[1] as int;
        if b.len() < 3 + name_len {
            None
        } else if !valid_utf8(b.subrange(2, 2 + name_len)) {
            None
        } else {
            match spec_from_name(b.subrange(2, 2 + name_len)) {
                Some(a) => {
                    let size = spec_digest_len(a) as int;
                    let body = b.subrange(3 + name_len, b.len() as int);
                    if (body.len() as int) % size == 0 {
                        Some((b[0], a, b[2 + name_len], spec_chunked(body, size)))
                    } else {
                        None
                    }
                },
                None => None,
            }
        }
    }
}

/// The bytes are refused as a container for a reason other than which
/// algorithm the name denotes: too short for the fixed header, too short
/// for the name the header announces, a name that is not valid UTF-8, or
/// — under a recognized name — digest data that is not a whole number of
/// records.
pub open spec fn spec_malformed(b: Seq<u8>) -> bool {
    ||| b.len() < 3
    ||| b.len() < 3 + (b[1] as int)
    ||| !valid_utf8(b.subrange(2, 2 + b[1] as int))
    ||| (spec_from_name(b.subrange(2, 2 + b[1] as int)) matches Some(a) && (b.len() - 3 - b[1]) % (
    spec_digest_len(a) as int) != 0)
}

/// The container's header is complete and its name is valid UTF-8, but
/// it names no known algorithm.
pub open spec fn spec_unknown_name(b: Seq<u8>) -> bool {
    &&& b.len() >= 3 + (b[1] as int)
    &&& valid_utf8(b.subrange(2, 2 + b[1] as int))
    &&& spec_from_name(b.subrange(2, 2 + b[1] as int)) is None
}

/// Relies on `String::from_utf8`: it succeeds exactly on the byte
/// sequences that are valid UTF-8, and the characters of the returned
/// string encode back to the input bytes.
#[verifier::external_body]
fn string_from_utf8(bytes: &[u8]) -> (r: Option<String>)
    ensures
        r is Some <==> valid_utf8(bytes@),
        r matches Some(s) ==> encode_utf8(s@) == bytes@,
{
    String::from_utf8(bytes.to_vec()).ok()
}

/// A decoded hash container.
pub struct DecodedContainer {
    /// The version byte as read; the codec itself always writes 1.
    pub version: u8,
    /// The algorithm the container names.
    pub algorithm: Algorithm,
    /// The recorded password length.
    pub password_len: u8,
    /// The digest records, in their stored order.
    pub digests: Vec<Vec<u8>>,
}

/// Serialize digests into a container. An algorithm name longer than 255
/// bytes cannot fit its one-byte length field and fails with
/// `InvalidOutputFormat`; nothing else fails.
pub fn encode(algorithm: &[u8], password_len: u8, digests: &Vec<Vec<u8>>) -> (r: Result<
    Vec<u8>,
    HashassinError,
>)
    ensures
        match r {
            Ok(out) => algorithm@.len() <= 255 && out@ == spec_encode(
                algorithm@,
                password_len,
                views_of(digests@),
            ),
            Err(e) => algorithm@.len() > 255 && e is InvalidOutputFormat,
        },
{
    if algorithm.len() > 255 {
        return Err(HashassinError::InvalidOutputFormat);
    }
    let mut out: Vec<u8> = Vec::new();
    out.push(CONTAINER_VERSION);
    out.push(algorithm.len() as u8);
    out.extend_from_slice(algorithm);
    out.push(password_len);
    let ghost header = seq![CONTAINER_VERSION, algorithm@.len() as u8] + algorithm@ + seq![
        password_len,
    ];
    proof {
        assert(out@ =~= header);
    }
    let mut i: usize = 0;
    while i < digests.len()
        invariant
            i <= digests@.len(),
            out@ == header + views_of(digests@).subrange(0, i as int).flatten(),
        decreases digests@.len() - i,
    {
        let ghost prefix = views_of(digests@).subrange(0, i as int);
        out.extend_from_slice(digests[i].as_slice());
        proof {
            assert(prefix.push(digests@[i as int]@).flatten() == prefix.flatten() + digests@[
                i as int
            ]@) by {
                prefix.lemma_flatten_push(digests@[i as int]@);
            }
            assert(views_of(digests@).subrange(0, i + 1) =~= prefix.push(digests@[i as int]@));
            assert(out@ =~= header + views_of(digests@).subrange(0, i + 1).flatten());
        }
        i = i + 1;
    }
    proof {
        assert(views_of(digests@).subrange(0, digests@.len() as int) =~= views_of(digests@));
        assert(out@ =~= spec_encode(algorithm@, password_len, views_of(digests@)));
    }
    Ok(out)
}

/// Deserialize a container. Errors mirror `spec_decode`'s refusals: a
/// buffer too short for the header or the announced name, a name that
/// is not valid UTF-8, or digest data that is not a whole number of
/// records, is `InvalidOutputFormat`; a well-formed header naming an
/// unknown algorithm is `InvalidAlgorithm` carrying that name.
pub fn decode(buffer: &[u8]) -> (r: Result<DecodedContainer, HashassinError>)
    ensures
        match r {
            Ok(d) => spec_decode(buffer@) == Some(
                (d.version, d.algorithm, d.password_len, views_of(d.digests@)),
            ),
            Err(e) => spec_decode(buffer@) is None && match e {
                HashassinError::InvalidOutputFormat => spec_malformed(buffer@),
                HashassinError::InvalidAlgorithm(n) => spec_unknown_name(buffer@) && encode_utf8(
                    n@,
                ) == buffer@.subrange(2, 2 + buffer@[1] as int),
                _ => false,
            },
        },
{
    if buffer.len() < 3 {
        return Err(HashassinError::InvalidOutputFormat);
    }
    let name_len = buffer[1] as usize;
    if buffer.len() < 3 + name_len {
        return Err(HashassinError::InvalidOutputFormat);
    }
    let name = slice_subrange(buffer, 2, 2 + name_len);
    let name_text = match string_from_utf8(name) {
        Some(s) => s,
        None => {
            return Err(HashassinError::InvalidOutputFormat);
        },
    };
    let a = match Algorithm::from_name(name) {
        Some(a) => a,
        None => {
            return Err(HashassinError::InvalidAlgorithm(name_text));
        },
    };
    let version = buffer[0];
    let password_len = buffer[2 + name_len];
    let size = a.digest_len();
    let body_len = buffer.len() - 3 - name_len;
    let ghost body = buffer@.subrange(3 + name_len as int, buffer@.len() as int);
    if body_len % size != 0 {
        return Err(HashassinError::InvalidOutputFormat);
    }
    let count = body_len / size;
    proof {
        lemma_fundamental_div_mod(body_len as int, size as int);
        lemma_div_pos_is_pos(body_len as int, size as int);
    }
    let mut digests: Vec<Vec<u8>> = Vec::new();
    let mut off: usize = 3 + name_len;
    let mut i: usize = 0;
    while i < count
        invariant
            i <= count,
            0 < size,
            count == (body_len as int) / (size as int),
            (size as int) * (count as int) == body_len as int,
            body_len == buffer@.len() - 3 - name_len,
            body == buffer@.subrange(3 + name_len as int, buffer@.len() as int),
            buffer@.len() <= usize::MAX,
            off == 3 + name_len + i * size,
            digests@.len() == i,
            forall|j: int|
                0 <= j < i ==> (#[trigger] digests@[j])@ == body.subrange(
                    j * (size as int),
                    (j + 1) * (size as int),
                ),
        decreases count - i,
    {
        proof {
            assert((i + 1) * (size as int) <= (count as int) * (size as int)) by {
                lemma_mul_inequality(i + 1, count as int, size as int);
            }
            lemma_mul_is_commutative(count as int, size as int);
            lemma_mul_is_distributive_add_other_way(size as int, i as int, 1);
            vstd::arithmetic::mul::lemma_mul_basics(size as int);
            assert(off + size <= buffer@.len());
        }
        let d = slice_to_vec(slice_subrange(buffer, off, off + size));
        proof {
            assert(d@ =~= body.subrange(i * (size as int), (i + 1) * (size as int)));
        }
        digests.push(d);
        off = off + size;
        i = i + 1;
    }
    proof {
        assert(views_of(digests@) =~= spec_chunked(body, size as int));
    }
    Ok(DecodedContainer { version, algorithm: a, password_len, digests })
}

/// Splitting a concatenation of uniform `size`-byte records recovers
/// exactly the records that were concatenated.
pub proof fn lemma_chunked_flatten(digests: Seq<Seq<u8>>, size: int)
    requires
        0 < size,
        forall|i: int| 0 <= i < digests.len() ==> (#[trigger] digests[i]).len() == size,
    ensures
        digests.flatten().len() == digests.len() * size,
        spec_chunked(digests.flatten(), size) == digests,
    decreases digests.len(),
{
    let flat = digests.flatten();
    if digests.len() == 0 {
        assert(spec_chunked(flat, size) =~= digests);
    } else {
        let first = digests.first();
        let rest = digests.drop_first();
        lemma_chunked_flatten(rest, size);
        assert(flat == first + rest.flatten());
        assert(flat.len() == digests.len() * size) by {
            lemma_mul_is_distributive_add_other_way(size, 1, rest.len() as int);
            lemma_mul_is_commutative(rest.len() as int, size);
            lemma_mul_is_commutative(digests.len() as int, size);
        }
        assert((flat.len() as int) / size == digests.len()) by {
            lemma_mul_is_commutative(digests.len() as int, size);
            vstd::arithmetic::div_mod::lemma_div_multiples_vanish(digests.len() as int, size);
        }
        assert forall|i: int| 0 <= i < digests.len() implies #[trigger] spec_chunked(flat, size)[i]
            == digests[i] by {
            if i == 0 {
                assert(flat.subrange(0, size) =~= first);
            } else {
                vstd::arithmetic::mul::lemma_mul_basics(size);
                assert((i - 1) * size == i * size - size && (i - 1 + 1) * size == i * size) by {
                    vstd::arithmetic::mul::lemma_mul_is_distributive_sub_other_way(size, i, 1);
                    lemma_mul_is_distributive_add_other_way(size, i - 1, 1);
                }
                assert(0 <= (i - 1) * size) by {
                    vstd::arithmetic::mul::lemma_mul_nonnegative(i - 1, size);
                }
                assert(i * size <= rest.flatten().len()) by {
                    lemma_mul_inequality(i, rest.len() as int, size);
                    lemma_mul_is_commutative(rest.len() as int, size);
                }
                assert((i + 1) * size <= flat.len()) by {
                    lemma_mul_inequality(i + 1, digests.len() as int, size);
                    lemma_mul_is_commutative(digests.len() as int, size);
                }
                assert(first.len() == size);
                assert(size <= i * size) by {
                    lemma_mul_inequality(1, i, size);
                }
                assert((i + 1) * size == i * size + size) by {
                    lemma_mul_is_distributive_add_other_way(size, i, 1);
                }
                let lhs = flat.subrange(i * size, (i + 1) * size);
                let rhs = rest.flatten().subrange((i - 1) * size, i * size);
                assert forall|k: int| 0 <= k < size implies #[trigger] lhs[k] == rhs[k] by {
                    let m = i * size + k;
                    assert(lhs[k] == flat[m]);
                    assert(rhs[k] == rest.flatten()[m - size]);
                    assert((first + rest.flatten())[m] == rest.flatten()[m - size]);
                    assert(flat[m] == rest.flatten()[m - size]);
                }
                assert(lhs =~= rhs);
                assert(rest.flatten().subrange((i - 1) * size, (i - 1 + 1) * size) == rest[i - 1]);
            }
        }
        assert(spec_chunked(flat, size) =~= digests);
    }
}

/// The lowercase hexadecimal digit for a nibble.
pub open spec fn spec_hex_digit(n: u8) -> char
    recommends
        n < 16,
{
    if n < 10 {
        ((48 + n) as u8) as char
    } else {
        ((87 + n) as u8) as char
    }
}

/// The lowercase hexadecimal text of a byte sequence: two digits per
/// byte, high nibble first.
pub open spec fn spec_hex(s: Seq<u8>) -> Seq<char> {
    Seq::new(s.len() * 2, |i: int|
        if i % 2 == 0 {
            spec_hex_digit(s[i / 2] >> 4u8)
        } else {
            spec_hex_digit(s[i / 2] & 0xfu8)
        })
}

/// Relies on `hex::encode`: two lowercase hexadecimal digits per input
/// byte, high nibble first.
#[verifier::external_body]
fn hex_encode(bytes: &[u8]) -> (s: String)
    ensures
        s@ == spec_hex(bytes@),
{
    hex::encode(bytes)
}

/// A decoded container prepared for display: the header fields and one
/// lowercase-hex line per digest, in stored order.
pub struct DumpReport {
    /// The version byte as read.
    pub version: u8,
    /// The algorithm the container names.
    pub algorithm: Algorithm,
    /// The recorded password length.
    pub password_len: u8,
    /// The hexadecimal text of each digest record.
    pub digest_lines: Vec<String>,
}

/// Decode a container and render each digest as lowercase hexadecimal,
/// ready to print. Fails exactly as `decode` does.
pub fn dump_hashes(buffer: &[u8]) -> (r: Result<DumpReport, HashassinError>)
    ensures
        match r {
            Ok(rep) => spec_decode(buffer@) matches Some(t) && rep.version == t.0 && rep.algorithm
                == t.1 && rep.password_len == t.2 && rep.digest_lines@.len() == t.3.len() && (
            forall|i: int|
                0 <= i < t.3.len() ==> (#[trigger] rep.digest_lines@[i])@ == spec_hex(t.3[i])),
            Err(e) => spec_decode(buffer@) is None && match e {
                HashassinError::InvalidOutputFormat => spec_malformed(buffer@),
                HashassinError::InvalidAlgorithm(n) => spec_unknown_name(buffer@) && encode_utf8(
                    n@,
                ) == buffer@.subrange(2, 2 + buffer@[1] as int),
                _ => false,
            },
        },
{
    let decoded = match decode(buffer) {
        Ok(d) => d,
        Err(e) => {
            return Err(e);
        },
    };
    let mut lines: Vec<String> = Vec::new();
    let mut i: usize = 0;
    while i < decoded.digests.len()
        invariant
            i <= decoded.digests@.len(),
            lines@.len() == i,
            forall|j: int|
                0 <= j < i ==> (#[trigger] lines@[j])@ == spec_hex(decoded.digests@[j]@),
        decreases decoded.digests@.len() - i,
    {
        let line = hex_encode(decoded.digests[i].as_slice());
        lines.push(line);
        i = i + 1;
    }
    Ok(
        DumpReport {
            version: decoded.version,
            algorithm: decoded.algorithm,
            password_len: decoded.password_len,
            digest_lines: lines,
        },
    )
}

/// Law: the codec round-trips. Encoding digests of one of the supported
/// algorithms and decoding the result reproduces the version, the
/// algorithm, the password length and every digest, in order.
pub proof fn lemma_encode_decode_round_trip(
    name: Seq<u8>,
    password_len: u8,
    digests: Seq<Seq<u8>>,
    a: Algorithm,
)
    requires
        spec_from_name(name) == Some(a),
        name.len() <= 255,
        forall|i: int|
            0 <= i < digests.len() ==> (#[trigger] digests[i]).len() == spec_digest_len(a),
    ensures
        spec_decode(spec_encode(name, password_len, digests)) == Some(
            (CONTAINER_VERSION, a, password_len, digests),
        ),
{
    let b = spec_encode(name, password_len, digests);
    let size = spec_digest_len(a) as int;
    lemma_known_name_valid_utf8(name);
    lemma_chunked_flatten(digests, size);
    assert(b.len() == 3 + name.len() + digests.flatten().len());
    assert(b[1] == name.len() as u8);
    assert(b[1] as int == name.len() as int);
    assert(b.subrange(2, 2 + name.len() as int) =~= name);
    let body = b.subrange(3 + name.len() as int, b.len() as int);
    assert(body =~= digests.flatten());
    assert((body.len() as int) % size == 0) by {
        lemma_mul_is_commutative(digests.len() as int, size);
        vstd::arithmetic::div_mod::lemma_mod_multiples_basic(digests.len() as int, size);
    }
    assert(b[2 + name.len() as int] == password_len);
    assert(b[0] == CONTAINER_VERSION);
}

/// Law: the whole pipeline round-trips. For a batch hashed under a
/// supported algorithm — the digest lengths are what `hash_all`
/// guarantees of its output — encoding and decoding the container
/// reproduces the algorithm, the password length and the engine's digest
/// sequence.
pub proof fn lemma_pipeline_round_trip(
    pws: Seq<Seq<u8>>,
    name: Seq<u8>,
    a: Algorithm,
    password_len: u8,
    digests: Seq<Seq<u8>>,
)
    requires
        spec_from_name(name) == Some(a),
        name.len() <= 255,
        digests == spec_hash_all(pws, a),
        forall|i: int|
            0 <= i < digests.len() ==> (#[trigger] digests[i]).len() == spec_digest_len(a),
    ensures
        spec_decode(spec_encode(name, password_len, digests)) == Some(
            (CONTAINER_VERSION, a, password_len, spec_hash_all(pws, a)),
        ),
{
    lemma_encode_decode_round_trip(name, password_len, digests, a);
}

} // verus!

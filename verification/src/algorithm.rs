//! The supported digest algorithms and their identifiers.
//!
//! Algorithm dispatch resolves a name once, at the start of a pipeline,
//! into this closed enum; everything downstream is keyed on the variant.

use vstd::prelude::*;

use vstd::string::StringSliceAdditionalSpecFns;
use vstd::utf8::{
    is_leading_byte_width_1,
    partial_valid_utf8,
    partial_valid_utf8_extend_ascii_block,
    valid_utf8,
};

verus! {

/// A validated algorithm identifier.
///
/// The `Sha3_512` variant keeps the on-disk identifier `"sha3-512"` even
/// though the computation behind it is SHA-512, not SHA-3: the mapping is
/// part of the container format and is preserved for compatibility.
#[derive(Clone, Copy, Debug, PartialEq, Eq, Structural)]
pub enum Algorithm {
    Md5,
    Sha256,
    Sha3_512,
    Scrypt,
}

/// The identifier bytes of each algorithm, as they stand in a container.
pub open spec fn spec_name(a: Algorithm) -> Seq<u8> {
    match a {
        Algorithm::Md5 => seq![109u8, 100u8, 53u8],  // "md5"
        Algorithm::Sha256 => seq![115u8, 104u8, 97u8, 50u8, 53u8, 54u8],  // "sha256"
        Algorithm::Sha3_512 => seq![
            115u8,
            104u8,
            97u8,
            51u8,
            45u8,
            53u8,
            49u8,
            50u8,
        ],  // "sha3-512"
        Algorithm::Scrypt => seq![115u8, 99u8, 114u8, 121u8, 112u8, 116u8],  // "scrypt"
    }
}

/// The algorithm a name denotes, or `None` for an unrecognized name.
pub open spec fn spec_from_name(name: Seq<u8>) -> Option<Algorithm> {
    if name == spec_name(Algorithm::Md5) {
        Some(Algorithm::Md5)
    } else if name == spec_name(Algorithm::Sha256) {
        Some(Algorithm::Sha256)
    } else if name == spec_name(Algorithm::Sha3_512) {
        Some(Algorithm::Sha3_512)
    } else if name == spec_name(Algorithm::Scrypt) {
        Some(Algorithm::Scrypt)
    } else {
        None
    }
}

/// The digest size in bytes, determined solely by the algorithm.
pub open spec fn spec_digest_len(a: Algorithm) -> nat {
    match a {
        Algorithm::Md5 => 16,
        Algorithm::Sha256 => 32,
        Algorithm::Sha3_512 => 64,
        Algorithm::Scrypt => 64,
    }
}

impl Algorithm {
    /// Resolve an algorithm name, as read from a container or the command
    /// line, into its variant.
    pub fn from_name(name: &[u8]) -> (r: Option<Algorithm>)
        ensures
            r == spec_from_name(name@),
    {
        if name.len() == 3 && name[0] == 109 && name[1] == 100 && name[2] == 53 {
            proof {
                assert(name@ =~= spec_name(Algorithm::Md5));
            }
            Some(Algorithm::Md5)
        } else if name.len() == 6 && name[0] == 115 && name[1] == 104 && name[2] == 97 && name[3]
            == 50 && name[4] == 53 && name[5] == 54 {
            proof {
                assert(name@ =~= spec_name(Algorithm::Sha256));
            }
            Some(Algorithm::Sha256)
        } else if name.len() == 8 && name[0] == 115 && name[1] == 104 && name[2] == 97 && name[3]
            == 51 && name[4] == 45 && name[5] == 53 && name[6] == 49 && name[7] == 50 {
            proof {
                assert(name@ =~= spec_name(Algorithm::Sha3_512));
            }
            Some(Algorithm::Sha3_512)
        } else if name.len() == 6 && name[0] == 115 && name[1] == 99 && name[2] == 114 && name[3]
            == 121 && name[4] == 112 && name[5] == 116 {
            proof {
                assert(name@ =~= spec_name(Algorithm::Scrypt));
            }
            Some(Algorithm::Scrypt)
        } else {
            proof {
                assert(name@ != spec_name(Algorithm::Md5));
                assert(name@ != spec_name(Algorithm::Sha256));
                assert(name@ != spec_name(Algorithm::Sha3_512));
                assert(name@ != spec_name(Algorithm::Scrypt));
            }
            None
        }
    }

    /// Resolve an algorithm name given as text.
    pub fn from_name_str(name: &str) -> (r: Option<Algorithm>)
        ensures
            r == spec_from_name(name.spec_bytes()),
    {
        Algorithm::from_name(name.as_bytes())
    }

    /// The identifier bytes of this algorithm.
    pub fn name(&self) -> (r: Vec<u8>)
        ensures
            r@ == spec_name(*self),
    {
        let mut r: Vec<u8> = Vec::new();
        match self {
            Algorithm::Md5 => {
                r.push(109);
                r.push(100);
                r.push(53);
            },
            Algorithm::Sha256 => {
                r.push(115);
                r.push(104);
                r.push(97);
                r.push(50);
                r.push(53);
                r.push(54);
            },
            Algorithm::Sha3_512 => {
                r.push(115);
                r.push(104);
                r.push(97);
                r.push(51);
                r.push(45);
                r.push(53);
                r.push(49);
                r.push(50);
            },
            Algorithm::Scrypt => {
                r.push(115);
                r.push(99);
                r.push(114);
                r.push(121);
                r.push(112);
                r.push(116);
            },
        }
        proof {
            assert(r@ =~= spec_name(*self));
        }
        r
    }

    /// The identifier as text, for display.
    pub fn name_str(&self) -> (r: &'static str)
        ensures
            match *self {
                Algorithm::Md5 => r@ == "md5"@,
                Algorithm::Sha256 => r@ == "sha256"@,
                Algorithm::Sha3_512 => r@ == "sha3-512"@,
                Algorithm::Scrypt => r@ == "scrypt"@,
            },
    {
        match self {
            Algorithm::Md5 => "md5",
            Algorithm::Sha256 => "sha256",
            Algorithm::Sha3_512 => "sha3-512",
            Algorithm::Scrypt => "scrypt",
        }
    }

    /// The digest size in bytes for this algorithm.
    pub fn digest_len(&self) -> (n: usize)
        ensures
            n == spec_digest_len(*self),
    {
        match self {
            Algorithm::Md5 => 16,
            Algorithm::Sha256 => 32,
            Algorithm::Sha3_512 => 64,
            Algorithm::Scrypt => 64,
        }
    }
}

/// A sequence of ASCII bytes is a valid UTF-8 encoding.
pub proof fn lemma_ascii_valid_utf8(bytes: Seq<u8>)
    requires
        forall|i: int| 0 <= i < bytes.len() ==> #[trigger] is_leading_byte_width_1(bytes[i]),
    ensures
        valid_utf8(bytes),
{
    assert(bytes.subrange(0, 0) =~= Seq::<u8>::empty());
    assert(valid_utf8(bytes.subrange(0, 0)));
    assert(partial_valid_utf8(bytes, 0));
    partial_valid_utf8_extend_ascii_block(bytes, 0, bytes.len() as int);
    assert(bytes.subrange(0, bytes.len() as int) =~= bytes);
}

/// Every recognized algorithm name is ASCII, hence valid UTF-8.
pub proof fn lemma_known_name_valid_utf8(name: Seq<u8>)
    requires
        spec_from_name(name) is Some,
    ensures
        valid_utf8(name),
{
    assert(forall|i: int| 0 <= i < name.len() ==> #[trigger] is_leading_byte_width_1(name[i]));
    lemma_ascii_valid_utf8(name);
}

/// Resolving an algorithm's own name yields that algorithm: the
/// name-to-variant mapping inverts the variant-to-name mapping.
pub proof fn lemma_name_round_trip(a: Algorithm)
    ensures
        spec_from_name(spec_name(a)) == Some(a),
{
    match a {
        Algorithm::Md5 => {},
        Algorithm::Sha256 => {
            assert(spec_name(Algorithm::Sha256) != spec_name(Algorithm::Md5));
        },
        Algorithm::Sha3_512 => {
            assert(spec_name(Algorithm::Sha3_512) != spec_name(Algorithm::Md5));
            assert(spec_name(Algorithm::Sha3_512) != spec_name(Algorithm::Sha256));
        },
        Algorithm::Scrypt => {
            assert(spec_name(Algorithm::Scrypt) != spec_name(Algorithm::Md5));
            assert(spec_name(Algorithm::Scrypt) != spec_name(Algorithm::Sha256));
            assert(spec_name(Algorithm::Scrypt) != spec_name(Algorithm::Sha3_512));
        },
    }
}

} // verus!

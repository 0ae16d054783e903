//! Random password generation: batches of fixed-length alphanumeric
//! passwords.
//!
//! Randomness comes from the operating system through an outside
//! generator, so nothing is promised about which passwords come out —
//! only that every byte of every password is alphanumeric and that the
//! batch has the shape the caller asked for.

use vstd::prelude::*;

use crate::errors::HashassinError;

verus! {

/// rand's thread-local generator, declared so a value of it can pass
/// between the functions below.
#[verifier::external_type_specification]
#[verifier::external_body]
pub struct ExThreadRng(rand::rngs::ThreadRng);

/// The byte is an ASCII digit or letter: `0-9`, `A-Z` or `a-z`.
pub open spec fn is_alphanumeric_byte(b: u8) -> bool {
    (48 <= b <= 57) || (65 <= b <= 90) || (97 <= b <= 122)
}

/// Relies on `rand::thread_rng` for the generator a batch uses; nothing
/// is assumed about the values it will produce.
#[verifier::external_body]
fn new_rng() -> rand::rngs::ThreadRng {
    rand::thread_rng()
}

/// Relies on `rand::Rng::sample` with the `Alphanumeric` distribution,
/// whose source draws one byte from the 62 characters `A-Z`, `a-z` and
/// `0-9`. The result is random, so only that range holds of every
/// outcome.
#[verifier::external_body]
fn sample_alphanumeric(rng: &mut rand::rngs::ThreadRng) -> (b: u8)
    ensures
        is_alphanumeric_byte(b),
{
    rand::Rng::sample(rng, rand::distributions::Alphanumeric)
}

/// Draw one password of `chars` alphanumeric bytes.
fn random_password(rng: &mut rand::rngs::ThreadRng, chars: u8) -> (pw: Vec<u8>)
    ensures
        pw@.len() == chars,
        forall|i: int| 0 <= i < pw@.len() ==> is_alphanumeric_byte(#[trigger] pw@[i]),
{
    let mut pw: Vec<u8> = Vec::new();
    let mut i: u8 = 0;
    while i < chars
        invariant
            i <= chars,
            pw@.len() == i,
            forall|j: int| 0 <= j < pw@.len() ==> is_alphanumeric_byte(#[trigger] pw@[j]),
        decreases chars - i,
    {
        let b = sample_alphanumeric(rng);
        pw.push(b);
        i = i + 1;
    }
    pw
}

/// Generate `num` random passwords of `chars` alphanumeric bytes each.
///
/// A zero `chars`, `threads` or `num` fails validation with
/// `InvalidParameters` before any password is drawn. The thread count
/// only partitions work between workers; since every password is drawn
/// independently, it has no bearing on the batch's shape, and the batch
/// is produced in input order here whatever its value.
pub fn generate_passwords(chars: u8, threads: usize, num: usize) -> (r: Result<
    Vec<Vec<u8>>,
    HashassinError,
>)
    ensures
        match r {
            Ok(pws) => {
                &&& 1 <= chars
                &&& 1 <= threads
                &&& 1 <= num
                &&& pws@.len() == num
                &&& forall|i: int| 0 <= i < pws@.len() ==> (#[trigger] pws@[i])@.len() == chars
                &&& forall|i: int, j: int|
                    0 <= i < pws@.len() && 0 <= j < chars ==> is_alphanumeric_byte(
                        #[trigger] pws@[i]@[j],
                    )
            },
            Err(e) => (e matches HashassinError::InvalidParameters(_)) && (chars == 0 || threads
                == 0 || num == 0),
        },
{
    if chars == 0 || threads == 0 || num == 0 {
        return Err(
            HashassinError::InvalidParameters("Parameters must be greater than zero".to_owned()),
        );
    }
    let mut rng = new_rng();
    let mut pws: Vec<Vec<u8>> = Vec::new();
    let mut k: usize = 0;
    while k < num
        invariant
            k <= num,
            pws@.len() == k,
            forall|i: int| 0 <= i < pws@.len() ==> (#[trigger] pws@[i])@.len() == chars,
            forall|i: int, j: int|
                0 <= i < pws@.len() && 0 <= j < chars ==> is_alphanumeric_byte(
                    #[trigger] pws@[i]@[j],
                ),
        decreases num - k,
    {
        let pw = random_password(&mut rng, chars);
        pws.push(pw);
        k = k + 1;
    }
    Ok(pws)
}

} // verus!

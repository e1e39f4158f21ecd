use vstd::prelude::*;

use crate::records::push_char;

verus! {

/// The generator's alphabet: ASCII letters and digits.
pub open spec fn is_alnum_char(c: char) -> bool {
    ('0' <= c && c <= '9') || ('a' <= c && c <= 'z') || ('A' <= c && c <= 'Z')
}

#[verifier::external_type_specification]
#[verifier::external_body]
pub struct ExThreadRng(rand::rngs::ThreadRng);

/// Relies on rand::rng: a handle to the thread-local generator, seeded
/// from the environment's entropy. Nothing is claimed of its output here.
#[verifier::external_body]
fn fresh_rng() -> rand::rngs::ThreadRng {
    rand::rng()
}

/// Relies on rand's `Alphanumeric` distribution: sampling it yields one
/// byte drawn from `A`-`Z`, `a`-`z`, `0`-`9`, and nothing else holds of
/// any single draw.
#[verifier::external_body]
fn sample_alnum_char(rng: &mut rand::rngs::ThreadRng) -> (c: char)
    ensures
        is_alnum_char(c),
{
    char::from(rand::Rng::sample(rng, rand::distr::Alphanumeric))
}

/// Draws a fresh secret of exactly `length` alphanumeric characters and
/// also stores it in `password`.
pub fn generate_password(password: &mut String, length: usize) -> (r: String)
    ensures
        r@.len() == length,
        forall|i: int| 0 <= i < r@.len() ==> is_alnum_char(#[trigger] r@[i]),
        final(password)@ == r@,
{
    let mut rng = fresh_rng();
    let mut out = String::new();
    let mut i: usize = 0;
    while i < length
        invariant
            i <= length,
            out@.len() == i,
            forall|j: int| 0 <= j < out@.len() ==> is_alnum_char(#[trigger] out@[j]),
        decreases length - i,
    {
        let c = sample_alnum_char(&mut rng);
        push_char(&mut out, c);
        i = i + 1;
    }
    *password = out.clone();
    out
}

} // verus!

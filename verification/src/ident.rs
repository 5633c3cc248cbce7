//! Fresh post identifiers, drawn at random.

use vstd::prelude::*;

verus! {

/// An ASCII letter or digit.
pub open spec fn is_ascii_alnum(c: char) -> bool {
    let u = c as u32;
    (0x61 <= u && u <= 0x7a) || (0x41 <= u && u <= 0x5a) || (0x30 <= u && u <= 0x39)
}

/// Relies on rand's `Alphanumeric` distribution through
/// `DistString::sample_string`: the sampled string has exactly `n`
/// characters, each drawn from a-z, A-Z and 0-9. Nothing is assumed about
/// which characters come out.
#[verifier::external_body]
fn sample_alphanumeric(n: usize) -> (r: String)
    ensures
        r@.len() == n,
        forall|i: int| 0 <= i < r@.len() ==> is_ascii_alnum(#[trigger] r@[i]),
{
    rand::distributions::DistString::sample_string(
        &rand::distributions::Alphanumeric,
        &mut rand::thread_rng(),
        n,
    )
}

/// A fresh post identifier: eight random alphanumeric characters.
pub fn gen_id() -> (r: String)
    ensures
        r@.len() == 8,
        forall|i: int| 0 <= i < r@.len() ==> is_ascii_alnum(#[trigger] r@[i]),
{
    sample_alphanumeric(8)
}

} // verus!

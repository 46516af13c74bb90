//! Random token generation.

use vstd::prelude::*;

verus! {

/// An ASCII alphanumeric character.
pub open spec fn is_alnum(c: char) -> bool {
    ('0' <= c && c <= '9') || ('a' <= c && c <= 'z') || ('A' <= c && c <= 'Z')
}

/// A random token with the given length.
///
/// Relies on rand's `thread_rng` sampled through the `Alphanumeric`
/// distribution: exactly `size` characters, each ASCII alphanumeric.  The
/// characters are random, so nothing further is promised.
#[verifier::external_body]
pub fn generate(size: usize) -> (r: String)
    ensures
        r@.len() == size,
        forall|i: int| 0 <= i < r@.len() ==> is_alnum(r@[i]),
{
    rand::Rng::sample_iter(rand::thread_rng(), &rand::distributions::Alphanumeric).take(
        size,
    ).map(char::from).collect()
}

} // verus!

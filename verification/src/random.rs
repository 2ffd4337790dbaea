//! Random numbers for the CAPTCHA pages.

use rand::Rng;
use vstd::prelude::*;

verus! {

/// `rand::Rng::gen_range` on the thread-local generator: some number of the
/// half-open range, which must not be empty.
#[verifier::external_body]
pub(crate) fn random_between(low: i64, high: i64) -> (r: i64)
    requires
        low < high,
    ensures
        low <= r < high,
{
    rand::thread_rng().gen_range(low..high)
}

/// A random number `low <= r < high`.
pub fn random_u32(low: u32, high: u32) -> (r: u32)
    requires
        low < high,
    ensures
        low <= r < high,
{
    random_between(low as i64, high as i64) as u32
}

/// A random number `low <= r < high`.
pub fn random_i32(low: i32, high: i32) -> (r: i32)
    requires
        low < high,
    ensures
        low <= r < high,
{
    random_between(low as i64, high as i64) as i32
}

} // verus!

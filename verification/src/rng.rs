//! The random-number source the generator and dice draw from.

use vstd::prelude::*;

verus! {

/// Relies on rand::Rng::gen_range with the thread-local generator, over the
/// half-open range `low..high`: it returns a value in that range and panics
/// only on an empty range, which the precondition excludes. Nothing more is
/// assumed of the draw: every caller must cope with any value in range.
#[verifier::external_body]
pub(crate) fn rand_range(low: i32, high: i32) -> (r: i32)
    requires
        low < high,
    ensures
        low <= r < high,
{
    rand::Rng::gen_range(&mut rand::thread_rng(), low..high)
}

} // verus!

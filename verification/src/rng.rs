//! The crate's one window onto the random number generator.

use vstd::prelude::*;
use rand::Rng;

verus! {

/// Relies on `rand::Rng::gen_range` over the inclusive range `lo ..= hi`
/// with the thread-local generator: it panics only on an empty range, which
/// `lo <= hi` rules out, and returns a value within the range.  Nothing more
/// is assumed of the draw; callers must hold for every value in the range.
#[verifier::external_body]
pub(crate) fn sample_inclusive(lo: u32, hi: u32) -> (r: u32)
    requires
        lo <= hi,
    ensures
        lo <= r <= hi,
{
    rand::thread_rng().gen_range(lo..=hi)
}

} // verus!

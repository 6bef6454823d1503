//! The one randomness source of the particle subsystem.
use vstd::prelude::*;

verus! {

/// Relies on rand::Rng::gen_range over rand::thread_rng: the sample is
/// drawn from the half-open range `lo..hi`, and the call panics only on an
/// empty range, which the precondition rules out.  Nothing more is assumed
/// of the draw: callers hold for every value in the range.
#[verifier::external_body]
pub(crate) fn rand_in_range(lo: i64, hi: i64) -> (r: i64)
    requires
        lo < hi,
    ensures
        lo <= r < hi,
{
    rand::Rng::gen_range(&mut rand::thread_rng(), lo..hi)
}

} // verus!

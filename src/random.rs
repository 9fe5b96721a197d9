use vstd::prelude::*;

verus! {

/// Relies on rand's `Rng::gen_range` with the thread-local generator: a value
/// drawn from the half-open range `lo..hi`, which must not be empty (it
/// panics on an empty range).
#[verifier::external_body]
pub(crate) fn random_in(lo: i64, hi: i64) -> (r: i64)
    requires
        lo < hi,
    ensures
        lo <= r < hi,
{
    rand::Rng::gen_range(&mut rand::thread_rng(), lo..hi)
}

} // verus!

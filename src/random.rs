use vstd::prelude::*;

verus! {

/// Relies on `rand::Rng::gen_range` on the thread-local generator of
/// `rand::thread_rng`: it returns a value of the half-open range `lo..hi`, and
/// panics when that range is empty.
#[verifier::external_body]
pub(crate) fn random_in(lo: i64, hi: i64) -> (r: i64)
    requires
        lo < hi,
    ensures
        lo <= r < hi,
{
    rand::Rng::gen_range(&mut rand::thread_rng(), lo..hi)
}

} // verus!

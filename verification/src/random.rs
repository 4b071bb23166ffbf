use rand::Rng;
use vstd::prelude::*;

verus! {

/// `bson::Uuid::new`, written as text: a random identifier. Two calls may
/// return different texts; nothing is promised of the text.
#[verifier::external_body]
pub(crate) fn fresh_uuid() -> String {
    bson::Uuid::new().to_string()
}

/// `rand::Rng::random_range` on the thread's generator, over the half-open
/// range from `lo` to `hi`: some number in that range. The range must not
/// be empty.
#[verifier::external_body]
pub(crate) fn random_in(lo: u32, hi: u32) -> (number: u32)
    requires
        lo < hi,
    ensures
        lo <= number < hi,
{
    rand::rng().random_range(lo..hi)
}

} // verus!

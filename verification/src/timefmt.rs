use vstd::prelude::*;

verus! {

/// The RFC 3339 text of the time `ms` milliseconds after the epoch, in
/// UTC; empty where the time has no such text.
pub uninterp spec fn rfc3339_of(ms: i64) -> Seq<char>;

/// `bson::DateTime::from_millis` and `try_to_rfc3339_string`: the text is
/// a function of the time alone. Where the formatting fails, the text is
/// empty.
#[verifier::external_body]
pub(crate) fn rfc3339(ms: i64) -> (text: String)
    ensures
        text@ == rfc3339_of(ms),
{
    bson::DateTime::from_millis(ms).try_to_rfc3339_string().unwrap_or_default()
}

} // verus!

//! What is believed of the `time` crate.
use vstd::prelude::*;

verus! {

/// The time that `text` says as RFC 3339 has it: nanoseconds since the epoch, and
/// seconds east of UTC.
pub uninterp spec fn rfc3339_time(text: Seq<char>) -> Option<(i128, i32)>;

/// `time::OffsetDateTime::parse` with `time::format_description::well_known::
/// Rfc3339`: a function of the text.
#[verifier::external_body]
pub(crate) fn parse_rfc3339(text: &str) -> (result: Option<(i128, i32)>)
    ensures
        result == rfc3339_time(text@),
{
    let time = time::OffsetDateTime::parse(
        text,
        &time::format_description::well_known::Rfc3339,
    ).ok()?;
    Some((time.unix_timestamp_nanos(), time.offset().whole_seconds()))
}

} // verus!

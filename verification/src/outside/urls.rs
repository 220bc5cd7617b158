//! What is believed of the `url` crate.
use crate::models::told;
use vstd::prelude::*;
use vstd::utf8::*;

verus! {

/// How the URL that `text` spells is written, or what is said of a text that
/// spells none.
pub uninterp spec fn parsed_url(text: Seq<char>) -> Result<Seq<char>, Seq<char>>;

/// `url::Url::parse`: what it yields, and what its error says, is a function of
/// the text.
#[verifier::external_body]
pub(crate) fn parse_url(text: &str) -> (result: Result<String, String>)
    ensures
        told(result) == parsed_url(text@),
{
    url::Url::parse(text).map(String::from).map_err(|error| error.to_string())
}

/// The URL that `text` spells, with `segment` at the end of its path, if it spells
/// one whose path has segments.
pub uninterp spec fn with_path_segment(text: Seq<char>, segment: Seq<char>) -> Option<Seq<char>>;

/// Whether no offset into the URL that `text` spells passes what a URL can hold
/// once `added` more bytes stand at its end, each of which takes three at most.
pub open spec fn has_room(text: Seq<char>, added: nat) -> bool {
    parsed_url(text) matches Ok(url) ==> encode_utf8(url).len() + 3 * added + 3 <= u32::MAX
}

/// `url::PathSegmentsMut::push` on the segments of the URL that `text` spells: a
/// function of the two texts. It panics where an offset passes `u32::MAX`.
#[verifier::external_body]
pub(crate) fn push_path_segment(text: &str, segment: &str) -> (result: Option<String>)
    requires
        has_room(text@, encode_utf8(segment@).len()),
    ensures
        result.deep_view() == with_path_segment(text@, segment@),
{
    let mut url = url::Url::parse(text).ok()?;
    url.path_segments_mut().ok()?.push(segment);
    Some(String::from(url))
}

/// The URL that `text` spells, with one more pair at the end of its query.
pub uninterp spec fn with_query_pair(text: Seq<char>, name: Seq<char>, value: Seq<char>) -> Seq<
    char,
>;

/// `append_pair` on `url::Url::query_pairs_mut` of the URL that `text` spells: a
/// function of the three texts, where the text spells one. It panics where an
/// offset passes `u32::MAX`.
#[verifier::external_body]
pub(crate) fn append_query_pair(text: &str, name: &str, value: &str) -> (result: Option<String>)
    requires
        has_room(text@, encode_utf8(name@).len() + encode_utf8(value@).len()),
    ensures
        result is Some <==> parsed_url(text@) is Ok,
        result matches Some(url) ==> url@ == with_query_pair(text@, name@, value@),
{
    let mut url = url::Url::parse(text).ok()?;
    url.query_pairs_mut().append_pair(name, value);
    Some(String::from(url))
}

/// The host of the URL that `text` spells, if it spells one that has a host.
pub uninterp spec fn url_host(text: Seq<char>) -> Option<Seq<char>>;

/// `url::Url::host_str` of the URL that `text` spells: a function of the text.
#[verifier::external_body]
pub(crate) fn host_of(text: &str) -> (result: Option<String>)
    ensures
        result.deep_view() == url_host(text@),
{
    let url = url::Url::parse(text).ok()?;
    url.host_str().map(String::from)
}

/// The scheme of the URL that `text` spells, or what is said of a text that
/// spells none.
pub uninterp spec fn url_scheme(text: Seq<char>) -> Result<Seq<char>, Seq<char>>;

/// `url::Url::scheme` of the URL that `text` spells: a function of the text.
#[verifier::external_body]
pub(crate) fn scheme_of(text: &str) -> (result: Result<String, String>)
    ensures
        told(result) == url_scheme(text@),
{
    let url = url::Url::parse(text).map_err(|error| error.to_string())?;
    Ok(url.scheme().to_string())
}

/// The URL that `text` spells, with another scheme, if it can have that scheme.
pub uninterp spec fn with_scheme(text: Seq<char>, scheme: Seq<char>) -> Option<Seq<char>>;

/// `url::Url::set_scheme` on the URL that `text` spells: a function of the two
/// texts. A scheme longer than the one it replaces, which may push an offset past
/// `u32::MAX`, is left out.
#[verifier::external_body]
pub(crate) fn set_scheme(text: &str, scheme: &str) -> (result: Option<String>)
    requires
        url_scheme(text@) matches Ok(present) ==> scheme@.len() <= present.len(),
    ensures
        result.deep_view() == with_scheme(text@, scheme@),
{
    let mut url = url::Url::parse(text).ok()?;
    url.set_scheme(scheme).ok()?;
    Some(String::from(url))
}

} // verus!

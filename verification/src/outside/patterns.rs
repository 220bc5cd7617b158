//! What is believed of the `regex` crate.
use crate::text::stands_in;
use vstd::prelude::*;

verus! {

/// Whether `pattern` is a regular expression.
pub uninterp spec fn valid_pattern(pattern: Seq<char>) -> bool;

/// `regex::Regex::new`: whether it succeeds is a function of the pattern.
#[verifier::external_body]
pub(crate) fn is_valid_pattern(pattern: &str) -> (result: bool)
    ensures
        result == valid_pattern(pattern@),
{
    regex::Regex::new(pattern).is_ok()
}

/// Where `pattern` matches in `text`, from left to right, in bytes.
pub uninterp spec fn match_ranges(pattern: Seq<char>, text: Seq<char>) -> Seq<(usize, usize)>;

/// `regex::Regex::captures_iter`: where it finds matches is a function of the
/// pattern and the text. It finds them from left to right, none overlaps another,
/// and each starts and ends between characters. A pattern that is no regular
/// expression matches nowhere.
#[verifier::external_body]
pub(crate) fn find_matches(pattern: &str, text: &str) -> (result: Vec<(usize, usize)>)
    ensures
        result@ == match_ranges(pattern@, text@),
        forall|i: int|
            0 <= i < result@.len() ==> stands_in(
                text@,
                (#[trigger] result@[i]).0 as int,
                result@[i].1 as int,
            ),
        forall|i: int, j: int|
            0 <= i < j < result@.len() ==> (#[trigger] result@[i]).1 <= (#[trigger] result@[j]).0,
{
    let Ok(regex) = regex::Regex::new(pattern) else {
        return Vec::new();
    };
    regex.captures_iter(text).map(|found| found.get_match().range()).map(
        |range| (range.start, range.end),
    ).collect()
}

/// What `template` says of the match of `pattern` in `text` that comes after
/// `index` others.
pub uninterp spec fn expanded_match(
    pattern: Seq<char>,
    text: Seq<char>,
    index: usize,
    template: Seq<char>,
) -> Seq<char>;

/// `regex::Captures::expand` on one of the matches of `captures_iter`: a function of
/// the four arguments. Where there is no such match, nothing is said.
#[verifier::external_body]
pub(crate) fn expand_match(pattern: &str, text: &str, index: usize, template: &str) -> (result:
    String)
    ensures
        result@ == expanded_match(pattern@, text@, index, template@),
{
    let mut expanded = String::new();
    if let Ok(regex) = regex::Regex::new(pattern) {
        if let Some(captures) = regex.captures_iter(text).nth(index) {
            captures.expand(template, &mut expanded);
        }
    }
    expanded
}

} // verus!

//! What is believed of the `serde_json` crate.
use vstd::prelude::*;

verus! {

/// The error of `serde_json`.
#[verifier::external_type_specification]
#[verifier::external_body]
pub struct ExJsonError(serde_json::Error);

/// The JSON array that holds `texts`.
pub uninterp spec fn json_array(texts: Seq<Seq<char>>) -> Seq<char>;

/// The texts that the JSON array `json` holds, if it is an array of strings.
pub uninterp spec fn json_texts(json: Seq<char>) -> Option<Seq<Seq<char>>>;

/// `serde_json::to_string` on a list of strings: no such list fails to be
/// written, and what was written is read back as the same list.
#[verifier::external_body]
pub(crate) fn write_texts(texts: &Vec<String>) -> (result: Result<String, serde_json::Error>)
    ensures
        result is Ok,
        result->Ok_0@ == json_array(texts.deep_view()),
        json_texts(result->Ok_0@) == Some(texts.deep_view()),
{
    serde_json::to_string(texts)
}

/// `serde_json::from_str` into a list of strings: a function of the text.
#[verifier::external_body]
pub(crate) fn read_texts(json: &str) -> (result: Result<Vec<String>, serde_json::Error>)
    ensures
        match result {
            Ok(texts) => json_texts(json@) == Some(texts.deep_view()),
            Err(_) => json_texts(json@) is None,
        },
{
    serde_json::from_str(json)
}

} // verus!

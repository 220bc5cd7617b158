//! What is believed of the standard library's text functions.
use vstd::prelude::*;
use vstd::utf8::*;

verus! {

/// `String::from_utf8`, which succeeds on valid UTF-8 alone and yields the
/// characters that it encodes.
#[verifier::external_body]
pub(crate) fn from_utf8(bytes: Vec<u8>) -> (result: Option<String>)
    ensures
        match result {
            Some(text) => valid_utf8(bytes@) && text@ == decode_utf8(bytes@),
            None => !valid_utf8(bytes@),
        },
{
    String::from_utf8(bytes).ok()
}

/// What `{:?}` writes for the string `s`.
pub uninterp spec fn quoted_text(s: Seq<char>) -> Seq<char>;

/// `<str as std::fmt::Debug>::fmt`: a function of the string.
#[verifier::external_body]
pub(crate) fn quote(s: &str) -> (result: String)
    ensures
        result@ == quoted_text(s@),
{
    format!("{:?}", s)
}

/// The characters that `bytes` encode, with replacement characters for what is
/// not UTF-8.
pub uninterp spec fn lossy_text(bytes: Seq<u8>) -> Seq<char>;

/// `String::from_utf8_lossy`: a function of the bytes, which yields what valid
/// UTF-8 encodes.
#[verifier::external_body]
pub(crate) fn from_utf8_lossy(bytes: &[u8]) -> (result: String)
    ensures
        result@ == lossy_text(bytes@),
        valid_utf8(bytes@) ==> result@ == decode_utf8(bytes@),
{
    String::from_utf8_lossy(bytes).into_owned()
}

/// Whether a text holds nothing but ASCII characters.
pub open spec fn is_ascii_text(s: Seq<char>) -> bool {
    forall|i: int| 0 <= i < s.len() ==> (#[trigger] s[i]) as u32 <= 0x7f
}

/// A capital ASCII letter as a small one, and any other character as itself.
pub open spec fn small_letter(c: char) -> char {
    if 'A' <= c && c <= 'Z' {
        (c as u32 + 32) as char
    } else {
        c
    }
}

/// `s` in lower case.
pub uninterp spec fn lowercase_text(s: Seq<char>) -> Seq<char>;

/// `str::to_lowercase`: a function of the string, which makes the capital letters of
/// an ASCII text small and leaves the rest of it.
#[verifier::external_body]
pub(crate) fn to_lowercase(s: &str) -> (result: String)
    ensures
        result@ == lowercase_text(s@),
        is_ascii_text(s@) ==> result@ == s@.map_values(|c: char| small_letter(c)),
{
    s.to_lowercase()
}

} // verus!

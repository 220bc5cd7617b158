//! What is believed of the `http` and `bytes` crates.
use vstd::prelude::*;

verus! {

/// What is said of `text` where it is no URI.
pub uninterp spec fn uri_problem(text: Seq<char>) -> Option<Seq<char>>;

/// Whether a character may stand in a header name.
pub open spec fn stands_in_header_name(c: char) -> bool {
    ||| '0' <= c <= '9'
    ||| 'a' <= c <= 'z'
    ||| 'A' <= c <= 'Z'
    ||| "!#$%&'*+-.^_`|~"@.contains(c)
}

/// What is said of `text` where it is no header name: it is empty, too long, or holds
/// a character that may not stand there.
pub open spec fn header_name_problem(text: Seq<char>) -> Option<Seq<char>> {
    if 1 <= text.len() <= 0xffff && forall|i: int|
        0 <= i < text.len() ==> stands_in_header_name(#[trigger] text[i]) {
        None
    } else {
        Some("invalid HTTP header name"@)
    }
}

/// Whether a character may stand in a header value: all but the control characters
/// may, of which the tab may too.
pub open spec fn stands_in_header_value(c: char) -> bool {
    c == '\t' || (' ' <= c && c != '\u{7f}')
}

/// What is said of `text` where it is no header value.
pub open spec fn header_value_problem(text: Seq<char>) -> Option<Seq<char>> {
    if forall|i: int| 0 <= i < text.len() ==> stands_in_header_value(#[trigger] text[i]) {
        None
    } else {
        Some("failed to parse header value"@)
    }
}

/// `http::Uri::try_from`: whether it fails, and what its error says, is a
/// function of the text.
#[verifier::external_body]
pub(crate) fn find_uri_problem(text: &str) -> (result: Option<String>)
    ensures
        result.deep_view() == uri_problem(text@),
{
    http::Uri::try_from(text).err().map(|error| error.to_string())
}

/// `http::HeaderName::try_from`: it fails where the text is no header name, and its
/// error says so.
#[verifier::external_body]
pub(crate) fn find_header_name_problem(text: &str) -> (result: Option<String>)
    ensures
        result.deep_view() == header_name_problem(text@),
{
    http::HeaderName::try_from(text).err().map(|error| error.to_string())
}

/// `http::HeaderValue::try_from`: it fails where the text is no header value, and its
/// error says so.
#[verifier::external_body]
pub(crate) fn find_header_value_problem(text: &str) -> (result: Option<String>)
    ensures
        result.deep_view() == header_value_problem(text@),
{
    http::HeaderValue::try_from(text).err().map(|error| error.to_string())
}

/// How the status `code` is written: its number and its reason.
pub uninterp spec fn status_text(code: u16) -> Seq<char>;

/// `<http::StatusCode as std::fmt::Display>::fmt`: a function of the code. Only a
/// number of three digits is a code.
#[verifier::external_body]
pub(crate) fn write_status(code: u16) -> (result: Option<String>)
    ensures
        result is Some <==> 100 <= code < 1000,
        result matches Some(text) ==> text@ == status_text(code),
{
    http::StatusCode::from_u16(code).ok().map(|status| status.to_string())
}

/// How a byte of a body is written for debugging: a printable character as itself,
/// with a backslash where it needs one, and any other by an escape.
pub open spec fn byte_text(byte: u8) -> Seq<char> {
    if byte == 0x0a {
        "\\n"@
    } else if byte == 0x0d {
        "\\r"@
    } else if byte == 0x09 {
        "\\t"@
    } else if byte == 0x5c || byte == 0x22 {
        seq!['\\', byte as char]
    } else if byte == 0 {
        "\\0"@
    } else if 0x20 <= byte < 0x7f {
        seq![byte as char]
    } else {
        "\\x"@ + seq![
            "0123456789abcdef"@[byte as int / 16],
            "0123456789abcdef"@[byte as int % 16],
        ]
    }
}

/// How the bytes of a body are written for debugging, without the quotes.
pub open spec fn unquoted_bytes_text(bytes: Seq<u8>) -> Seq<char>
    decreases bytes.len(),
{
    if bytes.len() == 0 {
        Seq::empty()
    } else {
        unquoted_bytes_text(bytes.drop_last()) + byte_text(bytes.last())
    }
}

/// How the bytes of a body are written for debugging: as a byte string literal.
pub open spec fn bytes_text(bytes: Seq<u8>) -> Seq<char> {
    "b\""@ + unquoted_bytes_text(bytes) + "\""@
}

/// `<bytes::Bytes as std::fmt::Debug>::fmt`: it writes the bytes as a byte string
/// literal.
#[verifier::external_body]
pub(crate) fn write_bytes(bytes: &[u8]) -> (result: String)
    ensures
        result@ == bytes_text(bytes@),
{
    format!("{:?}", bytes::Bytes::copy_from_slice(bytes))
}

} // verus!

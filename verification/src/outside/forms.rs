//! What is believed of the `serde_urlencoded` crate.
use vstd::prelude::*;
use vstd::utf8::*;

verus! {

/// The error of the form encoder.
#[verifier::external_type_specification]
#[verifier::external_body]
pub struct ExFormError(serde_urlencoded::ser::Error);

/// Whether a byte stands for itself in a form.
pub open spec fn kept_in_form(byte: u8) -> bool {
    ||| 0x30 <= byte <= 0x39
    ||| 0x41 <= byte <= 0x5a
    ||| 0x61 <= byte <= 0x7a
    ||| byte == 0x2a || byte == 0x2d || byte == 0x2e || byte == 0x5f
}

/// How a byte is written in a form: as itself, a space as a plus sign, and any other
/// as a percent sign and its two hexadecimal digits.
pub open spec fn form_byte(byte: u8) -> Seq<char> {
    if kept_in_form(byte) {
        seq![byte as char]
    } else if byte == 0x20 {
        seq!['+']
    } else {
        seq!['%', "0123456789ABCDEF"@[byte as int / 16], "0123456789ABCDEF"@[byte as int % 16]]
    }
}

/// How bytes are written in a form.
pub open spec fn form_bytes(bytes: Seq<u8>) -> Seq<char>
    decreases bytes.len(),
{
    if bytes.len() == 0 {
        Seq::empty()
    } else {
        form_bytes(bytes.drop_last()) + form_byte(bytes.last())
    }
}

/// `pairs` as an `application/x-www-form-urlencoded` text: names and values with an
/// equals sign between them, and an ampersand between pairs.
pub open spec fn form_text(pairs: Seq<(Seq<char>, Seq<char>)>) -> Seq<char>
    decreases pairs.len(),
{
    if pairs.len() == 0 {
        Seq::empty()
    } else {
        form_text(pairs.drop_last()) + (if pairs.len() == 1 {
            Seq::empty()
        } else {
            seq!['&']
        }) + form_bytes(encode_utf8(pairs.last().0)) + seq!['='] + form_bytes(
            encode_utf8(pairs.last().1),
        )
    }
}

/// `serde_urlencoded::to_string` on pairs of strings: it writes them as a form, and
/// fails on none.
#[verifier::external_body]
pub(crate) fn encode_form(pairs: &Vec<(String, String)>) -> (result: Result<
    String,
    serde_urlencoded::ser::Error,
>)
    ensures
        result is Ok,
        result->Ok_0@ == form_text(pairs.deep_view()),
{
    serde_urlencoded::to_string(pairs)
}

} // verus!

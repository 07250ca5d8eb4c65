//! The three codings that a forwarding link passes through: escaping for
//! markup, decoding of character references, and percent-decoding.

use vstd::prelude::*;
use vstd::utf8::{
    decode_utf8, encode_utf8, encode_utf8_decode_utf8, encode_utf8_valid_utf8, is_ascii_chars,
    is_ascii_chars_encode_utf8, valid_utf8,
};

verus! {

/// What stands for `c` in text that is embedded in markup.
pub open spec fn escaped_char(c: char) -> Seq<char> {
    if c == '&' {
        seq!['&', 'a', 'm', 'p', ';']
    } else if c == '<' {
        seq!['&', 'l', 't', ';']
    } else if c == '>' {
        seq!['&', 'g', 't', ';']
    } else {
        seq![c]
    }
}

/// `text` with `&`, `<` and `>` written as character references.
pub open spec fn escaped(text: Seq<char>) -> Seq<char>
    decreases text.len(),
{
    if text.len() == 0 {
        Seq::empty()
    } else {
        escaped(text.drop_last()) + escaped_char(text.last())
    }
}

/// `text` with its character references resolved, as `html_escape` resolves
/// them: every named or numeric reference that ends in `;`.
pub uninterp spec fn html_entities_decoded(text: Seq<char>) -> Seq<char>;

/// The value of the hexadecimal digit `b`, if it is one.
pub open spec fn hex_value(b: u8) -> Option<int> {
    if 0x30 <= b <= 0x39 {
        Some(b - 0x30)
    } else if 0x41 <= b <= 0x46 {
        Some(b - 0x41 + 10)
    } else if 0x61 <= b <= 0x66 {
        Some(b - 0x61 + 10)
    } else {
        None
    }
}

/// A percent sign followed by two hexadecimal digits stands at the start of
/// `bytes`.
pub open spec fn escape_at_start(bytes: Seq<u8>) -> bool {
    &&& bytes.len() >= 3
    &&& bytes[0] == 0x25
    &&& hex_value(bytes[1]) is Some
    &&& hex_value(bytes[2]) is Some
}

/// `bytes` with every percent sign that two hexadecimal digits follow
/// replaced, together with the digits, by the byte they denote.  Any other
/// byte, a lone percent sign too, stays.
pub open spec fn unescaped_bytes(bytes: Seq<u8>) -> Seq<u8>
    decreases bytes.len(),
{
    if bytes.len() == 0 {
        bytes
    } else if escape_at_start(bytes) {
        seq![(hex_value(bytes[1])->0 * 16 + hex_value(bytes[2])->0) as u8] + unescaped_bytes(
            bytes.skip(3),
        )
    } else {
        seq![bytes[0]] + unescaped_bytes(bytes.skip(1))
    }
}

/// `text` percent-decoded: the escapes of its UTF-8 form are resolved, and
/// the bytes that result are read as UTF-8 again, which may fail.
pub open spec fn percent_decoded(text: Seq<char>) -> Option<Seq<char>> {
    let bytes = unescaped_bytes(encode_utf8(text));
    if valid_utf8(bytes) {
        Some(decode_utf8(bytes))
    } else {
        None
    }
}

/// Escapes text for embedding in markup.
///
/// Trusted: `html_escape::encode_text`, which copies its argument and writes
/// `&amp;` for `&`, `&lt;` for `<` and `&gt;` for `>`.
#[verifier::external_body]
fn encode_text(text: &str) -> (out: String)
    ensures
        out@ == escaped(text@),
{
    html_escape::encode_text(text).into_owned()
}

/// Resolves the character references in a text.
///
/// Trusted: `html_escape::decode_html_entities`.  Its result depends on the
/// argument alone; the contract gives it a name and says nothing more of it.
#[verifier::external_body]
fn decode_html_entities(text: &str) -> (out: String)
    ensures
        out@ == html_entities_decoded(text@),
{
    html_escape::decode_html_entities(text).into_owned()
}

/// Percent-decodes a text.
///
/// Trusted: `urlencoding::decode`, which resolves each `%` that two
/// hexadecimal digits follow, leaves every other byte as it is (`+` too),
/// and fails if the bytes that result are not UTF-8.
#[verifier::external_body]
fn decode(text: &str) -> (out: Option<String>)
    ensures
        match out {
            Some(decoded) => percent_decoded(text@) == Some(decoded@),
            None => percent_decoded(text@) is None,
        },
{
    match urlencoding::decode(text) {
        Ok(decoded) => Some(decoded.into_owned()),
        Err(_) => None,
    }
}

/// `text` with `&`, `<` and `>` written as character references, so that it
/// can stand in markup.
pub fn escape_markup(text: &str) -> (out: String)
    ensures
        out@ == escaped(text@),
{
    encode_text(text)
}

/// `text` with its character references resolved.
pub fn unescape_markup(text: &str) -> (out: String)
    ensures
        out@ == html_entities_decoded(text@),
{
    decode_html_entities(text)
}

/// `text` percent-decoded, or `None` where the decoded bytes are not UTF-8.
pub fn percent_decode(text: &str) -> (out: Option<String>)
    ensures
        match out {
            Some(decoded) => percent_decoded(text@) == Some(decoded@),
            None => percent_decoded(text@) is None,
        },
{
    decode(text)
}

/// Bytes without a percent sign hold no escape: they stay as they are.
pub proof fn lemma_unescaped_without_percent(bytes: Seq<u8>)
    requires
        forall|i: int| 0 <= i < bytes.len() ==> bytes[i] != 0x25,
    ensures
        unescaped_bytes(bytes) == bytes,
    decreases bytes.len(),
{
    if bytes.len() > 0 {
        lemma_unescaped_without_percent(bytes.skip(1));
        assert(seq![bytes[0]] + bytes.skip(1) == bytes);
    }
}

/// A text of ASCII characters without a percent sign percent-decodes to
/// itself.
pub proof fn lemma_plain_text_decodes_to_itself(text: Seq<char>)
    requires
        is_ascii_chars(text),
        forall|i: int| 0 <= i < text.len() ==> text[i] != '%',
    ensures
        percent_decoded(text) == Some(text),
{
    let bytes = encode_utf8(text);
    is_ascii_chars_encode_utf8(text);
    assert forall|i: int| 0 <= i < bytes.len() implies bytes[i] != 0x25 by {
        assert(text[i] as u8 == bytes[i]);
        assert(text[i] != '%');
    }
    lemma_unescaped_without_percent(bytes);
    encode_utf8_valid_utf8(text);
    encode_utf8_decode_utf8(text);
}

} // verus!

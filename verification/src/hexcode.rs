//! Hexadecimal text, as read and written by the `hex` crate.

use vstd::prelude::*;
use vstd::utf8::*;

verus! {

/// The upper-case hexadecimal digit for a value below sixteen.
pub open spec fn hex_upper_digit(v: nat) -> char {
    if v < 10 {
        crate::decimal::digit_char(v)
    } else if v == 10 { 'A' }
    else if v == 11 { 'B' }
    else if v == 12 { 'C' }
    else if v == 13 { 'D' }
    else if v == 14 { 'E' }
    else { 'F' }
}

/// Upper-case hexadecimal text of a byte string: two digits per byte, the high
/// nibble first.
pub open spec fn hex_upper(bytes: Seq<u8>) -> Seq<char> {
    Seq::new(
        2 * bytes.len(),
        |i: int|
            if i % 2 == 0 {
                hex_upper_digit((bytes[i / 2] / 16) as nat)
            } else {
                hex_upper_digit((bytes[i / 2] % 16) as nat)
            },
    )
}

/// The value of one hexadecimal digit byte, in either case.
pub open spec fn hex_value(c: u8) -> Option<u8> {
    if 48 <= c <= 57 {
        Some((c - 48) as u8)
    } else if 65 <= c <= 70 {
        Some((c - 55) as u8)
    } else if 97 <= c <= 102 {
        Some((c - 87) as u8)
    } else {
        None
    }
}

/// Whether a byte string is hexadecimal text: an even number of hexadecimal
/// digits.
pub open spec fn is_hex_text(text: Seq<u8>) -> bool {
    &&& text.len() % 2 == 0
    &&& forall|i: int| 0 <= i < text.len() ==> (#[trigger] hex_value(text[i])) is Some
}

/// The bytes that hexadecimal text stands for.
pub open spec fn hex_decoded(text: Seq<u8>) -> Seq<u8> {
    Seq::new(
        text.len() / 2,
        |i: int| (hex_value(text[2 * i])->0 * 16 + hex_value(text[2 * i + 1])->0) as u8,
    )
}

/// What `hex::decode` gives for a byte string: the decoded bytes, or `None`
/// where it reports an error.
pub open spec fn hex_decode_result(text: Seq<u8>) -> Option<Seq<u8>> {
    if is_hex_text(text) {
        Some(hex_decoded(text))
    } else {
        None
    }
}

/// Calls `hex::encode_upper`. Trusted: the result is the upper-case
/// hexadecimal text of `data`, two digits per byte, high nibble first.
#[verifier::external_body]
pub(crate) fn hex_encode_upper(data: &[u8]) -> (text: String)
    ensures
        text@ == hex_upper(data@),
{
    hex::encode_upper(data)
}

/// Calls `hex::decode`. Trusted: it succeeds exactly on an even number of
/// hexadecimal digits of either case, and then gives one byte per digit pair;
/// the error value is dropped.
#[verifier::external_body]
pub(crate) fn hex_decode(text: &[u8]) -> (bytes: Option<Vec<u8>>)
    ensures
        bytes is Some <==> is_hex_text(text@),
        bytes matches Some(b) ==> b@ == hex_decoded(text@),
{
    hex::decode(text).ok()
}

proof fn lemma_digit_value(v: nat)
    requires
        v < 16,
    ensures
        hex_value(hex_upper_digit(v) as u8) == Some(v as u8),
        '\0' <= hex_upper_digit(v) <= '\u{7f}',
{
}

/// Upper-case hexadecimal text is ASCII.
pub proof fn lemma_hex_upper_ascii(bytes: Seq<u8>)
    ensures
        is_ascii_chars(hex_upper(bytes)),
{
    let t = hex_upper(bytes);
    assert forall|i: int| 0 <= i < t.len() implies '\0' <= #[trigger] t[i] <= '\u{7f}' by {
        if i % 2 == 0 {
            lemma_digit_value((bytes[i / 2] / 16) as nat);
        } else {
            lemma_digit_value((bytes[i / 2] % 16) as nat);
        }
    }
}

/// Decoding the UTF-8 bytes of upper-case hexadecimal text gives back the
/// bytes it was made from.
pub proof fn lemma_hex_roundtrip(bytes: Seq<u8>)
    ensures
        hex_decode_result(encode_utf8(hex_upper(bytes))) == Some(bytes),
{
    let t = hex_upper(bytes);
    lemma_hex_upper_ascii(bytes);
    is_ascii_chars_encode_utf8(t);
    let e = encode_utf8(t);
    assert forall|i: int| 0 <= i < e.len() implies (#[trigger] hex_value(e[i])) is Some by {
        assert(e[i] == t[i] as u8);
        if i % 2 == 0 {
            lemma_digit_value((bytes[i / 2] / 16) as nat);
        } else {
            lemma_digit_value((bytes[i / 2] % 16) as nat);
        }
    }
    let d = hex_decoded(e);
    assert forall|j: int| 0 <= j < bytes.len() implies #[trigger] d[j] == bytes[j] by {
        assert(e[2 * j] == t[2 * j] as u8);
        assert(e[2 * j + 1] == t[2 * j + 1] as u8);
        assert((2 * j) / 2 == j);
        assert((2 * j + 1) / 2 == j);
        assert((2 * j) % 2 == 0);
        assert((2 * j + 1) % 2 == 1);
        lemma_digit_value((bytes[j] / 16) as nat);
        lemma_digit_value((bytes[j] % 16) as nat);
    }
    assert(d =~= bytes);
}

} // verus!

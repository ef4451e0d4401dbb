//! Bytes as text: ASCII bytes read as characters, and UTF-8 decoding.

use vstd::prelude::*;
use vstd::utf8::*;

verus! {

/// Whether every byte of `bytes` is an ASCII byte, below 128.
pub open spec fn is_ascii_bytes(bytes: Seq<u8>) -> bool {
    forall|i: int| 0 <= i < bytes.len() ==> #[trigger] bytes[i] < 128
}

/// The text whose characters are the bytes of `bytes`, one for one.
pub open spec fn text_of(bytes: Seq<u8>) -> Seq<char> {
    Seq::new(bytes.len(), |i: int| bytes[i] as char)
}

/// The bytes whose values are the characters of `text`, one for one.
pub open spec fn bytes_of(text: Seq<char>) -> Seq<u8> {
    Seq::new(text.len(), |i: int| text[i] as u8)
}

/// ASCII bytes are valid UTF-8; they decode to their own text, and that text
/// encodes back to them.
pub proof fn lemma_ascii_bytes_are_text(bytes: Seq<u8>)
    requires
        is_ascii_bytes(bytes),
    ensures
        is_ascii_chars(text_of(bytes)),
        encode_utf8(text_of(bytes)) == bytes,
        valid_utf8(bytes),
        decode_utf8(bytes) == text_of(bytes),
{
    let text = text_of(bytes);
    assert(is_ascii_chars(text));
    is_ascii_chars_encode_utf8(text);
    assert(encode_utf8(text) =~= bytes);
    encode_utf8_valid_utf8(text);
    encode_utf8_decode_utf8(text);
}

/// ASCII text is encoded in UTF-8 by its own bytes.
pub proof fn lemma_ascii_text_is_bytes(text: Seq<char>)
    requires
        is_ascii_chars(text),
    ensures
        is_ascii_bytes(bytes_of(text)),
        encode_utf8(text) == bytes_of(text),
        text_of(bytes_of(text)) == text,
{
    is_ascii_chars_encode_utf8(text);
    assert(encode_utf8(text) =~= bytes_of(text));
    assert(text_of(bytes_of(text)) =~= text);
}

/// The decimal digits of `value` as ASCII bytes, most significant first and
/// without leading zeros.
pub open spec fn decimal_digits(value: nat) -> Seq<u8>
    decreases value,
{
    if value < 10 {
        seq![(0x30 + value) as u8]
    } else {
        decimal_digits(value / 10).push((0x30 + value % 10) as u8)
    }
}

/// `value` written in decimal.
pub open spec fn decimal(value: nat) -> Seq<char> {
    text_of(decimal_digits(value))
}

/// Decimal digits are ASCII bytes, and there is at least one of them.
pub proof fn lemma_decimal_digits_are_ascii(value: nat)
    ensures
        decimal_digits(value).len() >= 1,
        is_ascii_bytes(decimal_digits(value)),
    decreases value,
{
    if value >= 10 {
        lemma_decimal_digits_are_ascii(value / 10);
    }
}

/// The error of `core::str::from_utf8`. Nothing is read from it.
#[verifier::external_type_specification]
#[verifier::external_body]
pub struct ExUtf8Error(core::str::Utf8Error);

/// What is taken on trust of `core::str::from_utf8`: it succeeds exactly on
/// bytes that are valid UTF-8, and the string slice that it then returns is
/// made of the very bytes that it was given.
pub assume_specification[ core::str::from_utf8 ](v: &[u8]) -> (result: Result<
    &str,
    core::str::Utf8Error,
>)
    ensures
        result is Ok <==> valid_utf8(v@),
        result matches Ok(s) ==> encode_utf8(s@) == v@,
;

/// Reads `bytes` as UTF-8 text, if they are such text.
pub fn decode_text(bytes: &[u8]) -> (text: Option<String>)
    ensures
        match text {
            Some(s) => valid_utf8(bytes@) && s@ == decode_utf8(bytes@),
            None => !valid_utf8(bytes@),
        },
{
    match core::str::from_utf8(bytes) {
        Ok(s) => {
            proof {
                encode_utf8_decode_utf8(s@);
            }
            Some(s.to_owned())
        },
        Err(_) => None,
    }
}

/// Appends the decimal digits of `value` to `out`.
fn push_decimal(out: &mut Vec<u8>, value: u32)
    ensures
        final(out)@ == old(out)@ + decimal_digits(value as nat),
    decreases value,
{
    if value >= 10 {
        push_decimal(out, value / 10);
    }
    let digit: u8 = (value % 10) as u8;
    out.push(0x30 + digit);
}

/// `value` written in decimal.
pub fn decimal_string(value: u32) -> (text: String)
    ensures
        text@ == decimal(value as nat),
{
    let mut digits: Vec<u8> = Vec::new();
    push_decimal(&mut digits, value);
    proof {
        lemma_decimal_digits_are_ascii(value as nat);
        lemma_ascii_bytes_are_text(digits@);
    }
    decode_text(digits.as_slice()).unwrap()
}

} // verus!

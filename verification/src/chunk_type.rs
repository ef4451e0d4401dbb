//! Four-letter chunk type codes and the flags that their letters carry.

use crate::error::PngError;
use crate::text::{
    bytes_of, decode_text, is_ascii_bytes, lemma_ascii_bytes_are_text, lemma_ascii_text_is_bytes,
    text_of,
};
use std::cmp::Ordering;
use std::str::FromStr;
use vstd::prelude::*;
use vstd::std_specs::cmp::{PartialEqSpecImpl, PartialOrdSpecImpl};
use vstd::std_specs::convert::TryFromSpecImpl;
use vstd::utf8::*;

verus! {

/// Whether `byte` is an ASCII letter, `A` to `Z` or `a` to `z`.
pub open spec fn is_letter(byte: u8) -> bool {
    (0x41 <= byte <= 0x5a) || (0x61 <= byte <= 0x7a)
}

/// Whether `bytes` can be a type code: exactly four ASCII letters.
pub open spec fn is_type_code(bytes: Seq<u8>) -> bool {
    bytes.len() == 4 && forall|i: int| 0 <= i < 4 ==> is_letter(#[trigger] bytes[i])
}

/// Whether `c` is an ASCII letter.
pub open spec fn is_letter_char(c: char) -> bool {
    ('A' <= c <= 'Z') || ('a' <= c <= 'z')
}

/// Whether `text` names a type code: exactly four characters, each an ASCII letter.
pub open spec fn is_type_text(text: Seq<char>) -> bool {
    text.len() == 4 && forall|i: int| 0 <= i < 4 ==> is_letter_char(#[trigger] text[i])
}

/// Whether bit `position` of `byte` is zero, bit 0 being the lowest: bit 5
/// is the one of value `0x20`.
pub open spec fn bit_is_zero(byte: u8, position: u8) -> bool {
    byte & (1u8 << position) == 0
}

/// A chunk is critical when bit 5 of the first byte of its type is zero.
pub open spec fn critical(code: Seq<u8>) -> bool {
    bit_is_zero(code[0], 5)
}

/// A chunk is public when bit 5 of the second byte of its type is zero.
pub open spec fn public(code: Seq<u8>) -> bool {
    bit_is_zero(code[1], 5)
}

/// The reserved bit is valid when bit 5 of the third byte of the type is zero.
pub open spec fn reserved_bit_valid(code: Seq<u8>) -> bool {
    bit_is_zero(code[2], 5)
}

/// A chunk is safe to copy when bit 5 of the fourth byte of its type is one.
pub open spec fn safe_to_copy(code: Seq<u8>) -> bool {
    !bit_is_zero(code[3], 5)
}

/// How the code `a` stands to the code `b` in the order of their raw bytes:
/// the first byte in which they differ decides.
pub open spec fn compare_codes(a: Seq<u8>, b: Seq<u8>) -> Ordering {
    if a[0] != b[0] {
        if a[0] < b[0] {
            Ordering::Less
        } else {
            Ordering::Greater
        }
    } else if a[1] != b[1] {
        if a[1] < b[1] {
            Ordering::Less
        } else {
            Ordering::Greater
        }
    } else if a[2] != b[2] {
        if a[2] < b[2] {
            Ordering::Less
        } else {
            Ordering::Greater
        }
    } else if a[3] != b[3] {
        if a[3] < b[3] {
            Ordering::Less
        } else {
            Ordering::Greater
        }
    } else {
        Ordering::Equal
    }
}

/// Whether `byte` is an upper-case ASCII letter.
pub open spec fn is_upper_case(byte: u8) -> bool {
    0x41 <= byte <= 0x5a
}

/// In a letter, bit 5 tells the case: it is zero in upper case and one in
/// lower case. So each of the four flags of a type code can be read
/// off the case of one of its letters.
pub proof fn lemma_bit_five_is_case(code: Seq<u8>)
    requires
        is_type_code(code),
    ensures
        critical(code) == is_upper_case(code[0]),
        public(code) == is_upper_case(code[1]),
        reserved_bit_valid(code) == is_upper_case(code[2]),
        safe_to_copy(code) == !is_upper_case(code[3]),
{
    assert forall|byte: u8| is_letter(byte) implies (bit_is_zero(byte, 5) <==> is_upper_case(
        byte,
    )) by {
        assert(((0x41 <= byte <= 0x5a) || (0x61 <= byte <= 0x7a)) ==> (byte & (1u8 << 5u8) == 0
            <==> 0x41 <= byte <= 0x5a)) by (bit_vector);
    }
}

/// A type code is UTF-8: it decodes to its own text, and its text encodes
/// back to it.
pub proof fn lemma_type_code_is_text(code: Seq<u8>)
    requires
        is_type_code(code),
    ensures
        valid_utf8(code),
        decode_utf8(code) == text_of(code),
        encode_utf8(text_of(code)) == code,
{
    assert(is_ascii_bytes(code));
    lemma_ascii_bytes_are_text(code);
}

/// A text names a type code exactly when its UTF-8 encoding is one, and the
/// code is then the text's characters taken as bytes.
pub proof fn lemma_type_text_is_type_code(text: Seq<char>)
    ensures
        is_type_text(text) <==> is_type_code(encode_utf8(text)),
        is_type_text(text) ==> encode_utf8(text) == bytes_of(text),
{
    let bytes = encode_utf8(text);
    if is_type_text(text) {
        assert(is_ascii_chars(text));
        lemma_ascii_text_is_bytes(text);
        assert(is_type_code(bytes));
    }
    if is_type_code(bytes) {
        lemma_type_code_is_text(bytes);
        encode_utf8_decode_utf8(text);
        assert(is_type_text(text));
    }
}

/// A text of four ASCII letters names a type code, and the code's text is
/// that text again.
pub proof fn lemma_type_text_round_trip(text: Seq<char>)
    requires
        is_type_text(text),
    ensures
        is_type_code(bytes_of(text)),
        text_of(bytes_of(text)) == text,
{
    lemma_type_text_is_type_code(text);
    assert(is_ascii_chars(text));
    lemma_ascii_text_is_bytes(text);
}

/// The text of a type code is four ASCII letters, and it names that code again.
pub proof fn lemma_type_code_round_trip(code: Seq<u8>)
    requires
        is_type_code(code),
    ensures
        is_type_text(text_of(code)),
        bytes_of(text_of(code)) == code,
{
    lemma_type_code_is_text(code);
    lemma_type_text_is_type_code(text_of(code));
}

/// A validated chunk type code: four bytes, each an ASCII letter. A value is
/// made by one of the two checked conversions and never changes afterwards.
#[derive(Clone, Copy, Debug, Eq, Ord)]
pub struct ChunkType {
    bytes: [u8; 4],
}

impl View for ChunkType {
    type V = Seq<u8>;

    /// The four bytes of the code.
    closed spec fn view(&self) -> Seq<u8> {
        self.bytes@
    }
}

impl ChunkType {
    /// What holds of every type code: it is four ASCII letters.
    #[verifier::type_invariant]
    pub open spec fn well_formed(&self) -> bool {
        is_type_code(self@)
    }

    /// The four bytes of the code.
    pub fn bytes(&self) -> (bytes: [u8; 4])
        ensures
            bytes@ == self@,
            is_type_code(self@),
    {
        proof {
            use_type_invariant(self);
        }
        self.bytes
    }

    /// Whether the code is four ASCII letters, which it always is.
    pub fn is_valid(&self) -> (valid: bool)
        ensures
            valid,
            valid == is_type_code(self@),
    {
        proof {
            use_type_invariant(self);
        }
        all_letters(&self.bytes)
    }

    /// Whether a decoder must understand chunks of this type.
    pub fn is_critical(&self) -> (flag: bool)
        ensures
            flag == critical(self@),
            flag == is_upper_case(self@[0]),
    {
        proof {
            use_type_invariant(self);
            lemma_bit_five_is_case(self@);
        }
        self.is_zero_bit_from_byte_at(5, 0)
    }

    /// Whether the type is a public one, not a private extension.
    pub fn is_public(&self) -> (flag: bool)
        ensures
            flag == public(self@),
            flag == is_upper_case(self@[1]),
    {
        proof {
            use_type_invariant(self);
            lemma_bit_five_is_case(self@);
        }
        self.is_zero_bit_from_byte_at(5, 1)
    }

    /// Whether the reserved bit of the type has the value that the format asks for.
    pub fn is_reserved_bit_valid(&self) -> (flag: bool)
        ensures
            flag == reserved_bit_valid(self@),
            flag == is_upper_case(self@[2]),
    {
        proof {
            use_type_invariant(self);
            lemma_bit_five_is_case(self@);
        }
        self.is_zero_bit_from_byte_at(5, 2)
    }

    /// Whether an editor that does not know the type may copy its chunks.
    pub fn is_safe_to_copy(&self) -> (flag: bool)
        ensures
            flag == safe_to_copy(self@),
            flag == !is_upper_case(self@[3]),
    {
        proof {
            use_type_invariant(self);
            lemma_bit_five_is_case(self@);
        }
        !self.is_zero_bit_from_byte_at(5, 3)
    }

    /// Whether bit `position` of byte `byte_number` is zero. A position or a
    /// byte number that the code does not have gives `false`.
    pub fn is_zero_bit_from_byte_at(&self, position: u8, byte_number: usize) -> (zero: bool)
        ensures
            zero == (position < 8 && byte_number < 4 && bit_is_zero(
                self@[byte_number as int],
                position,
            )),
    {
        if position >= 8 || byte_number >= 4 {
            return false;
        }
        (self.bytes[byte_number] & (1u8 << position)) == 0
    }

    /// Whether `text` is the code's four letters.
    pub fn is_named(&self, text: &str) -> (named: bool)
        ensures
            named == (text_of(self@) == text@),
    {
        proof {
            use_type_invariant(self);
            lemma_type_code_is_text(self@);
            encode_utf8_decode_utf8(text@);
        }
        let name: &[u8] = text.as_bytes();
        if name.len() != 4 {
            return false;
        }
        let named = name[0] == self.bytes[0] && name[1] == self.bytes[1] && name[2]
            == self.bytes[2] && name[3] == self.bytes[3];
        proof {
            if named {
                assert(name@ =~= self@);
            }
        }
        named
    }

    /// The code as text: its four letters.
    pub fn to_string(&self) -> (text: String)
        ensures
            text@ == text_of(self@),
            is_type_text(text@),
    {
        proof {
            use_type_invariant(self);
            lemma_type_code_is_text(self@);
            lemma_type_code_round_trip(self@);
        }
        decode_text(self.bytes.as_slice()).unwrap()
    }
}

/// Whether each of the four bytes is an ASCII letter.
fn all_letters(bytes: &[u8; 4]) -> (all: bool)
    ensures
        all == is_type_code(bytes@),
{
    let mut i: usize = 0;
    while i < 4
        invariant
            i <= 4,
            forall|j: int| 0 <= j < i ==> is_letter(#[trigger] bytes@[j]),
        decreases 4 - i,
    {
        let b: u8 = bytes[i];
        if !((0x41 <= b && b <= 0x5a) || (0x61 <= b && b <= 0x7a)) {
            return false;
        }
        i += 1;
    }
    true
}

impl PartialEq for ChunkType {
    /// Two type codes are equal when their bytes are.
    fn eq(&self, other: &ChunkType) -> (equal: bool) {
        let equal = self.bytes[0] == other.bytes[0] && self.bytes[1] == other.bytes[1]
            && self.bytes[2] == other.bytes[2] && self.bytes[3] == other.bytes[3];
        proof {
            if equal {
                assert(self@ =~= other@);
            }
        }
        equal
    }
}

impl PartialEqSpecImpl for ChunkType {
    open spec fn obeys_eq_spec() -> bool {
        true
    }

    open spec fn eq_spec(&self, other: &ChunkType) -> bool {
        self@ == other@
    }
}

impl PartialOrd for ChunkType {
    /// Type codes are ordered by their raw bytes.
    fn partial_cmp(&self, other: &ChunkType) -> (order: Option<Ordering>) {
        let mut i: usize = 0;
        while i < 4
            invariant
                i <= 4,
                forall|j: int| 0 <= j < i ==> self@[j] == other@[j],
            decreases 4 - i,
        {
            if self.bytes[i] < other.bytes[i] {
                return Some(Ordering::Less);
            }
            if self.bytes[i] > other.bytes[i] {
                return Some(Ordering::Greater);
            }
            i += 1;
        }
        Some(Ordering::Equal)
    }
}

impl PartialOrdSpecImpl for ChunkType {
    open spec fn obeys_partial_cmp_spec() -> bool {
        true
    }

    open spec fn partial_cmp_spec(&self, other: &ChunkType) -> Option<Ordering> {
        Some(compare_codes(self@, other@))
    }
}

impl TryFromSpecImpl<[u8; 4]> for ChunkType {
    open spec fn obeys_try_from_spec() -> bool {
        true
    }

    closed spec fn try_from_spec(value: [u8; 4]) -> Result<ChunkType, PngError> {
        if is_type_code(value@) {
            Ok(ChunkType { bytes: value })
        } else {
            Err(PngError::InvalidChunkType)
        }
    }
}

impl TryFrom<[u8; 4]> for ChunkType {
    type Error = PngError;

    /// The type code with the bytes `value`, if they are four ASCII letters.
    fn try_from(value: [u8; 4]) -> (result: Result<ChunkType, PngError>)
        ensures
            match result {
                Ok(chunk_type) => is_type_code(value@) && chunk_type@ == value@,
                Err(e) => !is_type_code(value@) && e == PngError::InvalidChunkType,
            },
    {
        if all_letters(&value) {
            Ok(ChunkType { bytes: value })
        } else {
            Err(PngError::InvalidChunkType)
        }
    }
}

impl FromStr for ChunkType {
    type Err = PngError;

    /// The type code that `s` names, if `s` is four ASCII letters.
    fn from_str(s: &str) -> (result: Result<ChunkType, PngError>)
        ensures
            match result {
                Ok(chunk_type) => is_type_text(s@) && chunk_type@ == bytes_of(s@),
                Err(e) => !is_type_text(s@) && e == PngError::InvalidChunkType,
            },
    {
        proof {
            lemma_type_text_is_type_code(s@);
        }
        let text: &[u8] = s.as_bytes();
        if text.len() != 4 {
            return Err(PngError::InvalidChunkType);
        }
        let bytes: [u8; 4] = [text[0], text[1], text[2], text[3]];
        ChunkType::try_from(bytes)
    }
}

} // verus!

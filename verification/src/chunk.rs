//! Chunks: a length, a type code, a payload and a checksum.

use crate::chunk_type::{is_type_code, ChunkType};
use crate::crc::{checksum, crc32};
use crate::endian::{
    from_be_bytes, lemma_u32_be_round_trip, lemma_u32_from_be_is_injective, to_be_bytes,
    u32_from_be, u32_to_be,
};
use crate::error::PngError;
use crate::text::{decimal, decimal_string, decode_text, text_of};
use vstd::prelude::*;
use vstd::slice::{slice_subrange, slice_to_vec};
use vstd::std_specs::cmp::PartialEqSpecImpl;
use vstd::std_specs::convert::TryFromSpecImpl;
use vstd::string::StringExecFns;
use vstd::utf8::{decode_utf8, valid_utf8};

verus! {

/// What a chunk is: its type code and its payload. The length and the
/// checksum that are stored with a chunk follow from these two.
pub struct ChunkView {
    pub chunk_type: Seq<u8>,
    pub data: Seq<u8>,
}

impl ChunkView {
    /// Whether a chunk can hold these: the type is four ASCII letters and the
    /// payload's length fits in 32 bits.
    pub open spec fn well_formed(self) -> bool {
        is_type_code(self.chunk_type) && self.data.len() <= u32::MAX
    }

    /// The checksum of the chunk: the CRC-32 of its type followed by its payload.
    pub open spec fn crc(self) -> u32 {
        checksum(self.chunk_type + self.data)
    }

    /// The chunk in a line of text: its type, the length of its payload and
    /// its checksum, the two numbers in decimal.
    pub open spec fn describe(self) -> Seq<char> {
        text_of(self.chunk_type) + ": "@ + decimal(self.data.len()) + " bytes, crc "@ + decimal(
            self.crc() as nat,
        )
    }

    /// The chunk as it stands in a file: length, type, payload, checksum, the
    /// two integers in four bytes each, most significant byte first.
    pub open spec fn to_bytes(self) -> Seq<u8> {
        u32_to_be(self.data.len() as u32) + self.chunk_type + self.data + u32_to_be(self.crc())
    }
}

/// The chunk that `bytes` begins with and the number of bytes that it takes,
/// or why `bytes` does not begin with a chunk.
pub open spec fn parse_chunk(bytes: Seq<u8>) -> Result<(ChunkView, int), PngError> {
    if bytes.len() < 12 {
        Err(PngError::TruncatedBuffer)
    } else {
        let length = u32_from_be(bytes.subrange(0, 4)) as int;
        let chunk_type = bytes.subrange(4, 8);
        if !is_type_code(chunk_type) {
            Err(PngError::InvalidChunkType)
        } else if bytes.len() < 12 + length {
            Err(PngError::TruncatedBuffer)
        } else {
            let data = bytes.subrange(8, 8 + length);
            let stored = u32_from_be(bytes.subrange(8 + length, 12 + length));
            if stored != checksum(chunk_type + data) {
                Err(PngError::CrcMismatch)
            } else {
                Ok((ChunkView { chunk_type, data }, 12 + length))
            }
        }
    }
}

/// A chunk that was written out is read back as it was, whatever follows it
/// in the buffer, and reading it takes exactly the bytes that were written.
pub proof fn lemma_chunk_round_trip(chunk: ChunkView, rest: Seq<u8>)
    requires
        chunk.well_formed(),
    ensures
        chunk.to_bytes().len() == 12 + chunk.data.len(),
        parse_chunk(chunk.to_bytes() + rest) == Ok::<(ChunkView, int), PngError>(
            (chunk, chunk.to_bytes().len() as int),
        ),
{
    let length = chunk.data.len() as int;
    let bytes = chunk.to_bytes() + rest;
    lemma_u32_be_round_trip(length as u32);
    lemma_u32_be_round_trip(chunk.crc());
    assert(bytes.subrange(0, 4) =~= u32_to_be(length as u32));
    assert(bytes.subrange(4, 8) =~= chunk.chunk_type);
    assert(bytes.subrange(8, 8 + length) =~= chunk.data);
    assert(bytes.subrange(8 + length, 12 + length) =~= u32_to_be(chunk.crc()));
}

/// `bytes` with bit `bit` of the byte at `index` inverted.
pub open spec fn flip_bit(bytes: Seq<u8>, index: int, bit: u8) -> Seq<u8> {
    bytes.update(index, bytes[index] ^ (1u8 << bit))
}

/// A written chunk in which one bit of the stored checksum has been inverted
/// is rejected for its checksum, whichever of the 32 bits it is.
pub proof fn lemma_crc_bit_flip_is_detected(chunk: ChunkView, rest: Seq<u8>, index: int, bit: u8)
    requires
        chunk.well_formed(),
        8 + chunk.data.len() <= index < 12 + chunk.data.len(),
        bit < 8,
    ensures
        parse_chunk(flip_bit(chunk.to_bytes() + rest, index, bit)) == Err::<
            (ChunkView, int),
            PngError,
        >(PngError::CrcMismatch),
{
    let length = chunk.data.len() as int;
    let bytes = chunk.to_bytes() + rest;
    let flipped = flip_bit(bytes, index, bit);
    lemma_chunk_round_trip(chunk, rest);
    assert(flipped.subrange(0, 4) =~= bytes.subrange(0, 4));
    assert(flipped.subrange(4, 8) =~= bytes.subrange(4, 8));
    assert(flipped.subrange(8, 8 + length) =~= bytes.subrange(8, 8 + length));
    let stored = bytes.subrange(8 + length, 12 + length);
    let damaged = flipped.subrange(8 + length, 12 + length);
    let byte = bytes[index];
    assert(byte ^ (1u8 << bit) != byte) by (bit_vector)
        requires
            bit < 8,
    ;
    assert(damaged[index - 8 - length] != stored[index - 8 - length]);
    if u32_from_be(damaged) == u32_from_be(stored) {
        lemma_u32_from_be_is_injective(damaged, stored);
    }
}

/// A chunk of the PNG format. Its stored length is the length of its payload
/// and its stored checksum is the CRC-32 of its type and payload: a chunk
/// for which this fails is never made.
#[derive(Debug, Eq)]
pub struct Chunk {
    length: u32,
    chunk_type: ChunkType,
    data: Vec<u8>,
    crc: u32,
}

impl View for Chunk {
    type V = ChunkView;

    closed spec fn view(&self) -> ChunkView {
        ChunkView { chunk_type: self.chunk_type@, data: self.data@ }
    }
}

impl Chunk {
    /// What holds of every chunk.
    #[verifier::type_invariant]
    pub closed spec fn well_formed(&self) -> bool {
        &&& is_type_code(self.chunk_type@)
        &&& self.length == self.data@.len()
        &&& self.crc == checksum(self.chunk_type@ + self.data@)
    }

    /// The type and payload of a chunk are such as a chunk can hold.
    pub proof fn lemma_view_well_formed(&self)
        requires
            self.well_formed(),
        ensures
            self@.well_formed(),
    {
    }

    /// The length to store with a payload of `size` bytes, if it fits in 32 bits.
    pub fn payload_length(size: usize) -> (result: Result<u32, PngError>)
        ensures
            match result {
                Ok(length) => size <= u32::MAX && length == size,
                Err(e) => size > u32::MAX && e == PngError::LengthOverflow,
            },
    {
        if size > u32::MAX as usize {
            Err(PngError::LengthOverflow)
        } else {
            Ok(size as u32)
        }
    }

    /// A chunk of type `chunk_type` that holds `data`, with its checksum
    /// computed. The payload must be short enough for its length to fit in
    /// 32 bits.
    pub fn new(chunk_type: ChunkType, data: Vec<u8>) -> (result: Result<Chunk, PngError>)
        ensures
            match result {
                Ok(chunk) => data@.len() <= u32::MAX && chunk@ == (ChunkView {
                    chunk_type: chunk_type@,
                    data: data@,
                }),
                Err(e) => data@.len() > u32::MAX && e == PngError::LengthOverflow,
            },
    {
        let length: u32 = match Chunk::payload_length(data.len()) {
            Ok(length) => length,
            Err(e) => {
                return Err(e);
            },
        };
        let type_bytes: [u8; 4] = chunk_type.bytes();
        let mut crc_data: Vec<u8> = Vec::new();
        append_bytes(&mut crc_data, type_bytes.as_slice());
        append_bytes(&mut crc_data, data.as_slice());
        let crc: u32 = crc32(crc_data.as_slice());
        Ok(Chunk { length, chunk_type, data, crc })
    }

    /// The length of the payload.
    pub fn length(&self) -> (length: u32)
        ensures
            length == self@.data.len(),
    {
        proof {
            use_type_invariant(self);
        }
        self.length
    }

    /// The type of the chunk.
    pub fn chunk_type(&self) -> (chunk_type: &ChunkType)
        ensures
            chunk_type@ == self@.chunk_type,
            self@.well_formed(),
    {
        proof {
            use_type_invariant(self);
        }
        &self.chunk_type
    }

    /// The payload.
    pub fn data(&self) -> (data: &[u8])
        ensures
            data@ == self@.data,
    {
        self.data.as_slice()
    }

    /// The checksum of the chunk.
    pub fn crc(&self) -> (crc: u32)
        ensures
            crc == self@.crc(),
    {
        proof {
            use_type_invariant(self);
        }
        self.crc
    }

    /// The payload as text, if it is UTF-8.
    pub fn data_as_string(&self) -> (result: Result<String, PngError>)
        ensures
            match result {
                Ok(text) => valid_utf8(self@.data) && text@ == decode_utf8(self@.data),
                Err(e) => !valid_utf8(self@.data) && e == PngError::TextDecodeError,
            },
    {
        match decode_text(self.data.as_slice()) {
            Some(text) => Ok(text),
            None => Err(PngError::TextDecodeError),
        }
    }

    /// The chunk in a line of text, such as `RuSt: 42 bytes, crc 2882656334`.
    pub fn to_string(&self) -> (text: String)
        ensures
            text@ == self@.describe(),
    {
        proof {
            use_type_invariant(self);
        }
        let mut text: String = self.chunk_type.to_string();
        text.append(": ");
        text.append(decimal_string(self.length).as_str());
        text.append(" bytes, crc ");
        text.append(decimal_string(self.crc).as_str());
        text
    }

    /// The chunk as it stands in a file. Read back, the bytes give the chunk.
    pub fn as_bytes(&self) -> (bytes: Vec<u8>)
        ensures
            bytes@ == self@.to_bytes(),
            parse_chunk(bytes@) == Ok::<(ChunkView, int), PngError>((self@, bytes@.len() as int)),
    {
        proof {
            use_type_invariant(self);
            lemma_chunk_round_trip(self@, Seq::empty());
        }
        let length_bytes: [u8; 4] = to_be_bytes(self.length);
        let type_bytes: [u8; 4] = self.chunk_type.bytes();
        let crc_bytes: [u8; 4] = to_be_bytes(self.crc);
        let mut bytes: Vec<u8> = Vec::new();
        append_bytes(&mut bytes, length_bytes.as_slice());
        append_bytes(&mut bytes, type_bytes.as_slice());
        append_bytes(&mut bytes, self.data.as_slice());
        append_bytes(&mut bytes, crc_bytes.as_slice());
        bytes
    }

    /// Reads the chunk that `bytes` begins with, and says how many bytes it
    /// takes. Nothing is returned of a chunk that fails a check.
    pub fn parse(bytes: &[u8]) -> (result: Result<(Chunk, usize), PngError>)
        ensures
            match result {
                Ok((chunk, consumed)) => parse_chunk(bytes@) == Ok::<(ChunkView, int), PngError>(
                    (chunk@, consumed as int),
                ),
                Err(e) => parse_chunk(bytes@) == Err::<(ChunkView, int), PngError>(e),
            },
    {
        if bytes.len() < 12 {
            return Err(PngError::TruncatedBuffer);
        }
        let length_bytes: [u8; 4] = [bytes[0], bytes[1], bytes[2], bytes[3]];
        let type_bytes: [u8; 4] = [bytes[4], bytes[5], bytes[6], bytes[7]];
        assert(length_bytes@ =~= bytes@.subrange(0, 4));
        assert(type_bytes@ =~= bytes@.subrange(4, 8));
        let chunk_type: ChunkType = match ChunkType::try_from(type_bytes) {
            Ok(chunk_type) => chunk_type,
            Err(e) => {
                return Err(e);
            },
        };
        let length: u32 = from_be_bytes(length_bytes);
        let size: usize = length as usize;
        if bytes.len() - 12 < size {
            return Err(PngError::TruncatedBuffer);
        }
        let data: Vec<u8> = slice_to_vec(slice_subrange(bytes, 8, 8 + size));
        let crc_bytes: [u8; 4] = [
            bytes[8 + size],
            bytes[9 + size],
            bytes[10 + size],
            bytes[11 + size],
        ];
        assert(crc_bytes@ =~= bytes@.subrange(8 + size, 12 + size));
        let crc: u32 = from_be_bytes(crc_bytes);
        let computed: u32 = crc32(slice_subrange(bytes, 4, 8 + size));
        assert(bytes@.subrange(4, 8 + size) =~= chunk_type@ + data@);
        if crc != computed {
            return Err(PngError::CrcMismatch);
        }
        Ok((Chunk { length, chunk_type, data, crc }, 12 + size))
    }
}

/// Appends `bytes` to `out`.
pub(crate) fn append_bytes(out: &mut Vec<u8>, bytes: &[u8])
    ensures
        final(out)@ == old(out)@ + bytes@,
{
    out.extend_from_slice(bytes);
}

impl Clone for Chunk {
    /// A second chunk with the same type and payload.
    fn clone(&self) -> (copy: Chunk)
        ensures
            copy@ == self@,
    {
        proof {
            use_type_invariant(self);
        }
        Chunk {
            length: self.length,
            chunk_type: self.chunk_type,
            data: slice_to_vec(self.data.as_slice()),
            crc: self.crc,
        }
    }
}

impl PartialEq for Chunk {
    /// Two chunks are equal when they have the same type and the same payload.
    fn eq(&self, other: &Chunk) -> (equal: bool) {
        proof {
            use_type_invariant(self);
            use_type_invariant(other);
        }
        let equal = self.length == other.length && self.chunk_type == other.chunk_type
            && self.data == other.data && self.crc == other.crc;
        proof {
            assert(self.data@ == other.data@ <==> self.data@ =~= other.data@);
        }
        equal
    }
}

impl PartialEqSpecImpl for Chunk {
    open spec fn obeys_eq_spec() -> bool {
        true
    }

    open spec fn eq_spec(&self, other: &Chunk) -> bool {
        self@ == other@
    }
}

impl<'a> TryFromSpecImpl<&'a [u8]> for Chunk {
    open spec fn obeys_try_from_spec() -> bool {
        false
    }

    closed spec fn try_from_spec(value: &'a [u8]) -> Result<Chunk, PngError> {
        match parse_chunk(value@) {
            Ok((view, _)) => Ok(choose|chunk: Chunk| chunk@ == view && chunk.well_formed()),
            Err(e) => Err(e),
        }
    }
}

impl<'a> TryFrom<&'a [u8]> for Chunk {
    type Error = PngError;

    /// Reads the chunk that `value` begins with. Bytes that follow the chunk
    /// are left unread.
    fn try_from(value: &'a [u8]) -> (result: Result<Chunk, PngError>)
        ensures
            match result {
                Ok(chunk) => parse_chunk(value@) matches Ok((view, _)) && chunk@ == view,
                Err(e) => parse_chunk(value@) == Err::<(ChunkView, int), PngError>(e),
            },
    {
        match Chunk::parse(value) {
            Ok((chunk, _)) => Ok(chunk),
            Err(e) => Err(e),
        }
    }
}

} // verus!

//! The failures that the codec reports.

use vstd::prelude::*;

verus! {

/// Why an operation of the codec failed.
#[derive(Clone, Copy, Debug, PartialEq, Eq, Structural)]
pub enum PngError {
    /// The buffer does not begin with the eight signature bytes.
    InvalidSignature,
    /// A type code is not made of exactly four ASCII letters.
    InvalidChunkType,
    /// The buffer ends before the chunk that it announces does.
    TruncatedBuffer,
    /// The checksum stored with a chunk is not the checksum of its type and payload.
    CrcMismatch,
    /// A payload is too long for its length to fit in 32 bits.
    LengthOverflow,
    /// The container holds no chunk of the type that was asked for.
    ChunkNotFound,
    /// A payload is not UTF-8 text.
    TextDecodeError,
}

impl PngError {
    /// The failure in words.
    pub open spec fn message(self) -> Seq<char> {
        match self {
            PngError::InvalidSignature => "invalid signature"@,
            PngError::InvalidChunkType => "invalid chunk type"@,
            PngError::TruncatedBuffer => "truncated buffer"@,
            PngError::CrcMismatch => "invalid crc"@,
            PngError::LengthOverflow => "chunk data too long"@,
            PngError::ChunkNotFound => "chunk not found"@,
            PngError::TextDecodeError => "could not convert data to string"@,
        }
    }

    /// The failure in words.
    pub fn to_string(&self) -> (text: String)
        ensures
            text@ == self.message(),
    {
        let text: &str = match self {
            PngError::InvalidSignature => "invalid signature",
            PngError::InvalidChunkType => "invalid chunk type",
            PngError::TruncatedBuffer => "truncated buffer",
            PngError::CrcMismatch => "invalid crc",
            PngError::LengthOverflow => "chunk data too long",
            PngError::ChunkNotFound => "chunk not found",
            PngError::TextDecodeError => "could not convert data to string",
        };
        text.to_owned()
    }
}

} // verus!

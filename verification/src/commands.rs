//! What can be done with a file held in memory: hide a message in it, read
//! one back, remove one, and list the chunks.

use crate::chunk::{Chunk, ChunkView};
use crate::chunk_type::{is_type_text, ChunkType};
use crate::error::PngError;
use crate::png::{
    describe_chunks, first_of_type, insertion_place, parse_png, png_to_bytes, Png,
};
use crate::text::bytes_of;
use std::str::FromStr;
use vstd::prelude::*;
use vstd::slice::slice_to_vec;
use vstd::utf8::{decode_utf8, valid_utf8};

verus! {

/// The file `buffer` with one more chunk, of type `chunk_type` and with the
/// payload `message`, or why there is no such file.
pub open spec fn encoded(buffer: Seq<u8>, chunk_type: Seq<char>, message: Seq<u8>) -> Result<
    Seq<u8>,
    PngError,
> {
    match parse_png(buffer) {
        Err(e) => Err(e),
        Ok(chunks) => if !is_type_text(chunk_type) {
            Err(PngError::InvalidChunkType)
        } else if message.len() > u32::MAX {
            Err(PngError::LengthOverflow)
        } else {
            Ok(
                png_to_bytes(
                    chunks.insert(
                        insertion_place(chunks),
                        ChunkView { chunk_type: bytes_of(chunk_type), data: message },
                    ),
                ),
            )
        },
    }
}

/// The text held by the first chunk of type `chunk_type` in the file
/// `buffer`, if there is such a chunk, or why it cannot be had.
pub open spec fn decoded(buffer: Seq<u8>, chunk_type: Seq<char>) -> Result<
    Option<Seq<char>>,
    PngError,
> {
    match parse_png(buffer) {
        Err(e) => Err(e),
        Ok(chunks) => if first_of_type(chunks, chunk_type) == chunks.len() {
            Ok(None)
        } else if !valid_utf8(chunks[first_of_type(chunks, chunk_type)].data) {
            Err(PngError::TextDecodeError)
        } else {
            Ok(Some(decode_utf8(chunks[first_of_type(chunks, chunk_type)].data)))
        },
    }
}

/// The file `buffer` without its first chunk of type `chunk_type`, or why
/// there is no such file.
pub open spec fn removed(buffer: Seq<u8>, chunk_type: Seq<char>) -> Result<Seq<u8>, PngError> {
    match parse_png(buffer) {
        Err(e) => Err(e),
        Ok(chunks) => if first_of_type(chunks, chunk_type) == chunks.len() {
            Err(PngError::ChunkNotFound)
        } else {
            Ok(png_to_bytes(chunks.remove(first_of_type(chunks, chunk_type))))
        },
    }
}

/// The chunks of the file `buffer` in text, or why it is no file.
pub open spec fn described(buffer: Seq<u8>) -> Result<Seq<char>, PngError> {
    match parse_png(buffer) {
        Err(e) => Err(e),
        Ok(chunks) => Ok(describe_chunks(chunks)),
    }
}

/// Hides `message` in the file `buffer`, in a new chunk of type
/// `chunk_type`, and returns the new file.
pub fn encode(buffer: &[u8], chunk_type: &str, message: &[u8]) -> (result: Result<
    Vec<u8>,
    PngError,
>)
    ensures
        match result {
            Ok(bytes) => encoded(buffer@, chunk_type@, message@) == Ok::<Seq<u8>, PngError>(
                bytes@,
            ),
            Err(e) => encoded(buffer@, chunk_type@, message@) == Err::<Seq<u8>, PngError>(e),
        },
{
    let mut png: Png = match Png::try_from(buffer) {
        Ok(png) => png,
        Err(e) => {
            return Err(e);
        },
    };
    let chunk_type: ChunkType = match ChunkType::from_str(chunk_type) {
        Ok(chunk_type) => chunk_type,
        Err(e) => {
            return Err(e);
        },
    };
    let chunk: Chunk = match Chunk::new(chunk_type, slice_to_vec(message)) {
        Ok(chunk) => chunk,
        Err(e) => {
            return Err(e);
        },
    };
    png.append_chunk(chunk);
    Ok(png.as_bytes())
}

/// Reads the message that the first chunk of type `chunk_type` in the file
/// `buffer` holds, if there is such a chunk.
pub fn decode(buffer: &[u8], chunk_type: &str) -> (result: Result<Option<String>, PngError>)
    ensures
        match result {
            Ok(Some(text)) => decoded(buffer@, chunk_type@) == Ok::<Option<Seq<char>>, PngError>(
                Some(text@),
            ),
            Ok(None) => decoded(buffer@, chunk_type@) == Ok::<Option<Seq<char>>, PngError>(None),
            Err(e) => decoded(buffer@, chunk_type@) == Err::<Option<Seq<char>>, PngError>(e),
        },
{
    let png: Png = match Png::try_from(buffer) {
        Ok(png) => png,
        Err(e) => {
            return Err(e);
        },
    };
    match png.chunk_by_type(chunk_type) {
        None => Ok(None),
        Some(chunk) => match chunk.data_as_string() {
            Ok(text) => Ok(Some(text)),
            Err(e) => Err(e),
        },
    }
}

/// Removes the first chunk of type `chunk_type` from the file `buffer` and
/// returns the new file.
pub fn remove(buffer: &[u8], chunk_type: &str) -> (result: Result<Vec<u8>, PngError>)
    ensures
        match result {
            Ok(bytes) => removed(buffer@, chunk_type@) == Ok::<Seq<u8>, PngError>(bytes@),
            Err(e) => removed(buffer@, chunk_type@) == Err::<Seq<u8>, PngError>(e),
        },
{
    let mut png: Png = match Png::try_from(buffer) {
        Ok(png) => png,
        Err(e) => {
            return Err(e);
        },
    };
    match png.remove_chunk(chunk_type) {
        Ok(_) => Ok(png.as_bytes()),
        Err(e) => Err(e),
    }
}

/// Lists the chunks of the file `buffer`, a line for each.
pub fn describe(buffer: &[u8]) -> (result: Result<String, PngError>)
    ensures
        match result {
            Ok(text) => described(buffer@) == Ok::<Seq<char>, PngError>(text@),
            Err(e) => described(buffer@) == Err::<Seq<char>, PngError>(e),
        },
{
    match Png::try_from(buffer) {
        Ok(png) => Ok(png.to_string()),
        Err(e) => Err(e),
    }
}

} // verus!

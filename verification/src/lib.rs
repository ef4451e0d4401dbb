//! A codec for the chunk structure of the PNG container format.
//!
//! A file is the eight signature bytes followed by chunks, each of them a
//! big-endian length, a four-letter type code, the payload and a CRC-32 over
//! type and payload. The library reads such a buffer into an ordered list of
//! validated chunks, edits the list, and writes it back byte for byte.
//!
//! Every function is verified against a model of the format on sequences of
//! bytes: [`chunk::parse_chunk`] and [`png::parse_png`] say what a buffer
//! holds, [`chunk::ChunkView::to_bytes`] and [`png::png_to_bytes`] what is
//! written, and the proof functions beside them that reading undoes writing.
//!
//! - [`crc`]: the checksum, specified bit by bit.
//! - [`endian`]: 32-bit integers as four bytes.
//! - [`text`]: bytes as text.
//! - [`error`]: the failures.
//! - [`chunk_type`]: type codes and their flags.
//! - [`chunk`]: chunks.
//! - [`png`]: the container and its edits.
//! - [`commands`]: whole operations on a file held in memory.

pub mod crc;
pub mod endian;
pub mod text;
pub mod error;
pub mod chunk_type;
pub mod chunk;
pub mod png;
pub mod commands;

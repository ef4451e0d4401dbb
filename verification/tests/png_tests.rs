use pngme::chunk::Chunk;
use pngme::chunk_type::ChunkType;
use pngme::commands::{decode, describe, encode, remove};
use pngme::error::PngError;
use pngme::png::{Png, STANDARD_HEADER};
use std::str::FromStr;

fn chunk_from_strings(chunk_type: &str, data: &str) -> Chunk {
    Chunk::new(ChunkType::from_str(chunk_type).unwrap(), data.as_bytes().to_vec()).unwrap()
}

fn testing_chunks() -> Vec<Chunk> {
    vec![
        chunk_from_strings("FrSt", "I am the first chunk"),
        chunk_from_strings("miDl", "I am another chunk"),
        chunk_from_strings("LASt", "I am the last chunk"),
    ]
}

fn testing_png() -> Png {
    Png::from_chunks(testing_chunks())
}

fn types_of(png: &Png) -> Vec<String> {
    png.chunks().iter().map(|chunk| chunk.chunk_type().to_string()).collect()
}

fn file_of(chunks: &[(&str, &str)]) -> Vec<u8> {
    let mut bytes: Vec<u8> = STANDARD_HEADER.to_vec();
    for (chunk_type, data) in chunks {
        bytes.extend_from_slice(&chunk_from_strings(chunk_type, data).as_bytes());
    }
    bytes
}

#[test]
fn test_signature_bytes() {
    assert_eq!(STANDARD_HEADER, [0x89, b'P', b'N', b'G', 0x0d, 0x0a, 0x1a, 0x0a]);
}

#[test]
fn test_png_from_chunks() {
    let png = testing_png();
    assert_eq!(png.chunks().len(), 3);
    assert_eq!(types_of(&png), ["FrSt", "miDl", "LASt"]);
}

#[test]
fn test_png_as_bytes_layout() {
    let png = testing_png();
    let bytes = png.as_bytes();
    let mut expected: Vec<u8> = vec![137, 80, 78, 71, 13, 10, 26, 10];
    for chunk in testing_chunks() {
        expected.extend_from_slice(&chunk.as_bytes());
    }
    assert_eq!(bytes, expected);
    assert_eq!(bytes.len(), 8 + (12 + 20) + (12 + 18) + (12 + 19));
}

#[test]
fn test_png_empty() {
    let png = Png::from_chunks(Vec::new());
    assert_eq!(png.as_bytes(), STANDARD_HEADER.to_vec());
    let parsed = Png::try_from(&STANDARD_HEADER[..]).unwrap();
    assert_eq!(parsed.chunks().len(), 0);
    assert_eq!(parsed.to_string(), "");
}

#[test]
fn test_png_round_trip() {
    let png = testing_png();
    let bytes = png.as_bytes();
    let parsed = Png::try_from(&bytes[..]).unwrap();
    assert_eq!(parsed.chunks().len(), 3);
    for (parsed_chunk, chunk) in parsed.chunks().iter().zip(testing_chunks().iter()) {
        assert!(parsed_chunk == chunk);
    }
    assert_eq!(parsed.as_bytes(), bytes);
}

#[test]
fn test_png_invalid_signature() {
    let mut bytes = testing_png().as_bytes();
    bytes[0] = 13;
    assert_eq!(Png::try_from(&bytes[..]).err(), Some(PngError::InvalidSignature));
    let mut bytes = testing_png().as_bytes();
    bytes[7] = 11;
    assert_eq!(Png::try_from(&bytes[..]).err(), Some(PngError::InvalidSignature));
    assert_eq!(Png::try_from(&[][..]).err(), Some(PngError::InvalidSignature));
    assert_eq!(Png::try_from(&STANDARD_HEADER[..7]).err(), Some(PngError::InvalidSignature));
}

#[test]
fn test_png_chunk_failure_is_the_file_s_failure() {
    let good = testing_png().as_bytes();

    let mut bad_crc = good.clone();
    let last = bad_crc.len() - 1;
    bad_crc[last] ^= 0x10;
    assert_eq!(Png::try_from(&bad_crc[..]).err(), Some(PngError::CrcMismatch));

    let mut bad_type = good.clone();
    bad_type[8 + 4] = b'1';
    assert_eq!(Png::try_from(&bad_type[..]).err(), Some(PngError::InvalidChunkType));

    let cut = &good[..good.len() - 1];
    assert_eq!(Png::try_from(cut).err(), Some(PngError::TruncatedBuffer));
}

#[test]
fn test_png_first_failure_wins() {
    let mut bytes = testing_png().as_bytes();
    // damage the type of the second chunk and the checksum of the first
    bytes[8 + 32 + 4] = b'1';
    bytes[8 + 31] ^= 0x01;
    assert_eq!(Png::try_from(&bytes[..]).err(), Some(PngError::CrcMismatch));
}

#[test]
fn test_png_bytes_behind_the_last_chunk() {
    let mut bytes = testing_png().as_bytes();
    bytes.extend_from_slice(&[0, 0, 0]);
    assert_eq!(Png::try_from(&bytes[..]).err(), Some(PngError::TruncatedBuffer));
    let mut bytes = testing_png().as_bytes();
    bytes.extend_from_slice(&[0; 12]);
    assert_eq!(Png::try_from(&bytes[..]).err(), Some(PngError::InvalidChunkType));
}

#[test]
fn test_png_corrupted_length_fails() {
    let mut bytes = testing_png().as_bytes();
    // the first chunk now claims one byte less: what is read as its checksum is not one
    bytes[8 + 3] -= 1;
    assert_eq!(Png::try_from(&bytes[..]).err(), Some(PngError::CrcMismatch));
    let mut bytes = testing_png().as_bytes();
    bytes[8] = 0x7f;
    assert_eq!(Png::try_from(&bytes[..]).err(), Some(PngError::TruncatedBuffer));
}

#[test]
fn test_chunk_by_type() {
    let png = testing_png();
    let chunk = png.chunk_by_type("FrSt").unwrap();
    assert_eq!(chunk.chunk_type().to_string(), "FrSt");
    assert_eq!(chunk.data_as_string().unwrap(), "I am the first chunk");
    assert!(png.chunk_by_type("LASt").is_some());
    assert!(png.chunk_by_type("RuSt").is_none());
    assert!(png.chunk_by_type("frst").is_none());
    assert!(png.chunk_by_type("not a type").is_none());
    assert!(png.chunk_by_type("").is_none());
}

#[test]
fn test_chunk_by_type_returns_first_match() {
    let png = Png::from_chunks(vec![
        chunk_from_strings("RuSt", "one"),
        chunk_from_strings("miDl", "two"),
        chunk_from_strings("RuSt", "three"),
    ]);
    assert_eq!(png.chunk_by_type("RuSt").unwrap().data_as_string().unwrap(), "one");
}

#[test]
fn test_append_chunk_without_end() {
    let mut png = testing_png();
    png.append_chunk(chunk_from_strings("TeSt", "Message"));
    assert_eq!(types_of(&png), ["FrSt", "miDl", "LASt", "TeSt"]);
    let chunk = png.chunk_by_type("TeSt").unwrap();
    assert_eq!(chunk.chunk_type().to_string(), "TeSt");
    assert_eq!(chunk.data_as_string().unwrap(), "Message");
}

#[test]
fn test_append_chunk_into_empty() {
    let mut png = Png::from_chunks(Vec::new());
    png.append_chunk(chunk_from_strings("TeSt", "Message"));
    assert_eq!(types_of(&png), ["TeSt"]);
}

#[test]
fn test_append_chunk_before_end() {
    let mut png = Png::from_chunks(vec![
        chunk_from_strings("IHDR", "head"),
        chunk_from_strings("IDAT", "body"),
        chunk_from_strings("IEND", ""),
    ]);
    png.append_chunk(chunk_from_strings("RuSt", "Message"));
    assert_eq!(types_of(&png), ["IHDR", "IDAT", "RuSt", "IEND"]);
    assert_eq!(png.chunks().last().unwrap().chunk_type().to_string(), "IEND");
    assert_eq!(png.chunk_by_type("RuSt").unwrap().data_as_string().unwrap(), "Message");
    png.append_chunk(chunk_from_strings("tEXt", "more"));
    assert_eq!(types_of(&png), ["IHDR", "IDAT", "RuSt", "tEXt", "IEND"]);
}

#[test]
fn test_append_chunk_before_first_end() {
    let mut png = Png::from_chunks(vec![
        chunk_from_strings("IEND", ""),
        chunk_from_strings("IDAT", "body"),
        chunk_from_strings("IEND", ""),
    ]);
    png.append_chunk(chunk_from_strings("RuSt", "Message"));
    assert_eq!(types_of(&png), ["RuSt", "IEND", "IDAT", "IEND"]);
}

#[test]
fn test_append_chunk_of_a_type_already_there() {
    let mut png = Png::from_chunks(vec![
        chunk_from_strings("RuSt", "old"),
        chunk_from_strings("IEND", ""),
    ]);
    png.append_chunk(chunk_from_strings("RuSt", "new"));
    assert_eq!(types_of(&png), ["RuSt", "RuSt", "IEND"]);
    // the search finds a chunk of the type, and it is the earlier one
    assert_eq!(png.chunk_by_type("RuSt").unwrap().data_as_string().unwrap(), "old");
}

#[test]
fn test_remove_chunk() {
    let mut png = testing_png();
    let removed = png.remove_chunk("miDl").unwrap();
    assert_eq!(removed.chunk_type().to_string(), "miDl");
    assert_eq!(removed.data_as_string().unwrap(), "I am another chunk");
    assert_eq!(types_of(&png), ["FrSt", "LASt"]);
    assert!(png.chunk_by_type("miDl").is_none());
    let parsed = Png::try_from(&png.as_bytes()[..]).unwrap();
    assert!(parsed.chunk_by_type("miDl").is_none());
    assert_eq!(parsed.chunks().len(), 2);
}

#[test]
fn test_remove_chunk_not_found() {
    let mut png = testing_png();
    assert_eq!(png.remove_chunk("RuSt").err(), Some(PngError::ChunkNotFound));
    assert_eq!(png.remove_chunk("nope!").err(), Some(PngError::ChunkNotFound));
    assert_eq!(types_of(&png), ["FrSt", "miDl", "LASt"]);
    let mut empty = Png::from_chunks(Vec::new());
    assert_eq!(empty.remove_chunk("RuSt").err(), Some(PngError::ChunkNotFound));
}

#[test]
fn test_remove_chunk_removes_only_the_first() {
    let mut png = Png::from_chunks(vec![
        chunk_from_strings("FrSt", "a"),
        chunk_from_strings("RuSt", "one"),
        chunk_from_strings("miDl", "b"),
        chunk_from_strings("RuSt", "two"),
    ]);
    let removed = png.remove_chunk("RuSt").unwrap();
    assert_eq!(removed.data_as_string().unwrap(), "one");
    assert_eq!(types_of(&png), ["FrSt", "miDl", "RuSt"]);
    assert_eq!(png.chunk_by_type("RuSt").unwrap().data_as_string().unwrap(), "two");
    png.remove_chunk("RuSt").unwrap();
    assert_eq!(png.remove_chunk("RuSt").err(), Some(PngError::ChunkNotFound));
}

#[test]
fn test_png_to_string_format() {
    let png = testing_png();
    assert_eq!(
        png.to_string(),
        "FrSt: 20 bytes, crc 920434671\nmiDl: 18 bytes, crc 3346321170\nLASt: 19 bytes, crc 313548900\n"
    );
}

#[test]
fn test_encode_adds_a_chunk() {
    let file = file_of(&[("IHDR", "head"), ("IEND", "")]);
    let encoded = encode(&file, "RuSt", b"hello").unwrap();
    assert_eq!(encoded, file_of(&[("IHDR", "head"), ("RuSt", "hello"), ("IEND", "")]));
    let png = Png::try_from(&encoded[..]).unwrap();
    assert_eq!(types_of(&png), ["IHDR", "RuSt", "IEND"]);
    assert_eq!(png.chunk_by_type("RuSt").unwrap().crc(), 748752844);
}

#[test]
fn test_encode_without_end_chunk() {
    let file = file_of(&[("IHDR", "head")]);
    let encoded = encode(&file, "RuSt", b"hello").unwrap();
    assert_eq!(encoded, file_of(&[("IHDR", "head"), ("RuSt", "hello")]));
}

#[test]
fn test_encode_failures() {
    let file = file_of(&[("IHDR", "head"), ("IEND", "")]);
    assert_eq!(encode(&file, "Ru1t", b"hello"), Err(PngError::InvalidChunkType));
    assert_eq!(encode(&file, "RuStx", b"hello"), Err(PngError::InvalidChunkType));
    assert_eq!(encode(&file[1..], "RuSt", b"hello"), Err(PngError::InvalidSignature));
    // a file that is no file is reported before a bad type is
    assert_eq!(encode(&file[1..], "Ru1t", b"hello"), Err(PngError::InvalidSignature));
    assert_eq!(encode(&file[..file.len() - 2], "RuSt", b"hello"), Err(PngError::TruncatedBuffer));
}

#[test]
fn test_decode_reads_the_message() {
    let file = file_of(&[("IHDR", "head"), ("RuSt", "hello"), ("IEND", "")]);
    assert_eq!(decode(&file, "RuSt"), Ok(Some(String::from("hello"))));
    assert_eq!(decode(&file, "IEND"), Ok(Some(String::new())));
    assert_eq!(decode(&file, "tEXt"), Ok(None));
    assert_eq!(decode(&file, "no type"), Ok(None));
}

#[test]
fn test_decode_failures() {
    let mut file: Vec<u8> = STANDARD_HEADER.to_vec();
    let chunk = Chunk::new(ChunkType::from_str("RuSt").unwrap(), vec![0xff, 0x00]).unwrap();
    file.extend_from_slice(&chunk.as_bytes());
    assert_eq!(decode(&file, "RuSt"), Err(PngError::TextDecodeError));
    assert_eq!(decode(&file[2..], "RuSt"), Err(PngError::InvalidSignature));
    let last = file.len() - 1;
    file[last] ^= 0x80;
    assert_eq!(decode(&file, "RuSt"), Err(PngError::CrcMismatch));
}

#[test]
fn test_encode_then_decode() {
    let file = file_of(&[("IHDR", "head"), ("IDAT", "body"), ("IEND", "")]);
    let encoded = encode(&file, "RuSt", "This is a secret".as_bytes()).unwrap();
    assert_eq!(decode(&encoded, "RuSt"), Ok(Some(String::from("This is a secret"))));
    let removed = remove(&encoded, "RuSt").unwrap();
    assert_eq!(removed, file);
    assert_eq!(decode(&removed, "RuSt"), Ok(None));
}

#[test]
fn test_remove_failures() {
    let file = file_of(&[("IHDR", "head"), ("IEND", "")]);
    assert_eq!(remove(&file, "RuSt"), Err(PngError::ChunkNotFound));
    assert_eq!(remove(&file, "Ru1t"), Err(PngError::ChunkNotFound));
    assert_eq!(remove(&file[..7], "IHDR"), Err(PngError::InvalidSignature));
    assert_eq!(remove(&file, "IHDR"), Ok(file_of(&[("IEND", "")])));
}

#[test]
fn test_describe_lists_the_chunks() {
    let file = file_of(&[("RuSt", "hello"), ("IEND", "")]);
    assert_eq!(
        describe(&file),
        Ok(String::from("RuSt: 5 bytes, crc 748752844\nIEND: 0 bytes, crc 2923585666\n"))
    );
    assert_eq!(describe(&STANDARD_HEADER), Ok(String::new()));
    assert_eq!(describe(&file[..10]), Err(PngError::TruncatedBuffer));
    assert_eq!(describe(b"not a png file"), Err(PngError::InvalidSignature));
}

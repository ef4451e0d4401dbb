use pngme::chunk_type::ChunkType;
use pngme::error::PngError;
use std::cmp::Ordering;
use std::convert::TryFrom;
use std::str::FromStr;

#[test]
pub fn test_chunk_type_from_bytes() {
    let expected = [82, 117, 83, 116];
    let actual = ChunkType::try_from([82, 117, 83, 116]).unwrap();

    assert_eq!(expected, actual.bytes());
}

#[test]
pub fn test_chunk_type_from_str() {
    let expected = ChunkType::try_from([82, 117, 83, 116]).unwrap();
    let actual = ChunkType::from_str("RuSt").unwrap();
    assert_eq!(expected, actual);
}

#[test]
pub fn test_chunk_type_is_critical() {
    let chunk = ChunkType::from_str("RuSt").unwrap();
    assert!(chunk.is_critical());
}

#[test]
pub fn test_chunk_type_is_not_critical() {
    let chunk = ChunkType::from_str("ruSt").unwrap();
    assert!(!chunk.is_critical());
}

#[test]
pub fn test_chunk_type_is_public() {
    let chunk = ChunkType::from_str("RUSt").unwrap();
    assert!(chunk.is_public());
}

#[test]
pub fn test_chunk_type_is_not_public() {
    let chunk = ChunkType::from_str("RuSt").unwrap();
    assert!(!chunk.is_public());
}

#[test]
pub fn test_chunk_type_is_reserved_bit_valid() {
    let chunk = ChunkType::from_str("RuSt").unwrap();
    assert!(chunk.is_reserved_bit_valid());
}

#[test]
pub fn test_chunk_type_is_reserved_bit_invalid() {
    let chunk = ChunkType::from_str("Rust").unwrap();
    assert!(!chunk.is_reserved_bit_valid());
}

#[test]
pub fn test_chunk_type_is_safe_to_copy() {
    let chunk = ChunkType::from_str("RuSt").unwrap();
    assert!(chunk.is_safe_to_copy());
}

#[test]
pub fn test_chunk_type_is_unsafe_to_copy() {
    let chunk = ChunkType::from_str("RuST").unwrap();
    assert!(!chunk.is_safe_to_copy());
}

#[test]
pub fn test_valid_chunk_is_valid() {
    let chunk = ChunkType::from_str("RuSt").unwrap();
    assert!(chunk.is_valid());
}

#[test]
pub fn test_invalid_chunk_is_valid() {
    let chunk = ChunkType::from_str("Rust").unwrap();
    assert!(chunk.is_valid());

    let chunk = ChunkType::from_str("Ru1t");
    assert!(chunk.is_err());
}

#[test]
pub fn test_chunk_type_string() {
    let chunk = ChunkType::from_str("RuSt").unwrap();
    assert_eq!(&chunk.to_string(), "RuSt");
}

#[test]
pub fn test_chunk_type_trait_impls() {
    let chunk_type_1: ChunkType = TryFrom::try_from([82, 117, 83, 116]).unwrap();
    let chunk_type_2: ChunkType = FromStr::from_str("RuSt").unwrap();
    assert_eq!("RuSt", chunk_type_1.to_string());
    assert_eq!("RuSt", chunk_type_2.to_string());
}

#[test]
pub fn test_chunk_type_rejects_non_letters() {
    assert_eq!(ChunkType::try_from([82, 117, 49, 116]), Err(PngError::InvalidChunkType));
    assert_eq!(ChunkType::try_from([64, 117, 83, 116]), Err(PngError::InvalidChunkType));
    assert_eq!(ChunkType::try_from([91, 117, 83, 116]), Err(PngError::InvalidChunkType));
    assert_eq!(ChunkType::try_from([82, 96, 83, 116]), Err(PngError::InvalidChunkType));
    assert_eq!(ChunkType::try_from([82, 117, 83, 123]), Err(PngError::InvalidChunkType));
    assert_eq!(ChunkType::try_from([0, 0, 0, 0]), Err(PngError::InvalidChunkType));
    assert_eq!(ChunkType::try_from([65, 90, 97, 122]).unwrap().bytes(), [65, 90, 97, 122]);
}

#[test]
pub fn test_chunk_type_rejects_wrong_length() {
    assert_eq!(ChunkType::from_str(""), Err(PngError::InvalidChunkType));
    assert_eq!(ChunkType::from_str("RuS"), Err(PngError::InvalidChunkType));
    assert_eq!(ChunkType::from_str("RuStx"), Err(PngError::InvalidChunkType));
    assert_eq!(ChunkType::from_str("Ru t"), Err(PngError::InvalidChunkType));
}

#[test]
pub fn test_chunk_type_rejects_non_ascii_text() {
    // two characters of two bytes each: four bytes, none of them a letter
    assert_eq!(ChunkType::from_str("\u{e9}\u{e9}"), Err(PngError::InvalidChunkType));
    // four characters, one of them not ASCII
    assert_eq!(ChunkType::from_str("Ru\u{e9}t"), Err(PngError::InvalidChunkType));
}

#[test]
pub fn test_chunk_type_text_round_trip() {
    for text in ["RuSt", "IHDR", "IEND", "tEXt", "zzzz", "AAAA", "aZbY"] {
        let chunk_type = ChunkType::from_str(text).unwrap();
        assert_eq!(chunk_type.to_string(), text);
        assert_eq!(chunk_type.bytes().to_vec(), text.as_bytes().to_vec());
        assert_eq!(ChunkType::try_from(chunk_type.bytes()).unwrap(), chunk_type);
    }
}

#[test]
pub fn test_chunk_type_flag_table() {
    let rust = ChunkType::from_str("RuSt").unwrap();
    assert!(rust.is_critical());
    assert!(!rust.is_public());
    assert!(rust.is_reserved_bit_valid());
    assert!(rust.is_safe_to_copy());
    assert!(!ChunkType::from_str("ruSt").unwrap().is_critical());
    assert!(ChunkType::from_str("RUSt").unwrap().is_public());
    assert!(!ChunkType::from_str("Rust").unwrap().is_reserved_bit_valid());
    assert!(!ChunkType::from_str("RuST").unwrap().is_safe_to_copy());
}

#[test]
pub fn test_chunk_type_bit_of_byte() {
    // 'R' is 0x52 = 0101_0010, 'u' is 0x75 = 0111_0101
    let chunk_type = ChunkType::from_str("RuSt").unwrap();
    assert!(chunk_type.is_zero_bit_from_byte_at(0, 0));
    assert!(!chunk_type.is_zero_bit_from_byte_at(1, 0));
    assert!(!chunk_type.is_zero_bit_from_byte_at(4, 0));
    assert!(chunk_type.is_zero_bit_from_byte_at(5, 0));
    assert!(!chunk_type.is_zero_bit_from_byte_at(6, 0));
    assert!(chunk_type.is_zero_bit_from_byte_at(7, 0));
    assert!(!chunk_type.is_zero_bit_from_byte_at(5, 1));
    assert!(!chunk_type.is_zero_bit_from_byte_at(0, 1));
    assert!(chunk_type.is_zero_bit_from_byte_at(1, 1));
}

#[test]
pub fn test_chunk_type_bit_out_of_range() {
    let chunk_type = ChunkType::from_str("RuSt").unwrap();
    assert!(!chunk_type.is_zero_bit_from_byte_at(8, 0));
    assert!(!chunk_type.is_zero_bit_from_byte_at(9, 0));
    assert!(!chunk_type.is_zero_bit_from_byte_at(255, 3));
    assert!(!chunk_type.is_zero_bit_from_byte_at(7, 4));
    assert!(!chunk_type.is_zero_bit_from_byte_at(7, 5));
    assert!(!chunk_type.is_zero_bit_from_byte_at(7, usize::MAX));
}

#[test]
pub fn test_chunk_type_is_named() {
    let chunk_type = ChunkType::from_str("RuSt").unwrap();
    assert!(chunk_type.is_named("RuSt"));
    assert!(!chunk_type.is_named("Rust"));
    assert!(!chunk_type.is_named("RuS"));
    assert!(!chunk_type.is_named("RuStx"));
    assert!(!chunk_type.is_named(""));
    assert!(!chunk_type.is_named("\u{e9}\u{e9}"));
}

#[test]
pub fn test_chunk_type_equality_is_by_bytes() {
    let a = ChunkType::from_str("RuSt").unwrap();
    let b = ChunkType::try_from([82, 117, 83, 116]).unwrap();
    let c = ChunkType::from_str("RuSu").unwrap();
    assert!(a == b);
    assert!(a != c);
    let copy = a;
    assert!(copy == a);
}

#[test]
pub fn test_chunk_type_order_is_by_bytes() {
    let upper = ChunkType::from_str("RuSt").unwrap();
    let lower = ChunkType::from_str("Rust").unwrap();
    let first = ChunkType::from_str("AAAA").unwrap();
    let last = ChunkType::from_str("zzzz").unwrap();
    assert_eq!(upper.partial_cmp(&lower), Some(Ordering::Less));
    assert_eq!(lower.partial_cmp(&upper), Some(Ordering::Greater));
    assert_eq!(upper.partial_cmp(&upper), Some(Ordering::Equal));
    assert!(first < upper && upper < lower && lower < last);
    assert!(ChunkType::from_str("RuSt").unwrap() < ChunkType::from_str("RuSu").unwrap());
    for a in [first, upper, lower, last] {
        for b in [first, upper, lower, last] {
            assert_eq!(a.partial_cmp(&b), Some(a.cmp(&b)));
            assert_eq!(a.partial_cmp(&b), Some(a.bytes().cmp(&b.bytes())));
        }
    }
}

use pngme::chunk_type::ChunkType;
use pngme::error::PngError;

#[test]
pub fn test_chunk_type_from_bytes() {
    let expected = [82, 117, 83, 116];
    let actual = ChunkType::from_bytes([82, 117, 83, 116]);

    assert_eq!(expected, actual.bytes());
}

#[test]
pub fn test_chunk_type_from_str() {
    let expected = ChunkType::from_bytes([82, 117, 83, 116]);
    let actual = ChunkType::from_string("RuSt").unwrap();
    assert_eq!(expected, actual);
}

#[test]
pub fn test_chunk_type_is_critical() {
    let chunk = ChunkType::from_string("RuSt").unwrap();
    assert!(chunk.is_critical());
}

#[test]
pub fn test_chunk_type_is_not_critical() {
    let chunk = ChunkType::from_string("ruSt").unwrap();
    assert!(!chunk.is_critical());
}

#[test]
pub fn test_chunk_type_is_public() {
    let chunk = ChunkType::from_string("RUSt").unwrap();
    assert!(chunk.is_public());
}

#[test]
pub fn test_chunk_type_is_not_public() {
    let chunk = ChunkType::from_string("RuSt").unwrap();
    assert!(!chunk.is_public());
}

#[test]
pub fn test_chunk_type_is_reserved_bit_valid() {
    let chunk = ChunkType::from_string("RuSt").unwrap();
    assert!(chunk.is_reserved_bit_valid());
}

#[test]
pub fn test_chunk_type_is_reserved_bit_invalid() {
    let chunk = ChunkType::from_string("Rust").unwrap();
    assert!(!chunk.is_reserved_bit_valid());
}

#[test]
pub fn test_chunk_type_is_safe_to_copy() {
    let chunk = ChunkType::from_string("RuSt").unwrap();
    assert!(chunk.is_safe_to_copy());
}

#[test]
pub fn test_chunk_type_is_unsafe_to_copy() {
    let chunk = ChunkType::from_string("RuST").unwrap();
    assert!(!chunk.is_safe_to_copy());
}

#[test]
pub fn test_valid_chunk_is_valid() {
    let chunk = ChunkType::from_string("RuSt").unwrap();
    assert!(chunk.is_valid());
}

#[test]
pub fn test_invalid_chunk_is_valid() {
    let chunk = ChunkType::from_string("Rust").unwrap();
    assert!(!chunk.is_valid());

    let chunk = ChunkType::from_string("Ru1t");
    assert!(chunk.is_err());
}

#[test]
pub fn test_chunk_type_string() {
    let chunk = ChunkType::from_string("RuSt").unwrap();
    assert_eq!(&chunk.to_string(), "RuSt");
}

#[test]
pub fn test_chunk_type_trait_impls() {
    let chunk_type_1: ChunkType = ChunkType::from_bytes([82, 117, 83, 116]);
    let chunk_type_2: ChunkType = ChunkType::from_string("RuSt").unwrap();
    let _chunk_string = chunk_type_1.to_string();
    let _are_chunks_equal = chunk_type_1 == chunk_type_2;
}

#[test]
pub fn test_chunk_type_string_round_trip() {
    for s in ["TeSt", "abcd", "ABCD", "zzzz", "IDAT"] {
        let ct = ChunkType::from_string(s).unwrap();
        assert_eq!(ct.to_string(), s);
    }
}

#[test]
pub fn test_chunk_type_from_string_wrong_length() {
    assert_eq!(
        ChunkType::from_string("Rus").unwrap_err(),
        PngError::InvalidChunkType
    );
    assert_eq!(
        ChunkType::from_string("Rusty").unwrap_err(),
        PngError::InvalidChunkType
    );
    assert_eq!(
        ChunkType::from_string("").unwrap_err(),
        PngError::InvalidChunkType
    );
}

#[test]
pub fn test_chunk_type_from_string_non_letter() {
    assert_eq!(
        ChunkType::from_string("Ruت1").unwrap_err(),
        PngError::InvalidChunkType
    );
    assert_eq!(
        ChunkType::from_string("ab d").unwrap_err(),
        PngError::InvalidChunkType
    );
}

#[test]
pub fn test_chunk_type_from_bytes_reports_validity() {
    let ct = ChunkType::from_bytes([82, 117, 49, 116]);
    assert_eq!(ct.bytes(), [82, 117, 49, 116]);
    assert!(!ct.is_valid());
    assert!(ChunkType::is_valid_byte(82));
    assert!(!ChunkType::is_valid_byte(49));
}

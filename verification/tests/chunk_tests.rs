use pngme::chunk::Chunk;
use pngme::chunk_type::ChunkType;
use pngme::error::PngError;

fn testing_chunk() -> Chunk {
    let data_length: u32 = 42;
    let chunk_type = "RuSt".as_bytes();
    let message_bytes = "This is where your secret message will be!".as_bytes();
    let crc: u32 = 2882656334;
    let chunk_data: Vec<u8> = data_length
        .to_be_bytes()
        .iter()
        .chain(chunk_type.iter())
        .chain(message_bytes.iter())
        .chain(crc.to_be_bytes().iter())
        .copied()
        .collect();

    Chunk::parse(chunk_data.as_ref()).unwrap()
}

#[test]
fn test_chunk_length() {
    let chunk = testing_chunk();
    assert_eq!(chunk.length(), 42);
}

#[test]
fn test_chunk_type() {
    let chunk = testing_chunk();
    assert_eq!(chunk.chunk_type().to_string(), String::from("RuSt"));
}

#[test]
fn test_chunk_string() {
    let chunk = testing_chunk();
    let chunk_string = chunk.data_as_string().unwrap();
    let expected_chunk_string = String::from("This is where your secret message will be!");
    assert_eq!(chunk_string, expected_chunk_string);
}

#[test]
fn test_chunk_crc() {
    let chunk = testing_chunk();
    assert_eq!(chunk.crc(), 2882656334);
}

#[test]
fn test_valid_chunk_from_bytes() {
    let data_length: u32 = 42;
    let chunk_type = "RuSt".as_bytes();
    let message_bytes = "This is where your secret message will be!".as_bytes();
    let crc: u32 = 2882656334;

    let chunk_data: Vec<u8> = data_length
        .to_be_bytes()
        .iter()
        .chain(chunk_type.iter())
        .chain(message_bytes.iter())
        .chain(crc.to_be_bytes().iter())
        .copied()
        .collect();

    let chunk = Chunk::parse(chunk_data.as_ref()).unwrap();

    let chunk_string = chunk.data_as_string().unwrap();
    let expected_chunk_string = String::from("This is where your secret message will be!");

    assert_eq!(chunk.length(), 42);
    assert_eq!(chunk.chunk_type().to_string(), String::from("RuSt"));
    assert_eq!(chunk_string, expected_chunk_string);
    assert_eq!(chunk.crc(), 2882656334);
}

#[test]
fn test_invalid_chunk_from_bytes() {
    let data_length: u32 = 42;
    let chunk_type = "RuSt".as_bytes();
    let message_bytes = "This is where your secret message will be!".as_bytes();
    let crc: u32 = 2882656333;

    let chunk_data: Vec<u8> = data_length
        .to_be_bytes()
        .iter()
        .chain(chunk_type.iter())
        .chain(message_bytes.iter())
        .chain(crc.to_be_bytes().iter())
        .copied()
        .collect();

    let chunk = Chunk::parse(chunk_data.as_ref());

    assert!(chunk.is_err());
}

#[test]
pub fn test_chunk_trait_impls() {
    let data_length: u32 = 42;
    let chunk_type = "RuSt".as_bytes();
    let message_bytes = "This is where your secret message will be!".as_bytes();
    let crc: u32 = 2882656334;

    let chunk_data: Vec<u8> = data_length
        .to_be_bytes()
        .iter()
        .chain(chunk_type.iter())
        .chain(message_bytes.iter())
        .chain(crc.to_be_bytes().iter())
        .copied()
        .collect();

    let chunk: Chunk = Chunk::parse(chunk_data.as_ref()).unwrap();

    let _chunk_string = chunk.to_string();
}

#[test]
fn test_chunk_new_computes_crc() {
    let ct = ChunkType::from_string("RuSt").unwrap();
    let data = "This is where your secret message will be!".as_bytes().to_vec();
    let chunk = Chunk::new(ct, data);
    assert_eq!(chunk.length(), 42);
    assert_eq!(chunk.crc(), 2882656334);
}

#[test]
fn test_chunk_round_trip() {
    let ct = ChunkType::from_string("RuSt").unwrap();
    let data = "round trip payload".as_bytes().to_vec();
    let original = Chunk::new(ct, data);

    let bytes = original.as_bytes();
    let reparsed = Chunk::parse(bytes.as_ref()).unwrap();

    assert_eq!(reparsed.length(), original.length());
    assert_eq!(reparsed.chunk_type(), original.chunk_type());
    assert_eq!(reparsed.data(), original.data());
    assert_eq!(reparsed.crc(), original.crc());
    assert_eq!(reparsed.as_bytes(), bytes);
}

#[test]
fn test_chunk_round_trip_empty_data() {
    let ct = ChunkType::from_string("teSt").unwrap();
    let original = Chunk::new(ct, Vec::new());
    let bytes = original.as_bytes();
    assert_eq!(bytes.len(), 12);
    let reparsed = Chunk::parse(bytes.as_ref()).unwrap();
    assert_eq!(reparsed.length(), 0);
    assert_eq!(reparsed.data(), original.data());
}

#[test]
fn test_chunk_parse_rejects_each_corrupted_crc_byte() {
    let ct = ChunkType::from_string("RuSt").unwrap();
    let data = "payload".as_bytes().to_vec();
    let chunk = Chunk::new(ct, data);
    let bytes = chunk.as_bytes();
    let n = bytes.len();
    for i in (n - 4)..n {
        let mut corrupted = bytes.clone();
        corrupted[i] = corrupted[i].wrapping_add(1);
        assert_eq!(
            Chunk::parse(corrupted.as_ref()).unwrap_err(),
            PngError::ChecksumMismatch
        );
    }
}

#[test]
fn test_chunk_parse_truncated() {
    assert_eq!(
        Chunk::parse(&[0, 0, 0, 1, 82, 117, 83, 116]).unwrap_err(),
        PngError::TruncatedInput
    );
    // Declares five data bytes but carries none.
    assert_eq!(
        Chunk::parse(&[0, 0, 0, 5, 82, 117, 83, 116, 0, 0, 0, 0]).unwrap_err(),
        PngError::TruncatedInput
    );
    assert_eq!(Chunk::parse(&[]).unwrap_err(), PngError::TruncatedInput);
}

#[test]
fn test_chunk_data_as_string_invalid_utf8() {
    let ct = ChunkType::from_string("RuSt").unwrap();
    let chunk = Chunk::new(ct, vec![0xff, 0xfe, 0x00]);
    assert_eq!(chunk.data_as_string().unwrap_err(), PngError::InvalidUtf8);
}

#[test]
fn test_chunk_to_string_exact() {
    let chunk = testing_chunk();
    assert_eq!(
        chunk.to_string(),
        "Chunk {\n  Length: 42\n  Type: RuSt\n  Data: 42 bytes\n  Crc: 2882656334\n}\n"
    );
}

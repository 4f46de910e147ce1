use chunk_codec::Chunk;
use chunk_codec::ChunkType;
use chunk_codec::FormatError;
use chunk_codec::ValidationError;

fn chunk_bytes(data_length: u32, chunk_type: &[u8], message_bytes: &[u8], crc: u32) -> Vec<u8> {
    data_length
        .to_be_bytes()
        .iter()
        .chain(chunk_type.iter())
        .chain(message_bytes.iter())
        .chain(crc.to_be_bytes().iter())
        .copied()
        .collect()
}

fn testing_chunk() -> Chunk {
    let data_length: u32 = 42;
    let chunk_type = "RuSt".as_bytes();
    let message_bytes = "This is where your secret message will be!".as_bytes();
    let crc: u32 = 2882656334;

    let chunk_data = chunk_bytes(data_length, chunk_type, message_bytes, crc);

    Chunk::parse(chunk_data.as_ref()).unwrap()
}

#[test]
fn test_new_chunk() {
    let chunk_type = ChunkType::from_str("RuSt").unwrap();
    let data = "This is where your secret message will be!"
        .as_bytes()
        .to_vec();
    let chunk = Chunk::new(chunk_type, data);
    assert_eq!(chunk.length(), 42);
    assert_eq!(chunk.crc(), 2882656334);
}

#[test]
fn test_chunk_length() {
    let chunk = testing_chunk();
    assert_eq!(chunk.length(), 42);
}

#[test]
fn test_chunk_type() {
    let chunk = testing_chunk();
    assert_eq!(chunk.chunk_type().to_text(), String::from("RuSt"));
}

#[test]
fn test_chunk_string() {
    let chunk = testing_chunk();
    let chunk_string = chunk.data_as_string();
    let expected_chunk_string = String::from("This is where your secret message will be!");
    assert_eq!(chunk_string, expected_chunk_string);
}

#[test]
fn test_chunk_crc() {
    let chunk = testing_chunk();
    assert_eq!(chunk.crc(), 2882656334);
}

#[test]
fn test_valid_chunk_from_bytes() {
    let data_length: u32 = 42;
    let chunk_type = "RuSt".as_bytes();
    let message_bytes = "This is where your secret message will be!".as_bytes();
    let crc: u32 = 2882656334;

    let chunk_data = chunk_bytes(data_length, chunk_type, message_bytes, crc);

    let chunk = Chunk::parse(chunk_data.as_ref()).unwrap();

    let chunk_string = chunk.data_as_string();
    let expected_chunk_string = String::from("This is where your secret message will be!");

    assert_eq!(chunk.length(), 42);
    assert_eq!(chunk.chunk_type().to_text(), String::from("RuSt"));
    assert_eq!(chunk_string, expected_chunk_string);
    assert_eq!(chunk.crc(), 2882656334);
}

#[test]
fn test_invalid_chunk_from_bytes() {
    let data_length: u32 = 42;
    let chunk_type = "RuSt".as_bytes();
    let message_bytes = "This is where your secret message will be!".as_bytes();
    let crc: u32 = 2882656333;

    let chunk_data = chunk_bytes(data_length, chunk_type, message_bytes, crc);

    let chunk = Chunk::parse(chunk_data.as_ref());

    assert!(chunk.is_err());
}

#[test]
pub fn test_chunk_trait_impls() {
    let data_length: u32 = 42;
    let chunk_type = "RuSt".as_bytes();
    let message_bytes = "This is where your secret message will be!".as_bytes();
    let crc: u32 = 2882656334;

    let chunk_data = chunk_bytes(data_length, chunk_type, message_bytes, crc);

    let chunk: Chunk = Chunk::parse(chunk_data.as_ref()).unwrap();

    let _chunk_string = chunk.data_as_string();
}

#[test]
fn test_round_trip() {
    let chunk_type = ChunkType::from_str("RuSt").unwrap();
    let data = "This is where your secret message will be!"
        .as_bytes()
        .to_vec();
    let chunk = Chunk::new(chunk_type, data.clone());

    let serialized = chunk.serialize();
    let parsed = Chunk::parse(serialized.as_slice()).unwrap();

    assert_eq!(parsed.chunk_type().bytes(), chunk.chunk_type().bytes());
    assert_eq!(parsed.as_bytes(), data);
    assert_eq!(parsed.crc(), chunk.crc());
    assert_eq!(parsed.length(), chunk.length());
    assert_eq!(parsed.serialize(), serialized);
}

#[test]
fn test_serialized_layout() {
    let chunk = testing_chunk();
    let expected = chunk_bytes(
        42,
        "RuSt".as_bytes(),
        "This is where your secret message will be!".as_bytes(),
        2882656334,
    );
    assert_eq!(chunk.serialize(), expected);
}

#[test]
fn test_crc_deterministic() {
    let data = "This is where your secret message will be!".as_bytes();
    let a = Chunk::new(ChunkType::from_str("RuSt").unwrap(), data.to_vec());
    let b = Chunk::new(ChunkType::from_str("RuSt").unwrap(), data.to_vec());
    assert_eq!(a.crc(), b.crc());
}

#[test]
fn test_crc_check_value() {
    // The checksum parameters are those whose check value for "123456789"
    // is 0xCBF43926; a chunk's checksum is that function of tag ++ payload.
    let direct = crc::Crc::<u32>::new(&crc::CRC_32_ISO_HDLC);
    assert_eq!(direct.checksum(b"123456789"), 0xCBF43926);
    let chunk = Chunk::new(ChunkType::from_str("abcd").unwrap(), b"efgh".to_vec());
    assert_eq!(chunk.crc(), direct.checksum(b"abcdefgh"));
}

#[test]
fn test_tamper_detection() {
    let chunk = testing_chunk();
    let serialized = chunk.serialize();
    let crc_start = serialized.len() - 4;
    for byte_index in crc_start..serialized.len() {
        for bit in 0..8 {
            let mut tampered = serialized.clone();
            tampered[byte_index] ^= 1u8 << bit;
            let result = Chunk::parse(tampered.as_slice());
            assert_eq!(result.unwrap_err(), FormatError::ChecksumMismatch);
        }
    }
}

#[test]
fn test_truncation_detection() {
    let chunk = testing_chunk();
    let serialized = chunk.serialize();
    for n in 0..serialized.len() {
        let result = Chunk::parse(&serialized[..n]);
        assert_eq!(result.unwrap_err(), FormatError::Truncated);
    }
}

#[test]
fn test_invalid_tag_error() {
    let chunk_data = chunk_bytes(4, "Ru1t".as_bytes(), "abcd".as_bytes(), 0);
    let result = Chunk::parse(chunk_data.as_slice());
    assert_eq!(
        result.unwrap_err(),
        FormatError::InvalidTag(ValidationError::InvalidByte)
    );
}

#[test]
fn test_empty_payload() {
    let chunk = Chunk::new(ChunkType::from_str("RuSt").unwrap(), Vec::new());
    assert_eq!(chunk.length(), 0);
    assert_eq!(chunk.data(), &[] as &[u8]);
    assert_eq!(chunk.data_as_string(), String::new());
    let serialized = chunk.serialize();
    assert_eq!(serialized.len(), 12);
    let parsed = Chunk::parse(serialized.as_slice()).unwrap();
    assert_eq!(parsed.crc(), chunk.crc());
    assert_eq!(parsed.length(), 0);
}

#[test]
fn test_lossy_payload_string() {
    let chunk = Chunk::new(
        ChunkType::from_str("RuSt").unwrap(),
        vec![0xFF, 0xFE, 0x41],
    );
    assert_eq!(chunk.data_as_string(), "\u{FFFD}\u{FFFD}A");
    assert_eq!(chunk.as_bytes(), vec![0xFF, 0xFE, 0x41]);
}

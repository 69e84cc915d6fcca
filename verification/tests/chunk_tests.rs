use std::convert::TryFrom;
use std::str::FromStr;

use pngme::chunk::{calculate_crc, read_fields, verify_crc, Chunk};
use pngme::chunk_type::ChunkType;
use pngme::error::{EncodingError, FormatError};
use pngme::text::{ascii_string, decimal_string, decode_text};
use pngme::wire::{read_u32_be, write_u32_be};

fn testing_chunk() -> Chunk {
    let data_length: u32 = 42;
    let chunk_type = "RuSt".as_bytes();
    let message_bytes = "This is where your secret message will be!".as_bytes();
    let crc: u32 = 2882656334;

    let chunk_data: Vec<u8> = data_length
        .to_be_bytes()
        .iter()
        .chain(chunk_type.iter())
        .chain(message_bytes.iter())
        .chain(crc.to_be_bytes().iter())
        .copied()
        .collect();

    Chunk::try_from(chunk_data.as_ref()).unwrap()
}

fn sample_bytes(crc: u32) -> Vec<u8> {
    let mut bytes: Vec<u8> = Vec::new();
    bytes.extend_from_slice(&42u32.to_be_bytes());
    bytes.extend_from_slice("RuSt".as_bytes());
    bytes.extend_from_slice("This is where your secret message will be!".as_bytes());
    bytes.extend_from_slice(&crc.to_be_bytes());
    bytes
}

#[test]
fn test_new_chunk() {
    let chunk_type = ChunkType::from_str("RuSt").unwrap();
    let data = "This is where your secret message will be!"
        .as_bytes()
        .to_vec();
    let chunk = Chunk::new(chunk_type, data);
    assert_eq!(chunk.length(), 42);
    assert_eq!(chunk.crc(), 2882656334);
}

#[test]
fn test_chunk_length() {
    let chunk = testing_chunk();
    assert_eq!(chunk.length(), 42);
}

#[test]
fn test_chunk_type() {
    let chunk = testing_chunk();
    assert_eq!(chunk.chunk_type().to_string().unwrap(), String::from("RuSt"));
}

#[test]
fn test_chunk_string() {
    let chunk = testing_chunk();
    let chunk_string = chunk.data_as_string().unwrap();
    let expected_chunk_string = String::from("This is where your secret message will be!");
    assert_eq!(chunk_string, expected_chunk_string);
}

#[test]
fn test_chunk_crc() {
    let chunk = testing_chunk();
    assert_eq!(chunk.crc(), 2882656334);
}

#[test]
fn test_valid_chunk_from_bytes() {
    let data_length: u32 = 42;
    let chunk_type = "RuSt".as_bytes();
    let message_bytes = "This is where your secret message will be!".as_bytes();
    let crc: u32 = 2882656334;

    let chunk_data: Vec<u8> = data_length
        .to_be_bytes()
        .iter()
        .chain(chunk_type.iter())
        .chain(message_bytes.iter())
        .chain(crc.to_be_bytes().iter())
        .copied()
        .collect();

    let chunk = Chunk::try_from(chunk_data.as_ref()).unwrap();

    let chunk_string = chunk.data_as_string().unwrap();
    let expected_chunk_string = String::from("This is where your secret message will be!");

    assert_eq!(chunk.length(), 42);
    assert_eq!(chunk.chunk_type().to_string().unwrap(), String::from("RuSt"));
    assert_eq!(chunk_string, expected_chunk_string);
    assert_eq!(chunk.crc(), 2882656334);
}

#[test]
fn test_invalid_chunk_from_bytes() {
    let data_length: u32 = 42;
    let chunk_type = "RuSt".as_bytes();
    let message_bytes = "This is where your secret message will be!".as_bytes();
    let crc: u32 = 2882656333;

    let chunk_data: Vec<u8> = data_length
        .to_be_bytes()
        .iter()
        .chain(chunk_type.iter())
        .chain(message_bytes.iter())
        .chain(crc.to_be_bytes().iter())
        .copied()
        .collect();

    let chunk = Chunk::try_from(chunk_data.as_ref());
    println!("CHUNK: {:?}", chunk);
    assert!(chunk.is_err());
}

#[test]
pub fn test_chunk_trait_impls() {
    let data_length: u32 = 42;
    let chunk_type = "RuSt".as_bytes();
    let message_bytes = "This is where your secret message will be!".as_bytes();
    let crc: u32 = 2882656334;

    let chunk_data: Vec<u8> = data_length
        .to_be_bytes()
        .iter()
        .chain(chunk_type.iter())
        .chain(message_bytes.iter())
        .chain(crc.to_be_bytes().iter())
        .copied()
        .collect();

    let chunk: Chunk = TryFrom::try_from(chunk_data.as_ref()).unwrap();

    let _chunk_string = format!("{}", chunk.to_string().unwrap());
}

#[test]
fn end_to_end_scenario() {
    let message = "This is where your secret message will be!";
    let made = Chunk::new(ChunkType::from_str("RuSt").unwrap(), message.as_bytes().to_vec());
    assert_eq!(made.length(), 42);
    assert_eq!(made.crc(), 2882656334);
    let bytes = made.as_bytes();
    assert_eq!(bytes, sample_bytes(2882656334));
    let parsed = Chunk::try_from(&bytes).unwrap();
    assert_eq!(parsed.length(), made.length());
    assert_eq!(parsed.chunk_type(), made.chunk_type());
    assert_eq!(parsed.data(), made.data());
    assert_eq!(parsed.crc(), made.crc());
    assert_eq!(parsed.data_as_string().unwrap(), message);
}

#[test]
fn off_by_one_checksum_is_a_mismatch() {
    assert_eq!(
        Chunk::try_from(&sample_bytes(2882656333)).err(),
        Some(FormatError::CrcMismatch)
    );
}

#[test]
fn round_trip_of_several_chunks() {
    let payloads: Vec<Vec<u8>> = vec![
        vec![],
        vec![0],
        vec![255; 3],
        (0..=255u8).collect(),
        vec![7; 70000],
    ];
    for code in ["RuSt", "IHDR", "tEXt", "zzzz"] {
        for data in &payloads {
            let made = Chunk::new(ChunkType::from_str(code).unwrap(), data.clone());
            let bytes = made.as_bytes();
            assert_eq!(bytes.len(), 12 + data.len());
            let parsed = Chunk::try_from(&bytes).unwrap();
            assert_eq!(parsed.length() as usize, data.len());
            assert_eq!(parsed.length(), made.length());
            assert_eq!(parsed.chunk_type(), made.chunk_type());
            assert_eq!(parsed.data(), &data[..]);
            assert_eq!(parsed.crc(), made.crc());
            assert_eq!(parsed.as_bytes(), bytes);
        }
    }
}

#[test]
fn known_checksums() {
    // the algorithm's check value, over "1234" as type code and "56789" as payload
    let code = ChunkType::try_from([0x31, 0x32, 0x33, 0x34]).unwrap();
    assert_eq!(calculate_crc(&code, &"56789".as_bytes().to_vec()), 0xcbf43926);
    // the end marker of a PNG file
    let iend = Chunk::new(ChunkType::from_str("IEND").unwrap(), vec![]);
    assert_eq!(iend.crc(), 0xae426082);
    assert_eq!(iend.as_bytes(), vec![0, 0, 0, 0, 73, 69, 78, 68, 0xae, 0x42, 0x60, 0x82]);
}

#[test]
fn checksum_covers_type_then_payload() {
    let a = calculate_crc(&ChunkType::from_str("RuSt").unwrap(), &vec![1, 2, 3]);
    let b = calculate_crc(&ChunkType::from_str("RuSt").unwrap(), &vec![1, 2, 4]);
    let c = calculate_crc(&ChunkType::from_str("RuSu").unwrap(), &vec![1, 2, 3]);
    assert_ne!(a, b);
    assert_ne!(a, c);
    // the payload alone is not what is summed
    assert_ne!(a, calculate_crc(&ChunkType::try_from([1, 2, 3, 0]).unwrap(), &vec![]));
}

#[test]
fn every_single_bit_flip_in_type_or_payload_is_detected() {
    let good = sample_bytes(2882656334);
    assert!(Chunk::try_from(&good).is_ok());
    for at in 4..(good.len() - 4) {
        for bit in 0..8 {
            let mut bad = good.clone();
            bad[at] ^= 1 << bit;
            assert_eq!(Chunk::try_from(&bad).err(), Some(FormatError::CrcMismatch));
        }
    }
}

#[test]
fn every_single_bit_flip_in_the_checksum_is_detected() {
    let good = sample_bytes(2882656334);
    let n = good.len();
    for at in (n - 4)..n {
        for bit in 0..8 {
            let mut bad = good.clone();
            bad[at] ^= 1 << bit;
            assert_eq!(Chunk::try_from(&bad).err(), Some(FormatError::CrcMismatch));
        }
    }
}

#[test]
fn short_buffers_fail_for_their_length() {
    for n in 0..12usize {
        for fill in [0u8, 1, 0x41, 0xff] {
            let bytes = vec![fill; n];
            assert_eq!(Chunk::try_from(&bytes).err(), Some(FormatError::InvalidChunkLength));
        }
    }
    let good = sample_bytes(2882656334);
    assert_eq!(
        Chunk::try_from(&good[..11].to_vec()).err(),
        Some(FormatError::InvalidChunkLength)
    );
}

#[test]
fn length_past_the_end_is_out_of_bounds() {
    let good = sample_bytes(2882656334);
    // one byte missing at the end
    assert_eq!(
        Chunk::try_from(&good[..good.len() - 1].to_vec()).err(),
        Some(FormatError::DataOutOfBounds)
    );
    // length field of one with no payload byte in the buffer
    let bytes = vec![0, 0, 0, 1, 73, 69, 78, 68, 0xae, 0x42, 0x60, 0x82];
    assert_eq!(Chunk::try_from(&bytes).err(), Some(FormatError::DataOutOfBounds));
    // the largest length field
    let bytes = vec![0xff, 0xff, 0xff, 0xff, 73, 69, 78, 68, 0xae, 0x42, 0x60, 0x82];
    assert_eq!(Chunk::try_from(&bytes).err(), Some(FormatError::DataOutOfBounds));
    // a length field whose low byte alone would fit
    let mut bytes = vec![1, 0, 0, 0, 73, 69, 78, 68];
    bytes.extend_from_slice(&[0; 8]);
    assert_eq!(Chunk::try_from(&bytes).err(), Some(FormatError::DataOutOfBounds));
}

#[test]
fn empty_payload_parses_from_twelve_bytes() {
    let bytes = vec![0, 0, 0, 0, 73, 69, 78, 68, 0xae, 0x42, 0x60, 0x82];
    let chunk = Chunk::try_from(&bytes).unwrap();
    assert_eq!(chunk.length(), 0);
    assert_eq!(chunk.data(), &[] as &[u8]);
    assert_eq!(chunk.chunk_type().bytes(), [73, 69, 78, 68]);
    assert_eq!(chunk.crc(), 0xae426082);
    assert_eq!(chunk.data_as_string().unwrap(), "");
}

#[test]
fn bytes_after_the_checksum_are_left_alone() {
    let mut bytes = sample_bytes(2882656334);
    bytes.extend_from_slice(&[9, 9, 9]);
    let chunk = Chunk::try_from(&bytes).unwrap();
    assert_eq!(chunk.length(), 42);
    assert_eq!(chunk.crc(), 2882656334);
    assert_eq!(chunk.as_bytes(), sample_bytes(2882656334));
}

#[test]
fn parsing_does_not_ask_for_letters_in_the_type() {
    let code = ChunkType::try_from([1, 2, 3, 4]).unwrap();
    let bytes = Chunk::new(code, vec![5, 6]).as_bytes();
    let chunk = Chunk::try_from(&bytes).unwrap();
    assert_eq!(chunk.chunk_type().bytes(), [1, 2, 3, 4]);
    assert!(!chunk.chunk_type().is_valid());
}

#[test]
fn read_fields_splits_without_judging_the_checksum() {
    let (length, code, data, crc) = read_fields(&sample_bytes(7)).unwrap();
    assert_eq!(length, 42);
    assert_eq!(code.bytes(), [82, 117, 83, 116]);
    assert_eq!(data, "This is where your secret message will be!".as_bytes());
    assert_eq!(crc, 7);
    assert_eq!(read_fields(&[0; 11]).err(), Some(FormatError::InvalidChunkLength));
    assert_eq!(
        read_fields(&[0, 0, 0, 1, 0, 0, 0, 0, 0, 0, 0, 0]).err(),
        Some(FormatError::DataOutOfBounds)
    );
    let (length, _, data, crc) =
        read_fields(&[0, 0, 0, 1, 0, 0, 0, 0, 0xaa, 1, 2, 3, 4, 0xbb]).unwrap();
    assert_eq!((length, data, crc), (1, vec![0xaa], 0x01020304));
}

#[test]
fn verify_crc_compares() {
    assert_eq!(verify_crc(5, 5), Ok(()));
    assert_eq!(verify_crc(5, 6), Err(FormatError::CrcMismatch));
    assert_eq!(verify_crc(0, u32::MAX), Err(FormatError::CrcMismatch));
}

#[test]
fn big_endian_numbers() {
    assert_eq!(read_u32_be(&[0x12, 0x34, 0x56, 0x78], 0), 0x12345678);
    assert_eq!(read_u32_be(&[9, 0, 0, 0, 42], 1), 42);
    assert_eq!(read_u32_be(&[0xff; 4], 0), u32::MAX);
    let mut out = vec![7u8];
    write_u32_be(&mut out, 0x12345678);
    write_u32_be(&mut out, 42);
    assert_eq!(out, vec![7, 0x12, 0x34, 0x56, 0x78, 0, 0, 0, 42]);
    for n in [0u32, 1, 255, 256, 65535, 65536, 0x00ff_ffff, 0x0100_0000, 2882656334, u32::MAX] {
        let mut out = Vec::new();
        write_u32_be(&mut out, n);
        assert_eq!(out, n.to_be_bytes());
        assert_eq!(read_u32_be(&out, 0), n);
    }
}

#[test]
fn data_as_string_fails_on_bytes_that_are_no_text() {
    let chunk = Chunk::new(ChunkType::from_str("RuSt").unwrap(), vec![0x48, 0x69, 0xff]);
    assert_eq!(chunk.data_as_string(), Err(EncodingError::InvalidUtf8));
    let chunk = Chunk::new(ChunkType::from_str("RuSt").unwrap(), vec![0xe2, 0x82]);
    assert_eq!(chunk.data_as_string(), Err(EncodingError::InvalidUtf8));
}

#[test]
fn data_as_string_decodes_utf8() {
    let chunk = Chunk::new(ChunkType::from_str("RuSt").unwrap(), "héllo €".as_bytes().to_vec());
    assert_eq!(chunk.data_as_string().unwrap(), "héllo €");
    assert_eq!(chunk.length(), 10);
}

#[test]
fn text_helpers() {
    assert_eq!(decode_text(vec![0x68, 0x69]), Ok(String::from("hi")));
    assert_eq!(decode_text(vec![0x80]), Err(EncodingError::InvalidUtf8));
    assert_eq!(ascii_string(vec![0x41, 0x7f, 0]), "A\u{7f}\0");
    assert_eq!(decimal_string(0), "0");
    assert_eq!(decimal_string(9), "9");
    assert_eq!(decimal_string(10), "10");
    assert_eq!(decimal_string(2882656334), "2882656334");
    assert_eq!(decimal_string(u32::MAX), "4294967295");
}

#[test]
fn chunk_written_out_for_display() {
    let chunk = Chunk::new(ChunkType::from_str("RuSt").unwrap(), vec![1, 23, 0, 255]);
    let crc = chunk.crc();
    assert_eq!(chunk.to_string().unwrap(), format!("4RuSt1230255{}", crc));
    let empty = Chunk::new(ChunkType::from_str("IEND").unwrap(), vec![]);
    assert_eq!(empty.to_string().unwrap(), "0IEND2923585666");
    let broken = Chunk::new(ChunkType::try_from([0xff, 0, 0, 0]).unwrap(), vec![]);
    assert_eq!(broken.to_string(), Err(EncodingError::InvalidUtf8));
}

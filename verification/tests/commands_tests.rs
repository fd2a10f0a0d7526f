use pngme::chunk::Chunk;
use pngme::chunk_type::ChunkType;
use pngme::commands::{decode, encode, print_chunks, remove};
use pngme::error::Error;

fn file_bytes() -> Vec<u8> {
    let mut bytes: Vec<u8> = vec![137, 80, 78, 71, 13, 10, 26, 10];
    let header = Chunk::new(ChunkType::from_str("IHDR").unwrap(), vec![0, 0, 0, 1]).unwrap();
    let end = Chunk::new(ChunkType::from_str("IEND").unwrap(), Vec::new()).unwrap();
    bytes.extend(header.as_bytes());
    bytes.extend(end.as_bytes());
    bytes
}

#[test]
fn encode_appends_a_chunk_with_the_message() {
    let file = file_bytes();
    let out = encode(&file, "teSt", "hello").unwrap();
    let mut expected = file.clone();
    expected.extend_from_slice(&[0, 0, 0, 5]);
    expected.extend_from_slice(b"teSthello");
    assert_eq!(out.len(), file.len() + 17);
    assert_eq!(&out[..file.len() + 13], &expected[..file.len() + 13]);
    assert_eq!(decode(&out, "teSt").unwrap(), "hello");
}

#[test]
fn encode_failures() {
    let file = file_bytes();
    assert_eq!(encode(&file[1..], "teSt", "hello"), Err(Error::SignatureMismatch));
    assert_eq!(encode(&file[..file.len() - 2], "teSt", "hello"), Err(Error::Truncated));
    assert_eq!(encode(&file, "te5t", "hello"), Err(Error::InvalidChunkType));
}

#[test]
fn decode_failures() {
    let file = file_bytes();
    assert_eq!(decode(&file, "teSt"), Err(Error::NotFound));
    assert_eq!(decode(&file, "te"), Err(Error::NotFound));
    assert_eq!(decode(&file[..7], "teSt"), Err(Error::SignatureMismatch));
    let mut with_binary = file.clone();
    let binary = Chunk::new(ChunkType::from_str("biNa").unwrap(), vec![0xc0, 0x80]).unwrap();
    with_binary.extend(binary.as_bytes());
    assert_eq!(decode(&with_binary, "biNa"), Err(Error::EncodingError));
    let mut damaged = file.clone();
    damaged[8 + 9] ^= 4;
    assert_eq!(decode(&damaged, "IHDR"), Err(Error::CrcMismatch));
}

#[test]
fn decode_reads_first_chunk_of_the_type() {
    let file = file_bytes();
    let once = encode(&file, "teSt", "first").unwrap();
    let twice = encode(&once, "teSt", "second").unwrap();
    assert_eq!(decode(&twice, "teSt").unwrap(), "first");
}

#[test]
fn remove_undoes_encode() {
    let file = file_bytes();
    let out = encode(&file, "teSt", "hello").unwrap();
    assert_eq!(remove(&out, "teSt").unwrap(), file);
    assert_eq!(remove(&file, "teSt"), Err(Error::NotFound));
    assert_eq!(remove(&file, "t"), Err(Error::InvalidChunkType));
    assert_eq!(remove(&file, "te.t"), Err(Error::InvalidChunkType));
    assert_eq!(remove(&file[..3], "teSt"), Err(Error::SignatureMismatch));
}

#[test]
fn remove_takes_the_first_of_two() {
    let file = file_bytes();
    let once = encode(&file, "teSt", "first").unwrap();
    let twice = encode(&once, "teSt", "second").unwrap();
    let left = remove(&twice, "teSt").unwrap();
    assert_eq!(decode(&left, "teSt").unwrap(), "second");
    assert_eq!(left, encode(&file, "teSt", "second").unwrap());
}

#[test]
fn print_chunks_lists_the_chunks_in_order() {
    let file = file_bytes();
    let chunks = print_chunks(&file).unwrap();
    assert_eq!(chunks.len(), 2);
    assert_eq!(chunks[0].chunk_type().to_string(), "IHDR");
    assert_eq!(chunks[0].data(), &[0, 0, 0, 1]);
    assert_eq!(chunks[1].chunk_type().to_string(), "IEND");
    assert_eq!(print_chunks(&file[2..]).err(), Some(Error::SignatureMismatch));
}

#[test]
fn encode_reports_the_file_before_the_chunk_type() {
    let file = file_bytes();
    assert_eq!(encode(&[], "te", "hello"), Err(Error::SignatureMismatch));
    assert_eq!(encode(&file[1..], "", "hello"), Err(Error::SignatureMismatch));
    assert_eq!(encode(&file[..file.len() - 1], "t", "hello"), Err(Error::Truncated));
    let mut damaged = file.clone();
    damaged[8 + 9] ^= 4;
    assert_eq!(encode(&damaged, "te", "hello"), Err(Error::CrcMismatch));
}

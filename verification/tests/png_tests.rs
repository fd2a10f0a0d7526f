use pngme::chunk::Chunk;
use pngme::chunk_type::ChunkType;
use pngme::error::Error;
use pngme::png::{Png, STANDARD_HEADER};
use std::convert::TryFrom;

fn chunk_from_strings(chunk_type: &str, data: &str) -> Chunk {
    let chunk_type = ChunkType::from_str(chunk_type).unwrap();
    Chunk::new(chunk_type, data.bytes().collect()).unwrap()
}

fn testing_chunks() -> Vec<Chunk> {
    vec![
        chunk_from_strings("FrSt", "I am the first chunk"),
        chunk_from_strings("miDl", "I am another chunk"),
        chunk_from_strings("LASt", "I am the last chunk"),
    ]
}

fn testing_png() -> Png {
    Png::from_chunks(testing_chunks())
}

fn testing_bytes() -> Vec<u8> {
    let mut bytes: Vec<u8> = vec![137, 80, 78, 71, 13, 10, 26, 10];
    for c in testing_chunks() {
        bytes.extend(c.as_bytes());
    }
    bytes
}

fn types_of(png: &Png) -> Vec<String> {
    png.chunks().iter().map(|c| c.chunk_type().to_string()).collect()
}

#[test]
fn png_signature_constant() {
    assert_eq!(STANDARD_HEADER, [0x89, 0x50, 0x4e, 0x47, 0x0d, 0x0a, 0x1a, 0x0a]);
    assert_eq!(testing_png().header(), &[137u8, 80, 78, 71, 13, 10, 26, 10]);
}

#[test]
fn png_from_chunks_keeps_order() {
    let png = testing_png();
    assert_eq!(png.chunks().len(), 3);
    assert_eq!(types_of(&png), vec!["FrSt", "miDl", "LASt"]);
}

#[test]
fn png_parse_valid_bytes() {
    let png = Png::try_from(testing_bytes().as_slice()).unwrap();
    assert_eq!(types_of(&png), vec!["FrSt", "miDl", "LASt"]);
    assert_eq!(png.chunks()[1].data_as_string().unwrap(), "I am another chunk");
}

#[test]
fn png_parse_signature_only_is_empty_document() {
    let png = Png::try_from(&[137u8, 80, 78, 71, 13, 10, 26, 10][..]).unwrap();
    assert_eq!(png.chunks().len(), 0);
    assert_eq!(png.as_bytes(), vec![137, 80, 78, 71, 13, 10, 26, 10]);
}

#[test]
fn png_parse_rejects_wrong_signature() {
    let good = testing_bytes();
    for at in 0..8 {
        let mut bad = good.clone();
        bad[at] ^= 1;
        assert_eq!(Png::try_from(bad.as_slice()).err(), Some(Error::SignatureMismatch));
    }
    let mut bad = good.clone();
    bad[0] = 13;
    bad[20] ^= 0xff;
    assert_eq!(Png::try_from(bad.as_slice()).err(), Some(Error::SignatureMismatch));
}

#[test]
fn png_parse_rejects_short_input() {
    let good = testing_bytes();
    for n in 0..8 {
        assert_eq!(Png::try_from(&good[..n]).err(), Some(Error::SignatureMismatch));
    }
}

#[test]
fn png_parse_propagates_chunk_failures() {
    let good = testing_bytes();
    assert_eq!(Png::try_from(&good[..good.len() - 1]).err(), Some(Error::Truncated));
    assert_eq!(Png::try_from(&good[..9]).err(), Some(Error::Truncated));

    let mut bad = good.clone();
    let last = bad.len() - 1;
    bad[last] ^= 1;
    assert_eq!(Png::try_from(bad.as_slice()).err(), Some(Error::CrcMismatch));

    let mut bad = good.clone();
    bad[8 + 4] = b'1';
    assert_eq!(Png::try_from(bad.as_slice()).err(), Some(Error::InvalidChunkType));

    let mut bad = good.clone();
    bad[8 + 8] ^= 0x10;
    assert_eq!(Png::try_from(bad.as_slice()).err(), Some(Error::CrcMismatch));
}

#[test]
fn png_document_round_trip() {
    let bytes = testing_bytes();
    let png = Png::try_from(bytes.as_slice()).unwrap();
    assert_eq!(png.as_bytes(), bytes);
    assert_eq!(testing_png().as_bytes(), bytes);
}

#[test]
fn png_trait_try_from() {
    let bytes = testing_bytes();
    let png: Png = TryFrom::try_from(bytes.as_slice()).unwrap();
    assert_eq!(png.as_bytes(), bytes);
}

#[test]
fn png_chunk_by_type_finds_first_match() {
    let mut png = testing_png();
    png.append_chunk(chunk_from_strings("miDl", "a second one"));
    let chunk = png.chunk_by_type("miDl").unwrap();
    assert_eq!(chunk.chunk_type().to_string(), "miDl");
    assert_eq!(chunk.data_as_string().unwrap(), "I am another chunk");
    assert!(png.chunk_by_type("abCd").is_none());
}

#[test]
fn png_chunk_by_type_with_text_that_names_no_type() {
    let png = testing_png();
    assert!(png.chunk_by_type("mi1l").is_none());
    assert!(png.chunk_by_type("mi").is_none());
    assert!(png.chunk_by_type("").is_none());
}

#[test]
fn png_append_then_find() {
    let mut png = testing_png();
    png.append_chunk(chunk_from_strings("teSt", "hello"));
    assert_eq!(png.chunks().len(), 4);
    assert_eq!(types_of(&png), vec!["FrSt", "miDl", "LASt", "teSt"]);
    let chunk = png.chunk_by_type("teSt").unwrap();
    assert_eq!(chunk.data_as_string().unwrap(), "hello");

    let mut empty = Png::from_chunks(Vec::new());
    empty.append_chunk(chunk_from_strings("teSt", "hello"));
    assert_eq!(empty.chunk_by_type("teSt").unwrap().data_as_string().unwrap(), "hello");
}

#[test]
fn png_remove_then_find() {
    let mut png = testing_png();
    png.append_chunk(chunk_from_strings("teSt", "hello"));
    let removed = png.remove_chunk("teSt").unwrap();
    assert_eq!(removed.data_as_string().unwrap(), "hello");
    assert!(png.chunk_by_type("teSt").is_none());
    assert_eq!(png.remove_chunk("teSt").err(), Some(Error::NotFound));
    assert_eq!(types_of(&png), vec!["FrSt", "miDl", "LASt"]);
    assert_eq!(png.as_bytes(), testing_bytes());
}

#[test]
fn png_remove_takes_only_the_first_match() {
    let mut png = testing_png();
    png.append_chunk(chunk_from_strings("FrSt", "again"));
    let removed = png.remove_chunk("FrSt").unwrap();
    assert_eq!(removed.data_as_string().unwrap(), "I am the first chunk");
    assert_eq!(types_of(&png), vec!["miDl", "LASt", "FrSt"]);
    let removed = png.remove_chunk("FrSt").unwrap();
    assert_eq!(removed.data_as_string().unwrap(), "again");
    assert_eq!(types_of(&png), vec!["miDl", "LASt"]);
    assert_eq!(png.remove_chunk("FrSt").err(), Some(Error::NotFound));
}

#[test]
fn png_remove_failures_leave_document_unchanged() {
    let mut png = testing_png();
    assert_eq!(png.remove_chunk("abCd").err(), Some(Error::NotFound));
    assert_eq!(png.remove_chunk("ab1d").err(), Some(Error::InvalidChunkType));
    assert_eq!(png.remove_chunk("ab").err(), Some(Error::InvalidChunkType));
    assert_eq!(png.as_bytes(), testing_bytes());
}

#[test]
fn png_as_bytes_reflects_mutations() {
    let mut png = Png::try_from(testing_bytes().as_slice()).unwrap();
    let extra = chunk_from_strings("teSt", "hello");
    let mut expected = testing_bytes();
    expected.extend(extra.as_bytes());
    png.append_chunk(extra);
    assert_eq!(png.as_bytes(), expected);
    let back = Png::try_from(expected.as_slice()).unwrap();
    assert_eq!(back.chunks().len(), 4);
}

#[test]
fn png_into_chunks_gives_chunks_in_order() {
    let chunks = testing_png().into_chunks();
    assert_eq!(chunks.len(), 3);
    assert_eq!(chunks[0].data_as_string().unwrap(), "I am the first chunk");
    assert_eq!(chunks[2].chunk_type().to_string(), "LASt");
}

use vstd::prelude::*;
use vstd::slice::*;
use vstd::string::*;
use vstd::utf8::*;
use crate::chunk::{new_chunk, Chunk};
use crate::chunk_type::{parse_chunk_type, ChunkType};
use crate::error::Error;
use crate::png::{chunk_models, find_type, named_type, parse_png, serialize_png, Png};

verus! {

/// The views of a result that holds bytes.
pub open spec fn bytes_result_view(r: Result<Vec<u8>, Error>) -> Result<Seq<u8>, Error> {
    match r {
        Ok(v) => Ok(v@),
        Err(e) => Err(e),
    }
}

/// The views of a result that holds text.
pub open spec fn text_result_view(r: Result<String, Error>) -> Result<Seq<char>, Error> {
    match r {
        Ok(s) => Ok(s@),
        Err(e) => Err(e),
    }
}

/// The views of a result that holds chunks.
pub open spec fn chunks_result_view(r: Result<Vec<Chunk>, Error>) -> Result<
    Seq<crate::chunk::ChunkModel>,
    Error,
> {
    match r {
        Ok(v) => Ok(chunk_models(v@)),
        Err(e) => Err(e),
    }
}

/// The file `bytes` with one more chunk at its end, which holds `message` under
/// the type that the first four bytes of `chunk_type` spell.
pub open spec fn encoded(bytes: Seq<u8>, chunk_type: Seq<u8>, message: Seq<u8>) -> Result<
    Seq<u8>,
    Error,
> {
    match parse_png(bytes) {
        Err(e) => Err(e),
        Ok(cs) => match parse_chunk_type(chunk_type.take(4)) {
            Err(e) => Err(e),
            Ok(ty) => match new_chunk(ty, message) {
                Err(e) => Err(e),
                Ok(c) => Ok(serialize_png(cs.push(c))),
            },
        },
    }
}

/// The text held by the first chunk of the named type in the file `bytes`.
pub open spec fn decoded(bytes: Seq<u8>, chunk_type: Seq<u8>) -> Result<Seq<char>, Error> {
    match parse_png(bytes) {
        Err(e) => Err(e),
        Ok(cs) => match named_type(chunk_type) {
            None => Err(Error::NotFound),
            Some(ty) => match find_type(cs, ty) {
                None => Err(Error::NotFound),
                Some(i) => if valid_utf8(cs[i].data) {
                    Ok(decode_utf8(cs[i].data))
                } else {
                    Err(Error::EncodingError)
                },
            },
        },
    }
}

/// The file `bytes` without its first chunk of the named type.
pub open spec fn removed(bytes: Seq<u8>, chunk_type: Seq<u8>) -> Result<Seq<u8>, Error> {
    match parse_png(bytes) {
        Err(e) => Err(e),
        Ok(cs) => match named_type(chunk_type) {
            None => Err(Error::InvalidChunkType),
            Some(ty) => match find_type(cs, ty) {
                None => Err(Error::NotFound),
                Some(i) => Ok(serialize_png(cs.remove(i))),
            },
        },
    }
}

/// Hides a message in a PNG file: returns the file with a new chunk of the
/// given type at its end, which holds the message. Fails as reading the file,
/// the type or the new chunk fails, in that order.
pub fn encode(bytes: &[u8], chunk_type: &str, message: &str) -> (r: Result<Vec<u8>, Error>)
    requires
        parse_png(bytes@) is Ok ==> chunk_type.spec_bytes().len() >= 4,
    ensures
        bytes_result_view(r) == encoded(bytes@, chunk_type.spec_bytes(), message.spec_bytes()),
{
    let mut png = match Png::try_from(bytes) {
        Ok(p) => p,
        Err(e) => {
            return Err(e);
        },
    };
    let ty = match ChunkType::from_str(chunk_type) {
        Ok(t) => t,
        Err(e) => {
            return Err(e);
        },
    };
    let chunk = match Chunk::new(ty, slice_to_vec(message.as_bytes())) {
        Ok(c) => c,
        Err(e) => {
            return Err(e);
        },
    };
    png.append_chunk(chunk);
    Ok(png.as_bytes())
}

/// Reads the message hidden in a PNG file under the given chunk type. Fails as
/// reading the file fails, with `NotFound` where no chunk has the type, and with
/// `EncodingError` where the chunk's data is not valid UTF-8.
pub fn decode(bytes: &[u8], chunk_type: &str) -> (r: Result<String, Error>)
    ensures
        text_result_view(r) == decoded(bytes@, chunk_type.spec_bytes()),
{
    let png = match Png::try_from(bytes) {
        Ok(p) => p,
        Err(e) => {
            return Err(e);
        },
    };
    let chunk = match png.chunk_by_type(chunk_type) {
        Some(chunk) => chunk,
        None => {
            return Err(Error::NotFound);
        },
    };
    chunk.data_as_string()
}

/// Takes the first chunk of the given type out of a PNG file and returns the
/// file without it. Fails as reading the file fails, with `InvalidChunkType`
/// where the text names no chunk type, and with `NotFound` where no chunk has
/// the type.
pub fn remove(bytes: &[u8], chunk_type: &str) -> (r: Result<Vec<u8>, Error>)
    ensures
        bytes_result_view(r) == removed(bytes@, chunk_type.spec_bytes()),
{
    let mut png = match Png::try_from(bytes) {
        Ok(p) => p,
        Err(e) => {
            return Err(e);
        },
    };
    match png.remove_chunk(chunk_type) {
        Ok(_) => Ok(png.as_bytes()),
        Err(e) => Err(e),
    }
}

/// The chunks of a PNG file, in order, for printing.
pub fn print_chunks(bytes: &[u8]) -> (r: Result<Vec<Chunk>, Error>)
    ensures
        chunks_result_view(r) == parse_png(bytes@),
{
    match Png::try_from(bytes) {
        Ok(p) => Ok(p.into_chunks()),
        Err(e) => Err(e),
    }
}

} // verus!

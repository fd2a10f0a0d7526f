use vstd::prelude::*;
use vstd::slice::*;
use vstd::string::*;
use vstd::utf8::*;
use crate::checksum::{checksum, crc32_ieee};
use crate::chunk_type::{all_alphabetic, ChunkType};
use crate::endian::{
    be32, from_be32, lemma_be32_decode_encode, lemma_be32_encode_decode, u32_from_be, u32_to_be,
};
use crate::error::Error;
use crate::text::{decimal, decimal_text, string_from_utf8};

verus! {

/// What a chunk is: its four fields as plain values.
pub struct ChunkModel {
    pub length: u32,
    pub chunk_type: Seq<u8>,
    pub data: Seq<u8>,
    pub crc: u32,
}

/// A chunk as it should be: a type of four letters, a length that counts the
/// data, and the checksum of type and data.
pub open spec fn well_formed(m: ChunkModel) -> bool {
    &&& m.chunk_type.len() == 4
    &&& all_alphabetic(m.chunk_type)
    &&& m.data.len() == m.length
    &&& m.crc == crc32_ieee(m.chunk_type + m.data)
}

/// The chunk that holds `data` under `chunk_type`.
pub open spec fn built_chunk(chunk_type: Seq<u8>, data: Seq<u8>) -> ChunkModel {
    ChunkModel {
        length: data.len() as u32,
        chunk_type,
        data,
        crc: crc32_ieee(chunk_type + data),
    }
}

/// The bytes of a record: length, type, data, checksum.
pub open spec fn frame(length: u32, chunk_type: Seq<u8>, data: Seq<u8>, crc: u32) -> Seq<u8> {
    be32(length) + chunk_type + data + be32(crc)
}

/// The bytes of a chunk on the wire.
pub open spec fn serialize_chunk(m: ChunkModel) -> Seq<u8> {
    frame(m.length, m.chunk_type, m.data, m.crc)
}

/// What reading one chunk from the front of `b` gives. Bytes behind the chunk
/// are not looked at.
#[verifier::opaque]
pub open spec fn parse_chunk(b: Seq<u8>) -> Result<ChunkModel, Error> {
    if b.len() < 8 {
        Err(Error::Truncated)
    } else if !all_alphabetic(b.subrange(4, 8)) {
        Err(Error::InvalidChunkType)
    } else if b.len() < 12 + from_be32(b) {
        Err(Error::Truncated)
    } else {
        let length = from_be32(b);
        let chunk_type = b.subrange(4, 8);
        let data = b.subrange(8, 8 + length);
        let crc = from_be32(b.subrange(8 + length, 12 + length));
        if crc != crc32_ieee(chunk_type + data) {
            Err(Error::CrcMismatch)
        } else {
            Ok(ChunkModel { length, chunk_type, data, crc })
        }
    }
}

/// What building a chunk from a type and data gives: the record framed with the
/// length, cut to 32 bits, and the checksum, and then read back.
pub open spec fn new_chunk(chunk_type: Seq<u8>, data: Seq<u8>) -> Result<ChunkModel, Error> {
    parse_chunk(frame(data.len() as u32, chunk_type, data, crc32_ieee(chunk_type + data)))
}

/// A chunk read from its own bytes is the chunk itself.
pub proof fn lemma_parse_serialized_chunk(m: ChunkModel)
    requires
        well_formed(m),
    ensures
        parse_chunk(serialize_chunk(m)) == Ok::<ChunkModel, Error>(m),
        serialize_chunk(m).len() == 12 + m.length,
{
    lemma_parse_framed_prefix(m, Seq::empty());
    assert(serialize_chunk(m) + Seq::<u8>::empty() =~= serialize_chunk(m));
}

/// A chunk read from its own bytes, with anything behind them, is the chunk
/// itself.
pub proof fn lemma_parse_framed_prefix(m: ChunkModel, rest: Seq<u8>)
    requires
        well_formed(m),
    ensures
        parse_chunk(serialize_chunk(m) + rest) == Ok::<ChunkModel, Error>(m),
        serialize_chunk(m).len() == 12 + m.length,
{
    reveal(parse_chunk);
    let b = serialize_chunk(m) + rest;
    let n = m.length as int;
    lemma_be32_decode_encode(m.length);
    lemma_be32_decode_encode(m.crc);
    assert(b.len() == 12 + n + rest.len());
    assert(b[0] == be32(m.length)[0] && b[1] == be32(m.length)[1] && b[2] == be32(m.length)[2]
        && b[3] == be32(m.length)[3]);
    assert(from_be32(b) == m.length);
    assert(b.subrange(4, 8) =~= m.chunk_type);
    assert(b.subrange(8, 8 + n) =~= m.data);
    assert(b.subrange(8 + n, 12 + n) =~= be32(m.crc));
}

/// The bytes from which a chunk was read start with the chunk's own bytes, and
/// the chunk is as it should be.
pub proof fn lemma_serialize_parsed_chunk(b: Seq<u8>)
    requires
        parse_chunk(b) is Ok,
    ensures
        well_formed(parse_chunk(b).unwrap()),
        12 + parse_chunk(b).unwrap().length <= b.len(),
        serialize_chunk(parse_chunk(b).unwrap()) == b.take(12 + parse_chunk(b).unwrap().length),
{
    reveal(parse_chunk);
    let m = parse_chunk(b).unwrap();
    let n = m.length as int;
    lemma_be32_encode_decode(b.subrange(0, 4));
    lemma_be32_encode_decode(b.subrange(8 + n, 12 + n));
    assert(from_be32(b.subrange(0, 4)) == from_be32(b));
    assert(serialize_chunk(m) =~= b.take(12 + n));
}

/// A chunk built from a type of four letters and data whose length fits in 32
/// bits is as it should be, so it is read back from its own bytes.
pub proof fn lemma_built_chunk_round_trip(chunk_type: Seq<u8>, data: Seq<u8>)
    requires
        chunk_type.len() == 4,
        all_alphabetic(chunk_type),
        data.len() <= u32::MAX,
    ensures
        well_formed(built_chunk(chunk_type, data)),
        parse_chunk(serialize_chunk(built_chunk(chunk_type, data))) == Ok::<ChunkModel, Error>(
            built_chunk(chunk_type, data),
        ),
        new_chunk(chunk_type, data) == Ok::<ChunkModel, Error>(built_chunk(chunk_type, data)),
{
    lemma_parse_serialized_chunk(built_chunk(chunk_type, data));
}

/// A record whose stored checksum is not that of its type and data is
/// refused with `CrcMismatch`, whenever its type is made of letters.
pub proof fn lemma_wrong_checksum_rejected(chunk_type: Seq<u8>, data: Seq<u8>, crc: u32)
    requires
        chunk_type.len() == 4,
        all_alphabetic(chunk_type),
        data.len() <= u32::MAX,
        crc != crc32_ieee(chunk_type + data),
    ensures
        parse_chunk(frame(data.len() as u32, chunk_type, data, crc)) == Err::<ChunkModel, Error>(
            Error::CrcMismatch,
        ),
{
    reveal(parse_chunk);
    let length = data.len() as u32;
    let n = length as int;
    let b = frame(length, chunk_type, data, crc);
    lemma_be32_decode_encode(length);
    lemma_be32_decode_encode(crc);
    assert(b[0] == be32(length)[0] && b[1] == be32(length)[1] && b[2] == be32(length)[2] && b[3]
        == be32(length)[3]);
    assert(b.subrange(4, 8) =~= chunk_type);
    assert(b.subrange(8, 8 + n) =~= data);
    assert(b.subrange(8 + n, 12 + n) =~= be32(crc));
}

/// The record of a chunk, with its type and data changed to others of the same
/// lengths and its stored checksum kept, is refused whenever the checksum of the
/// changed bytes is another: with `InvalidChunkType` where the type is no longer
/// made of letters, else with `CrcMismatch`.
pub proof fn lemma_changed_record_rejected(m: ChunkModel, chunk_type: Seq<u8>, data: Seq<u8>)
    requires
        well_formed(m),
        chunk_type.len() == 4,
        data.len() == m.data.len(),
        crc32_ieee(chunk_type + data) != m.crc,
    ensures
        parse_chunk(frame(m.length, chunk_type, data, m.crc)) == Err::<ChunkModel, Error>(
            if all_alphabetic(chunk_type) {
                Error::CrcMismatch
            } else {
                Error::InvalidChunkType
            },
        ),
{
    if all_alphabetic(chunk_type) {
        lemma_wrong_checksum_rejected(chunk_type, data, m.crc);
    } else {
        reveal(parse_chunk);
        let b = frame(m.length, chunk_type, data, m.crc);
        lemma_be32_decode_encode(m.length);
        assert(b.subrange(4, 8) =~= chunk_type);
    }
}

/// A chunk laid out for people to read, on six lines: an opening line, the
/// length, the type, the number of data bytes, the checksum, a closing line.
/// Numbers are in decimal.
pub open spec fn rendering(length: u32, type_text: Seq<char>, data_len: usize, crc: u32) -> Seq<
    char,
> {
    "Chunk {\n  Length: "@ + decimal_text(length as u64) + "\n  Type: "@ + type_text
        + "\n  Data: "@ + decimal_text(data_len as u64) + " bytes\n  Crc: "@ + decimal_text(
        crc as u64,
    ) + "\n}\n"@
}

/// One record of a PNG file: a length, a type, data, and a checksum over type
/// and data.
#[derive(Debug)]
pub struct Chunk {
    length: u32,
    chunk_type: ChunkType,
    chunk_data: Vec<u8>,
    crc: u32,
}

impl View for Chunk {
    type V = ChunkModel;

    closed spec fn view(&self) -> ChunkModel {
        ChunkModel {
            length: self.length,
            chunk_type: self.chunk_type@,
            data: self.chunk_data@,
            crc: self.crc,
        }
    }
}

impl Clone for Chunk {
    fn clone(&self) -> (r: Chunk)
        ensures
            r@ == self@,
    {
        proof {
            use_type_invariant(self);
        }
        Chunk {
            length: self.length,
            chunk_type: self.chunk_type,
            chunk_data: slice_to_vec(self.chunk_data.as_slice()),
            crc: self.crc,
        }
    }
}

impl core::convert::TryFrom<&[u8]> for Chunk {
    type Error = Error;

    /// Reads one chunk from the front of `bytes`, as `Chunk::try_from` does.
    fn try_from(bytes: &[u8]) -> (r: Result<Chunk, Error>)
        ensures
            chunk_result_view(r) == parse_chunk(bytes@),
    {
        Chunk::try_from(bytes)
    }
}

impl vstd::std_specs::convert::TryFromSpecImpl<&[u8]> for Chunk {
    open spec fn obeys_try_from_spec() -> bool {
        false
    }

    /// Left open: a chunk cannot be written down as a spec value, so what is
    /// returned is stated over views, on `try_from` itself.
    open spec fn try_from_spec(bytes: &[u8]) -> Result<Chunk, Error> {
        arbitrary()
    }
}

/// The views of a result of building or reading a chunk.
pub open spec fn chunk_result_view(r: Result<Chunk, Error>) -> Result<ChunkModel, Error> {
    match r {
        Ok(c) => Ok(c@),
        Err(e) => Err(e),
    }
}

impl Chunk {
    #[verifier::type_invariant]
    closed spec fn inv(&self) -> bool {
        well_formed(self@)
    }

    /// Builds the chunk that holds `data` under `chunk_type`, by framing the two
    /// with the length and the checksum and reading the record back. Succeeds
    /// whenever the length of `data` fits in 32 bits.
    pub fn new(chunk_type: ChunkType, data: Vec<u8>) -> (r: Result<Chunk, Error>)
        ensures
            chunk_result_view(r) == new_chunk(chunk_type@, data@),
            data@.len() <= u32::MAX ==> chunk_result_view(r) == Ok::<ChunkModel, Error>(
                built_chunk(chunk_type@, data@),
            ),
    {
        let length: u32 = #[verifier::truncate] (data.len() as u32);
        let length_bytes = u32_to_be(length);
        let chunk_type_bytes = chunk_type.bytes();

        let mut bytes: Vec<u8> = Vec::new();
        bytes.extend_from_slice(length_bytes.as_slice());
        bytes.extend_from_slice(chunk_type_bytes.as_slice());
        bytes.extend_from_slice(data.as_slice());
        let crc = checksum(slice_subrange(bytes.as_slice(), 4, bytes.len()));
        assert(bytes@.subrange(4, bytes@.len() as int) =~= chunk_type@ + data@);
        let crc_bytes = u32_to_be(crc);
        bytes.extend_from_slice(crc_bytes.as_slice());
        proof {
            assert(bytes@ =~= frame(length, chunk_type@, data@, crc));
            if data@.len() <= u32::MAX {
                lemma_built_chunk_round_trip(chunk_type@, data@);
            }
        }
        Chunk::try_from(bytes.as_slice())
    }

    /// The number of data bytes.
    pub fn length(&self) -> (r: u32)
        ensures
            r == self@.length,
            r == self@.data.len(),
    {
        proof {
            use_type_invariant(self);
        }
        self.length
    }

    /// The chunk's type.
    pub fn chunk_type(&self) -> (r: &ChunkType)
        ensures
            r@ == self@.chunk_type,
    {
        &self.chunk_type
    }

    /// The chunk's data.
    pub fn data(&self) -> (r: &[u8])
        ensures
            r@ == self@.data,
    {
        self.chunk_data.as_slice()
    }

    /// The checksum of the chunk's type and data.
    pub fn crc(&self) -> (r: u32)
        ensures
            r == self@.crc,
            r == crc32_ieee(self@.chunk_type + self@.data),
    {
        proof {
            use_type_invariant(self);
        }
        self.crc
    }

    /// The data as text. Fails with `EncodingError` exactly when the data is not
    /// valid UTF-8.
    pub fn data_as_string(&self) -> (r: Result<String, Error>)
        ensures
            match r {
                Ok(s) => valid_utf8(self@.data) && s@ == decode_utf8(self@.data),
                Err(e) => e == Error::EncodingError && !valid_utf8(self@.data),
            },
    {
        match string_from_utf8(slice_to_vec(self.data())) {
            Some(s) => Ok(s),
            None => Err(Error::EncodingError),
        }
    }

    /// The chunk on the wire: four bytes of length, the four bytes of the type,
    /// the data, four bytes of checksum, numbers with the most significant byte
    /// first.
    pub fn as_bytes(&self) -> (r: Vec<u8>)
        ensures
            r@ == serialize_chunk(self@),
            well_formed(self@),
    {
        proof {
            use_type_invariant(self);
        }
        let length_bytes = u32_to_be(self.length);
        let chunk_type_bytes = self.chunk_type.bytes();
        let crc_bytes = u32_to_be(self.crc);

        let mut bytes: Vec<u8> = Vec::new();
        bytes.extend_from_slice(length_bytes.as_slice());
        bytes.extend_from_slice(chunk_type_bytes.as_slice());
        bytes.extend_from_slice(self.data());
        bytes.extend_from_slice(crc_bytes.as_slice());
        assert(bytes@ =~= serialize_chunk(self@));
        bytes
    }

    /// Reads one chunk from the front of `bytes`: length, type, data, checksum.
    /// Fails with `Truncated` where the input ends too early, with
    /// `InvalidChunkType` where the type holds a byte that is no letter, and with
    /// `CrcMismatch` where the stored checksum is not that of type and data.
    pub fn try_from(bytes: &[u8]) -> (r: Result<Chunk, Error>)
        ensures
            chunk_result_view(r) == parse_chunk(bytes@),
    {
        proof {
            reveal(parse_chunk);
        }
        let n = bytes.len();
        if n < 8 {
            return Err(Error::Truncated);
        }
        let data_length = u32_from_be(bytes[0], bytes[1], bytes[2], bytes[3]);
        let chunk_type_buffer: [u8; 4] = [bytes[4], bytes[5], bytes[6], bytes[7]];
        assert(chunk_type_buffer@ =~= bytes@.subrange(4, 8));
        let chunk_type = match ChunkType::try_from(chunk_type_buffer) {
            Ok(t) => t,
            Err(e) => {
                return Err(e);
            },
        };
        let rest = n - 8;
        if rest < 4 || rest - 4 < data_length as usize {
            return Err(Error::Truncated);
        }
        let data_end = 8 + data_length as usize;
        let data_buffer = slice_to_vec(slice_subrange(bytes, 8, data_end));
        let crc = u32_from_be(
            bytes[data_end],
            bytes[data_end + 1],
            bytes[data_end + 2],
            bytes[data_end + 3],
        );
        let calculated_crc = checksum(slice_subrange(bytes, 4, data_end));
        proof {
            let stored = bytes@.subrange(8 + data_length, 12 + data_length);
            assert(stored[0] == bytes@[data_end as int] && stored[1] == bytes@[data_end + 1]
                && stored[2] == bytes@[data_end + 2] && stored[3] == bytes@[data_end + 3]);
            assert(bytes@.subrange(4, data_end as int) =~= bytes@.subrange(4, 8) + bytes@.subrange(
                8,
                data_end as int,
            ));
        }
        if crc == calculated_crc {
            Ok(Chunk { length: data_length, chunk_type, chunk_data: data_buffer, crc })
        } else {
            Err(Error::CrcMismatch)
        }
    }

    /// The chunk laid out for people to read: length, type, number of data bytes
    /// and checksum, one to a line.
    pub fn to_string(&self) -> (r: String)
        ensures
            r@ == rendering(
                self@.length,
                ChunkType::text_of(self@.chunk_type),
                self@.data.len() as usize,
                self@.crc,
            ),
    {
        let type_text = self.chunk_type.to_string();
        let length_text = decimal(self.length as u64);
        let data_len_text = decimal(self.chunk_data.len() as u64);
        let crc_text = decimal(self.crc as u64);

        let mut text = String::from_str("Chunk {\n  Length: ");
        text.append(length_text.as_str());
        text.append("\n  Type: ");
        text.append(type_text.as_str());
        text.append("\n  Data: ");
        text.append(data_len_text.as_str());
        text.append(" bytes\n  Crc: ");
        text.append(crc_text.as_str());
        text.append("\n}\n");
        text
    }
}

} // verus!

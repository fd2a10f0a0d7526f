use vstd::prelude::*;
use vstd::string::*;
use vstd::utf8::*;
use crate::error::Error;
use crate::text::string_from_utf8_lossy;

verus! {

/// Whether `b` is an ASCII letter.
pub open spec fn is_alphabetic(b: u8) -> bool {
    (0x41 <= b && b <= 0x5a) || (0x61 <= b && b <= 0x7a)
}

/// Whether every byte of `s` is an ASCII letter.
pub open spec fn all_alphabetic(s: Seq<u8>) -> bool {
    forall|i: int| 0 <= i < s.len() ==> is_alphabetic(#[trigger] s[i])
}

/// Whether the property bit of `b` (the bit of value 32) is zero.
pub open spec fn property_bit_clear(b: u8) -> bool {
    b & 0x20 == 0
}

/// What building a chunk type from the bytes `s` gives: the bytes themselves
/// when there are four and all are letters.
pub open spec fn parse_chunk_type(s: Seq<u8>) -> Result<Seq<u8>, Error> {
    if s.len() == 4 && all_alphabetic(s) {
        Ok(s)
    } else {
        Err(Error::InvalidChunkType)
    }
}

/// What building a chunk type from a text with the bytes `s` gives: the first
/// four bytes, when there are four and all are letters.
pub open spec fn parse_chunk_type_text(s: Seq<u8>) -> Result<Seq<u8>, Error> {
    if s.len() < 4 {
        Err(Error::InvalidChunkType)
    } else {
        parse_chunk_type(s.take(4))
    }
}

/// A four-byte chunk type code. Every byte is an ASCII letter.
#[derive(Debug, Clone, Copy, Eq)]
pub struct ChunkType {
    bytes: [u8; 4],
}

impl View for ChunkType {
    type V = Seq<u8>;

    closed spec fn view(&self) -> Seq<u8> {
        self.bytes@
    }
}

/// The views of a result of building a chunk type.
pub open spec fn chunk_type_result_view(r: Result<ChunkType, Error>) -> Result<Seq<u8>, Error> {
    match r {
        Ok(t) => Ok(t@),
        Err(e) => Err(e),
    }
}

impl PartialEq for ChunkType {
    /// Two codes are equal when their bytes are.
    fn eq(&self, other: &ChunkType) -> (r: bool) {
        let r = self.bytes[0] == other.bytes[0] && self.bytes[1] == other.bytes[1] && self.bytes[2]
            == other.bytes[2] && self.bytes[3] == other.bytes[3];
        proof {
            if r {
                assert(self.bytes@ =~= other.bytes@);
            }
        }
        r
    }
}

impl vstd::std_specs::cmp::PartialEqSpecImpl for ChunkType {
    open spec fn obeys_eq_spec() -> bool {
        true
    }

    open spec fn eq_spec(&self, other: &ChunkType) -> bool {
        self@ == other@
    }
}

impl core::convert::TryFrom<[u8; 4]> for ChunkType {
    type Error = Error;

    /// Builds a chunk type from four bytes. Fails with `InvalidChunkType` exactly
    /// when one of them is not an ASCII letter.
    fn try_from(bytes: [u8; 4]) -> (r: Result<ChunkType, Error>)
        ensures
            chunk_type_result_view(r) == parse_chunk_type(bytes@),
    {
        let r = ChunkType::try_from(bytes);
        proof {
            if let Ok(t) = r {
                assert(t.bytes =~= bytes);
            }
        }
        r
    }
}

impl vstd::std_specs::convert::TryFromSpecImpl<[u8; 4]> for ChunkType {
    closed spec fn obeys_try_from_spec() -> bool {
        true
    }

    closed spec fn try_from_spec(bytes: [u8; 4]) -> Result<ChunkType, Error> {
        if all_alphabetic(bytes@) {
            Ok(ChunkType { bytes })
        } else {
            Err(Error::InvalidChunkType)
        }
    }
}

impl core::str::FromStr for ChunkType {
    type Err = Error;

    /// Builds a chunk type from the first four bytes of a text. Fails with
    /// `InvalidChunkType` exactly when the text has fewer than four bytes or one
    /// of the first four is not an ASCII letter.
    fn from_str(s: &str) -> (r: Result<ChunkType, Error>)
        ensures
            chunk_type_result_view(r) == parse_chunk_type_text(s.spec_bytes()),
    {
        if s.as_bytes().len() < 4 {
            Err(Error::InvalidChunkType)
        } else {
            ChunkType::from_str(s)
        }
    }
}

fn property_bit(byte: u8) -> (r: u8)
    ensures
        (r == 0) == property_bit_clear(byte),
        (r == 1) == !property_bit_clear(byte),
{
    let fifth_bit: u8 = (byte >> 5) & 1;
    assert((fifth_bit == 0) == (byte & 0x20 == 0) && (fifth_bit == 1) == !(byte & 0x20 == 0))
        by (bit_vector)
        requires
            fifth_bit == (byte >> 5) & 1,
    ;
    fifth_bit
}

impl ChunkType {
    #[verifier::type_invariant]
    closed spec fn letters_only(&self) -> bool {
        all_alphabetic(self.bytes@)
    }

    /// The four bytes of the code.
    pub fn bytes(&self) -> (r: [u8; 4])
        ensures
            r@ == self@,
            self@.len() == 4,
            all_alphabetic(self@),
    {
        proof {
            use_type_invariant(self);
        }
        self.bytes
    }

    /// Whether the chunk is critical: the property bit of the first byte is zero.
    pub fn is_critical(&self) -> (r: bool)
        ensures
            r == property_bit_clear(self@[0]),
    {
        let byte: u8 = self.bytes[0];
        property_bit(byte) == 0
    }

    /// Whether the chunk is public: the property bit of the second byte is zero.
    pub fn is_public(&self) -> (r: bool)
        ensures
            r == property_bit_clear(self@[1]),
    {
        let byte: u8 = self.bytes[1];
        property_bit(byte) == 0
    }

    /// Whether the reserved bit is as it must be: the property bit of the third
    /// byte is zero.
    pub fn is_reserved_bit_valid(&self) -> (r: bool)
        ensures
            r == property_bit_clear(self@[2]),
    {
        let byte: u8 = self.bytes[2];
        property_bit(byte) == 0
    }

    /// Whether the chunk is safe to copy: the property bit of the fourth byte is
    /// one.
    pub fn is_safe_to_copy(&self) -> (r: bool)
        ensures
            r == !property_bit_clear(self@[3]),
    {
        let byte: u8 = self.bytes[3];
        property_bit(byte) == 1
    }

    /// Whether the code is valid: all four bytes are letters and the reserved bit
    /// is zero.
    pub fn is_valid(&self) -> (r: bool)
        ensures
            r == (all_alphabetic(self@) && property_bit_clear(self@[2])),
            all_alphabetic(self@),
    {
        proof {
            use_type_invariant(self);
        }
        let mut is_alpha = true;
        let mut i: usize = 0;
        while i < 4
            invariant
                i <= 4,
                is_alpha == all_alphabetic(self@.take(i as int)),
            decreases 4 - i,
        {
            let ok = ChunkType::is_valid_byte(self.bytes[i]);
            proof {
                let before = self@.take(i as int);
                let after = self@.take(i + 1);
                assert(after[i as int] == self@[i as int]);
                assert(forall|j: int| 0 <= j < i ==> before[j] == after[j]);
                if is_alpha && ok {
                    assert(all_alphabetic(after));
                } else if !ok {
                    assert(!is_alphabetic(after[i as int]));
                } else {
                    let j = choose|j: int| 0 <= j < before.len() && !is_alphabetic(before[j]);
                    assert(!is_alphabetic(after[j]));
                }
            }
            is_alpha = is_alpha && ok;
            i = i + 1;
        }
        assert(self@.take(4) =~= self@);
        is_alpha && self.is_reserved_bit_valid()
    }

    /// Whether `byte` is an ASCII letter.
    pub fn is_valid_byte(byte: u8) -> (r: bool)
        ensures
            r == is_alphabetic(byte),
    {
        (0x41 <= byte && byte <= 0x5a) || (0x61 <= byte && byte <= 0x7a)
    }

    /// Builds a chunk type from four bytes. Fails with `InvalidChunkType` exactly
    /// when one of them is not an ASCII letter.
    pub fn try_from(bytes: [u8; 4]) -> (r: Result<ChunkType, Error>)
        ensures
            chunk_type_result_view(r) == parse_chunk_type(bytes@),
    {
        if ChunkType::is_valid_byte(bytes[0]) && ChunkType::is_valid_byte(bytes[1])
            && ChunkType::is_valid_byte(bytes[2]) && ChunkType::is_valid_byte(bytes[3]) {
            Ok(ChunkType { bytes })
        } else {
            Err(Error::InvalidChunkType)
        }
    }

    /// Builds a chunk type from the first four bytes of a text. Fails with
    /// `InvalidChunkType` exactly when one of them is not an ASCII letter.
    pub fn from_str(s: &str) -> (r: Result<ChunkType, Error>)
        requires
            s.spec_bytes().len() >= 4,
        ensures
            chunk_type_result_view(r) == parse_chunk_type(s.spec_bytes().take(4)),
    {
        let bytes_vec = s.as_bytes();
        let bytes: [u8; 4] = [bytes_vec[0], bytes_vec[1], bytes_vec[2], bytes_vec[3]];
        assert(bytes@ =~= s.spec_bytes().take(4));
        ChunkType::try_from(bytes)
    }

    /// The text whose characters are the bytes `s`.
    pub open spec fn text_of(s: Seq<u8>) -> Seq<char> {
        Seq::new(s.len(), |i: int| s[i] as char)
    }

    /// The code as text: its four letters.
    pub fn to_string(&self) -> (r: String)
        ensures
            r@ == Self::text_of(self@),
    {
        proof {
            use_type_invariant(self);
            let chars = Self::text_of(self@);
            assert forall|i: int| 0 <= i < chars.len() implies (#[trigger] chars[i] as u32) < 128 by {
                assert(is_alphabetic(self@[i]));
            }
            is_ascii_chars_encode_utf8(chars);
            assert(encode_utf8(chars) =~= self@);
            encode_utf8_valid_utf8(chars);
            encode_utf8_decode_utf8(chars);
        }
        string_from_utf8_lossy(self.bytes.as_slice())
    }
}

} // verus!

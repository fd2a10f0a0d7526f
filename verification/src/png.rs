use vstd::prelude::*;
use vstd::slice::*;
use vstd::string::*;
use crate::chunk::{
    lemma_parse_framed_prefix, lemma_serialize_parsed_chunk, parse_chunk, serialize_chunk,
    well_formed, Chunk, ChunkModel,
};
use crate::chunk_type::{all_alphabetic, ChunkType};
use crate::error::Error;

verus! {

/// The eight bytes with which every PNG file starts.
pub const STANDARD_HEADER: [u8; 8] = [137, 80, 78, 71, 13, 10, 26, 10];

/// The eight bytes with which every PNG file starts.
pub open spec fn signature() -> Seq<u8> {
    seq![137u8, 80u8, 78u8, 71u8, 13u8, 10u8, 26u8, 10u8]
}

/// What each of the chunks `cs` is.
pub open spec fn chunk_models(cs: Seq<Chunk>) -> Seq<ChunkModel> {
    Seq::new(cs.len(), |i: int| cs[i]@)
}

/// The bytes of the chunks `cs`, one after the other.
pub open spec fn serialize_chunks(cs: Seq<ChunkModel>) -> Seq<u8>
    decreases cs.len(),
{
    if cs.len() == 0 {
        Seq::empty()
    } else {
        serialize_chunk(cs[0]) + serialize_chunks(cs.drop_first())
    }
}

/// The bytes of the document that holds the chunks `cs`: the signature, then
/// the chunks in order.
pub open spec fn serialize_png(cs: Seq<ChunkModel>) -> Seq<u8> {
    signature() + serialize_chunks(cs)
}

/// What reading chunks from `b` until it is used up gives.
pub open spec fn parse_chunks(b: Seq<u8>) -> Result<Seq<ChunkModel>, Error>
    decreases b.len(),
{
    if b.len() == 0 {
        Ok(Seq::empty())
    } else {
        match parse_chunk(b) {
            Err(e) => Err(e),
            Ok(c) => {
                proof {
                    lemma_serialize_parsed_chunk(b);
                }
                prepend(seq![c], parse_chunks(b.skip(12 + c.length)))
            },
        }
    }
}

/// The chunks `front` put before the outcome `r` of reading the rest.
pub open spec fn prepend(front: Seq<ChunkModel>, r: Result<Seq<ChunkModel>, Error>) -> Result<
    Seq<ChunkModel>,
    Error,
> {
    match r {
        Ok(rest) => Ok(front + rest),
        Err(e) => Err(e),
    }
}

/// What reading a whole document from `b` gives: `SignatureMismatch` unless `b`
/// starts with the signature, else the chunks that follow it.
pub open spec fn parse_png(b: Seq<u8>) -> Result<Seq<ChunkModel>, Error> {
    if b.len() < 8 || b.take(8) != signature() {
        Err(Error::SignatureMismatch)
    } else {
        parse_chunks(b.skip(8))
    }
}

/// The chunk type that the text with the bytes `s` names: its first four bytes,
/// where there are four and all are letters.
pub open spec fn named_type(s: Seq<u8>) -> Option<Seq<u8>> {
    if s.len() >= 4 && all_alphabetic(s.take(4)) {
        Some(s.take(4))
    } else {
        None
    }
}

/// The place of the first chunk of type `ty` among `cs`.
pub open spec fn find_type(cs: Seq<ChunkModel>, ty: Seq<u8>) -> Option<int>
    decreases cs.len(),
{
    if cs.len() == 0 {
        None
    } else if cs[0].chunk_type == ty {
        Some(0)
    } else {
        match find_type(cs.drop_first(), ty) {
            Some(i) => Some(i + 1),
            None => None,
        }
    }
}

/// Whether no chunk among the first `n` of `cs` has the type `ty`.
pub open spec fn none_before(cs: Seq<ChunkModel>, ty: Seq<u8>, n: int) -> bool {
    forall|j: int| 0 <= j < n && j < cs.len() ==> (#[trigger] cs[j]).chunk_type != ty
}

/// `find_type` gives the first place at which a chunk has the type, and nothing
/// exactly when no chunk has it.
pub proof fn lemma_find_type(cs: Seq<ChunkModel>, ty: Seq<u8>)
    ensures
        match find_type(cs, ty) {
            Some(i) => 0 <= i < cs.len() && cs[i].chunk_type == ty && none_before(cs, ty, i),
            None => none_before(cs, ty, cs.len() as int),
        },
    decreases cs.len(),
{
    if cs.len() > 0 && cs[0].chunk_type != ty {
        let tail = cs.drop_first();
        lemma_find_type(tail, ty);
        assert forall|j: int| 1 <= j < cs.len() implies cs[j] == tail[j - 1] by {}
        match find_type(tail, ty) {
            Some(i) => {
                assert forall|j: int| 0 <= j < i + 1 && j < cs.len() implies (#[trigger] cs[j]).chunk_type
                    != ty by {
                    if j > 0 {
                        assert(cs[j] == tail[j - 1]);
                    }
                }
            },
            None => {
                assert forall|j: int| 0 <= j < cs.len() implies (#[trigger] cs[j]).chunk_type
                    != ty by {
                    if j > 0 {
                        assert(cs[j] == tail[j - 1]);
                    }
                }
            },
        }
    }
}

/// The first place at which a chunk has the type is what `find_type` gives.
pub proof fn lemma_find_type_at(cs: Seq<ChunkModel>, ty: Seq<u8>, i: int)
    requires
        0 <= i < cs.len(),
        cs[i].chunk_type == ty,
        none_before(cs, ty, i),
    ensures
        find_type(cs, ty) == Some(i),
{
    lemma_find_type(cs, ty);
    match find_type(cs, ty) {
        Some(k) => {
            if k < i {
                assert(cs[k].chunk_type != ty);
            } else if i < k {
                assert(cs[i].chunk_type != ty);
            }
        },
        None => {
            assert(cs[i].chunk_type != ty);
        },
    }
}

/// Where no chunk has the type, `find_type` gives nothing.
pub proof fn lemma_find_type_absent(cs: Seq<ChunkModel>, ty: Seq<u8>)
    requires
        none_before(cs, ty, cs.len() as int),
    ensures
        find_type(cs, ty) is None,
{
    lemma_find_type(cs, ty);
    if let Some(k) = find_type(cs, ty) {
        assert(cs[k].chunk_type != ty);
    }
}

/// The bytes of chunks with one more at the end are the bytes of the chunks
/// followed by those of the last.
pub proof fn lemma_serialize_chunks_push(cs: Seq<ChunkModel>, c: ChunkModel)
    ensures
        serialize_chunks(cs.push(c)) == serialize_chunks(cs) + serialize_chunk(c),
    decreases cs.len(),
{
    let all = cs.push(c);
    if cs.len() == 0 {
        assert(all.drop_first() =~= Seq::<ChunkModel>::empty());
        assert(serialize_chunks(all.drop_first()) =~= Seq::<u8>::empty());
        assert(serialize_chunks(all) =~= serialize_chunk(c));
        assert(serialize_chunks(cs) + serialize_chunk(c) =~= serialize_chunk(c));
    } else {
        lemma_serialize_chunks_push(cs.drop_first(), c);
        assert(all.drop_first() =~= cs.drop_first().push(c));
        assert(all[0] == cs[0]);
        assert(serialize_chunks(all) =~= serialize_chunks(cs) + serialize_chunk(c));
    }
}

/// Chunks read from bytes, written out again, are those bytes.
pub proof fn lemma_serialize_parsed_chunks(b: Seq<u8>)
    requires
        parse_chunks(b) is Ok,
    ensures
        serialize_chunks(parse_chunks(b).unwrap()) == b,
    decreases b.len(),
{
    if b.len() == 0 {
        assert(serialize_chunks(parse_chunks(b).unwrap()) =~= b);
    } else {
        let c = parse_chunk(b).unwrap();
        let n = 12 + c.length;
        lemma_serialize_parsed_chunk(b);
        let rest = parse_chunks(b.skip(n)).unwrap();
        lemma_serialize_parsed_chunks(b.skip(n));
        let all = seq![c] + rest;
        assert(all[0] == c);
        assert(all.drop_first() =~= rest);
        assert(b.take(n) + b.skip(n) =~= b);
    }
}

/// A document read from bytes, written out again, is those bytes.
pub proof fn lemma_document_round_trip(b: Seq<u8>)
    requires
        parse_png(b) is Ok,
    ensures
        serialize_png(parse_png(b).unwrap()) == b,
{
    lemma_serialize_parsed_chunks(b.skip(8));
    assert(b.take(8) + b.skip(8) =~= b);
}

/// Whether each of the chunks `cs` is as it should be.
pub open spec fn all_well_formed(cs: Seq<ChunkModel>) -> bool {
    forall|i: int| 0 <= i < cs.len() ==> well_formed(#[trigger] cs[i])
}

/// Chunks written out and read again are the same chunks.
pub proof fn lemma_parse_serialized_chunks(cs: Seq<ChunkModel>)
    requires
        all_well_formed(cs),
    ensures
        parse_chunks(serialize_chunks(cs)) == Ok::<Seq<ChunkModel>, Error>(cs),
    decreases cs.len(),
{
    if cs.len() > 0 {
        let b = serialize_chunks(cs);
        let tail = serialize_chunks(cs.drop_first());
        assert(well_formed(cs[0]));
        assert forall|i: int| 0 <= i < cs.drop_first().len() implies well_formed(
            #[trigger] cs.drop_first()[i],
        ) by {
            assert(cs.drop_first()[i] == cs[i + 1]);
        }
        lemma_parse_framed_prefix(cs[0], tail);
        lemma_parse_serialized_chunks(cs.drop_first());
        assert(b.len() >= 12);
        assert(b.skip(12 + cs[0].length) =~= tail);
        assert(seq![cs[0]] + cs.drop_first() =~= cs);
    } else {
        assert(cs =~= Seq::<ChunkModel>::empty());
    }
}

/// A document written out and read again is the same document.
pub proof fn lemma_parse_serialized_document(cs: Seq<ChunkModel>)
    requires
        all_well_formed(cs),
    ensures
        parse_png(serialize_png(cs)) == Ok::<Seq<ChunkModel>, Error>(cs),
{
    let b = serialize_png(cs);
    lemma_parse_serialized_chunks(cs);
    assert(b.take(8) =~= signature());
    assert(b.skip(8) =~= serialize_chunks(cs));
}

/// After a chunk is added at the end, the first chunk of its type is the one
/// that was first before, or the new one where there was none.
pub proof fn lemma_append_then_find(cs: Seq<ChunkModel>, c: ChunkModel)
    ensures
        find_type(cs.push(c), c.chunk_type) == (if find_type(cs, c.chunk_type) is Some {
            find_type(cs, c.chunk_type)
        } else {
            Some(cs.len() as int)
        }),
{
    let ty = c.chunk_type;
    let all = cs.push(c);
    lemma_find_type(cs, ty);
    match find_type(cs, ty) {
        Some(i) => {
            assert(all[i] == cs[i]);
            assert forall|j: int| 0 <= j < i && j < all.len() implies (#[trigger] all[j]).chunk_type
                != ty by {
                assert(all[j] == cs[j]);
            }
            lemma_find_type_at(all, ty, i);
        },
        None => {
            assert forall|j: int| 0 <= j < cs.len() && j < all.len() implies (#[trigger] all[j]).chunk_type
                != ty by {
                assert(all[j] == cs[j]);
            }
            lemma_find_type_at(all, ty, cs.len() as int);
        },
    }
}

/// Where exactly one chunk has the type, none has it once that chunk is taken
/// out.
pub proof fn lemma_remove_then_find(cs: Seq<ChunkModel>, ty: Seq<u8>, i: int)
    requires
        find_type(cs, ty) == Some(i),
        forall|j: int| 0 <= j < cs.len() && j != i ==> (#[trigger] cs[j]).chunk_type != ty,
    ensures
        find_type(cs.remove(i), ty) is None,
{
    lemma_find_type(cs, ty);
    let left = cs.remove(i);
    assert forall|j: int| 0 <= j < left.len() implies (#[trigger] left[j]).chunk_type != ty by {
        if j < i {
            assert(left[j] == cs[j]);
        } else {
            assert(left[j] == cs[j + 1]);
        }
    }
    lemma_find_type_absent(left, ty);
}

/// A PNG document: the chunks that follow the signature, in file order.
#[derive(Debug)]
pub struct Png {
    chunks: Vec<Chunk>,
}

impl View for Png {
    type V = Seq<ChunkModel>;

    closed spec fn view(&self) -> Seq<ChunkModel> {
        chunk_models(self.chunks@)
    }
}

impl core::convert::TryFrom<&[u8]> for Png {
    type Error = Error;

    /// Reads a document, as `Png::try_from` does.
    fn try_from(bytes: &[u8]) -> (r: Result<Png, Error>)
        ensures
            png_result_view(r) == parse_png(bytes@),
            (bytes@.len() < 8 || bytes@.take(8) != signature()) ==> r matches Err(
                Error::SignatureMismatch,
            ),
            r matches Ok(p) ==> serialize_png(p@) == bytes@,
    {
        Png::try_from(bytes)
    }
}

impl vstd::std_specs::convert::TryFromSpecImpl<&[u8]> for Png {
    open spec fn obeys_try_from_spec() -> bool {
        false
    }

    /// Left open: a document cannot be written down as a spec value, so what is
    /// returned is stated over views, on `try_from` itself.
    open spec fn try_from_spec(bytes: &[u8]) -> Result<Png, Error> {
        arbitrary()
    }
}

/// The views of a result of reading a document.
pub open spec fn png_result_view(r: Result<Png, Error>) -> Result<Seq<ChunkModel>, Error> {
    match r {
        Ok(p) => Ok(p@),
        Err(e) => Err(e),
    }
}

fn type_of_text(chunk_type: &str) -> (r: Option<ChunkType>)
    ensures
        match r {
            Some(t) => named_type(chunk_type.spec_bytes()) == Some(t@),
            None => named_type(chunk_type.spec_bytes()) is None,
        },
{
    if chunk_type.as_bytes().len() < 4 {
        return None;
    }
    match ChunkType::from_str(chunk_type) {
        Ok(t) => Some(t),
        Err(_) => None,
    }
}

impl Png {
    /// The document that holds the given chunks in the given order.
    pub fn from_chunks(chunks: Vec<Chunk>) -> (r: Png)
        ensures
            r@ == chunk_models(chunks@),
    {
        Png { chunks }
    }

    /// The chunks of the document, in order, as values of their own.
    pub fn into_chunks(self) -> (r: Vec<Chunk>)
        ensures
            chunk_models(r@) == self@,
    {
        self.chunks
    }

    /// Reads a document: the signature, then chunks until the input is used up.
    /// Fails with `SignatureMismatch` unless the input starts with the signature,
    /// and with the failure of the first chunk that cannot be read.
    pub fn try_from(bytes: &[u8]) -> (r: Result<Png, Error>)
        ensures
            png_result_view(r) == parse_png(bytes@),
            (bytes@.len() < 8 || bytes@.take(8) != signature()) ==> r matches Err(
                Error::SignatureMismatch,
            ),
            r matches Ok(p) ==> serialize_png(p@) == bytes@,
    {
        let n = bytes.len();
        if n < 8 {
            return Err(Error::SignatureMismatch);
        }
        let mut k: usize = 0;
        while k < 8
            invariant
                k <= 8,
                n == bytes@.len(),
                n >= 8,
                forall|j: int| 0 <= j < k ==> bytes@[j] == signature()[j],
            decreases 8 - k,
        {
            if bytes[k] != STANDARD_HEADER[k] {
                assert(bytes@.take(8)[k as int] != signature()[k as int]);
                return Err(Error::SignatureMismatch);
            }
            k = k + 1;
        }
        assert(bytes@.take(8) =~= signature());

        let mut chunks: Vec<Chunk> = Vec::new();
        let mut pos: usize = 8;
        while pos < n
            invariant
                8 <= pos <= n,
                n == bytes@.len(),
                bytes@.take(8) == signature(),
                parse_chunks(bytes@.skip(8)) == prepend(
                    chunk_models(chunks@),
                    parse_chunks(bytes@.skip(pos as int)),
                ),
            decreases n - pos,
        {
            let rest = slice_subrange(bytes, pos, n);
            assert(rest@ =~= bytes@.skip(pos as int));
            match Chunk::try_from(rest) {
                Err(e) => {
                    return Err(e);
                },
                Ok(c) => {
                    let length = c.length();
                    proof {
                        lemma_serialize_parsed_chunk(rest@);
                    }
                    let ghost before = chunk_models(chunks@);
                    let ghost next = pos + 12 + length;
                    proof {
                        assert(rest@.skip(12 + length) =~= bytes@.skip(next));
                        let tail = parse_chunks(bytes@.skip(next));
                        match tail {
                            Ok(t) => {
                                assert(before + (seq![c@] + t) =~= before.push(c@) + t);
                            },
                            Err(_) => {},
                        }
                        assert(prepend(before, prepend(seq![c@], tail)) == prepend(
                            before.push(c@),
                            tail,
                        ));
                    }
                    pos = pos + 12 + length as usize;
                    chunks.push(c);
                    assert(chunk_models(chunks@) =~= before.push(c@));
                },
            }
        }
        proof {
            assert(bytes@.skip(pos as int) =~= Seq::<u8>::empty());
            assert(chunk_models(chunks@) + Seq::<ChunkModel>::empty() =~= chunk_models(chunks@));
            lemma_document_round_trip(bytes@);
        }
        Ok(Png { chunks })
    }

    /// Adds a chunk at the end of the document.
    pub fn append_chunk(&mut self, chunk: Chunk)
        ensures
            final(self)@ == old(self)@.push(chunk@),
    {
        self.chunks.push(chunk);
        assert(chunk_models(self.chunks@) =~= chunk_models(old(self).chunks@).push(chunk@));
    }

    /// Takes the first chunk of the named type out of the document and returns
    /// it; the other chunks keep their order. Fails with `InvalidChunkType` where
    /// the text names no chunk type and with `NotFound` where no chunk has the
    /// type, and then leaves the document as it was.
    pub fn remove_chunk(&mut self, chunk_type: &str) -> (r: Result<Chunk, Error>)
        ensures
            match named_type(chunk_type.spec_bytes()) {
                None => r matches Err(Error::InvalidChunkType) && final(self)@ == old(self)@,
                Some(ty) => match find_type(old(self)@, ty) {
                    None => r matches Err(Error::NotFound) && final(self)@ == old(self)@,
                    Some(i) => r matches Ok(c) && c@ == old(self)@[i] && final(self)@ == old(
                        self,
                    )@.remove(i),
                },
            },
    {
        let target = match type_of_text(chunk_type) {
            Some(t) => t,
            None => {
                return Err(Error::InvalidChunkType);
            },
        };
        match self.position(&target) {
            None => Err(Error::NotFound),
            Some(i) => {
                let c = self.chunks.remove(i);
                assert(chunk_models(self.chunks@) =~= chunk_models(old(self).chunks@).remove(
                    i as int,
                ));
                Ok(c)
            },
        }
    }

    /// The eight bytes with which the document starts on the wire.
    pub fn header(&self) -> (r: &[u8; 8])
        ensures
            r@ == signature(),
    {
        assert(STANDARD_HEADER@ =~= signature());
        &STANDARD_HEADER
    }

    /// The chunks of the document, in order.
    pub fn chunks(&self) -> (r: &[Chunk])
        ensures
            chunk_models(r@) == self@,
    {
        self.chunks.as_slice()
    }

    /// The first chunk of the named type, if the text names a chunk type and a
    /// chunk has it.
    pub fn chunk_by_type(&self, chunk_type: &str) -> (r: Option<&Chunk>)
        ensures
            match named_type(chunk_type.spec_bytes()) {
                None => r is None,
                Some(ty) => match find_type(self@, ty) {
                    None => r is None,
                    Some(i) => r matches Some(c) && c@ == self@[i],
                },
            },
    {
        let target = match type_of_text(chunk_type) {
            Some(t) => t,
            None => {
                return None;
            },
        };
        match self.position(&target) {
            None => None,
            Some(i) => Some(&self.chunks[i]),
        }
    }

    /// The document on the wire: the signature, then each chunk's bytes in order.
    /// Reading these bytes gives the document back.
    pub fn as_bytes(&self) -> (r: Vec<u8>)
        ensures
            r@ == serialize_png(self@),
            parse_png(r@) == Ok::<Seq<ChunkModel>, Error>(self@),
    {
        let mut bytes: Vec<u8> = Vec::new();
        bytes.extend_from_slice(STANDARD_HEADER.as_slice());
        assert(bytes@ =~= signature());
        assert(self@.take(0) =~= Seq::<ChunkModel>::empty());
        assert(bytes@ =~= serialize_png(self@.take(0)));
        let mut i: usize = 0;
        while i < self.chunks.len()
            invariant
                i <= self.chunks.len(),
                bytes@ == serialize_png(self@.take(i as int)),
                all_well_formed(self@.take(i as int)),
            decreases self.chunks.len() - i,
        {
            let chunk_bytes = self.chunks[i].as_bytes();
            proof {
                lemma_serialize_chunks_push(self@.take(i as int), self@[i as int]);
                assert(self@.take(i + 1) =~= self@.take(i as int).push(self@[i as int]));
                assert forall|j: int| 0 <= j < i + 1 implies well_formed(
                    #[trigger] self@.take(i + 1)[j],
                ) by {
                    if j < i {
                        assert(self@.take(i + 1)[j] == self@.take(i as int)[j]);
                    }
                }
            }
            bytes.extend_from_slice(chunk_bytes.as_slice());
            assert(bytes@ =~= serialize_png(self@.take(i + 1)));
            i = i + 1;
        }
        assert(self@.take(i as int) =~= self@);
        proof {
            lemma_parse_serialized_document(self@);
        }
        bytes
    }

    fn position(&self, target: &ChunkType) -> (r: Option<usize>)
        ensures
            match r {
                Some(i) => find_type(self@, target@) == Some(i as int) && i < self.chunks@.len(),
                None => find_type(self@, target@) is None,
            },
    {
        let mut i: usize = 0;
        while i < self.chunks.len()
            invariant
                i <= self.chunks.len(),
                none_before(self@, target@, i as int),
            decreases self.chunks.len() - i,
        {
            if *self.chunks[i].chunk_type() == *target {
                proof {
                    lemma_find_type_at(self@, target@, i as int);
                }
                return Some(i);
            }
            i = i + 1;
        }
        proof {
            lemma_find_type_absent(self@, target@);
        }
        None
    }
}

} // verus!

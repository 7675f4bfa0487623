use vstd::prelude::*;

use vstd::slice::slice_subrange;

use crate::chunk::Chunk;
use crate::chunk::chunk_crc_ok;
use crate::chunk::chunk_frame_ok;
use crate::chunk::declared_len;
use crate::chunk::append_bytes;
use crate::chunk_type::ChunkType;
use crate::error::PngError;

verus! {

broadcast use Chunk::lemma_type_len;

/// The eight magic bytes that begin every PNG file.
pub open spec fn spec_signature() -> Seq<u8> {
    seq![137u8, 80u8, 78u8, 71u8, 13u8, 10u8, 26u8, 10u8]
}

/// The concatenated serialized forms of a sequence of chunks, in order.
pub open spec fn chunks_serial(s: Seq<Chunk>) -> Seq<u8>
    decreases s.len(),
{
    if s.len() == 0 {
        Seq::empty()
    } else {
        s[0].serialized() + chunks_serial(s.drop_first())
    }
}

/// Appending a chunk to a sequence appends exactly that chunk's serialized
/// form to the sequence's serialization: serializing a container after an
/// append reproduces the signature, the original chunks, and the new chunk,
/// byte-exact.
pub proof fn lemma_chunks_serial_push(s: Seq<Chunk>, c: Chunk)
    ensures
        chunks_serial(s.push(c)) == chunks_serial(s) + c.serialized(),
    decreases s.len(),
{
    if s.len() == 0 {
        let e = Seq::<Chunk>::empty();
        assert(s.push(c).drop_first() =~= e);
        assert(chunks_serial(e) =~= Seq::<u8>::empty());
        assert(chunks_serial(s) =~= Seq::<u8>::empty());
        assert(chunks_serial(s.push(c)) == s.push(c)[0].serialized() + chunks_serial(e));
        assert(s.push(c)[0] == c);
        assert(chunks_serial(s.push(c)) =~= chunks_serial(s) + c.serialized());
    } else {
        assert(s.push(c).drop_first() =~= s.drop_first().push(c));
        lemma_chunks_serial_push(s.drop_first(), c);
        assert(chunks_serial(s.push(c)) == s.push(c)[0].serialized() + chunks_serial(
            s.push(c).drop_first(),
        ));
        assert(s.push(c)[0] == s[0]);
        assert(chunks_serial(s.push(c)) =~= chunks_serial(s) + c.serialized());
    }
}

/// Removing one chunk shrinks the serialized form by exactly that chunk's
/// encoded size: twelve framing bytes plus its data length.
pub proof fn lemma_chunks_serial_remove(s: Seq<Chunk>, i: int)
    requires
        0 <= i < s.len(),
    ensures
        chunks_serial(s.remove(i)).len() + 12 + s[i].spec_data().len() == chunks_serial(s).len(),
    decreases s.len(),
{
    if i == 0 {
        assert(s.remove(0) =~= s.drop_first());
        assert(s[0].serialized().len() == 12 + s[0].spec_data().len());
    } else {
        assert(s.remove(i).drop_first() =~= s.drop_first().remove(i - 1));
        lemma_chunks_serial_remove(s.drop_first(), i - 1);
        assert(s.drop_first()[i - 1] == s[i]);
        assert(chunks_serial(s.remove(i)) == s.remove(i)[0].serialized() + chunks_serial(
            s.remove(i).drop_first(),
        ));
    }
}

/// True when the buffer splits exactly into a sequence of well-formed
/// chunks: each step frames correctly and passes the checksum test, and the
/// buffer ends on a chunk boundary.
pub open spec fn chunks_parseable(b: Seq<u8>) -> bool
    decreases b.len(),
{
    if b.len() == 0 {
        true
    } else if !(chunk_frame_ok(b) && chunk_crc_ok(b)) {
        false
    } else {
        chunks_parseable(b.skip(12 + declared_len(b) as int))
    }
}

/// The error the first ill-formed chunk of the buffer provokes.
pub open spec fn chunks_parse_err(b: Seq<u8>) -> PngError
    recommends
        !chunks_parseable(b),
    decreases b.len(),
{
    if b.len() == 0 {
        PngError::TruncatedInput
    } else if !chunk_frame_ok(b) {
        PngError::TruncatedInput
    } else if !chunk_crc_ok(b) {
        PngError::ChecksumMismatch
    } else {
        chunks_parse_err(b.skip(12 + declared_len(b) as int))
    }
}

/// An ordered sequence of chunks forming a whole PNG file. Serialization
/// emits the fixed eight-byte signature followed by each chunk's exact byte
/// form; parsing demands the signature and consumes the rest of the buffer
/// as consecutive chunks.
#[derive(Debug)]
pub struct Png {
    chunks: Vec<Chunk>,
}

impl View for Png {
    type V = Seq<Chunk>;

    closed spec fn view(&self) -> Seq<Chunk> {
        self.chunks@
    }
}

impl Png {
    /// A container with no chunks yet.
    pub fn new() -> (r: Png)
        ensures
            r@ == Seq::<Chunk>::empty(),
    {
        Png { chunks: Vec::new() }
    }

    /// The chunks, in file order.
    pub fn chunks(&self) -> (r: &[Chunk])
        ensures
            r@ == self@,
    {
        self.chunks.as_slice()
    }

    /// Adds a chunk at the end of the sequence.
    pub fn append_chunk(&mut self, chunk: Chunk)
        ensures
            final(self)@ == old(self)@.push(chunk),
    {
        self.chunks.push(chunk);
    }

    /// The first chunk whose type code equals `t`, if any is present.
    pub fn chunk_by_type(&self, t: &ChunkType) -> (r: Option<&Chunk>)
        ensures
            r is Some <==> exists|i: int|
                0 <= i < self@.len() && (#[trigger] self@[i]).spec_type() == t@,
            r matches Some(c) ==> exists|i: int|
                0 <= i < self@.len() && (#[trigger] self@[i]).spec_type() == t@ && *c == self@[i]
                    && (forall|j: int| 0 <= j < i ==> self@[j].spec_type() != t@),
    {
        let n = self.chunks.len();
        let mut i: usize = 0;
        while i < n
            invariant
                n == self@.len(),
                0 <= i <= n,
                forall|j: int| 0 <= j < i ==> self@[j].spec_type() != t@,
            decreases n - i,
        {
            let c = &self.chunks[i];
            if c.chunk_type().same_as(t) {
                return Some(c);
            }
            i = i + 1;
        }
        None
    }

    /// Removes and returns the first chunk whose type code equals `t`; when
    /// none matches, fails with `ChunkNotFound` and leaves the container
    /// unchanged.
    pub fn remove_first_chunk(&mut self, t: &ChunkType) -> (r: Result<Chunk, PngError>)
        ensures
            r is Ok <==> exists|i: int|
                0 <= i < old(self)@.len() && (#[trigger] old(self)@[i]).spec_type() == t@,
            r matches Ok(c) ==> exists|i: int|
                0 <= i < old(self)@.len() && (#[trigger] old(self)@[i]).spec_type() == t@ && c
                    == old(self)@[i] && final(self)@ == old(self)@.remove(i) && (forall|j: int|
                    0 <= j < i ==> old(self)@[j].spec_type() != t@),
            r is Err ==> r == Err::<Chunk, PngError>(PngError::ChunkNotFound) && final(self)@
                == old(self)@,
    {
        let n = self.chunks.len();
        let mut i: usize = 0;
        while i < n
            invariant
                n == self@.len(),
                self@ == old(self)@,
                0 <= i <= n,
                forall|j: int| 0 <= j < i ==> self@[j].spec_type() != t@,
            decreases n - i,
        {
            let found = self.chunks[i].chunk_type().same_as(t);
            if found {
                let c = self.chunks.remove(i);
                return Ok(c);
            }
            i = i + 1;
        }
        Err(PngError::ChunkNotFound)
    }

    /// Serializes the container: the signature followed by each chunk's
    /// exact byte form, in order. The exact inverse of [`Png::from_bytes`].
    pub fn as_bytes(&self) -> (r: Vec<u8>)
        ensures
            r@ == spec_signature() + chunks_serial(self@),
    {
        let mut out: Vec<u8> = Vec::new();
        out.push(137);
        out.push(80);
        out.push(78);
        out.push(71);
        out.push(13);
        out.push(10);
        out.push(26);
        out.push(10);
        proof {
            assert(out@ =~= spec_signature());
            assert(self@.take(0) =~= Seq::<Chunk>::empty());
        }
        let n = self.chunks.len();
        let mut i: usize = 0;
        while i < n
            invariant
                n == self@.len(),
                0 <= i <= n,
                out@ == spec_signature() + chunks_serial(self@.take(i as int)),
            decreases n - i,
        {
            let c = &self.chunks[i];
            let cb = c.as_bytes();
            append_bytes(&mut out, cb.as_slice());
            proof {
                assert(self@.take(i + 1) =~= self@.take(i as int).push(self@[i as int]));
                lemma_chunks_serial_push(self@.take(i as int), self@[i as int]);
                assert(out@ =~= spec_signature() + chunks_serial(self@.take(i + 1)));
            }
            i = i + 1;
        }
        proof {
            assert(self@.take(n as int) =~= self@);
        }
        out
    }

    /// Parses a whole file buffer: the first eight bytes must equal the PNG
    /// signature, and the rest of the buffer is consumed as consecutive
    /// chunks. Fails with `InvalidSignature` when the signature is missing
    /// or corrupted, and otherwise propagates the first chunk's parse error.
    pub fn from_bytes(bytes: &[u8]) -> (r: Result<Png, PngError>)
        ensures
            r is Ok <==> bytes@.len() >= 8 && bytes@.subrange(0, 8) == spec_signature()
                && chunks_parseable(bytes@.skip(8)),
            r matches Ok(p) ==> bytes@ == spec_signature() + chunks_serial(p@),
            bytes@.len() < 8 || bytes@.subrange(0, 8) != spec_signature() ==> r == Err::<
                Png,
                PngError,
            >(PngError::InvalidSignature),
            bytes@.len() >= 8 && bytes@.subrange(0, 8) == spec_signature() && !chunks_parseable(
                bytes@.skip(8),
            ) ==> r == Err::<Png, PngError>(chunks_parse_err(bytes@.skip(8))),
    {
        if bytes.len() < 8 {
            return Err(PngError::InvalidSignature);
        }
        let sig_ok = bytes[0] == 137 && bytes[1] == 80 && bytes[2] == 78 && bytes[3] == 71
            && bytes[4] == 13 && bytes[5] == 10 && bytes[6] == 26 && bytes[7] == 10;
        proof {
            let head = bytes@.subrange(0, 8);
            if sig_ok {
                assert(head =~= spec_signature());
            } else {
                if head == spec_signature() {
                    assert(head[0] == 137 && head[1] == 80 && head[2] == 78 && head[3] == 71
                        && head[4] == 13 && head[5] == 10 && head[6] == 26 && head[7] == 10);
                    assert(false);
                }
            }
        }
        if !sig_ok {
            return Err(PngError::InvalidSignature);
        }
        let mut chunks: Vec<Chunk> = Vec::new();
        let mut pos: usize = 8;
        proof {
            assert(chunks_serial(chunks@) =~= bytes@.subrange(8, 8));
        }
        while pos < bytes.len()
            invariant
                8 <= pos <= bytes@.len(),
                bytes@.len() >= 8,
                bytes@.subrange(0, 8) == spec_signature(),
                chunks_serial(chunks@) == bytes@.subrange(8, pos as int),
                chunks_parseable(bytes@.skip(8)) == chunks_parseable(bytes@.skip(pos as int)),
                !chunks_parseable(bytes@.skip(8)) ==> chunks_parse_err(bytes@.skip(8))
                    == chunks_parse_err(bytes@.skip(pos as int)),
            decreases bytes@.len() - pos,
        {
            let rest = slice_subrange(bytes, pos, bytes.len());
            proof {
                assert(rest@ =~= bytes@.skip(pos as int));
            }
            match Chunk::parse(rest) {
                Ok(c) => {
                    let dlen = c.length() as usize;
                    proof {
                        assert(chunk_frame_ok(rest@) && chunk_crc_ok(rest@));
                        assert(declared_len(rest@) == dlen);
                        assert(12 + dlen <= rest@.len());
                    }
                    let ghost old_chunks = chunks@;
                    let ghost old_pos = pos as int;
                    chunks.push(c);
                    pos = pos + (12 + dlen);
                    proof {
                        lemma_chunks_serial_push(old_chunks, c);
                        assert(c.serialized() == rest@.subrange(0, 12 + dlen));
                        assert(bytes@.subrange(8, pos as int) =~= bytes@.subrange(8, old_pos)
                            + rest@.subrange(0, 12 + dlen));
                        assert(chunks_serial(chunks@) == bytes@.subrange(8, pos as int));
                        assert(rest@.skip(12 + declared_len(rest@) as int) =~= bytes@.skip(
                            pos as int,
                        ));
                        assert(chunks_parseable(rest@) == chunks_parseable(bytes@.skip(pos as int)));
                        if !chunks_parseable(bytes@.skip(8)) {
                            assert(chunks_parse_err(rest@) == chunks_parse_err(
                                bytes@.skip(pos as int),
                            ));
                        }
                    }
                },
                Err(e) => {
                    proof {
                        assert(rest@.len() > 0);
                        assert(!chunks_parseable(rest@));
                        assert(e == chunks_parse_err(rest@));
                    }
                    return Err(e);
                },
            }
        }
        proof {
            assert(pos == bytes@.len());
            assert(bytes@.skip(pos as int).len() == 0);
            assert(chunks_parseable(bytes@.skip(8)));
            assert(bytes@ =~= spec_signature() + chunks_serial(chunks@));
        }
        Ok(Png { chunks })
    }
}

} // verus!

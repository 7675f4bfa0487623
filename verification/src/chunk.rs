use vstd::prelude::*;

use vstd::slice::slice_to_vec;
use vstd::string::StringExecFns;
use vstd::utf8::valid_utf8;
use vstd::utf8::decode_utf8;

use crate::chunk_type::ChunkType;
use crate::crc32::checksum_ieee;
use crate::crc32::crc32_ieee;
use crate::error::PngError;
use crate::text::ascii_chars_of;
use crate::text::dec_digits;
use crate::text::decimal_string;

verus! {

// Big-endian framing of 32-bit values.

/// The four big-endian bytes of a 32-bit value, most significant first.
pub open spec fn spec_u32_to_be_bytes(x: u32) -> Seq<u8> {
    seq![(x >> 24) as u8, (x >> 16) as u8, (x >> 8) as u8, x as u8]
}

/// The 32-bit value that four big-endian bytes declare.
pub open spec fn spec_u32_from_be_bytes(s: Seq<u8>) -> u32
    recommends
        s.len() == 4,
{
    (s[0] as u32) << 24 | (s[1] as u32) << 16 | (s[2] as u32) << 8 | (s[3] as u32)
}

/// Reading the four big-endian bytes of a value back gives the value.
pub proof fn lemma_u32_be_bytes_of(x: u32)
    ensures
        spec_u32_from_be_bytes(spec_u32_to_be_bytes(x)) == x,
{
    assert(((x >> 24) as u8 as u32) << 24 | ((x >> 16) as u8 as u32) << 16 | ((x >> 8) as u8
        as u32) << 8 | (x as u8 as u32) == x) by (bit_vector);
}

/// Writing the value four big-endian bytes declare gives back the bytes.
pub proof fn lemma_u32_be_bytes_to(s: Seq<u8>)
    requires
        s.len() == 4,
    ensures
        spec_u32_to_be_bytes(spec_u32_from_be_bytes(s)) == s,
{
    let b0 = s[0];
    let b1 = s[1];
    let b2 = s[2];
    let b3 = s[3];
    let x = spec_u32_from_be_bytes(s);
    assert(x == (b0 as u32) << 24 | (b1 as u32) << 16 | (b2 as u32) << 8 | (b3 as u32));
    assert((((b0 as u32) << 24 | (b1 as u32) << 16 | (b2 as u32) << 8 | (b3 as u32)) >> 24) as u8
        == b0) by (bit_vector);
    assert((((b0 as u32) << 24 | (b1 as u32) << 16 | (b2 as u32) << 8 | (b3 as u32)) >> 16) as u8
        == b1) by (bit_vector);
    assert((((b0 as u32) << 24 | (b1 as u32) << 16 | (b2 as u32) << 8 | (b3 as u32)) >> 8) as u8
        == b2) by (bit_vector);
    assert(((b0 as u32) << 24 | (b1 as u32) << 16 | (b2 as u32) << 8 | (b3 as u32)) as u8 == b3)
        by (bit_vector);
    assert(spec_u32_to_be_bytes(x) =~= s);
}

/// Appends the four big-endian bytes of `x` to `v`.
pub(crate) fn push_u32_be(v: &mut Vec<u8>, x: u32)
    ensures
        final(v)@ == old(v)@ + spec_u32_to_be_bytes(x),
{
    v.push(#[verifier::truncate] ((x >> 24) as u8));
    v.push(#[verifier::truncate] ((x >> 16) as u8));
    v.push(#[verifier::truncate] ((x >> 8) as u8));
    v.push(#[verifier::truncate] (x as u8));
    proof {
        assert(v@ =~= old(v)@ + spec_u32_to_be_bytes(x));
    }
}

/// Reads the big-endian 32-bit value at position `pos` of `bytes`.
pub(crate) fn read_u32_be(bytes: &[u8], pos: usize) -> (r: u32)
    requires
        pos + 4 <= bytes@.len(),
    ensures
        r == spec_u32_from_be_bytes(bytes@.subrange(pos as int, pos as int + 4)),
{
    let b0 = bytes[pos];
    let b1 = bytes[pos + 1];
    let b2 = bytes[pos + 2];
    let b3 = bytes[pos + 3];
    proof {
        let s = bytes@.subrange(pos as int, pos as int + 4);
        assert(s[0] == b0 && s[1] == b1 && s[2] == b2 && s[3] == b3);
    }
    (b0 as u32) << 24 | (b1 as u32) << 16 | (b2 as u32) << 8 | (b3 as u32)
}

/// Appends every byte of `src` to `dst`, in order.
pub(crate) fn append_bytes(dst: &mut Vec<u8>, src: &[u8])
    ensures
        final(dst)@ == old(dst)@ + src@,
{
    let mut i: usize = 0;
    while i < src.len()
        invariant
            0 <= i <= src@.len(),
            dst@ == old(dst)@ + src@.subrange(0, i as int),
        decreases src@.len() - i,
    {
        dst.push(src[i]);
        proof {
            assert(old(dst)@ + src@.subrange(0, i as int) + seq![src@[i as int]] =~= old(dst)@
                + src@.subrange(0, i as int + 1));
        }
        i = i + 1;
    }
    proof {
        assert(src@.subrange(0, src@.len() as int) =~= src@);
    }
}

// The byte layout of a chunk.

/// The exact byte form of a chunk with type bytes `t` and data `d`: the
/// big-endian data length, the four type bytes, the data, and the big-endian
/// CRC-32/IEEE of type and data.
pub open spec fn chunk_serial(t: Seq<u8>, d: Seq<u8>) -> Seq<u8> {
    spec_u32_to_be_bytes(d.len() as u32) + t + d + spec_u32_to_be_bytes(crc32_ieee(t + d))
}

/// The data length the first four bytes of a chunk buffer declare.
pub open spec fn declared_len(b: Seq<u8>) -> nat
    recommends
        b.len() >= 4,
{
    spec_u32_from_be_bytes(b.subrange(0, 4)) as nat
}

/// True when the buffer holds the twelve framing bytes plus the declared
/// quantity of data.
pub open spec fn chunk_frame_ok(b: Seq<u8>) -> bool {
    b.len() >= 12 && b.len() >= 12 + declared_len(b)
}

/// The four type bytes of a chunk buffer.
pub open spec fn chunk_type_field(b: Seq<u8>) -> Seq<u8>
    recommends
        b.len() >= 8,
{
    b.subrange(4, 8)
}

/// The data bytes of a chunk buffer.
pub open spec fn chunk_data_field(b: Seq<u8>) -> Seq<u8>
    recommends
        chunk_frame_ok(b),
{
    b.subrange(8, 8 + declared_len(b) as int)
}

/// The four stored CRC bytes of a chunk buffer.
pub open spec fn chunk_crc_field(b: Seq<u8>) -> Seq<u8>
    recommends
        chunk_frame_ok(b),
{
    b.subrange(8 + declared_len(b) as int, 12 + declared_len(b) as int)
}

/// True when the stored CRC bytes equal the CRC-32/IEEE recomputed over the
/// buffer's type and data bytes.
pub open spec fn chunk_crc_ok(b: Seq<u8>) -> bool
    recommends
        chunk_frame_ok(b),
{
    chunk_crc_field(b) == spec_u32_to_be_bytes(
        crc32_ieee(chunk_type_field(b) + chunk_data_field(b)),
    )
}

/// A length-prefixed, type-tagged, CRC-protected unit of data. A chunk is
/// only ever observable with its stored CRC equal to the CRC-32/IEEE of its
/// type and data: construction from untrusted bytes fails rather than
/// producing an unchecked value.
#[derive(Debug)]
pub struct Chunk {
    length: u32,
    chunk_type: ChunkType,
    data: Vec<u8>,
    crc: u32,
}

impl Chunk {
    /// The stored length is the data's byte count and the stored CRC is the
    /// CRC-32/IEEE of the type bytes followed by the data.
    #[verifier::type_invariant]
    spec fn inv(self) -> bool {
        self.length == self.data@.len() && self.crc == crc32_ieee(self.chunk_type@ + self.data@)
    }

    /// The four type-code bytes.
    pub closed spec fn spec_type(self) -> Seq<u8> {
        self.chunk_type@
    }

    /// Every chunk's type code is exactly four bytes long.
    pub broadcast proof fn lemma_type_len(self)
        ensures
            (#[trigger] self.spec_type()).len() == 4,
    {
        ChunkType::lemma_len(self.chunk_type);
    }

    /// The data bytes.
    pub closed spec fn spec_data(self) -> Seq<u8> {
        self.data@
    }

    /// The exact serialized byte form of this chunk.
    pub open spec fn serialized(self) -> Seq<u8> {
        chunk_serial(self.spec_type(), self.spec_data())
    }

    /// Builds a chunk from a type code and a data buffer, computing the CRC
    /// over the type bytes followed by the data.
    pub fn new(chunk_type: ChunkType, data: Vec<u8>) -> (r: Chunk)
        requires
            data@.len() <= u32::MAX,
        ensures
            r.spec_type() == chunk_type@,
            r.spec_data() == data@,
    {
        let mut buf: Vec<u8> = Vec::new();
        let tb = chunk_type.bytes();
        buf.push(tb[0]);
        buf.push(tb[1]);
        buf.push(tb[2]);
        buf.push(tb[3]);
        append_bytes(&mut buf, data.as_slice());
        proof {
            assert(buf@ =~= chunk_type@ + data@);
        }
        let crc = checksum_ieee(&buf);
        let length = data.len() as u32;
        Chunk { length, chunk_type, data, crc }
    }

    /// The byte count of this chunk's data.
    pub fn length(&self) -> (r: u32)
        ensures
            r == self.spec_data().len(),
    {
        proof {
            use_type_invariant(self);
        }
        self.length
    }

    /// The chunk's type code.
    pub fn chunk_type(&self) -> (r: &ChunkType)
        ensures
            r@ == self.spec_type(),
    {
        &self.chunk_type
    }

    /// The chunk's data bytes.
    pub fn data(&self) -> (r: &[u8])
        ensures
            r@ == self.spec_data(),
    {
        self.data.as_slice()
    }

    /// The CRC-32/IEEE of the chunk's type bytes followed by its data.
    pub fn crc(&self) -> (r: u32)
        ensures
            r == crc32_ieee(self.spec_type() + self.spec_data()),
    {
        proof {
            use_type_invariant(self);
        }
        self.crc
    }

    /// The chunk's data decoded as text; fails exactly when the data is not
    /// valid UTF-8.
    pub fn data_as_string(&self) -> (r: Result<String, PngError>)
        ensures
            r is Ok <==> valid_utf8(self.spec_data()),
            r matches Ok(s) ==> s@ == decode_utf8(self.spec_data()),
            r is Err ==> r == Err::<String, PngError>(PngError::InvalidUtf8),
    {
        let copy: Vec<u8> = slice_to_vec(self.data.as_slice());
        match crate::text::utf8_to_string(copy) {
            Some(s) => Ok(s),
            None => Err(PngError::InvalidUtf8),
        }
    }

    /// Serializes the chunk: big-endian length, type bytes, data, big-endian
    /// CRC. The exact inverse of [`Chunk::parse`].
    pub fn as_bytes(&self) -> (r: Vec<u8>)
        ensures
            r@ == self.serialized(),
    {
        proof {
            use_type_invariant(self);
        }
        let mut out: Vec<u8> = Vec::new();
        push_u32_be(&mut out, self.length);
        let tb = self.chunk_type.bytes();
        out.push(tb[0]);
        out.push(tb[1]);
        out.push(tb[2]);
        out.push(tb[3]);
        append_bytes(&mut out, self.data.as_slice());
        push_u32_be(&mut out, self.crc);
        proof {
            assert(out@ =~= self.serialized());
        }
        out
    }

    /// Parses one chunk from the front of `bytes`, ignoring anything after
    /// it: reads the big-endian data length, the type code, the data, and
    /// the stored CRC, then fails with a checksum mismatch unless the CRC
    /// recomputed over type and data equals the stored one, and with a
    /// truncation error when fewer bytes are available than the declared
    /// length plus the framing requires.
    pub fn parse(bytes: &[u8]) -> (r: Result<Chunk, PngError>)
        ensures
            r is Ok <==> chunk_frame_ok(bytes@) && chunk_crc_ok(bytes@),
            r matches Ok(c) ==> c.spec_type() == chunk_type_field(bytes@) && c.spec_data()
                == chunk_data_field(bytes@) && c.serialized() == bytes@.subrange(
                0,
                12 + declared_len(bytes@) as int,
            ),
            !chunk_frame_ok(bytes@) ==> r == Err::<Chunk, PngError>(PngError::TruncatedInput),
            chunk_frame_ok(bytes@) && !chunk_crc_ok(bytes@) ==> r == Err::<Chunk, PngError>(
                PngError::ChecksumMismatch,
            ),
    {
        if bytes.len() < 12 {
            return Err(PngError::TruncatedInput);
        }
        let dlen32 = read_u32_be(bytes, 0);
        let dlen = dlen32 as usize;
        proof {
            assert(declared_len(bytes@) == dlen);
        }
        if bytes.len() - 12 < dlen {
            return Err(PngError::TruncatedInput);
        }
        let chunk_type = ChunkType::from_bytes([bytes[4], bytes[5], bytes[6], bytes[7]]);
        let data: Vec<u8> = slice_to_vec(&bytes[8..8 + dlen]);
        let mut buf: Vec<u8> = Vec::new();
        let tb = chunk_type.bytes();
        buf.push(tb[0]);
        buf.push(tb[1]);
        buf.push(tb[2]);
        buf.push(tb[3]);
        append_bytes(&mut buf, data.as_slice());
        proof {
            assert(chunk_type@ =~= chunk_type_field(bytes@));
            assert(buf@ =~= chunk_type_field(bytes@) + chunk_data_field(bytes@));
        }
        let computed = checksum_ieee(&buf);
        let stored = read_u32_be(bytes, 8 + dlen);
        proof {
            lemma_u32_be_bytes_to(chunk_crc_field(bytes@));
            lemma_u32_be_bytes_of(computed);
            assert(stored == spec_u32_from_be_bytes(chunk_crc_field(bytes@)));
        }
        if computed != stored {
            return Err(PngError::ChecksumMismatch);
        }
        let c = Chunk { length: dlen32, chunk_type, data, crc: computed };
        proof {
            lemma_u32_be_bytes_to(bytes@.subrange(0, 4));
            assert(c.serialized() =~= bytes@.subrange(0, 12 + declared_len(bytes@) as int));
        }
        Ok(c)
    }

    /// The chunk's textual form: its data length, type characters, data byte
    /// count and CRC, each on a line of its own.
    pub fn to_string(&self) -> (r: String)
        requires
            forall|i: int| 0 <= i < 4 ==> #[trigger] self.spec_type()[i] < 128,
        ensures
            r@ == chunk_text(self.spec_type(), self.spec_data()),
    {
        proof {
            use_type_invariant(self);
        }
        let mut s = String::new();
        s.append("Chunk {\n  Length: ");
        let ln = decimal_string(self.length);
        s.append(ln.as_str());
        s.append("\n  Type: ");
        let tn = self.chunk_type.to_string();
        s.append(tn.as_str());
        s.append("\n  Data: ");
        s.append(ln.as_str());
        s.append(" bytes\n  Crc: ");
        let cn = decimal_string(self.crc);
        s.append(cn.as_str());
        s.append("\n}\n");
        proof {
            assert(s@ =~= chunk_text(self.spec_type(), self.spec_data()));
        }
        s
    }
}

/// The textual form of a chunk with type bytes `t` and data `d`.
pub open spec fn chunk_text(t: Seq<u8>, d: Seq<u8>) -> Seq<char> {
    "Chunk {\n  Length: "@ + ascii_chars_of(dec_digits(d.len())) + "\n  Type: "@ + ascii_chars_of(
        t,
    ) + "\n  Data: "@ + ascii_chars_of(dec_digits(d.len())) + " bytes\n  Crc: "@ + ascii_chars_of(
        dec_digits(crc32_ieee(t + d) as nat),
    ) + "\n}\n"@
}

/// Round trip: the serialized form of a chunk with type bytes `t` and data
/// `d` frames correctly, passes the checksum test, and parses back to
/// exactly `t` and `d`.
pub proof fn lemma_chunk_round_trip(t: Seq<u8>, d: Seq<u8>)
    requires
        t.len() == 4,
        d.len() <= u32::MAX,
    ensures
        chunk_serial(t, d).len() == 12 + d.len(),
        declared_len(chunk_serial(t, d)) == d.len(),
        chunk_frame_ok(chunk_serial(t, d)),
        chunk_crc_ok(chunk_serial(t, d)),
        chunk_type_field(chunk_serial(t, d)) == t,
        chunk_data_field(chunk_serial(t, d)) == d,
{
    let b = chunk_serial(t, d);
    assert(b.len() == 12 + d.len());
    assert(b.subrange(0, 4) =~= spec_u32_to_be_bytes(d.len() as u32));
    lemma_u32_be_bytes_of(d.len() as u32);
    assert(declared_len(b) == d.len());
    assert(chunk_type_field(b) =~= t);
    assert(chunk_data_field(b) =~= d);
    assert(chunk_crc_field(b) =~= spec_u32_to_be_bytes(crc32_ieee(t + d)));
}

/// Corrupting any single byte of a serialized chunk's CRC field leaves a
/// buffer that still frames correctly but fails the checksum test, so
/// parsing it reports a checksum mismatch.
pub proof fn lemma_crc_corruption(t: Seq<u8>, d: Seq<u8>, i: int, v: u8)
    requires
        t.len() == 4,
        d.len() <= u32::MAX,
        8 + d.len() <= i < 12 + d.len(),
        v != chunk_serial(t, d)[i],
    ensures
        chunk_frame_ok(chunk_serial(t, d).update(i, v)),
        !chunk_crc_ok(chunk_serial(t, d).update(i, v)),
{
    let b = chunk_serial(t, d);
    let b2 = b.update(i, v);
    lemma_chunk_round_trip(t, d);
    assert(b2.subrange(0, 4) =~= b.subrange(0, 4));
    assert(declared_len(b2) == d.len());
    assert(chunk_frame_ok(b2));
    assert(chunk_type_field(b2) =~= t);
    assert(chunk_data_field(b2) =~= d);
    let k = i - 8 - d.len() as int;
    assert(chunk_crc_field(b2)[k] == v);
    assert(chunk_crc_field(b)[k] == b[i]);
    if chunk_crc_ok(b2) {
        assert(chunk_crc_field(b2) == spec_u32_to_be_bytes(crc32_ieee(t + d)));
        assert(chunk_crc_field(b2)[k] == chunk_crc_field(b)[k]);
        assert(false);
    }
}

} // verus!

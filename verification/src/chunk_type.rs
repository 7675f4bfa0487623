use vstd::prelude::*;

use vstd::utf8::decode_utf8;
use vstd::utf8::encode_utf8_decode_utf8;
use vstd::utf8::is_ascii_chars;
use vstd::utf8::is_ascii_chars_encode_utf8;
use vstd::string::StringSliceAdditionalSpecFns;

use crate::error::PngError;
use crate::text::ascii_bytes_of;
use crate::text::ascii_chars_of;
use crate::text::ascii_to_string;
use crate::text::lemma_ascii_bytes_decode;

verus! {

/// True of a byte the PNG chunk-type grammar accepts: an ASCII letter,
/// `A`-`Z` or `a`-`z`.
pub open spec fn is_letter_byte(b: u8) -> bool {
    (65 <= b <= 90) || (97 <= b <= 122)
}

/// True of a character the chunk-type grammar accepts, the character form of
/// [`is_letter_byte`].
pub open spec fn is_letter_char(c: char) -> bool {
    (65 <= c as u32 <= 90) || (97 <= c as u32 <= 122)
}

/// True of a four-character string that names a chunk type: exactly four
/// ASCII letters.
pub open spec fn is_valid_type_str(s: Seq<char>) -> bool {
    s.len() == 4 && (forall|i: int| 0 <= i < 4 ==> is_letter_char(#[trigger] s[i]))
}

/// A letter character casts to a letter byte and back to itself.
pub proof fn lemma_letter_char_cast(c: char)
    requires
        is_letter_char(c),
    ensures
        (c as u8) as char == c,
        is_letter_byte(c as u8),
        '\0' <= c <= '\u{7f}',
{
}

/// A letter byte casts to a letter character and back to itself.
pub proof fn lemma_letter_byte_cast(b: u8)
    requires
        b < 128,
    ensures
        (b as char) as u8 == b,
        is_letter_byte(b) ==> is_letter_char(b as char),
{
}

/// A four-byte PNG chunk type code. Each byte's bit 5 (0x20) encodes one
/// boolean property of the chunk; the grammar additionally asks each byte to
/// be an ASCII letter, which [`ChunkType::is_valid`] reports. Construction
/// from raw bytes never fails, so type codes read off the wire can be
/// represented even when malformed.
#[derive(Debug, Clone, PartialEq, Eq)]
pub struct ChunkType {
    data: [u8; 4],
}

impl View for ChunkType {
    type V = Seq<u8>;

    closed spec fn view(&self) -> Seq<u8> {
        self.data@
    }
}

impl ChunkType {
    /// A type code's view always holds exactly four bytes.
    pub broadcast proof fn lemma_len(self)
        ensures
            (#[trigger] self@).len() == 4,
    {
    }

    /// Wraps four raw bytes as a type code; always succeeds, whatever the
    /// bytes hold.
    pub fn from_bytes(bytes: [u8; 4]) -> (r: ChunkType)
        ensures
            r@ == bytes@,
    {
        ChunkType { data: bytes }
    }

    /// The raw four-byte type code.
    pub fn bytes(&self) -> (r: [u8; 4])
        ensures
            r@ == self@,
    {
        self.data
    }

    /// Bit 5 of the first byte clear means the chunk is critical.
    pub fn is_critical(&self) -> (r: bool)
        ensures
            r == (self@[0] & 0x20 == 0),
    {
        self.data[0] & 0x20 == 0
    }

    /// Bit 5 of the second byte clear means the chunk is public.
    pub fn is_public(&self) -> (r: bool)
        ensures
            r == (self@[1] & 0x20 == 0),
    {
        self.data[1] & 0x20 == 0
    }

    /// Bit 5 of the third byte is reserved and must be clear in a conforming
    /// type code.
    pub fn is_reserved_bit_valid(&self) -> (r: bool)
        ensures
            r == (self@[2] & 0x20 == 0),
    {
        self.data[2] & 0x20 == 0
    }

    /// Bit 5 of the fourth byte set means the chunk is safe to copy.
    pub fn is_safe_to_copy(&self) -> (r: bool)
        ensures
            r == (self@[3] & 0x20 != 0),
    {
        self.data[3] & 0x20 != 0
    }

    /// True when the reserved bit is clear and all four bytes are ASCII
    /// letters.
    pub fn is_valid(&self) -> (r: bool)
        ensures
            r == (self@[2] & 0x20 == 0 && (forall|i: int|
                0 <= i < 4 ==> is_letter_byte(#[trigger] self@[i]))),
    {
        if !self.is_reserved_bit_valid() {
            return false;
        }
        let r = ChunkType::is_valid_byte(self.data[0]) && ChunkType::is_valid_byte(self.data[1])
            && ChunkType::is_valid_byte(self.data[2]) && ChunkType::is_valid_byte(self.data[3]);
        proof {
            if r {
                assert forall|i: int| 0 <= i < 4 implies is_letter_byte(#[trigger] self@[i]) by {
                    assert(self@[0] == self.data@[0]);
                }
            }
        }
        r
    }

    /// True when the two type codes hold the same four bytes.
    pub fn same_as(&self, other: &ChunkType) -> (r: bool)
        ensures
            r == (self@ == other@),
    {
        let r = self.data[0] == other.data[0] && self.data[1] == other.data[1] && self.data[2]
            == other.data[2] && self.data[3] == other.data[3];
        proof {
            if r {
                assert(self@ =~= other@);
            }
        }
        r
    }

    /// True of a byte the chunk-type grammar accepts: `A`-`Z` or `a`-`z`.
    pub fn is_valid_byte(byte: u8) -> (r: bool)
        ensures
            r == is_letter_byte(byte),
    {
        (65 <= byte && byte <= 90) || (97 <= byte && byte <= 122)
    }

    /// Parses a type code from a string; fails unless the string is exactly
    /// four ASCII letters.
    pub fn from_string(s: &str) -> (r: Result<ChunkType, PngError>)
        ensures
            r is Ok <==> is_valid_type_str(s@),
            r matches Ok(ct) ==> ct@ == ascii_bytes_of(s@),
            r is Err ==> r == Err::<ChunkType, PngError>(PngError::InvalidChunkType),
    {
        let bs = s.as_bytes();
        proof {
            if is_valid_type_str(s@) {
                assert(is_ascii_chars(s@)) by {
                    assert forall|i| 0 <= i < s@.len() implies '\0' <= #[trigger] s@[i]
                        <= '\u{7f}' by {
                        lemma_letter_char_cast(s@[i]);
                    }
                }
                is_ascii_chars_encode_utf8(s@);
                assert(bs@.len() == 4);
                assert forall|i: int| 0 <= i < 4 implies is_letter_byte(#[trigger] bs@[i]) by {
                    assert(bs@[i] == s@[i] as u8);
                    lemma_letter_char_cast(s@[i]);
                }
            }
        }
        if bs.len() != 4 {
            return Err(PngError::InvalidChunkType);
        }
        let b0 = bs[0];
        let b1 = bs[1];
        let b2 = bs[2];
        let b3 = bs[3];
        if !(ChunkType::is_valid_byte(b0) && ChunkType::is_valid_byte(b1)
            && ChunkType::is_valid_byte(b2) && ChunkType::is_valid_byte(b3)) {
            return Err(PngError::InvalidChunkType);
        }
        proof {
            assert forall|i: int| 0 <= i < 4 implies #[trigger] bs@[i] < 128 by {
                if i == 0 {
                } else if i == 1 {
                } else if i == 2 {
                } else {
                    assert(bs@[3] == b3);
                }
            }
            lemma_ascii_bytes_decode(bs@);
            encode_utf8_decode_utf8(s@);
            assert(s@ == ascii_chars_of(bs@));
            assert(is_valid_type_str(s@)) by {
                assert forall|i: int| 0 <= i < 4 implies is_letter_char(#[trigger] s@[i]) by {
                    assert(s@[i] == bs@[i] as char);
                    lemma_letter_byte_cast(bs@[i]);
                }
            }
            assert(ascii_bytes_of(s@) =~= bs@) by {
                assert forall|i: int| 0 <= i < 4 implies ascii_bytes_of(s@)[i] == bs@[i] by {
                    assert(s@[i] == bs@[i] as char);
                    lemma_letter_byte_cast(bs@[i]);
                }
            }
        }
        let ct = ChunkType { data: [b0, b1, b2, b3] };
        proof {
            assert(ct@ =~= bs@);
        }
        Ok(ct)
    }

    /// Renders the four type bytes as their ASCII characters.
    pub fn to_string(&self) -> (r: String)
        requires
            forall|i: int| 0 <= i < 4 ==> #[trigger] self@[i] < 128,
        ensures
            r@ == ascii_chars_of(self@),
    {
        let mut v: Vec<u8> = Vec::new();
        v.push(self.data[0]);
        v.push(self.data[1]);
        v.push(self.data[2]);
        v.push(self.data[3]);
        proof {
            assert(v@ =~= self@);
        }
        ascii_to_string(v)
    }
}

/// A chunk type built from a string of four ASCII letters renders back to
/// exactly that string: reading the characters as bytes and the bytes as
/// characters returns the original character sequence.
pub proof fn lemma_type_string_round_trip(s: Seq<char>)
    requires
        is_valid_type_str(s),
    ensures
        ascii_chars_of(ascii_bytes_of(s)) == s,
{
    assert forall|i: int| 0 <= i < 4 implies ascii_chars_of(ascii_bytes_of(s))[i] == s[i] by {
        assert(is_letter_char(s[i]));
        lemma_letter_char_cast(s[i]);
        assert(ascii_bytes_of(s)[i] == s[i] as u8);
    }
    assert(ascii_chars_of(ascii_bytes_of(s)) =~= s);
}

} // verus!

use vstd::prelude::*;

use vstd::utf8::valid_utf8;
use vstd::utf8::decode_utf8;
use vstd::utf8::is_leading_byte_width_1;
use vstd::utf8::valid_first_scalar;
use vstd::utf8::decode_first_scalar;
use vstd::utf8::pop_first_scalar;
use vstd::utf8::char_u32_cast;

verus! {

/// Relies on `String::from_utf8`: it returns the decoded text exactly when
/// the bytes are a valid UTF-8 encoding; the error case is mapped to `None`.
#[verifier::external_body]
pub(crate) fn utf8_to_string(bytes: Vec<u8>) -> (r: Option<String>)
    ensures
        r is Some <==> valid_utf8(bytes@),
        r matches Some(s) ==> s@ == decode_utf8(bytes@),
{
    String::from_utf8(bytes).ok()
}

/// The characters a sequence of ASCII bytes stands for, one per byte.
pub open spec fn ascii_chars_of(bytes: Seq<u8>) -> Seq<char> {
    bytes.map(|i: int, b: u8| b as char)
}

/// The bytes a sequence of ASCII characters stands for, one per character.
pub open spec fn ascii_bytes_of(chars: Seq<char>) -> Seq<u8> {
    chars.map(|i: int, c: char| c as u8)
}

/// Bytes below 128 are the one-byte UTF-8 encodings of their own character
/// values.
pub proof fn lemma_ascii_bytes_decode(bytes: Seq<u8>)
    requires
        forall|i: int| 0 <= i < bytes.len() ==> #[trigger] bytes[i] < 128,
    ensures
        valid_utf8(bytes),
        decode_utf8(bytes) == ascii_chars_of(bytes),
    decreases bytes.len(),
{
    if bytes.len() == 0 {
        assert(decode_utf8(bytes) =~= ascii_chars_of(bytes));
    } else {
        let b0 = bytes[0];
        assert(is_leading_byte_width_1(b0));
        assert((b0 & 0x7F) == b0) by (bit_vector)
            requires
                b0 < 128,
        ;
        assert(valid_first_scalar(bytes));
        let rest = pop_first_scalar(bytes);
        assert(rest =~= bytes.subrange(1, bytes.len() as int));
        lemma_ascii_bytes_decode(rest);
        assert(decode_first_scalar(bytes) == b0 as u32);
        char_u32_cast(b0 as char, b0 as u32);
        assert(decode_utf8(bytes) =~= ascii_chars_of(bytes));
    }
}

/// Builds the string whose characters are the given ASCII bytes, one
/// character per byte.
pub(crate) fn ascii_to_string(bytes: Vec<u8>) -> (r: String)
    requires
        forall|i: int| 0 <= i < bytes@.len() ==> #[trigger] bytes@[i] < 128,
    ensures
        r@ == ascii_chars_of(bytes@),
{
    proof {
        lemma_ascii_bytes_decode(bytes@);
    }
    match utf8_to_string(bytes) {
        Some(s) => s,
        None => {
            proof {
                assert(false);
            }
            String::new()
        },
    }
}

/// The decimal digits of `n`, most significant first, as ASCII bytes.
pub open spec fn dec_digits(n: nat) -> Seq<u8>
    decreases n,
{
    if n < 10 {
        seq![(48 + n) as u8]
    } else {
        dec_digits(n / 10).push((48 + n % 10) as u8)
    }
}

/// Every byte of a decimal rendering is an ASCII digit.
pub proof fn lemma_dec_digits_ascii(n: nat)
    ensures
        forall|i: int| 0 <= i < dec_digits(n).len() ==> 48 <= #[trigger] dec_digits(n)[i] < 58,
    decreases n,
{
    if n >= 10 {
        lemma_dec_digits_ascii(n / 10);
        let s = dec_digits(n / 10);
        assert forall|i: int| 0 <= i < dec_digits(n).len() implies 48 <= #[trigger] dec_digits(
            n,
        )[i] < 58 by {
            if i < s.len() {
                assert(dec_digits(n)[i] == s[i]);
            } else {
                assert(dec_digits(n)[i] == (48 + n % 10) as u8);
            }
        }
    }
}

/// The decimal digits of `n`, most significant first, as ASCII bytes.
pub(crate) fn decimal_bytes(n: u32) -> (r: Vec<u8>)
    ensures
        r@ == dec_digits(n as nat),
    decreases n,
{
    if n < 10 {
        let mut v: Vec<u8> = Vec::new();
        v.push(48 + (n as u8));
        proof {
            assert(v@ =~= dec_digits(n as nat));
        }
        v
    } else {
        let mut v = decimal_bytes(n / 10);
        v.push(48 + ((n % 10) as u8));
        v
    }
}

/// Renders `n` in decimal, most significant digit first.
pub(crate) fn decimal_string(n: u32) -> (r: String)
    ensures
        r@ == ascii_chars_of(dec_digits(n as nat)),
{
    let v = decimal_bytes(n);
    proof {
        lemma_dec_digits_ascii(n as nat);
    }
    ascii_to_string(v)
}

} // verus!

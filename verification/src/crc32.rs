use vstd::prelude::*;

verus! {

/// The CRC-32/IEEE checksum of a byte sequence, as the `crc` crate computes
/// it. The algorithm is a function of the bytes alone, so the value is left
/// abstract here and every use goes through [`checksum_ieee`].
pub uninterp spec fn crc32_ieee(bytes: Seq<u8>) -> u32;

/// Relies on `crc::crc32::checksum_ieee`: the CRC-32/IEEE checksum of the
/// bytes, a pure function of the bytes alone.
#[verifier::external_body]
pub(crate) fn checksum_ieee(bytes: &Vec<u8>) -> (r: u32)
    ensures
        r == crc32_ieee(bytes@),
{
    crc::crc32::checksum_ieee(bytes.as_slice())
}

} // verus!

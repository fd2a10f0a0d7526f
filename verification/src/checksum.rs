use vstd::prelude::*;

verus! {

/// The CRC-32/IEEE checksum of a byte sequence.
pub uninterp spec fn crc32_ieee(bytes: Seq<u8>) -> u32;

/// Calls `crc::crc32::checksum_ieee`. Believed, not proved: the call returns
/// the CRC-32/IEEE checksum of exactly the bytes it is given, which depends on
/// those bytes alone.
#[verifier::external_body]
pub(crate) fn checksum(bytes: &[u8]) -> (r: u32)
    ensures
        r == crc32_ieee(bytes@),
{
    crc::crc32::checksum_ieee(bytes)
}

} // verus!

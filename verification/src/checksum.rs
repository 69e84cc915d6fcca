//! The CRC-32 checksum that seals a chunk.

use vstd::prelude::*;

verus! {

/// The CRC-32/ISO-HDLC checksum of a byte sequence (reflected polynomial
/// `0xEDB88320`, initial value and final xor `0xFFFFFFFF`).
pub uninterp spec fn crc32_iso_hdlc(bytes: Seq<u8>) -> u32;

/// `Crc::<u32>::checksum` of the `crc` crate, with the algorithm
/// `CRC_32_ISO_HDLC`. The checksum depends on the bytes alone; the contract
/// gives it its name and claims nothing else about it.
#[verifier::external_body]
pub(crate) fn checksum(bytes: &[u8]) -> (sum: u32)
    ensures
        sum == crc32_iso_hdlc(bytes@),
{
    crc::Crc::<u32>::new(&crc::CRC_32_ISO_HDLC).checksum(bytes)
}

} // verus!

//! Checksums computed by the `crc` crate.
use vstd::prelude::*;
use crate::bytes::be16;

verus! {

/// CRC-16/XMODEM of a byte sequence, as the `crc` crate computes it
/// (`Crc::<u16>::new(&CRC_16_XMODEM).checksum`).
pub uninterp spec fn crc16_xmodem(bytes: Seq<u8>) -> u16;

/// CRC-32/CKSUM of a byte sequence, as the `crc` crate computes it
/// (`Crc::<u32>::new(&CRC_32_CKSUM).checksum`).
pub uninterp spec fn crc32_cksum(bytes: Seq<u8>) -> u32;

/// Calls `crc::Crc::<u16>::checksum` with the CRC-16/XMODEM parameters. The contract
/// claims that the result is a function of the bytes, named `crc16_xmodem`, and that the
/// bytes followed by it (high byte first) check to zero: the catalogue gives this
/// algorithm a residue of 0 with no reflection and no final xor.
#[verifier::external_body]
pub(crate) fn crc16(bytes: &[u8]) -> (sum: u16)
    ensures
        sum == crc16_xmodem(bytes@),
        crc16_xmodem(bytes@ + be16(sum)) == 0,
{
    crc::Crc::<u16>::new(&crc::CRC_16_XMODEM).checksum(bytes)
}

/// Calls `crc::Crc::<u32>::checksum` with the CRC-32/CKSUM parameters. The contract
/// claims only that the result is a function of the bytes, named `crc32_cksum`.
#[verifier::external_body]
pub(crate) fn crc32_cksum_of(bytes: &[u8]) -> (sum: u32)
    ensures
        sum == crc32_cksum(bytes@),
{
    crc::Crc::<u32>::new(&crc::CRC_32_CKSUM).checksum(bytes)
}

/// The CRC-32 that program uploads carry: polynomial 0x04C11DB7, initial value 0,
/// no reflection and no final xor. It is CRC-32/CKSUM with its final inversion undone.
pub fn upload_crc32(bytes: &[u8]) -> (sum: u32)
    ensures
        sum == crc32_cksum(bytes@) ^ 0xFFFF_FFFFu32,
{
    crc32_cksum_of(bytes) ^ 0xFFFF_FFFF
}

} // verus!

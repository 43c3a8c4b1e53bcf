//! CRC-8/DVB-S2, the frame check of the protocol.
//!
//! The checksum covers the type byte and the payload of a frame. The value is
//! computed by the `crc` crate; its meaning is the bitwise definition below
//! (polynomial 0xD5, initial value 0, no reflection, no final xor).
use vstd::prelude::*;

verus! {

/// One shift of the CRC register: shift left, and fold in the polynomial
/// when the bit that leaves the register was set.
pub open spec fn crc8_shift(c: u8) -> u8 {
    if c & 0x80u8 != 0 {
        (c << 1u8) ^ 0xD5u8
    } else {
        c << 1u8
    }
}

/// The register after one byte has been fed in.
pub open spec fn crc8_step(crc: u8, byte: u8) -> u8 {
    crc8_shift(crc8_shift(crc8_shift(crc8_shift(crc8_shift(crc8_shift(crc8_shift(crc8_shift(
        crc ^ byte,
    ))))))))
}

/// CRC-8/DVB-S2 of a byte sequence, fed from the first byte to the last.
pub open spec fn crc8_dvb_s2(bytes: Seq<u8>) -> u8
    decreases bytes.len(),
{
    if bytes.len() == 0 {
        0
    } else {
        crc8_step(crc8_dvb_s2(bytes.drop_last()), bytes.last())
    }
}

/// Checksum of `bytes` by `crc::Crc::<u8>::checksum` with the catalogue's
/// `CRC_8_DVB_S2` algorithm (poly 0xd5, init 0, refin/refout false, xorout 0).
/// Trusted: the result is the bitwise CRC that [`crc8_dvb_s2`] defines.
#[verifier::external_body]
pub(crate) fn crc8_checksum(bytes: &[u8]) -> (r: u8)
    ensures
        r == crc8_dvb_s2(bytes@),
{
    crc::Crc::<u8>::new(&crc::CRC_8_DVB_S2).checksum(bytes)
}

} // verus!

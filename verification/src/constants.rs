//! Framing limits of the Crossfire serial protocol.
use vstd::prelude::*;

verus! {

/// Largest frame, framing included: address, length, type, payload, CRC.
pub const CRSF_MAX_PACKET_SIZE: usize = 64;

/// Smallest frame, framing included: address, length, type and CRC with an
/// empty payload.
pub const CRSF_MIN_PACKET_SIZE: usize = 4;

/// The flight controller address, which most frames on the wire start with.
pub const CRSF_SYNC_BYTE: u8 = 0xC8;

} // verus!

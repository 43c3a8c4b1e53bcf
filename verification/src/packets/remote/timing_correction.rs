//! Timing correction, the sub-packet 0x10 of the remote frame.
use vstd::prelude::*;

use crate::packets::remote::RemotePacket;
use crate::packets::wire::{be32, be32_at, get_be32, lemma_be32_round_trip, lemma_i32_cast, put_be32, splice};
use crate::CrsfParsingError;

verus! {

/// Timing correction ("RC sync"): lets a handset align its packet timing
/// with the radio module's.
#[derive(Clone, Debug, PartialEq, Eq, Structural)]
pub struct TimingCorrection {
    /// Packet interval in 100 ns units.
    pub update_interval: u32,
    /// Offset in 100 ns units; positive when data came too early.
    pub offset: i32,
}

impl TimingCorrection {
    /// A timing correction sub-packet.
    pub fn new(update_interval: u32, offset: i32) -> (r: Self)
        ensures
            r == (TimingCorrection { update_interval, offset }),
    {
        Self { update_interval, offset }
    }
}

impl RemotePacket for TimingCorrection {
    const SUB_TYPE: u8 = 0x10;
    const MIN_PAYLOAD_SIZE: usize = 8;

    open spec fn spec_to_bytes(&self) -> Seq<u8> {
        be32(self.update_interval) + be32(self.offset as u32)
    }

    /// The interval and the offset, big-endian; bytes after them are ignored.
    open spec fn spec_from_bytes(data: Seq<u8>) -> Result<Self, CrsfParsingError> {
        if data.len() < 8 {
            Err(CrsfParsingError::InvalidPayloadLength)
        } else {
            Ok(TimingCorrection { update_interval: be32_at(data, 0), offset: be32_at(data, 4) as i32 })
        }
    }

    fn to_bytes(&self, buffer: &mut [u8]) -> (r: Result<usize, CrsfParsingError>)
        ensures
            r is Err ==> final(buffer)@ == old(buffer)@,
    {
        self.validate_buffer_size(buffer)?;
        put_be32(buffer, 0, self.update_interval);
        put_be32(buffer, 4, self.offset as u32);
        assert(buffer@ =~= splice(old(buffer)@, 0, self.spec_to_bytes()));
        Ok(Self::MIN_PAYLOAD_SIZE)
    }

    fn from_bytes(data: &[u8]) -> (r: Result<Self, CrsfParsingError>) {
        if data.len() < Self::MIN_PAYLOAD_SIZE {
            return Err(CrsfParsingError::InvalidPayloadLength);
        }
        let update_interval = get_be32(data, 0);
        let offset = get_be32(data, 4) as i32;
        Ok(Self { update_interval, offset })
    }
}

/// The sub-type byte and the payload size of a timing correction.
pub proof fn lemma_timing_correction_constants()
    ensures
        TimingCorrection::SUB_TYPE == 0x10,
        TimingCorrection::MIN_PAYLOAD_SIZE == 8,
{
}

/// Decoding the bytes of a timing correction gives it back.
pub proof fn lemma_timing_correction_round_trip(p: TimingCorrection)
    ensures
        TimingCorrection::spec_from_bytes(p.spec_to_bytes()) == Ok::<TimingCorrection, CrsfParsingError>(p),
{
    lemma_be32_round_trip(p.update_interval);
    lemma_be32_round_trip(p.offset as u32);
    lemma_i32_cast(p.offset);
    let b = p.spec_to_bytes();
    let u = be32(p.update_interval);
    let o = be32(p.offset as u32);
    assert(b[0] == u[0] && b[1] == u[1] && b[2] == u[2] && b[3] == u[3]);
    assert(b[4] == o[0] && b[5] == o[1] && b[6] == o[2] && b[7] == o[3]);
}

/// The timing correction layout, big-endian: the update interval in bytes
/// 0 to 3, then the offset in bytes 4 to 7 (two's complement). Every
/// sub-packet of at least 8 bytes is read that way, and one is written that
/// way.
pub proof fn lemma_timing_correction_layout(d: Seq<u8>, t: TimingCorrection)
    ensures
        d.len() >= 8 ==> (TimingCorrection::spec_from_bytes(d) matches Ok(v) && v.update_interval == d[0]
            * 0x1000000 + d[1] * 0x10000 + d[2] * 0x100 + d[3] && v.offset as u32 == d[4] * 0x1000000 + d[5]
            * 0x10000 + d[6] * 0x100 + d[7]),
        d.len() < 8 ==> TimingCorrection::spec_from_bytes(d) is Err,
        ({
            let w = t.spec_to_bytes();
            &&& w.len() == 8
            &&& w[0] * 0x1000000 + w[1] * 0x10000 + w[2] * 0x100 + w[3] == t.update_interval
            &&& w[4] * 0x1000000 + w[5] * 0x10000 + w[6] * 0x100 + w[7] == t.offset as u32
        }),
{
    if d.len() >= 8 {
        crate::packets::wire::lemma_be32_at_value(d, 0);
        crate::packets::wire::lemma_be32_at_value(d, 4);
        crate::packets::wire::lemma_u32_bits(be32_at(d, 4));
    }
    let a = be32(t.update_interval);
    let b = be32(t.offset as u32);
    crate::packets::wire::lemma_be32_bytes(t.update_interval);
    crate::packets::wire::lemma_be32_bytes(t.offset as u32);
    let w = t.spec_to_bytes();
    assert(w[0] == a[0] && w[1] == a[1] && w[2] == a[2] && w[3] == a[3]);
    assert(w[4] == b[0] && w[5] == b[1] && w[6] == b[2] && w[7] == b[3]);
}

} // verus!

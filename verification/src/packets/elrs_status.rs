//! ExpressLRS link status (frame type 0x2E).
use vstd::prelude::*;

use crate::packets::wire::{be16, be16_at, get_be16, lemma_be16_round_trip, put_be16, splice};
use crate::packets::{CrsfPacket, PacketType};
use crate::CrsfParsingError;

verus! {

/// Good and bad packet counts of the radio link, with status flags.
#[derive(Clone, Debug, PartialEq, Eq, Structural)]
pub struct ElrsStatus {
    /// Good packet count.
    pub good_packets: u16,
    /// Bad packet count.
    pub bad_packets: u16,
    /// Status flags.
    pub flags: u8,
}

impl ElrsStatus {
    /// A status packet; never fails.
    pub fn new(good_packets: u16, bad_packets: u16, flags: u8) -> (r: Result<Self, CrsfParsingError>)
        ensures
            r == Ok::<Self, CrsfParsingError>(ElrsStatus { good_packets, bad_packets, flags }),
    {
        Ok(Self { good_packets, bad_packets, flags })
    }
}

impl View for ElrsStatus {
    type V = ElrsStatus;

    open spec fn view(&self) -> ElrsStatus {
        *self
    }
}

impl CrsfPacket for ElrsStatus {
    const PACKET_TYPE: PacketType = PacketType::ElrsStatus;
    const MIN_PAYLOAD_SIZE: usize = 5;

    open spec fn spec_to_bytes(&self) -> Seq<u8> {
        be16(self.good_packets) + be16(self.bad_packets) + seq![self.flags]
    }

    /// Two big-endian counts and the flags byte; bytes after them are ignored.
    open spec fn spec_from_bytes(data: Seq<u8>) -> Result<Self, CrsfParsingError> {
        if data.len() < 5 {
            Err(CrsfParsingError::InvalidPayloadLength)
        } else {
            Ok(ElrsStatus { good_packets: be16_at(data, 0), bad_packets: be16_at(data, 2), flags: data[4] })
        }
    }

    open spec fn payload_readable(data: Seq<u8>) -> bool {
        true
    }

    fn to_bytes(&self, buffer: &mut [u8]) -> (r: Result<usize, CrsfParsingError>)
        ensures
            r is Err ==> final(buffer)@ == old(buffer)@,
    {
        self.validate_buffer_size(buffer)?;
        put_be16(buffer, 0, self.good_packets);
        put_be16(buffer, 2, self.bad_packets);
        buffer[4] = self.flags;
        assert(buffer@ =~= splice(old(buffer)@, 0, self.spec_to_bytes()));
        Ok(Self::MIN_PAYLOAD_SIZE)
    }

    fn from_bytes(data: &[u8]) -> (r: Result<Self, CrsfParsingError>) {
        if data.len() < Self::MIN_PAYLOAD_SIZE {
            return Err(CrsfParsingError::InvalidPayloadLength);
        }
        let good_packets = get_be16(data, 0);
        let bad_packets = get_be16(data, 2);
        let flags = data[4];
        Ok(Self { good_packets, bad_packets, flags })
    }
}

/// Decoding the bytes of a status packet gives the packet back.
pub proof fn lemma_elrs_status_round_trip(p: ElrsStatus)
    ensures
        ElrsStatus::spec_from_bytes(p.spec_to_bytes()) == Ok::<ElrsStatus, CrsfParsingError>(p),
{
    lemma_be16_round_trip(p.good_packets);
    lemma_be16_round_trip(p.bad_packets);
    let b = p.spec_to_bytes();
    assert(b[0] == be16(p.good_packets)[0] && b[1] == be16(p.good_packets)[1]);
    assert(b[2] == be16(p.bad_packets)[0] && b[3] == be16(p.bad_packets)[1]);
}

/// ELRS status travels as frame type 0x2E.
pub proof fn lemma_elrs_status_packet_type()
    ensures
        ElrsStatus::PACKET_TYPE == PacketType::ElrsStatus,
{
}

/// The ELRS status payload layout, big-endian: good packets in bytes 0 and
/// 1, bad packets in bytes 2 and 3, and the flags in byte 4. Every payload
/// of at least 5 bytes is read that way, and a packet is written that way.
pub proof fn lemma_elrs_status_layout(d: Seq<u8>, p: ElrsStatus)
    ensures
        d.len() >= 5 ==> (ElrsStatus::spec_from_bytes(d) matches Ok(v) && v.good_packets == d[0] * 0x100 + d[1]
            && v.bad_packets == d[2] * 0x100 + d[3] && v.flags == d[4]),
        d.len() < 5 ==> ElrsStatus::spec_from_bytes(d) is Err,
        ({
            let w = p.spec_to_bytes();
            &&& w.len() == 5
            &&& w[0] * 0x100 + w[1] == p.good_packets
            &&& w[2] * 0x100 + w[3] == p.bad_packets
            &&& w[4] == p.flags
        }),
{
    if d.len() >= 5 {
        crate::packets::wire::lemma_be16_at_value(d, 0);
        crate::packets::wire::lemma_be16_at_value(d, 2);
    }
    let a = be16(p.good_packets);
    let b = be16(p.bad_packets);
    crate::packets::wire::lemma_be16_bytes(p.good_packets);
    crate::packets::wire::lemma_be16_bytes(p.bad_packets);
    let w = p.spec_to_bytes();
    assert(w =~= a + b + seq![p.flags]);
    assert(w[0] == a[0] && w[1] == a[1] && w[2] == b[0] && w[3] == b[1]);
}

} // verus!

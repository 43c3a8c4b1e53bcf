//! Device discovery request (frame type 0x28).
use vstd::prelude::*;

use crate::packets::wire::splice;
use crate::packets::{CrsfPacket, PacketType};
use crate::CrsfParsingError;

verus! {

/// Asks the devices on the bus (or one of them) to identify themselves.
#[derive(Clone, Debug, PartialEq, Eq, Structural)]
pub struct DevicePing {
    /// The device asked; 0x00 asks every device.
    pub dst_addr: u8,
    /// The device asking.
    pub src_addr: u8,
}

impl DevicePing {
    /// A ping from `src_addr` to `dst_addr`; never fails.
    pub fn new(dst_addr: u8, src_addr: u8) -> (r: Result<Self, CrsfParsingError>)
        ensures
            r == Ok::<Self, CrsfParsingError>(DevicePing { dst_addr, src_addr }),
    {
        Ok(Self { dst_addr, src_addr })
    }
}

impl View for DevicePing {
    type V = DevicePing;

    open spec fn view(&self) -> DevicePing {
        *self
    }
}

impl CrsfPacket for DevicePing {
    const PACKET_TYPE: PacketType = PacketType::DevicePing;
    const MIN_PAYLOAD_SIZE: usize = 2;

    open spec fn spec_to_bytes(&self) -> Seq<u8> {
        seq![self.dst_addr, self.src_addr]
    }

    /// The two address bytes; bytes after them are ignored.
    open spec fn spec_from_bytes(data: Seq<u8>) -> Result<Self, CrsfParsingError> {
        Ok(DevicePing { dst_addr: data[0], src_addr: data[1] })
    }

    /// A ping payload must hold its two address bytes.
    open spec fn payload_readable(data: Seq<u8>) -> bool {
        data.len() >= 2
    }

    fn to_bytes(&self, buffer: &mut [u8]) -> (r: Result<usize, CrsfParsingError>)
        ensures
            r is Err ==> final(buffer)@ == old(buffer)@,
    {
        self.validate_buffer_size(buffer)?;
        buffer[0] = self.dst_addr;
        buffer[1] = self.src_addr;
        assert(buffer@ =~= splice(old(buffer)@, 0, self.spec_to_bytes()));
        Ok(Self::MIN_PAYLOAD_SIZE)
    }

    fn from_bytes(data: &[u8]) -> (r: Result<Self, CrsfParsingError>) {
        Ok(Self { dst_addr: data[0], src_addr: data[1] })
    }
}

/// A ping travels as frame type 0x28.
pub proof fn lemma_device_ping_constants()
    ensures
        DevicePing::PACKET_TYPE == PacketType::DevicePing,
{
}

/// Decoding the bytes of a ping gives the ping back.
pub proof fn lemma_device_ping_round_trip(p: DevicePing)
    ensures
        DevicePing::payload_readable(p.spec_to_bytes()),
        DevicePing::spec_from_bytes(p.spec_to_bytes()) == Ok::<DevicePing, CrsfParsingError>(p),
{
}

/// The ping layout: destination, then origin. Every payload of at least 2
/// bytes is read that way, and a ping is written that way.
pub proof fn lemma_device_ping_layout(d: Seq<u8>, p: DevicePing)
    ensures
        d.len() >= 2 ==> DevicePing::spec_from_bytes(d) == Ok::<DevicePing, CrsfParsingError>(
            DevicePing { dst_addr: d[0], src_addr: d[1] },
        ),
        p.spec_to_bytes() == seq![p.dst_addr, p.src_addr],
{
}

} // verus!

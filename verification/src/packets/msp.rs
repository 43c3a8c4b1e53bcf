//! MSP (MultiWii Serial Protocol) frames carried over CRSF (frame types 0x7A
//! and 0x7B).
use vstd::prelude::*;

use crate::fixed::{bytes57, bytes57_as_slice, bytes57_from_slice};
use crate::packets::wire::{put_bytes, splice};
use crate::packets::{CrsfPacket, PacketType};
use crate::CrsfParsingError;

verus! {

/// An MSP frame: extended header, MSP status byte and up to 57 body bytes.
#[derive(Clone, Debug, PartialEq, Eq)]
pub struct MspPacket {
    /// Destination device address.
    pub dst_addr: u8,
    /// Origin device address.
    pub src_addr: u8,
    /// MSP status: bits 0-3 the sequence number, bit 4 the start of a new
    /// frame, bits 5-6 the MSP version, bit 7 the error flag of a response.
    pub status: u8,
    /// The MSP body, at most 57 bytes.
    pub body: heapless::Vec<u8, 57>,
}

/// An MSP frame as the contracts see it: the body by its bytes.
pub ghost struct MspPacketView {
    pub dst_addr: u8,
    pub src_addr: u8,
    pub status: u8,
    pub body: Seq<u8>,
}

impl View for MspPacket {
    type V = MspPacketView;

    open spec fn view(&self) -> MspPacketView {
        MspPacketView {
            dst_addr: self.dst_addr,
            src_addr: self.src_addr,
            status: self.status,
            body: bytes57(self.body),
        }
    }
}

impl MspPacket {
    /// An MSP frame carrying `body`; `InvalidPayloadLength` when `body` has
    /// more than 57 bytes.
    pub fn new(dst_addr: u8, src_addr: u8, status: u8, body: &[u8]) -> (r: Result<Self, CrsfParsingError>)
        ensures
            r is Ok <==> body@.len() <= 57,
            r matches Ok(p) ==> p@ == (MspPacketView { dst_addr, src_addr, status, body: body@ }),
            r matches Err(e) ==> e == CrsfParsingError::InvalidPayloadLength,
    {
        if body.len() > 57 {
            return Err(CrsfParsingError::InvalidPayloadLength);
        }
        match bytes57_from_slice(body) {
            Some(b) => Ok(Self { dst_addr, src_addr, status, body: b }),
            None => Err(CrsfParsingError::InvalidPayloadLength),
        }
    }

    /// The sequence number: bits 0-3 of the status.
    pub fn sequence(&self) -> (r: u8)
        ensures
            r == self.status % 16,
    {
        let s = self.status;
        let r = s & 0x0F;
        assert(s & 0x0F == s % 16) by (bit_vector);
        r
    }

    /// Whether the frame starts a new MSP message: bit 4 of the status.
    pub fn is_start(&self) -> (r: bool)
        ensures
            r == (self.status / 16 % 2 == 1),
    {
        let s = self.status;
        let r = (s & 0x10) != 0;
        assert((s & 0x10 != 0) == (s / 16 % 2 == 1)) by (bit_vector);
        r
    }

    /// The MSP version: bits 5-6 of the status.
    pub fn version(&self) -> (r: u8)
        ensures
            r == self.status / 32 % 4,
    {
        let s = self.status;
        let r = (s >> 5) & 0x03;
        assert((s >> 5) & 0x03 == s / 32 % 4) by (bit_vector);
        r
    }

    /// Whether the error flag of a response is set: bit 7 of the status.
    pub fn is_error(&self) -> (r: bool)
        ensures
            r == (self.status >= 128),
    {
        let s = self.status;
        let r = (s & 0x80) != 0;
        assert((s & 0x80 != 0) == (s >= 128)) by (bit_vector);
        r
    }
}

impl CrsfPacket for MspPacket {
    const PACKET_TYPE: PacketType = PacketType::MspRequest;
    const MIN_PAYLOAD_SIZE: usize = 3;

    open spec fn spec_to_bytes(&self) -> Seq<u8> {
        seq![self.dst_addr, self.src_addr, self.status] + bytes57(self.body)
    }

    /// Three header bytes and at most 57 body bytes.
    open spec fn spec_from_bytes(data: Seq<u8>) -> Result<MspPacketView, CrsfParsingError> {
        if data.len() < 3 || data.len() - 3 > 57 {
            Err(CrsfParsingError::InvalidPayloadLength)
        } else {
            Ok(MspPacketView { dst_addr: data[0], src_addr: data[1], status: data[2], body: data.skip(3) })
        }
    }

    open spec fn payload_readable(data: Seq<u8>) -> bool {
        true
    }

    fn to_bytes(&self, buffer: &mut [u8]) -> (r: Result<usize, CrsfParsingError>)
        ensures
            r is Err ==> final(buffer)@ == old(buffer)@,
    {
        let body = bytes57_as_slice(&self.body);
        let total_size = 3 + body.len();
        if buffer.len() < total_size {
            return Err(CrsfParsingError::BufferOverflow);
        }
        buffer[0] = self.dst_addr;
        buffer[1] = self.src_addr;
        buffer[2] = self.status;
        put_bytes(buffer, 3, body);
        assert(buffer@ =~= splice(old(buffer)@, 0, self.spec_to_bytes()));
        Ok(total_size)
    }

    fn from_bytes(data: &[u8]) -> (r: Result<Self, CrsfParsingError>) {
        if data.len() < Self::MIN_PAYLOAD_SIZE {
            return Err(CrsfParsingError::InvalidPayloadLength);
        }
        match bytes57_from_slice(&data[3..data.len()]) {
            Some(body) => Ok(Self { dst_addr: data[0], src_addr: data[1], status: data[2], body }),
            None => Err(CrsfParsingError::InvalidPayloadLength),
        }
    }
}

/// Decoding the bytes of an MSP frame gives the frame back (a frame holds at
/// most 57 body bytes).
pub proof fn lemma_msp_round_trip(p: MspPacket)
    requires
        p@.body.len() <= 57,
    ensures
        MspPacket::spec_from_bytes(p.spec_to_bytes()) == Ok::<MspPacketView, CrsfParsingError>(p@),
{
    assert(p.spec_to_bytes().skip(3) =~= bytes57(p.body));
}

/// An MSP packet is written as an MSP request, frame type 0x7A.
pub proof fn lemma_msp_packet_type()
    ensures
        MspPacket::PACKET_TYPE == PacketType::MspRequest,
{
}

/// The MSP payload layout: the destination is the first byte, the origin
/// the second, the MSP status the third, and the body the rest. Every
/// payload of 3 to 60 bytes is read that way, and a packet is written that
/// way.
pub proof fn lemma_msp_layout(data: Seq<u8>, p: MspPacket)
    ensures
        3 <= data.len() <= 60 ==> (MspPacket::spec_from_bytes(data) matches Ok(v) && v.dst_addr == data[0]
            && v.src_addr == data[1] && v.status == data[2] && v.body == data.subrange(3, data.len() as int)),
        data.len() < 3 || data.len() > 60 ==> MspPacket::spec_from_bytes(data) is Err,
        p.spec_to_bytes().len() == 3 + p@.body.len(),
        p.spec_to_bytes()[0] == p.dst_addr,
        p.spec_to_bytes()[1] == p.src_addr,
        p.spec_to_bytes()[2] == p.status,
        forall|i: int| 0 <= i < p@.body.len() ==> #[trigger] p.spec_to_bytes()[3 + i] == p@.body[i],
{
    assert(data.skip(3) =~= data.subrange(3, data.len() as int));
}

} // verus!

//! Parameter write request (frame type 0x2D).
use vstd::prelude::*;

use crate::fixed::{bytes32, bytes32_as_slice, bytes32_from_slice};
use crate::packets::wire::{put_bytes, splice};
use crate::packets::{CrsfPacket, PacketType};
use crate::CrsfParsingError;

verus! {

/// The most value bytes a write carries.
pub const MAX_DATA_SIZE: usize = 32;

/// Sets a parameter of a device to a new value, given as its encoded bytes.
#[derive(Clone, Debug, PartialEq, Eq)]
pub struct ParameterWrite {
    /// The device written to.
    pub dst_addr: u8,
    /// The device writing.
    pub src_addr: u8,
    /// The parameter written.
    pub parameter_number: u8,
    /// The value bytes, at most 32.
    pub data: heapless::Vec<u8, 32>,
}

/// A write request as the contracts see it: the value by its bytes.
pub ghost struct ParameterWriteView {
    pub dst_addr: u8,
    pub src_addr: u8,
    pub parameter_number: u8,
    pub data: Seq<u8>,
}

impl View for ParameterWrite {
    type V = ParameterWriteView;

    open spec fn view(&self) -> ParameterWriteView {
        ParameterWriteView {
            dst_addr: self.dst_addr,
            src_addr: self.src_addr,
            parameter_number: self.parameter_number,
            data: bytes32(self.data),
        }
    }
}

impl ParameterWrite {
    /// A write request carrying `data`; `InvalidPayloadLength` when `data`
    /// has more than 32 bytes.
    pub fn new(dst_addr: u8, src_addr: u8, parameter_number: u8, data: &[u8]) -> (r: Result<
        Self,
        CrsfParsingError,
    >)
        ensures
            r is Ok <==> data@.len() <= MAX_DATA_SIZE,
            r matches Ok(p) ==> p@ == (ParameterWriteView {
                dst_addr,
                src_addr,
                parameter_number,
                data: data@,
            }),
            r matches Err(e) ==> e == CrsfParsingError::InvalidPayloadLength,
    {
        if data.len() > MAX_DATA_SIZE {
            return Err(CrsfParsingError::InvalidPayloadLength);
        }
        match bytes32_from_slice(data) {
            Some(vec) => Ok(Self { dst_addr, src_addr, parameter_number, data: vec }),
            None => Err(CrsfParsingError::InvalidPayloadLength),
        }
    }
}

impl CrsfPacket for ParameterWrite {
    const PACKET_TYPE: PacketType = PacketType::ParameterWrite;
    const MIN_PAYLOAD_SIZE: usize = 4;

    open spec fn spec_to_bytes(&self) -> Seq<u8> {
        seq![self.dst_addr, self.src_addr, self.parameter_number] + bytes32(self.data)
    }

    /// Three header bytes and 1 to 32 value bytes.
    open spec fn spec_from_bytes(data: Seq<u8>) -> Result<ParameterWriteView, CrsfParsingError> {
        if data.len() < 4 || data.len() - 3 > MAX_DATA_SIZE {
            Err(CrsfParsingError::InvalidPayloadLength)
        } else {
            Ok(
                ParameterWriteView {
                    dst_addr: data[0],
                    src_addr: data[1],
                    parameter_number: data[2],
                    data: data.skip(3),
                },
            )
        }
    }

    open spec fn payload_readable(data: Seq<u8>) -> bool {
        true
    }

    fn to_bytes(&self, buffer: &mut [u8]) -> (r: Result<usize, CrsfParsingError>)
        ensures
            r is Err ==> final(buffer)@ == old(buffer)@,
    {
        let value = bytes32_as_slice(&self.data);
        let total_size = 3 + value.len();
        if buffer.len() < total_size {
            return Err(CrsfParsingError::BufferOverflow);
        }
        buffer[0] = self.dst_addr;
        buffer[1] = self.src_addr;
        buffer[2] = self.parameter_number;
        put_bytes(buffer, 3, value);
        assert(buffer@ =~= splice(old(buffer)@, 0, self.spec_to_bytes()));
        Ok(total_size)
    }

    fn from_bytes(data: &[u8]) -> (r: Result<Self, CrsfParsingError>) {
        if data.len() < Self::MIN_PAYLOAD_SIZE {
            return Err(CrsfParsingError::InvalidPayloadLength);
        }
        let data_bytes = &data[3..data.len()];
        if data_bytes.len() > MAX_DATA_SIZE {
            return Err(CrsfParsingError::InvalidPayloadLength);
        }
        match bytes32_from_slice(data_bytes) {
            Some(vec) => Ok(
                Self { dst_addr: data[0], src_addr: data[1], parameter_number: data[2], data: vec },
            ),
            None => Err(CrsfParsingError::InvalidPayloadLength),
        }
    }
}

/// A write request travels as frame type 0x2D.
pub proof fn lemma_parameter_write_constants()
    ensures
        ParameterWrite::PACKET_TYPE == PacketType::ParameterWrite,
{
}

/// Decoding the bytes of a write request with at least one value byte gives
/// the request back (a request holds at most 32 value bytes).
pub proof fn lemma_parameter_write_round_trip(p: ParameterWrite)
    requires
        1 <= p@.data.len() <= MAX_DATA_SIZE,
    ensures
        ParameterWrite::spec_from_bytes(p.spec_to_bytes()) == Ok::<ParameterWriteView, CrsfParsingError>(p@),
{
    let b = p.spec_to_bytes();
    assert(b.skip(3) =~= bytes32(p.data));
}

/// The write request layout: destination, origin and parameter number, one
/// byte each, then the value. Every payload of 4 to 35 bytes is read that
/// way, and a request is written that way.
pub proof fn lemma_parameter_write_layout(d: Seq<u8>, p: ParameterWrite)
    ensures
        4 <= d.len() <= 35 ==> (ParameterWrite::spec_from_bytes(d) matches Ok(v) && v.dst_addr == d[0]
            && v.src_addr == d[1] && v.parameter_number == d[2] && v.data == d.subrange(3, d.len() as int)),
        d.len() < 4 || d.len() > 35 ==> ParameterWrite::spec_from_bytes(d) is Err,
        p.spec_to_bytes().len() == 3 + p@.data.len(),
        p.spec_to_bytes()[0] == p.dst_addr,
        p.spec_to_bytes()[1] == p.src_addr,
        p.spec_to_bytes()[2] == p.parameter_number,
        p.spec_to_bytes().subrange(3, 3 + p@.data.len() as int) == p@.data,
{
    assert(d.skip(3) =~= d.subrange(3, d.len() as int));
    assert(p.spec_to_bytes().subrange(3, 3 + p@.data.len() as int) =~= p@.data);
}

} // verus!

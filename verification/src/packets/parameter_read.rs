//! Parameter read request (frame type 0x2C).
use vstd::prelude::*;

use crate::packets::wire::splice;
use crate::packets::{CrsfPacket, PacketType};
use crate::CrsfParsingError;

verus! {

/// Asks a device for one chunk of one parameter's entry.
#[derive(Clone, Debug, PartialEq, Eq, Structural)]
pub struct ParameterRead {
    /// The device asked.
    pub dst_addr: u8,
    /// The device asking.
    pub src_addr: u8,
    /// The parameter asked for.
    pub parameter_number: u8,
    /// The chunk of the parameter's entry asked for.
    pub chunk_number: u8,
}

impl ParameterRead {
    /// A read request; never fails.
    pub fn new(dst_addr: u8, src_addr: u8, parameter_number: u8, chunk_number: u8) -> (r: Result<
        Self,
        CrsfParsingError,
    >)
        ensures
            r == Ok::<Self, CrsfParsingError>(
                ParameterRead { dst_addr, src_addr, parameter_number, chunk_number },
            ),
    {
        Ok(Self { dst_addr, src_addr, parameter_number, chunk_number })
    }
}

impl View for ParameterRead {
    type V = ParameterRead;

    open spec fn view(&self) -> ParameterRead {
        *self
    }
}

impl CrsfPacket for ParameterRead {
    const PACKET_TYPE: PacketType = PacketType::ParameterRead;
    const MIN_PAYLOAD_SIZE: usize = 4;

    open spec fn spec_to_bytes(&self) -> Seq<u8> {
        seq![self.dst_addr, self.src_addr, self.parameter_number, self.chunk_number]
    }

    /// The four bytes in field order; bytes after them are ignored.
    open spec fn spec_from_bytes(data: Seq<u8>) -> Result<Self, CrsfParsingError> {
        if data.len() < 4 {
            Err(CrsfParsingError::InvalidPayloadLength)
        } else {
            Ok(
                ParameterRead {
                    dst_addr: data[0],
                    src_addr: data[1],
                    parameter_number: data[2],
                    chunk_number: data[3],
                },
            )
        }
    }

    open spec fn payload_readable(data: Seq<u8>) -> bool {
        true
    }

    fn to_bytes(&self, buffer: &mut [u8]) -> (r: Result<usize, CrsfParsingError>)
        ensures
            r is Err ==> final(buffer)@ == old(buffer)@,
    {
        self.validate_buffer_size(buffer)?;
        buffer[0] = self.dst_addr;
        buffer[1] = self.src_addr;
        buffer[2] = self.parameter_number;
        buffer[3] = self.chunk_number;
        assert(buffer@ =~= splice(old(buffer)@, 0, self.spec_to_bytes()));
        Ok(Self::MIN_PAYLOAD_SIZE)
    }

    fn from_bytes(data: &[u8]) -> (r: Result<Self, CrsfParsingError>) {
        if data.len() < Self::MIN_PAYLOAD_SIZE {
            return Err(CrsfParsingError::InvalidPayloadLength);
        }
        Ok(
            Self {
                dst_addr: data[0],
                src_addr: data[1],
                parameter_number: data[2],
                chunk_number: data[3],
            },
        )
    }
}

/// A read request travels as frame type 0x2C and needs four payload bytes.
pub proof fn lemma_parameter_read_constants()
    ensures
        ParameterRead::PACKET_TYPE == PacketType::ParameterRead,
        ParameterRead::MIN_PAYLOAD_SIZE == 4,
{
}

/// Decoding the bytes of a read request gives the request back.
pub proof fn lemma_parameter_read_round_trip(p: ParameterRead)
    ensures
        ParameterRead::spec_from_bytes(p.spec_to_bytes()) == Ok::<ParameterRead, CrsfParsingError>(p),
{
}

/// The read request layout: destination, origin, parameter number and chunk
/// number, one byte each. Every payload of at least 4 bytes is read that
/// way, and a request is written that way.
pub proof fn lemma_parameter_read_layout(d: Seq<u8>, p: ParameterRead)
    ensures
        d.len() >= 4 ==> (ParameterRead::spec_from_bytes(d) matches Ok(v) && v.dst_addr == d[0] && v.src_addr
            == d[1] && v.parameter_number == d[2] && v.chunk_number == d[3]),
        d.len() < 4 ==> ParameterRead::spec_from_bytes(d) is Err,
        p.spec_to_bytes() == seq![p.dst_addr, p.src_addr, p.parameter_number, p.chunk_number],
{
}

} // verus!

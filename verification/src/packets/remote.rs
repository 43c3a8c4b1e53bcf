//! Remote related frames (frame type 0x3A), a container of sub-packets.
use vstd::prelude::*;

mod timing_correction;
pub use timing_correction::{
    lemma_timing_correction_constants, lemma_timing_correction_round_trip, TimingCorrection,
};

use crate::packets::wire::splice;
use crate::packets::{encoded_into, CrsfPacket, PacketType};
use crate::CrsfParsingError;

verus! {


/// A remote frame: extended header and one sub-packet.
#[derive(Clone, Debug, PartialEq, Structural)]
pub struct Remote {
    /// Destination device address.
    pub dst_addr: u8,
    /// Origin device address.
    pub src_addr: u8,
    /// The sub-packet.
    pub payload: RemotePayload,
}

/// The sub-packets a remote frame can carry.
#[derive(Clone, Debug, PartialEq, Structural)]
pub enum RemotePayload {
    TimingCorrection(TimingCorrection),
}

/// A sub-packet of the remote frame, identified by its sub-type byte.
pub trait RemotePacket: Sized {
    /// The sub-type byte.
    const SUB_TYPE: u8;

    /// The shortest payload of this sub-packet.
    const MIN_PAYLOAD_SIZE: usize;

    /// The sub-packet's bytes.
    spec fn spec_to_bytes(&self) -> Seq<u8>;

    /// The sub-packet some bytes decode to, or the error they are refused with.
    spec fn spec_from_bytes(data: Seq<u8>) -> Result<Self, CrsfParsingError>;

    /// Decodes a sub-packet.
    fn from_bytes(data: &[u8]) -> (r: Result<Self, CrsfParsingError>)
        ensures
            r == Self::spec_from_bytes(data@),
    ;

    /// Encodes the sub-packet at the front of `buffer`.
    fn to_bytes(&self, buffer: &mut [u8]) -> (r: Result<usize, CrsfParsingError>)
        ensures
            encoded_into(old(buffer)@, final(buffer)@, self.spec_to_bytes(), r),
    ;

    /// `BufferOverflow` when `buffer` is shorter than the minimum payload.
    fn validate_buffer_size(&self, buffer: &[u8]) -> (r: Result<(), CrsfParsingError>)
        ensures
            r == (if buffer@.len() < Self::MIN_PAYLOAD_SIZE {
                Err(CrsfParsingError::BufferOverflow)
            } else {
                Ok(())
            }),
    {
        if buffer.len() < Self::MIN_PAYLOAD_SIZE {
            return Err(CrsfParsingError::BufferOverflow);
        }
        Ok(())
    }

    /// Length of the remote payload carrying this sub-packet: destination,
    /// origin, sub-type and the sub-packet.
    fn packet_len() -> (r: usize)
        requires
            Self::MIN_PAYLOAD_SIZE <= 61,
        ensures
            r == 3 + Self::MIN_PAYLOAD_SIZE,
    {
        2 + 1 + Self::MIN_PAYLOAD_SIZE
    }
}

impl From<TimingCorrection> for RemotePayload {
    fn from(t: TimingCorrection) -> (r: RemotePayload) {
        RemotePayload::TimingCorrection(t)
    }
}

impl vstd::std_specs::convert::FromSpecImpl<TimingCorrection> for RemotePayload {
    open spec fn obeys_from_spec() -> bool {
        true
    }

    open spec fn from_spec(t: TimingCorrection) -> RemotePayload {
        RemotePayload::TimingCorrection(t)
    }
}

impl Remote {
    /// A remote frame payload; never fails. A sub-packet such as
    /// [`TimingCorrection`] becomes a payload by `From`/`Into`.
    pub fn new(dst_addr: u8, src_addr: u8, payload: RemotePayload) -> (r: Result<Self, CrsfParsingError>)
        ensures
            r == Ok::<Self, CrsfParsingError>(Remote { dst_addr, src_addr, payload }),
    {
        Ok(Self { dst_addr, src_addr, payload })
    }

    fn pack_remote(&self, buffer: &mut [u8], p: &TimingCorrection) -> (r: Result<usize, CrsfParsingError>)
        ensures
            encoded_into(
                old(buffer)@,
                final(buffer)@,
                seq![self.dst_addr, self.src_addr, TimingCorrection::SUB_TYPE] + p.spec_to_bytes(),
                r,
            ),
            r is Err ==> final(buffer)@ == old(buffer)@,
    {
        proof {
            lemma_timing_correction_constants();
        }
        if buffer.len() < TimingCorrection::packet_len() {
            return Err(CrsfParsingError::BufferOverflow);
        }
        buffer[0] = self.dst_addr;
        buffer[1] = self.src_addr;
        buffer[2] = TimingCorrection::SUB_TYPE;
        let mut tmp = [0u8; 8];
        let _ = p.to_bytes(&mut tmp);
        let mut i: usize = 0;
        while i < 8
            invariant
                0 <= i <= 8,
                buffer@.len() == old(buffer)@.len(),
                buffer@.len() >= 11,
                tmp@ == p.spec_to_bytes(),
                buffer@ == splice(
                    old(buffer)@,
                    0,
                    seq![self.dst_addr, self.src_addr, TimingCorrection::SUB_TYPE] + tmp@.take(i as int),
                ),
            decreases 8 - i,
        {
            buffer[3 + i] = tmp[i];
            i += 1;
            assert(buffer@ =~= splice(
                old(buffer)@,
                0,
                seq![self.dst_addr, self.src_addr, TimingCorrection::SUB_TYPE] + tmp@.take(i as int),
            ));
        }
        assert(tmp@.take(8) =~= tmp@);
        Ok(TimingCorrection::packet_len())
    }
}

impl View for Remote {
    type V = Remote;

    open spec fn view(&self) -> Remote {
        *self
    }
}

impl CrsfPacket for Remote {
    const PACKET_TYPE: PacketType = PacketType::RadioId;
    const MIN_PAYLOAD_SIZE: usize = 3;

    open spec fn spec_to_bytes(&self) -> Seq<u8> {
        match self.payload {
            RemotePayload::TimingCorrection(t) => seq![self.dst_addr, self.src_addr, TimingCorrection::SUB_TYPE]
                + t.spec_to_bytes(),
        }
    }

    /// Destination, origin, sub-type, then the sub-packet; an unknown
    /// sub-type is `InvalidPayload`.
    open spec fn spec_from_bytes(data: Seq<u8>) -> Result<Self, CrsfParsingError> {
        if data.len() < 3 {
            Err(CrsfParsingError::InvalidPayloadLength)
        } else if data[2] == TimingCorrection::SUB_TYPE {
            if data.len() < 11 {
                Err(CrsfParsingError::InvalidPayloadLength)
            } else {
                match TimingCorrection::spec_from_bytes(data.skip(3)) {
                    Ok(t) => Ok(
                        Remote {
                            dst_addr: data[0],
                            src_addr: data[1],
                            payload: RemotePayload::TimingCorrection(t),
                        },
                    ),
                    Err(e) => Err(e),
                }
            }
        } else {
            Err(CrsfParsingError::InvalidPayload)
        }
    }

    open spec fn payload_readable(data: Seq<u8>) -> bool {
        true
    }

    fn from_bytes(data: &[u8]) -> (r: Result<Self, CrsfParsingError>) {
        if data.len() < 3 {
            return Err(CrsfParsingError::InvalidPayloadLength);
        }
        proof {
            lemma_timing_correction_constants();
        }
        let dst_addr = data[0];
        let src_addr = data[1];
        let sub_type = data[2];
        let payload = if sub_type == TimingCorrection::SUB_TYPE {
            if data.len() < TimingCorrection::MIN_PAYLOAD_SIZE + 3 {
                return Err(CrsfParsingError::InvalidPayloadLength);
            }
            let sub_payload = &data[3..data.len()];
            assert(sub_payload@ =~= data@.skip(3));
            let timing_correction = TimingCorrection::from_bytes(sub_payload)?;
            RemotePayload::TimingCorrection(timing_correction)
        } else {
            return Err(CrsfParsingError::InvalidPayload);
        };
        Ok(Self { dst_addr, src_addr, payload })
    }

    fn to_bytes(&self, buffer: &mut [u8]) -> (r: Result<usize, CrsfParsingError>)
        ensures
            r is Err ==> final(buffer)@ == old(buffer)@,
    {
        match &self.payload {
            RemotePayload::TimingCorrection(p) => self.pack_remote(buffer, p),
        }
    }
}

/// Decoding the bytes of a remote frame gives the frame back.
pub proof fn lemma_remote_round_trip(p: Remote)
    ensures
        Remote::spec_from_bytes(p.spec_to_bytes()) == Ok::<Remote, CrsfParsingError>(p),
{
    lemma_timing_correction_constants();
    match p.payload {
        RemotePayload::TimingCorrection(t) => {
            lemma_timing_correction_round_trip(t);
            let b = p.spec_to_bytes();
            assert(b.skip(3) =~= t.spec_to_bytes());
        },
    }
}

/// Remote-related frames travel as frame type 0x3A.
pub proof fn lemma_remote_packet_type()
    ensures
        Remote::PACKET_TYPE == PacketType::RadioId,
{
}

/// The remote frame layout: destination, origin and sub-type, one byte
/// each, then the sub-packet; a timing correction has sub-type 0x10. A
/// payload is read that way, and a frame is written that way.
pub proof fn lemma_remote_layout(d: Seq<u8>, r: Remote)
    ensures
        Remote::spec_from_bytes(d) matches Ok(v) ==> (v.dst_addr == d[0] && v.src_addr == d[1] && d[2] == 0x10
            && d.len() >= 11 && v.payload == RemotePayload::TimingCorrection(
            TimingCorrection::spec_from_bytes(d.subrange(3, d.len() as int))->Ok_0,
        ) && TimingCorrection::spec_from_bytes(d.subrange(3, d.len() as int)) is Ok),
        d.len() >= 11 && d[2] == 0x10 ==> Remote::spec_from_bytes(d) is Ok,
        ({
            let w = r.spec_to_bytes();
            &&& w[0] == r.dst_addr
            &&& w[1] == r.src_addr
            &&& w[2] == 0x10
            &&& r.payload matches RemotePayload::TimingCorrection(t) && w.subrange(3, w.len() as int)
                == t.spec_to_bytes()
        }),
{
    lemma_timing_correction_constants();
    assert(d.skip(3) =~= d.subrange(3, d.len() as int));
    let w = r.spec_to_bytes();
    match r.payload {
        RemotePayload::TimingCorrection(t) => {
            assert(w.subrange(3, w.len() as int) =~= t.spec_to_bytes());
        },
    }
}

} // verus!

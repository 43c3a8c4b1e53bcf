//! Packet types and the framing of packets into frames.
use vstd::prelude::*;

pub mod address;
pub mod wire;

pub mod ardupilot;
pub mod baro_altitude;
pub mod battery;
pub mod device_information;
pub mod device_ping;
pub mod elrs_status;
pub mod gps;
pub mod link_statistics;
pub mod msp;
pub mod parameter_read;
pub mod parameter_settings_entry;
pub mod parameter_write;
pub mod rc_channels_packed;
pub mod remote;

pub use address::{PacketAddress, PacketType};
pub use ardupilot::{ArduPilotPassthrough, PassthroughTelemetryPacket};
pub use baro_altitude::BaroAltitude;
pub use battery::Battery;
pub use device_information::DeviceInformation;
pub use device_ping::DevicePing;
pub use elrs_status::ElrsStatus;
pub use gps::Gps;
pub use link_statistics::LinkStatistics;
pub use msp::MspPacket;
pub use parameter_read::ParameterRead;
pub use parameter_settings_entry::{
    ParameterChunk, ParameterChunkReassembler, ParameterData, ParameterDataType, ParameterSettingsEntry,
};
pub use parameter_write::ParameterWrite;
pub use rc_channels_packed::RcChannelsPacked;
pub use remote::{Remote, RemotePacket, RemotePayload, TimingCorrection};

use crate::checksum::{crc8_checksum, crc8_dvb_s2};
use crate::error::CrsfParsingError;
use crate::parser::RawCrsfPacket;
use parameter_settings_entry::{spec_parse_chunk, spec_parse_entry};
use address::{address_byte, packet_type_byte, packet_type_of_byte};
use wire::splice;

verus! {

/// What `to_bytes` leaves: on success the encoding `enc` at the front of the
/// buffer and the rest untouched; `BufferOverflow` exactly when the buffer is
/// shorter than the encoding.
pub open spec fn encoded_into(
    before: Seq<u8>,
    after: Seq<u8>,
    enc: Seq<u8>,
    r: Result<usize, CrsfParsingError>,
) -> bool {
    &&& after.len() == before.len()
    &&& (r is Ok <==> enc.len() <= before.len())
    &&& (r matches Ok(n) ==> n == enc.len() && after == splice(before, 0, enc))
    &&& (r matches Err(e) ==> e == CrsfParsingError::BufferOverflow)
}

/// A decoding result with the packet taken by its view.
pub open spec fn viewed<T: View>(r: Result<T, CrsfParsingError>) -> Result<T::V, CrsfParsingError> {
    match r {
        Ok(p) => Ok(p@),
        Err(e) => Err(e),
    }
}

/// A packet that travels as the payload of one frame type.
pub trait CrsfPacket: Sized + View {
    /// The frame type that carries this packet.
    const PACKET_TYPE: PacketType;

    /// The shortest payload of this packet type.
    const MIN_PAYLOAD_SIZE: usize;

    /// The payload bytes of the packet.
    spec fn spec_to_bytes(&self) -> Seq<u8>;

    /// The packet a payload decodes to, by its view, or the error it is
    /// refused with.
    spec fn spec_from_bytes(data: Seq<u8>) -> Result<Self::V, CrsfParsingError>;

    /// The payloads `from_bytes` can be handed.
    spec fn payload_readable(data: Seq<u8>) -> bool;

    /// Encodes the packet at the front of `buffer`; returns its length.
    fn to_bytes(&self, buffer: &mut [u8]) -> (r: Result<usize, CrsfParsingError>)
        ensures
            encoded_into(old(buffer)@, final(buffer)@, self.spec_to_bytes(), r),
    ;

    /// Decodes a payload.
    fn from_bytes(data: &[u8]) -> (r: Result<Self, CrsfParsingError>)
        requires
            Self::payload_readable(data@),
        ensures
            viewed(r) == Self::spec_from_bytes(data@),
    ;

    /// `BufferOverflow` when `buffer` is shorter than the minimum payload.
    fn validate_buffer_size(&self, buffer: &[u8]) -> (r: Result<(), CrsfParsingError>)
        ensures
            r == (if buffer@.len() < Self::MIN_PAYLOAD_SIZE {
                Err(CrsfParsingError::BufferOverflow)
            } else {
                Ok(())
            }),
    {
        if buffer.len() < Self::MIN_PAYLOAD_SIZE {
            return Err(CrsfParsingError::BufferOverflow);
        }
        Ok(())
    }
}

/// The frame that carries `payload` of frame type byte `t` to address byte
/// `a`: address, length (type, payload and CRC), type, payload, and the CRC
/// of type and payload.
pub open spec fn frame_bytes(a: u8, t: u8, payload: Seq<u8>) -> Seq<u8> {
    seq![a, (payload.len() + 2) as u8, t] + payload + seq![crc8_dvb_s2(seq![t] + payload)]
}

/// Writes `packet` as a complete frame to `dest` at the front of `buffer`;
/// returns the frame's length. `BufferOverflow` when the frame does not fit
/// the buffer or exceeds the 64 bytes of a frame.
#[verifier::spinoff_prover]
#[verifier::rlimit(30)]
pub fn write_packet_to_buffer<T: CrsfPacket>(buffer: &mut [u8], dest: PacketAddress, packet: &T) -> (r: Result<
    usize,
    CrsfParsingError,
>)
    ensures
        final(buffer)@.len() == old(buffer)@.len(),
        r is Ok <==> (packet.spec_to_bytes().len() <= 60 && packet.spec_to_bytes().len() + 4 <= old(
            buffer,
        )@.len()),
        r matches Ok(n) ==> {
            &&& n == packet.spec_to_bytes().len() + 4
            &&& final(buffer)@ == splice(
                old(buffer)@,
                0,
                frame_bytes(address_byte(dest), packet_type_byte(T::PACKET_TYPE), packet.spec_to_bytes()),
            )
        },
        r matches Err(e) ==> e == CrsfParsingError::BufferOverflow && final(buffer)@ == old(buffer)@,
{
    let mut payload = [0u8; 64];
    let payload_len = packet.to_bytes(&mut payload)?;
    if payload_len > 60 || buffer.len() < 4 || payload_len > buffer.len() - 4 {
        return Err(CrsfParsingError::BufferOverflow);
    }
    let ghost enc = packet.spec_to_bytes();
    let t = T::PACKET_TYPE.to_byte();
    buffer[0] = dest.to_byte();
    buffer[1] = (payload_len + 2) as u8;
    buffer[2] = t;
    let mut i: usize = 0;
    while i < payload_len
        invariant
            0 <= i <= payload_len <= 60,
            payload_len + 4 <= buffer@.len(),
            buffer@.len() == old(buffer)@.len(),
            payload@.take(payload_len as int) == enc,
            buffer@ == splice(
                old(buffer)@,
                0,
                seq![address_byte(dest), (payload_len + 2) as u8, t] + payload@.take(i as int),
            ),
        decreases payload_len - i,
    {
        buffer[3 + i] = payload[i];
        i += 1;
        assert(buffer@ =~= splice(
            old(buffer)@,
            0,
            seq![address_byte(dest), (payload_len + 2) as u8, t] + payload@.take(i as int),
        ));
    }
    let crc = crc8_checksum(&buffer[2..payload_len + 3]);
    assert(buffer@.subrange(2, payload_len + 3) =~= seq![t] + enc);
    buffer[payload_len + 3] = crc;
    assert(buffer@ =~= splice(old(buffer)@, 0, frame_bytes(address_byte(dest), t, enc)));
    Ok(payload_len + 4)
}

/// A decoded packet of any frame type this library reads.
#[derive(Clone, Debug, PartialEq)]
pub enum Packet {
    Gps(Gps),
    Battery(Battery),
    BaroAltitude(BaroAltitude),
    LinkStatistics(LinkStatistics),
    RCChannels(RcChannelsPacked),
    DevicePing(DevicePing),
    DeviceInformation(DeviceInformation),
    ParameterSettingsEntry(ParameterSettingsEntry),
    ParameterChunk(ParameterChunk),
    ParameterRead(ParameterRead),
    ParameterWrite(ParameterWrite),
    ElrsStatus(ElrsStatus),
    Remote(Remote),
    Msp(MspPacket),
    ArduPilot(ArduPilotPassthrough),
}

/// A packet as the contracts see it: each packet by its view.
pub ghost enum PacketView {
    Gps(Gps),
    Battery(Battery),
    BaroAltitude(BaroAltitude),
    LinkStatistics(LinkStatistics),
    RCChannels(RcChannelsPacked),
    DevicePing(DevicePing),
    DeviceInformation(device_information::DeviceInformationView),
    ParameterSettingsEntry(parameter_settings_entry::ParameterSettingsEntryView),
    ParameterChunk(parameter_settings_entry::ParameterChunkView),
    ParameterRead(ParameterRead),
    ParameterWrite(parameter_write::ParameterWriteView),
    ElrsStatus(ElrsStatus),
    Remote(Remote),
    Msp(msp::MspPacketView),
    ArduPilot(ardupilot::ArduPilotPassthroughView),
}

impl View for Packet {
    type V = PacketView;

    open spec fn view(&self) -> PacketView {
        match self {
            Packet::Gps(p) => PacketView::Gps(*p),
            Packet::Battery(p) => PacketView::Battery(*p),
            Packet::BaroAltitude(p) => PacketView::BaroAltitude(*p),
            Packet::LinkStatistics(p) => PacketView::LinkStatistics(*p),
            Packet::RCChannels(p) => PacketView::RCChannels(*p),
            Packet::DevicePing(p) => PacketView::DevicePing(*p),
            Packet::DeviceInformation(p) => PacketView::DeviceInformation(p@),
            Packet::ParameterSettingsEntry(p) => PacketView::ParameterSettingsEntry(p@),
            Packet::ParameterChunk(p) => PacketView::ParameterChunk(p@),
            Packet::ParameterRead(p) => PacketView::ParameterRead(*p),
            Packet::ParameterWrite(p) => PacketView::ParameterWrite(p@),
            Packet::ElrsStatus(p) => PacketView::ElrsStatus(*p),
            Packet::Remote(p) => PacketView::Remote(*p),
            Packet::Msp(p) => PacketView::Msp(p@),
            Packet::ArduPilot(p) => PacketView::ArduPilot(p@),
        }
    }
}

/// A decoded payload of type `T` as a packet view, by `wrap`.
pub open spec fn as_packet<V>(r: Result<V, CrsfParsingError>, wrap: spec_fn(V) -> PacketView) -> Result<
    PacketView,
    CrsfParsingError,
> {
    match r {
        Ok(p) => Ok(wrap(p)),
        Err(e) => Err(e),
    }
}

/// A parameter settings frame: a chunk when chunks follow it; otherwise the
/// entry it holds, or, when it holds none, the last chunk of a longer entry.
pub open spec fn spec_parse_settings(payload: Seq<u8>) -> Result<PacketView, CrsfParsingError> {
    if payload.len() >= 4 && payload[3] > 0 {
        as_packet(spec_parse_chunk(payload), |c| PacketView::ParameterChunk(c))
    } else {
        match spec_parse_entry(payload) {
            Ok(e) => Ok(PacketView::ParameterSettingsEntry(e)),
            Err(_) => as_packet(spec_parse_chunk(payload), |c| PacketView::ParameterChunk(c)),
        }
    }
}

/// The packet a payload of frame type byte `t` decodes to.
///
/// A byte that is no frame type is `UnexpectedPacketType`; a frame type this
/// library does not decode is `PacketNotImlemented`; a device ping shorter
/// than its two address bytes is `InvalidPayloadLength`.
pub open spec fn spec_parse_payload(t: u8, payload: Seq<u8>) -> Result<PacketView, CrsfParsingError> {
    match packet_type_of_byte(t) {
        None => Err(CrsfParsingError::UnexpectedPacketType(t)),
        Some(pt) => match pt {
            PacketType::Gps => as_packet(Gps::spec_from_bytes(payload), |p| PacketView::Gps(p)),
            PacketType::BatterySensor => as_packet(
                Battery::spec_from_bytes(payload),
                |p| PacketView::Battery(p),
            ),
            PacketType::BaroAltitude => as_packet(
                BaroAltitude::spec_from_bytes(payload),
                |p| PacketView::BaroAltitude(p),
            ),
            PacketType::LinkStatistics => as_packet(
                LinkStatistics::spec_from_bytes(payload),
                |p| PacketView::LinkStatistics(p),
            ),
            PacketType::RcChannelsPacked => as_packet(
                RcChannelsPacked::spec_from_bytes(payload),
                |p| PacketView::RCChannels(p),
            ),
            PacketType::DevicePing => if payload.len() < 2 {
                Err(CrsfParsingError::InvalidPayloadLength)
            } else {
                as_packet(DevicePing::spec_from_bytes(payload), |p| PacketView::DevicePing(p))
            },
            PacketType::DeviceInfo => as_packet(
                DeviceInformation::spec_from_bytes(payload),
                |p| PacketView::DeviceInformation(p),
            ),
            PacketType::ParameterSettingsEntry => spec_parse_settings(payload),
            PacketType::ParameterRead => as_packet(
                ParameterRead::spec_from_bytes(payload),
                |p| PacketView::ParameterRead(p),
            ),
            PacketType::ParameterWrite => as_packet(
                ParameterWrite::spec_from_bytes(payload),
                |p| PacketView::ParameterWrite(p),
            ),
            PacketType::ElrsStatus => as_packet(
                ElrsStatus::spec_from_bytes(payload),
                |p| PacketView::ElrsStatus(p),
            ),
            PacketType::RadioId => as_packet(Remote::spec_from_bytes(payload), |p| PacketView::Remote(p)),
            PacketType::MspRequest => as_packet(MspPacket::spec_from_bytes(payload), |p| PacketView::Msp(p)),
            PacketType::MspResponse => as_packet(MspPacket::spec_from_bytes(payload), |p| PacketView::Msp(p)),
            PacketType::ArdupilotResponse => as_packet(
                ArduPilotPassthrough::spec_from_bytes(payload),
                |p| PacketView::ArduPilot(p),
            ),
            _ => Err(CrsfParsingError::PacketNotImlemented(t)),
        },
    }
}

/// The packet a whole frame decodes to: its payload read by its type byte.
pub open spec fn spec_parse_frame(frame: Seq<u8>) -> Result<PacketView, CrsfParsingError> {
    spec_parse_payload(frame[2], frame.subrange(3, frame.len() - 1))
}

/// The frame type and payload with which a packet is written as a frame;
/// `None` for a parameter chunk, which is only ever read.
pub open spec fn packet_wire(p: Packet) -> Option<(PacketType, Seq<u8>)> {
    match p {
        Packet::Gps(x) => Some((Gps::PACKET_TYPE, x.spec_to_bytes())),
        Packet::Battery(x) => Some((Battery::PACKET_TYPE, x.spec_to_bytes())),
        Packet::BaroAltitude(x) => Some((BaroAltitude::PACKET_TYPE, x.spec_to_bytes())),
        Packet::LinkStatistics(x) => Some((LinkStatistics::PACKET_TYPE, x.spec_to_bytes())),
        Packet::RCChannels(x) => Some((RcChannelsPacked::PACKET_TYPE, x.spec_to_bytes())),
        Packet::DevicePing(x) => Some((DevicePing::PACKET_TYPE, x.spec_to_bytes())),
        Packet::DeviceInformation(x) => Some((DeviceInformation::PACKET_TYPE, x.spec_to_bytes())),
        Packet::ParameterSettingsEntry(x) => Some((ParameterSettingsEntry::PACKET_TYPE, x.spec_to_bytes())),
        Packet::ParameterChunk(_) => None,
        Packet::ParameterRead(x) => Some((ParameterRead::PACKET_TYPE, x.spec_to_bytes())),
        Packet::ParameterWrite(x) => Some((ParameterWrite::PACKET_TYPE, x.spec_to_bytes())),
        Packet::ElrsStatus(x) => Some((ElrsStatus::PACKET_TYPE, x.spec_to_bytes())),
        Packet::Remote(x) => Some((Remote::PACKET_TYPE, x.spec_to_bytes())),
        Packet::Msp(x) => Some((MspPacket::PACKET_TYPE, x.spec_to_bytes())),
        Packet::ArduPilot(x) => Some((ArduPilotPassthrough::PACKET_TYPE, x.spec_to_bytes())),
    }
}

/// The packets that a frame written for them is read back as: a payload
/// that fits a frame, fields within what the encoding carries (a capacity
/// of 24 bits, channel values of 11 bits, a UTF-8 device name without NUL,
/// a written value of 1 to 32 bytes, at most 9 telemetry items or 50 bytes
/// of status text), and a settings entry that holds its whole text with no
/// chunk following it.
pub open spec fn reads_back(p: Packet) -> bool {
    &&& packet_wire(p) matches Some((_, payload)) && payload.len() <= 60
    &&& match p {
        Packet::Battery(x) => x.capacity_used < 0x1000000,
        Packet::RCChannels(x) => rc_channels_packed::rc_channels_in_range(x.channels@),
        Packet::DeviceInformation(x) => {
            &&& vstd::utf8::valid_utf8(x@.device_name)
            &&& x@.device_name.len() <= device_information::MAX_DEVICE_NAME_LEN
            &&& forall|i: int| 0 <= i < x@.device_name.len() ==> x@.device_name[i] != 0
        },
        Packet::ParameterSettingsEntry(x) => parameter_settings_entry::encodable_entry(x@)
            && x@.chunks_remaining == 0,
        Packet::ParameterWrite(x) => 1 <= x@.data.len() <= parameter_write::MAX_DATA_SIZE,
        Packet::Msp(x) => x@.body.len() <= 57,
        Packet::ArduPilot(x) => {
            &&& x@ matches ardupilot::ArduPilotPassthroughView::Multi { packets } ==> packets.len() <= 9
            &&& x@ matches ardupilot::ArduPilotPassthroughView::StatusText { text, .. } ==> text.len() <= 50
        },
        _ => true,
    }
}

impl Packet {
    fn parse_settings(data: &[u8]) -> (r: Result<Packet, CrsfParsingError>)
        ensures
            viewed(r) == spec_parse_settings(data@),
    {
        if data.len() >= 4 && data[3] > 0 {
            return match ParameterChunk::from_bytes(data) {
                Ok(c) => Ok(Packet::ParameterChunk(c)),
                Err(e) => Err(e),
            };
        }
        match ParameterSettingsEntry::from_bytes(data) {
            Ok(e) => Ok(Packet::ParameterSettingsEntry(e)),
            Err(_) => match ParameterChunk::from_bytes(data) {
                Ok(c) => Ok(Packet::ParameterChunk(c)),
                Err(e) => Err(e),
            },
        }
    }

    /// Decodes the payload of a checked frame by its frame type.
    pub fn parse(raw: &RawCrsfPacket) -> (r: Result<Packet, CrsfParsingError>)
        ensures
            viewed(r) == spec_parse_frame(raw@),
    {
        let t = raw.raw_packet_type();
        let data = raw.payload();
        let pt = match PacketType::from_byte(t) {
            Some(pt) => pt,
            None => return Err(CrsfParsingError::UnexpectedPacketType(t)),
        };
        match pt {
            PacketType::Gps => Ok(Packet::Gps(Gps::from_bytes(data)?)),
            PacketType::BatterySensor => Ok(Packet::Battery(Battery::from_bytes(data)?)),
            PacketType::BaroAltitude => Ok(Packet::BaroAltitude(BaroAltitude::from_bytes(data)?)),
            PacketType::LinkStatistics => Ok(Packet::LinkStatistics(LinkStatistics::from_bytes(data)?)),
            PacketType::RcChannelsPacked => Ok(Packet::RCChannels(RcChannelsPacked::from_bytes(data)?)),
            PacketType::DevicePing => {
                if data.len() < 2 {
                    return Err(CrsfParsingError::InvalidPayloadLength);
                }
                Ok(Packet::DevicePing(DevicePing::from_bytes(data)?))
            },
            PacketType::DeviceInfo => Ok(Packet::DeviceInformation(DeviceInformation::from_bytes(data)?)),
            PacketType::ParameterSettingsEntry => Self::parse_settings(data),
            PacketType::ParameterRead => Ok(Packet::ParameterRead(ParameterRead::from_bytes(data)?)),
            PacketType::ParameterWrite => Ok(Packet::ParameterWrite(ParameterWrite::from_bytes(data)?)),
            PacketType::ElrsStatus => Ok(Packet::ElrsStatus(ElrsStatus::from_bytes(data)?)),
            PacketType::RadioId => Ok(Packet::Remote(Remote::from_bytes(data)?)),
            PacketType::MspRequest | PacketType::MspResponse => Ok(Packet::Msp(MspPacket::from_bytes(data)?)),
            PacketType::ArdupilotResponse => Ok(Packet::ArduPilot(ArduPilotPassthrough::from_bytes(data)?)),
            _ => Err(CrsfParsingError::PacketNotImlemented(t)),
        }
    }
}

} // verus!

//! Device addresses and frame types.
use vstd::prelude::*;

verus! {

/// Address of a device on the bus; the first byte of every frame.
#[derive(Debug, Clone, Copy, PartialEq, Eq, Hash, Structural)]
pub enum PacketAddress {
    Broadcast,
    Usb,
    Bluetooth,
    TbsCorePnpPro,
    Reserved1,
    CurrentSensor,
    Gps,
    TbsBlackbox,
    FlightController,
    Reserved2,
    RaceTag,
    Handset,
    Receiver,
    Transmitter,
    /// The address ExpressLRS gives its Lua configuration script.
    ElrsLua,
}

/// The wire value of each address.
pub open spec fn address_byte(a: PacketAddress) -> u8 {
    match a {
        PacketAddress::Broadcast => 0x00,
        PacketAddress::Usb => 0x10,
        PacketAddress::Bluetooth => 0x12,
        PacketAddress::TbsCorePnpPro => 0x80,
        PacketAddress::Reserved1 => 0x8A,
        PacketAddress::CurrentSensor => 0xC0,
        PacketAddress::Gps => 0xC2,
        PacketAddress::TbsBlackbox => 0xC4,
        PacketAddress::FlightController => 0xC8,
        PacketAddress::Reserved2 => 0xCA,
        PacketAddress::RaceTag => 0xCC,
        PacketAddress::Handset => 0xEA,
        PacketAddress::Receiver => 0xEC,
        PacketAddress::Transmitter => 0xEE,
        PacketAddress::ElrsLua => 0xEF,
    }
}

/// The address a byte stands for, if any.
pub open spec fn address_of_byte(b: u8) -> Option<PacketAddress> {
    if b == 0x00 {
        Some(PacketAddress::Broadcast)
    } else if b == 0x10 {
        Some(PacketAddress::Usb)
    } else if b == 0x12 {
        Some(PacketAddress::Bluetooth)
    } else if b == 0x80 {
        Some(PacketAddress::TbsCorePnpPro)
    } else if b == 0x8A {
        Some(PacketAddress::Reserved1)
    } else if b == 0xC0 {
        Some(PacketAddress::CurrentSensor)
    } else if b == 0xC2 {
        Some(PacketAddress::Gps)
    } else if b == 0xC4 {
        Some(PacketAddress::TbsBlackbox)
    } else if b == 0xC8 {
        Some(PacketAddress::FlightController)
    } else if b == 0xCA {
        Some(PacketAddress::Reserved2)
    } else if b == 0xCC {
        Some(PacketAddress::RaceTag)
    } else if b == 0xEA {
        Some(PacketAddress::Handset)
    } else if b == 0xEC {
        Some(PacketAddress::Receiver)
    } else if b == 0xEE {
        Some(PacketAddress::Transmitter)
    } else if b == 0xEF {
        Some(PacketAddress::ElrsLua)
    } else {
        None
    }
}

/// A byte that names a device, and so may open a frame.
pub open spec fn is_address_byte(b: u8) -> bool {
    address_of_byte(b) is Some
}

impl PacketAddress {
    /// The wire value of the address.
    pub fn to_byte(self) -> (r: u8)
        ensures
            r == address_byte(self),
    {
        match self {
            PacketAddress::Broadcast => 0x00,
            PacketAddress::Usb => 0x10,
            PacketAddress::Bluetooth => 0x12,
            PacketAddress::TbsCorePnpPro => 0x80,
            PacketAddress::Reserved1 => 0x8A,
            PacketAddress::CurrentSensor => 0xC0,
            PacketAddress::Gps => 0xC2,
            PacketAddress::TbsBlackbox => 0xC4,
            PacketAddress::FlightController => 0xC8,
            PacketAddress::Reserved2 => 0xCA,
            PacketAddress::RaceTag => 0xCC,
            PacketAddress::Handset => 0xEA,
            PacketAddress::Receiver => 0xEC,
            PacketAddress::Transmitter => 0xEE,
            PacketAddress::ElrsLua => 0xEF,
        }
    }

    /// The address a byte stands for; `None` for a byte that names no device.
    pub fn from_byte(b: u8) -> (r: Option<PacketAddress>)
        ensures
            r == address_of_byte(b),
    {
        match b {
            0x00 => Some(PacketAddress::Broadcast),
            0x10 => Some(PacketAddress::Usb),
            0x12 => Some(PacketAddress::Bluetooth),
            0x80 => Some(PacketAddress::TbsCorePnpPro),
            0x8A => Some(PacketAddress::Reserved1),
            0xC0 => Some(PacketAddress::CurrentSensor),
            0xC2 => Some(PacketAddress::Gps),
            0xC4 => Some(PacketAddress::TbsBlackbox),
            0xC8 => Some(PacketAddress::FlightController),
            0xCA => Some(PacketAddress::Reserved2),
            0xCC => Some(PacketAddress::RaceTag),
            0xEA => Some(PacketAddress::Handset),
            0xEC => Some(PacketAddress::Receiver),
            0xEE => Some(PacketAddress::Transmitter),
            0xEF => Some(PacketAddress::ElrsLua),
            _ => None,
        }
    }
}

/// Converting an address to its byte and back gives the address again.
pub proof fn lemma_address_byte_round_trip(a: PacketAddress)
    ensures
        address_of_byte(address_byte(a)) == Some(a),
{
}

/// A byte that names an address is that address's wire value.
pub proof fn lemma_byte_address_round_trip(b: u8)
    ensures
        address_of_byte(b) matches Some(a) ==> address_byte(a) == b,
{
}

impl From<PacketAddress> for u8 {
    fn from(a: PacketAddress) -> (r: u8) {
        a.to_byte()
    }
}

impl vstd::std_specs::convert::FromSpecImpl<PacketAddress> for u8 {
    open spec fn obeys_from_spec() -> bool {
        true
    }

    open spec fn from_spec(a: PacketAddress) -> u8 {
        address_byte(a)
    }
}

impl TryFrom<u8> for PacketAddress {
    type Error = u8;

    fn try_from(b: u8) -> (r: Result<PacketAddress, u8>) {
        match PacketAddress::from_byte(b) {
            Some(a) => Ok(a),
            None => Err(b),
        }
    }
}

impl vstd::std_specs::convert::TryFromSpecImpl<u8> for PacketAddress {
    open spec fn obeys_try_from_spec() -> bool {
        true
    }

    open spec fn try_from_spec(b: u8) -> Result<PacketAddress, u8> {
        match address_of_byte(b) {
            Some(a) => Ok(a),
            None => Err(b),
        }
    }
}

/// Frame type; the byte after the length byte.
#[derive(Debug, Clone, Copy, PartialEq, Eq, Hash, Structural)]
pub enum PacketType {
    Gps,
    GpsTime,
    GpsExtended,
    Variometer,
    BatterySensor,
    BaroAltitude,
    Airspeed,
    Heartbeat,
    Rpm,
    Temp,
    Voltages,
    Discontinued,
    VtxTelemetry,
    Barometer,
    Magnetometer,
    AccelGyro,
    LinkStatistics,
    RcChannelsPacked,
    SubsetRcChannelsPacked,
    RcChannelsPacked11Bits,
    LinkStatisticsRx,
    LinkStatisticsTx,
    Attitude,
    MavlinkFc,
    FlightMode,
    EspNow,
    DevicePing,
    DeviceInfo,
    ParameterSettingsEntry,
    ParameterRead,
    ParameterWrite,
    ElrsStatus,
    Command,
    Logging,
    RadioId,
    Game,
    KissReq,
    KissResp,
    MspRequest,
    MspResponse,
    ArdupilotLegacy,
    ArdupilotResponse,
    MlrsStart,
    MlrsEnd,
    MavlinkEnvelope,
    MavlinkSystemStatus,
}

/// The wire value of each frame type.
pub open spec fn packet_type_byte(t: PacketType) -> u8 {
    match t {
        PacketType::Gps => 0x02,
        PacketType::GpsTime => 0x03,
        PacketType::GpsExtended => 0x06,
        PacketType::Variometer => 0x07,
        PacketType::BatterySensor => 0x08,
        PacketType::BaroAltitude => 0x09,
        PacketType::Airspeed => 0x0A,
        PacketType::Heartbeat => 0x0B,
        PacketType::Rpm => 0x0C,
        PacketType::Temp => 0x0D,
        PacketType::Voltages => 0x0E,
        PacketType::Discontinued => 0x0F,
        PacketType::VtxTelemetry => 0x10,
        PacketType::Barometer => 0x11,
        PacketType::Magnetometer => 0x12,
        PacketType::AccelGyro => 0x13,
        PacketType::LinkStatistics => 0x14,
        PacketType::RcChannelsPacked => 0x16,
        PacketType::SubsetRcChannelsPacked => 0x17,
        PacketType::RcChannelsPacked11Bits => 0x18,
        PacketType::LinkStatisticsRx => 0x1C,
        PacketType::LinkStatisticsTx => 0x1D,
        PacketType::Attitude => 0x1E,
        PacketType::MavlinkFc => 0x1F,
        PacketType::FlightMode => 0x21,
        PacketType::EspNow => 0x22,
        PacketType::DevicePing => 0x28,
        PacketType::DeviceInfo => 0x29,
        PacketType::ParameterSettingsEntry => 0x2B,
        PacketType::ParameterRead => 0x2C,
        PacketType::ParameterWrite => 0x2D,
        PacketType::ElrsStatus => 0x2E,
        PacketType::Command => 0x32,
        PacketType::Logging => 0x34,
        PacketType::RadioId => 0x3A,
        PacketType::Game => 0x3C,
        PacketType::KissReq => 0x78,
        PacketType::KissResp => 0x79,
        PacketType::MspRequest => 0x7A,
        PacketType::MspResponse => 0x7B,
        PacketType::ArdupilotLegacy => 0x7F,
        PacketType::ArdupilotResponse => 0x80,
        PacketType::MlrsStart => 0x81,
        PacketType::MlrsEnd => 0x82,
        PacketType::MavlinkEnvelope => 0xAA,
        PacketType::MavlinkSystemStatus => 0xAC,
    }
}

/// The frame type a byte stands for, if any.
pub open spec fn packet_type_of_byte(b: u8) -> Option<PacketType> {
    if b == 0x02 {
        Some(PacketType::Gps)
    } else if b == 0x03 {
        Some(PacketType::GpsTime)
    } else if b == 0x06 {
        Some(PacketType::GpsExtended)
    } else if b == 0x07 {
        Some(PacketType::Variometer)
    } else if b == 0x08 {
        Some(PacketType::BatterySensor)
    } else if b == 0x09 {
        Some(PacketType::BaroAltitude)
    } else if b == 0x0A {
        Some(PacketType::Airspeed)
    } else if b == 0x0B {
        Some(PacketType::Heartbeat)
    } else if b == 0x0C {
        Some(PacketType::Rpm)
    } else if b == 0x0D {
        Some(PacketType::Temp)
    } else if b == 0x0E {
        Some(PacketType::Voltages)
    } else if b == 0x0F {
        Some(PacketType::Discontinued)
    } else if b == 0x10 {
        Some(PacketType::VtxTelemetry)
    } else if b == 0x11 {
        Some(PacketType::Barometer)
    } else if b == 0x12 {
        Some(PacketType::Magnetometer)
    } else if b == 0x13 {
        Some(PacketType::AccelGyro)
    } else if b == 0x14 {
        Some(PacketType::LinkStatistics)
    } else if b == 0x16 {
        Some(PacketType::RcChannelsPacked)
    } else if b == 0x17 {
        Some(PacketType::SubsetRcChannelsPacked)
    } else if b == 0x18 {
        Some(PacketType::RcChannelsPacked11Bits)
    } else if b == 0x1C {
        Some(PacketType::LinkStatisticsRx)
    } else if b == 0x1D {
        Some(PacketType::LinkStatisticsTx)
    } else if b == 0x1E {
        Some(PacketType::Attitude)
    } else if b == 0x1F {
        Some(PacketType::MavlinkFc)
    } else if b == 0x21 {
        Some(PacketType::FlightMode)
    } else if b == 0x22 {
        Some(PacketType::EspNow)
    } else if b == 0x28 {
        Some(PacketType::DevicePing)
    } else if b == 0x29 {
        Some(PacketType::DeviceInfo)
    } else if b == 0x2B {
        Some(PacketType::ParameterSettingsEntry)
    } else if b == 0x2C {
        Some(PacketType::ParameterRead)
    } else if b == 0x2D {
        Some(PacketType::ParameterWrite)
    } else if b == 0x2E {
        Some(PacketType::ElrsStatus)
    } else if b == 0x32 {
        Some(PacketType::Command)
    } else if b == 0x34 {
        Some(PacketType::Logging)
    } else if b == 0x3A {
        Some(PacketType::RadioId)
    } else if b == 0x3C {
        Some(PacketType::Game)
    } else if b == 0x78 {
        Some(PacketType::KissReq)
    } else if b == 0x79 {
        Some(PacketType::KissResp)
    } else if b == 0x7A {
        Some(PacketType::MspRequest)
    } else if b == 0x7B {
        Some(PacketType::MspResponse)
    } else if b == 0x7F {
        Some(PacketType::ArdupilotLegacy)
    } else if b == 0x80 {
        Some(PacketType::ArdupilotResponse)
    } else if b == 0x81 {
        Some(PacketType::MlrsStart)
    } else if b == 0x82 {
        Some(PacketType::MlrsEnd)
    } else if b == 0xAA {
        Some(PacketType::MavlinkEnvelope)
    } else if b == 0xAC {
        Some(PacketType::MavlinkSystemStatus)
    } else {
        None
    }
}

impl PacketType {
    /// The wire value of the frame type.
    pub fn to_byte(self) -> (r: u8)
        ensures
            r == packet_type_byte(self),
    {
        match self {
            PacketType::Gps => 0x02,
            PacketType::GpsTime => 0x03,
            PacketType::GpsExtended => 0x06,
            PacketType::Variometer => 0x07,
            PacketType::BatterySensor => 0x08,
            PacketType::BaroAltitude => 0x09,
            PacketType::Airspeed => 0x0A,
            PacketType::Heartbeat => 0x0B,
            PacketType::Rpm => 0x0C,
            PacketType::Temp => 0x0D,
            PacketType::Voltages => 0x0E,
            PacketType::Discontinued => 0x0F,
            PacketType::VtxTelemetry => 0x10,
            PacketType::Barometer => 0x11,
            PacketType::Magnetometer => 0x12,
            PacketType::AccelGyro => 0x13,
            PacketType::LinkStatistics => 0x14,
            PacketType::RcChannelsPacked => 0x16,
            PacketType::SubsetRcChannelsPacked => 0x17,
            PacketType::RcChannelsPacked11Bits => 0x18,
            PacketType::LinkStatisticsRx => 0x1C,
            PacketType::LinkStatisticsTx => 0x1D,
            PacketType::Attitude => 0x1E,
            PacketType::MavlinkFc => 0x1F,
            PacketType::FlightMode => 0x21,
            PacketType::EspNow => 0x22,
            PacketType::DevicePing => 0x28,
            PacketType::DeviceInfo => 0x29,
            PacketType::ParameterSettingsEntry => 0x2B,
            PacketType::ParameterRead => 0x2C,
            PacketType::ParameterWrite => 0x2D,
            PacketType::ElrsStatus => 0x2E,
            PacketType::Command => 0x32,
            PacketType::Logging => 0x34,
            PacketType::RadioId => 0x3A,
            PacketType::Game => 0x3C,
            PacketType::KissReq => 0x78,
            PacketType::KissResp => 0x79,
            PacketType::MspRequest => 0x7A,
            PacketType::MspResponse => 0x7B,
            PacketType::ArdupilotLegacy => 0x7F,
            PacketType::ArdupilotResponse => 0x80,
            PacketType::MlrsStart => 0x81,
            PacketType::MlrsEnd => 0x82,
            PacketType::MavlinkEnvelope => 0xAA,
            PacketType::MavlinkSystemStatus => 0xAC,
        }
    }

    /// The frame type a byte stands for; `None` for a byte that is no frame type.
    pub fn from_byte(b: u8) -> (r: Option<PacketType>)
        ensures
            r == packet_type_of_byte(b),
    {
        match b {
            0x02 => Some(PacketType::Gps),
            0x03 => Some(PacketType::GpsTime),
            0x06 => Some(PacketType::GpsExtended),
            0x07 => Some(PacketType::Variometer),
            0x08 => Some(PacketType::BatterySensor),
            0x09 => Some(PacketType::BaroAltitude),
            0x0A => Some(PacketType::Airspeed),
            0x0B => Some(PacketType::Heartbeat),
            0x0C => Some(PacketType::Rpm),
            0x0D => Some(PacketType::Temp),
            0x0E => Some(PacketType::Voltages),
            0x0F => Some(PacketType::Discontinued),
            0x10 => Some(PacketType::VtxTelemetry),
            0x11 => Some(PacketType::Barometer),
            0x12 => Some(PacketType::Magnetometer),
            0x13 => Some(PacketType::AccelGyro),
            0x14 => Some(PacketType::LinkStatistics),
            0x16 => Some(PacketType::RcChannelsPacked),
            0x17 => Some(PacketType::SubsetRcChannelsPacked),
            0x18 => Some(PacketType::RcChannelsPacked11Bits),
            0x1C => Some(PacketType::LinkStatisticsRx),
            0x1D => Some(PacketType::LinkStatisticsTx),
            0x1E => Some(PacketType::Attitude),
            0x1F => Some(PacketType::MavlinkFc),
            0x21 => Some(PacketType::FlightMode),
            0x22 => Some(PacketType::EspNow),
            0x28 => Some(PacketType::DevicePing),
            0x29 => Some(PacketType::DeviceInfo),
            0x2B => Some(PacketType::ParameterSettingsEntry),
            0x2C => Some(PacketType::ParameterRead),
            0x2D => Some(PacketType::ParameterWrite),
            0x2E => Some(PacketType::ElrsStatus),
            0x32 => Some(PacketType::Command),
            0x34 => Some(PacketType::Logging),
            0x3A => Some(PacketType::RadioId),
            0x3C => Some(PacketType::Game),
            0x78 => Some(PacketType::KissReq),
            0x79 => Some(PacketType::KissResp),
            0x7A => Some(PacketType::MspRequest),
            0x7B => Some(PacketType::MspResponse),
            0x7F => Some(PacketType::ArdupilotLegacy),
            0x80 => Some(PacketType::ArdupilotResponse),
            0x81 => Some(PacketType::MlrsStart),
            0x82 => Some(PacketType::MlrsEnd),
            0xAA => Some(PacketType::MavlinkEnvelope),
            0xAC => Some(PacketType::MavlinkSystemStatus),
            _ => None,
        }
    }
}

/// Converting a frame type to its byte and back gives the frame type again.
pub proof fn lemma_packet_type_byte_round_trip(t: PacketType)
    ensures
        packet_type_of_byte(packet_type_byte(t)) == Some(t),
{
}

impl From<PacketType> for u8 {
    fn from(t: PacketType) -> (r: u8) {
        t.to_byte()
    }
}

impl vstd::std_specs::convert::FromSpecImpl<PacketType> for u8 {
    open spec fn obeys_from_spec() -> bool {
        true
    }

    open spec fn from_spec(t: PacketType) -> u8 {
        packet_type_byte(t)
    }
}

impl TryFrom<u8> for PacketType {
    type Error = u8;

    fn try_from(b: u8) -> (r: Result<PacketType, u8>) {
        match PacketType::from_byte(b) {
            Some(t) => Ok(t),
            None => Err(b),
        }
    }
}

impl vstd::std_specs::convert::TryFromSpecImpl<u8> for PacketType {
    open spec fn obeys_try_from_spec() -> bool {
        true
    }

    open spec fn try_from_spec(b: u8) -> Result<PacketType, u8> {
        match packet_type_of_byte(b) {
            Some(t) => Ok(t),
            None => Err(b),
        }
    }
}

} // verus!

//! GPS position (frame type 0x02).
use vstd::prelude::*;

use crate::packets::wire::{
    be16, be16_at, be32, be32_at, get_be16, get_be32, lemma_be16_round_trip, lemma_be32_round_trip,
    lemma_i32_cast, put_be16, put_be32, splice,
};
use crate::packets::{CrsfPacket, PacketType};
use crate::CrsfParsingError;

verus! {

/// GPS position, speed and heading.
#[derive(Clone, Debug, PartialEq, Structural)]
pub struct Gps {
    /// Latitude in degrees times 10^7.
    pub latitude: i32,
    /// Longitude in degrees times 10^7.
    pub longitude: i32,
    /// Ground speed in 0.01 km/h.
    pub groundspeed: u16,
    /// Heading in 0.01 degrees.
    pub heading: u16,
    /// Altitude in metres plus 1000, so that 0 stands for -1000 m.
    pub altitude: u16,
    /// Satellites in view.
    pub satellites: u8,
}

/// The raw altitude of an altitude in metres: metres plus the 1000 m offset,
/// refused when outside -1000 m ..= 64535 m.
pub open spec fn spec_meters_to_raw(meters: i32) -> Result<u16, CrsfParsingError> {
    if meters + 1000 < 0 || meters + 1000 > 0xFFFF {
        Err(CrsfParsingError::InvalidPayload)
    } else {
        Ok((meters + 1000) as u16)
    }
}

impl Gps {
    /// A GPS packet from raw field values; never fails.
    pub fn new(
        latitude: i32,
        longitude: i32,
        groundspeed: u16,
        heading: u16,
        altitude: u16,
        satellites: u8,
    ) -> (r: Result<Self, CrsfParsingError>)
        ensures
            r == Ok::<Self, CrsfParsingError>(
                Gps { latitude, longitude, groundspeed, heading, altitude, satellites },
            ),
    {
        Ok(Self { latitude, longitude, groundspeed, heading, altitude, satellites })
    }

    /// A GPS packet with the altitude given in metres; `InvalidPayload` when
    /// the altitude is outside -1000 m ..= 64535 m.
    pub fn from_components(
        latitude: i32,
        longitude: i32,
        groundspeed: u16,
        heading: u16,
        altitude_meters: i32,
        satellites: u8,
    ) -> (r: Result<Self, CrsfParsingError>)
        ensures
            r == (match spec_meters_to_raw(altitude_meters) {
                Ok(altitude) => Ok(Gps { latitude, longitude, groundspeed, heading, altitude, satellites }),
                Err(e) => Err(e),
            }),
    {
        let altitude = Self::meters_to_raw(altitude_meters)?;
        Ok(Self { latitude, longitude, groundspeed, heading, altitude, satellites })
    }

    /// The altitude in metres: the raw value minus the 1000 m offset.
    pub fn altitude_meters(&self) -> (r: i32)
        ensures
            r == self.altitude - 1000,
    {
        self.altitude as i32 - 1000
    }

    /// Sets the altitude from metres; `InvalidPayload`, with the packet left
    /// unchanged, when outside -1000 m ..= 64535 m.
    pub fn set_altitude_meters(&mut self, meters: i32) -> (r: Result<(), CrsfParsingError>)
        ensures
            match spec_meters_to_raw(meters) {
                Ok(raw) => r is Ok && *final(self) == (Gps { altitude: raw, ..*old(self) }),
                Err(e) => r == Err::<(), CrsfParsingError>(e) && *final(self) == *old(self),
            },
    {
        self.altitude = Self::meters_to_raw(meters)?;
        Ok(())
    }

    fn meters_to_raw(meters: i32) -> (r: Result<u16, CrsfParsingError>)
        ensures
            r == spec_meters_to_raw(meters),
    {
        let raw = meters as i64 + 1000;
        if raw < 0 || raw > 0xFFFF {
            return Err(CrsfParsingError::InvalidPayload);
        }
        Ok(raw as u16)
    }
}

/// Metres turned into the raw altitude and back give the metres again, over
/// the whole representable range.
pub proof fn lemma_altitude_round_trip(meters: i32)
    requires
        -1000 <= meters <= 64535,
    ensures
        spec_meters_to_raw(meters) matches Ok(raw) && raw - 1000 == meters,
{
}

impl View for Gps {
    type V = Gps;

    open spec fn view(&self) -> Gps {
        *self
    }
}

impl CrsfPacket for Gps {
    const PACKET_TYPE: PacketType = PacketType::Gps;
    const MIN_PAYLOAD_SIZE: usize = 15;

    open spec fn spec_to_bytes(&self) -> Seq<u8> {
        be32(self.latitude as u32) + be32(self.longitude as u32) + be16(self.groundspeed) + be16(
            self.heading,
        ) + be16(self.altitude) + seq![self.satellites]
    }

    /// The fields in order, big-endian; bytes after the fifteenth are ignored.
    open spec fn spec_from_bytes(data: Seq<u8>) -> Result<Self, CrsfParsingError> {
        if data.len() < 15 {
            Err(CrsfParsingError::InvalidPayloadLength)
        } else {
            Ok(
                Gps {
                    latitude: be32_at(data, 0) as i32,
                    longitude: be32_at(data, 4) as i32,
                    groundspeed: be16_at(data, 8),
                    heading: be16_at(data, 10),
                    altitude: be16_at(data, 12),
                    satellites: data[14],
                },
            )
        }
    }

    open spec fn payload_readable(data: Seq<u8>) -> bool {
        true
    }

    fn to_bytes(&self, buffer: &mut [u8]) -> (r: Result<usize, CrsfParsingError>)
        ensures
            r is Err ==> final(buffer)@ == old(buffer)@,
    {
        self.validate_buffer_size(buffer)?;
        put_be32(buffer, 0, self.latitude as u32);
        put_be32(buffer, 4, self.longitude as u32);
        put_be16(buffer, 8, self.groundspeed);
        put_be16(buffer, 10, self.heading);
        put_be16(buffer, 12, self.altitude);
        buffer[14] = self.satellites;
        assert(buffer@ =~= splice(old(buffer)@, 0, self.spec_to_bytes()));
        Ok(Self::MIN_PAYLOAD_SIZE)
    }

    fn from_bytes(data: &[u8]) -> (r: Result<Self, CrsfParsingError>) {
        if data.len() < Self::MIN_PAYLOAD_SIZE {
            return Err(CrsfParsingError::InvalidPayloadLength);
        }
        Ok(
            Self {
                latitude: get_be32(data, 0) as i32,
                longitude: get_be32(data, 4) as i32,
                groundspeed: get_be16(data, 8),
                heading: get_be16(data, 10),
                altitude: get_be16(data, 12),
                satellites: data[14],
            },
        )
    }
}

/// Decoding the bytes of a GPS packet gives the packet back.
pub proof fn lemma_gps_round_trip(p: Gps)
    ensures
        Gps::spec_from_bytes(p.spec_to_bytes()) == Ok::<Gps, CrsfParsingError>(p),
{
    lemma_be32_round_trip(p.latitude as u32);
    lemma_be32_round_trip(p.longitude as u32);
    lemma_i32_cast(p.latitude);
    lemma_i32_cast(p.longitude);
    lemma_be16_round_trip(p.groundspeed);
    lemma_be16_round_trip(p.heading);
    lemma_be16_round_trip(p.altitude);
    let b = p.spec_to_bytes();
    let la = be32(p.latitude as u32);
    let lo = be32(p.longitude as u32);
    assert(b[0] == la[0] && b[1] == la[1] && b[2] == la[2] && b[3] == la[3]);
    assert(b[4] == lo[0] && b[5] == lo[1] && b[6] == lo[2] && b[7] == lo[3]);
    assert(b[8] == be16(p.groundspeed)[0] && b[9] == be16(p.groundspeed)[1]);
    assert(b[10] == be16(p.heading)[0] && b[11] == be16(p.heading)[1]);
    assert(b[12] == be16(p.altitude)[0] && b[13] == be16(p.altitude)[1]);
}

/// GPS data travels as frame type 0x02.
pub proof fn lemma_gps_packet_type()
    ensures
        Gps::PACKET_TYPE == PacketType::Gps,
{
}

/// The GPS payload layout, big-endian: latitude in bytes 0 to 3 and
/// longitude in bytes 4 to 7 (two's complement), ground speed in bytes 8 and
/// 9, heading in 10 and 11, altitude in 12 and 13, and the satellite count in
/// byte 14. Every payload of at least 15 bytes is read that way, and a
/// packet is written that way.
pub proof fn lemma_gps_layout(d: Seq<u8>, p: Gps)
    ensures
        d.len() >= 15 ==> (Gps::spec_from_bytes(d) matches Ok(v) && v.latitude as u32 == d[0] * 0x1000000
            + d[1] * 0x10000 + d[2] * 0x100 + d[3] && v.longitude as u32 == d[4] * 0x1000000 + d[5] * 0x10000
            + d[6] * 0x100 + d[7] && v.groundspeed == d[8] * 0x100 + d[9] && v.heading == d[10] * 0x100 + d[11]
            && v.altitude == d[12] * 0x100 + d[13] && v.satellites == d[14]),
        d.len() < 15 ==> Gps::spec_from_bytes(d) is Err,
        ({
            let w = p.spec_to_bytes();
            &&& w.len() == 15
            &&& w[0] * 0x1000000 + w[1] * 0x10000 + w[2] * 0x100 + w[3] == p.latitude as u32
            &&& w[4] * 0x1000000 + w[5] * 0x10000 + w[6] * 0x100 + w[7] == p.longitude as u32
            &&& w[8] * 0x100 + w[9] == p.groundspeed
            &&& w[10] * 0x100 + w[11] == p.heading
            &&& w[12] * 0x100 + w[13] == p.altitude
            &&& w[14] == p.satellites
        }),
{
    if d.len() >= 15 {
        crate::packets::wire::lemma_be32_at_value(d, 0);
        crate::packets::wire::lemma_be32_at_value(d, 4);
        crate::packets::wire::lemma_be16_at_value(d, 8);
        crate::packets::wire::lemma_be16_at_value(d, 10);
        crate::packets::wire::lemma_be16_at_value(d, 12);
        crate::packets::wire::lemma_u32_bits(be32_at(d, 0));
        crate::packets::wire::lemma_u32_bits(be32_at(d, 4));
    }
    let a = be32(p.latitude as u32);
    let b = be32(p.longitude as u32);
    let c = be16(p.groundspeed);
    let e = be16(p.heading);
    let f = be16(p.altitude);
    crate::packets::wire::lemma_be32_bytes(p.latitude as u32);
    crate::packets::wire::lemma_be32_bytes(p.longitude as u32);
    crate::packets::wire::lemma_be16_bytes(p.groundspeed);
    crate::packets::wire::lemma_be16_bytes(p.heading);
    crate::packets::wire::lemma_be16_bytes(p.altitude);
    let w = p.spec_to_bytes();
    assert(w =~= a + b + c + e + f + seq![p.satellites]);
    assert(w[0] == a[0] && w[1] == a[1] && w[2] == a[2] && w[3] == a[3]);
    assert(w[4] == b[0] && w[5] == b[1] && w[6] == b[2] && w[7] == b[3]);
    assert(w[8] == c[0] && w[9] == c[1] && w[10] == e[0] && w[11] == e[1] && w[12] == f[0] && w[13] == f[1]);
}

} // verus!

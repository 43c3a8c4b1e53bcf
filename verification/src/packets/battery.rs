//! Battery sensor (frame type 0x08).
use vstd::prelude::*;

use crate::packets::wire::{
    be16, be16_at, be24, be24_at, get_be16, get_be24, lemma_be16_round_trip, lemma_be24_round_trip,
    lemma_i16_cast, put_be16, put_be24, splice,
};
use crate::packets::{CrsfPacket, PacketType};
use crate::CrsfParsingError;

verus! {

/// Battery telemetry from the flight controller.
///
/// The payload is voltage and current as big-endian 16-bit signed values,
/// the used capacity as a big-endian 24-bit value, and the remaining charge.
#[derive(Default, Clone, Debug, PartialEq, Structural)]
pub struct Battery {
    /// Voltage in 10 mV units.
    pub voltage: i16,
    /// Current in 10 mA units; positive while discharging.
    pub current: i16,
    /// Capacity used in mAh; only its low 24 bits travel.
    pub capacity_used: u32,
    /// Remaining charge in percent.
    pub remaining: u8,
}

impl Battery {
    /// A battery packet; never fails.
    pub fn new(voltage: i16, current: i16, capacity_used: u32, remaining: u8) -> (r: Result<
        Self,
        CrsfParsingError,
    >)
        ensures
            r == Ok::<Self, CrsfParsingError>(Battery { voltage, current, capacity_used, remaining }),
    {
        Ok(Self { voltage, current, capacity_used, remaining })
    }
}

impl View for Battery {
    type V = Battery;

    open spec fn view(&self) -> Battery {
        *self
    }
}

impl CrsfPacket for Battery {
    const PACKET_TYPE: PacketType = PacketType::BatterySensor;
    const MIN_PAYLOAD_SIZE: usize = 8;

    open spec fn spec_to_bytes(&self) -> Seq<u8> {
        be16(self.voltage as u16) + be16(self.current as u16) + be24(self.capacity_used) + seq![
            self.remaining,
        ]
    }

    /// The fields in order, the capacity zero-extended; bytes after the
    /// eighth are ignored.
    open spec fn spec_from_bytes(data: Seq<u8>) -> Result<Self, CrsfParsingError> {
        if data.len() < 8 {
            Err(CrsfParsingError::InvalidPayloadLength)
        } else {
            Ok(
                Battery {
                    voltage: be16_at(data, 0) as i16,
                    current: be16_at(data, 2) as i16,
                    capacity_used: be24_at(data, 4),
                    remaining: data[7],
                },
            )
        }
    }

    open spec fn payload_readable(data: Seq<u8>) -> bool {
        true
    }

    fn to_bytes(&self, buffer: &mut [u8]) -> (r: Result<usize, CrsfParsingError>)
        ensures
            r is Err ==> final(buffer)@ == old(buffer)@,
    {
        self.validate_buffer_size(buffer)?;
        put_be16(buffer, 0, self.voltage as u16);
        put_be16(buffer, 2, self.current as u16);
        put_be24(buffer, 4, self.capacity_used);
        buffer[7] = self.remaining;
        assert(buffer@ =~= splice(old(buffer)@, 0, self.spec_to_bytes()));
        Ok(Self::MIN_PAYLOAD_SIZE)
    }

    fn from_bytes(data: &[u8]) -> (r: Result<Self, CrsfParsingError>) {
        if data.len() < Self::MIN_PAYLOAD_SIZE {
            return Err(CrsfParsingError::InvalidPayloadLength);
        }
        Ok(
            Self {
                voltage: get_be16(data, 0) as i16,
                current: get_be16(data, 2) as i16,
                capacity_used: get_be24(data, 4),
                remaining: data[7],
            },
        )
    }
}

/// Decoding the bytes of a battery packet gives the packet back when its
/// capacity fits the 24 bits that travel.
pub proof fn lemma_battery_round_trip(p: Battery)
    requires
        p.capacity_used < 0x1000000,
    ensures
        Battery::spec_from_bytes(p.spec_to_bytes()) == Ok::<Battery, CrsfParsingError>(p),
{
    lemma_be16_round_trip(p.voltage as u16);
    lemma_be16_round_trip(p.current as u16);
    lemma_i16_cast(p.voltage);
    lemma_i16_cast(p.current);
    lemma_be24_round_trip(p.capacity_used);
    let b = p.spec_to_bytes();
    assert(b[0] == be16(p.voltage as u16)[0] && b[1] == be16(p.voltage as u16)[1]);
    assert(b[2] == be16(p.current as u16)[0] && b[3] == be16(p.current as u16)[1]);
    assert(b[4] == be24(p.capacity_used)[0] && b[5] == be24(p.capacity_used)[1] && b[6]
        == be24(p.capacity_used)[2]);
}

/// Battery data travels as frame type 0x08.
pub proof fn lemma_battery_packet_type()
    ensures
        Battery::PACKET_TYPE == PacketType::BatterySensor,
{
}

/// The battery payload layout, big-endian: voltage in bytes 0 and 1 and
/// current in bytes 2 and 3 (two's complement), capacity used in bytes 4 to
/// 6, and the remaining percentage in byte 7. Every payload of at least 8
/// bytes is read that way, and a packet is written that way (the capacity
/// by its low 24 bits).
pub proof fn lemma_battery_layout(d: Seq<u8>, p: Battery)
    ensures
        d.len() >= 8 ==> (Battery::spec_from_bytes(d) matches Ok(v) && v.voltage as u16 == d[0] * 0x100 + d[1]
            && v.current as u16 == d[2] * 0x100 + d[3] && v.capacity_used == d[4] * 0x10000 + d[5] * 0x100 + d[6]
            && v.remaining == d[7]),
        d.len() < 8 ==> Battery::spec_from_bytes(d) is Err,
        ({
            let w = p.spec_to_bytes();
            &&& w.len() == 8
            &&& w[0] * 0x100 + w[1] == p.voltage as u16
            &&& w[2] * 0x100 + w[3] == p.current as u16
            &&& w[4] * 0x10000 + w[5] * 0x100 + w[6] == p.capacity_used % 0x1000000
            &&& w[7] == p.remaining
        }),
{
    if d.len() >= 8 {
        crate::packets::wire::lemma_be16_at_value(d, 0);
        crate::packets::wire::lemma_be16_at_value(d, 2);
        crate::packets::wire::lemma_u16_bits(be16_at(d, 0));
        crate::packets::wire::lemma_u16_bits(be16_at(d, 2));
        let (b4, b5, b6) = (d[4], d[5], d[6]);
        assert(0 <= b4 * 0x10000 + b5 * 0x100 + b6 < 0x1000000) by (nonlinear_arith)
            requires
                0 <= b4 < 0x100,
                0 <= b5 < 0x100,
                0 <= b6 < 0x100,
        ;
    }
    let a = be16(p.voltage as u16);
    let b = be16(p.current as u16);
    let c = crate::packets::wire::be32(p.capacity_used);
    crate::packets::wire::lemma_be16_bytes(p.voltage as u16);
    crate::packets::wire::lemma_be16_bytes(p.current as u16);
    crate::packets::wire::lemma_be32_bytes(p.capacity_used);
    let w = p.spec_to_bytes();
    assert(w =~= a + b + c.subrange(1, 4) + seq![p.remaining]);
    assert(w[0] == a[0] && w[1] == a[1] && w[2] == b[0] && w[3] == b[1]);
    assert(w[4] == c[1] && w[5] == c[2] && w[6] == c[3]);
    let v = p.capacity_used;
    assert(c[0] == v / 0x1000000);
    assert(c[1] * 0x10000 + c[2] * 0x100 + c[3] == v % 0x1000000) by (nonlinear_arith)
        requires
            c[0] * 0x1000000 + c[1] * 0x10000 + c[2] * 0x100 + c[3] == v,
            c[0] == v / 0x1000000,
            0 <= v,
    ;
}

} // verus!

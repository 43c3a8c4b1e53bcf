//! RC channels (frame type 0x16): sixteen 11-bit channels in 22 bytes.
use vstd::prelude::*;

use crate::packets::wire::splice;
use crate::packets::{CrsfPacket, PacketType};
use crate::CrsfParsingError;

verus! {

/// Sixteen RC channels, each an 11-bit value in CRSF ticks (992 is the
/// centre, 1500 us).
///
/// On the wire the channels are packed back to back, least significant bit
/// first: channel `i` takes bits `11 * i .. 11 * i + 11` of the 176-bit
/// little-endian payload.
#[derive(Debug, PartialEq, Eq, Clone)]
pub struct RcChannelsPacked {
    /// The channel values in ticks (0..=2047).
    pub channels: [u16; 16],
}

/// The 22 payload bytes of sixteen channel values: byte `j` holds bits
/// `8 * j .. 8 * j + 8` of the channels laid end to end.
pub open spec fn rc_pack(c0: u16, c1: u16, c2: u16, c3: u16, c4: u16, c5: u16, c6: u16, c7: u16, c8: u16, c9: u16, c10: u16, c11: u16, c12: u16, c13: u16, c14: u16, c15: u16) -> Seq<u8> {
    seq![
        (c0) as u8,
        ((c0 >> 8u16) | (c1 << 3u16)) as u8,
        ((c1 >> 5u16) | (c2 << 6u16)) as u8,
        (c2 >> 2u16) as u8,
        ((c2 >> 10u16) | (c3 << 1u16)) as u8,
        ((c3 >> 7u16) | (c4 << 4u16)) as u8,
        ((c4 >> 4u16) | (c5 << 7u16)) as u8,
        (c5 >> 1u16) as u8,
        ((c5 >> 9u16) | (c6 << 2u16)) as u8,
        ((c6 >> 6u16) | (c7 << 5u16)) as u8,
        (c7 >> 3u16) as u8,
        (c8) as u8,
        ((c8 >> 8u16) | (c9 << 3u16)) as u8,
        ((c9 >> 5u16) | (c10 << 6u16)) as u8,
        (c10 >> 2u16) as u8,
        ((c10 >> 10u16) | (c11 << 1u16)) as u8,
        ((c11 >> 7u16) | (c12 << 4u16)) as u8,
        ((c12 >> 4u16) | (c13 << 7u16)) as u8,
        (c13 >> 1u16) as u8,
        ((c13 >> 9u16) | (c14 << 2u16)) as u8,
        ((c14 >> 6u16) | (c15 << 5u16)) as u8,
        (c15 >> 3u16) as u8,
    ]
}

/// The sixteen 11-bit channel values of 22 payload bytes.
pub open spec fn rc_unpack(d0: u16, d1: u16, d2: u16, d3: u16, d4: u16, d5: u16, d6: u16, d7: u16, d8: u16, d9: u16, d10: u16, d11: u16, d12: u16, d13: u16, d14: u16, d15: u16, d16: u16, d17: u16, d18: u16, d19: u16, d20: u16, d21: u16) -> Seq<u16> {
    seq![
        0x7FFu16 & (d0 | (d1 << 8u16)),
        0x7FFu16 & ((d1 >> 3u16) | (d2 << 5u16)),
        0x7FFu16 & ((d2 >> 6u16) | (d3 << 2u16) | (d4 << 10u16)),
        0x7FFu16 & ((d4 >> 1u16) | (d5 << 7u16)),
        0x7FFu16 & ((d5 >> 4u16) | (d6 << 4u16)),
        0x7FFu16 & ((d6 >> 7u16) | (d7 << 1u16) | (d8 << 9u16)),
        0x7FFu16 & ((d8 >> 2u16) | (d9 << 6u16)),
        0x7FFu16 & ((d9 >> 5u16) | (d10 << 3u16)),
        0x7FFu16 & (d11 | (d12 << 8u16)),
        0x7FFu16 & ((d12 >> 3u16) | (d13 << 5u16)),
        0x7FFu16 & ((d13 >> 6u16) | (d14 << 2u16) | (d15 << 10u16)),
        0x7FFu16 & ((d15 >> 1u16) | (d16 << 7u16)),
        0x7FFu16 & ((d16 >> 4u16) | (d17 << 4u16)),
        0x7FFu16 & ((d17 >> 7u16) | (d18 << 1u16) | (d19 << 9u16)),
        0x7FFu16 & ((d19 >> 2u16) | (d20 << 6u16)),
        0x7FFu16 & ((d20 >> 5u16) | (d21 << 3u16)),
    ]
}

/// The payload of a channel array.
pub open spec fn rc_channels_bytes(c: Seq<u16>) -> Seq<u8> {
    rc_pack(c[0], c[1], c[2], c[3], c[4], c[5], c[6], c[7], c[8], c[9], c[10], c[11], c[12], c[13], c[14], c[15])
}

/// The channels of a 22-byte payload.
pub open spec fn rc_channels_of_bytes(d: Seq<u8>) -> Seq<u16> {
    rc_unpack(d[0] as u16, d[1] as u16, d[2] as u16, d[3] as u16, d[4] as u16, d[5] as u16, d[6] as u16, d[7] as u16, d[8] as u16, d[9] as u16, d[10] as u16, d[11] as u16, d[12] as u16, d[13] as u16, d[14] as u16, d[15] as u16, d[16] as u16, d[17] as u16, d[18] as u16, d[19] as u16, d[20] as u16, d[21] as u16)
}

/// Whether every channel fits its 11 bits.
pub open spec fn rc_channels_in_range(c: Seq<u16>) -> bool {
    forall|i: int| 0 <= i < c.len() ==> #[trigger] c[i] < 2048
}

/// Truncating integer division, as Rust's `/` on signed integers.
pub open spec fn trunc_div(a: int, b: int) -> int
    recommends
        b > 0,
{
    if a >= 0 {
        a / b
    } else {
        -((-a) / b)
    }
}

/// Microseconds of a tick value: `(ticks - 992) * 5 / 8 + 1500`.
pub open spec fn spec_ticks_to_us(ticks: u16) -> u16 {
    (trunc_div((ticks - 992) * 5, 8) + 1500) as u16
}

/// Ticks of a microsecond value: `(us - 1500) * 8 / 5 + 992`, taken into
/// `u16` by wrapping.
pub open spec fn spec_us_to_ticks(us: u16) -> u16 {
    (trunc_div((us - 1500) * 8, 5) + 992) as u16
}

impl RcChannelsPacked {
    /// Numerator of the tick to microsecond scale.
    pub const TICKS_TO_US_NUMERATOR: i32 = 5;
    /// Denominator of the tick to microsecond scale.
    pub const TICKS_TO_US_DENOMINATOR: i32 = 8;
    /// Tick value of the centre position.
    pub const CENTER_TICKS: i32 = 992;
    /// Microseconds of the centre position.
    pub const CENTER_US: i32 = 1500;
    /// Usual lowest tick value (988 us).
    pub const MIN_TICKS: u16 = 172;
    /// Usual highest tick value (about 2012 us).
    pub const MAX_TICKS: u16 = 1811;
    /// Usual lowest pulse width in microseconds.
    pub const MIN_US: u16 = 988;
    /// Usual highest pulse width in microseconds.
    pub const MAX_US: u16 = 2012;

    /// Converts ticks to microseconds.
    pub fn ticks_to_us(ticks: u16) -> (r: u16)
        ensures
            r == spec_ticks_to_us(ticks),
    {
        let ticks_i32 = ticks as i32;
        let us = (ticks_i32 - Self::CENTER_TICKS) * Self::TICKS_TO_US_NUMERATOR
            / Self::TICKS_TO_US_DENOMINATOR + Self::CENTER_US;
        us as u16
    }

    /// Converts microseconds to ticks.
    pub fn us_to_ticks(us: u16) -> (r: u16)
        ensures
            r == spec_us_to_ticks(us),
    {
        let us_i32 = us as i32;
        let ticks = (us_i32 - Self::CENTER_US) * Self::TICKS_TO_US_DENOMINATOR
            / Self::TICKS_TO_US_NUMERATOR + Self::CENTER_TICKS;
        ticks as u16
    }
}

/// Microseconds converted to ticks and back come within one microsecond of
/// where they started, for every pulse width whose tick value fits `u16`.
pub proof fn lemma_us_ticks_round_trip(us: u16)
    requires
        880 <= us <= 41839,
    ensures
        -1 <= spec_ticks_to_us(spec_us_to_ticks(us)) - us <= 1,
{
    let x: int = us - 1500;
    let t: int = trunc_div(x * 8, 5);
    assert(-992 <= t <= 64543) by (nonlinear_arith)
        requires
            -620 <= x <= 40339,
            t == (if x * 8 >= 0 { (x * 8) / 5 } else { -((-(x * 8)) / 5) }),
    ;
    assert(spec_us_to_ticks(us) == t + 992);
    let y: int = trunc_div(t * 5, 8);
    assert(-1 <= y - x <= 1) by (nonlinear_arith)
        requires
            t == (if x * 8 >= 0 { (x * 8) / 5 } else { -((-(x * 8)) / 5) }),
            y == (if t * 5 >= 0 { (t * 5) / 8 } else { -((-(t * 5)) / 8) }),
    ;
}

impl View for RcChannelsPacked {
    type V = RcChannelsPacked;

    open spec fn view(&self) -> RcChannelsPacked {
        *self
    }
}

impl CrsfPacket for RcChannelsPacked {
    const PACKET_TYPE: PacketType = PacketType::RcChannelsPacked;
    const MIN_PAYLOAD_SIZE: usize = 22;

    open spec fn spec_to_bytes(&self) -> Seq<u8> {
        rc_channels_bytes(self.channels@)
    }

    /// Exactly 22 bytes, unpacked into sixteen 11-bit channels.
    open spec fn spec_from_bytes(data: Seq<u8>) -> Result<Self, CrsfParsingError> {
        if data.len() != 22 {
            Err(CrsfParsingError::InvalidPayloadLength)
        } else {
            Ok(choose|p: RcChannelsPacked| p.channels@ == rc_channels_of_bytes(data))
        }
    }

    open spec fn payload_readable(data: Seq<u8>) -> bool {
        true
    }

    fn to_bytes(&self, buffer: &mut [u8]) -> (r: Result<usize, CrsfParsingError>)
        ensures
            r is Err ==> final(buffer)@ == old(buffer)@,
    {
        self.validate_buffer_size(buffer)?;
        let ch = &self.channels;
        buffer[0] = (ch[0]) as u8;
        buffer[1] = ((ch[0] >> 8u16) | (ch[1] << 3u16)) as u8;
        buffer[2] = ((ch[1] >> 5u16) | (ch[2] << 6u16)) as u8;
        buffer[3] = (ch[2] >> 2u16) as u8;
        buffer[4] = ((ch[2] >> 10u16) | (ch[3] << 1u16)) as u8;
        buffer[5] = ((ch[3] >> 7u16) | (ch[4] << 4u16)) as u8;
        buffer[6] = ((ch[4] >> 4u16) | (ch[5] << 7u16)) as u8;
        buffer[7] = (ch[5] >> 1u16) as u8;
        buffer[8] = ((ch[5] >> 9u16) | (ch[6] << 2u16)) as u8;
        buffer[9] = ((ch[6] >> 6u16) | (ch[7] << 5u16)) as u8;
        buffer[10] = (ch[7] >> 3u16) as u8;
        buffer[11] = (ch[8]) as u8;
        buffer[12] = ((ch[8] >> 8u16) | (ch[9] << 3u16)) as u8;
        buffer[13] = ((ch[9] >> 5u16) | (ch[10] << 6u16)) as u8;
        buffer[14] = (ch[10] >> 2u16) as u8;
        buffer[15] = ((ch[10] >> 10u16) | (ch[11] << 1u16)) as u8;
        buffer[16] = ((ch[11] >> 7u16) | (ch[12] << 4u16)) as u8;
        buffer[17] = ((ch[12] >> 4u16) | (ch[13] << 7u16)) as u8;
        buffer[18] = (ch[13] >> 1u16) as u8;
        buffer[19] = ((ch[13] >> 9u16) | (ch[14] << 2u16)) as u8;
        buffer[20] = ((ch[14] >> 6u16) | (ch[15] << 5u16)) as u8;
        buffer[21] = (ch[15] >> 3u16) as u8;
        assert(buffer@ =~= splice(old(buffer)@, 0, self.spec_to_bytes()));
        Ok(Self::MIN_PAYLOAD_SIZE)
    }

    #[verifier::spinoff_prover]
    fn from_bytes(data: &[u8]) -> (r: Result<Self, CrsfParsingError>) {
        if data.len() != Self::MIN_PAYLOAD_SIZE {
            return Err(CrsfParsingError::InvalidPayloadLength);
        }
        let d0 = data[0] as u16;
        let d1 = data[1] as u16;
        let d2 = data[2] as u16;
        let d3 = data[3] as u16;
        let d4 = data[4] as u16;
        let d5 = data[5] as u16;
        let d6 = data[6] as u16;
        let d7 = data[7] as u16;
        let d8 = data[8] as u16;
        let d9 = data[9] as u16;
        let d10 = data[10] as u16;
        let d11 = data[11] as u16;
        let d12 = data[12] as u16;
        let d13 = data[13] as u16;
        let d14 = data[14] as u16;
        let d15 = data[15] as u16;
        let d16 = data[16] as u16;
        let d17 = data[17] as u16;
        let d18 = data[18] as u16;
        let d19 = data[19] as u16;
        let d20 = data[20] as u16;
        let d21 = data[21] as u16;
        let ch: [u16; 16] = [
            0x7FFu16 & (d0 | (d1 << 8u16)),
            0x7FFu16 & ((d1 >> 3u16) | (d2 << 5u16)),
            0x7FFu16 & ((d2 >> 6u16) | (d3 << 2u16) | (d4 << 10u16)),
            0x7FFu16 & ((d4 >> 1u16) | (d5 << 7u16)),
            0x7FFu16 & ((d5 >> 4u16) | (d6 << 4u16)),
            0x7FFu16 & ((d6 >> 7u16) | (d7 << 1u16) | (d8 << 9u16)),
            0x7FFu16 & ((d8 >> 2u16) | (d9 << 6u16)),
            0x7FFu16 & ((d9 >> 5u16) | (d10 << 3u16)),
            0x7FFu16 & (d11 | (d12 << 8u16)),
            0x7FFu16 & ((d12 >> 3u16) | (d13 << 5u16)),
            0x7FFu16 & ((d13 >> 6u16) | (d14 << 2u16) | (d15 << 10u16)),
            0x7FFu16 & ((d15 >> 1u16) | (d16 << 7u16)),
            0x7FFu16 & ((d16 >> 4u16) | (d17 << 4u16)),
            0x7FFu16 & ((d17 >> 7u16) | (d18 << 1u16) | (d19 << 9u16)),
            0x7FFu16 & ((d19 >> 2u16) | (d20 << 6u16)),
            0x7FFu16 & ((d20 >> 5u16) | (d21 << 3u16)),
        ];
        let r = RcChannelsPacked { channels: ch };
        assert(r.channels@ =~= rc_channels_of_bytes(data@));
        let ghost chosen = choose|p: RcChannelsPacked| p.channels@ == rc_channels_of_bytes(data@);
        assert(chosen.channels@ == r.channels@);
        assert(chosen.channels =~= r.channels);
        Ok(r)
    }
}

/// Packing channels that fit their 11 bits and unpacking the bytes gives the
/// channels back.
pub proof fn lemma_rc_channels_round_trip(p: RcChannelsPacked)
    requires
        rc_channels_in_range(p.channels@),
    ensures
        RcChannelsPacked::spec_from_bytes(p.spec_to_bytes()) == Ok::<RcChannelsPacked, CrsfParsingError>(p),
{
    let c = p.channels@;
    assert(c.len() == 16);
    let c0 = c[0];
    let c1 = c[1];
    let c2 = c[2];
    let c3 = c[3];
    let c4 = c[4];
    let c5 = c[5];
    let c6 = c[6];
    let c7 = c[7];
    let c8 = c[8];
    let c9 = c[9];
    let c10 = c[10];
    let c11 = c[11];
    let c12 = c[12];
    let c13 = c[13];
    let c14 = c[14];
    let c15 = c[15];
    assert(c0 < 2048 && c1 < 2048 && c2 < 2048 && c3 < 2048 && c4 < 2048 && c5 < 2048 && c6 < 2048
        && c7 < 2048 && c8 < 2048 && c9 < 2048 && c10 < 2048 && c11 < 2048 && c12 < 2048 && c13
        < 2048 && c14 < 2048 && c15 < 2048) by {
        assert(c[0] < 2048 && c[1] < 2048 && c[2] < 2048 && c[3] < 2048 && c[4] < 2048 && c[5] < 2048);
        assert(c[6] < 2048 && c[7] < 2048 && c[8] < 2048 && c[9] < 2048 && c[10] < 2048 && c[11] < 2048);
        assert(c[12] < 2048 && c[13] < 2048 && c[14] < 2048 && c[15] < 2048);
    }
    assert((0x7FFu16 & ((((c0) as u8) as u16) | (((((c0 >> 8u16) | (c1 << 3u16)) as u8) as u16) << 8u16))) == c0
            && (0x7FFu16 & ((((((c0 >> 8u16) | (c1 << 3u16)) as u8) as u16) >> 3u16) | (((((c1 >> 5u16) | (c2 << 6u16)) as u8) as u16) << 5u16))) == c1
            && (0x7FFu16 & ((((((c1 >> 5u16) | (c2 << 6u16)) as u8) as u16) >> 6u16) | ((((c2 >> 2u16) as u8) as u16) << 2u16) | (((((c2 >> 10u16) | (c3 << 1u16)) as u8) as u16) << 10u16))) == c2
            && (0x7FFu16 & ((((((c2 >> 10u16) | (c3 << 1u16)) as u8) as u16) >> 1u16) | (((((c3 >> 7u16) | (c4 << 4u16)) as u8) as u16) << 7u16))) == c3
            && (0x7FFu16 & ((((((c3 >> 7u16) | (c4 << 4u16)) as u8) as u16) >> 4u16) | (((((c4 >> 4u16) | (c5 << 7u16)) as u8) as u16) << 4u16))) == c4
            && (0x7FFu16 & ((((((c4 >> 4u16) | (c5 << 7u16)) as u8) as u16) >> 7u16) | ((((c5 >> 1u16) as u8) as u16) << 1u16) | (((((c5 >> 9u16) | (c6 << 2u16)) as u8) as u16) << 9u16))) == c5
            && (0x7FFu16 & ((((((c5 >> 9u16) | (c6 << 2u16)) as u8) as u16) >> 2u16) | (((((c6 >> 6u16) | (c7 << 5u16)) as u8) as u16) << 6u16))) == c6
            && (0x7FFu16 & ((((((c6 >> 6u16) | (c7 << 5u16)) as u8) as u16) >> 5u16) | ((((c7 >> 3u16) as u8) as u16) << 3u16))) == c7
            && (0x7FFu16 & ((((c8) as u8) as u16) | (((((c8 >> 8u16) | (c9 << 3u16)) as u8) as u16) << 8u16))) == c8
            && (0x7FFu16 & ((((((c8 >> 8u16) | (c9 << 3u16)) as u8) as u16) >> 3u16) | (((((c9 >> 5u16) | (c10 << 6u16)) as u8) as u16) << 5u16))) == c9
            && (0x7FFu16 & ((((((c9 >> 5u16) | (c10 << 6u16)) as u8) as u16) >> 6u16) | ((((c10 >> 2u16) as u8) as u16) << 2u16) | (((((c10 >> 10u16) | (c11 << 1u16)) as u8) as u16) << 10u16))) == c10
            && (0x7FFu16 & ((((((c10 >> 10u16) | (c11 << 1u16)) as u8) as u16) >> 1u16) | (((((c11 >> 7u16) | (c12 << 4u16)) as u8) as u16) << 7u16))) == c11
            && (0x7FFu16 & ((((((c11 >> 7u16) | (c12 << 4u16)) as u8) as u16) >> 4u16) | (((((c12 >> 4u16) | (c13 << 7u16)) as u8) as u16) << 4u16))) == c12
            && (0x7FFu16 & ((((((c12 >> 4u16) | (c13 << 7u16)) as u8) as u16) >> 7u16) | ((((c13 >> 1u16) as u8) as u16) << 1u16) | (((((c13 >> 9u16) | (c14 << 2u16)) as u8) as u16) << 9u16))) == c13
            && (0x7FFu16 & ((((((c13 >> 9u16) | (c14 << 2u16)) as u8) as u16) >> 2u16) | (((((c14 >> 6u16) | (c15 << 5u16)) as u8) as u16) << 6u16))) == c14
            && (0x7FFu16 & ((((((c14 >> 6u16) | (c15 << 5u16)) as u8) as u16) >> 5u16) | ((((c15 >> 3u16) as u8) as u16) << 3u16))) == c15) by (bit_vector)
        requires
            c0 < 2048,
            c1 < 2048,
            c2 < 2048,
            c3 < 2048,
            c4 < 2048,
            c5 < 2048,
            c6 < 2048,
            c7 < 2048,
            c8 < 2048,
            c9 < 2048,
            c10 < 2048,
            c11 < 2048,
            c12 < 2048,
            c13 < 2048,
            c14 < 2048,
            c15 < 2048,
    ;
    let bytes = p.spec_to_bytes();
    assert(rc_channels_of_bytes(bytes) =~= c);
    let chosen = choose|q: RcChannelsPacked| q.channels@ == rc_channels_of_bytes(bytes);
    assert(chosen.channels =~= p.channels);
}

/// Unpacking 22 bytes and packing the channels gives the bytes back: every
/// bit of the payload belongs to exactly one channel.
pub proof fn lemma_rc_bytes_round_trip(d: Seq<u8>)
    requires
        d.len() == 22,
    ensures
        rc_channels_bytes(rc_channels_of_bytes(d)) == d,
{
    let b0 = d[0];
    let b1 = d[1];
    let b2 = d[2];
    let b3 = d[3];
    let b4 = d[4];
    let b5 = d[5];
    let b6 = d[6];
    let b7 = d[7];
    let b8 = d[8];
    let b9 = d[9];
    let b10 = d[10];
    let b11 = d[11];
    let b12 = d[12];
    let b13 = d[13];
    let b14 = d[14];
    let b15 = d[15];
    let b16 = d[16];
    let b17 = d[17];
    let b18 = d[18];
    let b19 = d[19];
    let b20 = d[20];
    let b21 = d[21];
    assert(((0x7FFu16 & ((b0 as u16) | ((b1 as u16) << 8u16)))) as u8 == b0
            && (((0x7FFu16 & ((b0 as u16) | ((b1 as u16) << 8u16))) >> 8u16) | ((0x7FFu16 & (((b1 as u16) >> 3u16) | ((b2 as u16) << 5u16))) << 3u16)) as u8 == b1
            && (((0x7FFu16 & (((b1 as u16) >> 3u16) | ((b2 as u16) << 5u16))) >> 5u16) | ((0x7FFu16 & (((b2 as u16) >> 6u16) | ((b3 as u16) << 2u16) | ((b4 as u16) << 10u16))) << 6u16)) as u8 == b2
            && ((0x7FFu16 & (((b2 as u16) >> 6u16) | ((b3 as u16) << 2u16) | ((b4 as u16) << 10u16))) >> 2u16) as u8 == b3
            && (((0x7FFu16 & (((b2 as u16) >> 6u16) | ((b3 as u16) << 2u16) | ((b4 as u16) << 10u16))) >> 10u16) | ((0x7FFu16 & (((b4 as u16) >> 1u16) | ((b5 as u16) << 7u16))) << 1u16)) as u8 == b4
            && (((0x7FFu16 & (((b4 as u16) >> 1u16) | ((b5 as u16) << 7u16))) >> 7u16) | ((0x7FFu16 & (((b5 as u16) >> 4u16) | ((b6 as u16) << 4u16))) << 4u16)) as u8 == b5
            && (((0x7FFu16 & (((b5 as u16) >> 4u16) | ((b6 as u16) << 4u16))) >> 4u16) | ((0x7FFu16 & (((b6 as u16) >> 7u16) | ((b7 as u16) << 1u16) | ((b8 as u16) << 9u16))) << 7u16)) as u8 == b6
            && ((0x7FFu16 & (((b6 as u16) >> 7u16) | ((b7 as u16) << 1u16) | ((b8 as u16) << 9u16))) >> 1u16) as u8 == b7
            && (((0x7FFu16 & (((b6 as u16) >> 7u16) | ((b7 as u16) << 1u16) | ((b8 as u16) << 9u16))) >> 9u16) | ((0x7FFu16 & (((b8 as u16) >> 2u16) | ((b9 as u16) << 6u16))) << 2u16)) as u8 == b8
            && (((0x7FFu16 & (((b8 as u16) >> 2u16) | ((b9 as u16) << 6u16))) >> 6u16) | ((0x7FFu16 & (((b9 as u16) >> 5u16) | ((b10 as u16) << 3u16))) << 5u16)) as u8 == b9
            && ((0x7FFu16 & (((b9 as u16) >> 5u16) | ((b10 as u16) << 3u16))) >> 3u16) as u8 == b10
            && ((0x7FFu16 & ((b11 as u16) | ((b12 as u16) << 8u16)))) as u8 == b11
            && (((0x7FFu16 & ((b11 as u16) | ((b12 as u16) << 8u16))) >> 8u16) | ((0x7FFu16 & (((b12 as u16) >> 3u16) | ((b13 as u16) << 5u16))) << 3u16)) as u8 == b12
            && (((0x7FFu16 & (((b12 as u16) >> 3u16) | ((b13 as u16) << 5u16))) >> 5u16) | ((0x7FFu16 & (((b13 as u16) >> 6u16) | ((b14 as u16) << 2u16) | ((b15 as u16) << 10u16))) << 6u16)) as u8 == b13
            && ((0x7FFu16 & (((b13 as u16) >> 6u16) | ((b14 as u16) << 2u16) | ((b15 as u16) << 10u16))) >> 2u16) as u8 == b14
            && (((0x7FFu16 & (((b13 as u16) >> 6u16) | ((b14 as u16) << 2u16) | ((b15 as u16) << 10u16))) >> 10u16) | ((0x7FFu16 & (((b15 as u16) >> 1u16) | ((b16 as u16) << 7u16))) << 1u16)) as u8 == b15
            && (((0x7FFu16 & (((b15 as u16) >> 1u16) | ((b16 as u16) << 7u16))) >> 7u16) | ((0x7FFu16 & (((b16 as u16) >> 4u16) | ((b17 as u16) << 4u16))) << 4u16)) as u8 == b16
            && (((0x7FFu16 & (((b16 as u16) >> 4u16) | ((b17 as u16) << 4u16))) >> 4u16) | ((0x7FFu16 & (((b17 as u16) >> 7u16) | ((b18 as u16) << 1u16) | ((b19 as u16) << 9u16))) << 7u16)) as u8 == b17
            && ((0x7FFu16 & (((b17 as u16) >> 7u16) | ((b18 as u16) << 1u16) | ((b19 as u16) << 9u16))) >> 1u16) as u8 == b18
            && (((0x7FFu16 & (((b17 as u16) >> 7u16) | ((b18 as u16) << 1u16) | ((b19 as u16) << 9u16))) >> 9u16) | ((0x7FFu16 & (((b19 as u16) >> 2u16) | ((b20 as u16) << 6u16))) << 2u16)) as u8 == b19
            && (((0x7FFu16 & (((b19 as u16) >> 2u16) | ((b20 as u16) << 6u16))) >> 6u16) | ((0x7FFu16 & (((b20 as u16) >> 5u16) | ((b21 as u16) << 3u16))) << 5u16)) as u8 == b20
            && ((0x7FFu16 & (((b20 as u16) >> 5u16) | ((b21 as u16) << 3u16))) >> 3u16) as u8 == b21) by (bit_vector);
    assert(rc_channels_bytes(rc_channels_of_bytes(d)) =~= d);
}

/// Channel values travel as frame type 0x16.
pub proof fn lemma_rc_channels_packed_packet_type()
    ensures
        RcChannelsPacked::PACKET_TYPE == PacketType::RcChannelsPacked,
{
}

/// Every 22-byte payload decodes: to the packet whose channels are the
/// sixteen 11-bit fields of the payload.
pub proof fn lemma_rc_channels_decode(data: Seq<u8>)
    requires
        data.len() == 22,
    ensures
        RcChannelsPacked::spec_from_bytes(data) matches Ok(p) && p.channels@ == rc_channels_of_bytes(data),
{
    let c = rc_channels_of_bytes(data);
    let a: [u16; 16] = [c[0], c[1], c[2], c[3], c[4], c[5], c[6], c[7], c[8], c[9], c[10], c[11], c[12], c[13], c[14], c[15]];
    let w = RcChannelsPacked { channels: a };
    assert(w.channels@ =~= c);
}

proof fn lemma_rc_unpack_bits(d0: u16, d1: u16, d2: u16, d3: u16, d4: u16, d5: u16, d6: u16, d7: u16, d8: u16, d9: u16, d10: u16, d11: u16, d12: u16, d13: u16, d14: u16, d15: u16, d16: u16, d17: u16, d18: u16, d19: u16, d20: u16, d21: u16) by (bit_vector)
    requires
        d0 < 256,
        d1 < 256,
        d2 < 256,
        d3 < 256,
        d4 < 256,
        d5 < 256,
        d6 < 256,
        d7 < 256,
        d8 < 256,
        d9 < 256,
        d10 < 256,
        d11 < 256,
        d12 < 256,
        d13 < 256,
        d14 < 256,
        d15 < 256,
        d16 < 256,
        d17 < 256,
        d18 < 256,
        d19 < 256,
        d20 < 256,
        d21 < 256,
    ensures
        (0x7FFu16 & (d0 | (d1 << 8u16))) as u32 == (((d0 as u32) | ((d1 as u32) << 8u32) | ((d2 as u32) << 16u32)) >> 0u32) & 0x7FFu32,
        (0x7FFu16 & ((d1 >> 3u16) | (d2 << 5u16))) as u32 == (((d1 as u32) | ((d2 as u32) << 8u32) | ((d3 as u32) << 16u32)) >> 3u32) & 0x7FFu32,
        (0x7FFu16 & ((d2 >> 6u16) | (d3 << 2u16) | (d4 << 10u16))) as u32 == (((d2 as u32) | ((d3 as u32) << 8u32) | ((d4 as u32) << 16u32)) >> 6u32) & 0x7FFu32,
        (0x7FFu16 & ((d4 >> 1u16) | (d5 << 7u16))) as u32 == (((d4 as u32) | ((d5 as u32) << 8u32) | ((d6 as u32) << 16u32)) >> 1u32) & 0x7FFu32,
        (0x7FFu16 & ((d5 >> 4u16) | (d6 << 4u16))) as u32 == (((d5 as u32) | ((d6 as u32) << 8u32) | ((d7 as u32) << 16u32)) >> 4u32) & 0x7FFu32,
        (0x7FFu16 & ((d6 >> 7u16) | (d7 << 1u16) | (d8 << 9u16))) as u32 == (((d6 as u32) | ((d7 as u32) << 8u32) | ((d8 as u32) << 16u32)) >> 7u32) & 0x7FFu32,
        (0x7FFu16 & ((d8 >> 2u16) | (d9 << 6u16))) as u32 == (((d8 as u32) | ((d9 as u32) << 8u32) | ((d10 as u32) << 16u32)) >> 2u32) & 0x7FFu32,
        (0x7FFu16 & ((d9 >> 5u16) | (d10 << 3u16))) as u32 == (((d9 as u32) | ((d10 as u32) << 8u32) | ((d11 as u32) << 16u32)) >> 5u32) & 0x7FFu32,
        (0x7FFu16 & (d11 | (d12 << 8u16))) as u32 == (((d11 as u32) | ((d12 as u32) << 8u32) | ((d13 as u32) << 16u32)) >> 0u32) & 0x7FFu32,
        (0x7FFu16 & ((d12 >> 3u16) | (d13 << 5u16))) as u32 == (((d12 as u32) | ((d13 as u32) << 8u32) | ((d14 as u32) << 16u32)) >> 3u32) & 0x7FFu32,
        (0x7FFu16 & ((d13 >> 6u16) | (d14 << 2u16) | (d15 << 10u16))) as u32 == (((d13 as u32) | ((d14 as u32) << 8u32) | ((d15 as u32) << 16u32)) >> 6u32) & 0x7FFu32,
        (0x7FFu16 & ((d15 >> 1u16) | (d16 << 7u16))) as u32 == (((d15 as u32) | ((d16 as u32) << 8u32) | ((d17 as u32) << 16u32)) >> 1u32) & 0x7FFu32,
        (0x7FFu16 & ((d16 >> 4u16) | (d17 << 4u16))) as u32 == (((d16 as u32) | ((d17 as u32) << 8u32) | ((d18 as u32) << 16u32)) >> 4u32) & 0x7FFu32,
        (0x7FFu16 & ((d17 >> 7u16) | (d18 << 1u16) | (d19 << 9u16))) as u32 == (((d17 as u32) | ((d18 as u32) << 8u32) | ((d19 as u32) << 16u32)) >> 7u32) & 0x7FFu32,
        (0x7FFu16 & ((d19 >> 2u16) | (d20 << 6u16))) as u32 == (((d19 as u32) | ((d20 as u32) << 8u32) | ((d21 as u32) << 16u32)) >> 2u32) & 0x7FFu32,
        (0x7FFu16 & ((d20 >> 5u16) | (d21 << 3u16))) as u32 == (((d20 as u32) | ((d21 as u32) << 8u32)) >> 5u32) & 0x7FFu32,
{
}

/// The channel layout: the sixteen channels lie end to end in the 22 bytes,
/// 11 bits each, least significant bit first, so that channel `k` is bits
/// `11 * k` to `11 * k + 10` of the payload read as one little-endian
/// number: the bits of the three-byte window from byte `11 * k / 8`, from
/// bit `11 * k % 8` on. Every 22-byte payload is read that way.
pub proof fn lemma_rc_channels_layout(d: Seq<u8>)
    requires
        d.len() == 22,
    ensures
        RcChannelsPacked::spec_from_bytes(d) matches Ok(p) && ({
            let c = p.channels@;
            &&& c.len() == 16
            &&& c[0] as u32 == (((d[0] as u32) | ((d[1] as u32) << 8u32) | ((d[2] as u32) << 16u32)) >> 0u32) & 0x7FFu32
            &&& c[1] as u32 == (((d[1] as u32) | ((d[2] as u32) << 8u32) | ((d[3] as u32) << 16u32)) >> 3u32) & 0x7FFu32
            &&& c[2] as u32 == (((d[2] as u32) | ((d[3] as u32) << 8u32) | ((d[4] as u32) << 16u32)) >> 6u32) & 0x7FFu32
            &&& c[3] as u32 == (((d[4] as u32) | ((d[5] as u32) << 8u32) | ((d[6] as u32) << 16u32)) >> 1u32) & 0x7FFu32
            &&& c[4] as u32 == (((d[5] as u32) | ((d[6] as u32) << 8u32) | ((d[7] as u32) << 16u32)) >> 4u32) & 0x7FFu32
            &&& c[5] as u32 == (((d[6] as u32) | ((d[7] as u32) << 8u32) | ((d[8] as u32) << 16u32)) >> 7u32) & 0x7FFu32
            &&& c[6] as u32 == (((d[8] as u32) | ((d[9] as u32) << 8u32) | ((d[10] as u32) << 16u32)) >> 2u32) & 0x7FFu32
            &&& c[7] as u32 == (((d[9] as u32) | ((d[10] as u32) << 8u32) | ((d[11] as u32) << 16u32)) >> 5u32) & 0x7FFu32
            &&& c[8] as u32 == (((d[11] as u32) | ((d[12] as u32) << 8u32) | ((d[13] as u32) << 16u32)) >> 0u32) & 0x7FFu32
            &&& c[9] as u32 == (((d[12] as u32) | ((d[13] as u32) << 8u32) | ((d[14] as u32) << 16u32)) >> 3u32) & 0x7FFu32
            &&& c[10] as u32 == (((d[13] as u32) | ((d[14] as u32) << 8u32) | ((d[15] as u32) << 16u32)) >> 6u32) & 0x7FFu32
            &&& c[11] as u32 == (((d[15] as u32) | ((d[16] as u32) << 8u32) | ((d[17] as u32) << 16u32)) >> 1u32) & 0x7FFu32
            &&& c[12] as u32 == (((d[16] as u32) | ((d[17] as u32) << 8u32) | ((d[18] as u32) << 16u32)) >> 4u32) & 0x7FFu32
            &&& c[13] as u32 == (((d[17] as u32) | ((d[18] as u32) << 8u32) | ((d[19] as u32) << 16u32)) >> 7u32) & 0x7FFu32
            &&& c[14] as u32 == (((d[19] as u32) | ((d[20] as u32) << 8u32) | ((d[21] as u32) << 16u32)) >> 2u32) & 0x7FFu32
            &&& c[15] as u32 == (((d[20] as u32) | ((d[21] as u32) << 8u32)) >> 5u32) & 0x7FFu32
        }),
{
    lemma_rc_channels_decode(d);
    lemma_rc_unpack_bits(d[0] as u16, d[1] as u16, d[2] as u16, d[3] as u16, d[4] as u16, d[5] as u16, d[6] as u16, d[7] as u16, d[8] as u16, d[9] as u16, d[10] as u16, d[11] as u16, d[12] as u16, d[13] as u16, d[14] as u16, d[15] as u16, d[16] as u16, d[17] as u16, d[18] as u16, d[19] as u16, d[20] as u16, d[21] as u16);
}

} // verus!

//! ArduPilot passthrough telemetry (frame type 0x80).
use vstd::prelude::*;

use crate::fixed::{
    bytes50, bytes50_as_slice, bytes50_from_slice, telemetry9, telemetry9_as_slice,
    telemetry9_from_slice,
};
use crate::packets::wire::{be16, be16_at, be32, be32_at, get_be16, get_be32, put_be16, put_be32, put_bytes, splice};
use crate::packets::wire::{lemma_be16_round_trip, lemma_be32_round_trip};
use crate::packets::{CrsfPacket, PacketType};
use crate::CrsfParsingError;

verus! {

/// An ArduPilot passthrough frame, by its sub-type.
#[derive(Clone, Debug, PartialEq, Eq)]
pub enum ArduPilotPassthrough {
    /// One telemetry item (sub-type 0xF0).
    Single { appid: u16, data: u32 },
    /// Up to 9 telemetry items (sub-type 0xF2).
    Multi { packets: heapless::Vec<PassthroughTelemetryPacket, 9> },
    /// A status text of up to 50 bytes (sub-type 0xF1).
    StatusText { severity: u8, text: heapless::Vec<u8, 50> },
}

/// One telemetry item: an application id and its value.
#[derive(Clone, Copy, Debug, PartialEq, Eq, Structural)]
pub struct PassthroughTelemetryPacket {
    pub appid: u16,
    pub data: u32,
}

/// A passthrough frame as the contracts see it: items and text as sequences.
pub ghost enum ArduPilotPassthroughView {
    Single { appid: u16, data: u32 },
    Multi { packets: Seq<PassthroughTelemetryPacket> },
    StatusText { severity: u8, text: Seq<u8> },
}

impl View for ArduPilotPassthrough {
    type V = ArduPilotPassthroughView;

    open spec fn view(&self) -> ArduPilotPassthroughView {
        match self {
            ArduPilotPassthrough::Single { appid, data } => ArduPilotPassthroughView::Single {
                appid: *appid,
                data: *data,
            },
            ArduPilotPassthrough::Multi { packets } => ArduPilotPassthroughView::Multi {
                packets: telemetry9(*packets),
            },
            ArduPilotPassthrough::StatusText { severity, text } => ArduPilotPassthroughView::StatusText {
                severity: *severity,
                text: bytes50(*text),
            },
        }
    }
}

/// Sub-type byte of a single item.
pub const SUB_TYPE_SINGLE: u8 = 0xF0;

/// Sub-type byte of a status text.
pub const SUB_TYPE_STATUS: u8 = 0xF1;

/// Sub-type byte of several items.
pub const SUB_TYPE_MULTI: u8 = 0xF2;

impl ArduPilotPassthrough {
    pub const SUB_TYPE_SINGLE: u8 = SUB_TYPE_SINGLE;
    pub const SUB_TYPE_STATUS: u8 = SUB_TYPE_STATUS;
    pub const SUB_TYPE_MULTI: u8 = SUB_TYPE_MULTI;
}

/// The bytes of telemetry items, six per item: application id and value,
/// big-endian.
pub open spec fn telemetry_bytes(ps: Seq<PassthroughTelemetryPacket>) -> Seq<u8>
    decreases ps.len(),
{
    if ps.len() == 0 {
        Seq::empty()
    } else {
        telemetry_bytes(ps.drop_last()) + be16(ps.last().appid) + be32(ps.last().data)
    }
}

/// The `count` telemetry items that follow the two header bytes of `d`.
pub open spec fn telemetry_items(d: Seq<u8>, count: int) -> Seq<PassthroughTelemetryPacket> {
    Seq::new(
        count as nat,
        |i: int| PassthroughTelemetryPacket { appid: be16_at(d, 2 + 6 * i), data: be32_at(d, 4 + 6 * i) },
    )
}

proof fn lemma_telemetry_bytes_len(ps: Seq<PassthroughTelemetryPacket>)
    ensures
        telemetry_bytes(ps).len() == 6 * ps.len(),
    decreases ps.len(),
{
    if ps.len() > 0 {
        lemma_telemetry_bytes_len(ps.drop_last());
    }
}

proof fn lemma_telemetry_bytes_at(ps: Seq<PassthroughTelemetryPacket>, i: int)
    requires
        0 <= i < ps.len(),
    ensures
        telemetry_bytes(ps).subrange(6 * i, 6 * i + 2) == be16(ps[i].appid),
        telemetry_bytes(ps).subrange(6 * i + 2, 6 * i + 6) == be32(ps[i].data),
    decreases ps.len(),
{
    lemma_telemetry_bytes_len(ps.drop_last());
    let t = telemetry_bytes(ps);
    let h = telemetry_bytes(ps.drop_last());
    if i < ps.len() - 1 {
        lemma_telemetry_bytes_at(ps.drop_last(), i);
        assert(t.subrange(6 * i, 6 * i + 2) =~= h.subrange(6 * i, 6 * i + 2));
        assert(t.subrange(6 * i + 2, 6 * i + 6) =~= h.subrange(6 * i + 2, 6 * i + 6));
    } else {
        assert(t.subrange(6 * i, 6 * i + 2) =~= be16(ps[i].appid));
        assert(t.subrange(6 * i + 2, 6 * i + 6) =~= be32(ps[i].data));
    }
}

impl CrsfPacket for ArduPilotPassthrough {
    const PACKET_TYPE: PacketType = PacketType::ArdupilotResponse;
    const MIN_PAYLOAD_SIZE: usize = 1;

    open spec fn spec_to_bytes(&self) -> Seq<u8> {
        match self@ {
            ArduPilotPassthroughView::Single { appid, data } => seq![SUB_TYPE_SINGLE] + be16(appid) + be32(data),
            ArduPilotPassthroughView::StatusText { severity, text } => seq![SUB_TYPE_STATUS, severity] + text,
            ArduPilotPassthroughView::Multi { packets } => seq![SUB_TYPE_MULTI, packets.len() as u8]
                + telemetry_bytes(packets),
        }
    }

    /// Read by the sub-type byte: a single item needs 7 bytes, a status text
    /// 2 to 52, several items 2 and six per item announced, at most 9 items;
    /// an unknown sub-type is `InvalidPayload`.
    open spec fn spec_from_bytes(d: Seq<u8>) -> Result<ArduPilotPassthroughView, CrsfParsingError> {
        if d.len() == 0 {
            Err(CrsfParsingError::InvalidPayloadLength)
        } else if d[0] == SUB_TYPE_SINGLE {
            if d.len() < 7 {
                Err(CrsfParsingError::InvalidPayloadLength)
            } else {
                Ok(ArduPilotPassthroughView::Single { appid: be16_at(d, 1), data: be32_at(d, 3) })
            }
        } else if d[0] == SUB_TYPE_STATUS {
            if d.len() < 2 || d.len() - 2 > 50 {
                Err(CrsfParsingError::InvalidPayloadLength)
            } else {
                Ok(ArduPilotPassthroughView::StatusText { severity: d[1], text: d.skip(2) })
            }
        } else if d[0] == SUB_TYPE_MULTI {
            if d.len() < 2 || d.len() < 2 + 6 * d[1] || d[1] > 9 {
                Err(CrsfParsingError::InvalidPayloadLength)
            } else {
                Ok(ArduPilotPassthroughView::Multi { packets: telemetry_items(d, d[1] as int) })
            }
        } else {
            Err(CrsfParsingError::InvalidPayload)
        }
    }

    open spec fn payload_readable(data: Seq<u8>) -> bool {
        true
    }

    fn to_bytes(&self, buffer: &mut [u8]) -> (r: Result<usize, CrsfParsingError>)
        ensures
            r is Err ==> final(buffer)@ == old(buffer)@,
    {
        match self {
            ArduPilotPassthrough::Single { appid, data } => {
                if buffer.len() < 7 {
                    return Err(CrsfParsingError::BufferOverflow);
                }
                buffer[0] = SUB_TYPE_SINGLE;
                put_be16(buffer, 1, *appid);
                put_be32(buffer, 3, *data);
                assert(buffer@ =~= splice(old(buffer)@, 0, self.spec_to_bytes()));
                Ok(7)
            },
            ArduPilotPassthrough::StatusText { severity, text } => {
                let t = bytes50_as_slice(text);
                let len = 2 + t.len();
                if buffer.len() < len {
                    return Err(CrsfParsingError::BufferOverflow);
                }
                buffer[0] = SUB_TYPE_STATUS;
                buffer[1] = *severity;
                put_bytes(buffer, 2, t);
                assert(buffer@ =~= splice(old(buffer)@, 0, self.spec_to_bytes()));
                Ok(len)
            },
            ArduPilotPassthrough::Multi { packets } => {
                let ps = telemetry9_as_slice(packets);
                proof {
                    lemma_telemetry_bytes_len(ps@);
                }
                let len = 2 + ps.len() * 6;
                if buffer.len() < len {
                    return Err(CrsfParsingError::BufferOverflow);
                }
                buffer[0] = SUB_TYPE_MULTI;
                buffer[1] = ps.len() as u8;
                let ghost head = seq![SUB_TYPE_MULTI, ps@.len() as u8];
                let mut i: usize = 0;
                while i < ps.len()
                    invariant
                        0 <= i <= ps@.len() <= 9,
                        len == 2 + 6 * ps@.len(),
                        len <= buffer@.len(),
                        buffer@.len() == old(buffer)@.len(),
                        head == seq![SUB_TYPE_MULTI, ps@.len() as u8],
                        buffer@ == splice(old(buffer)@, 0, head + telemetry_bytes(ps@.take(i as int))),
                    decreases ps@.len() - i,
                {
                    proof {
                        lemma_telemetry_bytes_len(ps@.take(i as int));
                    }
                    let offset = 2 + i * 6;
                    let p = ps[i];
                    put_be16(buffer, offset, p.appid);
                    put_be32(buffer, offset + 2, p.data);
                    i += 1;
                    assert(ps@.take(i as int).drop_last() =~= ps@.take(i - 1));
                    assert(buffer@ =~= splice(old(buffer)@, 0, head + telemetry_bytes(ps@.take(i as int))));
                }
                assert(ps@.take(ps@.len() as int) =~= ps@);
                Ok(len)
            },
        }
    }

    fn from_bytes(data: &[u8]) -> (r: Result<Self, CrsfParsingError>) {
        if data.len() == 0 {
            return Err(CrsfParsingError::InvalidPayloadLength);
        }
        let sub_type = data[0];
        if sub_type == SUB_TYPE_SINGLE {
            if data.len() < 7 {
                return Err(CrsfParsingError::InvalidPayloadLength);
            }
            Ok(ArduPilotPassthrough::Single { appid: get_be16(data, 1), data: get_be32(data, 3) })
        } else if sub_type == SUB_TYPE_STATUS {
            if data.len() < 2 {
                return Err(CrsfParsingError::InvalidPayloadLength);
            }
            match bytes50_from_slice(&data[2..data.len()]) {
                Some(text) => Ok(ArduPilotPassthrough::StatusText { severity: data[1], text }),
                None => Err(CrsfParsingError::InvalidPayloadLength),
            }
        } else if sub_type == SUB_TYPE_MULTI {
            if data.len() < 2 {
                return Err(CrsfParsingError::InvalidPayloadLength);
            }
            let count = data[1] as usize;
            if data.len() < 2 + count * 6 {
                return Err(CrsfParsingError::InvalidPayloadLength);
            }
            let mut items: Vec<PassthroughTelemetryPacket> = Vec::new();
            let mut i: usize = 0;
            while i < count
                invariant
                    0 <= i <= count,
                    count == data@[1],
                    2 + count * 6 <= data@.len(),
                    items@ == telemetry_items(data@, count as int).take(i as int),
                decreases count - i,
            {
                let offset = 2 + i * 6;
                let item = PassthroughTelemetryPacket {
                    appid: get_be16(data, offset),
                    data: get_be32(data, offset + 2),
                };
                items.push(item);
                i += 1;
                assert(items@ =~= telemetry_items(data@, count as int).take(i as int));
            }
            assert(items@ =~= telemetry_items(data@, count as int));
            match telemetry9_from_slice(items.as_slice()) {
                Some(packets) => Ok(ArduPilotPassthrough::Multi { packets }),
                None => Err(CrsfParsingError::InvalidPayloadLength),
            }
        } else {
            Err(CrsfParsingError::InvalidPayload)
        }
    }
}

/// Decoding the bytes of a passthrough frame gives the frame back (a frame
/// holds at most 9 items and at most 50 text bytes).
pub proof fn lemma_ardupilot_round_trip(p: ArduPilotPassthrough)
    requires
        p@ matches ArduPilotPassthroughView::Multi { packets } ==> packets.len() <= 9,
        p@ matches ArduPilotPassthroughView::StatusText { text, .. } ==> text.len() <= 50,
    ensures
        ArduPilotPassthrough::spec_from_bytes(p.spec_to_bytes()) == Ok::<
            ArduPilotPassthroughView,
            CrsfParsingError,
        >(p@),
{
    let b = p.spec_to_bytes();
    match p@ {
        ArduPilotPassthroughView::Single { appid, data } => {
            lemma_be16_round_trip(appid);
            lemma_be32_round_trip(data);
        },
        ArduPilotPassthroughView::StatusText { severity, text } => {
            assert(b.skip(2) =~= text);
        },
        ArduPilotPassthroughView::Multi { packets } => {
            lemma_telemetry_bytes_len(packets);
            assert forall|i: int| 0 <= i < packets.len() implies #[trigger] telemetry_items(b, packets.len() as int)[i]
                == packets[i] by {
                lemma_telemetry_bytes_at(packets, i);
                let t = telemetry_bytes(packets);
                assert(b[2 + 6 * i] == t[6 * i]);
                assert(b[3 + 6 * i] == t[6 * i + 1]);
                assert(b[4 + 6 * i] == t[6 * i + 2]);
                assert(b[5 + 6 * i] == t[6 * i + 3]);
                assert(b[6 + 6 * i] == t[6 * i + 4]);
                assert(b[7 + 6 * i] == t[6 * i + 5]);
                assert(t.subrange(6 * i, 6 * i + 2)[0] == t[6 * i]);
                assert(t.subrange(6 * i, 6 * i + 2)[1] == t[6 * i + 1]);
                assert(t.subrange(6 * i + 2, 6 * i + 6)[0] == t[6 * i + 2]);
                assert(t.subrange(6 * i + 2, 6 * i + 6)[1] == t[6 * i + 3]);
                assert(t.subrange(6 * i + 2, 6 * i + 6)[2] == t[6 * i + 4]);
                assert(t.subrange(6 * i + 2, 6 * i + 6)[3] == t[6 * i + 5]);
                lemma_be16_round_trip(packets[i].appid);
                lemma_be32_round_trip(packets[i].data);
            }
            assert(telemetry_items(b, packets.len() as int) =~= packets);
        },
    }
}

/// ArduPilot passthrough travels as frame type 0x80.
pub proof fn lemma_ardupilot_packet_type()
    ensures
        ArduPilotPassthrough::PACKET_TYPE == PacketType::ArdupilotResponse,
{
}

/// The single-item layout: after the sub-type byte 0xF0, the application id
/// in two big-endian bytes, then the data in four big-endian bytes, as in
/// each item of a multi-item frame. Every payload of at least 7 bytes that
/// starts with 0xF0 is read that way, and a single item is written that way.
pub proof fn lemma_ardupilot_single_layout(d: Seq<u8>, appid: u16, data: u32)
    ensures
        d.len() >= 7 && d[0] == 0xF0 ==> ArduPilotPassthrough::spec_from_bytes(d) == Ok::<
            ArduPilotPassthroughView,
            CrsfParsingError,
        >(
            ArduPilotPassthroughView::Single {
                appid: (d[1] * 256 + d[2]) as u16,
                data: (d[3] * 0x1000000 + d[4] * 0x10000 + d[5] * 0x100 + d[6]) as u32,
            },
        ),
        ({
            let w = ArduPilotPassthrough::Single { appid, data }.spec_to_bytes();
            &&& w.len() == 7
            &&& w[0] == 0xF0
            &&& w[1] * 256 + w[2] == appid
            &&& w[3] * 0x1000000 + w[4] * 0x10000 + w[5] * 0x100 + w[6] == data
        }),
{
    lemma_be16_round_trip(appid);
    lemma_be32_round_trip(data);
    let w = ArduPilotPassthrough::Single { appid, data }.spec_to_bytes();
    assert(w[1] == be16(appid)[0] && w[2] == be16(appid)[1]);
    assert(w[3] == be32(data)[0] && w[4] == be32(data)[1] && w[5] == be32(data)[2] && w[6] == be32(data)[3]);
    assert(0 <= w[1] * 256 + w[2] < 0x10000) by (nonlinear_arith)
        requires
            0 <= w[1] < 256,
            0 <= w[2] < 256,
    ;
    assert(0 <= w[3] * 0x1000000 + w[4] * 0x10000 + w[5] * 0x100 + w[6] < 0x100000000) by (nonlinear_arith)
        requires
            0 <= w[3] < 256,
            0 <= w[4] < 256,
            0 <= w[5] < 256,
            0 <= w[6] < 256,
    ;
}

/// The status text and multi-item layouts. Status text: after 0xF1, the
/// severity byte, then the text. Multi-item: after 0xF2, the item count,
/// then each item as its application id in two big-endian bytes and its
/// data in four. A payload is read that way, and a frame is written that
/// way.
pub proof fn lemma_ardupilot_other_layouts(d: Seq<u8>, i: int)
    ensures
        2 <= d.len() <= 52 && d[0] == 0xF1 ==> ArduPilotPassthrough::spec_from_bytes(d) == Ok::<
            ArduPilotPassthroughView,
            CrsfParsingError,
        >(ArduPilotPassthroughView::StatusText { severity: d[1], text: d.subrange(2, d.len() as int) }),
        ArduPilotPassthrough::spec_from_bytes(d) matches Ok(ArduPilotPassthroughView::Multi { packets }) ==> (
        d[0] == 0xF2 && packets.len() == d[1] && d.len() >= 2 + 6 * d[1] && (0 <= i < packets.len() ==> (
        packets[i].appid == d[2 + 6 * i] * 0x100 + d[3 + 6 * i] && packets[i].data == d[4 + 6 * i] * 0x1000000
            + d[5 + 6 * i] * 0x10000 + d[6 + 6 * i] * 0x100 + d[7 + 6 * i]))),
{
    assert(d.skip(2) =~= d.subrange(2, d.len() as int));
    if let Ok(ArduPilotPassthroughView::Multi { packets }) = ArduPilotPassthrough::spec_from_bytes(d) {
        if 0 <= i < packets.len() {
            crate::packets::wire::lemma_be16_at_value(d, 2 + 6 * i);
            crate::packets::wire::lemma_be32_at_value(d, 4 + 6 * i);
        }
    }
}

/// Each item of a multi-item frame is written as its application id in two
/// big-endian bytes, then its data in four, from byte 6 * i of the items.
pub proof fn lemma_telemetry_bytes_layout(ps: Seq<PassthroughTelemetryPacket>, i: int)
    requires
        0 <= i < ps.len(),
    ensures
        ({
            let w = telemetry_bytes(ps);
            &&& w.len() == 6 * ps.len()
            &&& w[6 * i] * 0x100 + w[6 * i + 1] == ps[i].appid
            &&& w[6 * i + 2] * 0x1000000 + w[6 * i + 3] * 0x10000 + w[6 * i + 4] * 0x100 + w[6 * i + 5]
                == ps[i].data
        }),
    decreases ps.len(),
{
    lemma_telemetry_bytes_len(ps);
    lemma_telemetry_bytes_len(ps.drop_last());
    let w = telemetry_bytes(ps);
    if i < ps.len() - 1 {
        lemma_telemetry_bytes_layout(ps.drop_last(), i);
        let w0 = telemetry_bytes(ps.drop_last());
        assert(w[6 * i] == w0[6 * i] && w[6 * i + 1] == w0[6 * i + 1] && w[6 * i + 2] == w0[6 * i + 2]);
        assert(w[6 * i + 3] == w0[6 * i + 3] && w[6 * i + 4] == w0[6 * i + 4] && w[6 * i + 5] == w0[6 * i + 5]);
    } else {
        let a = be16(ps.last().appid);
        let b = be32(ps.last().data);
        crate::packets::wire::lemma_be16_bytes(ps.last().appid);
        crate::packets::wire::lemma_be32_bytes(ps.last().data);
        let o = 6 * i;
        assert(w[o] == a[0] && w[o + 1] == a[1]);
        assert(w[o + 2] == b[0] && w[o + 3] == b[1] && w[o + 4] == b[2] && w[o + 5] == b[3]);
    }
}

} // verus!

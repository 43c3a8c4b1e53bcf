//! Byte-stream framing: a state machine that turns bytes into checked frames.
//!
//! A frame is `address | length | type | payload | crc`, where `length`
//! counts the type, the payload and the CRC, and the CRC covers the type and
//! the payload. The parser takes one byte at a time, recognises a frame's
//! start by a device address, checks the length and the CRC, and starts over
//! after any error, so that a corrupted stream resynchronises by itself.
use vstd::prelude::*;

use crate::checksum::{crc8_checksum, crc8_dvb_s2};
use crate::constants;
use crate::error::CrsfStreamError;
use crate::packets::address::{
    address_byte, is_address_byte, lemma_packet_type_byte_round_trip, packet_type_byte, PacketAddress,
};
use crate::packets::ardupilot::{lemma_ardupilot_round_trip, lemma_ardupilot_packet_type};
use crate::packets::baro_altitude::{lemma_baro_altitude_round_trip, lemma_baro_altitude_packet_type};
use crate::packets::battery::{lemma_battery_round_trip, lemma_battery_packet_type};
use crate::packets::device_information::{lemma_device_information_round_trip, lemma_device_information_packet_type};
use crate::packets::device_ping::{lemma_device_ping_round_trip, lemma_device_ping_constants};
use crate::packets::elrs_status::{lemma_elrs_status_round_trip, lemma_elrs_status_packet_type};
use crate::packets::gps::{lemma_gps_round_trip, lemma_gps_packet_type};
use crate::packets::link_statistics::{lemma_link_statistics_round_trip, lemma_link_statistics_packet_type};
use crate::packets::msp::{lemma_msp_round_trip, lemma_msp_packet_type};
use crate::packets::parameter_read::{lemma_parameter_read_round_trip, lemma_parameter_read_constants};
use crate::packets::parameter_settings_entry::{lemma_entry_round_trip, lemma_entry_packet_type};
use crate::packets::parameter_write::{lemma_parameter_write_round_trip, lemma_parameter_write_constants};
use crate::packets::rc_channels_packed::{lemma_rc_channels_round_trip, lemma_rc_channels_packed_packet_type};
use crate::packets::remote::{lemma_remote_round_trip, lemma_remote_packet_type};
use crate::packets::{
    frame_bytes, packet_wire, reads_back, spec_parse_frame, spec_parse_payload, Packet, PacketView,
};

verus! {

/// Where the parser stands inside a frame.
#[derive(Debug, Default, Ord, PartialOrd, Eq, PartialEq, Copy, Clone, Structural)]
pub enum State {
    /// Waiting for a byte that names a device.
    #[default]
    AwaitingSync,
    /// The address is in; the length byte comes next.
    AwaitingLength,
    /// Type and payload bytes come in; the frame ends at index `n`, the CRC's.
    Reading(usize),
    /// Everything but the CRC byte is in.
    AwaitingCrc,
}

/// What the parser holds, as the contracts see it: its state and the bytes of
/// the frame it has taken in so far.
pub ghost struct ParserModel {
    pub state: State,
    pub frame: Seq<u8>,
}

/// The parser before any byte, and after a frame or an error.
pub open spec fn idle_model() -> ParserModel {
    ParserModel { state: State::AwaitingSync, frame: Seq::empty() }
}

/// The state reached when `b` is taken as a candidate frame start.
pub open spec fn start_model(b: u8) -> ParserModel {
    if is_address_byte(b) {
        ParserModel { state: State::AwaitingLength, frame: seq![b] }
    } else {
        idle_model()
    }
}

/// A length byte that announces a frame of 4 to 64 bytes.
pub open spec fn valid_length_byte(b: u8) -> bool {
    2 <= b <= 62
}

/// The outcome of one byte: the next model, and what the call returns, a frame
/// being given by its bytes.
pub open spec fn parser_step(m: ParserModel, b: u8) -> (ParserModel, Result<Option<Seq<u8>>, CrsfStreamError>) {
    match m.state {
        State::AwaitingSync => if is_address_byte(b) {
            (start_model(b), Ok(None))
        } else {
            (idle_model(), Err(CrsfStreamError::InvalidSync(b)))
        },
        State::AwaitingLength => if valid_length_byte(b) {
            (ParserModel { state: State::Reading((b + 1) as usize), frame: m.frame.push(b) }, Ok(None))
        } else {
            (start_model(b), Err(CrsfStreamError::InvalidPacketLength(b)))
        },
        State::Reading(n) => {
            let f = m.frame.push(b);
            (
                ParserModel {
                    state: if f.len() == n { State::AwaitingCrc } else { State::Reading(n) },
                    frame: f,
                },
                Ok(None),
            )
        },
        State::AwaitingCrc => {
            let f = m.frame.push(b);
            let calculated = crc8_dvb_s2(f.subrange(2, f.len() - 1));
            if calculated == b {
                (idle_model(), Ok(Some(f)))
            } else {
                (
                    start_model(b),
                    Err(CrsfStreamError::InvalidCrc { calculated_crc: calculated, packet_crc: b }),
                )
            }
        },
    }
}

/// What a parser holds between bytes: nothing while waiting for a frame;
/// otherwise the bytes pushed since the frame's start, an address first, then
/// a valid length byte, and fewer bytes than that length announces (all but
/// the CRC once only the CRC is missing).
pub open spec fn model_ok(m: ParserModel) -> bool {
    match m.state {
        State::AwaitingSync => m.frame.len() == 0,
        State::AwaitingLength => m.frame.len() == 1 && is_address_byte(m.frame[0]),
        State::Reading(n) => {
            &&& 2 <= m.frame.len() < n
            &&& is_address_byte(m.frame[0])
            &&& valid_length_byte(m.frame[1])
            &&& n == m.frame[1] + 1
        },
        State::AwaitingCrc => {
            &&& m.frame.len() >= 2
            &&& is_address_byte(m.frame[0])
            &&& valid_length_byte(m.frame[1])
            &&& m.frame.len() == m.frame[1] + 1
        },
    }
}

/// A frame is yielded whole: from a parser in a proper state, the byte that
/// completes a frame yields exactly the bytes pushed since the frame's start
/// and that byte, which start with a device address, hold 4 to 64 bytes,
/// carry their length less two in the length byte and end in the CRC of
/// their type and payload; the parser is then idle. Every byte keeps the
/// parser in a proper state.
pub proof fn lemma_yielded_frame(m: ParserModel, b: u8)
    requires
        model_ok(m),
    ensures
        model_ok(parser_step(m, b).0),
        parser_step(m, b).1 matches Ok(Some(f)) ==> {
            &&& f == m.frame.push(b)
            &&& is_address_byte(f[0])
            &&& 4 <= f.len() <= 64
            &&& f[1] == f.len() - 2
            &&& f[f.len() - 1] == crc8_dvb_s2(f.subrange(2, f.len() - 1))
            &&& parser_step(m, b).0 == idle_model()
        },
{
}

/// The CRSF frame parser.
#[derive(Debug)]
pub struct CrsfParser {
    buffer: [u8; 64],
    state: State,
    position: usize,
}

/// A complete frame whose CRC checked, viewed in the buffer it was read into.
#[derive(Debug, Ord, PartialOrd, Eq, PartialEq)]
pub struct RawCrsfPacket<'a> {
    bytes: &'a [u8],
}

/// A frame result as the contracts see it: the frame by its bytes.
pub open spec fn raw_result_view<'a>(r: Result<Option<RawCrsfPacket<'a>>, CrsfStreamError>) -> Result<
    Option<Seq<u8>>,
    CrsfStreamError,
> {
    match r {
        Ok(Some(p)) => Ok(Some(p@)),
        Ok(None) => Ok(None),
        Err(e) => Err(e),
    }
}

impl CrsfParser {
    /// The parser's internal invariant: the state agrees with the bytes held.
    pub closed spec fn wf(&self) -> bool {
        &&& self.position < 64
        &&& match self.state {
            State::AwaitingSync => self.position == 0,
            State::AwaitingLength => self.position == 0 && is_address_byte(self.buffer@[0]),
            State::Reading(n) => {
                &&& valid_length_byte(self.buffer@[1])
                &&& n == self.buffer@[1] + 1
                &&& 1 <= self.position < n - 1
                &&& is_address_byte(self.buffer@[0])
            },
            State::AwaitingCrc => {
                &&& valid_length_byte(self.buffer@[1])
                &&& self.position == self.buffer@[1]
                &&& is_address_byte(self.buffer@[0])
            },
        }
    }

    /// The parser's state and the frame bytes taken in so far.
    pub closed spec fn model(&self) -> ParserModel {
        ParserModel {
            state: self.state,
            frame: if self.state == State::AwaitingSync {
                Seq::empty()
            } else {
                self.buffer@.take(self.position + 1)
            },
        }
    }

    /// A well-formed parser is in a proper state.
    pub proof fn lemma_model_ok(&self)
        requires
            self.wf(),
        ensures
            model_ok(self.model()),
    {
    }

    /// A parser waiting for the start of a frame.
    pub fn new() -> (r: Self)
        ensures
            r.wf(),
            r.model() == idle_model(),
    {
        CrsfParser { buffer: [0u8; 64], state: State::AwaitingSync, position: 0 }
    }

    /// Drops any partial frame and waits for the start of the next one.
    pub fn reset(&mut self)
        ensures
            final(self).wf(),
            final(self).model() == idle_model(),
    {
        self.position = 0;
        self.state = State::AwaitingSync;
    }

    /// Takes `byte` as the start of a frame when it names a device.
    fn try_start_frame_from_sync(&mut self, byte: u8) -> (r: bool)
        requires
            old(self).wf(),
            old(self).model() == idle_model(),
        ensures
            final(self).wf(),
            final(self).model() == start_model(byte),
            r == is_address_byte(byte),
    {
        if PacketAddress::from_byte(byte).is_some() {
            self.position = 0;
            self.buffer[0] = byte;
            self.state = State::AwaitingLength;
            assert(self.buffer@.take(1) =~= seq![byte]);
            true
        } else {
            false
        }
    }

    /// Feeds one byte; returns the frame it completes, if any, by its bytes.
    ///
    /// After any error the parser stands idle, or at the start of a new frame
    /// when the offending byte names a device.
    pub fn push_byte_raw(&mut self, byte: u8) -> (r: Result<Option<RawCrsfPacket<'_>>, CrsfStreamError>)
        requires
            old(self).wf(),
        ensures
            final(self).wf(),
            (final(self).model(), raw_result_view(r)) == parser_step(old(self).model(), byte),
    {
        match self.state {
            State::AwaitingSync => {
                if self.try_start_frame_from_sync(byte) {
                    Ok(None)
                } else {
                    Err(CrsfStreamError::InvalidSync(byte))
                }
            },
            State::AwaitingLength => {
                let n = byte as usize + 2;
                if !(constants::CRSF_MIN_PACKET_SIZE <= n && n <= constants::CRSF_MAX_PACKET_SIZE) {
                    self.reset();
                    self.try_start_frame_from_sync(byte);
                    return Err(CrsfStreamError::InvalidPacketLength(byte));
                }
                let ghost f0 = self.buffer@.take(1);
                self.position = 1;
                self.buffer[1] = byte;
                self.state = State::Reading(n - 1);
                assert(self.buffer@.take(2) =~= f0.push(byte));
                Ok(None)
            },
            State::Reading(n) => {
                let ghost f0 = self.buffer@.take(self.position + 1);
                self.position += 1;
                self.buffer[self.position] = byte;
                if self.position == n - 1 {
                    self.state = State::AwaitingCrc;
                }
                assert(self.buffer@.take(self.position + 1) =~= f0.push(byte));
                Ok(None)
            },
            State::AwaitingCrc => {
                let ghost f0 = self.buffer@.take(self.position + 1);
                self.position += 1;
                self.buffer[self.position] = byte;
                let ghost f = self.buffer@.take(self.position + 1);
                assert(f =~= f0.push(byte));
                let calculated_crc = crc8_checksum(&self.buffer[2..self.position]);
                assert(self.buffer@.subrange(2, self.position as int) =~= f.subrange(2, f.len() - 1));
                let packet_crc = self.buffer[self.position];
                if calculated_crc != packet_crc {
                    self.reset();
                    self.try_start_frame_from_sync(byte);
                    return Err(CrsfStreamError::InvalidCrc { calculated_crc, packet_crc });
                }
                let end = self.position + 1;
                self.position = 0;
                self.state = State::AwaitingSync;
                let bytes = &self.buffer[0..end];
                assert(bytes@ =~= f);
                match RawCrsfPacket::new(bytes) {
                    None => Err(CrsfStreamError::InputBufferTooSmall),
                    Some(packet) => Ok(Some(packet)),
                }
            },
        }
    }
}

impl Default for CrsfParser {
    /// A parser waiting for the start of a frame, as [`CrsfParser::new`].
    fn default() -> (r: Self)
        ensures
            r.wf(),
            r.model() == idle_model(),
    {
        Self::new()
    }
}

/// A frame result once the frame's payload is decoded; a payload that does
/// not decode becomes `ParsingError`.
pub open spec fn decoded_result(out: Result<Option<Seq<u8>>, CrsfStreamError>) -> Result<
    Option<PacketView>,
    CrsfStreamError,
> {
    match out {
        Ok(Some(f)) => match spec_parse_frame(f) {
            Ok(p) => Ok(Some(p)),
            Err(e) => Err(CrsfStreamError::ParsingError(e)),
        },
        Ok(None) => Ok(None),
        Err(e) => Err(e),
    }
}

/// A stream result with the packet taken by its view.
pub open spec fn stream_view(r: Result<Option<Packet>, CrsfStreamError>) -> Result<
    Option<PacketView>,
    CrsfStreamError,
> {
    match r {
        Ok(Some(p)) => Ok(Some(p@)),
        Ok(None) => Ok(None),
        Err(e) => Err(e),
    }
}

/// An iterator item with the packet taken by its view.
pub open spec fn item_view(r: Option<Result<Packet, CrsfStreamError>>) -> Option<
    Result<PacketView, CrsfStreamError>,
> {
    match r {
        Some(Ok(p)) => Some(Ok(p@)),
        Some(Err(e)) => Some(Err(e)),
        None => None,
    }
}

/// What the next call of [`PacketIterator::next`] does on a parser in model
/// `m` with `buf[pos..]` left to read: the model after it, the position after
/// it, and the item it gives (`None` once the bytes are used up).
pub open spec fn next_item(m: ParserModel, buf: Seq<u8>, pos: int) -> (
    ParserModel,
    int,
    Option<Result<PacketView, CrsfStreamError>>,
)
    decreases buf.len() - pos,
{
    if pos < 0 || pos >= buf.len() {
        (m, pos, None)
    } else {
        let (m2, out) = parser_step(m, buf[pos]);
        match decoded_result(out) {
            Ok(None) => next_item(m2, buf, pos + 1),
            Ok(Some(p)) => (m2, pos + 1, Some(Ok(p))),
            Err(e) => (m2, pos + 1, Some(Err(e))),
        }
    }
}


/// The model after the first `k` bytes of the frame `f`, fed from idle.
spec fn model_within_frame(f: Seq<u8>, k: int) -> ParserModel {
    if k == 0 {
        idle_model()
    } else if k == 1 {
        ParserModel { state: State::AwaitingLength, frame: f.take(1) }
    } else {
        ParserModel {
            state: if k == f.len() - 1 { State::AwaitingCrc } else { State::Reading((f.len() - 1) as usize) },
            frame: f.take(k),
        }
    }
}

proof fn lemma_frame_step(a: u8, t: u8, payload: Seq<u8>, k: int)
    requires
        is_address_byte(a),
        payload.len() <= 60,
        0 <= k < frame_bytes(a, t, payload).len() - 1,
    ensures
        ({
            let f = frame_bytes(a, t, payload);
            parser_step(model_within_frame(f, k), f[k]) == (model_within_frame(f, k + 1), Ok::<
                Option<Seq<u8>>,
                CrsfStreamError,
            >(None))
        }),
{
    let f = frame_bytes(a, t, payload);
    assert(f[0] == a);
    assert(f[1] == (payload.len() + 2) as u8);
    if k >= 1 {
        assert(f.take(k).push(f[k]) =~= f.take(k + 1));
    }
    if k == 0 {
        assert(f.take(1) =~= seq![a]);
    }
}

proof fn lemma_frame_tail(a: u8, t: u8, payload: Seq<u8>, k: int)
    requires
        is_address_byte(a),
        payload.len() <= 60,
        0 <= k <= frame_bytes(a, t, payload).len() - 1,
    ensures
        ({
            let f = frame_bytes(a, t, payload);
            next_item(model_within_frame(f, k), f, k) == (idle_model(), f.len() as int, Some(
                match spec_parse_payload(t, payload) {
                    Ok(p) => Ok::<PacketView, CrsfStreamError>(p),
                    Err(e) => Err(CrsfStreamError::ParsingError(e)),
                },
            ))
        }),
    decreases frame_bytes(a, t, payload).len() - k,
{
    let f = frame_bytes(a, t, payload);
    if k < f.len() - 1 {
        lemma_frame_step(a, t, payload, k);
        lemma_frame_tail(a, t, payload, k + 1);
    } else {
        let m = model_within_frame(f, k);
        assert(f.take(k).push(f[k]) =~= f);
        assert(f.subrange(2, f.len() - 1) =~= seq![t] + payload);
        assert(f.subrange(3, f.len() - 1) =~= payload);
        assert(f[2] == t);
        assert(f[k] == crc8_dvb_s2(seq![t] + payload));
        assert(parser_step(m, f[k]) == (idle_model(), Ok::<Option<Seq<u8>>, CrsfStreamError>(Some(f))));
    }
}

/// A frame read from idle is given back whole: fed to an idle parser, the
/// bytes of a frame to any device address, of any type byte, with a payload
/// of at most 60 bytes, make the parser yield that frame's packet (or the
/// error its payload is refused with) at the frame's last byte, no error
/// before it, and leave the parser idle.
pub proof fn lemma_frame_read_back(a: u8, t: u8, payload: Seq<u8>)
    requires
        is_address_byte(a),
        payload.len() <= 60,
    ensures
        ({
            let f = frame_bytes(a, t, payload);
            &&& next_item(idle_model(), f, 0) == (idle_model(), f.len() as int, Some(
                match spec_parse_payload(t, payload) {
                    Ok(p) => Ok::<PacketView, CrsfStreamError>(p),
                    Err(e) => Err(CrsfStreamError::ParsingError(e)),
                },
            ))
            &&& f.subrange(3, f.len() - 1) == payload
            &&& spec_parse_frame(f) == spec_parse_payload(t, payload)
        }),
{
    let f = frame_bytes(a, t, payload);
    lemma_frame_tail(a, t, payload, 0);
    assert(f.subrange(3, f.len() - 1) =~= payload);
}

/// What is written is read back: the frame that `write_packet_to_buffer`
/// writes for a packet to any address, fed to an idle parser, makes the
/// parser yield that same packet at the frame's last byte, with no error
/// before it, and leaves the parser idle.
pub proof fn lemma_written_packet_read_back(dest: PacketAddress, p: Packet)
    requires
        reads_back(p),
    ensures
        packet_wire(p) matches Some((t, payload)) && ({
            let f = frame_bytes(address_byte(dest), packet_type_byte(t), payload);
            next_item(idle_model(), f, 0) == (idle_model(), f.len() as int, Some(
                Ok::<PacketView, CrsfStreamError>(p@),
            ))
        }),
{
    let (t, payload) = packet_wire(p).unwrap();
    lemma_frame_read_back(address_byte(dest), packet_type_byte(t), payload);
    lemma_packet_type_byte_round_trip(t);
    match p {
        Packet::Gps(x) => {
            lemma_gps_packet_type();
            lemma_gps_round_trip(x);
        },
        Packet::Battery(x) => {
            lemma_battery_packet_type();
            lemma_battery_round_trip(x);
        },
        Packet::BaroAltitude(x) => {
            lemma_baro_altitude_packet_type();
            lemma_baro_altitude_round_trip(x);
        },
        Packet::LinkStatistics(x) => {
            lemma_link_statistics_packet_type();
            lemma_link_statistics_round_trip(x);
        },
        Packet::RCChannels(x) => {
            lemma_rc_channels_packed_packet_type();
            lemma_rc_channels_round_trip(x);
        },
        Packet::DevicePing(x) => {
            lemma_device_ping_constants();
            lemma_device_ping_round_trip(x);
        },
        Packet::DeviceInformation(x) => {
            lemma_device_information_packet_type();
            lemma_device_information_round_trip(x);
        },
        Packet::ParameterSettingsEntry(x) => {
            lemma_entry_packet_type();
            lemma_entry_round_trip(x@);
        },
        Packet::ParameterChunk(_) => {},
        Packet::ParameterRead(x) => {
            lemma_parameter_read_constants();
            lemma_parameter_read_round_trip(x);
        },
        Packet::ParameterWrite(x) => {
            lemma_parameter_write_constants();
            lemma_parameter_write_round_trip(x);
        },
        Packet::ElrsStatus(x) => {
            lemma_elrs_status_packet_type();
            lemma_elrs_status_round_trip(x);
        },
        Packet::Remote(x) => {
            lemma_remote_packet_type();
            lemma_remote_round_trip(x);
        },
        Packet::Msp(x) => {
            lemma_msp_packet_type();
            lemma_msp_round_trip(x);
        },
        Packet::ArduPilot(x) => {
            lemma_ardupilot_packet_type();
            lemma_ardupilot_round_trip(x);
        },
    }
}

/// One step of [`next_item`]: the byte at `pos` is fed; a packet or error
/// ends the step, nothing goes on to the next byte.
pub proof fn lemma_next_item_unfold(m: ParserModel, buf: Seq<u8>, pos: int)
    requires
        0 <= pos < buf.len(),
    ensures
        next_item(m, buf, pos) == ({
            let (m2, out) = parser_step(m, buf[pos]);
            match decoded_result(out) {
                Ok(None) => next_item(m2, buf, pos + 1),
                Ok(Some(p)) => (m2, pos + 1, Some(Ok::<PacketView, CrsfStreamError>(p))),
                Err(e) => (m2, pos + 1, Some(Err::<PacketView, CrsfStreamError>(e))),
            }
        }),
{
}

/// With the bytes used up, [`next_item`] gives nothing and changes nothing.
pub proof fn lemma_next_item_end(m: ParserModel, buf: Seq<u8>)
    ensures
        next_item(m, buf, buf.len() as int) == (m, buf.len() as int, None::<Result<PacketView, CrsfStreamError>>),
{
}

/// The bytes of `buf` from `pos` on fed one at a time: the model after the
/// last, and every result that is not `Ok(None)`, in order.
pub open spec fn byte_results(m: ParserModel, buf: Seq<u8>, pos: int) -> (
    ParserModel,
    Seq<Result<PacketView, CrsfStreamError>>,
)
    decreases buf.len() - pos,
{
    if pos < 0 || pos >= buf.len() {
        (m, Seq::empty())
    } else {
        let (m2, out) = parser_step(m, buf[pos]);
        let (m3, rest) = byte_results(m2, buf, pos + 1);
        match decoded_result(out) {
            Ok(None) => (m3, rest),
            Ok(Some(p)) => (m3, seq![Ok::<PacketView, CrsfStreamError>(p)] + rest),
            Err(e) => (m3, seq![Err::<PacketView, CrsfStreamError>(e)] + rest),
        }
    }
}

/// One item of the iterator against the per-byte results: no item only once
/// the bytes are used up, with the same model; otherwise the first of the
/// results, read up to a later position from which the rest follow.
pub proof fn lemma_next_item_results(m: ParserModel, buf: Seq<u8>, pos: int)
    requires
        0 <= pos <= buf.len(),
    ensures
        ({
            let (m2, p2, it) = next_item(m, buf, pos);
            match it {
                None => p2 == buf.len() && byte_results(m, buf, pos) == (m2, Seq::<
                    Result<PacketView, CrsfStreamError>,
                >::empty()),
                Some(x) => pos < p2 <= buf.len() && byte_results(m, buf, pos) == (
                    byte_results(m2, buf, p2).0,
                    seq![x] + byte_results(m2, buf, p2).1,
                ),
            }
        }),
    decreases buf.len() - pos,
{
    if pos < buf.len() {
        let (m2, out) = parser_step(m, buf[pos]);
        lemma_next_item_results(m2, buf, pos + 1);
    }
}

/// The results of a single item, as a sequence: none, or the item.
pub open spec fn item_seq(it: Option<Result<PacketView, CrsfStreamError>>) -> Seq<
    Result<PacketView, CrsfStreamError>,
> {
    match it {
        None => Seq::empty(),
        Some(x) => seq![x],
    }
}

/// Feeding `buf` from `pos` on is feeding the bytes after `pos`.
pub proof fn lemma_byte_results_skip(m: ParserModel, buf: Seq<u8>, pos: int)
    requires
        0 <= pos <= buf.len(),
    ensures
        byte_results(m, buf, pos) == byte_results(m, buf.skip(pos), 0),
    decreases buf.len() - pos,
{
    if pos < buf.len() {
        let (m2, out) = parser_step(m, buf[pos]);
        lemma_byte_results_skip(m2, buf, pos + 1);
        lemma_byte_results_skip(m2, buf.skip(pos), 1);
        assert(buf.skip(pos).skip(1) =~= buf.skip(pos + 1));
        assert(buf.skip(pos)[0] == buf[pos]);
    }
}

/// Feeding `a` and then `b` is feeding `a + b`: the parser ends where it
/// ends after `b`, and the results are those of `a` followed by those of
/// `b`. No byte is lost or counted twice where a stream is cut.
pub proof fn lemma_byte_results_append(m: ParserModel, a: Seq<u8>, b: Seq<u8>)
    ensures
        byte_results(m, a + b, 0) == ({
            let (ma, ra) = byte_results(m, a, 0);
            let (mb, rb) = byte_results(ma, b, 0);
            (mb, ra + rb)
        }),
    decreases a.len(),
{
    if a.len() == 0 {
        assert(a + b =~= b);
    } else {
        let (m1, out) = parser_step(m, a[0]);
        assert((a + b)[0] == a[0]);
        lemma_byte_results_skip(m1, a + b, 1);
        lemma_byte_results_skip(m1, a, 1);
        assert((a + b).skip(1) =~= a.skip(1) + b);
        lemma_byte_results_append(m1, a.skip(1), b);
        let (ma1, ra1) = byte_results(m1, a.skip(1), 0);
        let (mb, rb) = byte_results(ma1, b, 0);
        match decoded_result(out) {
            Ok(None) => {},
            Ok(Some(p)) => {
                assert(seq![Ok::<PacketView, CrsfStreamError>(p)] + (ra1 + rb) =~= (seq![
                    Ok::<PacketView, CrsfStreamError>(p),
                ] + ra1) + rb);
            },
            Err(e) => {
                assert(seq![Err::<PacketView, CrsfStreamError>(e)] + (ra1 + rb) =~= (seq![
                    Err::<PacketView, CrsfStreamError>(e),
                ] + ra1) + rb);
            },
        }
    }
}

/// One item reads exactly the bytes it passes over: feeding the bytes from
/// `pos` up to where [`next_item`] stops leaves the parser where it does and
/// gives its item as the only result.
pub proof fn lemma_next_item_prefix(m: ParserModel, buf: Seq<u8>, pos: int)
    requires
        0 <= pos <= buf.len(),
    ensures
        ({
            let (m2, p2, it) = next_item(m, buf, pos);
            &&& pos <= p2 <= buf.len()
            &&& byte_results(m, buf.subrange(pos, p2), 0) == (m2, item_seq(it))
        }),
    decreases buf.len() - pos,
{
    lemma_next_item_results(m, buf, pos);
    let (m2, p2, it) = next_item(m, buf, pos);
    if pos < buf.len() {
        let (m1, out) = parser_step(m, buf[pos]);
        let sub = buf.subrange(pos, p2);
        assert(sub[0] == buf[pos]);
        lemma_byte_results_skip(m1, sub, 1);
        match decoded_result(out) {
            Ok(None) => {
                lemma_next_item_prefix(m1, buf, pos + 1);
                assert(sub.skip(1) =~= buf.subrange(pos + 1, p2));
            },
            _ => {
                assert(sub.skip(1) =~= Seq::<u8>::empty());
            },
        }
    } else {
        assert(buf.subrange(pos, p2) =~= Seq::<u8>::empty());
    }
}

/// The items the iterator yields from `pos` on, until it gives none: the
/// model then, and the items in order.
pub open spec fn iterated(m: ParserModel, buf: Seq<u8>, pos: int) -> (
    ParserModel,
    Seq<Result<PacketView, CrsfStreamError>>,
)
    decreases buf.len() - pos,
{
    if pos < 0 || pos > buf.len() {
        (m, Seq::empty())
    } else {
        let (m2, p2, it) = next_item(m, buf, pos);
        match it {
            None => (m2, Seq::empty()),
            Some(x) => {
                proof {
                    lemma_next_item_results(m, buf, pos);
                }
                let (m3, rest) = iterated(m2, buf, p2);
                (m3, seq![x] + rest)
            },
        }
    }
}

/// Iterating is feeding byte by byte: the items an iterator over `buf`
/// yields, until it gives none, are the results of feeding the bytes one at
/// a time that are not `Ok(None)`, in order, and it leaves the parser as
/// feeding all the bytes does.
pub proof fn lemma_iterated_results(m: ParserModel, buf: Seq<u8>, pos: int)
    requires
        0 <= pos <= buf.len(),
    ensures
        iterated(m, buf, pos) == byte_results(m, buf, pos),
    decreases buf.len() - pos,
{
    lemma_next_item_results(m, buf, pos);
    let (m2, p2, it) = next_item(m, buf, pos);
    if it is Some {
        lemma_iterated_results(m2, buf, p2);
    }
}

impl CrsfParser {
    /// Feeds one byte; returns the packet decoded from the frame it completes,
    /// if any.
    pub fn push_byte(&mut self, byte: u8) -> (r: Result<Option<Packet>, CrsfStreamError>)
        requires
            old(self).wf(),
        ensures
            final(self).wf(),
            final(self).model() == parser_step(old(self).model(), byte).0,
            stream_view(r) == decoded_result(parser_step(old(self).model(), byte).1),
    {
        match self.push_byte_raw(byte) {
            Ok(Some(raw_packet)) => match Packet::parse(&raw_packet) {
                Ok(packet) => Ok(Some(packet)),
                Err(e) => Err(CrsfStreamError::ParsingError(e)),
            },
            Ok(None) => Ok(None),
            Err(e) => Err(e),
        }
    }

    /// An iterator over the packets and errors that `buffer` yields when fed
    /// to this parser byte by byte. Once the iterator is dropped, the parser
    /// stands where the iterator's last call of `next` left it.
    pub fn iter_packets<'a, 'b>(&'a mut self, buffer: &'b [u8]) -> (r: PacketIterator<'a, 'b>)
        requires
            old(self).wf(),
        ensures
            r.wf(),
            r.position() == 0,
            r.bytes() == buffer@,
            r.model() == old(self).model(),
            *final(self) == *final(r.parser),
    {
        PacketIterator { parser: self, buffer, pos: 0 }
    }
}

/// Feeds a byte buffer to a parser, one packet or error at a time.
pub struct PacketIterator<'a, 'b> {
    /// The parser the bytes are fed to.
    pub parser: &'a mut CrsfParser,
    /// The bytes to feed.
    pub buffer: &'b [u8],
    /// How many of them have been fed.
    pub pos: usize,
}

impl<'a, 'b> PacketIterator<'a, 'b> {
    /// The parser's model.
    pub open spec fn model(&self) -> ParserModel {
        self.parser.model()
    }

    /// The bytes the iterator reads.
    pub open spec fn bytes(&self) -> Seq<u8> {
        self.buffer@
    }

    /// How many bytes the iterator has read.
    pub open spec fn position(&self) -> int {
        self.pos as int
    }

    /// The iterator's invariant.
    pub open spec fn wf(&self) -> bool {
        self.parser.wf() && self.pos <= self.buffer@.len()
    }

    /// Reads bytes until one completes a packet or yields an error; `None`
    /// once the buffer is used up.
    pub fn next(&mut self) -> (r: Option<Result<Packet, CrsfStreamError>>)
        requires
            old(self).wf(),
        ensures
            final(self).wf(),
            final(self).bytes() == old(self).bytes(),
            *final(final(self).parser) == *final(old(self).parser),
            (final(self).model(), final(self).position(), item_view(r)) == next_item(
                old(self).model(),
                old(self).bytes(),
                old(self).position(),
            ),
    {
        while self.pos < self.buffer.len()
            invariant
                self.wf(),
                self.buffer@ == old(self).buffer@,
                *final(self.parser) == *final(old(self).parser),
                next_item(self.model(), self.bytes(), self.position()) == next_item(
                    old(self).model(),
                    old(self).bytes(),
                    old(self).position(),
                ),
            decreases self.buffer@.len() - self.pos,
        {
            let ghost m0 = self.model();
            let ghost p0 = self.position();
            let byte = self.buffer[self.pos];
            self.pos += 1;
            let res = self.parser.push_byte(byte);
            assert(self.bytes()[p0] == byte);
            assert(next_item(m0, self.bytes(), p0) == match decoded_result(parser_step(m0, byte).1) {
                Ok(None) => next_item(self.model(), self.bytes(), self.position()),
                Ok(Some(p)) => (self.model(), self.position(), Some(Ok(p))),
                Err(e) => (self.model(), self.position(), Some(Err(e))),
            });
            match res {
                Ok(Some(packet)) => return Some(Ok(packet)),
                Ok(None) => {},
                Err(err) => return Some(Err(err)),
            }
        }
        None
    }
}

impl<'a> View for RawCrsfPacket<'a> {
    type V = Seq<u8>;

    closed spec fn view(&self) -> Seq<u8> {
        self.bytes@
    }
}

impl<'a> RawCrsfPacket<'a> {
    #[verifier::type_invariant]
    closed spec fn holds_a_frame(self) -> bool {
        self.bytes@.len() >= 4
    }

    /// Wraps `bytes` as a frame; `None` when it is shorter than the smallest
    /// frame (4 bytes).
    pub fn new(bytes: &'a [u8]) -> (r: Option<Self>)
        ensures
            r is Some <==> bytes@.len() >= 4,
            r matches Some(p) ==> p@ == bytes@,
    {
        if bytes.len() >= 4 {
            Some(Self { bytes })
        } else {
            None
        }
    }

    /// A second view of the same frame.
    pub fn clone(&self) -> (r: Self)
        ensures
            r@ == self@,
    {
        proof {
            use_type_invariant(self);
        }
        RawCrsfPacket { bytes: self.bytes }
    }

    /// The destination address byte.
    pub fn dst_addr(&self) -> (r: u8)
        ensures
            self@.len() >= 4,
            r == self@[0],
    {
        proof {
            use_type_invariant(self);
        }
        self.bytes[0]
    }

    /// The frame type byte.
    pub fn raw_packet_type(&self) -> (r: u8)
        ensures
            self@.len() >= 4,
            r == self@[2],
    {
        proof {
            use_type_invariant(self);
        }
        self.bytes[2]
    }

    /// The payload: the bytes between the type byte and the CRC.
    pub fn payload(&self) -> (r: &[u8])
        ensures
            self@.len() >= 4,
            r@ == self@.subrange(3, self@.len() - 1),
    {
        proof {
            use_type_invariant(self);
        }
        &self.bytes[3..self.bytes.len() - 1]
    }

    /// The CRC byte, the frame's last.
    pub fn crc(&self) -> (r: u8)
        ensures
            self@.len() >= 4,
            r == self@.last(),
    {
        proof {
            use_type_invariant(self);
        }
        self.bytes[self.bytes.len() - 1]
    }

    /// The frame's length in bytes, framing included.
    pub fn len(&self) -> (r: usize)
        ensures
            r == self@.len(),
            r >= 4,
    {
        proof {
            use_type_invariant(self);
        }
        self.bytes.len()
    }

    /// Whether the frame holds no bytes; never the case for a frame.
    pub fn is_empty(&self) -> (r: bool)
        ensures
            r == (self@.len() == 0),
            !r,
    {
        proof {
            use_type_invariant(self);
        }
        self.bytes.len() == 0
    }
}

} // verus!

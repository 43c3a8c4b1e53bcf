//! Parameter settings entries (frame type 0x2B): a device's description of
//! one of its parameters, and its reassembly from chunks.
use vstd::prelude::*;
use vstd::string::StringSliceAdditionalSpecFns;
use vstd::utf8::valid_utf8;

use crate::fixed::{
    bytes32, bytes32_as_slice, bytes32_from_slice, bytes56, bytes56_as_slice, bytes56_from_slice,
    bytes64, bytes64_as_slice, bytes64_from_slice, chunk_list8, chunk_list8_as_slice, chunk_list8_clear,
    chunk_list8_new, chunk_list8_push, text128, text128_as_str, text128_from_str, text512,
    text512_as_str, text512_from_str,
};
use crate::packets::wire::{
    be32, be32_at, get_be32, lemma_be32_round_trip, lemma_i32_cast, lemma_splice_append_at,
    put_be32, put_bytes, splice,
};
use crate::packets::{CrsfPacket, PacketType};
use crate::text::{find_byte, first_index, lemma_first_index, lemma_first_index_of, str_from_utf8};
use crate::CrsfParsingError;

verus! {

/// The longest name, unit, info or string value, in bytes.
pub const MAX_STRING_LEN: usize = 128;

/// The most children a folder lists.
pub const MAX_CHILDREN: usize = 32;

/// The longest options list of a text selection, in bytes.
pub const MAX_OPTIONS: usize = 512;

/// The most VTX data bytes.
pub const MAX_VTX_DATA: usize = 64;

/// The type of a parameter: the low 7 bits of its data type byte.
#[derive(Clone, Copy, Debug, PartialEq, Eq, Structural)]
pub enum ParameterDataType {
    Uint8,
    Int8,
    Uint16,
    Int16,
    Uint32,
    Int32,
    Float,
    TextSelection,
    String,
    Folder,
    Info,
    Command,
    Vtx,
    OutOfRange,
}

/// The number of a parameter type.
pub open spec fn data_type_byte(t: ParameterDataType) -> u8 {
    match t {
        ParameterDataType::Uint8 => 0,
        ParameterDataType::Int8 => 1,
        ParameterDataType::Uint16 => 2,
        ParameterDataType::Int16 => 3,
        ParameterDataType::Uint32 => 4,
        ParameterDataType::Int32 => 5,
        ParameterDataType::Float => 8,
        ParameterDataType::TextSelection => 9,
        ParameterDataType::String => 10,
        ParameterDataType::Folder => 11,
        ParameterDataType::Info => 12,
        ParameterDataType::Command => 13,
        ParameterDataType::Vtx => 15,
        ParameterDataType::OutOfRange => 127,
    }
}

/// The parameter type of a data type byte, its hidden bit (bit 7) ignored.
pub open spec fn data_type_of_byte(b: u8) -> Option<ParameterDataType> {
    let v = b % 128;
    if v == 0 {
        Some(ParameterDataType::Uint8)
    } else if v == 1 {
        Some(ParameterDataType::Int8)
    } else if v == 2 {
        Some(ParameterDataType::Uint16)
    } else if v == 3 {
        Some(ParameterDataType::Int16)
    } else if v == 4 {
        Some(ParameterDataType::Uint32)
    } else if v == 5 {
        Some(ParameterDataType::Int32)
    } else if v == 8 {
        Some(ParameterDataType::Float)
    } else if v == 9 {
        Some(ParameterDataType::TextSelection)
    } else if v == 10 {
        Some(ParameterDataType::String)
    } else if v == 11 {
        Some(ParameterDataType::Folder)
    } else if v == 12 {
        Some(ParameterDataType::Info)
    } else if v == 13 {
        Some(ParameterDataType::Command)
    } else if v == 15 {
        Some(ParameterDataType::Vtx)
    } else if v == 127 {
        Some(ParameterDataType::OutOfRange)
    } else {
        None
    }
}

/// A type's number names the type again, with or without the hidden bit.
pub proof fn lemma_data_type_byte_round_trip(t: ParameterDataType)
    ensures
        data_type_of_byte(data_type_byte(t)) == Some(t),
        data_type_of_byte((data_type_byte(t) + 128) as u8) == Some(t),
{
}

impl ParameterDataType {
    /// The type's number.
    pub fn to_byte(self) -> (r: u8)
        ensures
            r == data_type_byte(self),
    {
        match self {
            ParameterDataType::Uint8 => 0,
            ParameterDataType::Int8 => 1,
            ParameterDataType::Uint16 => 2,
            ParameterDataType::Int16 => 3,
            ParameterDataType::Uint32 => 4,
            ParameterDataType::Int32 => 5,
            ParameterDataType::Float => 8,
            ParameterDataType::TextSelection => 9,
            ParameterDataType::String => 10,
            ParameterDataType::Folder => 11,
            ParameterDataType::Info => 12,
            ParameterDataType::Command => 13,
            ParameterDataType::Vtx => 15,
            ParameterDataType::OutOfRange => 127,
        }
    }
}

impl From<ParameterDataType> for u8 {
    fn from(t: ParameterDataType) -> (r: u8) {
        t.to_byte()
    }
}

impl vstd::std_specs::convert::FromSpecImpl<ParameterDataType> for u8 {
    open spec fn obeys_from_spec() -> bool {
        true
    }

    open spec fn from_spec(t: ParameterDataType) -> u8 {
        data_type_byte(t)
    }
}

/// The parameter type of a data type byte; `InvalidPayload` for a number
/// that names no type.
pub open spec fn data_type_result(b: u8) -> Result<ParameterDataType, CrsfParsingError> {
    match data_type_of_byte(b) {
        Some(t) => Ok(t),
        None => Err(CrsfParsingError::InvalidPayload),
    }
}

impl TryFrom<u8> for ParameterDataType {
    type Error = CrsfParsingError;

    fn try_from(value: u8) -> (r: Result<ParameterDataType, CrsfParsingError>) {
        let type_value = value & 0x7F;
        assert(value & 0x7F == value % 128) by (bit_vector);
        match type_value {
            0 => Ok(ParameterDataType::Uint8),
            1 => Ok(ParameterDataType::Int8),
            2 => Ok(ParameterDataType::Uint16),
            3 => Ok(ParameterDataType::Int16),
            4 => Ok(ParameterDataType::Uint32),
            5 => Ok(ParameterDataType::Int32),
            8 => Ok(ParameterDataType::Float),
            9 => Ok(ParameterDataType::TextSelection),
            10 => Ok(ParameterDataType::String),
            11 => Ok(ParameterDataType::Folder),
            12 => Ok(ParameterDataType::Info),
            13 => Ok(ParameterDataType::Command),
            15 => Ok(ParameterDataType::Vtx),
            127 => Ok(ParameterDataType::OutOfRange),
            _ => Err(CrsfParsingError::InvalidPayload),
        }
    }
}

impl vstd::std_specs::convert::TryFromSpecImpl<u8> for ParameterDataType {
    open spec fn obeys_try_from_spec() -> bool {
        true
    }

    open spec fn try_from_spec(b: u8) -> Result<ParameterDataType, CrsfParsingError> {
        data_type_result(b)
    }
}

/// The value of a parameter and what describes it, by its type.
#[derive(Clone, Debug, PartialEq, Eq)]
pub enum ParameterData {
    /// A number, carried as the bits of an `i32`, with its bounds, default,
    /// decimal places, step and unit.
    Float {
        value: i32,
        min: i32,
        max: i32,
        default: i32,
        decimal_point: u8,
        step_size: i32,
        unit: heapless::String<128>,
    },
    /// A choice among `;`-separated options, by index.
    TextSelection {
        options: heapless::String<512>,
        value: u8,
        min: u8,
        max: u8,
        default: u8,
        unit: heapless::String<128>,
    },
    /// A text value and its longest length.
    String { value: heapless::String<128>, max_length: u8 },
    /// The parameter numbers of a folder's children.
    Folder { children: heapless::Vec<u8, 32> },
    /// A read-only text.
    Info { info: heapless::String<128> },
    /// A command: its status, timeout and description.
    Command { status: u8, timeout: u8, info: heapless::String<128> },
    /// Raw VTX bytes.
    Vtx { data: heapless::Vec<u8, 64> },
}

/// Parameter data as the contracts see it: texts and lists by their bytes.
pub ghost enum ParameterDataView {
    Float {
        value: i32,
        min: i32,
        max: i32,
        default: i32,
        decimal_point: u8,
        step_size: i32,
        unit: Seq<u8>,
    },
    TextSelection { options: Seq<u8>, value: u8, min: u8, max: u8, default: u8, unit: Seq<u8> },
    String { value: Seq<u8>, max_length: u8 },
    Folder { children: Seq<u8> },
    Info { info: Seq<u8> },
    Command { status: u8, timeout: u8, info: Seq<u8> },
    Vtx { data: Seq<u8> },
}

impl View for ParameterData {
    type V = ParameterDataView;

    open spec fn view(&self) -> ParameterDataView {
        match self {
            ParameterData::Float { value, min, max, default, decimal_point, step_size, unit } =>
                ParameterDataView::Float {
                value: *value,
                min: *min,
                max: *max,
                default: *default,
                decimal_point: *decimal_point,
                step_size: *step_size,
                unit: text128(*unit),
            },
            ParameterData::TextSelection { options, value, min, max, default, unit } =>
                ParameterDataView::TextSelection {
                options: text512(*options),
                value: *value,
                min: *min,
                max: *max,
                default: *default,
                unit: text128(*unit),
            },
            ParameterData::String { value, max_length } => ParameterDataView::String {
                value: text128(*value),
                max_length: *max_length,
            },
            ParameterData::Folder { children } => ParameterDataView::Folder {
                children: bytes32(*children),
            },
            ParameterData::Info { info } => ParameterDataView::Info { info: text128(*info) },
            ParameterData::Command { status, timeout, info } => ParameterDataView::Command {
                status: *status,
                timeout: *timeout,
                info: text128(*info),
            },
            ParameterData::Vtx { data } => ParameterDataView::Vtx { data: bytes64(*data) },
        }
    }
}

/// A parameter's description: where it sits, its type, name and data.
#[derive(Clone, Debug, PartialEq, Eq)]
pub struct ParameterSettingsEntry {
    /// Destination device address.
    pub dst_addr: u8,
    /// Origin device address.
    pub src_addr: u8,
    /// The parameter's number.
    pub parameter_number: u8,
    /// How many chunks of the entry are still to come.
    pub chunks_remaining: u8,
    /// The folder holding the parameter (0 for the root).
    pub parent: u8,
    /// The type number; bit 7 marks a hidden parameter.
    pub data_type: u8,
    /// The parameter's name.
    pub name: heapless::String<128>,
    /// The parameter's data, when the entry carries it.
    pub data: Option<ParameterData>,
}

/// An entry as the contracts see it.
pub ghost struct ParameterSettingsEntryView {
    pub dst_addr: u8,
    pub src_addr: u8,
    pub parameter_number: u8,
    pub chunks_remaining: u8,
    pub parent: u8,
    pub data_type: u8,
    pub name: Seq<u8>,
    pub data: Option<ParameterDataView>,
}

impl View for ParameterSettingsEntry {
    type V = ParameterSettingsEntryView;

    open spec fn view(&self) -> ParameterSettingsEntryView {
        ParameterSettingsEntryView {
            dst_addr: self.dst_addr,
            src_addr: self.src_addr,
            parameter_number: self.parameter_number,
            chunks_remaining: self.chunks_remaining,
            parent: self.parent,
            data_type: self.data_type,
            name: text128(self.name),
            data: match self.data {
                Some(d) => Some(d@),
                None => None,
            },
        }
    }
}

/// A NUL-terminated UTF-8 string at the front of `d`, of at most `cap`
/// bytes: its bytes and the bytes it takes with the terminator. Without a
/// terminator, or when not UTF-8, `InvalidPayload`; when longer than `cap`,
/// `InvalidPayloadLength`.
pub open spec fn c_string(d: Seq<u8>, cap: int) -> Result<(Seq<u8>, int), CrsfParsingError> {
    match first_index(d, 0) {
        None => Err(CrsfParsingError::InvalidPayload),
        Some(n) => if !valid_utf8(d.take(n)) {
            Err(CrsfParsingError::InvalidPayload)
        } else if n > cap {
            Err(CrsfParsingError::InvalidPayloadLength)
        } else {
            Ok((d.take(n), n + 1))
        },
    }
}

/// The bytes of the data of a parameter.
pub open spec fn data_bytes(d: ParameterDataView) -> Seq<u8> {
    match d {
        ParameterDataView::Float { value, min, max, default, decimal_point, step_size, unit } => be32(
            value as u32,
        ) + be32(min as u32) + be32(max as u32) + be32(default as u32) + seq![decimal_point] + be32(
            step_size as u32,
        ) + unit + seq![0u8],
        ParameterDataView::TextSelection { options, value, min, max, default, unit } => options
            + seq![0u8, value, min, max, default] + unit + seq![0u8],
        ParameterDataView::String { value, max_length } => value + seq![0u8, max_length],
        ParameterDataView::Folder { children } => children + seq![0xFFu8],
        ParameterDataView::Info { info } => info + seq![0u8],
        ParameterDataView::Command { status, timeout, info } => seq![status, timeout] + info + seq![
            0u8,
        ],
        ParameterDataView::Vtx { data } => data,
    }
}

/// The bytes of an entry's fixed fields and name.
pub open spec fn entry_head_bytes(e: ParameterSettingsEntryView) -> Seq<u8> {
    seq![e.dst_addr, e.src_addr, e.parameter_number, e.chunks_remaining, e.parent, e.data_type]
        + e.name + seq![0u8]
}

/// The bytes of an entry.
pub open spec fn entry_bytes(e: ParameterSettingsEntryView) -> Seq<u8> {
    entry_head_bytes(e) + match e.data {
        Some(d) => data_bytes(d),
        None => Seq::empty(),
    }
}

/// The data of type `t` that starts at `off` in the payload `d`, or the
/// error it is refused with.
pub open spec fn spec_parse_data(t: ParameterDataType, d: Seq<u8>, off: int) -> Result<
    ParameterDataView,
    CrsfParsingError,
> {
    match t {
        ParameterDataType::Float => if d.len() < off + 21 {
            Err(CrsfParsingError::InvalidPayloadLength)
        } else {
            match c_string(d.skip(off + 21), 128) {
                Err(e) => Err(e),
                Ok((unit, _)) => Ok(
                    ParameterDataView::Float {
                        value: be32_at(d, off) as i32,
                        min: be32_at(d, off + 4) as i32,
                        max: be32_at(d, off + 8) as i32,
                        default: be32_at(d, off + 12) as i32,
                        decimal_point: d[off + 16],
                        step_size: be32_at(d, off + 17) as i32,
                        unit,
                    },
                ),
            }
        },
        ParameterDataType::TextSelection => if d.len() < off + 4 {
            Err(CrsfParsingError::InvalidPayloadLength)
        } else {
            match c_string(d.skip(off), 512) {
                Err(e) => Err(e),
                Ok((options, used)) => {
                    let o = off + used;
                    if d.len() < o + 4 {
                        Err(CrsfParsingError::InvalidPayloadLength)
                    } else {
                        match c_string(d.skip(o + 4), 128) {
                            Err(e) => Err(e),
                            Ok((unit, _)) => Ok(
                                ParameterDataView::TextSelection {
                                    options,
                                    value: d[o],
                                    min: d[o + 1],
                                    max: d[o + 2],
                                    default: d[o + 3],
                                    unit,
                                },
                            ),
                        }
                    }
                },
            }
        },
        ParameterDataType::String => if d.len() < off + 2 {
            Err(CrsfParsingError::InvalidPayloadLength)
        } else {
            match c_string(d.skip(off), 128) {
                Err(e) => Err(e),
                Ok((value, used)) => if d.len() < off + used + 1 {
                    Err(CrsfParsingError::InvalidPayloadLength)
                } else {
                    Ok(ParameterDataView::String { value, max_length: d[off + used] })
                },
            }
        },
        ParameterDataType::Folder => match first_index(d.skip(off), 0xFF) {
            None => Err(CrsfParsingError::InvalidPayload),
            Some(end) => if end > 32 {
                Err(CrsfParsingError::InvalidPayloadLength)
            } else {
                Ok(ParameterDataView::Folder { children: d.subrange(off, off + end) })
            },
        },
        ParameterDataType::Info => match c_string(d.skip(off), 128) {
            Err(e) => Err(e),
            Ok((info, _)) => Ok(ParameterDataView::Info { info }),
        },
        ParameterDataType::Command => if d.len() < off + 3 {
            Err(CrsfParsingError::InvalidPayloadLength)
        } else {
            match c_string(d.skip(off + 2), 128) {
                Err(e) => Err(e),
                Ok((info, _)) => Ok(
                    ParameterDataView::Command { status: d[off], timeout: d[off + 1], info },
                ),
            }
        },
        ParameterDataType::Vtx => if d.len() - off > 64 {
            Err(CrsfParsingError::InvalidPayloadLength)
        } else {
            Ok(ParameterDataView::Vtx { data: d.skip(off) })
        },
        _ => Err(CrsfParsingError::InvalidPayload),
    }
}

/// The entry a payload decodes to: the fixed fields, the name, and the data
/// of the type the data type byte names when bytes follow the name.
pub open spec fn spec_parse_entry(d: Seq<u8>) -> Result<ParameterSettingsEntryView, CrsfParsingError> {
    if d.len() < 7 {
        Err(CrsfParsingError::InvalidPayloadLength)
    } else {
        match c_string(d.skip(6), 128) {
            Err(e) => Err(e),
            Ok((name, used)) => {
                let off = 6 + used;
                match data_type_of_byte(d[5]) {
                    None => Err(CrsfParsingError::InvalidPayload),
                    Some(t) => {
                        let head = ParameterSettingsEntryView {
                            dst_addr: d[0],
                            src_addr: d[1],
                            parameter_number: d[2],
                            chunks_remaining: d[3],
                            parent: d[4],
                            data_type: d[5],
                            name,
                            data: None,
                        };
                        if d.len() > off {
                            match spec_parse_data(t, d, off) {
                                Err(e) => Err(e),
                                Ok(pd) => Ok(ParameterSettingsEntryView { data: Some(pd), ..head }),
                            }
                        } else {
                            Ok(head)
                        }
                    },
                }
            },
        }
    }
}

impl ParameterSettingsEntry {
    /// An entry without data; `InvalidPayloadLength` when the name has more
    /// than 128 bytes.
    pub fn new(
        dst_addr: u8,
        src_addr: u8,
        parameter_number: u8,
        chunks_remaining: u8,
        parent: u8,
        data_type: u8,
        name: &str,
    ) -> (r: Result<Self, CrsfParsingError>)
        ensures
            r is Ok <==> name.spec_bytes().len() <= MAX_STRING_LEN,
            r matches Ok(p) ==> p@ == (ParameterSettingsEntryView {
                dst_addr,
                src_addr,
                parameter_number,
                chunks_remaining,
                parent,
                data_type,
                name: name.spec_bytes(),
                data: None,
            }),
            r matches Err(e) ==> e == CrsfParsingError::InvalidPayloadLength,
    {
        if name.len() > MAX_STRING_LEN {
            return Err(CrsfParsingError::InvalidPayloadLength);
        }
        match text128_from_str(name) {
            Some(s) => Ok(
                Self {
                    dst_addr,
                    src_addr,
                    parameter_number,
                    chunks_remaining,
                    parent,
                    data_type,
                    name: s,
                    data: None,
                },
            ),
            None => Err(CrsfParsingError::InvalidPayloadLength),
        }
    }

    /// The entry with `data` as its data.
    pub fn add_data(self, data: ParameterData) -> (r: Self)
        ensures
            r@ == (ParameterSettingsEntryView { data: Some(data@), ..self@ }),
    {
        Self { data: Some(data), ..self }
    }

    /// The parameter type, the hidden bit ignored; `InvalidPayload` for a
    /// number that names no type.
    pub fn get_data_type(&self) -> (r: Result<ParameterDataType, CrsfParsingError>)
        ensures
            r == data_type_result(self.data_type),
    {
        ParameterDataType::try_from(self.data_type)
    }

    /// Whether the hidden bit (bit 7) of the data type is set.
    pub fn is_hidden(&self) -> (r: bool)
        ensures
            r == (self.data_type >= 128),
    {
        let t = self.data_type;
        assert((t & 0x80 != 0) == (t >= 128)) by (bit_vector);
        (t & 0x80) != 0
    }

    /// The index of the first NUL byte in `data`.
    fn find_null(data: &[u8]) -> (r: Result<Option<usize>, CrsfParsingError>)
        ensures
            r matches Ok(o) && match o {
                Some(i) => first_index(data@, 0) == Some(i as int),
                None => first_index(data@, 0) is None,
            },
    {
        Ok(find_byte(data, 0))
    }

    /// A NUL-terminated string of at most 128 bytes at the front of `data`,
    /// and the bytes it takes with its terminator.
    fn parse_string(data: &[u8]) -> (r: Result<(heapless::String<128>, usize), CrsfParsingError>)
        ensures
            match r {
                Ok((s, n)) => c_string(data@, 128) == Ok::<(Seq<u8>, int), CrsfParsingError>(
                    (text128(s), n as int),
                ),
                Err(e) => c_string(data@, 128) == Err::<(Seq<u8>, int), CrsfParsingError>(e),
            },
    {
        let null_pos = match Self::find_null(data) {
            Ok(Some(i)) => i,
            _ => return Err(CrsfParsingError::InvalidPayload),
        };
        proof {
            lemma_first_index(data@, 0);
        }
        let str_slice = &data[0..null_pos];
        assert(str_slice@ =~= data@.take(null_pos as int));
        let s = match str_from_utf8(str_slice) {
            Some(s) => s,
            None => return Err(CrsfParsingError::InvalidPayload),
        };
        match text128_from_str(s) {
            Some(string) => Ok((string, null_pos + 1)),
            None => Err(CrsfParsingError::InvalidPayloadLength),
        }
    }

    /// A NUL-terminated options list of at most 512 bytes at the front of
    /// `data`, and the bytes it takes with its terminator.
    fn parse_options_string(data: &[u8]) -> (r: Result<(heapless::String<512>, usize), CrsfParsingError>)
        ensures
            match r {
                Ok((s, n)) => c_string(data@, 512) == Ok::<(Seq<u8>, int), CrsfParsingError>(
                    (text512(s), n as int),
                ),
                Err(e) => c_string(data@, 512) == Err::<(Seq<u8>, int), CrsfParsingError>(e),
            },
    {
        let null_pos = match Self::find_null(data) {
            Ok(Some(i)) => i,
            _ => return Err(CrsfParsingError::InvalidPayload),
        };
        proof {
            lemma_first_index(data@, 0);
        }
        let str_slice = &data[0..null_pos];
        assert(str_slice@ =~= data@.take(null_pos as int));
        let s = match str_from_utf8(str_slice) {
            Some(s) => s,
            None => return Err(CrsfParsingError::InvalidPayload),
        };
        match text512_from_str(s) {
            Some(string) => Ok((string, null_pos + 1)),
            None => Err(CrsfParsingError::InvalidPayloadLength),
        }
    }

    /// The index of the first end marker (0xFF) in `data`.
    fn find_end_marker(data: &[u8]) -> (r: Option<usize>)
        ensures
            match r {
                Some(i) => first_index(data@, 0xFF) == Some(i as int),
                None => first_index(data@, 0xFF) is None,
            },
    {
        find_byte(data, 0xFF)
    }
}

/// Writes `text` and a NUL terminator at `off`.
fn put_c_string(buffer: &mut [u8], off: usize, text: &[u8])
    requires
        off + text@.len() + 1 <= old(buffer)@.len(),
    ensures
        final(buffer)@ == splice(old(buffer)@, off as int, text@ + seq![0u8]),
{
    let n = buffer.len();
    put_bytes(buffer, off, text);
    assert(off + text@.len() < n);
    buffer[off + text.len()] = 0;
    assert(buffer@ =~= splice(old(buffer)@, off as int, text@ + seq![0u8]));
}

/// What writing `bytes` at `offset` leaves: on success the offset after them
/// and the buffer with them written, the rest untouched; `BufferOverflow`
/// exactly when they do not fit.
pub open spec fn written_at(
    before: Seq<u8>,
    after: Seq<u8>,
    offset: int,
    bytes: Seq<u8>,
    r: Result<usize, CrsfParsingError>,
) -> bool {
    &&& after.len() == before.len()
    &&& (r is Ok <==> offset + bytes.len() <= before.len())
    &&& (r matches Ok(n) ==> n == offset + bytes.len() && after == splice(before, offset, bytes))
    &&& (r matches Err(e) ==> e == CrsfParsingError::BufferOverflow)
}

fn write_float(
    buffer: &mut [u8],
    offset: usize,
    value: i32,
    min: i32,
    max: i32,
    default: i32,
    decimal_point: u8,
    step_size: i32,
    unit: &[u8],
) -> (r: Result<usize, CrsfParsingError>)
    requires
        offset <= old(buffer)@.len(),
        unit@.len() <= MAX_STRING_LEN,
    ensures
        written_at(
            old(buffer)@,
            final(buffer)@,
            offset as int,
            data_bytes(
                ParameterDataView::Float {
                    value,
                    min,
                    max,
                    default,
                    decimal_point,
                    step_size,
                    unit: unit@,
                },
            ),
            r,
        ),
{
    let ghost b0 = old(buffer)@;
    let ghost start = offset as int;
    let unit_len = unit.len();
    let required = 22 + unit_len;
    if required > buffer.len() - offset {
        return Err(CrsfParsingError::BufferOverflow);
    }
    let mut offset = offset;
    put_be32(buffer, offset, value as u32);
    let ghost h = be32(value as u32);
    offset += 4;
    put_be32(buffer, offset, min as u32);
    proof {
        lemma_splice_append_at(b0, start, h, be32(min as u32));
    }
    let ghost h = h + be32(min as u32);
    offset += 4;
    put_be32(buffer, offset, max as u32);
    proof {
        lemma_splice_append_at(b0, start, h, be32(max as u32));
    }
    let ghost h = h + be32(max as u32);
    offset += 4;
    put_be32(buffer, offset, default as u32);
    proof {
        lemma_splice_append_at(b0, start, h, be32(default as u32));
    }
    let ghost h = h + be32(default as u32);
    offset += 4;
    buffer[offset] = decimal_point;
    assert(buffer@ =~= splice(b0, start, h + seq![decimal_point]));
    let ghost h = h + seq![decimal_point];
    offset += 1;
    put_be32(buffer, offset, step_size as u32);
    proof {
        lemma_splice_append_at(b0, start, h, be32(step_size as u32));
    }
    let ghost h = h + be32(step_size as u32);
    offset += 4;
    put_c_string(buffer, offset, unit);
    proof {
        lemma_splice_append_at(b0, start, h, unit@ + seq![0u8]);
    }
    assert(h + (unit@ + seq![0u8]) =~= data_bytes(
        ParameterDataView::Float { value, min, max, default, decimal_point, step_size, unit: unit@ },
    ));
    Ok(offset + unit_len + 1)
}

fn write_text_selection(
    buffer: &mut [u8],
    offset: usize,
    options: &[u8],
    value: u8,
    min: u8,
    max: u8,
    default: u8,
    unit: &[u8],
) -> (r: Result<usize, CrsfParsingError>)
    requires
        offset <= old(buffer)@.len(),
        options@.len() <= MAX_OPTIONS,
        unit@.len() <= MAX_STRING_LEN,
    ensures
        written_at(
            old(buffer)@,
            final(buffer)@,
            offset as int,
            data_bytes(
                ParameterDataView::TextSelection {
                    options: options@,
                    value,
                    min,
                    max,
                    default,
                    unit: unit@,
                },
            ),
            r,
        ),
{
    let ghost b0 = old(buffer)@;
    let ghost start = offset as int;
    let options_len = options.len();
    let unit_len = unit.len();
    let required = options_len + 1 + 4 + unit_len + 1;
    if required > buffer.len() - offset {
        return Err(CrsfParsingError::BufferOverflow);
    }
    let mut offset = offset;
    put_c_string(buffer, offset, options);
    let ghost h = options@ + seq![0u8];
    offset += options_len + 1;
    buffer[offset] = value;
    buffer[offset + 1] = min;
    buffer[offset + 2] = max;
    buffer[offset + 3] = default;
    assert(buffer@ =~= splice(b0, start, h + seq![value, min, max, default]));
    let ghost h = h + seq![value, min, max, default];
    offset += 4;
    put_c_string(buffer, offset, unit);
    proof {
        lemma_splice_append_at(b0, start, h, unit@ + seq![0u8]);
    }
    assert(h + (unit@ + seq![0u8]) =~= data_bytes(
        ParameterDataView::TextSelection { options: options@, value, min, max, default, unit: unit@ },
    ));
    Ok(offset + unit_len + 1)
}

fn write_string(buffer: &mut [u8], offset: usize, value: &[u8], max_length: u8) -> (r: Result<
    usize,
    CrsfParsingError,
>)
    requires
        offset <= old(buffer)@.len(),
        value@.len() <= MAX_STRING_LEN,
    ensures
        written_at(
            old(buffer)@,
            final(buffer)@,
            offset as int,
            data_bytes(ParameterDataView::String { value: value@, max_length }),
            r,
        ),
{
    let value_len = value.len();
    let required = value_len + 1 + 1;
    if required > buffer.len() - offset {
        return Err(CrsfParsingError::BufferOverflow);
    }
    put_c_string(buffer, offset, value);
    buffer[offset + value_len + 1] = max_length;
    assert(buffer@ =~= splice(
        old(buffer)@,
        offset as int,
        data_bytes(ParameterDataView::String { value: value@, max_length }),
    ));
    Ok(offset + value_len + 2)
}

fn write_folder(buffer: &mut [u8], offset: usize, children: &[u8]) -> (r: Result<usize, CrsfParsingError>)
    requires
        offset <= old(buffer)@.len(),
        children@.len() <= MAX_CHILDREN,
    ensures
        written_at(
            old(buffer)@,
            final(buffer)@,
            offset as int,
            data_bytes(ParameterDataView::Folder { children: children@ }),
            r,
        ),
{
    let required = children.len() + 1;
    if required > buffer.len() - offset {
        return Err(CrsfParsingError::BufferOverflow);
    }
    put_bytes(buffer, offset, children);
    buffer[offset + children.len()] = 0xFF;
    assert(buffer@ =~= splice(
        old(buffer)@,
        offset as int,
        data_bytes(ParameterDataView::Folder { children: children@ }),
    ));
    Ok(offset + children.len() + 1)
}

fn write_info(buffer: &mut [u8], offset: usize, info: &[u8]) -> (r: Result<usize, CrsfParsingError>)
    requires
        offset <= old(buffer)@.len(),
        info@.len() <= MAX_STRING_LEN,
    ensures
        written_at(
            old(buffer)@,
            final(buffer)@,
            offset as int,
            data_bytes(ParameterDataView::Info { info: info@ }),
            r,
        ),
{
    let info_len = info.len();
    let required = info_len + 1;
    if required > buffer.len() - offset {
        return Err(CrsfParsingError::BufferOverflow);
    }
    put_c_string(buffer, offset, info);
    Ok(offset + info_len + 1)
}

fn write_command(buffer: &mut [u8], offset: usize, status: u8, timeout: u8, info: &[u8]) -> (r: Result<
    usize,
    CrsfParsingError,
>)
    requires
        offset <= old(buffer)@.len(),
        info@.len() <= MAX_STRING_LEN,
    ensures
        written_at(
            old(buffer)@,
            final(buffer)@,
            offset as int,
            data_bytes(ParameterDataView::Command { status, timeout, info: info@ }),
            r,
        ),
{
    let ghost b0 = old(buffer)@;
    let info_len = info.len();
    let required = 2 + info_len + 1;
    if required > buffer.len() - offset {
        return Err(CrsfParsingError::BufferOverflow);
    }
    buffer[offset] = status;
    buffer[offset + 1] = timeout;
    assert(buffer@ =~= splice(b0, offset as int, seq![status, timeout]));
    put_c_string(buffer, offset + 2, info);
    proof {
        lemma_splice_append_at(b0, offset as int, seq![status, timeout], info@ + seq![0u8]);
    }
    assert(seq![status, timeout] + (info@ + seq![0u8]) =~= data_bytes(
        ParameterDataView::Command { status, timeout, info: info@ },
    ));
    Ok(offset + 2 + info_len + 1)
}

fn write_vtx(buffer: &mut [u8], offset: usize, data: &[u8]) -> (r: Result<usize, CrsfParsingError>)
    requires
        offset <= old(buffer)@.len(),
    ensures
        written_at(
            old(buffer)@,
            final(buffer)@,
            offset as int,
            data_bytes(ParameterDataView::Vtx { data: data@ }),
            r,
        ),
{
    if data.len() > buffer.len() - offset {
        return Err(CrsfParsingError::BufferOverflow);
    }
    put_bytes(buffer, offset, data);
    Ok(offset + data.len())
}

impl ParameterData {
    /// Writes the data's bytes at `offset`; returns the offset after them.
    /// `BufferOverflow` when they do not fit.
    fn write_to(&self, buffer: &mut [u8], offset: usize) -> (r: Result<usize, CrsfParsingError>)
        requires
            offset <= old(buffer)@.len(),
        ensures
            written_at(old(buffer)@, final(buffer)@, offset as int, data_bytes(self@), r),
    {
        match self {
            ParameterData::Float { value, min, max, default, decimal_point, step_size, unit } => {
                let unit_bytes = text128_as_str(unit).as_bytes();
                write_float(buffer, offset, *value, *min, *max, *default, *decimal_point, *step_size, unit_bytes)
            },
            ParameterData::TextSelection { options, value, min, max, default, unit } => {
                let options_bytes = text512_as_str(options).as_bytes();
                let unit_bytes = text128_as_str(unit).as_bytes();
                write_text_selection(buffer, offset, options_bytes, *value, *min, *max, *default, unit_bytes)
            },
            ParameterData::String { value, max_length } => {
                write_string(buffer, offset, text128_as_str(value).as_bytes(), *max_length)
            },
            ParameterData::Folder { children } => write_folder(buffer, offset, bytes32_as_slice(children)),
            ParameterData::Info { info } => write_info(buffer, offset, text128_as_str(info).as_bytes()),
            ParameterData::Command { status, timeout, info } => {
                write_command(buffer, offset, *status, *timeout, text128_as_str(info).as_bytes())
            },
            ParameterData::Vtx { data } => write_vtx(buffer, offset, bytes64_as_slice(data)),
        }
    }
}

/// Reads the data of type `t` that starts at `offset` in `data`.
fn parse_data(t: ParameterDataType, data: &[u8], offset: usize) -> (r: Result<ParameterData, CrsfParsingError>)
    requires
        offset <= data@.len(),
    ensures
        viewed_data(r) == spec_parse_data(t, data@, offset as int),
{
    match t {
        ParameterDataType::Float => {
            if data.len() - offset < 21 {
                return Err(CrsfParsingError::InvalidPayloadLength);
            }
            let value = get_be32(data, offset) as i32;
            let min = get_be32(data, offset + 4) as i32;
            let max = get_be32(data, offset + 8) as i32;
            let default = get_be32(data, offset + 12) as i32;
            let decimal_point = data[offset + 16];
            let step_size = get_be32(data, offset + 17) as i32;
            let rest = &data[offset + 21..data.len()];
            assert(rest@ =~= data@.skip(offset + 21));
            match ParameterSettingsEntry::parse_string(rest) {
                Ok((unit, _unit_end)) => Ok(
                    ParameterData::Float { value, min, max, default, decimal_point, step_size, unit },
                ),
                Err(e) => Err(e),
            }
        },
        ParameterDataType::TextSelection => {
            if data.len() - offset < 4 {
                return Err(CrsfParsingError::InvalidPayloadLength);
            }
            let rest = &data[offset..data.len()];
            assert(rest@ =~= data@.skip(offset as int));
            let (options, options_end) = match ParameterSettingsEntry::parse_options_string(rest) {
                Ok(x) => x,
                Err(e) => return Err(e),
            };
            proof {
                lemma_first_index(rest@, 0);
            }
            let o = offset + options_end;
            if data.len() - o < 4 {
                return Err(CrsfParsingError::InvalidPayloadLength);
            }
            let value = data[o];
            let min = data[o + 1];
            let max = data[o + 2];
            let default = data[o + 3];
            let rest = &data[o + 4..data.len()];
            assert(rest@ =~= data@.skip(o + 4));
            match ParameterSettingsEntry::parse_string(rest) {
                Ok((unit, _)) => Ok(ParameterData::TextSelection { options, value, min, max, default, unit }),
                Err(e) => Err(e),
            }
        },
        ParameterDataType::String => {
            if data.len() - offset < 2 {
                return Err(CrsfParsingError::InvalidPayloadLength);
            }
            let rest = &data[offset..data.len()];
            assert(rest@ =~= data@.skip(offset as int));
            let (value, value_end) = match ParameterSettingsEntry::parse_string(rest) {
                Ok(x) => x,
                Err(e) => return Err(e),
            };
            proof {
                lemma_first_index(rest@, 0);
            }
            let o = offset + value_end;
            if data.len() - o < 1 {
                return Err(CrsfParsingError::InvalidPayloadLength);
            }
            Ok(ParameterData::String { value, max_length: data[o] })
        },
        ParameterDataType::Folder => {
            let rest = &data[offset..data.len()];
            assert(rest@ =~= data@.skip(offset as int));
            let end_pos = match ParameterSettingsEntry::find_end_marker(rest) {
                Some(e) => e,
                None => return Err(CrsfParsingError::InvalidPayload),
            };
            proof {
                lemma_first_index(rest@, 0xFF);
            }
            let children_slice = &data[offset..offset + end_pos];
            match bytes32_from_slice(children_slice) {
                Some(children) => Ok(ParameterData::Folder { children }),
                None => Err(CrsfParsingError::InvalidPayloadLength),
            }
        },
        ParameterDataType::Info => {
            let rest = &data[offset..data.len()];
            assert(rest@ =~= data@.skip(offset as int));
            match ParameterSettingsEntry::parse_string(rest) {
                Ok((info, _)) => Ok(ParameterData::Info { info }),
                Err(e) => Err(e),
            }
        },
        ParameterDataType::Command => {
            if data.len() - offset < 3 {
                return Err(CrsfParsingError::InvalidPayloadLength);
            }
            let status = data[offset];
            let timeout = data[offset + 1];
            let rest = &data[offset + 2..data.len()];
            assert(rest@ =~= data@.skip(offset + 2));
            match ParameterSettingsEntry::parse_string(rest) {
                Ok((info, _)) => Ok(ParameterData::Command { status, timeout, info }),
                Err(e) => Err(e),
            }
        },
        ParameterDataType::Vtx => {
            let rest = &data[offset..data.len()];
            assert(rest@ =~= data@.skip(offset as int));
            match bytes64_from_slice(rest) {
                Some(vtx_data) => Ok(ParameterData::Vtx { data: vtx_data }),
                None => Err(CrsfParsingError::InvalidPayloadLength),
            }
        },
        _ => Err(CrsfParsingError::InvalidPayload),
    }
}

/// A data result with the data taken by its view.
pub open spec fn viewed_data(r: Result<ParameterData, CrsfParsingError>) -> Result<
    ParameterDataView,
    CrsfParsingError,
> {
    match r {
        Ok(d) => Ok(d@),
        Err(e) => Err(e),
    }
}

impl CrsfPacket for ParameterSettingsEntry {
    const PACKET_TYPE: PacketType = PacketType::ParameterSettingsEntry;
    const MIN_PAYLOAD_SIZE: usize = 7;

    open spec fn spec_to_bytes(&self) -> Seq<u8> {
        entry_bytes(self@)
    }

    open spec fn spec_from_bytes(data: Seq<u8>) -> Result<ParameterSettingsEntryView, CrsfParsingError> {
        spec_parse_entry(data)
    }

    open spec fn payload_readable(data: Seq<u8>) -> bool {
        true
    }

    fn to_bytes(&self, buffer: &mut [u8]) -> (r: Result<usize, CrsfParsingError>) {
        let name_bytes = text128_as_str(&self.name).as_bytes();
        let name_len = name_bytes.len();
        let ghost b0 = old(buffer)@;
        let mut offset: usize = 0;

        if offset + 1 > buffer.len() {
            return Err(CrsfParsingError::BufferOverflow);
        }
        buffer[offset] = self.dst_addr;
        offset += 1;

        if offset + 1 > buffer.len() {
            return Err(CrsfParsingError::BufferOverflow);
        }
        buffer[offset] = self.src_addr;
        offset += 1;

        if offset + 1 > buffer.len() {
            return Err(CrsfParsingError::BufferOverflow);
        }
        buffer[offset] = self.parameter_number;
        offset += 1;

        if offset + 1 > buffer.len() {
            return Err(CrsfParsingError::BufferOverflow);
        }
        buffer[offset] = self.chunks_remaining;
        offset += 1;

        if offset + 1 > buffer.len() {
            return Err(CrsfParsingError::BufferOverflow);
        }
        buffer[offset] = self.parent;
        offset += 1;

        if offset + 1 > buffer.len() {
            return Err(CrsfParsingError::BufferOverflow);
        }
        buffer[offset] = self.data_type;
        offset += 1;
        let ghost h = seq![
            self.dst_addr,
            self.src_addr,
            self.parameter_number,
            self.chunks_remaining,
            self.parent,
            self.data_type,
        ];
        assert(buffer@ =~= splice(b0, 0, h));

        if offset + name_len + 1 > buffer.len() {
            return Err(CrsfParsingError::BufferOverflow);
        }
        put_c_string(buffer, offset, name_bytes);
        proof {
            lemma_splice_append_at(b0, 0, h, name_bytes@ + seq![0u8]);
        }
        assert(h + (name_bytes@ + seq![0u8]) =~= entry_head_bytes(self@));
        offset += name_len + 1;

        match &self.data {
            Some(data) => {
                let ghost mid = buffer@;
                let end = data.write_to(buffer, offset);
                match end {
                    Ok(n) => {
                        proof {
                            lemma_splice_append_at(b0, 0, entry_head_bytes(self@), data_bytes(data@));
                        }
                        offset = n;
                    },
                    Err(e) => return Err(e),
                }
            },
            None => {
                assert(entry_bytes(self@) =~= entry_head_bytes(self@));
            },
        }
        Ok(offset)
    }

    fn from_bytes(data: &[u8]) -> (r: Result<Self, CrsfParsingError>) {
        if data.len() < Self::MIN_PAYLOAD_SIZE {
            return Err(CrsfParsingError::InvalidPayloadLength);
        }
        let dst_addr = data[0];
        let src_addr = data[1];
        let parameter_number = data[2];
        let chunks_remaining = data[3];
        let parent = data[4];
        let data_type = data[5];
        let mut offset: usize = 6;

        let rest = &data[offset..data.len()];
        assert(rest@ =~= data@.skip(6));
        let (name, name_end) = match Self::parse_string(rest) {
            Ok(x) => x,
            Err(e) => return Err(e),
        };
        proof {
            lemma_first_index(rest@, 0);
        }
        offset += name_end;

        let param_type = match ParameterDataType::try_from(data_type) {
            Ok(t) => t,
            Err(e) => return Err(e),
        };
        let param_data = if data.len() > offset {
            match parse_data(param_type, data, offset) {
                Ok(d) => Some(d),
                Err(e) => return Err(e),
            }
        } else {
            None
        };
        Ok(
            Self {
                dst_addr,
                src_addr,
                parameter_number,
                chunks_remaining,
                parent,
                data_type,
                name,
                data: param_data,
            },
        )
    }
}

/// A text that travels NUL-terminated: valid UTF-8, at most `cap` bytes and
/// without a NUL byte.
pub open spec fn is_c_text(t: Seq<u8>, cap: int) -> bool {
    &&& valid_utf8(t)
    &&& t.len() <= cap
    &&& forall|i: int| 0 <= i < t.len() ==> t[i] != 0
}

/// Data that decodes back to itself under the data type byte `dt`: of the
/// type `dt` names, its texts NUL-terminated, its children without the end
/// marker, and its VTX bytes not empty.
pub open spec fn data_encodable(dt: u8, d: ParameterDataView) -> bool {
    match d {
        ParameterDataView::Float { unit, .. } => data_type_of_byte(dt) == Some(ParameterDataType::Float)
            && is_c_text(unit, 128),
        ParameterDataView::TextSelection { options, unit, .. } => data_type_of_byte(dt) == Some(
            ParameterDataType::TextSelection,
        ) && is_c_text(options, 512) && is_c_text(unit, 128),
        ParameterDataView::String { value, .. } => data_type_of_byte(dt) == Some(ParameterDataType::String)
            && is_c_text(value, 128),
        ParameterDataView::Folder { children } => data_type_of_byte(dt) == Some(ParameterDataType::Folder)
            && children.len() <= 32 && forall|i: int| 0 <= i < children.len() ==> children[i] != 0xFF,
        ParameterDataView::Info { info } => data_type_of_byte(dt) == Some(ParameterDataType::Info)
            && is_c_text(info, 128),
        ParameterDataView::Command { info, .. } => data_type_of_byte(dt) == Some(ParameterDataType::Command)
            && is_c_text(info, 128),
        ParameterDataView::Vtx { data } => data_type_of_byte(dt) == Some(ParameterDataType::Vtx) && 1
            <= data.len() <= 64,
    }
}

/// An entry that decodes back to itself: a NUL-terminated name, a data type
/// byte that names a type, and data (if any) that decodes back under it.
pub open spec fn encodable_entry(e: ParameterSettingsEntryView) -> bool {
    &&& is_c_text(e.name, 128)
    &&& data_type_of_byte(e.data_type) is Some
    &&& (e.data matches Some(d) ==> data_encodable(e.data_type, d))
}

proof fn lemma_c_string_of(t: Seq<u8>, rest: Seq<u8>, cap: int)
    requires
        is_c_text(t, cap),
    ensures
        c_string(t + seq![0u8] + rest, cap) == Ok::<(Seq<u8>, int), CrsfParsingError>(
            (t, t.len() + 1int),
        ),
{
    let d = t + seq![0u8] + rest;
    assert forall|j: int| 0 <= j < t.len() implies d[j] != 0 by {
        assert(d[j] == t[j]);
    }
    lemma_first_index_of(d, 0, t.len() as int);
    assert(d.take(t.len() as int) =~= t);
}

proof fn lemma_be32_i32_at(h: Seq<u8>, v: i32, rest: Seq<u8>)
    ensures
        be32_at(h + be32(v as u32) + rest, h.len() as int) as i32 == v,
{
    let d = h + be32(v as u32) + rest;
    let n = h.len() as int;
    assert(d[n] == be32(v as u32)[0]);
    assert(d[n + 1] == be32(v as u32)[1]);
    assert(d[n + 2] == be32(v as u32)[2]);
    assert(d[n + 3] == be32(v as u32)[3]);
    lemma_be32_round_trip(v as u32);
    lemma_i32_cast(v);
}

proof fn lemma_be32_field(d: Seq<u8>, off: int, e: Seq<u8>, j: int)
    requires
        0 <= off,
        0 <= j,
        j + 4 <= e.len(),
        off + e.len() <= d.len(),
        d.subrange(off, off + e.len()) == e,
    ensures
        be32_at(d, off + j) == be32_at(e, j),
{
    assert(d[off + j] == d.subrange(off, off + e.len())[j]);
    assert(d[off + j + 1] == d.subrange(off, off + e.len())[j + 1]);
    assert(d[off + j + 2] == d.subrange(off, off + e.len())[j + 2]);
    assert(d[off + j + 3] == d.subrange(off, off + e.len())[j + 3]);
}

proof fn lemma_float_round_trip(
    h: Seq<u8>,
    value: i32,
    min: i32,
    max: i32,
    default: i32,
    decimal_point: u8,
    step_size: i32,
    unit: Seq<u8>,
)
    requires
        is_c_text(unit, 128),
    ensures
        ({
            let pd = ParameterDataView::Float { value, min, max, default, decimal_point, step_size, unit };
            spec_parse_data(ParameterDataType::Float, h + data_bytes(pd), h.len() as int) == Ok::<
                ParameterDataView,
                CrsfParsingError,
            >(pd)
        }),
{
    let pd = ParameterDataView::Float { value, min, max, default, decimal_point, step_size, unit };
    let d = h + data_bytes(pd);
    let off = h.len() as int;
    let e = be32(value as u32) + be32(min as u32) + be32(max as u32) + be32(default as u32) + seq![
        decimal_point,
    ] + be32(step_size as u32);
    assert(e.len() == 21);
    assert(d =~= h + e + (unit + seq![0u8]));
    assert(d.subrange(off, off + 21) =~= e);
    lemma_be32_field(d, off, e, 0);
    lemma_be32_field(d, off, e, 4);
    lemma_be32_field(d, off, e, 8);
    lemma_be32_field(d, off, e, 12);
    lemma_be32_field(d, off, e, 17);
    lemma_be32_i32_at(Seq::empty(), value, e.skip(4));
    assert(Seq::<u8>::empty() + be32(value as u32) + e.skip(4) =~= e);
    lemma_be32_i32_at(e.take(4), min, e.skip(8));
    assert(e.take(4) + be32(min as u32) + e.skip(8) =~= e);
    lemma_be32_i32_at(e.take(8), max, e.skip(12));
    assert(e.take(8) + be32(max as u32) + e.skip(12) =~= e);
    lemma_be32_i32_at(e.take(12), default, e.skip(16));
    assert(e.take(12) + be32(default as u32) + e.skip(16) =~= e);
    lemma_be32_i32_at(e.take(17), step_size, Seq::empty());
    assert(e.take(17) + be32(step_size as u32) + Seq::<u8>::empty() =~= e);
    assert(d[off + 16] == e[16]);
    assert(d.skip(off + 21) =~= unit + seq![0u8] + Seq::<u8>::empty());
    lemma_c_string_of(unit, Seq::empty(), 128);
}

proof fn lemma_data_round_trip(h: Seq<u8>, dt: u8, pd: ParameterDataView)
    requires
        data_encodable(dt, pd),
    ensures
        data_type_of_byte(dt) matches Some(t) && spec_parse_data(t, h + data_bytes(pd), h.len() as int)
            == Ok::<ParameterDataView, CrsfParsingError>(pd),
{
    let d = h + data_bytes(pd);
    let off = h.len() as int;
    match pd {
        ParameterDataView::Float { value, min, max, default, decimal_point, step_size, unit } => {
            lemma_float_round_trip(h, value, min, max, default, decimal_point, step_size, unit);
        },
        ParameterDataView::TextSelection { options, value, min, max, default, unit } => {
            assert(d.skip(off) =~= options + seq![0u8] + (seq![value, min, max, default] + unit + seq![
                0u8,
            ]));
            lemma_c_string_of(options, seq![value, min, max, default] + unit + seq![0u8], 512);
            let o = off + options.len() + 1;
            assert(d[o] == value);
            assert(d[o + 1] == min);
            assert(d[o + 2] == max);
            assert(d[o + 3] == default);
            assert(d.skip(o + 4) =~= unit + seq![0u8] + Seq::<u8>::empty());
            lemma_c_string_of(unit, Seq::empty(), 128);
        },
        ParameterDataView::String { value, max_length } => {
            assert(d.skip(off) =~= value + seq![0u8] + seq![max_length]);
            lemma_c_string_of(value, seq![max_length], 128);
            assert(d[off + value.len() + 1] == max_length);
        },
        ParameterDataView::Folder { children } => {
            let r = d.skip(off);
            assert(r =~= children + seq![0xFFu8]);
            assert forall|j: int| 0 <= j < children.len() implies r[j] != 0xFF by {
                assert(r[j] == children[j]);
            }
            lemma_first_index_of(r, 0xFF, children.len() as int);
            assert(d.subrange(off, off + children.len()) =~= children);
        },
        ParameterDataView::Info { info } => {
            assert(d.skip(off) =~= info + seq![0u8] + Seq::<u8>::empty());
            lemma_c_string_of(info, Seq::empty(), 128);
        },
        ParameterDataView::Command { status, timeout, info } => {
            assert(d[off] == status);
            assert(d[off + 1] == timeout);
            assert(d.skip(off + 2) =~= info + seq![0u8] + Seq::<u8>::empty());
            lemma_c_string_of(info, Seq::empty(), 128);
        },
        ParameterDataView::Vtx { data } => {
            assert(d.skip(off) =~= data);
        },
    }
}

/// Decoding the bytes of an entry gives the entry back, for every entry
/// whose texts, type and data can travel (see [`encodable_entry`]).
pub proof fn lemma_entry_round_trip(e: ParameterSettingsEntryView)
    requires
        encodable_entry(e),
    ensures
        spec_parse_entry(entry_bytes(e)) == Ok::<ParameterSettingsEntryView, CrsfParsingError>(e),
{
    let d = entry_bytes(e);
    let rest = match e.data {
        Some(pd) => data_bytes(pd),
        None => Seq::empty(),
    };
    assert(d.skip(6) =~= e.name + seq![0u8] + rest);
    lemma_c_string_of(e.name, rest, 128);
    match e.data {
        Some(pd) => {
            lemma_data_round_trip(entry_head_bytes(e), e.data_type, pd);
        },
        None => {},
    }
}

/// The most entry bytes one chunk carries.
pub const MAX_CHUNK_PAYLOAD_SIZE: usize = 56;

/// The most chunks an entry is reassembled from.
pub const MAX_CHUNKS: usize = 8;

/// One chunk of an entry too long for one frame: the extended header, the
/// parameter number, how many chunks follow, and a piece of the entry.
#[derive(Clone, Debug, PartialEq, Eq)]
pub struct ParameterChunk {
    /// Destination device address.
    pub dst_addr: u8,
    /// Origin device address.
    pub src_addr: u8,
    /// The parameter's number.
    pub param_number: u8,
    /// How many chunks follow this one (0 for the last).
    pub chunks_remaining: u8,
    /// This chunk's piece of the entry, from the parent byte on for the first
    /// chunk; at most 56 bytes.
    pub payload: heapless::Vec<u8, 56>,
}

/// A chunk as the contracts see it.
pub ghost struct ParameterChunkView {
    pub dst_addr: u8,
    pub src_addr: u8,
    pub param_number: u8,
    pub chunks_remaining: u8,
    pub payload: Seq<u8>,
}

impl View for ParameterChunk {
    type V = ParameterChunkView;

    open spec fn view(&self) -> ParameterChunkView {
        ParameterChunkView {
            dst_addr: self.dst_addr,
            src_addr: self.src_addr,
            param_number: self.param_number,
            chunks_remaining: self.chunks_remaining,
            payload: bytes56(self.payload),
        }
    }
}

/// The chunk a frame payload decodes to: four header bytes and at most 56
/// bytes of entry.
pub open spec fn spec_parse_chunk(d: Seq<u8>) -> Result<ParameterChunkView, CrsfParsingError> {
    if d.len() < 4 || d.len() - 4 > 56 {
        Err(CrsfParsingError::InvalidPayloadLength)
    } else {
        Ok(
            ParameterChunkView {
                dst_addr: d[0],
                src_addr: d[1],
                param_number: d[2],
                chunks_remaining: d[3],
                payload: d.skip(4),
            },
        )
    }
}

impl ParameterChunk {
    /// Reads a chunk from a frame payload.
    pub fn from_bytes(data: &[u8]) -> (r: Result<Self, CrsfParsingError>)
        ensures
            match r {
                Ok(c) => spec_parse_chunk(data@) == Ok::<ParameterChunkView, CrsfParsingError>(c@),
                Err(e) => spec_parse_chunk(data@) == Err::<ParameterChunkView, CrsfParsingError>(e),
            },
    {
        if data.len() < 4 {
            return Err(CrsfParsingError::InvalidPayloadLength);
        }
        let rest = &data[4..data.len()];
        assert(rest@ =~= data@.skip(4));
        match bytes56_from_slice(rest) {
            Some(payload) => Ok(
                Self {
                    dst_addr: data[0],
                    src_addr: data[1],
                    param_number: data[2],
                    chunks_remaining: data[3],
                    payload,
                },
            ),
            None => Err(CrsfParsingError::InvalidPayloadLength),
        }
    }

    /// A copy of the chunk.
    pub fn copy(&self) -> (r: Self)
        ensures
            r@ == self@,
    {
        let bytes = bytes56_as_slice(&self.payload);
        let payload = bytes56_from_slice(bytes).unwrap();
        Self {
            dst_addr: self.dst_addr,
            src_addr: self.src_addr,
            param_number: self.param_number,
            chunks_remaining: self.chunks_remaining,
            payload,
        }
    }
}

/// Collects the chunks of one entry, in arrival order, and decodes the entry
/// once the last chunk is in.
#[derive(Clone, Debug)]
pub struct ParameterChunkReassembler {
    param_number: u8,
    dst_addr: u8,
    src_addr: u8,
    chunks: heapless::Vec<heapless::Vec<u8, 56>, 8>,
    chunks_received: u8,
    total_chunks: u8,
    complete: bool,
}

/// A reassembler as the contracts see it: the chunks by their bytes.
pub ghost struct ReassemblerView {
    pub param_number: u8,
    pub dst_addr: u8,
    pub src_addr: u8,
    pub chunks: Seq<Seq<u8>>,
    pub chunks_received: u8,
    pub total_chunks: u8,
    pub complete: bool,
}

/// The reassembler with no entry in progress.
pub open spec fn idle_reassembler() -> ReassemblerView {
    ReassemblerView {
        param_number: 0,
        dst_addr: 0,
        src_addr: 0,
        chunks: Seq::empty(),
        chunks_received: 0,
        total_chunks: 0,
        complete: false,
    }
}

/// The payload rebuilt from the chunks held: the header of the first chunk
/// with no chunk remaining, then every piece in order.
pub open spec fn reassembled_bytes(s: ReassemblerView) -> Seq<u8> {
    seq![s.dst_addr, s.src_addr, s.param_number, 0u8] + s.chunks.flatten_alt()
}

/// What pushing chunk `c` does: the reassembler after it and the result.
///
/// A chunk of another parameter drops the entry in progress. The first chunk
/// sets the parameter, the addresses and the chunk count. With 8 chunks in,
/// a further one is `InvalidPayloadLength` and drops everything. The last
/// chunk (none remaining) completes the entry, decoded from the rebuilt
/// payload.
pub open spec fn push_step(s: ReassemblerView, c: ParameterChunkView) -> (ReassemblerView, Result<
    Option<ParameterSettingsEntryView>,
    CrsfParsingError,
>) {
    let s0 = if s.chunks_received > 0 && c.param_number != s.param_number {
        idle_reassembler()
    } else {
        s
    };
    let s1 = if s0.chunks_received == 0 {
        ReassemblerView {
            param_number: c.param_number,
            dst_addr: c.dst_addr,
            src_addr: c.src_addr,
            total_chunks: if c.chunks_remaining == 255 {
                0
            } else {
                (c.chunks_remaining + 1) as u8
            },
            complete: false,
            ..s0
        }
    } else {
        s0
    };
    if s1.chunks_received >= 8 {
        (idle_reassembler(), Err(CrsfParsingError::InvalidPayloadLength))
    } else {
        let s2 = ReassemblerView {
            chunks: s1.chunks.push(c.payload),
            chunks_received: (s1.chunks_received + 1) as u8,
            ..s1
        };
        if c.chunks_remaining == 0 {
            let s3 = ReassemblerView { complete: true, ..s2 };
            (
                s3,
                match spec_parse_entry(reassembled_bytes(s3)) {
                    Ok(e) => Ok(Some(e)),
                    Err(e) => Err(e),
                },
            )
        } else {
            (s2, Ok(None))
        }
    }
}

impl View for ParameterChunkReassembler {
    type V = ReassemblerView;

    closed spec fn view(&self) -> ReassemblerView {
        ReassemblerView {
            param_number: self.param_number,
            dst_addr: self.dst_addr,
            src_addr: self.src_addr,
            chunks: chunk_list8(self.chunks),
            chunks_received: self.chunks_received,
            total_chunks: self.total_chunks,
            complete: self.complete,
        }
    }
}

/// The reassembler's invariant on its view: one piece per chunk received, at
/// most 8, each of at most 56 bytes.
pub open spec fn reassembler_wf(s: ReassemblerView) -> bool {
    &&& s.chunks.len() == s.chunks_received
    &&& s.chunks_received <= 8
    &&& forall|i: int| 0 <= i < s.chunks.len() ==> (#[trigger] s.chunks[i]).len() <= 56
}

proof fn lemma_flatten_alt_push(s: Seq<Seq<u8>>, x: Seq<u8>)
    ensures
        s.push(x).flatten_alt() == s.flatten_alt() + x,
{
    assert(s.push(x).drop_last() =~= s);
}

impl ParameterChunkReassembler {
    /// The reassembler's invariant.
    pub open spec fn wf(&self) -> bool {
        reassembler_wf(self@)
    }

    /// A reassembler with no entry in progress.
    pub fn new() -> (r: Self)
        ensures
            r.wf(),
            r@ == idle_reassembler(),
    {
        Self {
            param_number: 0,
            dst_addr: 0,
            src_addr: 0,
            chunks: chunk_list8_new(),
            chunks_received: 0,
            total_chunks: 0,
            complete: false,
        }
    }

    /// Adds a chunk; returns the entry once its last chunk is in, `None`
    /// while chunks are still to come.
    pub fn push(&mut self, chunk: ParameterChunk) -> (r: Result<Option<ParameterSettingsEntry>, CrsfParsingError>)
        requires
            old(self).wf(),
        ensures
            final(self).wf(),
            (final(self)@, match r {
                Ok(Some(e)) => Ok(Some(e@)),
                Ok(None) => Ok(None),
                Err(e) => Err(e),
            }) == push_step(old(self)@, chunk@),
    {
        if self.chunks_received > 0 && chunk.param_number != self.param_number {
            self.reset();
        }
        if self.chunks_received == 0 {
            self.param_number = chunk.param_number;
            self.dst_addr = chunk.dst_addr;
            self.src_addr = chunk.src_addr;
            self.total_chunks = chunk.chunks_remaining.wrapping_add(1);
            self.complete = false;
        }
        if self.chunks_received as usize >= MAX_CHUNKS {
            self.reset();
            return Err(CrsfParsingError::InvalidPayloadLength);
        }
        let ghost piece = bytes56(chunk.payload);
        let piece_len = bytes56_as_slice(&chunk.payload).len();
        assert(piece_len <= MAX_CHUNK_PAYLOAD_SIZE);
        let last = chunk.chunks_remaining == 0;
        if !chunk_list8_push(&mut self.chunks, chunk.payload) {
            return Err(CrsfParsingError::InvalidPayloadLength);
        }
        self.chunks_received += 1;
        proof {
            assert forall|i: int| 0 <= i < self@.chunks.len() implies (#[trigger] self@.chunks[i]).len()
                <= 56 by {
                if i == self@.chunks.len() - 1 {
                    assert(self@.chunks[i] == piece);
                }
            }
        }
        if last {
            self.complete = true;
            match self.reassemble() {
                Ok(entry) => Ok(Some(entry)),
                Err(e) => Err(e),
            }
        } else {
            Ok(None)
        }
    }

    /// Decodes the entry from the chunks held.
    fn reassemble(&self) -> (r: Result<ParameterSettingsEntry, CrsfParsingError>)
        requires
            self.wf(),
        ensures
            match r {
                Ok(e) => spec_parse_entry(reassembled_bytes(self@)) == Ok::<
                    ParameterSettingsEntryView,
                    CrsfParsingError,
                >(e@),
                Err(e) => spec_parse_entry(reassembled_bytes(self@)) == Err::<
                    ParameterSettingsEntryView,
                    CrsfParsingError,
                >(e),
            },
    {
        let chunks = chunk_list8_as_slice(&self.chunks);
        let ghost pieces = self@.chunks;
        let mut total_payload_len: usize = 0;
        let mut i: usize = 0;
        while i < chunks.len()
            invariant
                0 <= i <= chunks@.len(),
                chunks@.len() == pieces.len(),
                chunks@.len() <= 8,
                forall|j: int| 0 <= j < chunks@.len() ==> bytes56(#[trigger] chunks@[j]) == pieces[j],
                forall|j: int| 0 <= j < pieces.len() ==> (#[trigger] pieces[j]).len() <= 56,
                total_payload_len == pieces.take(i as int).flatten_alt().len(),
                total_payload_len <= 56 * i,
            decreases chunks@.len() - i,
        {
            let piece = bytes56_as_slice(&chunks[i]);
            proof {
                lemma_flatten_alt_push(pieces.take(i as int), pieces[i as int]);
                assert(pieces.take(i + 1) =~= pieces.take(i as int).push(pieces[i as int]));
            }
            total_payload_len += piece.len();
            i += 1;
        }
        assert(pieces.take(chunks@.len() as int) =~= pieces);
        let total_size = 4 + total_payload_len;
        let mut buffer = [0u8; 452];
        if total_size > buffer.len() {
            return Err(CrsfParsingError::BufferOverflow);
        }
        buffer[0] = self.dst_addr;
        buffer[1] = self.src_addr;
        buffer[2] = self.param_number;
        buffer[3] = 0;
        let ghost head = seq![self.dst_addr, self.src_addr, self.param_number, 0u8];
        let ghost b0 = buffer@;
        assert(buffer@.take(4) =~= head);
        let mut offset: usize = 4;
        let mut i: usize = 0;
        while i < chunks.len()
            invariant
                0 <= i <= chunks@.len(),
                chunks@.len() == pieces.len(),
                chunks@.len() <= 8,
                forall|j: int| 0 <= j < chunks@.len() ==> bytes56(#[trigger] chunks@[j]) == pieces[j],
                forall|j: int| 0 <= j < pieces.len() ==> (#[trigger] pieces[j]).len() <= 56,
                total_size == 4 + pieces.flatten_alt().len(),
                total_size <= 452,
                buffer@.len() == 452,
                offset == 4 + pieces.take(i as int).flatten_alt().len(),
                offset <= total_size,
                buffer@.take(offset as int) == head + pieces.take(i as int).flatten_alt(),
            decreases chunks@.len() - i,
        {
            let piece = bytes56_as_slice(&chunks[i]);
            proof {
                lemma_flatten_alt_push(pieces.take(i as int), pieces[i as int]);
                assert(pieces.take(i + 1) =~= pieces.take(i as int).push(pieces[i as int]));
                pieces.take(i + 1).lemma_flatten_length_ge_single_element_length(i as int);
                assert(pieces.take(i + 1).flatten_alt().len() <= pieces.flatten_alt().len()) by {
                    assert(pieces =~= pieces.take(i + 1) + pieces.skip(i + 1));
                    vstd::seq_lib::lemma_flatten_alt_concat(pieces.take(i + 1), pieces.skip(i + 1));
                }
            }
            let ghost before = buffer@;
            put_bytes(&mut buffer, offset, piece);
            assert(buffer@.take(offset + piece@.len()) =~= before.take(offset as int) + piece@);
            offset += piece.len();
            i += 1;
        }
        assert(pieces.take(chunks@.len() as int) =~= pieces);
        let payload = &buffer[0..total_size];
        assert(payload@ =~= reassembled_bytes(self@));
        ParameterSettingsEntry::from_bytes(payload)
    }

    /// Drops any entry in progress.
    pub fn reset(&mut self)
        ensures
            final(self).wf(),
            final(self)@ == idle_reassembler(),
    {
        self.param_number = 0;
        self.dst_addr = 0;
        self.src_addr = 0;
        chunk_list8_clear(&mut self.chunks);
        self.chunks_received = 0;
        self.total_chunks = 0;
        self.complete = false;
    }

    /// Whether the last chunk of the entry is in.
    pub fn is_complete(&self) -> (r: bool)
        ensures
            r == self@.complete,
    {
        self.complete
    }

    /// The parameter whose entry is being reassembled.
    pub fn param_number(&self) -> (r: u8)
        ensures
            r == self@.param_number,
    {
        self.param_number
    }

    /// How many chunks the entry has, as its first chunk announced.
    pub fn total_chunks(&self) -> (r: u8)
        ensures
            r == self@.total_chunks,
    {
        self.total_chunks
    }

    /// How many chunks are in.
    pub fn chunks_received(&self) -> (r: u8)
        ensures
            r == self@.chunks_received,
    {
        self.chunks_received
    }

    /// Whether no entry is in progress.
    pub fn is_idle(&self) -> (r: bool)
        ensures
            r == (self@.chunks_received == 0),
    {
        self.chunks_received == 0
    }
}

impl Default for ParameterChunkReassembler {
    fn default() -> (r: Self)
        ensures
            r.wf(),
            r@ == idle_reassembler(),
    {
        Self::new()
    }
}

/// Pushing the chunks `cs` in order: the reassembler after the last and the
/// result of each push.
pub open spec fn push_all(s: ReassemblerView, cs: Seq<ParameterChunkView>) -> (ReassemblerView, Seq<
    Result<Option<ParameterSettingsEntryView>, CrsfParsingError>,
>)
    decreases cs.len(),
{
    if cs.len() == 0 {
        (s, Seq::empty())
    } else {
        let (s1, rs) = push_all(s, cs.drop_last());
        let (s2, r) = push_step(s1, cs.last());
        (s2, rs.push(r))
    }
}

/// The pieces of entry that chunks carry, in order.
pub open spec fn chunk_pieces(cs: Seq<ParameterChunkView>) -> Seq<Seq<u8>> {
    cs.map_values(|c: ParameterChunkView| c.payload)
}

/// The chunks of one parameter's entry as a device sends them: 1 to 8
/// chunks, all of one parameter, counting the chunks that follow down to 0.
pub open spec fn chunk_series(cs: Seq<ParameterChunkView>) -> bool {
    &&& 1 <= cs.len() <= 8
    &&& forall|i: int| 0 <= i < cs.len() ==> (#[trigger] cs[i]).param_number == cs[0].param_number
    &&& forall|i: int| 0 <= i < cs.len() ==> (#[trigger] cs[i]).chunks_remaining == cs.len() - 1 - i
}

proof fn lemma_push_prefix(cs: Seq<ParameterChunkView>, k: int)
    requires
        chunk_series(cs),
        1 <= k <= cs.len(),
    ensures
        ({
            let (s, rs) = push_all(idle_reassembler(), cs.take(k));
            &&& rs.len() == k
            &&& forall|i: int| 0 <= i < k && i < cs.len() - 1 ==> rs[i] == Ok::<
                Option<ParameterSettingsEntryView>,
                CrsfParsingError,
            >(None)
            &&& s.param_number == cs[0].param_number
            &&& s.dst_addr == cs[0].dst_addr
            &&& s.src_addr == cs[0].src_addr
            &&& s.chunks == chunk_pieces(cs.take(k))
            &&& s.chunks_received == k
            &&& s.total_chunks == cs.len()
            &&& s.complete == (k == cs.len())
        }),
    decreases k,
{
    let c = cs[k - 1];
    assert(cs.take(k).drop_last() =~= cs.take(k - 1));
    assert(cs.take(k).last() == c);
    assert(chunk_pieces(cs.take(k)) =~= chunk_pieces(cs.take(k - 1)).push(c.payload));
    let (s1, rs1) = push_all(idle_reassembler(), cs.take(k - 1));
    if k == 1 {
        assert(cs.take(0) =~= Seq::<ParameterChunkView>::empty());
        assert(chunk_pieces(cs.take(0)) =~= Seq::<Seq<u8>>::empty());
        assert(s1 == idle_reassembler());
    } else {
        lemma_push_prefix(cs, k - 1);
        assert(cs[k - 1].param_number == cs[0].param_number);
    }
    let (s2, r) = push_step(s1, c);
    assert(push_all(idle_reassembler(), cs.take(k)) == (s2, rs1.push(r)));
    assert(k < cs.len() ==> r == Ok::<Option<ParameterSettingsEntryView>, CrsfParsingError>(None));
    assert forall|i: int| 0 <= i < k && i < cs.len() - 1 implies rs1.push(r)[i] == Ok::<
        Option<ParameterSettingsEntryView>,
        CrsfParsingError,
    >(None) by {
        if i < k - 1 {
            assert(rs1.push(r)[i] == rs1[i]);
        }
    }
}

/// Reassembly law: pushing the chunks of one entry, in order, into an idle
/// reassembler yields nothing until the last chunk, and then the entry
/// decoded from the first chunk's header and all pieces in order; the
/// reassembler then holds a complete entry of that parameter, with every
/// chunk counted.
pub proof fn lemma_reassembly(cs: Seq<ParameterChunkView>)
    requires
        chunk_series(cs),
    ensures
        ({
            let (s, rs) = push_all(idle_reassembler(), cs);
            &&& rs.len() == cs.len()
            &&& forall|i: int| 0 <= i < cs.len() - 1 ==> rs[i] == Ok::<
                Option<ParameterSettingsEntryView>,
                CrsfParsingError,
            >(None)
            &&& rs.last() == match spec_parse_entry(
                seq![cs[0].dst_addr, cs[0].src_addr, cs[0].param_number, 0u8] + chunk_pieces(cs).flatten_alt(),
            ) {
                Ok(e) => Ok(Some(e)),
                Err(e) => Err(e),
            }
            &&& s.complete
            &&& s.chunks_received == cs.len()
            &&& s.total_chunks == cs.len()
            &&& s.param_number == cs[0].param_number
        }),
{
    let n = cs.len() as int;
    lemma_push_prefix(cs, n);
    assert(cs.take(n) =~= cs);
    if n > 1 {
        lemma_push_prefix(cs, n - 1);
    }
}

/// An entry sent in chunks is received whole: when the pieces of the chunks
/// of a series are the bytes of an entry that can travel (after its first
/// four), and the first chunk carries the entry's header with no chunk
/// remaining, the last push gives the entry back, and the reassembler holds
/// it complete with every chunk counted.
pub proof fn lemma_entry_from_chunks(e: ParameterSettingsEntryView, cs: Seq<ParameterChunkView>)
    requires
        encodable_entry(e),
        e.chunks_remaining == 0,
        chunk_series(cs),
        cs[0].dst_addr == e.dst_addr,
        cs[0].src_addr == e.src_addr,
        cs[0].param_number == e.parameter_number,
        chunk_pieces(cs).flatten_alt() == entry_bytes(e).skip(4),
    ensures
        push_all(idle_reassembler(), cs).1.last() == Ok::<
            Option<ParameterSettingsEntryView>,
            CrsfParsingError,
        >(Some(e)),
        forall|i: int| 0 <= i < cs.len() - 1 ==> push_all(idle_reassembler(), cs).1[i] == Ok::<
            Option<ParameterSettingsEntryView>,
            CrsfParsingError,
        >(None),
        push_all(idle_reassembler(), cs).0.complete,
        push_all(idle_reassembler(), cs).0.chunks_received == cs.len(),
        push_all(idle_reassembler(), cs).0.total_chunks == cs.len(),
        push_all(idle_reassembler(), cs).0.param_number == e.parameter_number,
{
    lemma_reassembly(cs);
    lemma_entry_round_trip(e);
    assert(seq![cs[0].dst_addr, cs[0].src_addr, cs[0].param_number, 0u8] + chunk_pieces(cs).flatten_alt()
        =~= entry_bytes(e));
}

/// A copy of a string of at most 128 bytes.
pub(crate) fn copy_text128(t: &heapless::String<128>) -> (r: heapless::String<128>)
    ensures
        text128(r) == text128(*t),
{
    text128_from_str(text128_as_str(t)).unwrap()
}

impl ParameterData {
    /// A copy of the data.
    pub fn copy(&self) -> (r: Self)
        ensures
            r@ == self@,
    {
        match self {
            ParameterData::Float { value, min, max, default, decimal_point, step_size, unit } => ParameterData::Float {
                value: *value,
                min: *min,
                max: *max,
                default: *default,
                decimal_point: *decimal_point,
                step_size: *step_size,
                unit: copy_text128(unit),
            },
            ParameterData::TextSelection { options, value, min, max, default, unit } => ParameterData::TextSelection {
                options: text512_from_str(text512_as_str(options)).unwrap(),
                value: *value,
                min: *min,
                max: *max,
                default: *default,
                unit: copy_text128(unit),
            },
            ParameterData::String { value, max_length } => ParameterData::String {
                value: copy_text128(value),
                max_length: *max_length,
            },
            ParameterData::Folder { children } => ParameterData::Folder {
                children: bytes32_from_slice(bytes32_as_slice(children)).unwrap(),
            },
            ParameterData::Info { info } => ParameterData::Info { info: copy_text128(info) },
            ParameterData::Command { status, timeout, info } => ParameterData::Command {
                status: *status,
                timeout: *timeout,
                info: copy_text128(info),
            },
            ParameterData::Vtx { data } => ParameterData::Vtx {
                data: bytes64_from_slice(bytes64_as_slice(data)).unwrap(),
            },
        }
    }
}

/// A settings entry travels as frame type 0x2B.
pub proof fn lemma_entry_packet_type()
    ensures
        ParameterSettingsEntry::PACKET_TYPE == PacketType::ParameterSettingsEntry,
{
}

/// A text read from the front of `d` is the bytes before the first NUL,
/// that NUL being consumed with it.
pub proof fn lemma_c_string_text(d: Seq<u8>, cap: int)
    ensures
        c_string(d, cap) matches Ok((t, n)) ==> {
            &&& n == t.len() + 1
            &&& t.len() < d.len()
            &&& t.len() <= cap
            &&& t == d.subrange(0, t.len() as int)
            &&& d[t.len() as int] == 0
            &&& forall|j: int| 0 <= j < t.len() ==> #[trigger] d[j] != 0
        },
{
    lemma_first_index(d, 0);
    if let Ok((t, n)) = c_string(d, cap) {
        assert(t =~= d.subrange(0, t.len() as int));
    }
}

/// The layout of command data: the status byte first, then the timeout
/// byte, then the NUL-terminated information text. Command data is read
/// that way wherever it starts in a payload, and written that way.
pub proof fn lemma_command_data_layout(d: Seq<u8>, off: int, status: u8, timeout: u8, info: Seq<u8>)
    requires
        0 <= off,
    ensures
        d.len() < off + 3 ==> spec_parse_data(ParameterDataType::Command, d, off) is Err,
        spec_parse_data(ParameterDataType::Command, d, off) matches Ok(v) ==> (v matches ParameterDataView::Command {
            status: s,
            timeout: t,
            info: text,
        } && s == d[off] && t == d[off + 1] && off + 2 + text.len() < d.len() && text == d.subrange(
            off + 2,
            off + 2 + text.len(),
        ) && d[off + 2 + text.len()] == 0 && forall|j: int|
            off + 2 <= j < off + 2 + text.len() ==> #[trigger] d[j] != 0),
        ({
            let w = data_bytes(ParameterDataView::Command { status, timeout, info });
            &&& w.len() == info.len() + 3
            &&& w[0] == status
            &&& w[1] == timeout
            &&& w.subrange(2, 2 + info.len() as int) == info
            &&& w[2 + info.len() as int] == 0
        }),
{
    let w = data_bytes(ParameterDataView::Command { status, timeout, info });
    assert(w.subrange(2, 2 + info.len() as int) =~= info);
    if d.len() >= off + 3 {
        let r = d.skip(off + 2);
        lemma_c_string_text(r, 128);
        if let Ok((text, n)) = c_string(r, 128) {
            assert(text =~= d.subrange(off + 2, off + 2 + text.len()));
            assert forall|j: int| off + 2 <= j < off + 2 + text.len() implies #[trigger] d[j] != 0 by {
                assert(d[j] == r[j - off - 2]);
            }
            assert(d[off + 2 + text.len()] == r[text.len() as int]);
        }
    }
}

/// A text read from offset `x` of `d` is the bytes from `x` before the
/// next NUL.
pub proof fn lemma_c_string_at(d: Seq<u8>, x: int, cap: int)
    requires
        0 <= x <= d.len(),
    ensures
        c_string(d.skip(x), cap) matches Ok((t, n)) ==> {
            &&& n == t.len() + 1
            &&& x + t.len() < d.len()
            &&& t.len() <= cap
            &&& t == d.subrange(x, x + t.len())
            &&& d[x + t.len()] == 0
            &&& forall|j: int| x <= j < x + t.len() ==> #[trigger] d[j] != 0
        },
{
    let r = d.skip(x);
    lemma_c_string_text(r, cap);
    if let Ok((t, n)) = c_string(r, cap) {
        assert(t =~= d.subrange(x, x + t.len()));
        assert(d[x + t.len()] == r[t.len() as int]);
        assert forall|j: int| x <= j < x + t.len() implies #[trigger] d[j] != 0 by {
            assert(d[j] == r[j - x]);
        }
    }
}

/// The head of a settings entry: destination, origin, parameter number,
/// chunks remaining, parent and data type, one byte each, then the name
/// ended by a NUL, then the data, when bytes follow, read by the data type.
/// A payload is read that way, and an entry is written that way.
pub proof fn lemma_entry_head_layout(d: Seq<u8>, e: ParameterSettingsEntryView)
    ensures
        d.len() < 7 ==> spec_parse_entry(d) is Err,
        spec_parse_entry(d) matches Ok(v) ==> ({
            let n = v.name.len() as int;
            &&& v.dst_addr == d[0]
            &&& v.src_addr == d[1]
            &&& v.parameter_number == d[2]
            &&& v.chunks_remaining == d[3]
            &&& v.parent == d[4]
            &&& v.data_type == d[5]
            &&& 7 + n <= d.len()
            &&& v.name == d.subrange(6, 6 + n)
            &&& d[6 + n] == 0
            &&& forall|j: int| 6 <= j < 6 + n ==> #[trigger] d[j] != 0
            &&& (d.len() == 7 + n ==> v.data is None)
            &&& (d.len() > 7 + n ==> v.data == Some(spec_parse_data(data_type_of_byte(d[5])->0, d, 7 + n)->Ok_0))
        }),
        ({
            let w = entry_bytes(e);
            let n = e.name.len() as int;
            &&& w[0] == e.dst_addr
            &&& w[1] == e.src_addr
            &&& w[2] == e.parameter_number
            &&& w[3] == e.chunks_remaining
            &&& w[4] == e.parent
            &&& w[5] == e.data_type
            &&& w.subrange(6, 6 + n) == e.name
            &&& w[6 + n] == 0
            &&& w.skip(7 + n) == match e.data {
                Some(pd) => data_bytes(pd),
                None => Seq::<u8>::empty(),
            }
        }),
{
    if d.len() >= 7 {
        lemma_c_string_at(d, 6, 128);
    }
    let w = entry_bytes(e);
    let n = e.name.len() as int;
    assert(w.subrange(6, 6 + n) =~= e.name);
    assert(w.skip(7 + n) =~= match e.data {
        Some(pd) => data_bytes(pd),
        None => Seq::<u8>::empty(),
    });
}

/// The chunk layout: destination, origin, parameter number and chunks
/// remaining, one byte each, then the piece of the entry. Every payload of
/// 4 to 60 bytes is read that way.
pub proof fn lemma_chunk_layout(d: Seq<u8>)
    ensures
        4 <= d.len() <= 60 ==> spec_parse_chunk(d) == Ok::<ParameterChunkView, CrsfParsingError>(
            ParameterChunkView {
                dst_addr: d[0],
                src_addr: d[1],
                param_number: d[2],
                chunks_remaining: d[3],
                payload: d.subrange(4, d.len() as int),
            },
        ),
        d.len() < 4 || d.len() > 60 ==> spec_parse_chunk(d) is Err,
{
    assert(d.skip(4) =~= d.subrange(4, d.len() as int));
}

/// The layout of number data with a unit: value, minimum, maximum and
/// default, four big-endian bytes each (two's complement), the decimal
/// point byte, the step size in four bytes, then the unit ended by a NUL.
pub proof fn lemma_float_data_layout(d: Seq<u8>, off: int)
    requires
        0 <= off,
    ensures
        spec_parse_data(ParameterDataType::Float, d, off) matches Ok(v) ==> (v matches ParameterDataView::Float {
            value,
            min,
            max,
            default,
            decimal_point,
            step_size,
            unit,
        } && value as u32 == d[off] * 0x1000000 + d[off + 1] * 0x10000 + d[off + 2] * 0x100 + d[off + 3]
            && min as u32 == d[off + 4] * 0x1000000 + d[off + 5] * 0x10000 + d[off + 6] * 0x100 + d[off + 7]
            && max as u32 == d[off + 8] * 0x1000000 + d[off + 9] * 0x10000 + d[off + 10] * 0x100 + d[off + 11]
            && default as u32 == d[off + 12] * 0x1000000 + d[off + 13] * 0x10000 + d[off + 14] * 0x100 + d[off
            + 15] && decimal_point == d[off + 16] && step_size as u32 == d[off + 17] * 0x1000000 + d[off + 18]
            * 0x10000 + d[off + 19] * 0x100 + d[off + 20] && unit == d.subrange(off + 21, off + 21 + unit.len())
            && d[off + 21 + unit.len()] == 0),
        d.len() < off + 21 ==> spec_parse_data(ParameterDataType::Float, d, off) is Err,
{
    if d.len() >= off + 21 {
        lemma_c_string_at(d, off + 21, 128);
        crate::packets::wire::lemma_be32_at_value(d, off);
        crate::packets::wire::lemma_be32_at_value(d, off + 4);
        crate::packets::wire::lemma_be32_at_value(d, off + 8);
        crate::packets::wire::lemma_be32_at_value(d, off + 12);
        crate::packets::wire::lemma_be32_at_value(d, off + 17);
        crate::packets::wire::lemma_u32_bits(be32_at(d, off));
        crate::packets::wire::lemma_u32_bits(be32_at(d, off + 4));
        crate::packets::wire::lemma_u32_bits(be32_at(d, off + 8));
        crate::packets::wire::lemma_u32_bits(be32_at(d, off + 12));
        crate::packets::wire::lemma_u32_bits(be32_at(d, off + 17));
    }
}

/// The layout of selection data: the options text ended by a NUL, then the
/// value, minimum, maximum and default, one byte each, then the unit ended
/// by a NUL.
pub proof fn lemma_text_selection_data_layout(d: Seq<u8>, off: int)
    requires
        0 <= off <= d.len(),
    ensures
        spec_parse_data(ParameterDataType::TextSelection, d, off) matches Ok(v) ==> (v matches ParameterDataView::TextSelection {
            options,
            value,
            min,
            max,
            default,
            unit,
        } && options == d.subrange(off, off + options.len()) && d[off + options.len()] == 0 && value == d[off
            + options.len() + 1] && min == d[off + options.len() + 2] && max == d[off + options.len() + 3]
            && default == d[off + options.len() + 4] && unit == d.subrange(
            off + options.len() + 5,
            off + options.len() + 5 + unit.len(),
        ) && d[off + options.len() + 5 + unit.len()] == 0),
{
    lemma_c_string_at(d, off, 512);
    if let Ok((options, used)) = c_string(d.skip(off), 512) {
        if d.len() >= off + used + 4 {
            lemma_c_string_at(d, off + used + 4, 128);
        }
    }
}

/// The layout of text data: the text ended by a NUL, then the most bytes it
/// may hold.
pub proof fn lemma_string_data_layout(d: Seq<u8>, off: int)
    requires
        0 <= off <= d.len(),
    ensures
        spec_parse_data(ParameterDataType::String, d, off) matches Ok(v) ==> (v matches ParameterDataView::String {
            value,
            max_length,
        } && value == d.subrange(off, off + value.len()) && d[off + value.len()] == 0 && max_length == d[off
            + value.len() + 1]),
{
    lemma_c_string_at(d, off, 128);
}

/// The layout of information data: the text ended by a NUL.
pub proof fn lemma_info_data_layout(d: Seq<u8>, off: int)
    requires
        0 <= off <= d.len(),
    ensures
        spec_parse_data(ParameterDataType::Info, d, off) matches Ok(v) ==> (v matches ParameterDataView::Info {
            info,
        } && info == d.subrange(off, off + info.len()) && d[off + info.len()] == 0),
{
    lemma_c_string_at(d, off, 128);
}

/// The layout of folder data: the numbers of the children, ended by 0xFF.
pub proof fn lemma_folder_data_layout(d: Seq<u8>, off: int)
    requires
        0 <= off <= d.len(),
    ensures
        spec_parse_data(ParameterDataType::Folder, d, off) matches Ok(v) ==> (v matches ParameterDataView::Folder {
            children,
        } && children == d.subrange(off, off + children.len()) && off + children.len() < d.len() && d[off
            + children.len()] == 0xFF && children.len() <= 32 && forall|j: int|
            0 <= j < children.len() ==> #[trigger] children[j] != 0xFF),
{
    lemma_first_index(d.skip(off), 0xFF);
    if let Ok(ParameterDataView::Folder { children }) = spec_parse_data(ParameterDataType::Folder, d, off) {
        assert(d[off + children.len()] == d.skip(off)[children.len() as int]);
        assert forall|j: int| 0 <= j < children.len() implies #[trigger] children[j] != 0xFF by {
            assert(children[j] == d.skip(off)[j]);
        }
    }
}

/// How each kind of data is written: the fields in the order they are read.
pub proof fn lemma_data_bytes_layout(pd: ParameterDataView)
    ensures
        pd matches ParameterDataView::Float { value, min, max, default, decimal_point, step_size, unit } ==> {
            let w = data_bytes(pd);
            &&& w[0] * 0x1000000 + w[1] * 0x10000 + w[2] * 0x100 + w[3] == value as u32
            &&& w[4] * 0x1000000 + w[5] * 0x10000 + w[6] * 0x100 + w[7] == min as u32
            &&& w[8] * 0x1000000 + w[9] * 0x10000 + w[10] * 0x100 + w[11] == max as u32
            &&& w[12] * 0x1000000 + w[13] * 0x10000 + w[14] * 0x100 + w[15] == default as u32
            &&& w[16] == decimal_point
            &&& w[17] * 0x1000000 + w[18] * 0x10000 + w[19] * 0x100 + w[20] == step_size as u32
            &&& w.subrange(21, 21 + unit.len() as int) == unit
            &&& w[21 + unit.len() as int] == 0
        },
        pd matches ParameterDataView::TextSelection { options, value, min, max, default, unit } ==> {
            let w = data_bytes(pd);
            let k = options.len() as int;
            &&& w.subrange(0, k) == options
            &&& w[k] == 0
            &&& w[k + 1] == value
            &&& w[k + 2] == min
            &&& w[k + 3] == max
            &&& w[k + 4] == default
            &&& w.subrange(k + 5, k + 5 + unit.len()) == unit
            &&& w[k + 5 + unit.len()] == 0
        },
        pd matches ParameterDataView::String { value, max_length } ==> {
            let w = data_bytes(pd);
            &&& w.subrange(0, value.len() as int) == value
            &&& w[value.len() as int] == 0
            &&& w[value.len() as int + 1] == max_length
        },
        pd matches ParameterDataView::Info { info } ==> data_bytes(pd) == info + seq![0u8],
        pd matches ParameterDataView::Folder { children } ==> data_bytes(pd) == children + seq![0xFFu8],
{
    match pd {
        ParameterDataView::Float { value, min, max, default, decimal_point, step_size, unit } => {
            let w = data_bytes(pd);
            let (a, b, c, e, s) = (be32(value as u32), be32(min as u32), be32(max as u32), be32(default as u32), be32(step_size as u32));
            crate::packets::wire::lemma_be32_bytes(value as u32);
            crate::packets::wire::lemma_be32_bytes(min as u32);
            crate::packets::wire::lemma_be32_bytes(max as u32);
            crate::packets::wire::lemma_be32_bytes(default as u32);
            crate::packets::wire::lemma_be32_bytes(step_size as u32);
            assert(w =~= a + b + c + e + seq![decimal_point] + s + unit + seq![0u8]);
            assert(w[0] == a[0] && w[1] == a[1] && w[2] == a[2] && w[3] == a[3]);
            assert(w[4] == b[0] && w[5] == b[1] && w[6] == b[2] && w[7] == b[3]);
            assert(w[8] == c[0] && w[9] == c[1] && w[10] == c[2] && w[11] == c[3]);
            assert(w[12] == e[0] && w[13] == e[1] && w[14] == e[2] && w[15] == e[3]);
            assert(w[17] == s[0] && w[18] == s[1] && w[19] == s[2] && w[20] == s[3]);
            assert(w.subrange(21, 21 + unit.len() as int) =~= unit);
        },
        ParameterDataView::TextSelection { options, value, min, max, default, unit } => {
            let w = data_bytes(pd);
            let k = options.len() as int;
            assert(w.subrange(0, k) =~= options);
            assert(w.subrange(k + 5, k + 5 + unit.len()) =~= unit);
        },
        ParameterDataView::String { value, max_length } => {
            assert(data_bytes(pd).subrange(0, value.len() as int) =~= value);
        },
        _ => {},
    }
}

} // verus!

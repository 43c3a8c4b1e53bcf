//! Device information (frame type 0x29), a device's answer to a ping.
use vstd::prelude::*;
use vstd::string::StringSliceAdditionalSpecFns;
use vstd::utf8::valid_utf8;

use crate::fixed::{text43, text43_as_str, text43_from_str};
use crate::packets::wire::{
    be32, be32_at, get_be32, lemma_be32_round_trip, lemma_splice_append, put_be32, put_bytes, splice,
};
use crate::packets::{CrsfPacket, PacketType};
use crate::text::{find_byte, first_index, lemma_first_index, lemma_first_index_of, str_from_utf8};
use crate::CrsfParsingError;

verus! {

/// The longest device name, in bytes.
pub const MAX_DEVICE_NAME_LEN: usize = 43;

/// Destination and origin address bytes.
pub const EXTENDED_HEADER_SIZE: usize = 2;

/// Serial number, hardware and firmware ids, parameter count and version.
pub const FIXED_FIELDS_SIZE: usize = 14;

/// Identifies a device and the parameters it exposes.
#[derive(Clone, Debug, PartialEq, Eq)]
pub struct DeviceInformation {
    /// The device that sent the ping.
    pub dst_addr: u8,
    /// The device answering.
    pub src_addr: u8,
    /// The device's name, at most 43 bytes; [`DeviceInformation::device_name`]
    /// gives it as a string slice.
    pub device_name: heapless::String<43>,
    /// The device's serial number.
    pub serial_number: u32,
    /// Vendor-specific hardware id.
    pub hardware_id: u32,
    /// Vendor-specific firmware id.
    pub firmware_id: u32,
    /// How many parameters the device exposes.
    pub parameters_total: u8,
    /// Version of the device's parameter layout.
    pub parameter_version_number: u8,
}

/// Device information as the contracts see it: the name by its UTF-8 bytes.
pub ghost struct DeviceInformationView {
    pub dst_addr: u8,
    pub src_addr: u8,
    pub device_name: Seq<u8>,
    pub serial_number: u32,
    pub hardware_id: u32,
    pub firmware_id: u32,
    pub parameters_total: u8,
    pub parameter_version_number: u8,
}

impl View for DeviceInformation {
    type V = DeviceInformationView;

    open spec fn view(&self) -> DeviceInformationView {
        DeviceInformationView {
            dst_addr: self.dst_addr,
            src_addr: self.src_addr,
            device_name: text43(self.device_name),
            serial_number: self.serial_number,
            hardware_id: self.hardware_id,
            firmware_id: self.firmware_id,
            parameters_total: self.parameters_total,
            parameter_version_number: self.parameter_version_number,
        }
    }
}

impl DeviceInformation {
    /// Device information naming the device `device_name`;
    /// `InvalidPayloadLength` when the name has more than 43 bytes.
    pub fn new(
        dst_addr: u8,
        src_addr: u8,
        device_name: &str,
        serial_number: u32,
        hardware_id: u32,
        firmware_id: u32,
        parameters_total: u8,
        parameter_version_number: u8,
    ) -> (r: Result<Self, CrsfParsingError>)
        ensures
            r is Ok <==> device_name.spec_bytes().len() <= MAX_DEVICE_NAME_LEN,
            r matches Ok(p) ==> p@ == (DeviceInformationView {
                dst_addr,
                src_addr,
                device_name: device_name.spec_bytes(),
                serial_number,
                hardware_id,
                firmware_id,
                parameters_total,
                parameter_version_number,
            }),
            r matches Err(e) ==> e == CrsfParsingError::InvalidPayloadLength,
    {
        if device_name.len() > MAX_DEVICE_NAME_LEN {
            return Err(CrsfParsingError::InvalidPayloadLength);
        }
        match text43_from_str(device_name) {
            Some(name) => Ok(
                Self {
                    dst_addr,
                    src_addr,
                    device_name: name,
                    serial_number,
                    hardware_id,
                    firmware_id,
                    parameters_total,
                    parameter_version_number,
                },
            ),
            None => Err(CrsfParsingError::InvalidPayloadLength),
        }
    }

    /// The device's name.
    pub fn device_name(&self) -> (r: &str)
        ensures
            r.spec_bytes() == self@.device_name,
            r.spec_bytes().len() <= MAX_DEVICE_NAME_LEN,
    {
        text43_as_str(&self.device_name)
    }
}

/// The fixed fields that follow the name's terminator.
pub open spec fn info_fixed_bytes(v: DeviceInformationView) -> Seq<u8> {
    be32(v.serial_number) + be32(v.hardware_id) + be32(v.firmware_id) + seq![
        v.parameters_total,
        v.parameter_version_number,
    ]
}

impl CrsfPacket for DeviceInformation {
    const PACKET_TYPE: PacketType = PacketType::DeviceInfo;
    const MIN_PAYLOAD_SIZE: usize = 17;

    open spec fn spec_to_bytes(&self) -> Seq<u8> {
        seq![self.dst_addr, self.src_addr] + self@.device_name + seq![0u8] + info_fixed_bytes(self@)
    }

    /// Header, a NUL-terminated UTF-8 name of at most 43 bytes, and the
    /// fixed fields. Without a terminator, or with a name that is not UTF-8,
    /// the payload is `InvalidPayload`; too short, or with a longer name,
    /// `InvalidPayloadLength`. Bytes after the fixed fields are ignored.
    open spec fn spec_from_bytes(d: Seq<u8>) -> Result<DeviceInformationView, CrsfParsingError> {
        let p = d.skip(2);
        if d.len() < 17 {
            Err(CrsfParsingError::InvalidPayloadLength)
        } else {
            match first_index(p, 0) {
                None => Err(CrsfParsingError::InvalidPayload),
                Some(n) => if !valid_utf8(p.take(n)) {
                    Err(CrsfParsingError::InvalidPayload)
                } else if n > 43 || p.len() < n + 1 + 14 {
                    Err(CrsfParsingError::InvalidPayloadLength)
                } else {
                    Ok(
                        DeviceInformationView {
                            dst_addr: d[0],
                            src_addr: d[1],
                            device_name: p.take(n),
                            serial_number: be32_at(p, n + 1),
                            hardware_id: be32_at(p, n + 5),
                            firmware_id: be32_at(p, n + 9),
                            parameters_total: p[n + 13],
                            parameter_version_number: p[n + 14],
                        },
                    )
                },
            }
        }
    }

    open spec fn payload_readable(data: Seq<u8>) -> bool {
        true
    }

    fn to_bytes(&self, buffer: &mut [u8]) -> (r: Result<usize, CrsfParsingError>)
        ensures
            r is Err ==> final(buffer)@ == old(buffer)@,
    {
        let name = self.device_name();
        let name_bytes = name.as_bytes();
        let name_len = name_bytes.len();
        let payload_len = EXTENDED_HEADER_SIZE + name_len + 1 + FIXED_FIELDS_SIZE;
        if buffer.len() < payload_len {
            return Err(CrsfParsingError::BufferOverflow);
        }
        let ghost b0 = old(buffer)@;
        buffer[0] = self.dst_addr;
        buffer[1] = self.src_addr;
        let ghost h = seq![self.dst_addr, self.src_addr];
        assert(buffer@ =~= splice(b0, 0, h));
        let mut offset = EXTENDED_HEADER_SIZE;
        put_bytes(buffer, offset, name_bytes);
        proof {
            lemma_splice_append(b0, h, name_bytes@);
        }
        let ghost h = h + name_bytes@;
        offset += name_len;
        buffer[offset] = 0;
        assert(buffer@ =~= splice(b0, 0, h + seq![0u8]));
        let ghost h = h + seq![0u8];
        offset += 1;
        put_be32(buffer, offset, self.serial_number);
        proof {
            lemma_splice_append(b0, h, be32(self.serial_number));
        }
        let ghost h = h + be32(self.serial_number);
        offset += 4;
        put_be32(buffer, offset, self.hardware_id);
        proof {
            lemma_splice_append(b0, h, be32(self.hardware_id));
        }
        let ghost h = h + be32(self.hardware_id);
        offset += 4;
        put_be32(buffer, offset, self.firmware_id);
        proof {
            lemma_splice_append(b0, h, be32(self.firmware_id));
        }
        let ghost h = h + be32(self.firmware_id);
        offset += 4;
        buffer[offset] = self.parameters_total;
        offset += 1;
        buffer[offset] = self.parameter_version_number;
        assert(buffer@ =~= splice(b0, 0, h + seq![self.parameters_total, self.parameter_version_number]));
        assert(h + seq![self.parameters_total, self.parameter_version_number] =~= self.spec_to_bytes());
        Ok(payload_len)
    }

    fn from_bytes(data: &[u8]) -> (r: Result<Self, CrsfParsingError>) {
        if data.len() < Self::MIN_PAYLOAD_SIZE {
            return Err(CrsfParsingError::InvalidPayloadLength);
        }
        let dst_addr = data[0];
        let src_addr = data[1];
        let payload = &data[EXTENDED_HEADER_SIZE..data.len()];
        assert(payload@ =~= data@.skip(2));
        let null_pos = match find_byte(payload, 0) {
            Some(i) => i,
            None => return Err(CrsfParsingError::InvalidPayload),
        };
        proof {
            lemma_first_index(payload@, 0);
        }
        let name_bytes = &payload[0..null_pos];
        assert(name_bytes@ =~= payload@.take(null_pos as int));
        let s = match str_from_utf8(name_bytes) {
            Some(s) => s,
            None => return Err(CrsfParsingError::InvalidPayload),
        };
        let device_name = match text43_from_str(s) {
            Some(n) => n,
            None => return Err(CrsfParsingError::InvalidPayloadLength),
        };
        let mut offset = null_pos + 1;
        if payload.len() < offset + FIXED_FIELDS_SIZE {
            return Err(CrsfParsingError::InvalidPayloadLength);
        }
        let serial_number = get_be32(payload, offset);
        offset += 4;
        let hardware_id = get_be32(payload, offset);
        offset += 4;
        let firmware_id = get_be32(payload, offset);
        offset += 4;
        let parameters_total = payload[offset];
        offset += 1;
        let parameter_version_number = payload[offset];
        Ok(
            Self {
                dst_addr,
                src_addr,
                device_name,
                serial_number,
                hardware_id,
                firmware_id,
                parameters_total,
                parameter_version_number,
            },
        )
    }
}

/// Decoding the bytes of device information gives it back, for a name of
/// valid UTF-8, at most 43 bytes (as every name is) and without a NUL byte.
pub proof fn lemma_device_information_round_trip(p: DeviceInformation)
    requires
        valid_utf8(p@.device_name),
        p@.device_name.len() <= MAX_DEVICE_NAME_LEN,
        forall|i: int| 0 <= i < p@.device_name.len() ==> p@.device_name[i] != 0,
    ensures
        DeviceInformation::spec_from_bytes(p.spec_to_bytes()) == Ok::<
            DeviceInformationView,
            CrsfParsingError,
        >(p@),
{
    let b = p.spec_to_bytes();
    let q = b.skip(2);
    let n = p@.device_name.len() as int;
    assert(q =~= p@.device_name + seq![0u8] + info_fixed_bytes(p@));
    lemma_first_index_of(q, 0, n);
    assert(q.take(n) =~= p@.device_name);
    lemma_be32_round_trip(p.serial_number);
    lemma_be32_round_trip(p.hardware_id);
    lemma_be32_round_trip(p.firmware_id);
}

/// Device information travels as frame type 0x29.
pub proof fn lemma_device_information_packet_type()
    ensures
        DeviceInformation::PACKET_TYPE == PacketType::DeviceInfo,
{
}

/// The device information layout: destination and origin, one byte each;
/// the name, ended by a NUL; then, big-endian, the serial number, the
/// hardware id and the firmware id, four bytes each; then the parameter
/// count and the parameter version, one byte each. A payload is read that
/// way, and device information is written that way.
pub proof fn lemma_device_information_layout(d: Seq<u8>, p: DeviceInformation)
    ensures
        DeviceInformation::spec_from_bytes(d) matches Ok(v) ==> ({
            let n = v.device_name.len() as int;
            &&& d.len() >= n + 17
            &&& v.dst_addr == d[0]
            &&& v.src_addr == d[1]
            &&& v.device_name == d.subrange(2, 2 + n)
            &&& d[2 + n] == 0
            &&& forall|j: int| 2 <= j < 2 + n ==> #[trigger] d[j] != 0
            &&& v.serial_number == d[3 + n] * 0x1000000 + d[4 + n] * 0x10000 + d[5 + n] * 0x100 + d[6 + n]
            &&& v.hardware_id == d[7 + n] * 0x1000000 + d[8 + n] * 0x10000 + d[9 + n] * 0x100 + d[10 + n]
            &&& v.firmware_id == d[11 + n] * 0x1000000 + d[12 + n] * 0x10000 + d[13 + n] * 0x100 + d[14 + n]
            &&& v.parameters_total == d[15 + n]
            &&& v.parameter_version_number == d[16 + n]
        }),
        ({
            let w = p.spec_to_bytes();
            let n = p@.device_name.len() as int;
            &&& w.len() == n + 17
            &&& w[0] == p.dst_addr
            &&& w[1] == p.src_addr
            &&& w.subrange(2, 2 + n) == p@.device_name
            &&& w[2 + n] == 0
            &&& w[3 + n] * 0x1000000 + w[4 + n] * 0x10000 + w[5 + n] * 0x100 + w[6 + n] == p.serial_number
            &&& w[7 + n] * 0x1000000 + w[8 + n] * 0x10000 + w[9 + n] * 0x100 + w[10 + n] == p.hardware_id
            &&& w[11 + n] * 0x1000000 + w[12 + n] * 0x10000 + w[13 + n] * 0x100 + w[14 + n] == p.firmware_id
            &&& w[15 + n] == p.parameters_total
            &&& w[16 + n] == p.parameter_version_number
        }),
{
    let q = d.skip(2);
    lemma_first_index(q, 0);
    if let Ok(v) = DeviceInformation::spec_from_bytes(d) {
        let n = v.device_name.len() as int;
        assert(v.device_name =~= d.subrange(2, 2 + n));
        assert(d[2 + n] == q[n]);
        assert forall|j: int| 2 <= j < 2 + n implies #[trigger] d[j] != 0 by {
            assert(d[j] == q[j - 2]);
        }
        crate::packets::wire::lemma_be32_at_value(q, n + 1);
        crate::packets::wire::lemma_be32_at_value(q, n + 5);
        crate::packets::wire::lemma_be32_at_value(q, n + 9);
        assert(q[n + 1] == d[3 + n] && q[n + 2] == d[4 + n] && q[n + 3] == d[5 + n] && q[n + 4] == d[6 + n]);
        assert(q[n + 5] == d[7 + n] && q[n + 6] == d[8 + n] && q[n + 7] == d[9 + n] && q[n + 8] == d[10 + n]);
        assert(q[n + 9] == d[11 + n] && q[n + 10] == d[12 + n] && q[n + 11] == d[13 + n] && q[n + 12] == d[14 + n]);
        assert(q[n + 13] == d[15 + n] && q[n + 14] == d[16 + n]);
    }
    let w = p.spec_to_bytes();
    let n = p@.device_name.len() as int;
    let f = info_fixed_bytes(p@);
    let a = be32(p.serial_number);
    let b = be32(p.hardware_id);
    let c = be32(p.firmware_id);
    crate::packets::wire::lemma_be32_bytes(p.serial_number);
    crate::packets::wire::lemma_be32_bytes(p.hardware_id);
    crate::packets::wire::lemma_be32_bytes(p.firmware_id);
    assert(w.subrange(2, 2 + n) =~= p@.device_name);
    assert(w =~= seq![p.dst_addr, p.src_addr] + p@.device_name + seq![0u8] + f);
    assert(forall|k: int| 0 <= k < 14 ==> #[trigger] w[3 + n + k] == f[k]);
    assert(f[0] == a[0] && f[1] == a[1] && f[2] == a[2] && f[3] == a[3]);
    assert(f[4] == b[0] && f[5] == b[1] && f[6] == b[2] && f[7] == b[3]);
    assert(f[8] == c[0] && f[9] == c[1] && f[10] == c[2] && f[11] == c[3]);
    assert(w[3 + n] == f[0] && w[4 + n] == f[1] && w[5 + n] == f[2] && w[6 + n] == f[3]);
    assert(w[7 + n] == f[4] && w[8 + n] == f[5] && w[9 + n] == f[6] && w[10 + n] == f[7]);
    assert(w[11 + n] == f[8] && w[12 + n] == f[9] && w[13 + n] == f[10] && w[14 + n] == f[11]);
    assert(w[15 + n] == f[12] && w[16 + n] == f[13]);
}

} // verus!

use heapless::{String, Vec};
use uf_crsf::packets::{
    ArduPilotPassthrough, CrsfPacket, DeviceInformation, MspPacket, PassthroughTelemetryPacket,
    ParameterChunk, ParameterChunkReassembler, ParameterData, ParameterDataType,
    ParameterSettingsEntry, ParameterWrite,
};
use uf_crsf::CrsfParsingError;

#[test]
fn parameter_write_bytes_and_errors() {
    let write = ParameterWrite::new(0xEC, 0xEA, 4, &[9, 8]).unwrap();
    let mut buffer = [0u8; 5];
    assert_eq!(write.to_bytes(&mut buffer), Ok(5));
    assert_eq!(buffer, [0xEC, 0xEA, 4, 9, 8]);
    assert_eq!(ParameterWrite::from_bytes(&buffer), Ok(write));
    // The largest value fits.
    let big = [7u8; 32];
    let write = ParameterWrite::new(1, 2, 3, &big).unwrap();
    assert_eq!(&*write.data, &big[..]);
    // An empty value is written, but is too short to be read back.
    let empty = ParameterWrite::new(1, 2, 3, &[]).unwrap();
    let mut buffer = [0u8; 8];
    assert_eq!(empty.to_bytes(&mut buffer), Ok(3));
    assert_eq!(
        ParameterWrite::from_bytes(&buffer[..3]),
        Err(CrsfParsingError::InvalidPayloadLength)
    );
}

#[test]
fn msp_status_bits_and_limits() {
    let packet = MspPacket::new(0xC8, 0xEA, 0b1011_0101, &[1, 2]).unwrap();
    assert_eq!(packet.sequence(), 5);
    assert!(packet.is_start());
    assert_eq!(packet.version(), 1);
    assert!(packet.is_error());
    let packet = MspPacket::new(0xC8, 0xEA, 0x40, &[]).unwrap();
    assert_eq!(packet.sequence(), 0);
    assert!(!packet.is_start());
    assert_eq!(packet.version(), 2);
    assert!(!packet.is_error());
    assert_eq!(
        MspPacket::new(0xC8, 0xEA, 0, &[0u8; 58]),
        Err(CrsfParsingError::InvalidPayloadLength)
    );
    assert_eq!(
        MspPacket::from_bytes(&[0xC8, 0xEA]),
        Err(CrsfParsingError::InvalidPayloadLength)
    );
    let mut buffer = [0u8; 4];
    assert_eq!(
        MspPacket::new(0xC8, 0xEA, 0, &[1, 2]).unwrap().to_bytes(&mut buffer),
        Err(CrsfParsingError::BufferOverflow)
    );
}

#[test]
fn ardupilot_multi_and_status_round_trip() {
    let mut items: Vec<PassthroughTelemetryPacket, 9> = Vec::new();
    items
        .push(PassthroughTelemetryPacket {
            appid: 0x5000,
            data: 0x01020304,
        })
        .unwrap();
    items
        .push(PassthroughTelemetryPacket {
            appid: 0x5006,
            data: 0xA0B0C0D0,
        })
        .unwrap();
    let multi = ArduPilotPassthrough::Multi { packets: items };
    let mut buffer = [0u8; 64];
    let len = multi.to_bytes(&mut buffer).unwrap();
    assert_eq!(len, 14);
    assert_eq!(
        &buffer[..len],
        &[0xF2, 2, 0x50, 0x00, 1, 2, 3, 4, 0x50, 0x06, 0xA0, 0xB0, 0xC0, 0xD0]
    );
    assert_eq!(ArduPilotPassthrough::from_bytes(&buffer[..len]), Ok(multi));

    let text: Vec<u8, 50> = Vec::from_slice(b"Armed").unwrap();
    let status = ArduPilotPassthrough::StatusText { severity: 6, text };
    let len = status.to_bytes(&mut buffer).unwrap();
    assert_eq!(&buffer[..len], b"\xF1\x06Armed");
    assert_eq!(ArduPilotPassthrough::from_bytes(&buffer[..len]), Ok(status));
}

#[test]
fn ardupilot_errors() {
    assert_eq!(
        ArduPilotPassthrough::from_bytes(&[]),
        Err(CrsfParsingError::InvalidPayloadLength)
    );
    assert_eq!(
        ArduPilotPassthrough::from_bytes(&[0x42, 0, 0]),
        Err(CrsfParsingError::InvalidPayload)
    );
    assert_eq!(
        ArduPilotPassthrough::from_bytes(&[0xF0, 1, 2]),
        Err(CrsfParsingError::InvalidPayloadLength)
    );
    // Ten items announced: more than the nine a frame may carry.
    let mut data = [0u8; 62];
    data[0] = 0xF2;
    data[1] = 10;
    assert_eq!(
        ArduPilotPassthrough::from_bytes(&data),
        Err(CrsfParsingError::InvalidPayloadLength)
    );
    // Items announced beyond the payload.
    assert_eq!(
        ArduPilotPassthrough::from_bytes(&[0xF2, 2, 0, 1, 0, 0, 0, 1]),
        Err(CrsfParsingError::InvalidPayloadLength)
    );
    // A status text longer than 50 bytes.
    let mut long = [b'a'; 53];
    long[0] = 0xF1;
    assert_eq!(
        ArduPilotPassthrough::from_bytes(&long),
        Err(CrsfParsingError::InvalidPayloadLength)
    );
}

#[test]
fn device_information_name_must_be_utf8() {
    let data = b"\xEA\xEE\xFF\xFE\0\x12\x34\x56\x78\xAB\xCD\xEF\x01\x98\x76\x54\x32\x2A\x05";
    assert_eq!(
        DeviceInformation::from_bytes(data),
        Err(CrsfParsingError::InvalidPayload)
    );
    // A name of 44 bytes is too long.
    let mut data = [b'x'; 2 + 44 + 1 + 14];
    data[46] = 0;
    assert_eq!(
        DeviceInformation::from_bytes(&data),
        Err(CrsfParsingError::InvalidPayloadLength)
    );
}

#[test]
fn parameter_data_type_numbers() {
    assert_eq!(ParameterDataType::try_from(0x88), Ok(ParameterDataType::Float));
    assert_eq!(ParameterDataType::try_from(0x0F), Ok(ParameterDataType::Vtx));
    assert_eq!(ParameterDataType::try_from(0x7F), Ok(ParameterDataType::OutOfRange));
    assert_eq!(
        ParameterDataType::try_from(6),
        Err(CrsfParsingError::InvalidPayload)
    );
    assert_eq!(u8::from(ParameterDataType::Command), 13);
    assert_eq!(u8::from(ParameterDataType::Uint8), 0);
}

fn round_trip(entry: &ParameterSettingsEntry) -> ParameterSettingsEntry {
    let mut buffer = [0u8; 512];
    let len = entry.to_bytes(&mut buffer).unwrap();
    ParameterSettingsEntry::from_bytes(&buffer[..len]).unwrap()
}

#[test]
fn entry_round_trips_for_each_kind_of_data() {
    let base = |t: ParameterDataType| {
        ParameterSettingsEntry::new(0xEA, 0xEE, 3, 0, 1, u8::from(t), "Name").unwrap()
    };
    let mut children: Vec<u8, 32> = Vec::new();
    children.extend_from_slice(&[4, 5, 6]).unwrap();
    let cases = [
        base(ParameterDataType::Folder).add_data(ParameterData::Folder { children }),
        base(ParameterDataType::String).add_data(ParameterData::String {
            value: String::try_from("abc").unwrap(),
            max_length: 16,
        }),
        base(ParameterDataType::Command).add_data(ParameterData::Command {
            status: 1,
            timeout: 200,
            info: String::try_from("Binding").unwrap(),
        }),
        base(ParameterDataType::Vtx).add_data(ParameterData::Vtx {
            data: Vec::from_slice(&[1, 2, 3]).unwrap(),
        }),
        base(ParameterDataType::Info).add_data(ParameterData::Info {
            info: String::try_from("v3").unwrap(),
        }),
        base(ParameterDataType::Info),
    ];
    for entry in cases.iter() {
        assert_eq!(&round_trip(entry), entry);
    }
}

#[test]
fn entry_float_needs_room_for_its_terminator() {
    let entry = ParameterSettingsEntry::new(0xEA, 0xEE, 2, 0, 0, 8, "P")
        .unwrap()
        .add_data(ParameterData::Float {
            value: 1,
            min: 0,
            max: 2,
            default: 1,
            decimal_point: 0,
            step_size: 1,
            unit: String::try_from("mW").unwrap(),
        });
    // Header 6, name 2, then 21 fixed bytes and "mW\0".
    let mut exact = [0u8; 6 + 2 + 21 + 3];
    assert_eq!(entry.to_bytes(&mut exact), Ok(32));
    let mut short = [0u8; 31];
    assert_eq!(entry.to_bytes(&mut short), Err(CrsfParsingError::BufferOverflow));
}

#[test]
fn entry_errors() {
    // No terminator for the name.
    assert_eq!(
        ParameterSettingsEntry::from_bytes(&[0xEA, 0xEE, 1, 0, 0, 8, b'a', b'b']),
        Err(CrsfParsingError::InvalidPayload)
    );
    // A type number that names no type.
    assert_eq!(
        ParameterSettingsEntry::from_bytes(&[0xEA, 0xEE, 1, 0, 0, 6, b'a', 0]),
        Err(CrsfParsingError::InvalidPayload)
    );
    // A folder without its end marker.
    assert_eq!(
        ParameterSettingsEntry::from_bytes(&[0xEA, 0xEE, 1, 0, 0, 11, b'a', 0, 1, 2]),
        Err(CrsfParsingError::InvalidPayload)
    );
    // A float cut short.
    assert_eq!(
        ParameterSettingsEntry::from_bytes(&[0xEA, 0xEE, 1, 0, 0, 8, b'a', 0, 1, 2, 3]),
        Err(CrsfParsingError::InvalidPayloadLength)
    );
}

#[test]
fn entry_in_two_chunks_is_reassembled() {
    let long_info = "0123456789012345678901234567890123456789012345678901234567";
    let entry = ParameterSettingsEntry::new(0xEA, 0xEE, 9, 0, 0, 12, "Long")
        .unwrap()
        .add_data(ParameterData::Info {
            info: String::try_from(long_info).unwrap(),
        });
    let mut buffer = [0u8; 128];
    let len = entry.to_bytes(&mut buffer).unwrap();
    let pieces = &buffer[4..len];
    assert!(pieces.len() > 56);
    let first = ParameterChunk {
        dst_addr: 0xEA,
        src_addr: 0xEE,
        param_number: 9,
        chunks_remaining: 1,
        payload: Vec::from_slice(&pieces[..56]).unwrap(),
    };
    let second = ParameterChunk {
        dst_addr: 0xEA,
        src_addr: 0xEE,
        param_number: 9,
        chunks_remaining: 0,
        payload: Vec::from_slice(&pieces[56..]).unwrap(),
    };
    let mut reassembler = ParameterChunkReassembler::new();
    assert_eq!(reassembler.push(first), Ok(None));
    assert_eq!(reassembler.chunks_received(), 1);
    assert_eq!(reassembler.total_chunks(), 2);
    assert_eq!(reassembler.push(second), Ok(Some(entry)));
    assert!(reassembler.is_complete());
}

#[test]
fn chunk_copy_keeps_everything() {
    let chunk = ParameterChunk::from_bytes(&[1, 2, 3, 4, 5, 6]).unwrap();
    assert_eq!(chunk.copy(), chunk);
    assert_eq!(chunk.payload.as_slice(), &[5, 6]);
}

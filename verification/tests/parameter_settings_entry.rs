use heapless::{String, Vec};
use uf_crsf::packets::parameter_settings_entry::{
    MAX_CHUNKS, MAX_CHUNK_PAYLOAD_SIZE, MAX_OPTIONS, MAX_STRING_LEN,
};
use uf_crsf::packets::{
    CrsfPacket, ParameterChunk, ParameterChunkReassembler, ParameterData, ParameterDataType,
    ParameterSettingsEntry,
};
use uf_crsf::CrsfParsingError;

#[test]
fn test_parameter_settings_entry_float() {
    let unit_str = String::try_from("mW").unwrap();
    let data = ParameterData::Float {
        value: 2000,
        min: 0,
        max: 10000,
        default: 2000,
        decimal_point: 0,
        step_size: 100,
        unit: unit_str.clone(),
    };

    let entry = ParameterSettingsEntry::new(0xEA, 0xEE, 2, 0, 0, 0x08, "Power")
        .unwrap()
        .add_data(data);

    let mut buffer = [0u8; 64];
    let len = entry.to_bytes(&mut buffer).unwrap();

    let round_trip_entry = ParameterSettingsEntry::from_bytes(&buffer[..len]).unwrap();
    assert_eq!(round_trip_entry.dst_addr, 0xEA);
    assert_eq!(round_trip_entry.src_addr, 0xEE);
    assert_eq!(round_trip_entry.parameter_number, 2);
    assert_eq!(round_trip_entry.chunks_remaining, 0);
    assert_eq!(round_trip_entry.parent, 0);
    assert_eq!(round_trip_entry.name, "Power");
    assert!(!round_trip_entry.is_hidden());
    assert_eq!(
        round_trip_entry.get_data_type().unwrap(),
        ParameterDataType::Float
    );

    if let Some(ParameterData::Float {
        value,
        min,
        max,
        default,
        decimal_point,
        step_size,
        unit,
    }) = round_trip_entry.data
    {
        assert_eq!(value, 2000);
        assert_eq!(min, 0);
        assert_eq!(max, 10000);
        assert_eq!(default, 2000);
        assert_eq!(decimal_point, 0);
        assert_eq!(step_size, 100);
        assert_eq!(unit, unit_str);
    } else {
        panic!("Expected Float data");
    }
}

#[test]
fn test_parameter_settings_entry_hidden_flag() {
    let data = ParameterData::Info {
        info: String::try_from("Hidden parameter").unwrap(),
    };
    let entry = ParameterSettingsEntry::new(0xEA, 0xEE, 5, 0, 0, 0x8C, "Secret")
        .unwrap()
        .add_data(data); // 0x0C | 0x80

    let mut buffer = [0u8; 64];
    let len = entry.to_bytes(&mut buffer).unwrap();

    let round_trip_entry = ParameterSettingsEntry::from_bytes(&buffer[..len]).unwrap();
    assert_eq!(round_trip_entry.data_type, 0x8C);
    assert!(round_trip_entry.is_hidden());
    assert_eq!(
        round_trip_entry.get_data_type().unwrap(),
        ParameterDataType::Info
    );
}

#[test]
fn test_parameter_settings_entry_text_selection() {
    let options_str = String::try_from("250;500;1kHz").unwrap();
    let unit_str = String::try_from("Hz").unwrap();
    let data = ParameterData::TextSelection {
        options: options_str.clone(),
        value: 1,
        min: 0,
        max: 2,
        default: 1,
        unit: unit_str.clone(),
    };

    let entry = ParameterSettingsEntry::new(0xEA, 0xEE, 1, 0, 0, 0x09, "Rate")
        .unwrap()
        .add_data(data);

    let mut buffer = [0u8; 64];
    let len = entry.to_bytes(&mut buffer).unwrap();

    let round_trip_entry = ParameterSettingsEntry::from_bytes(&buffer[..len]).unwrap();
    assert_eq!(round_trip_entry.name, "Rate");

    if let Some(ParameterData::TextSelection {
        options,
        value,
        min,
        max,
        default,
        unit,
    }) = round_trip_entry.data
    {
        assert_eq!(options, options_str);
        assert_eq!(value, 1);
        assert_eq!(min, 0);
        assert_eq!(max, 2);
        assert_eq!(default, 1);
        assert_eq!(unit, unit_str);
    } else {
        panic!("Expected TextSelection data");
    }
}

#[test]
fn test_parameter_settings_entry_folder() {
    let mut children = Vec::new();
    children.push(1).unwrap();
    children.push(2).unwrap();
    children.push(3).unwrap();

    let data = ParameterData::Folder {
        children: children.clone(),
    };

    let entry = ParameterSettingsEntry::new(0xEA, 0xEE, 0, 0, 0, 0x0B, "ROOT")
        .unwrap()
        .add_data(data);

    let mut buffer = [0u8; 64];
    let len = entry.to_bytes(&mut buffer).unwrap();

    let round_trip_entry = ParameterSettingsEntry::from_bytes(&buffer[..len]).unwrap();
    assert_eq!(round_trip_entry.name, "ROOT");

    if let Some(ParameterData::Folder {
        children: rt_children,
    }) = round_trip_entry.data
    {
        assert_eq!(rt_children.len(), 3);
        assert_eq!(rt_children[0], 1);
        assert_eq!(rt_children[1], 2);
        assert_eq!(rt_children[2], 3);
    } else {
        panic!("Expected Folder data");
    }
}

#[test]
fn test_parameter_settings_entry_command() {
    let info_str = String::try_from("Binding...").unwrap();
    let data = ParameterData::Command {
        status: 2, // lcsExecuting
        timeout: 200,
        info: info_str.clone(),
    };

    let entry = ParameterSettingsEntry::new(0xEA, 0xEE, 10, 0, 0, 0x0D, "Bind")
        .unwrap()
        .add_data(data);

    let mut buffer = [0u8; 64];
    let len = entry.to_bytes(&mut buffer).unwrap();

    let round_trip_entry = ParameterSettingsEntry::from_bytes(&buffer[..len]).unwrap();
    assert_eq!(round_trip_entry.name, "Bind");

    if let Some(ParameterData::Command {
        status,
        timeout,
        info,
    }) = round_trip_entry.data
    {
        assert_eq!(status, 2);
        assert_eq!(timeout, 200);
        assert_eq!(info, info_str);
    } else {
        panic!("Expected Command data");
    }
}

#[test]
fn test_parameter_settings_entry_string() {
    let value_str = String::try_from("MyDevice").unwrap();
    let data = ParameterData::String {
        value: value_str.clone(),
        max_length: 16,
    };

    let entry = ParameterSettingsEntry::new(0xEA, 0xEE, 4, 0, 0, 0x0A, "Name")
        .unwrap()
        .add_data(data);

    let mut buffer = [0u8; 64];
    let len = entry.to_bytes(&mut buffer).unwrap();

    let round_trip_entry = ParameterSettingsEntry::from_bytes(&buffer[..len]).unwrap();
    assert_eq!(round_trip_entry.name, "Name");

    if let Some(ParameterData::String { value, max_length }) = round_trip_entry.data {
        assert_eq!(value, value_str);
        assert_eq!(max_length, 16);
    } else {
        panic!("Expected String data");
    }
}

#[test]
fn test_parameter_settings_entry_minimal() {
    // Only name, no data
    let entry = ParameterSettingsEntry::new(0xEA, 0xEE, 4, 0, 0, 0x08, "Test").unwrap();

    let mut buffer = [0u8; 64];
    let len = entry.to_bytes(&mut buffer).unwrap();

    let round_trip_entry = ParameterSettingsEntry::from_bytes(&buffer[..len]).unwrap();
    assert_eq!(round_trip_entry.parent, 0);
    assert_eq!(round_trip_entry.name, "Test");
    assert!(round_trip_entry.data.is_none());
}

#[test]
fn test_parameter_settings_entry_invalid_data_type() {
    // Test with valid parent and type but invalid name (no null terminator)
    let data: [u8; 7] = [0xEA, 0xEE, 0, 0, 0, 0xFF, 0xAA]; // Invalid type, no null-terminated name
    let result = ParameterSettingsEntry::from_bytes(&data);
    assert!(matches!(result, Err(CrsfParsingError::InvalidPayload)));
}

#[test]
fn test_parameter_data_type_from_u8() {
    assert_eq!(
        ParameterDataType::try_from(0x08).unwrap(),
        ParameterDataType::Float
    );
    assert_eq!(
        ParameterDataType::try_from(0x09).unwrap(),
        ParameterDataType::TextSelection
    );
    assert_eq!(
        ParameterDataType::try_from(0x0A).unwrap(),
        ParameterDataType::String
    );
    assert_eq!(
        ParameterDataType::try_from(0x0B).unwrap(),
        ParameterDataType::Folder
    );
    assert_eq!(
        ParameterDataType::try_from(0x0C).unwrap(),
        ParameterDataType::Info
    );
    assert_eq!(
        ParameterDataType::try_from(0x0D).unwrap(),
        ParameterDataType::Command
    );
}

#[test]
fn test_parameter_data_type_hidden_bit() {
    // 0x0C with hidden bit (0x80) set = 0x8C
    assert_eq!(
        ParameterDataType::try_from(0x8C).unwrap(),
        ParameterDataType::Info
    );
}

#[test]
fn test_parameter_settings_entry_from_bytes_too_short() {
    let data: [u8; 6] = [0xEA, 0xEE, 0, 0, 0, 0x08];
    let result = ParameterSettingsEntry::from_bytes(&data);
    assert!(matches!(
        result,
        Err(CrsfParsingError::InvalidPayloadLength)
    ));
}

#[test]
fn test_parameter_settings_entry_name_too_long() {
    let long_name = "This name is way too long and should fail validation";
    let result = ParameterSettingsEntry::new(0xEA, 0xEE, 0, 0, 0, 0x08, long_name);
    // With MAX_STRING_LEN = 128, this should now pass
    assert!(result.is_ok());
}

#[test]
fn test_parameter_data_type_vtx() {
    assert_eq!(
        ParameterDataType::try_from(0x0F).unwrap(),
        ParameterDataType::Vtx
    );
}

#[test]
fn test_parameter_settings_entry_vtx() {
    let mut vtx_data = Vec::new();
    vtx_data.push(0x01).unwrap();
    vtx_data.push(0x02).unwrap();
    vtx_data.push(0x03).unwrap();

    let data = ParameterData::Vtx {
        data: vtx_data.clone(),
    };

    let entry = ParameterSettingsEntry::new(0xEA, 0xEE, 12, 0, 0, 0x0F, "VTX Param")
        .unwrap()
        .add_data(data);

    let mut buffer = [0u8; 64];
    let len = entry.to_bytes(&mut buffer).unwrap();

    let round_trip_entry = ParameterSettingsEntry::from_bytes(&buffer[..len]).unwrap();
    assert_eq!(round_trip_entry.name, "VTX Param");
    assert!(!round_trip_entry.is_hidden());
    assert_eq!(
        round_trip_entry.get_data_type().unwrap(),
        ParameterDataType::Vtx
    );

    if let Some(ParameterData::Vtx { data }) = round_trip_entry.data {
        assert_eq!(data.len(), 3);
        assert_eq!(data.as_slice(), [0x01, 0x02, 0x03]);
    } else {
        panic!("Expected Vtx data");
    }
}

#[test]
fn test_parameter_settings_entry_vtx_with_hidden_flag() {
    let mut vtx_data = Vec::new();
    vtx_data.push(0xFF).unwrap();
    vtx_data.push(0xFE).unwrap();

    let data = ParameterData::Vtx {
        data: vtx_data.clone(),
    };

    let entry = ParameterSettingsEntry::new(0xEA, 0xEE, 12, 0, 0, 0x8F, "Hidden VTX")
        .unwrap()
        .add_data(data); // 0x0F | 0x80

    let mut buffer = [0u8; 64];
    let len = entry.to_bytes(&mut buffer).unwrap();

    let round_trip_entry = ParameterSettingsEntry::from_bytes(&buffer[..len]).unwrap();
    assert_eq!(round_trip_entry.data_type, 0x8F);
    assert!(round_trip_entry.is_hidden());
    assert_eq!(
        round_trip_entry.get_data_type().unwrap(),
        ParameterDataType::Vtx
    );
}

// -----------------------------------------------------------------------
// Chunked parameter parsing tests
// -----------------------------------------------------------------------

#[test]
fn test_parameter_chunk_single() {
    // A single-chunk parameter (no actual chunking needed)
    let data: [u8; 10] = [
        0xEA, 0xEE, // dst, src
        0x05, 0x00, // param_number=5, chunks_remaining=0
        0x00, // parent=0
        0x08, // data_type=Float
        0x50, 0x6F, 0x77, 0x00, // "Pow\0"
    ];
    let chunk = ParameterChunk::from_bytes(&data).unwrap();
    assert_eq!(chunk.dst_addr, 0xEA);
    assert_eq!(chunk.src_addr, 0xEE);
    assert_eq!(chunk.param_number, 5);
    assert_eq!(chunk.chunks_remaining, 0);
    assert_eq!(
        chunk.payload.as_slice(),
        &[0x00, 0x08, 0x50, 0x6F, 0x77, 0x00]
    );
}

#[test]
fn test_parameter_chunk_too_short() {
    let data: [u8; 3] = [0xEA, 0xEE, 0x05];
    let result = ParameterChunk::from_bytes(&data);
    assert!(matches!(
        result,
        Err(CrsfParsingError::InvalidPayloadLength)
    ));
}

#[test]
fn test_parameter_chunk_payload_overflow() {
    // Create a chunk with more than MAX_CHUNK_PAYLOAD_SIZE bytes of payload
    let mut data = Vec::<u8, 128>::new();
    data.push(0xEA).unwrap(); // dst
    data.push(0xEE).unwrap(); // src
    data.push(0x01).unwrap(); // param_number
    data.push(0x00).unwrap(); // chunks_remaining
                              // Fill payload with MAX_CHUNK_PAYLOAD_SIZE + 1 bytes
    for _ in 0..=MAX_CHUNK_PAYLOAD_SIZE {
        data.push(0xAA).unwrap();
    }
    let result = ParameterChunk::from_bytes(data.as_slice());
    assert!(matches!(
        result,
        Err(CrsfParsingError::InvalidPayloadLength)
    ));
}

#[test]
fn test_reassembler_idle_initial_state() {
    let reassembler = ParameterChunkReassembler::new();
    assert!(reassembler.is_idle());
    assert!(!reassembler.is_complete());
    assert_eq!(reassembler.chunks_received(), 0);
}

#[test]
fn test_reassembler_single_chunk_float() {
    // A complete Float parameter that fits in one chunk
    let mut reassembler = ParameterChunkReassembler::new();

    // Build a chunk payload: parent(0) + data_type(0x08) + "Test\0" + float data + "mW\0"
    let mut payload_buf = [0u8; 64];
    let entry = ParameterSettingsEntry::new(0xEA, 0xEE, 2, 0, 0, 0x08, "Test")
        .unwrap()
        .add_data(ParameterData::Float {
            value: 2000,
            min: 0,
            max: 10000,
            default: 2000,
            decimal_point: 0,
            step_size: 100,
            unit: String::try_from("mW").unwrap(),
        });
    let entry_len = entry.to_bytes(&mut payload_buf).unwrap();

    // Feed the full entry as a single chunk
    let chunk = ParameterChunk::from_bytes(&payload_buf[..entry_len]).unwrap();
    let result = reassembler.push(chunk).unwrap();

    assert!(result.is_some());
    let assembled = result.unwrap();
    assert_eq!(assembled.parameter_number, 2);
    assert_eq!(assembled.name, "Test");
    assert!(!assembled.is_hidden());
    assert_eq!(assembled.get_data_type().unwrap(), ParameterDataType::Float);
    if let Some(ParameterData::Float { value, unit, .. }) = &assembled.data {
        assert_eq!(*value, 2000);
        assert_eq!(*unit, "mW");
    } else {
        panic!("Expected Float data");
    }
    assert!(reassembler.is_complete());
    assert!(!reassembler.is_idle());
    assert_eq!(reassembler.chunks_received(), 1);
    assert_eq!(reassembler.total_chunks(), 1);
    assert_eq!(reassembler.param_number(), 2);
}

#[test]
fn test_reassembler_multi_chunk_text_selection() {
    // Create a TextSelection parameter large enough to need 2 chunks.
    // The entry payload must exceed MAX_CHUNK_PAYLOAD_SIZE (56).
    //
    // Entry layout: parent(1) + data_type(1) + name(N+1) + options(O+1) +
    //               value(1) + min(1) + max(1) + default(1) + unit(U+1)
    // We use a 50-char options string + null = 51 bytes, name="P" + null = 2 bytes,
    // unit="U" + null = 2 bytes.
    // Total = 1 + 1 + 2 + 51 + 4 + 2 = 61 bytes (overflows 56).

    // 50 'x' chars to make the entry payload overflow 56 bytes
    let options_body = "xxxxxxxxxxxxxxxxxxxxxxxxxxxxxxxxxxxxxxxxxxxxxxxxxx"; // 50 chars
    let options_str: String<MAX_OPTIONS> = String::try_from(options_body).unwrap();
    let unit_str: String<MAX_STRING_LEN> = String::try_from("U").unwrap();

    // Build full entry bytes
    let mut full_buf = [0u8; 128];
    let entry = ParameterSettingsEntry::new(0xEA, 0xEE, 3, 0, 0, 0x09, "P")
        .unwrap()
        .add_data(ParameterData::TextSelection {
            options: options_str.clone(),
            value: 1,
            min: 0,
            max: 50,
            default: 0,
            unit: unit_str.clone(),
        });
    let entry_len = entry.to_bytes(&mut full_buf).unwrap();

    // Verify it actually needs chunking
    let entry_payload_len = entry_len - 4; // minus dst/src/param/chunks header
    assert!(
        entry_payload_len > MAX_CHUNK_PAYLOAD_SIZE,
        "Test data must exceed chunk size ({} > {})",
        entry_payload_len,
        MAX_CHUNK_PAYLOAD_SIZE
    );

    // Split into two chunks
    // Chunk 0: 4-byte header (dst/src/param/chunks) + first MAX_CHUNK_PAYLOAD_SIZE entry bytes
    let chunk0_size = 4 + MAX_CHUNK_PAYLOAD_SIZE;
    let mut chunk0_data = [0u8; 64];
    chunk0_data[0..4].copy_from_slice(&full_buf[0..4]); // dst, src, param#, chunks_remaining
    chunk0_data[4..chunk0_size].copy_from_slice(&full_buf[4..chunk0_size]);
    chunk0_data[3] = 1; // chunks_remaining = 1 (1 more chunk after this)

    // Chunk 1: 4-byte header + remaining entry bytes
    let remaining = entry_len - chunk0_size;
    let chunk1_size = 4 + remaining;
    let mut chunk1_data = [0u8; 64];
    chunk1_data[0..4].copy_from_slice(&full_buf[0..4]); // dst, src, same param#
    chunk1_data[3] = 0; // chunks_remaining = 0 (last chunk)
    chunk1_data[4..chunk1_size].copy_from_slice(&full_buf[chunk0_size..entry_len]);

    // Reassemble
    let mut reassembler = ParameterChunkReassembler::new();
    let chunk0 = ParameterChunk::from_bytes(&chunk0_data[..chunk0_size]).unwrap();
    let result0 = reassembler.push(chunk0).unwrap();
    assert!(result0.is_none(), "Expected more chunks");
    assert!(!reassembler.is_complete());
    assert_eq!(reassembler.chunks_received(), 1);
    assert_eq!(reassembler.total_chunks(), 2);

    let chunk1 = ParameterChunk::from_bytes(&chunk1_data[..chunk1_size]).unwrap();
    let result1 = reassembler.push(chunk1).unwrap();
    assert!(result1.is_some(), "Expected completion");

    let assembled = result1.unwrap();
    assert_eq!(assembled.parameter_number, 3);
    assert_eq!(assembled.name, "P");
    assert_eq!(
        assembled.get_data_type().unwrap(),
        ParameterDataType::TextSelection
    );
    if let Some(ParameterData::TextSelection {
        options,
        value,
        min,
        max,
        default,
        unit,
    }) = &assembled.data
    {
        assert_eq!(*options, options_str);
        assert_eq!(*value, 1);
        assert_eq!(*min, 0);
        assert_eq!(*max, 50);
        assert_eq!(*default, 0);
        assert_eq!(*unit, unit_str);
    } else {
        panic!("Expected TextSelection data");
    }

    assert!(reassembler.is_complete());
    assert_eq!(reassembler.chunks_received(), 2);
}

#[test]
fn test_reassembler_auto_reset_on_new_parameter() {
    // Start assembling param 5, then receive param 6 before completion
    let mut reassembler = ParameterChunkReassembler::new();

    // Chunk 0 of param 5 (incomplete)
    let chunk5 = ParameterChunk {
        dst_addr: 0xEA,
        src_addr: 0xEE,
        param_number: 5,
        chunks_remaining: 1,
        payload: {
            let mut p: Vec<u8, MAX_CHUNK_PAYLOAD_SIZE> = Vec::new();
            p.push(0x00).unwrap(); // parent
            p.push(0x0C).unwrap(); // data_type = Info
            p.extend_from_slice(b"P5\0").unwrap(); // name
            p
        },
    };
    let r5 = reassembler.push(chunk5).unwrap();
    assert!(r5.is_none());
    assert_eq!(reassembler.param_number(), 5);
    assert_eq!(reassembler.chunks_received(), 1);

    // Now a single-chunk param 6 should auto-reset and complete
    let info_str: String<MAX_STRING_LEN> = String::try_from("Hello").unwrap();
    let mut buf = [0u8; 64];
    let entry6 = ParameterSettingsEntry::new(0xEA, 0xEE, 6, 0, 0, 0x0C, "P6")
        .unwrap()
        .add_data(ParameterData::Info { info: info_str });
    let len6 = entry6.to_bytes(&mut buf).unwrap();
    let chunk6 = ParameterChunk::from_bytes(&buf[..len6]).unwrap();
    let r6 = reassembler.push(chunk6).unwrap();

    assert!(r6.is_some());
    let assembled = r6.unwrap();
    assert_eq!(assembled.parameter_number, 6);
    assert_eq!(assembled.name, "P6");
    if let Some(ParameterData::Info { info }) = &assembled.data {
        assert_eq!(*info, "Hello");
    } else {
        panic!("Expected Info data");
    }
}

#[test]
fn test_reassembler_too_many_chunks() {
    // Push more than MAX_CHUNKS chunks without completion
    let mut reassembler = ParameterChunkReassembler::new();

    for i in 0..=MAX_CHUNKS {
        // u8 conversion is safe because MAX_CHUNKS <= 8
        let remaining = (MAX_CHUNKS - i) as u8;
        let chunk = ParameterChunk {
            dst_addr: 0xEA,
            src_addr: 0xEE,
            param_number: 1,
            chunks_remaining: remaining,
            payload: {
                let mut p: Vec<u8, MAX_CHUNK_PAYLOAD_SIZE> = Vec::new();
                p.push(0xAA).unwrap();
                // Fill to max but not beyond
                for _ in 1..MAX_CHUNK_PAYLOAD_SIZE {
                    let _ = p.push(0xAA);
                }
                p
            },
        };

        if i < MAX_CHUNKS {
            // Should accept
            let result = reassembler.push(chunk).unwrap();
            // Since chunks_remaining > 0 for first MAX_CHUNKS-1 pushes...
            if i < MAX_CHUNKS - 1 {
                assert!(result.is_none());
            }
        } else {
            // The MAX_CHUNKS-th chunk should overflow
            let result = reassembler.push(chunk);
            assert!(result.is_err());
            // After error, reassembler should be reset to idle
            assert!(reassembler.is_idle());
        }
    }
}

#[test]
fn test_reassembler_full_round_trip_via_entry() {
    // Verify reassembly produces the same result as a single-chunk from_bytes
    // by comparing a chunked-then-reassembled entry with a directly-parsed entry.

    let options_str: String<MAX_OPTIONS> =
        String::try_from("250;500;1kHz;2kHz;5kHz;10kHz;25kHz;50kHz;100kHz;200kHz").unwrap();
    let unit_str: String<MAX_STRING_LEN> = String::try_from("Hz").unwrap();

    // Build full entry
    let mut full_buf = [0u8; 128];
    let entry = ParameterSettingsEntry::new(0xEA, 0xEE, 7, 0, 0, 0x09, "Rate")
        .unwrap()
        .add_data(ParameterData::TextSelection {
            options: options_str.clone(),
            value: 2,
            min: 0,
            max: 9,
            default: 1,
            unit: unit_str.clone(),
        });
    let entry_len = entry.to_bytes(&mut full_buf).unwrap();

    // Direct parse (reference)
    let direct = ParameterSettingsEntry::from_bytes(&full_buf[..entry_len]).unwrap();

    // Now split into chunks and reassemble
    // Put the split point at 50 to ensure chunking
    let split = 4 + 50; // 4-byte header + 50 bytes of entry payload in chunk 0

    let mut chunk0_buf = [0u8; 64];
    chunk0_buf[0..4].copy_from_slice(&full_buf[0..4]);
    chunk0_buf[4..split].copy_from_slice(&full_buf[4..split]);
    chunk0_buf[3] = 1; // chunks_remaining = 1

    let remaining = entry_len - split;
    let mut chunk1_buf = [0u8; 64];
    chunk1_buf[0..4].copy_from_slice(&full_buf[0..4]);
    chunk1_buf[3] = 0; // last chunk
    chunk1_buf[4..4 + remaining].copy_from_slice(&full_buf[split..entry_len]);

    let mut reassembler = ParameterChunkReassembler::new();
    let c0 = ParameterChunk::from_bytes(&chunk0_buf[..split]).unwrap();
    assert!(reassembler.push(c0).unwrap().is_none());
    let c1 = ParameterChunk::from_bytes(&chunk1_buf[..4 + remaining]).unwrap();
    let result = reassembler.push(c1).unwrap();
    assert!(result.is_some());

    let chunked = result.unwrap();
    assert_eq!(
        direct, chunked,
        "Chunked reassembly must match direct parse"
    );
}

#[test]
fn test_reassembler_reset_mid_assembly() {
    let mut reassembler = ParameterChunkReassembler::new();
    assert!(reassembler.is_idle());

    // Push one chunk of a multi-chunk parameter
    let chunk = ParameterChunk {
        dst_addr: 0xEA,
        src_addr: 0xEE,
        param_number: 10,
        chunks_remaining: 2,
        payload: {
            let mut p: Vec<u8, MAX_CHUNK_PAYLOAD_SIZE> = Vec::new();
            p.push(0x00).unwrap();
            p.push(0x08).unwrap();
            p.extend_from_slice(b"ABC\0").unwrap();
            p
        },
    };
    reassembler.push(chunk).unwrap();
    assert!(!reassembler.is_idle());
    assert_eq!(reassembler.chunks_received(), 1);
    assert_eq!(reassembler.param_number(), 10);

    // Reset
    reassembler.reset();
    assert!(reassembler.is_idle());
    assert_eq!(reassembler.chunks_received(), 0);
    assert!(!reassembler.is_complete());

    // After reset, can start a new parameter
    let mut buf = [0u8; 64];
    let entry = ParameterSettingsEntry::new(0xEA, 0xEE, 20, 0, 0, 0x0C, "New")
        .unwrap()
        .add_data(ParameterData::Info {
            info: String::try_from("Fresh start").unwrap(),
        });
    let len = entry.to_bytes(&mut buf).unwrap();
    let new_chunk = ParameterChunk::from_bytes(&buf[..len]).unwrap();
    let result = reassembler.push(new_chunk).unwrap();
    assert!(result.is_some());
    assert_eq!(result.unwrap().parameter_number, 20);
}

#[test]
fn test_parameter_chunk_round_trip() {
    // Round-trip: data -> ParameterChunk -> to_bytes (if available)
    // ParameterChunk doesn't have to_bytes, but verify from_bytes -> fields consistency
    let raw: [u8; 10] = [
        0xEA, 0xEE, // dst, src
        0x0A, 0x03, // param_number=10, chunks_remaining=3
        0x01, 0x0B, 0x52, 0x4F, 0x4F, 0x54, // parent=1, data_type=Folder, "ROOT\0"
    ];
    let chunk = ParameterChunk::from_bytes(&raw).unwrap();
    assert_eq!(chunk.dst_addr, 0xEA);
    assert_eq!(chunk.src_addr, 0xEE);
    assert_eq!(chunk.param_number, 10);
    assert_eq!(chunk.chunks_remaining, 3);
    assert_eq!(
        chunk.payload.as_slice(),
        &[0x01, 0x0B, 0x52, 0x4F, 0x4F, 0x54]
    );
}

#[test]
fn test_parameter_chunk_zero_length_payload() {
    // A chunk with just the 4-byte header and no payload is valid
    let data: [u8; 4] = [0xEA, 0xEE, 0x01, 0x00];
    let chunk = ParameterChunk::from_bytes(&data).unwrap();
    assert!(chunk.payload.is_empty());
    assert_eq!(chunk.param_number, 1);
    assert_eq!(chunk.chunks_remaining, 0);
}

#[test]
fn test_parameter_chunk_reassembler_new_const() {
    let r = ParameterChunkReassembler::new();
    assert!(r.is_idle());
}

#[test]
fn test_reassembler_same_param_different_chunks() {
    // Two chunks for the same parameter arriving in sequence should work
    let mut reassembler = ParameterChunkReassembler::new();

    let chunk0 = ParameterChunk {
        dst_addr: 0xEA,
        src_addr: 0xEE,
        param_number: 5,
        chunks_remaining: 1,
        payload: {
            let mut p: Vec<u8, MAX_CHUNK_PAYLOAD_SIZE> = Vec::new();
            p.push(0x00).unwrap(); // parent
            p.push(0x0A).unwrap(); // data_type = String
            p.extend_from_slice(b"Name\0").unwrap(); // name
            p.extend_from_slice(b"Hello").unwrap(); // first part of value
            p
        },
    };

    let chunk1 = ParameterChunk {
        dst_addr: 0xEA,
        src_addr: 0xEE,
        param_number: 5,
        chunks_remaining: 0,
        payload: {
            let mut p: Vec<u8, MAX_CHUNK_PAYLOAD_SIZE> = Vec::new();
            p.extend_from_slice(b" World\0").unwrap(); // rest of value
            p.push(20).unwrap(); // max_length
            p
        },
    };

    assert!(reassembler.push(chunk0).unwrap().is_none());
    assert_eq!(reassembler.chunks_received(), 1);
    assert_eq!(reassembler.param_number(), 5);

    let result = reassembler.push(chunk1).unwrap();
    assert!(result.is_some());
    let entry = result.unwrap();
    assert_eq!(entry.parameter_number, 5);
    assert_eq!(entry.name, "Name");
    if let Some(ParameterData::String { value, max_length }) = &entry.data {
        assert_eq!(*value, "Hello World");
        assert_eq!(*max_length, 20);
    } else {
        panic!("Expected String data");
    }
    assert!(reassembler.is_complete());
}

#[test]
fn test_long_text_selection_options_over_128_chars() {
    // Real ELRS "Packet Rate" options exceed 128 bytes — ensure they parse without error.
    // Total options string is ~214 chars, well over the old MAX_OPTIONS=128 limit.
    let long_options =
        "D50Hz(-112dBm);25Hz(-123dBm);50Hz(-120dBm);100Hz(-117dBm);\
         100Hz Full(-112dBm);200Hz(-111dBm);200Hz(-111dBm);\
         200Hz Full(-111dBm);250Hz(-111dBm);K1000 Full(-101dBm)";
    assert!(
        long_options.len() > 128,
        "options must be longer than old limit to be a useful regression test"
    );
    let options_str = String::<MAX_OPTIONS>::try_from(long_options).unwrap();
    let unit_str = String::<MAX_STRING_LEN>::try_from("").unwrap();

    let entry = ParameterSettingsEntry::new(0xEA, 0xEE, 2, 0, 0, 0x09, "Packet Rate")
        .unwrap()
        .add_data(ParameterData::TextSelection {
            options: options_str,
            value: 9,
            min: 0,
            max: 9,
            default: 0,
            unit: unit_str,
        });

    let mut buf = [0u8; 512];
    let len = entry.to_bytes(&mut buf).unwrap();
    let parsed = ParameterSettingsEntry::from_bytes(&buf[..len]).unwrap();
    if let Some(ParameterData::TextSelection { options, value, .. }) = &parsed.data {
        assert_eq!(options.as_str(), long_options);
        assert_eq!(*value, 9);
    } else {
        panic!("Expected TextSelection data");
    }
}

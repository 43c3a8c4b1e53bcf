use uf_crsf::packets::{
    write_packet_to_buffer, CrsfPacket, DevicePing, LinkStatistics, Packet, PacketAddress,
    PacketType, ParameterWrite,
};
use uf_crsf::{CrsfParser, CrsfParsingError, CrsfStreamError, RawCrsfPacket};

fn link_stats() -> LinkStatistics {
    LinkStatistics {
        uplink_rssi_1: 16,
        uplink_rssi_2: 19,
        uplink_link_quality: 99,
        uplink_snr: -5,
        active_antenna: 1,
        rf_mode: 2,
        uplink_tx_power: 3,
        downlink_rssi: 8,
        downlink_link_quality: 88,
        downlink_snr: 7,
    }
}

fn collect(parser: &mut CrsfParser, bytes: &[u8]) -> Vec<Result<Packet, CrsfStreamError>> {
    let mut out = Vec::new();
    let mut it = parser.iter_packets(bytes);
    while let Some(r) = it.next() {
        out.push(r);
    }
    out
}

#[test]
fn frame_written_is_read_back_whole() {
    let mut buffer = [0u8; 64];
    let len =
        write_packet_to_buffer(&mut buffer, PacketAddress::FlightController, &link_stats()).unwrap();
    assert_eq!(len, 14);
    assert_eq!(buffer[0], 0xC8);
    assert_eq!(buffer[1], 12);
    assert_eq!(buffer[2], 0x14);

    let mut parser = CrsfParser::new();
    let results = collect(&mut parser, &buffer[..len]);
    assert_eq!(results, vec![Ok(Packet::LinkStatistics(link_stats()))]);

    // The parser is idle again: the same frame reads back a second time.
    let results = collect(&mut parser, &buffer[..len]);
    assert_eq!(results, vec![Ok(Packet::LinkStatistics(link_stats()))]);
}

#[test]
fn frame_checksum_is_crc8_dvb_s2() {
    // The frame check over type and payload of a known frame.
    let mut buffer = [0u8; 64];
    let ping = DevicePing::new(0x00, 0xEA).unwrap();
    let len = write_packet_to_buffer(&mut buffer, PacketAddress::Broadcast, &ping).unwrap();
    assert_eq!(&buffer[..len - 1], &[0x00, 0x04, 0x28, 0x00, 0xEA]);
    assert_eq!(buffer[len - 1], 0x54);
}

#[test]
fn frame_written_fails_on_small_buffer() {
    let mut buffer = [0u8; 13];
    assert_eq!(
        write_packet_to_buffer(&mut buffer, PacketAddress::FlightController, &link_stats()),
        Err(CrsfParsingError::BufferOverflow)
    );
}

#[test]
fn corrupted_crc_is_reported_and_parser_resynchronises() {
    let mut buffer = [0u8; 64];
    let len =
        write_packet_to_buffer(&mut buffer, PacketAddress::FlightController, &link_stats()).unwrap();
    let good_crc = buffer[len - 1];
    let mut bad = buffer[..len].to_vec();
    bad[len - 1] = good_crc ^ 0x01;

    let mut parser = CrsfParser::new();
    let results = collect(&mut parser, &bad);
    assert_eq!(
        results,
        vec![Err(CrsfStreamError::InvalidCrc {
            calculated_crc: good_crc,
            packet_crc: good_crc ^ 0x01
        })]
    );
    // A good frame right after is read.
    let results = collect(&mut parser, &buffer[..len]);
    assert_eq!(results, vec![Ok(Packet::LinkStatistics(link_stats()))]);
}

#[test]
fn byte_that_names_no_device_is_invalid_sync() {
    let mut parser = CrsfParser::new();
    assert_eq!(parser.push_byte_raw(0x01), Err(CrsfStreamError::InvalidSync(0x01)));
    assert_eq!(parser.push_byte(0x02), Err(CrsfStreamError::InvalidSync(0x02)));
}

#[test]
fn length_byte_out_of_range_is_invalid_packet_length() {
    let mut parser = CrsfParser::new();
    assert!(matches!(parser.push_byte_raw(0xC8), Ok(None)));
    assert_eq!(
        parser.push_byte_raw(1),
        Err(CrsfStreamError::InvalidPacketLength(1))
    );
    assert!(matches!(parser.push_byte_raw(0xC8), Ok(None)));
    // A length byte of 63 announces a 65-byte frame, beyond the largest.
    assert_eq!(
        parser.push_byte_raw(63),
        Err(CrsfStreamError::InvalidPacketLength(63))
    );
}

#[test]
fn largest_frame_is_accepted() {
    // Address, length 62, type, 60 payload bytes and the CRC: 64 bytes.
    let mut frame = [0u8; 64];
    frame[0] = 0xC8;
    frame[1] = 62;
    frame[2] = 0x7F;
    for (i, b) in frame[3..63].iter_mut().enumerate() {
        *b = i as u8;
    }
    frame[63] = crc::Crc::<u8>::new(&crc::CRC_8_DVB_S2).checksum(&frame[2..63]);
    let mut parser = CrsfParser::new();
    for &b in &frame[..63] {
        assert!(matches!(parser.push_byte_raw(b), Ok(None)));
    }
    let raw = parser.push_byte_raw(frame[63]).unwrap().unwrap();
    assert_eq!(raw.len(), 64);
    assert_eq!(raw.payload(), &frame[3..63]);
}

#[test]
fn raw_packet_accessors() {
    let bytes = [0xC8u8, 4, 0x28, 0x00, 0xEA, 0x54];
    let raw = RawCrsfPacket::new(&bytes).unwrap();
    assert_eq!(raw.dst_addr(), 0xC8);
    assert_eq!(raw.raw_packet_type(), 0x28);
    assert_eq!(raw.payload(), &[0x00, 0xEA]);
    assert_eq!(raw.crc(), 0x54);
    assert_eq!(raw.len(), 6);
    assert!(!raw.is_empty());
    assert!(RawCrsfPacket::new(&bytes[..3]).is_none());
}

#[test]
fn parse_reports_unknown_and_unimplemented_types() {
    // 0x01 is no frame type.
    let bytes = [0xC8u8, 3, 0x01, 0x00, 0x00];
    let raw = RawCrsfPacket::new(&bytes).unwrap();
    assert_eq!(
        Packet::parse(&raw),
        Err(CrsfParsingError::UnexpectedPacketType(0x01))
    );
    // 0x1E (attitude) is a frame type that is not decoded.
    let bytes = [0xC8u8, 3, 0x1E, 0x00, 0x00];
    let raw = RawCrsfPacket::new(&bytes).unwrap();
    assert_eq!(
        Packet::parse(&raw),
        Err(CrsfParsingError::PacketNotImlemented(0x1E))
    );
    // A device ping shorter than its two addresses.
    let bytes = [0xC8u8, 3, 0x28, 0x00, 0x00];
    let raw = RawCrsfPacket::new(&bytes).unwrap();
    assert_eq!(
        Packet::parse(&raw),
        Err(CrsfParsingError::InvalidPayloadLength)
    );
}

#[test]
fn parse_dispatches_parameter_write() {
    let write = ParameterWrite::new(0xEE, 0xEA, 7, &[1, 2, 3]).unwrap();
    let mut buffer = [0u8; 64];
    let len = write_packet_to_buffer(&mut buffer, PacketAddress::Transmitter, &write).unwrap();
    assert_eq!(buffer[2], u8::from(PacketType::ParameterWrite));
    let mut parser = CrsfParser::new();
    let results = collect(&mut parser, &buffer[..len]);
    assert_eq!(results, vec![Ok(Packet::ParameterWrite(write))]);
}

#[test]
fn packet_type_and_address_bytes_round_trip() {
    for b in 0u8..=255 {
        if let Ok(t) = PacketType::try_from(b) {
            assert_eq!(u8::from(t), b);
        }
        if let Ok(a) = PacketAddress::try_from(b) {
            assert_eq!(u8::from(a), b);
        }
    }
    assert_eq!(PacketAddress::try_from(0x01), Err(0x01));
    assert_eq!(u8::from(PacketType::LinkStatistics), 0x14);
}

#[test]
fn link_statistics_round_trip() {
    let mut buffer = [0u8; 10];
    assert_eq!(link_stats().to_bytes(&mut buffer), Ok(10));
    assert_eq!(LinkStatistics::from_bytes(&buffer), Ok(link_stats()));
}

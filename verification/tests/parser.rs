use uf_crsf::packets::{
    write_packet_to_buffer, CrsfPacket, LinkStatistics, Packet, PacketAddress, PacketType,
    RcChannelsPacked,
};
use uf_crsf::{CrsfParser, CrsfStreamError};

#[test]
fn test_construction() {
    let raw_bytes: [u8; 14] = [0xC8, 12, 0x14, 16, 19, 99, 151, 1, 2, 3, 8, 88, 148, 252];
    let mut parser = CrsfParser::new();

    for b in &raw_bytes[0..raw_bytes.len() - 1] {
        let result = parser.push_byte_raw(*b);
        assert!(matches!(result, Ok(None)));
    }

    let raw_packet_result = parser.push_byte_raw(raw_bytes[13]);
    let raw_packet = raw_packet_result
        .expect("Failed to get raw packet result")
        .expect("Expected a complete raw packet, but got None");

    assert_eq!(raw_packet.len(), raw_bytes.len());

    assert_eq!(raw_packet.payload().len(), LinkStatistics::MIN_PAYLOAD_SIZE);
    assert_eq!(
        raw_packet.raw_packet_type(),
        u8::from(PacketType::LinkStatistics)
    );

    let data = &raw_packet.payload();
    let ls = LinkStatistics::from_bytes(data).unwrap();
    let p = Packet::parse(&raw_packet).unwrap();
    assert_eq!(Packet::LinkStatistics(ls.clone()), p);

    assert_eq!(ls.uplink_rssi_1, 16);
}

#[test]
fn test_parsing() {
    let raw_bytes: [u8; 40] = [
        0xC8, 12, 0x14, 16, 19, 99, 151, 1, 2, 3, 8, 88, 148, 252, 0xC8, 24, 0x16, 0xE0, 0x03,
        0x1F, 0x58, 0xC0, 0x07, 0x16, 0xB0, 0x80, 0x05, 0x2C, 0x60, 0x01, 0x0B, 0xF8, 0xC0,
        0x07, 0x00, 0x00, 0x00, 0x00, 0x00, 103,
    ];
    let mut parser = CrsfParser::new();
    let mut results: std::vec::Vec<Result<Packet, CrsfStreamError>> = std::vec::Vec::new();
    let mut packets = parser.iter_packets(&raw_bytes);
    while let Some(r) = packets.next() {
        results.push(r);
    }

    let expected = [
        992, 992, 352, 992, 352, 352, 352, 352, 352, 352, 992, 992, 0, 0, 0, 0,
    ];
    assert_eq!(results.len(), 2);

    assert!(results[0].is_ok());
    assert!(results[1].is_ok());
    assert_eq!(
        Packet::RCChannels(RcChannelsPacked { channels: expected }),
        results[1].clone().ok().unwrap()
    );
}

#[test]
fn test_raw_to_full_packet_conversion() {
    let link_stats_packet = LinkStatistics {
        uplink_rssi_1: 16,
        uplink_rssi_2: 19,
        uplink_link_quality: 99,
        uplink_snr: 51 as i8,
        active_antenna: 1,
        rf_mode: 2,
        uplink_tx_power: 3,
        downlink_rssi: 8,
        downlink_link_quality: 88,
        downlink_snr: 48 as i8,
    };

    // Serialize it into a buffer
    let mut buffer = [0u8; 64];
    let bytes_written = write_packet_to_buffer(
        &mut buffer,
        PacketAddress::FlightController,
        &link_stats_packet,
    )
    .unwrap();
    let raw_bytes = &buffer[..bytes_written];

    let mut parser = CrsfParser::new();

    // 1. Parse raw bytes to get a RawCrsfPacket
    let mut raw_packet_result = Ok(None);
    for &byte in raw_bytes {
        raw_packet_result = parser.push_byte_raw(byte);
        if let Ok(Some(_)) = &raw_packet_result {
            break;
        }
    }
    let raw_packet = raw_packet_result
        .expect("Failed to get raw packet result")
        .expect("Expected a complete raw packet, but got None");

    let packet = Packet::parse(&raw_packet).expect("Failed to parse raw packet into a Packet");

    // Verify the resulting packet
    assert!(matches!(packet, Packet::LinkStatistics(_)));
    if let Packet::LinkStatistics(stats) = packet {
        assert_eq!(stats, link_stats_packet)
    }
}

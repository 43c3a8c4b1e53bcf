use uf_crsf::packets::{CrsfPacket, MspPacket};

#[test]
fn test_msp_packet_round_trip() {
    let body = [0x01, 0x02, 0x03];
    let packet = MspPacket::new(0xC8, 0xEA, 0x30, &body).unwrap(); // Start, version 1
    let mut buffer = [0u8; 64];
    let len = packet.to_bytes(&mut buffer).unwrap();
    assert_eq!(len, 6);
    let round_trip = MspPacket::from_bytes(&buffer[..len]).unwrap();
    assert_eq!(packet, round_trip);
    assert!(round_trip.is_start());
    assert_eq!(round_trip.version(), 1);
}

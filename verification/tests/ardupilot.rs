use uf_crsf::packets::{ArduPilotPassthrough, CrsfPacket};

#[test]
fn test_ardupilot_single_round_trip() {
    let packet = ArduPilotPassthrough::Single {
        appid: 0x1234,
        data: 0x567890AB,
    };
    let mut buffer = [0u8; 64];
    let len = packet.to_bytes(&mut buffer).unwrap();
    assert_eq!(len, 7);
    let round_trip = ArduPilotPassthrough::from_bytes(&buffer[..len]).unwrap();
    assert_eq!(packet, round_trip);
}

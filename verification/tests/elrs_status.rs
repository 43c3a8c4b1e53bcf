use uf_crsf::packets::{CrsfPacket, ElrsStatus};
use uf_crsf::CrsfParsingError;

#[test]
fn test_elrs_status_to_bytes() {
    let status = ElrsStatus::new(1000, 10, 0x01).unwrap();
    let mut buffer = [0u8; 5];
    let len = status.to_bytes(&mut buffer).unwrap();
    assert_eq!(len, 5);
    assert_eq!(buffer, [0x03, 0xE8, 0x00, 0x0A, 0x01]);
}

#[test]
fn test_elrs_status_from_bytes() {
    let data: [u8; 5] = [0x03, 0xE8, 0x00, 0x0A, 0x01];
    let status = ElrsStatus::from_bytes(&data).unwrap();
    assert_eq!(status.good_packets, 1000);
    assert_eq!(status.bad_packets, 10);
    assert_eq!(status.flags, 0x01);
}

#[test]
fn elrs_status_test_elrs_status_round_trip() {
    let status = ElrsStatus::new(500, 25, 0x80).unwrap();
    let mut buffer = [0u8; 5];
    let len = status.to_bytes(&mut buffer).unwrap();
    let round_trip_status = ElrsStatus::from_bytes(&buffer[..len]).unwrap();
    assert_eq!(status, round_trip_status);
}

#[test]
fn elrs_status_test_elrs_status_max_values() {
    let status = ElrsStatus::new(0xFFFF, 0xFFFF, 0xFF).unwrap();
    let mut buffer = [0u8; 5];
    status.to_bytes(&mut buffer).unwrap();
    let round_trip_status = ElrsStatus::from_bytes(&buffer).unwrap();
    assert_eq!(round_trip_status.good_packets, 0xFFFF);
    assert_eq!(round_trip_status.bad_packets, 0xFFFF);
    assert_eq!(round_trip_status.flags, 0xFF);
}

#[test]
fn elrs_status_test_elrs_status_from_bytes_too_short() {
    let data: [u8; 4] = [0x03, 0xE8, 0x00, 0x0A];
    let result = ElrsStatus::from_bytes(&data);
    assert!(matches!(
        result,
        Err(CrsfParsingError::InvalidPayloadLength)
    ));
}

#[test]
fn test_elrs_status_buffer_too_small() {
    let status = ElrsStatus::new(1000, 10, 0x01).unwrap();
    let mut buffer = [0u8; ElrsStatus::MIN_PAYLOAD_SIZE - 1];
    let result = status.to_bytes(&mut buffer);
    assert_eq!(result, Err(CrsfParsingError::BufferOverflow));
}

#[test]
fn test_elrs_status_from_bytes_with_extra_payload() {
    // Should ignore extra payload
    let data: [u8; 8] = [0x03, 0xE8, 0x00, 0x0A, 0x01, 0xFF, 0xFF, 0xFF];
    let status = ElrsStatus::from_bytes(&data).unwrap();
    assert_eq!(status.good_packets, 1000);
    assert_eq!(status.bad_packets, 10);
    assert_eq!(status.flags, 0x01);
}

#[test]
fn test_elrs_status_all_zeros() {
    let status = ElrsStatus::new(0, 0, 0).unwrap();
    let mut buffer = [0u8; 5];
    let len = status.to_bytes(&mut buffer).unwrap();
    let round_trip_status = ElrsStatus::from_bytes(&buffer[..len]).unwrap();
    assert_eq!(round_trip_status.good_packets, 0);
    assert_eq!(round_trip_status.bad_packets, 0);
    assert_eq!(round_trip_status.flags, 0);
}

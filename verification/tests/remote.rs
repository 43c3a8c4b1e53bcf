use uf_crsf::packets::{CrsfPacket, Remote, RemotePacket, RemotePayload, TimingCorrection};
use uf_crsf::CrsfParsingError;

#[test]
fn test_remote_new() {
    let packet = Remote::new(
        0xEA,
        0xEE,
        RemotePayload::TimingCorrection(TimingCorrection {
            update_interval: 50000,
            offset: -7,
        }),
    )
    .unwrap();
    assert_eq!(packet.dst_addr, 0xEA);
    assert_eq!(packet.src_addr, 0xEE);
    match packet.payload {
        RemotePayload::TimingCorrection(tc) => {
            assert_eq!(tc.update_interval, 50000);
            assert_eq!(tc.offset, -7);
        }
    }
}

#[test]
fn test_timing_correction_from_bytes() {
    // Full payload for a 0x3A packet
    let data: [u8; 11] = [
        0xEA, // dst_addr
        0xEE, // src_addr
        TimingCorrection::SUB_TYPE,
        0x00,
        0x00,
        0xC3,
        0x50, // update_interval = 50000
        0xFF,
        0xFF,
        0xFF,
        0xF9, // offset = -7
    ];
    let packet = Remote::from_bytes(&data).unwrap();
    assert_eq!(packet.dst_addr, 0xEA);
    assert_eq!(packet.src_addr, 0xEE);
    match packet.payload {
        RemotePayload::TimingCorrection(tc) => {
            assert_eq!(tc.update_interval, 50000);
            assert_eq!(tc.offset, -7);
        }
    }
}

#[test]
fn test_timing_correction_to_bytes() {
    let packet = Remote {
        dst_addr: 0xEA,
        src_addr: 0xEE,
        payload: RemotePayload::TimingCorrection(TimingCorrection {
            update_interval: 50000,
            offset: -7,
        }),
    };
    let mut buffer = [0u8; 11];
    let len = packet.to_bytes(&mut buffer).unwrap();
    assert_eq!(len, 11);
    let expected: [u8; 11] = [
        0xEA,
        0xEE,
        TimingCorrection::SUB_TYPE,
        0x00,
        0x00,
        0xC3,
        0x50,
        0xFF,
        0xFF,
        0xFF,
        0xF9,
    ];
    assert_eq!(buffer, expected);
}

#[test]
fn test_remote_round_trip() {
    let packet = Remote {
        dst_addr: 0xC8,
        src_addr: 0xEC,
        payload: RemotePayload::TimingCorrection(TimingCorrection {
            update_interval: 12345,
            offset: -6789,
        }),
    };
    let mut buffer = [0u8; 11];
    packet.to_bytes(&mut buffer).unwrap();
    let round_trip = Remote::from_bytes(&buffer).unwrap();
    assert_eq!(packet, round_trip);
}

#[test]
fn remote_test_from_bytes_invalid_len() {
    let data: [u8; 2] = [0; 2];
    let result = Remote::from_bytes(&data);
    assert!(matches!(
        result,
        Err(CrsfParsingError::InvalidPayloadLength)
    ));
}

#[test]
fn test_from_bytes_unknown_subtype() {
    let data: [u8; 11] = [0xEA, 0xEE, 0x11, 0, 0, 0, 0, 0, 0, 0, 0];
    let result = Remote::from_bytes(&data);
    assert!(matches!(result, Err(CrsfParsingError::InvalidPayload)));
}

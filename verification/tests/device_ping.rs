use uf_crsf::packets::{CrsfPacket, DevicePing};
use uf_crsf::CrsfParsingError;

#[test]
fn test_device_ping_new() {
    let ping = DevicePing::new(0xEA, 0xEE).unwrap();
    assert_eq!(ping.dst_addr, 0xEA);
    assert_eq!(ping.src_addr, 0xEE);
}

#[test]
fn test_parameter_ping_to_bytes() {
    let ping = DevicePing::new(0xEA, 0xEE).unwrap();
    let mut buffer = [0u8; 2];
    let len = ping.to_bytes(&mut buffer).unwrap();
    assert_eq!(len, 2);
    assert_eq!(buffer, [0xEA, 0xEE]);
}

#[test]
fn test_parameter_ping_from_bytes() {
    let data: [u8; 2] = [0xEA, 0xEE];
    let ping = DevicePing::from_bytes(&data).unwrap();
    assert_eq!(
        ping,
        DevicePing {
            dst_addr: 0xEA,
            src_addr: 0xEE
        }
    );
}

#[test]
fn test_parameter_ping_from_bytes_with_payload() {
    // Should ignore extra payload
    let data: [u8; 5] = [0xEA, 0xEE, 3, 4, 5];
    let ping = DevicePing::from_bytes(&data).unwrap();
    assert_eq!(
        ping,
        DevicePing {
            dst_addr: 0xEA,
            src_addr: 0xEE
        }
    );
}
#[test]
fn test_parameter_ping_buffer_too_small() {
    let ping = DevicePing {
        dst_addr: 0xEA,
        src_addr: 0xEE,
    };
    let mut buffer = [0u8; DevicePing::MIN_PAYLOAD_SIZE - 1];
    let result = ping.to_bytes(&mut buffer);
    assert_eq!(result, Err(CrsfParsingError::BufferOverflow));
}

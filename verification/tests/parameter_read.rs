use uf_crsf::packets::{CrsfPacket, ParameterRead};
use uf_crsf::CrsfParsingError;

#[test]
fn test_parameter_read_to_bytes() {
    let read = ParameterRead::new(0xEC, 0xEA, 4, 0).unwrap();
    let mut buffer = [0u8; 4];
    let len = read.to_bytes(&mut buffer).unwrap();
    assert_eq!(len, 4);
    assert_eq!(buffer, [0xEC, 0xEA, 4, 0]);
}

#[test]
fn test_parameter_read_from_bytes() {
    let data: [u8; 4] = [0xEC, 0xEA, 4, 0];
    let read = ParameterRead::from_bytes(&data).unwrap();
    assert_eq!(read.dst_addr, 0xEC);
    assert_eq!(read.src_addr, 0xEA);
    assert_eq!(read.parameter_number, 4);
    assert_eq!(read.chunk_number, 0);
}

#[test]
fn test_parameter_read_from_bytes_with_chunk() {
    let data: [u8; 4] = [0xEC, 0xEA, 10, 2];
    let read = ParameterRead::from_bytes(&data).unwrap();
    assert_eq!(read.parameter_number, 10);
    assert_eq!(read.chunk_number, 2);
}

#[test]
fn test_parameter_read_round_trip() {
    let read = ParameterRead::new(0xEC, 0xEA, 15, 3).unwrap();
    let mut buffer = [0u8; 4];
    read.to_bytes(&mut buffer).unwrap();
    let round_trip_read = ParameterRead::from_bytes(&buffer).unwrap();
    assert_eq!(read, round_trip_read);
}

#[test]
fn test_parameter_read_from_bytes_too_short() {
    let data: [u8; 3] = [0xEC, 0xEA, 4];
    let result = ParameterRead::from_bytes(&data);
    assert!(matches!(
        result,
        Err(CrsfParsingError::InvalidPayloadLength)
    ));
}

#[test]
fn test_parameter_read_buffer_too_small() {
    let read = ParameterRead::new(0xEC, 0xEA, 4, 0).unwrap();
    let mut buffer = [0u8; ParameterRead::MIN_PAYLOAD_SIZE - 1];
    let result = read.to_bytes(&mut buffer);
    assert_eq!(result, Err(CrsfParsingError::BufferOverflow));
}

#[test]
fn test_parameter_read_from_bytes_with_extra_payload() {
    // Should ignore extra payload
    let data: [u8; 6] = [0xEC, 0xEA, 4, 0, 1, 2];
    let read = ParameterRead::from_bytes(&data).unwrap();
    assert_eq!(read.parameter_number, 4);
    assert_eq!(read.chunk_number, 0);
}

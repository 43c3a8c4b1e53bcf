use uf_crsf::packets::{CrsfPacket, ParameterWrite};
use uf_crsf::CrsfParsingError;

#[test]
fn test_parameter_write_to_bytes_single_byte() {
    let write = ParameterWrite::new(0xEC, 0xEA, 4, &[2]).unwrap();
    let mut buffer = [0u8; 10];
    let len = write.to_bytes(&mut buffer).unwrap();
    assert_eq!(len, 4);
    assert_eq!(buffer[..4], [0xEC, 0xEA, 4, 2]);
}

#[test]
fn test_parameter_write_from_bytes_single_byte() {
    let data: [u8; 4] = [0xEC, 0xEA, 4, 2];
    let write = ParameterWrite::from_bytes(&data).unwrap();
    assert_eq!(write.dst_addr, 0xEC);
    assert_eq!(write.src_addr, 0xEA);
    assert_eq!(write.parameter_number, 4);
    assert_eq!(&*write.data, &[2]);
}

#[test]
fn test_parameter_write_to_bytes_multiple_bytes() {
    let write = ParameterWrite::new(0xEC, 0xEA, 10, &[0x00, 0x12, 0x34, 0x56]).unwrap();
    let mut buffer = [0u8; 10];
    let len = write.to_bytes(&mut buffer).unwrap();
    assert_eq!(len, 7);
    assert_eq!(buffer[..7], [0xEC, 0xEA, 10, 0x00, 0x12, 0x34, 0x56]);
}

#[test]
fn test_parameter_write_from_bytes_multiple_bytes() {
    let data: [u8; 7] = [0xEC, 0xEA, 10, 0x00, 0x12, 0x34, 0x56];
    let write = ParameterWrite::from_bytes(&data).unwrap();
    assert_eq!(write.parameter_number, 10);
    assert_eq!(&*write.data, &[0x00, 0x12, 0x34, 0x56]);
}

#[test]
fn test_parameter_write_round_trip() {
    let write = ParameterWrite::new(0xEC, 0xEA, 15, &[1, 2, 3, 4, 5]).unwrap();
    let mut buffer = [0u8; 32];
    let len = write.to_bytes(&mut buffer).unwrap();
    let round_trip_write = ParameterWrite::from_bytes(&buffer[..len]).unwrap();
    assert_eq!(write, round_trip_write);
}

#[test]
fn test_parameter_write_from_bytes_too_short() {
    let data: [u8; 2] = [0xEC, 0xEA];
    let result = ParameterWrite::from_bytes(&data);
    assert!(matches!(
        result,
        Err(CrsfParsingError::InvalidPayloadLength)
    ));
}

#[test]
fn test_parameter_write_buffer_too_small() {
    let write = ParameterWrite::new(0xEC, 0xEA, 4, &[1, 2, 3]).unwrap();
    let mut buffer = [0u8; 5]; // Needs 6 bytes total
    let result = write.to_bytes(&mut buffer);
    assert_eq!(result, Err(CrsfParsingError::BufferOverflow));
}

#[test]
fn test_parameter_write_new_data_too_large() {
    let large_data: [u8; 33] = [0; 33];
    let result = ParameterWrite::new(0xEC, 0xEA, 4, &large_data);
    assert!(matches!(
        result,
        Err(CrsfParsingError::InvalidPayloadLength)
    ));
}

#[test]
fn test_parameter_write_from_bytes_data_too_large() {
    let mut large_data: [u8; 37] = [0; 37];
    large_data[0] = 0xEC;
    large_data[1] = 0xEA;
    large_data[2] = 4;
    let result = ParameterWrite::from_bytes(&large_data);
    assert!(matches!(
        result,
        Err(CrsfParsingError::InvalidPayloadLength)
    ));
}

use uf_crsf::packets::{Battery, CrsfPacket};
use uf_crsf::CrsfParsingError;

#[test]
fn test_battery_new() {
    let battery = Battery::new(12345, -1000, 1234567, 75).unwrap();
    assert_eq!(battery.voltage, 12345);
    assert_eq!(battery.current, -1000);
    assert_eq!(battery.capacity_used, 1234567);
    assert_eq!(battery.remaining, 75);
}

#[test]
fn test_battery_to_bytes() {
    assert_eq!(Battery::MIN_PAYLOAD_SIZE, 8);
    let battery = Battery::new(12345, -1000, 1234567, 75).unwrap();

    let mut buffer = [0u8; Battery::MIN_PAYLOAD_SIZE];
    battery.to_bytes(&mut buffer).unwrap();

    let expected_bytes: [u8; Battery::MIN_PAYLOAD_SIZE] =
        [0x30, 0x39, 0xfc, 0x18, 0x12, 0xd6, 0x87, 0x4b];

    assert_eq!(buffer, expected_bytes);
}

#[test]
fn test_battery_from_bytes() {
    let data: [u8; Battery::MIN_PAYLOAD_SIZE] =
        [0x30, 0x39, 0xfc, 0x18, 0x12, 0xd6, 0x87, 0x4b];

    let battery = Battery::from_bytes(&data).unwrap();

    assert_eq!(
        battery,
        Battery {
            voltage: 12345,
            current: -1000,
            capacity_used: 1234567,
            remaining: 75,
        }
    );
}

#[test]
fn test_battery_round_trip() {
    let battery = Battery {
        voltage: 12345,
        current: -1000,
        capacity_used: 1234567,
        remaining: 75,
    };

    let mut buffer = [0u8; Battery::MIN_PAYLOAD_SIZE];
    battery.to_bytes(&mut buffer).unwrap();

    let round_trip_battery = Battery::from_bytes(&buffer).unwrap();

    assert_eq!(battery, round_trip_battery);
}

#[test]
fn battery_test_edge_cases() {
    let battery = Battery {
        voltage: -32768,
        current: 32767,
        capacity_used: 16777215, // Max 24-bit value
        remaining: 255,
    };

    let mut buffer = [0u8; Battery::MIN_PAYLOAD_SIZE];
    battery.to_bytes(&mut buffer).unwrap();
    let round_trip_battery = Battery::from_bytes(&buffer).unwrap();
    assert_eq!(battery, round_trip_battery);
}

#[test]
fn test_battery_to_bytes_buffer_too_small() {
    let battery = Battery {
        voltage: 12345,
        current: -1000,
        capacity_used: 1234567,
        remaining: 75,
    };

    let mut buffer = [0u8; 5];
    let result = battery.to_bytes(&mut buffer);
    assert_eq!(result, Err(CrsfParsingError::BufferOverflow));
}

#[test]
fn test_battery_from_bytes_invalide_size() {
    let data: [u8; 3] = [0x04; 3];
    let result = Battery::from_bytes(&data);
    assert_eq!(result, Err(CrsfParsingError::InvalidPayloadLength));
}

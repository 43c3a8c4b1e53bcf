use uf_crsf::packets::{write_packet_to_buffer, CrsfPacket, Gps, PacketAddress};
use uf_crsf::CrsfParsingError;

#[test]
fn test_gps_new() {
    let gps = Gps::new(1, 2, 3, 4, 5, 6).unwrap();
    assert_eq!(gps.latitude, 1);
    assert_eq!(gps.longitude, 2);
    assert_eq!(gps.groundspeed, 3);
    assert_eq!(gps.heading, 4);
    assert_eq!(gps.altitude, 5);
    assert_eq!(gps.satellites, 6);
}

#[test]
fn test_gps_from_bytes() {
    assert_eq!(Gps::MIN_PAYLOAD_SIZE, 15);
    let gps = Gps {
        latitude: 124108701,
        longitude: -276434195,
        groundspeed: 26,
        heading: 3500,
        altitude: 1050,
        satellites: 15,
    };
    let mut buffer = [0u8; 64];
    let len = write_packet_to_buffer(&mut buffer, PacketAddress::Broadcast, &gps).unwrap();
    let payload = &buffer[3..len - 1];
    let parsed_gps = Gps::from_bytes(payload).unwrap();
    assert_eq!(gps, parsed_gps);
}

#[test]
fn test_gps_to_bytes() {
    let gps = Gps {
        latitude: 124108701,
        longitude: -276434195,
        groundspeed: 26,
        heading: 3500,
        altitude: 1050,
        satellites: 15,
    };

    let mut buffer = [0u8; 15];
    let len = gps.to_bytes(&mut buffer).unwrap();

    let mut expected_buffer = [0u8; 64];
    let expected_len =
        write_packet_to_buffer(&mut expected_buffer, PacketAddress::Broadcast, &gps).unwrap();
    let expected_payload = &expected_buffer[3..expected_len - 1];

    assert_eq!(len, 15);
    assert_eq!(buffer, expected_payload);
}

#[test]
fn test_gps_round_trip() {
    let gps = Gps::new(525200000, 134050000, 5000, 18000, 1100, 12).unwrap();

    let mut buffer: [u8; 15] = [0; 15];
    gps.to_bytes(&mut buffer).unwrap();

    let parsed_gps = Gps::from_bytes(&buffer).unwrap();
    assert_eq!(gps, parsed_gps);
}

#[test]
fn gps_test_from_bytes_invalid_len() {
    let raw_bytes: [u8; 14] = [0; 14];
    let result = Gps::from_bytes(&raw_bytes);
    assert!(matches!(
        result,
        Err(CrsfParsingError::InvalidPayloadLength)
    ));
}

#[test]
fn gps_test_to_bytes_buffer_too_small() {
    let gps = Gps {
        latitude: 0,
        longitude: 0,
        groundspeed: 0,
        heading: 0,
        altitude: 0,
        satellites: 0,
    };
    let mut buffer: [u8; 14] = [0; 14];
    let result = gps.to_bytes(&mut buffer);
    assert!(matches!(result, Err(CrsfParsingError::BufferOverflow)));
}

#[test]
fn test_gps_from_hardware_bytes() {
    // Raw packet from hardware: [234, 17, 2, 0, 0, 0, 0, 0, 0, 0, 0, 0, 0, 0, 0, 3, 235, 0, 26]
    // Payload is the 15 bytes after the type.
    let payload: [u8; 15] = [0, 0, 0, 0, 0, 0, 0, 0, 0, 0, 0, 0, 3, 235, 0];
    let gps = Gps::from_bytes(&payload).unwrap();

    assert_eq!(gps.latitude, 0);
    assert_eq!(gps.longitude, 0);
    assert_eq!(gps.groundspeed, 0);
    assert_eq!(gps.heading, 0);
    assert_eq!(gps.altitude, 1003);
    assert_eq!(gps.satellites, 0);

    // Test round-trip
    let mut buffer: [u8; 15] = [0; 15];
    gps.to_bytes(&mut buffer).unwrap();
    assert_eq!(buffer, payload);
    let parsed_gps = Gps::from_bytes(&buffer).unwrap();
    assert_eq!(gps, parsed_gps);
}

// Altitude offset handling tests
#[test]
fn test_altitude_negative_below_sea_level() {
    // 500m below sea level
    let gps = Gps::from_components(0, 0, 0, 0, -500, 0).unwrap();
    assert_eq!(gps.altitude, 500); // raw value = -500 + 1000 = 500
    assert_eq!(gps.altitude_meters(), -500);
}

#[test]
fn test_altitude_sea_level() {
    // At sea level
    let gps = Gps::from_components(0, 0, 0, 0, 0, 0).unwrap();
    assert_eq!(gps.altitude, 1000); // raw value = 0 + 1000 = 1000
    assert_eq!(gps.altitude_meters(), 0);
}

#[test]
fn test_altitude_positive_above_sea_level() {
    // 1500m above sea level
    let gps = Gps::from_components(0, 0, 0, 0, 1500, 0).unwrap();
    assert_eq!(gps.altitude, 2500); // raw value = 1500 + 1000 = 2500
    assert_eq!(gps.altitude_meters(), 1500);
}

#[test]
fn test_altitude_minimum_boundary() {
    // Minimum representable altitude: -1000m
    let gps = Gps::from_components(0, 0, 0, 0, -1000, 0).unwrap();
    assert_eq!(gps.altitude, 0); // raw value = -1000 + 1000 = 0
    assert_eq!(gps.altitude_meters(), -1000);
}

#[test]
fn test_altitude_maximum_boundary() {
    // Maximum representable altitude: 64535m (u16::MAX - 1000)
    let gps = Gps::from_components(0, 0, 0, 0, 64535, 0).unwrap();
    assert_eq!(gps.altitude, 65535); // raw value = 64535 + 1000 = 65535
    assert_eq!(gps.altitude_meters(), 64535);
}

#[test]
fn test_altitude_too_low_error() {
    // Below minimum: -1001m should fail
    let result = Gps::from_components(0, 0, 0, 0, -1001, 0);
    assert!(matches!(result, Err(CrsfParsingError::InvalidPayload)));
}

#[test]
fn test_altitude_too_high_error() {
    // Above maximum: 64536m should fail
    let result = Gps::from_components(0, 0, 0, 0, 64536, 0);
    assert!(matches!(result, Err(CrsfParsingError::InvalidPayload)));
}

#[test]
fn test_set_altitude_meters() {
    let mut gps = Gps::new(0, 0, 0, 0, 0, 0).unwrap();

    // Set to sea level
    gps.set_altitude_meters(0).unwrap();
    assert_eq!(gps.altitude, 1000);

    // Set to 500m above
    gps.set_altitude_meters(500).unwrap();
    assert_eq!(gps.altitude, 1500);

    // Set to 200m below
    gps.set_altitude_meters(-200).unwrap();
    assert_eq!(gps.altitude, 800);
}

#[test]
fn test_set_altitude_meters_out_of_range() {
    let mut gps = Gps::new(0, 0, 0, 0, 0, 0).unwrap();

    // Too low
    assert!(matches!(
        gps.set_altitude_meters(-1001),
        Err(CrsfParsingError::InvalidPayload)
    ));

    // Too high
    assert!(matches!(
        gps.set_altitude_meters(64536),
        Err(CrsfParsingError::InvalidPayload)
    ));
}

#[test]
fn test_altitude_round_trip() {
    // Test that altitude_meters and from_components are inverse operations
    let test_altitudes = [
        -1000i32, // Minimum
        -500,     // Below sea level
        -1,       // Just below sea level
        0,        // Sea level
        1,        // Just above sea level
        500,      // Above sea level
        1000,     // 1km
        64535,    // Maximum
    ];

    for &alt in &test_altitudes {
        let gps = Gps::from_components(0, 0, 0, 0, alt, 0).unwrap();
        assert_eq!(
            gps.altitude_meters(),
            alt,
            "Altitude round-trip failed for {}m",
            alt
        );
    }
}

#[test]
fn test_hardware_altitude_with_offset() {
    // From test_gps_from_hardware_bytes: raw altitude = 1003
    // This should correspond to 3m above sea level
    let payload: [u8; 15] = [0, 0, 0, 0, 0, 0, 0, 0, 0, 0, 0, 0, 3, 235, 0];
    let gps = Gps::from_bytes(&payload).unwrap();

    assert_eq!(gps.altitude, 1003);
    assert_eq!(gps.altitude_meters(), 3); // 1003 - 1000 = 3m
}

use uf_crsf::packets::{write_packet_to_buffer, CrsfPacket, PacketAddress, RcChannelsPacked};
use uf_crsf::CrsfParsingError;

#[test]
fn test_rc_channels_from_hardware_bytes() {
    // This is the existing test, renamed
    let payload: [u8; 22] = [
        0x03, 0x1F, 0x58, 0xC0, 0x07, 0x16, 0xB0, 0x80, 0x05, 0x2C, 0x60, 0x01, 0x0B, 0xF8,
        0xC0, 0x07, 0x00, 0x00, 0x00, 0x00, 0x00, 252,
    ];
    let rc = RcChannelsPacked::from_bytes(&payload).unwrap();
    let mut buffer: [u8; 22] = [0; 22];
    let consumed = rc.to_bytes(&mut buffer).unwrap();
    assert_eq!(consumed, 22);
    assert_eq!(&buffer, &payload);
}

#[test]
fn test_rc_channels_packed_round_trip() {
    let channels = RcChannelsPacked {
        channels: [
            1000, 1001, 1002, 1003, 1500, 1501, 1502, 1503, 2000, 2001, 2002, 2003, 992, 100,
            500, 1900,
        ],
    };

    let mut buffer: [u8; 22] = [0; 22];
    channels.to_bytes(&mut buffer).unwrap();

    let parsed_channels = RcChannelsPacked::from_bytes(&buffer).unwrap();
    assert_eq!(channels, parsed_channels);
}

#[test]
fn rc_channels_packed_test_from_bytes_invalid_len() {
    let raw_bytes: [u8; 21] = [0; 21];
    let result = RcChannelsPacked::from_bytes(&raw_bytes);
    assert!(matches!(
        result,
        Err(CrsfParsingError::InvalidPayloadLength)
    ));
}

#[test]
fn rc_channels_packed_test_to_bytes_buffer_too_small() {
    let channels = RcChannelsPacked { channels: [0; 16] };
    let mut buffer: [u8; 21] = [0; 21];
    let result = channels.to_bytes(&mut buffer);
    assert!(matches!(result, Err(CrsfParsingError::BufferOverflow)));
}

#[test]
fn test_rc_channels_from_bytes() {
    assert_eq!(RcChannelsPacked::MIN_PAYLOAD_SIZE, 22);
    let channels = RcChannelsPacked {
        channels: [
            1000, 1001, 1002, 1003, 1500, 1501, 1502, 1503, 2000, 2001, 2002, 2003, 992, 100,
            500, 1900,
        ],
    };
    let mut buffer = [0u8; 64];
    let len = write_packet_to_buffer(&mut buffer, PacketAddress::Broadcast, &channels).unwrap();
    let payload = &buffer[3..len - 1];
    let parsed_channels = RcChannelsPacked::from_bytes(payload).unwrap();
    assert_eq!(channels, parsed_channels);
}

#[test]
fn test_rc_channels_to_bytes() {
    let channels = RcChannelsPacked {
        channels: [
            1000, 1001, 1002, 1003, 1500, 1501, 1502, 1503, 2000, 2001, 2002, 2003, 992, 100,
            500, 1900,
        ],
    };

    let mut buffer = [0u8; 22];
    let len = channels.to_bytes(&mut buffer).unwrap();

    let mut expected_buffer = [0u8; 64];
    let expected_len =
        write_packet_to_buffer(&mut expected_buffer, PacketAddress::Broadcast, &channels)
            .unwrap();
    let expected_payload = &expected_buffer[3..expected_len - 1];

    assert_eq!(len, 22);
    assert_eq!(buffer, expected_payload);
}

#[test]
fn test_ticks_to_us_center() {
    // Center position: 992 ticks = 1500µs
    assert_eq!(RcChannelsPacked::ticks_to_us(992), 1500);
}

#[test]
fn test_ticks_to_us_minimum() {
    // Minimum: 172 ticks = 988µs
    assert_eq!(RcChannelsPacked::ticks_to_us(172), 988);
}

#[test]
fn test_ticks_to_us_maximum() {
    // Maximum: 1811 ticks ≈ 2012µs (integer division may result in 2011)
    // (1811 - 992) * 5 / 8 + 1500 = 819 * 5 / 8 + 1500 = 4095 / 8 + 1500 = 511 + 1500 = 2011
    let us = RcChannelsPacked::ticks_to_us(1811);
    assert!(us >= 2011 && us <= 2012);
}

#[test]
fn test_us_to_ticks_center() {
    // Center position: 1500µs = 992 ticks
    assert_eq!(RcChannelsPacked::us_to_ticks(1500), 992);
}

#[test]
fn test_us_to_ticks_minimum() {
    // Minimum: 988µs ≈ 172 ticks (integer division may result in 173)
    // (988 - 1500) * 8 / 5 + 992 = -512 * 8 / 5 + 992 = -4096 / 5 + 992 = -819 + 992 = 173
    let ticks = RcChannelsPacked::us_to_ticks(988);
    assert!(ticks >= 172 && ticks <= 173);
}

#[test]
fn test_us_to_ticks_maximum() {
    // Maximum: 2012µs = 1811 ticks
    assert_eq!(RcChannelsPacked::us_to_ticks(2012), 1811);
}

#[test]
fn test_conversion_round_trip() {
    // Test that conversions are reversible
    let test_values = [
        1000, 1100, 1200, 1300, 1400, 1500, 1600, 1700, 1800, 1900, 2000,
    ];
    for &us in &test_values {
        let ticks = RcChannelsPacked::us_to_ticks(us);
        let back_to_us = RcChannelsPacked::ticks_to_us(ticks);
        // Allow for rounding errors (±1µs)
        assert!(
            (i32::from(back_to_us) - i32::from(us)).abs() <= 1,
            "Round-trip failed for {}µs: got {}µs",
            us,
            back_to_us
        );
    }
}

#[test]
fn test_conversion_constants() {
    // Verify the constants are correct
    assert_eq!(RcChannelsPacked::CENTER_TICKS, 992);
    assert_eq!(RcChannelsPacked::CENTER_US, 1500);
    assert_eq!(RcChannelsPacked::MIN_TICKS, 172);
    assert_eq!(RcChannelsPacked::MAX_TICKS, 1811);
    assert_eq!(RcChannelsPacked::MIN_US, 988);
    assert_eq!(RcChannelsPacked::MAX_US, 2012);
}

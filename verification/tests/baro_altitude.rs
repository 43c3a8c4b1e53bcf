use uf_crsf::packets::{BaroAltitude, CrsfPacket};
use uf_crsf::CrsfParsingError;

#[test]
fn test_baro_altitude_new() {
    let packet = BaroAltitude::new(12345, -50).unwrap();
    assert_eq!(packet.altitude_packed, 12345);
    assert_eq!(packet.vertical_speed_packed, -50);
}

#[test]
fn test_altitude_packing() {
    assert_eq!(BaroAltitude::get_altitude_packed(-10000), 0);
    assert_eq!(BaroAltitude::get_altitude_packed(22766), 32766);
    assert_eq!(BaroAltitude::get_altitude_packed(-10001), 0);
    assert_eq!(BaroAltitude::get_altitude_packed(327660), 0xfffe);
    assert_eq!(BaroAltitude::get_altitude_packed(0), 10000);
    assert_eq!(BaroAltitude::get_altitude_packed(22767), 0x7FFF);
}

#[test]
fn test_altitude_unpacking() {
    let baro_altitude_dm = BaroAltitude {
        altitude_packed: 0,
        vertical_speed_packed: 0,
    };
    assert_eq!(baro_altitude_dm.get_altitude_dm(), -10000);

    let baro_altitude_m = BaroAltitude {
        altitude_packed: 0x8000,
        vertical_speed_packed: 0,
    };
    assert_eq!(baro_altitude_m.get_altitude_dm(), 0);

    let baro_altitude_dm = BaroAltitude {
        altitude_packed: 10000,
        vertical_speed_packed: 0,
    };
    assert_eq!(baro_altitude_dm.get_altitude_dm(), 0);

    let baro_altitude_dm = BaroAltitude {
        altitude_packed: 0x7fff,
        vertical_speed_packed: 0,
    };
    assert_eq!(baro_altitude_dm.get_altitude_dm(), 22767);
}

#[test]
fn test_vertical_speed_packing() {
    assert_eq!(BaroAltitude::get_vertical_speed_packed(0), 0);
    assert_eq!(BaroAltitude::get_vertical_speed_packed(2500), 125);
    assert_eq!(BaroAltitude::get_vertical_speed_packed(-2500), -125);
}

#[test]
fn test_vertical_speed_unpacking() {
    let baro_altitude = BaroAltitude {
        altitude_packed: 0,
        vertical_speed_packed: 0,
    };
    assert_eq!(baro_altitude.get_vertical_speed_cm_s(), 0);

    let baro_altitude = BaroAltitude {
        altitude_packed: 0,
        vertical_speed_packed: 127,
    };
    assert_eq!(
        (baro_altitude.get_vertical_speed_cm_s() as f32).round(),
        2616.0
    );

    let baro_altitude = BaroAltitude {
        altitude_packed: 0,
        vertical_speed_packed: -127,
    };
    assert_eq!(
        (baro_altitude.get_vertical_speed_cm_s() as f32).round(),
        -2616.0
    );
}

#[test]
fn test_baro_altitude_to_bytes() {
    let baro_altitude = BaroAltitude {
        altitude_packed: 12345,
        vertical_speed_packed: -50,
    };

    let mut buffer = [0u8; BaroAltitude::MIN_PAYLOAD_SIZE];
    baro_altitude.to_bytes(&mut buffer).unwrap();

    let expected_bytes: [u8; BaroAltitude::MIN_PAYLOAD_SIZE] = [0x30, 0x39, 0xce];

    assert_eq!(buffer, expected_bytes);
}

#[test]
fn test_baro_altitude_from_bytes() {
    assert_eq!(BaroAltitude::MIN_PAYLOAD_SIZE, 3);
    let data: [u8; BaroAltitude::MIN_PAYLOAD_SIZE] = [0x30, 0x39, 0xce];

    let baro_altitude = BaroAltitude::from_bytes(&data).unwrap();

    assert_eq!(
        baro_altitude,
        BaroAltitude {
            altitude_packed: 12345,
            vertical_speed_packed: -50,
        }
    );
}

#[test]
fn test_baro_altitude_round_trip() {
    let baro_altitude = BaroAltitude {
        altitude_packed: 12345,
        vertical_speed_packed: -50,
    };

    let mut buffer = [0u8; BaroAltitude::MIN_PAYLOAD_SIZE];
    baro_altitude.to_bytes(&mut buffer).unwrap();

    let round_trip_baro_altitude = BaroAltitude::from_bytes(&buffer).unwrap();

    assert_eq!(baro_altitude, round_trip_baro_altitude);
}

#[test]
fn baro_altitude_test_edge_cases() {
    let baro_altitude = BaroAltitude {
        altitude_packed: 65535,
        vertical_speed_packed: -128,
    };

    let mut buffer = [0u8; BaroAltitude::MIN_PAYLOAD_SIZE];
    baro_altitude.to_bytes(&mut buffer).unwrap();
    let round_trip_baro_altitude = BaroAltitude::from_bytes(&buffer).unwrap();
    assert_eq!(baro_altitude, round_trip_baro_altitude);
}

#[test]
fn test_baro_altitude_to_bytes_buffer_too_small() {
    let baro_altitude = BaroAltitude {
        altitude_packed: 12345,
        vertical_speed_packed: -50,
    };
    let mut buffer = [0u8; 2];
    let result = baro_altitude.to_bytes(&mut buffer);
    assert_eq!(result, Err(CrsfParsingError::BufferOverflow));
}

#[test]
fn test_baro_altitude_from_bytes_invalide_size() {
    let data: [u8; 1] = [0x04];
    let result = BaroAltitude::from_bytes(&data);
    assert_eq!(result, Err(CrsfParsingError::InvalidPayloadLength));
}

#[test]
fn vertical_speed_of_i16_min_saturates() {
    assert_eq!(BaroAltitude::get_vertical_speed_packed(i16::MIN), -127);
    assert_eq!(BaroAltitude::get_vertical_speed_packed(i16::MAX), 127);
    assert_eq!(BaroAltitude::get_vertical_speed_packed(-i16::MAX), -127);
}

#[test]
fn vertical_speed_decode_then_encode_is_identity() {
    for p in -127i8..=127 {
        let b = BaroAltitude {
            altitude_packed: 0,
            vertical_speed_packed: p,
        };
        assert_eq!(BaroAltitude::get_vertical_speed_packed(b.get_vertical_speed_cm_s()), p);
    }
}

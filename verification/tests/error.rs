use uf_crsf::{CrsfParsingError, CrsfStreamError};

#[test]
fn test_error_display() {
    let parsing_err = CrsfParsingError::UnexpectedPacketType(0x10);
    let stream_err = CrsfStreamError::from(parsing_err);
    assert!(matches!(stream_err, CrsfStreamError::ParsingError(_)));
}

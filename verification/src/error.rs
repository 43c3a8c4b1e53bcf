//! Errors of payload parsing and of stream framing.
use vstd::prelude::*;

verus! {

#[verifier::external_type_specification]
#[verifier::external_body]
pub struct ExIoErrorKind(embedded_io::ErrorKind);

/// Errors met when a payload is turned into a typed packet, or a typed packet
/// into payload bytes.
#[derive(Debug, Clone, Copy, PartialEq, Eq, Structural)]
pub enum CrsfParsingError {
    /// The type byte is not a packet type of the protocol.
    UnexpectedPacketType(u8),
    /// The type byte is a packet type this library does not decode.
    PacketNotImlemented(u8),
    /// The payload is shorter or longer than its packet type allows.
    InvalidPayloadLength,
    /// The payload has the right length but holds a value that is not allowed.
    InvalidPayload,
    /// The output buffer is too small for the encoded packet.
    BufferOverflow,
}

/// Errors met while frames are read from a byte stream.
#[derive(Debug, Clone, Copy, PartialEq, Eq)]
pub enum CrsfStreamError {
    /// The length byte announces a frame outside the allowed sizes.
    InvalidPacketLength(u8),
    /// The byte is not a device address, so no frame can start with it.
    InvalidSync(u8),
    /// The frame check failed.
    InvalidCrc { calculated_crc: u8, packet_crc: u8 },
    /// The type byte does not fit the context.
    UnexpectedPacketType(u8),
    /// The frame was sound, its payload could not be decoded.
    ParsingError(CrsfParsingError),
    /// A reader's input buffer could not take more bytes.
    InputBufferTooSmall,
    /// The underlying reader or writer failed.
    Io(embedded_io::ErrorKind),
    /// The underlying reader reported end of input inside a frame.
    UnexpectedEof,
}

impl From<CrsfParsingError> for CrsfStreamError {
    fn from(e: CrsfParsingError) -> (r: Self) {
        CrsfStreamError::ParsingError(e)
    }
}

impl vstd::std_specs::convert::FromSpecImpl<CrsfParsingError> for CrsfStreamError {
    open spec fn obeys_from_spec() -> bool {
        true
    }

    open spec fn from_spec(e: CrsfParsingError) -> Self {
        CrsfStreamError::ParsingError(e)
    }
}

} // verus!

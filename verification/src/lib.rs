//! Parsing and building of TBS Crossfire (CRSF) frames.
pub mod checksum;
pub mod constants;
pub mod device;
pub mod error;
pub mod fixed;
pub mod packets;
pub mod parser;
pub mod stream;
pub mod text;

pub use error::{CrsfParsingError, CrsfStreamError};
pub use packets::{write_packet_to_buffer, Packet, PacketAddress, PacketType};
pub use parser::{CrsfParser, RawCrsfPacket};

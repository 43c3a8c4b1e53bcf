//! Link statistics (frame type 0x14).
use vstd::prelude::*;

use crate::packets::wire::{lemma_i8_cast, splice};
use crate::packets::{CrsfPacket, PacketType};
use crate::CrsfParsingError;

verus! {

/// Quality of the radio link in both directions.
#[derive(Clone, Debug, PartialEq, Eq, Structural)]
pub struct LinkStatistics {
    /// Uplink RSSI of antenna 1, in dBm negated.
    pub uplink_rssi_1: u8,
    /// Uplink RSSI of antenna 2, in dBm negated.
    pub uplink_rssi_2: u8,
    /// Uplink packet success rate, in percent.
    pub uplink_link_quality: u8,
    /// Uplink signal to noise ratio, in dB.
    pub uplink_snr: i8,
    /// The antenna in use.
    pub active_antenna: u8,
    /// The RF mode.
    pub rf_mode: u8,
    /// Uplink transmit power index.
    pub uplink_tx_power: u8,
    /// Downlink RSSI, in dBm negated.
    pub downlink_rssi: u8,
    /// Downlink packet success rate, in percent.
    pub downlink_link_quality: u8,
    /// Downlink signal to noise ratio, in dB.
    pub downlink_snr: i8,
}

impl View for LinkStatistics {
    type V = LinkStatistics;

    open spec fn view(&self) -> LinkStatistics {
        *self
    }
}

impl CrsfPacket for LinkStatistics {
    const PACKET_TYPE: PacketType = PacketType::LinkStatistics;
    const MIN_PAYLOAD_SIZE: usize = 10;

    open spec fn spec_to_bytes(&self) -> Seq<u8> {
        seq![
            self.uplink_rssi_1,
            self.uplink_rssi_2,
            self.uplink_link_quality,
            self.uplink_snr as u8,
            self.active_antenna,
            self.rf_mode,
            self.uplink_tx_power,
            self.downlink_rssi,
            self.downlink_link_quality,
            self.downlink_snr as u8,
        ]
    }

    /// One byte per field, in field order; bytes after them are ignored.
    open spec fn spec_from_bytes(data: Seq<u8>) -> Result<Self, CrsfParsingError> {
        if data.len() < 10 {
            Err(CrsfParsingError::InvalidPayloadLength)
        } else {
            Ok(
                LinkStatistics {
                    uplink_rssi_1: data[0],
                    uplink_rssi_2: data[1],
                    uplink_link_quality: data[2],
                    uplink_snr: data[3] as i8,
                    active_antenna: data[4],
                    rf_mode: data[5],
                    uplink_tx_power: data[6],
                    downlink_rssi: data[7],
                    downlink_link_quality: data[8],
                    downlink_snr: data[9] as i8,
                },
            )
        }
    }

    open spec fn payload_readable(data: Seq<u8>) -> bool {
        true
    }

    fn to_bytes(&self, buffer: &mut [u8]) -> (r: Result<usize, CrsfParsingError>)
        ensures
            r is Err ==> final(buffer)@ == old(buffer)@,
    {
        self.validate_buffer_size(buffer)?;
        buffer[0] = self.uplink_rssi_1;
        buffer[1] = self.uplink_rssi_2;
        buffer[2] = self.uplink_link_quality;
        buffer[3] = self.uplink_snr as u8;
        buffer[4] = self.active_antenna;
        buffer[5] = self.rf_mode;
        buffer[6] = self.uplink_tx_power;
        buffer[7] = self.downlink_rssi;
        buffer[8] = self.downlink_link_quality;
        buffer[9] = self.downlink_snr as u8;
        assert(buffer@ =~= splice(old(buffer)@, 0, self.spec_to_bytes()));
        Ok(Self::MIN_PAYLOAD_SIZE)
    }

    fn from_bytes(data: &[u8]) -> (r: Result<Self, CrsfParsingError>) {
        if data.len() < Self::MIN_PAYLOAD_SIZE {
            return Err(CrsfParsingError::InvalidPayloadLength);
        }
        Ok(
            Self {
                uplink_rssi_1: data[0],
                uplink_rssi_2: data[1],
                uplink_link_quality: data[2],
                uplink_snr: data[3] as i8,
                active_antenna: data[4],
                rf_mode: data[5],
                uplink_tx_power: data[6],
                downlink_rssi: data[7],
                downlink_link_quality: data[8],
                downlink_snr: data[9] as i8,
            },
        )
    }
}

/// Decoding the bytes of link statistics gives them back.
pub proof fn lemma_link_statistics_round_trip(p: LinkStatistics)
    ensures
        LinkStatistics::spec_from_bytes(p.spec_to_bytes()) == Ok::<LinkStatistics, CrsfParsingError>(p),
{
    lemma_i8_cast(p.uplink_snr);
    lemma_i8_cast(p.downlink_snr);
}

/// Link statistics travel as frame type 0x14.
pub proof fn lemma_link_statistics_packet_type()
    ensures
        LinkStatistics::PACKET_TYPE == PacketType::LinkStatistics,
{
}

/// The link statistics layout, one byte per field in the order of the CRSF
/// structure: uplink RSSI of antennas 1 and 2, uplink link quality, uplink
/// SNR, active antenna, RF mode, uplink power, downlink RSSI, downlink link
/// quality, downlink SNR (the SNRs as two's complement bytes). Every payload
/// of at least 10 bytes is read that way, and a packet is written that way.
pub proof fn lemma_link_statistics_layout(d: Seq<u8>, p: LinkStatistics)
    ensures
        d.len() >= 10 ==> (LinkStatistics::spec_from_bytes(d) matches Ok(v) && v.uplink_rssi_1 == d[0]
            && v.uplink_rssi_2 == d[1] && v.uplink_link_quality == d[2] && v.uplink_snr as u8 == d[3]
            && v.active_antenna == d[4] && v.rf_mode == d[5] && v.uplink_tx_power == d[6] && v.downlink_rssi
            == d[7] && v.downlink_link_quality == d[8] && v.downlink_snr as u8 == d[9]),
        d.len() < 10 ==> LinkStatistics::spec_from_bytes(d) is Err,
        ({
            let w = p.spec_to_bytes();
            &&& w.len() == 10
            &&& w[0] == p.uplink_rssi_1
            &&& w[1] == p.uplink_rssi_2
            &&& w[2] == p.uplink_link_quality
            &&& w[3] as i8 == p.uplink_snr
            &&& w[4] == p.active_antenna
            &&& w[5] == p.rf_mode
            &&& w[6] == p.uplink_tx_power
            &&& w[7] == p.downlink_rssi
            &&& w[8] == p.downlink_link_quality
            &&& w[9] as i8 == p.downlink_snr
        }),
{
    lemma_i8_cast(p.uplink_snr);
    lemma_i8_cast(p.downlink_snr);
    if d.len() >= 10 {
        let b3 = d[3];
        let b9 = d[9];
        assert((b3 as i8) as u8 == b3) by (bit_vector);
        assert((b9 as i8) as u8 == b9) by (bit_vector);
    }
}

} // verus!

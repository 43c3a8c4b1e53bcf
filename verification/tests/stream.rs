use uf_crsf::packets::{write_packet_to_buffer, DevicePing, Packet, PacketAddress};
use uf_crsf::stream::StreamDecoder;
use uf_crsf::CrsfStreamError;

#[test]
fn decoder_gives_packets_in_order() {
    let ping_a = DevicePing::new(0x00, 0xEA).unwrap();
    let ping_b = DevicePing::new(0x00, 0xEE).unwrap();
    let mut buffer = [0u8; 64];
    let len_a = write_packet_to_buffer(&mut buffer, PacketAddress::Broadcast, &ping_a).unwrap();
    let mut bytes = buffer[..len_a].to_vec();
    let len_b = write_packet_to_buffer(&mut buffer, PacketAddress::Broadcast, &ping_b).unwrap();
    bytes.extend_from_slice(&buffer[..len_b]);

    let mut decoder = StreamDecoder::new();
    assert_eq!(decoder.decode_buffered(), Ok(None));
    // Half a frame first: nothing yet.
    decoder.buffer_bytes(&bytes[..3]).unwrap();
    assert_eq!(decoder.decode_buffered(), Ok(None));
    decoder.buffer_bytes(&bytes[3..]).unwrap();
    assert_eq!(decoder.decode_buffered(), Ok(Some(Packet::DevicePing(ping_a))));
    assert_eq!(decoder.decode_buffered(), Ok(Some(Packet::DevicePing(ping_b))));
    assert_eq!(decoder.decode_buffered(), Ok(None));
}

#[test]
fn decoder_reports_a_full_buffer() {
    let mut decoder = StreamDecoder::new();
    let bytes = [0x01u8; 129];
    assert_eq!(
        decoder.buffer_bytes(&bytes),
        Err(CrsfStreamError::InputBufferTooSmall)
    );
    // The 128 bytes that fitted are decoded: each is a bad sync byte.
    let mut errors = 0;
    while let Err(e) = decoder.decode_buffered() {
        assert_eq!(e, CrsfStreamError::InvalidSync(0x01));
        errors += 1;
    }
    assert_eq!(errors, 128);
}

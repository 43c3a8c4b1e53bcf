use uf_crsf::device::{DeviceManager, DeviceManagerConfig};
use uf_crsf::packets::{
    DeviceInformation, Packet, PacketAddress, ParameterChunk, ParameterChunkReassembler,
    ParameterSettingsEntry,
};

fn manager_with_transmitter(total: u8) -> DeviceManager {
    let mut manager = DeviceManager::default();
    let info = DeviceInformation::new(0xEA, 0xEE, "TX", 1, 2, 3, total, 1).unwrap();
    manager.handle_packet(&Packet::DeviceInformation(info));
    manager
}

#[test]
fn ping_respects_its_interval() {
    let mut manager = DeviceManager::default().with_address(PacketAddress::Handset);
    assert!(manager.send_device_ping().is_none());
    manager.update_time(1000);
    let ping = manager.send_device_ping().unwrap();
    assert_eq!(ping.as_slice(), &[0x00, 0x04, 0x28, 0x00, 0xEA, 0x54]);
    manager.update_time(1999);
    assert!(manager.send_device_ping().is_none());
    manager.update_time(2000);
    assert!(manager.send_device_ping().is_some());
}

#[test]
fn ping_off_when_interval_is_zero() {
    let mut manager = DeviceManager::new(DeviceManagerConfig {
        timeout_ms: 500,
        retry_count: 3,
        device_ping_interval_ms: 0,
    });
    manager.update_time(100_000);
    assert!(manager.send_device_ping().is_none());
}

#[test]
fn requests_need_a_known_device() {
    let mut manager = DeviceManager::default();
    assert!(manager
        .request_parameter(PacketAddress::Transmitter, 1, 0)
        .is_none());
    assert!(manager
        .write_parameter(PacketAddress::Transmitter, 1, &[1])
        .is_none());
    assert!(manager
        .request_all_parameters(PacketAddress::Transmitter)
        .is_none());
    assert!(manager.pending_requests().is_empty());
}

#[test]
fn write_parameter_frame_and_limit() {
    let mut manager = manager_with_transmitter(3);
    let frame = manager
        .write_parameter(PacketAddress::Transmitter, 5, &[2])
        .unwrap();
    assert_eq!(&frame.as_slice()[..7], &[0xEE, 0x06, 0x2D, 0xEE, 0xEA, 5, 2]);
    assert_eq!(frame.len(), 8);
    assert!(manager
        .write_parameter(PacketAddress::Transmitter, 5, &[0u8; 33])
        .is_none());
    assert!(manager.pending_requests().is_empty());
}

#[test]
fn request_all_parameters_asks_for_the_first_unread() {
    let mut manager = manager_with_transmitter(3);
    let frame = manager
        .request_all_parameters(PacketAddress::Transmitter)
        .unwrap();
    assert_eq!(&frame.as_slice()[..7], &[0xEE, 0x06, 0x2C, 0xEE, 0xEA, 0, 0]);
    assert_eq!(manager.pending_requests().len(), 1);
    // The same request already awaits its answer: nothing new is queued.
    assert!(manager
        .request_all_parameters(PacketAddress::Transmitter)
        .is_none());
    assert_eq!(manager.pending_requests().len(), 1);
}

#[test]
fn timed_out_requests_are_retried_then_dropped() {
    let mut manager = manager_with_transmitter(3);
    manager
        .request_parameter(PacketAddress::Transmitter, 1, 0)
        .unwrap();
    manager.update_time(499);
    assert!(manager.process_timeouts().is_empty());
    manager.update_time(500);
    let retries = manager.process_timeouts();
    assert_eq!(retries.len(), 1);
    assert_eq!(manager.pending_requests()[0].retries, 1);
    assert_eq!(manager.pending_requests()[0].timestamp, 500);
    // A retry sends the frame again without recording a second request.
    assert_eq!(manager.pending_requests().len(), 1);

    manager.update_time(10_000);
    let mut rounds = 0;
    while !manager.pending_requests().is_empty() && rounds < 20 {
        manager.update_time(10_000 + 1000 * (rounds + 1));
        let _ = manager.process_timeouts();
        rounds += 1;
    }
    assert!(manager.pending_requests().len() <= 16);
}

#[test]
fn devices_are_listed_in_discovery_order() {
    let mut manager = DeviceManager::default();
    for src in [0xEEu8, 0xEC, 0xC8] {
        let info = DeviceInformation::new(0xEA, src, "D", 1, 2, 3, 1, 1).unwrap();
        manager.handle_packet(&Packet::DeviceInformation(info));
    }
    let addrs: Vec<PacketAddress> = manager.devices().collect();
    assert_eq!(
        addrs,
        vec![
            PacketAddress::Transmitter,
            PacketAddress::Receiver,
            PacketAddress::FlightController
        ]
    );
    // Information from an origin that is no address is ignored.
    let info = DeviceInformation::new(0xEA, 0x01, "X", 1, 2, 3, 1, 1).unwrap();
    manager.handle_packet(&Packet::DeviceInformation(info));
    assert_eq!(manager.devices().count(), 3);
}

#[test]
fn other_packets_change_nothing() {
    let mut manager = manager_with_transmitter(2);
    let ping = uf_crsf::packets::DevicePing::new(0, 0xEA).unwrap();
    manager.handle_packet(&Packet::DevicePing(ping));
    assert_eq!(manager.devices().count(), 1);
    assert!(manager.drain_output().is_empty());
}

#[test]
fn failed_reassembly_stores_a_placeholder() {
    let mut manager = manager_with_transmitter(1);
    // One chunk, last, whose piece is no entry: the reassembly fails.
    let chunk = ParameterChunk::from_bytes(&[0xEE, 0xEE, 0, 0, 0x00, 0x0C, b'N']).unwrap();
    manager.handle_packet(&Packet::ParameterChunk(chunk));
    let device = manager.get_device(PacketAddress::Transmitter).unwrap();
    let stub = device.get_parameter(0).unwrap();
    assert!(stub.hidden);
    assert!(stub.data.is_none());
    assert!(device.parameters_loaded);
    assert!(manager.chunk_reassembler().is_idle());
}

#[test]
fn entry_from_unknown_origin_is_ignored() {
    let mut manager = manager_with_transmitter(2);
    let entry = ParameterSettingsEntry::new(0xEA, 0x01, 0, 0, 0, 12, "x").unwrap();
    manager.handle_packet(&Packet::ParameterSettingsEntry(entry));
    let device = manager.get_device(PacketAddress::Transmitter).unwrap();
    assert_eq!(device.parameters.len(), 0);
}

#[test]
fn parameters_in_folder_and_root() {
    let mut manager = manager_with_transmitter(3);
    for (id, parent) in [(0u8, 0u8), (1, 0), (2, 1)] {
        let entry = ParameterSettingsEntry::new(0xEA, 0xEE, id, 0, parent, 12, "p").unwrap();
        manager.handle_packet(&Packet::ParameterSettingsEntry(entry));
    }
    let device = manager.get_device(PacketAddress::Transmitter).unwrap();
    assert!(device.parameters_loaded);
    let in_root: Vec<u8> = device.parameters_in_folder(0).map(|p| p.id).collect();
    assert_eq!(in_root, vec![0, 1]);
    let all: Vec<u8> = device.iter_parameters().map(|p| p.id).collect();
    assert_eq!(all, vec![0, 1, 2]);
    assert_eq!(device.root_folder().unwrap().id, 0);
}

#[test]
fn reassembler_wraps_the_chunk_count() {
    let mut reassembler = ParameterChunkReassembler::new();
    let chunk = ParameterChunk::from_bytes(&[1, 2, 3, 255, 9]).unwrap();
    assert_eq!(reassembler.push(chunk), Ok(None));
    assert_eq!(reassembler.total_chunks(), 0);
}

#[test]
fn request_all_parameters_keeps_queued_frames() {
    let mut manager = manager_with_transmitter(3);
    let chunk = ParameterChunk {
        dst_addr: 0xEA,
        src_addr: 0xEE,
        param_number: 2,
        chunks_remaining: 1,
        payload: heapless::Vec::from_slice(&[1, 2, 3]).unwrap(),
    };
    manager.handle_packet(&Packet::ParameterChunk(chunk));
    let frame = manager
        .request_all_parameters(PacketAddress::Transmitter)
        .unwrap();
    assert_eq!(&frame.as_slice()[..7], &[0xEE, 0x06, 0x2C, 0xEE, 0xEA, 0, 0]);
    let queued = manager.drain_output();
    assert_eq!(queued.len(), 1);
    assert_eq!(&queued[0].as_slice()[..7], &[0xEE, 0x06, 0x2C, 0xEE, 0xEA, 2, 1]);
}

#[test]
fn retries_stop_at_the_configured_count() {
    let mut manager = DeviceManager::new(DeviceManagerConfig {
        timeout_ms: 100,
        retry_count: 2,
        device_ping_interval_ms: 0,
    });
    let info = DeviceInformation::new(0xEA, 0xEE, "TX", 1, 2, 3, 3, 1).unwrap();
    manager.handle_packet(&Packet::DeviceInformation(info));
    assert!(manager.request_parameter(PacketAddress::Transmitter, 1, 0).is_some());
    let mut sent = 0;
    for k in 1..10u32 {
        manager.update_time(k * 100);
        sent += manager.process_timeouts().len();
    }
    assert_eq!(sent, 2);
    assert!(manager.pending_requests().is_empty());
}

use lan_meeting::connections::DEFAULT_PORT;
use lan_meeting::discovery::{DeviceStatus, DiscoveredDevice};
use lan_meeting::handler::{apply_screen_offer, classify_stream, device_from_handshake, first_message_allowed, heartbeat_latency, on_connection_closed, StreamKind};
use lan_meeting::media::encode_start_message;
use lan_meeting::protocol::{encode_frame, MessageType};
use lan_meeting::service::Service;

#[test]
fn streams_are_classified_by_first_byte() {
    assert_eq!(classify_stream(&encode_start_message(2, 2)), StreamKind::Media);
    assert_eq!(classify_stream(&encode_frame(MessageType::Handshake, &[]).unwrap()), StreamKind::Control);
    assert_eq!(classify_stream(&[]), StreamKind::Control);
}

#[test]
fn only_handshakes_may_come_first() {
    assert!(first_message_allowed(MessageType::Handshake));
    assert!(first_message_allowed(MessageType::HandshakeAck));
    assert!(!first_message_allowed(MessageType::ChatMessage));
}

#[test]
fn handshake_registers_peer_on_default_port() {
    let d = device_from_handshake("id-1".to_string(), "Desk".to_string(), "10.0.0.4".to_string(), 99);
    assert_eq!(d.port, DEFAULT_PORT);
    assert_eq!(d.status, DeviceStatus::Online);
    assert_eq!((d.ip.as_str(), d.last_seen, d.is_sharing), ("10.0.0.4", 99, false));
}

#[test]
fn heartbeat_latency_is_now_minus_sent() {
    assert_eq!(heartbeat_latency(1500, 1000), 500);
    assert_eq!(heartbeat_latency(1000, 1500), 0);
    assert_eq!(heartbeat_latency(u64::MAX, 0), u32::MAX);
}

#[test]
fn screen_offer_and_connection_end() {
    let mut s: Service<u8> = Service::new();
    s.devices.add_device(DiscoveredDevice {
        id: "id-1".to_string(),
        name: "Desk".to_string(),
        ip: "10.0.0.4".to_string(),
        port: 19876,
        status: DeviceStatus::Online,
        last_seen: 0,
        is_sharing: false,
    });
    s.connections.insert("10.0.0.4:50000".to_string(), 1);
    s.connections.insert("10.0.0.5:50000".to_string(), 2);
    assert_eq!(apply_screen_offer(&mut s, "10.0.0.4", 2, 5), Some("id-1".to_string()));
    assert!(s.devices.get_devices()[0].is_sharing);
    apply_screen_offer(&mut s, "10.0.0.4", 0, 6);
    assert!(!s.devices.get_devices()[0].is_sharing);
    let removed = on_connection_closed(&mut s, "10.0.0.4");
    assert_eq!(removed, vec!["id-1".to_string()]);
    assert_eq!(s.devices.len(), 0);
    assert_eq!(s.connections.keys(), vec!["10.0.0.5:50000".to_string()]);
}

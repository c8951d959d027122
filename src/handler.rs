//! Decisions of the connection handler: how an accepted stream is
//! classified, which control message may come first, and what the
//! handshake, heartbeat, screen-offer and connection-end events change.

use crate::connections::{key_matches, DEFAULT_PORT};
use crate::discovery::{first_with_ip, without_ip, DeviceStatus, DiscoveredDevice};
use crate::media::{is_media_tag, is_simple_message};
use crate::protocol::MessageType;
use crate::service::Service;
use vstd::prelude::*;

verus! {

/// Role of a stream, decided by its first payload.
#[derive(Debug, Clone, Copy, PartialEq, Eq, Structural)]
pub enum StreamKind {
    /// Carries media-stream messages to the viewer logic.
    Media,
    /// Carries framed control messages.
    Control,
}

/// Classifies a stream by the first byte of its first payload.
pub fn classify_stream(first: &[u8]) -> (k: StreamKind)
    ensures
        k == (if is_media_tag(first@) { StreamKind::Media } else { StreamKind::Control }),
{
    if is_simple_message(first) {
        StreamKind::Media
    } else {
        StreamKind::Control
    }
}

/// Whether a control message may be the first one on a connection: only a
/// handshake or its acknowledgement.
pub fn first_message_allowed(t: MessageType) -> (r: bool)
    ensures
        r == (t == MessageType::Handshake || t == MessageType::HandshakeAck),
{
    match t {
        MessageType::Handshake | MessageType::HandshakeAck => true,
        _ => false,
    }
}

/// The device registered for a peer that sent a handshake: addressed by
/// the connection's source IP and the service's default port.
pub fn device_from_handshake(device_id: String, name: String, remote_ip: String, now_ms: u64) -> (d: DiscoveredDevice)
    ensures
        d.id == device_id,
        d.name == name,
        d.ip == remote_ip,
        d.port == DEFAULT_PORT,
        d.status == DeviceStatus::Online,
        d.last_seen == now_ms,
        !d.is_sharing,
{
    DiscoveredDevice {
        id: device_id,
        name,
        ip: remote_ip,
        port: DEFAULT_PORT,
        status: DeviceStatus::Online,
        last_seen: now_ms,
        is_sharing: false,
    }
}

/// Milliseconds since a heartbeat was sent (0 if the clocks disagree),
/// capped at the largest `u32`.
pub fn heartbeat_latency(now_ms: u64, sent_ms: u64) -> (r: u32)
    ensures
        now_ms <= sent_ms ==> r == 0,
        now_ms > sent_ms && now_ms - sent_ms <= u32::MAX ==> r == now_ms - sent_ms,
        now_ms > sent_ms && now_ms - sent_ms > u32::MAX ==> r == u32::MAX,
{
    if now_ms <= sent_ms {
        0
    } else if now_ms - sent_ms > u32::MAX as u64 {
        u32::MAX
    } else {
        (now_ms - sent_ms) as u32
    }
}

/// Records a peer's screen offer: it shares exactly when it offers at
/// least one display.
pub fn apply_screen_offer<C>(service: &mut Service<C>, peer_ip: &str, display_count: usize, now_ms: u64) -> (r: Option<String>)
    requires
        old(service).devices.wf(),
    ensures
        final(service).devices.wf(),
        final(service).connections == old(service).connections,
        final(service).running == old(service).running,
        ({
            let old_devices = old(service).devices@;
            let i = first_with_ip(old_devices, peer_ip@);
            if i < old_devices.len() {
                &&& r matches Some(id) && id@ == old_devices[i].id@
                &&& final(service).devices@ == old_devices.update(
                    i,
                    DiscoveredDevice { is_sharing: display_count > 0, last_seen: now_ms, ..old_devices[i] },
                )
            } else {
                r is None && final(service).devices@ == old_devices
            }
        }),
{
    service.devices.update_device_sharing_by_ip(peer_ip, display_count > 0, now_ms)
}

/// A peer's connection ended: its devices and its connections are removed.
/// Returns the ids of the removed devices.
pub fn on_connection_closed<C>(service: &mut Service<C>, peer_ip: &str) -> (removed: Vec<String>)
    requires
        old(service).devices.wf(),
    ensures
        final(service).devices.wf(),
        final(service).devices@ == without_ip(old(service).devices@, peer_ip@),
        forall|j: int| 0 <= j < final(service).devices@.len() ==> (#[trigger] final(service).devices@[j]).ip@ != peer_ip@,
        forall|j: int| 0 <= j < final(service).connections@.len() ==> !key_matches((#[trigger] final(service).connections@[j]).0@, peer_ip@),
        final(service).running == old(service).running,
{
    let removed = service.devices.remove_devices_by_ip(peer_ip);
    service.connections.remove_connection_by_ip(peer_ip);
    removed
}

} // verus!

use lan_meeting::connections::ConnectionRegistry;
use lan_meeting::discovery::{DeviceRegistry, DeviceStatus, DiscoveredDevice};
use lan_meeting::lan::{choose_peer_address, is_real_lan_ip, is_same_subnet, IpAddress, Subnet};
use lan_meeting::service::{get_default_streaming_indices, AppSettings, Service};

fn device(id: &str, ip: &str) -> DiscoveredDevice {
    DiscoveredDevice {
        id: id.to_string(),
        name: format!("name-{}", id),
        ip: ip.to_string(),
        port: 19876,
        status: DeviceStatus::Online,
        last_seen: 1,
        is_sharing: false,
    }
}

#[test]
fn vpn_ranges_are_not_lan() {
    assert!(!is_real_lan_ip(&IpAddress::V4(198, 18, 0, 1)));
    assert!(!is_real_lan_ip(&IpAddress::V4(198, 19, 255, 255)));
    assert!(!is_real_lan_ip(&IpAddress::V4(100, 64, 0, 1)));
    assert!(!is_real_lan_ip(&IpAddress::V4(100, 127, 3, 4)));
    assert!(!is_real_lan_ip(&IpAddress::V6));
    assert!(!is_real_lan_ip(&IpAddress::V4(8, 8, 8, 8)));
}

#[test]
fn private_ranges_are_lan() {
    assert!(is_real_lan_ip(&IpAddress::V4(10, 1, 2, 3)));
    assert!(is_real_lan_ip(&IpAddress::V4(172, 16, 0, 1)));
    assert!(is_real_lan_ip(&IpAddress::V4(172, 31, 255, 1)));
    assert!(!is_real_lan_ip(&IpAddress::V4(172, 32, 0, 1)));
    assert!(is_real_lan_ip(&IpAddress::V4(192, 168, 1, 20)));
    assert!(is_real_lan_ip(&IpAddress::V4(169, 254, 9, 9)));
    assert!(is_real_lan_ip(&IpAddress::V4(100, 128, 0, 1)) == false);
}

#[test]
fn peer_address_prefers_our_subnet_then_lan() {
    let ours = vec![Subnet { a: 10, b: 0, c: 5, d: 0, prefix_len: 24 }];
    let addrs = vec![
        IpAddress::V4(127, 0, 0, 1),
        IpAddress::V4(198, 18, 0, 7),
        IpAddress::V4(192, 168, 1, 4),
        IpAddress::V4(10, 0, 5, 9),
    ];
    assert_eq!(choose_peer_address(&addrs, &ours), Some(IpAddress::V4(10, 0, 5, 9)));
    assert_eq!(choose_peer_address(&addrs, &vec![]), Some(IpAddress::V4(192, 168, 1, 4)));
    let only_vpn = vec![IpAddress::V4(198, 18, 0, 7), IpAddress::V6];
    assert_eq!(choose_peer_address(&only_vpn, &vec![]), Some(IpAddress::V4(198, 18, 0, 7)));
    assert_eq!(choose_peer_address(&vec![IpAddress::V4(127, 0, 0, 1)], &vec![]), None);
    assert!(is_same_subnet(&IpAddress::V4(10, 0, 5, 200), &ours));
    assert!(!is_same_subnet(&IpAddress::V4(10, 0, 6, 1), &ours));
}

#[test]
fn registry_add_replaces_same_id() {
    let mut r = DeviceRegistry::new();
    r.add_device(device("aaaaaaaa-1", "10.0.0.1"));
    r.add_device(device("bbbbbbbb-2", "10.0.0.2"));
    r.add_device(device("aaaaaaaa-1", "10.0.0.9"));
    let all = r.get_devices();
    assert_eq!(all.len(), 2);
    assert_eq!(all[0].ip, "10.0.0.9");
    r.remove_device("bbbbbbbb-2");
    assert_eq!(r.len(), 1);
    r.remove_device("missing");
    assert_eq!(r.len(), 1);
}

#[test]
fn registry_updates() {
    let mut r = DeviceRegistry::new();
    r.add_device(device("aaaaaaaa-1", "10.0.0.1"));
    r.update_device_status("aaaaaaaa-1", DeviceStatus::Busy, 50);
    r.update_device_sharing("aaaaaaaa-1", true, 60);
    let d = r.get_device("aaaaaaaa-1").unwrap();
    assert_eq!(d.status, DeviceStatus::Busy);
    assert!(d.is_sharing);
    assert_eq!(d.last_seen, 60);
    assert_eq!(r.update_device_sharing_by_ip("10.0.0.1", false, 70), Some("aaaaaaaa-1".to_string()));
    assert_eq!(r.update_device_sharing_by_ip("10.9.9.9", false, 70), None);
    assert!(r.find_device_by_fullname("host-aaaaaaaa._lan-meeting._udp.local.").is_some());
    assert!(r.find_device_by_fullname("host-cccccccc._lan-meeting._udp.local.").is_none());
}

#[test]
fn registry_removes_devices_of_a_departed_peer() {
    let mut r = DeviceRegistry::new();
    r.add_device(device("aaaaaaaa-1", "10.0.0.1"));
    r.add_device(device("bbbbbbbb-2", "10.0.0.2"));
    r.add_device(device("cccccccc-3", "10.0.0.1"));
    let removed = r.remove_devices_by_ip("10.0.0.1");
    assert_eq!(removed, vec!["aaaaaaaa-1".to_string(), "cccccccc-3".to_string()]);
    assert_eq!(r.get_devices()[0].id, "bbbbbbbb-2");
}

#[test]
fn connection_lookup_by_key_or_ip() {
    let mut c: ConnectionRegistry<u32> = ConnectionRegistry::new();
    c.insert("10.0.0.1:19876".to_string(), 1);
    c.insert("10.0.0.2:5000".to_string(), 2);
    assert_eq!(c.get_connection("10.0.0.2:5000"), Some(&2));
    assert_eq!(c.find_connection("10.0.0.1"), Some(&1));
    assert_eq!(c.find_connection("10.0.0.10"), None);
    c.insert("10.0.0.1:19876".to_string(), 3);
    assert_eq!(c.len(), 2);
    assert_eq!(c.find_connection("10.0.0.1"), Some(&3));
    c.remove_connection_by_ip("10.0.0.1");
    assert_eq!(c.keys(), vec!["10.0.0.2:5000".to_string()]);
}

#[test]
fn dead_connections_are_pruned_before_send() {
    let mut c: ConnectionRegistry<u32> = ConnectionRegistry::new();
    c.insert("10.0.0.1:1".to_string(), 1);
    c.insert("10.0.0.2:1".to_string(), 2);
    c.insert("10.0.0.3:1".to_string(), 3);
    assert!(c.connection_for_send("10.0.0.2", &vec![true, false, true]).is_err());
    assert_eq!(c.keys(), vec!["10.0.0.1:1".to_string(), "10.0.0.3:1".to_string()]);
    assert_eq!(*c.connection_for_send("10.0.0.3:1", &vec![true, true]).unwrap(), 3);
}

#[test]
fn stop_service_empties_both_registries() {
    let mut s: Service<u32> = Service::new();
    assert!(s.start_service());
    s.mark_running();
    assert!(!s.start_service());
    s.devices.add_device(device("aaaaaaaa-1", "10.0.0.1"));
    s.connections.insert("10.0.0.1:19876".to_string(), 7);
    s.stop_service();
    assert!(!s.is_service_running());
    assert_eq!(s.devices.len(), 0);
    assert_eq!(s.connections.len(), 0);
}

#[test]
fn default_streaming_indices_come_from_settings() {
    let mut settings = AppSettings::with_device_name("desk".to_string());
    assert_eq!(get_default_streaming_indices(&settings), (1, 1));
    settings.default_resolution = 3;
    settings.default_bitrate = 0;
    assert_eq!(get_default_streaming_indices(&settings), (3, 0));
    assert_eq!(settings.quality, "auto");
}

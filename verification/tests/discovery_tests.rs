use lan_transmission::discovery::broadcaster::{
    announcement, announcement_at, get_lan_interface, ipv4_text, is_private_172,
    local_ip_of, select_lan_interface,
};
use lan_transmission::discovery::device_registry::{Device, DeviceRegistry, DEVICE_TIMEOUT_NANOS};
use std::time::{Duration, Instant};
use lan_transmission::discovery::listener::{handle_message, response, response_at, ListenerAction};
use lan_transmission::discovery::{get_local_ip, local_device_info, LocalDeviceInfo, DISCOVERY_PORT};
use lan_transmission::discovery::broadcaster::DiscoveryMessage;
use lan_transmission::system::NetInterface;
use lan_transmission::transfer::HTTP_PORT;

fn v4(name: &str, o: [u8; 4]) -> NetInterface {
    NetInterface { name: name.to_string(), ipv4: Some(o) }
}

#[test]
fn ipv4_text_matches_std_display() {
    for o in [[0, 0, 0, 0], [192, 168, 1, 20], [10, 0, 0, 1], [255, 255, 255, 255], [172, 19, 3, 4]] {
        assert_eq!(ipv4_text(o), format!("{}.{}.{}.{}", o[0], o[1], o[2], o[3]));
    }
}

#[test]
fn is_private_172_reads_second_field() {
    assert!(is_private_172("172.16.0.1"));
    assert!(is_private_172("172.31.255.255"));
    assert!(!is_private_172("172.15.0.1"));
    assert!(!is_private_172("172.32.0.1"));
    assert!(!is_private_172("172"));
    assert!(!is_private_172("172.x.0.1"));
    assert!(!is_private_172("172.300.0.1"));
    assert!(is_private_172("172.+20.0.1"));
    assert!(is_private_172("172.20"));
}

#[test]
fn lan_interface_skips_loopback_ipv6_and_virtual_ranges() {
    let ifaces = vec![
        v4("lo", [127, 0, 0, 1]),
        NetInterface { name: "v6".to_string(), ipv4: None },
        v4("clash", [198, 18, 0, 1]),
        v4("docker", [172, 19, 0, 1]),
        v4("cgnat", [100, 64, 0, 1]),
        v4("apipa", [169, 254, 1, 1]),
        v4("public", [8, 8, 8, 8]),
        v4("eth0", [192, 168, 1, 23]),
        v4("eth1", [10, 1, 2, 3]),
    ];
    let lan = select_lan_interface(&ifaces).unwrap();
    assert_eq!(lan.ip, "192.168.1.23");
    assert_eq!(lan.interface_name, "eth0");
}

#[test]
fn lan_interface_accepts_each_private_block() {
    let a = select_lan_interface(&vec![v4("a", [10, 200, 1, 1])]).unwrap();
    assert_eq!(a.ip, "10.200.1.1");
    let b = select_lan_interface(&vec![v4("b", [172, 20, 1, 1])]).unwrap();
    assert_eq!(b.ip, "172.20.1.1");
    assert!(select_lan_interface(&vec![v4("c", [172, 32, 1, 1])]).is_none());
    assert!(select_lan_interface(&vec![v4("d", [192, 169, 1, 1])]).is_none());
    assert!(select_lan_interface(&vec![v4("e", [101, 1, 1, 1])]).is_none());
    assert!(select_lan_interface(&vec![]).is_none());
}

#[test]
fn local_ip_of_takes_the_first_lan_interface() {
    let ifaces = vec![
        v4("lo", [127, 0, 0, 1]),
        v4("docker", [172, 19, 0, 1]),
        v4("wifi", [172, 16, 5, 6]),
        v4("eth0", [192, 168, 1, 23]),
    ];
    assert_eq!(local_ip_of(&ifaces), Some("172.16.5.6".to_string()));
    assert_eq!(local_ip_of(&vec![v4("lo", [127, 0, 0, 1])]), None);
}

#[test]
fn lan_interface_of_this_machine_is_private() {
    if let Some(lan) = get_lan_interface() {
        let o: Vec<u8> = lan.ip.split('.').map(|p| p.parse().unwrap()).collect();
        assert_eq!(o.len(), 4);
        assert!((o[0] == 192 && o[1] == 168) || o[0] == 10 || (o[0] == 172 && (16..=31).contains(&o[1]) && o[1] != 19));
    }
    if let Some(ip) = get_local_ip() {
        assert_eq!(ip.split('.').filter(|p| p.parse::<u8>().is_ok()).count(), 4);
    }
}

#[test]
fn device_identity_is_a_random_v4_uuid() {
    let a = local_device_info();
    let b = local_device_info();
    let id = &a.device_id;
    assert_eq!(id.len(), 36);
    let chars: Vec<char> = id.chars().collect();
    for (i, c) in chars.iter().enumerate() {
        if [8, 13, 18, 23].contains(&i) {
            assert_eq!(*c, '-');
        } else {
            assert!(c.is_ascii_hexdigit() && !c.is_ascii_uppercase());
        }
    }
    assert_eq!(chars[14], '4');
    assert!("89ab".contains(chars[19]));
    assert_ne!(a.device_id, b.device_id);
    assert_eq!(a.device_name, b.device_name);
}

fn me() -> LocalDeviceInfo {
    LocalDeviceInfo { device_id: "me".to_string(), device_name: "my-pc".to_string() }
}

fn msg(t: &str, id: &str) -> DiscoveryMessage {
    DiscoveryMessage {
        msg_type: t.to_string(),
        device_id: id.to_string(),
        device_name: "peer".to_string(),
        ip: "192.168.1.9".to_string(),
        port: 8080,
        timestamp: 1713600000,
    }
}

#[test]
fn listener_acts_on_message_types() {
    let info = me();
    assert!(matches!(handle_message(&msg("announce", "peer"), &info), ListenerAction::DiscoveredAndReply));
    assert!(matches!(handle_message(&msg("response", "peer"), &info), ListenerAction::Discovered));
    assert!(matches!(handle_message(&msg("bye", "peer"), &info), ListenerAction::Lost));
    assert!(matches!(handle_message(&msg("hello", "peer"), &info), ListenerAction::Ignore));
}

#[test]
fn listener_ignores_own_messages() {
    let info = me();
    for t in ["announce", "response", "bye", "other"] {
        assert!(matches!(handle_message(&msg(t, "me"), &info), ListenerAction::IgnoreOwn));
    }
}

#[test]
fn announcement_and_response_carry_identity() {
    let info = me();
    let a = announcement_at(&info, "192.168.1.5".to_string(), 1713600000);
    assert_eq!(a.msg_type, "announce");
    assert_eq!(a.device_id, "me");
    assert_eq!(a.device_name, "my-pc");
    assert_eq!(a.ip, "192.168.1.5");
    assert_eq!(a.port, HTTP_PORT);
    assert_eq!(a.port, 8080);
    assert_eq!(a.timestamp, 1713600000);
    let r = response_at(&info, "10.0.0.2".to_string(), 5);
    assert_eq!(r.msg_type, "response");
    assert_eq!(r.ip, "10.0.0.2");
    assert_eq!(r.timestamp, 5);
    let now = response(&info, "10.0.0.2".to_string());
    assert!(now.timestamp > 1_600_000_000);
    let now = announcement(&info, "10.0.0.2".to_string());
    assert!(now.timestamp > 1_600_000_000);
    assert_eq!(DISCOVERY_PORT, 3737);
}

fn device(id: &str, last_seen: Instant) -> Device {
    Device { id: id.to_string(), name: format!("{}-name", id), ip: "192.168.1.2".to_string(), port: 8080, last_seen }
}

fn ms(n: u64) -> Duration {
    Duration::from_millis(n)
}

#[test]
fn registry_register_then_online() {
    let t0 = Instant::now();
    let mut reg = DeviceRegistry::new();
    reg.register(device("a", t0 + ms(1_000)));
    assert!(reg.is_online_at("a", t0 + ms(1_000)));
    assert!(reg.is_online_at("a", t0 + ms(1_000) + Duration::from_nanos(DEVICE_TIMEOUT_NANOS as u64 - 1)));
    assert!(!reg.is_online_at("a", t0 + ms(1_000) + Duration::from_nanos(DEVICE_TIMEOUT_NANOS as u64)));
    assert!(!reg.is_online_at("b", t0 + ms(1_000)));
}

#[test]
fn registry_register_replaces_same_id() {
    let t0 = Instant::now();
    let mut reg = DeviceRegistry::new();
    reg.register(device("a", t0 + ms(1_000)));
    reg.register(device("b", t0 + ms(10_000)));
    let mut newer = device("a", t0 + ms(20_000));
    newer.name = "renamed".to_string();
    reg.register(newer);
    let online = reg.get_online_devices_at(t0 + ms(20_000));
    assert_eq!(online.len(), 2);
    assert_eq!(online[0].id, "a");
    assert_eq!(online[0].name, "renamed");
    assert_eq!(online[0].last_seen, t0 + ms(20_000));
    assert_eq!(online[1].id, "b");
}

#[test]
fn registry_remove_makes_offline() {
    let t0 = Instant::now();
    let mut reg = DeviceRegistry::new();
    reg.register(device("a", t0));
    reg.register(device("b", t0));
    reg.remove("a");
    reg.remove("missing");
    assert!(!reg.is_online_at("a", t0));
    assert!(reg.is_online_at("b", t0));
    let online = reg.get_online_devices_at(t0);
    assert_eq!(online.iter().map(|d| d.id.as_str()).collect::<Vec<_>>(), vec!["b"]);
}

#[test]
fn registry_timeout_drops_devices() {
    let t0 = Instant::now();
    let mut reg = DeviceRegistry::new();
    reg.register(device("old", t0));
    reg.register(device("new", t0 + ms(10_000)));
    reg.register(device("future", t0 + ms(50_000)));
    let online = reg.get_online_devices_at(t0 + ms(15_000));
    assert_eq!(online.iter().map(|d| d.id.as_str()).collect::<Vec<_>>(), vec!["new", "future"]);
    assert!(!reg.is_online_at("old", t0));
    assert!(reg.is_online_at("new", t0 + ms(15_000)));
    assert!(reg.is_online_at("future", t0 + ms(15_000)));
}

#[test]
fn registry_timeout_is_sub_millisecond_exact() {
    let t0 = Instant::now();
    let mut reg = DeviceRegistry::new();
    reg.register(device("a", t0));
    assert!(reg.is_online_at("a", t0 + Duration::new(14, 999_999_999)));
    assert!(!reg.is_online_at("a", t0 + Duration::from_secs(15)));
}

#[test]
fn registry_list_agrees_with_is_online() {
    let t0 = Instant::now();
    let mut reg = DeviceRegistry::new();
    for (i, t) in [0u64, 5_000, 9_000, 14_000, 30_000].iter().enumerate() {
        reg.register(device(&format!("d{}", i), t0 + ms(*t)));
    }
    let now = t0 + ms(20_000);
    let flags: Vec<bool> = (0..5).map(|i| reg.is_online_at(&format!("d{}", i), now)).collect();
    let online = reg.get_online_devices_at(now);
    for i in 0..5 {
        let listed = online.iter().any(|d| d.id == format!("d{}", i));
        assert_eq!(listed, flags[i]);
    }
}

#[test]
fn registry_with_the_clock() {
    let mut reg = DeviceRegistry::new();
    reg.register(Device::seen_now("x".to_string(), "n".to_string(), "10.0.0.1".to_string(), 8080));
    assert!(reg.is_online("x"));
    assert_eq!(reg.get_online_devices().len(), 1);
    reg.remove("x");
    assert!(!reg.is_online("x"));
    assert!(reg.get_online_devices().is_empty());
}

use udp_lb::common::FlowValue;
use udp_lb::config::{BackendConfig, ConfigError};
use udp_lb::conntrack::{collect_stale, is_stale, ktime_ns, reverse_key, TrackedFlow, TIMEOUT_NS};
use udp_lb::common::FlowKey;
use udp_lb::ring::populate_ring;

fn backend(ip: &str, port: u16, mac: &str) -> BackendConfig {
    BackendConfig { ip: ip.to_string(), port, mac: mac.to_string() }
}

fn three() -> Vec<BackendConfig> {
    vec![
        backend("10.0.1.1", 9001, "02:00:00:00:01:01"),
        backend("10.0.1.2", 9002, "02:00:00:00:01:02"),
        backend("10.0.1.3", 9003, "02:00:00:00:01:03"),
    ]
}

#[test]
fn ring_slots_go_round_robin() {
    let addrs = [Some(0x0a00_0101), Some(0x0a00_0102), Some(0x0a00_0103)];
    let ring = populate_ring(&three(), &addrs, 7).unwrap();
    assert_eq!(ring.len(), 7);
    let ports: Vec<u16> = ring.iter().map(|b| b.port).collect();
    assert_eq!(ports, vec![9001, 9002, 9003, 9001, 9002, 9003, 9001]);
    assert_eq!(ring[4].ip, 0x0a00_0102);
    assert_eq!(ring[5].mac, [2, 0, 0, 0, 1, 3]);
    assert_eq!(ring[6]._pad, [0, 0]);
}

#[test]
fn ring_is_balanced() {
    let addrs = [Some(1), Some(2), Some(3)];
    let ring = populate_ring(&three(), &addrs, 4096).unwrap();
    let counts: Vec<usize> = (1..=3u32).map(|ip| ring.iter().filter(|b| b.ip == ip).count()).collect();
    assert_eq!(counts, vec![1366, 1365, 1365]);
}

#[test]
fn ring_of_size_zero_is_empty() {
    assert_eq!(populate_ring(&[], &[], 0).unwrap().len(), 0);
}

#[test]
fn ring_bad_address_or_mac() {
    let mut bs = three();
    assert_eq!(populate_ring(&bs, &[Some(1), None, Some(3)], 5).unwrap_err().1, ConfigError::InvalidAddress);
    bs[1].mac = "zz:00:00:00:00:00".to_string();
    assert_eq!(populate_ring(&bs, &[Some(1), Some(2), Some(3)], 5).unwrap_err().1, ConfigError::InvalidMac);
    // the first unusable backend decides, the address before the MAC address
    assert_eq!(populate_ring(&bs, &[Some(1), None, None], 5).unwrap_err().1, ConfigError::InvalidAddress);
    bs[0].mac = "bad".to_string();
    assert_eq!(populate_ring(&bs, &[Some(1), None, Some(3)], 5).unwrap_err().1, ConfigError::InvalidMac);
}

#[test]
fn ring_error_comes_with_filled_slots() {
    let mut bs = three();
    bs[2].mac = "bad".to_string();
    let (filled, e) = populate_ring(&bs, &[Some(1), Some(2), Some(3)], 7).unwrap_err();
    assert_eq!(e, ConfigError::InvalidMac);
    let got: Vec<(u32, u16)> = filled.iter().map(|b| (b.ip, b.port)).collect();
    assert_eq!(got, vec![(1, 9001), (2, 9002)]);
    let (filled, e) = populate_ring(&three(), &[None, Some(2), Some(3)], 7).unwrap_err();
    assert_eq!(e, ConfigError::InvalidAddress);
    assert!(filled.is_empty());
}

#[test]
fn ring_ignores_backends_without_slots() {
    let mut bs = three();
    bs[2].mac = "bad".to_string();
    let ring = populate_ring(&bs, &[Some(1), Some(2), None], 2).unwrap();
    assert_eq!(ring.len(), 2);
}

#[test]
fn staleness_threshold() {
    assert!(!is_stale(TIMEOUT_NS, 0));
    assert!(is_stale(TIMEOUT_NS + 1, 0));
    assert!(!is_stale(5, 10));
    assert!(!is_stale(10, 10));
    assert_eq!(TIMEOUT_NS, 30_000_000_000);
}

#[test]
fn clock_reading_in_nanoseconds() {
    assert_eq!(ktime_ns(0, 0), 0);
    assert_eq!(ktime_ns(3, 250), 3_000_000_250);
}

#[test]
fn reverse_key_from_value() {
    let k = reverse_key(&FlowValue { target_ip: 7, target_port: 8, target_mac: [9; 6] });
    assert_eq!((k.ip, k.port, k._pad), (7, 8, [0, 0]));
}

#[test]
fn stale_flows_are_collected_in_order() {
    let v = |ip: u32| FlowValue { target_ip: ip, target_port: 100 + ip as u16, target_mac: [0; 6] };
    let now = 100_000_000_000;
    let flows = [
        TrackedFlow { key: FlowKey::new(1, 1), value: v(11), last_active: now - 1 },
        TrackedFlow { key: FlowKey::new(2, 2), value: v(12), last_active: 0 },
        TrackedFlow { key: FlowKey::new(3, 3), value: v(13), last_active: now - TIMEOUT_NS },
        TrackedFlow { key: FlowKey::new(4, 4), value: v(14), last_active: now - TIMEOUT_NS - 1 },
    ];
    let keys = collect_stale(now, &flows);
    let got: Vec<(u32, u32, u16)> = keys.iter().map(|(f, r)| (f.ip, r.ip, r.port)).collect();
    assert_eq!(got, vec![(2, 12, 112), (4, 14, 114)]);
    assert!(collect_stale(now, &[]).is_empty());
}

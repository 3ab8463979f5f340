use std::collections::HashMap;

use udp_lb::common::{BackendInfo, FlowKey, FlowValue, LbConfig, MAX_RING_SIZE, XDP_PASS, XDP_TX};
use udp_lb::checksum::compute_ipv4_checksum;
use udp_lb::dataplane::{classify, config_is_valid, forward_plan, handle_rev_traffic, open_session, ForwardPlan, Route};
use udp_lb::pipeline::{step, Action, Event, Stage};

const VIP: u32 = 0x0a00_0064; // 10.0.0.100
const LIP: u32 = 0x0a00_00c8; // 10.0.0.200
const CLIENT: u32 = 0xc0a8_0105; // 192.168.1.5
const LB_MAC: [u8; 6] = [0x02, 0, 0, 0, 0, 0x01];
const CLIENT_MAC: [u8; 6] = [0x02, 0, 0, 0, 0, 0x05];

fn config() -> LbConfig {
    LbConfig { vip: VIP, lip: LIP, ring_size: 4, hash_seed: 0 }
}

fn packet(dst_mac: [u8; 6], src_mac: [u8; 6], src_ip: u32, dst_ip: u32, src_port: u16, dst_port: u16) -> Vec<u8> {
    let mut p = Vec::new();
    p.extend_from_slice(&dst_mac);
    p.extend_from_slice(&src_mac);
    p.extend_from_slice(&[0x08, 0x00]);
    p.extend_from_slice(&[0x45, 0x00, 0x00, 32, 0x12, 0x34, 0x40, 0x00, 64, 17, 0xab, 0xcd]);
    p.extend_from_slice(&src_ip.to_be_bytes());
    p.extend_from_slice(&dst_ip.to_be_bytes());
    p.extend_from_slice(&src_port.to_be_bytes());
    p.extend_from_slice(&dst_port.to_be_bytes());
    p.extend_from_slice(&[0x00, 12, 0x55, 0x66]);
    p.extend_from_slice(b"PING");
    p
}

fn be32(p: &[u8], i: usize) -> u32 {
    u32::from_be_bytes([p[i], p[i + 1], p[i + 2], p[i + 3]])
}

fn be16(p: &[u8], i: usize) -> u16 {
    u16::from_be_bytes([p[i], p[i + 1]])
}

fn backend(i: u8) -> BackendInfo {
    BackendInfo { ip: 0x0a00_0100 + i as u32, port: 9000 + i as u16, mac: [0x02, 0, 0, 0, 1, i], _pad: [0; 2] }
}

/// Runs the program over `p` with the given tables, as the XDP side does.
fn run(
    p: &mut Vec<u8>,
    cfg: Option<LbConfig>,
    ring: &[BackendInfo],
    fwd: &mut HashMap<(u32, u16), FlowValue>,
    rev: &mut HashMap<(u32, u16), FlowValue>,
) -> u32 {
    let mut stage = Stage::Start;
    let mut ev = Event::Config(cfg);
    loop {
        let (next, act) = step(stage, p, ev);
        stage = next;
        ev = match act {
            Action::Finish(a) => return a,
            Action::LookupConntrack(k) => Event::Conntrack(fwd.get(&(k.ip, k.port)).copied()),
            Action::LookupRing(slot) => Event::Ring(ring.get(slot as usize).copied()),
            Action::Insert(k, s) => {
                fwd.insert((k.ip, k.port), s.fwd_value);
                rev.insert((s.rev_key.ip, s.rev_key.port), s.rev_value);
                Event::Inserted
            }
            Action::LookupReverse(k) => Event::Reverse(rev.get(&(k.ip, k.port)).copied()),
        };
    }
}

#[test]
fn classify_routes() {
    let c = Some(config());
    let p = packet(LB_MAC, CLIENT_MAC, CLIENT, VIP, 40000, 53);
    assert_eq!(classify(&p, c), Route::Forward { src_ip: CLIENT, src_port: 40000 });
    let p = packet(LB_MAC, CLIENT_MAC, 0x0a00_0101, LIP, 9001, 40000);
    assert_eq!(classify(&p, c), Route::Reverse { src_ip: 0x0a00_0101, src_port: 9001 });
    let p = packet(LB_MAC, CLIENT_MAC, CLIENT, 0x0808_0808, 40000, 53);
    assert_eq!(classify(&p, c), Route::Pass);
}

#[test]
fn classify_non_ipv4_and_non_udp_pass() {
    let c = Some(config());
    let mut p = packet(LB_MAC, CLIENT_MAC, CLIENT, VIP, 40000, 53);
    p[12] = 0x86;
    p[13] = 0xdd;
    assert_eq!(classify(&p, c), Route::Pass);
    let mut p = packet(LB_MAC, CLIENT_MAC, CLIENT, VIP, 40000, 53);
    p[23] = 6;
    assert_eq!(classify(&p, c), Route::Pass);
    // a short TCP packet is passed before the UDP header is looked for
    p.truncate(36);
    assert_eq!(classify(&p, c), Route::Pass);
}

#[test]
fn classify_truncated_and_bad_config_abort() {
    let c = Some(config());
    let p = packet(LB_MAC, CLIENT_MAC, CLIENT, VIP, 40000, 53);
    assert_eq!(classify(&p[..13], c), Route::Abort);
    assert_eq!(classify(&p[..33], c), Route::Abort);
    assert_eq!(classify(&p[..41], c), Route::Abort);
    assert_eq!(classify(&p[..42], c), Route::Forward { src_ip: CLIENT, src_port: 40000 });
    assert_eq!(classify(&p, None), Route::Abort);
    let mut bad = config();
    bad.ring_size = 0;
    assert_eq!(classify(&p, Some(bad)), Route::Abort);
    bad.ring_size = MAX_RING_SIZE + 1;
    assert_eq!(classify(&p, Some(bad)), Route::Abort);
    bad.ring_size = MAX_RING_SIZE;
    assert!(config_is_valid(&bad));
}

#[test]
fn forward_plan_cases() {
    let c = config();
    let key = FlowKey::new(CLIENT, 40000);
    let v = FlowValue { target_ip: 1, target_port: 2, target_mac: [3; 6] };
    assert!(matches!(forward_plan(&c, &key, Some(v)), ForwardPlan::Cached(x) if x.target_ip == 1));
    let expected = udp_lb::hash::calculate_hash(CLIENT, 40000, 0) % 4;
    assert!(matches!(forward_plan(&c, &key, None), ForwardPlan::Lookup(s) if s == expected && s < 4));
    // with a ring size of 0 the hash is taken modulo 1
    let mut z = c;
    z.ring_size = 0;
    assert!(matches!(forward_plan(&z, &key, None), ForwardPlan::Lookup(0)));
    // a slot past the largest ring is refused
    let mut big = c;
    big.ring_size = u32::MAX;
    big.hash_seed = 0;
    let h = udp_lb::hash::calculate_hash(0, 0, 0);
    let plan = forward_plan(&big, &FlowKey::new(0, 0), None);
    if h % u32::MAX >= MAX_RING_SIZE {
        assert!(matches!(plan, ForwardPlan::Abort));
    } else {
        assert!(matches!(plan, ForwardPlan::Lookup(_)));
    }
}

#[test]
fn session_entries() {
    let key = FlowKey::new(CLIENT, 40000);
    let s = open_session(&key, CLIENT_MAC, &backend(2));
    assert_eq!((s.fwd_value.target_ip, s.fwd_value.target_port, s.fwd_value.target_mac), (0x0a00_0102, 9002, [2, 0, 0, 0, 1, 2]));
    assert_eq!((s.rev_key.ip, s.rev_key.port, s.rev_key._pad), (0x0a00_0102, 9002, [0, 0]));
    assert_eq!((s.rev_value.target_ip, s.rev_value.target_port, s.rev_value.target_mac), (CLIENT, 40000, CLIENT_MAC));
}

#[test]
fn new_flow_is_forwarded_to_ring_backend() {
    let ring: Vec<BackendInfo> = (0..4).map(backend).collect();
    let mut fwd = HashMap::new();
    let mut rev = HashMap::new();
    let mut p = packet(LB_MAC, CLIENT_MAC, CLIENT, VIP, 40000, 53);
    let sent = p.clone();
    assert_eq!(run(&mut p, Some(config()), &ring, &mut fwd, &mut rev), XDP_TX);
    let slot = (udp_lb::hash::calculate_hash(CLIENT, 40000, 0) % 4) as usize;
    let b = ring[slot];
    assert_eq!(&p[0..6], &b.mac);
    assert_eq!(&p[6..12], &LB_MAC);
    assert_eq!(be32(&p, 26), LIP);
    assert_eq!(be32(&p, 30), b.ip);
    assert_eq!(be16(&p, 34), 40000);
    assert_eq!(be16(&p, 36), b.port);
    assert_eq!(be16(&p, 40), 0);
    assert_eq!(compute_ipv4_checksum(&p[14..34]), 0);
    assert_eq!(&p[42..], &sent[42..]);
    assert_eq!(fwd.len(), 1);
    assert_eq!(rev.len(), 1);
    let back = rev[&(b.ip, b.port)];
    assert_eq!((back.target_ip, back.target_port, back.target_mac), (CLIENT, 40000, CLIENT_MAC));
}

#[test]
fn tracked_flow_keeps_its_backend() {
    let ring: Vec<BackendInfo> = (0..4).map(backend).collect();
    let mut fwd = HashMap::new();
    let mut rev = HashMap::new();
    let mut p1 = packet(LB_MAC, CLIENT_MAC, CLIENT, VIP, 40000, 53);
    run(&mut p1, Some(config()), &ring, &mut fwd, &mut rev);
    // a different seed would pick another slot, but the tracked flow stays
    let mut c2 = config();
    c2.hash_seed = 0x5555_5555;
    let other_ring: Vec<BackendInfo> = (4..8).map(backend).collect();
    let mut p2 = packet(LB_MAC, CLIENT_MAC, CLIENT, VIP, 40000, 53);
    assert_eq!(run(&mut p2, Some(c2), &other_ring, &mut fwd, &mut rev), XDP_TX);
    assert_eq!(&p1[..], &p2[..]);
}

#[test]
fn reply_is_restored_to_client() {
    let ring: Vec<BackendInfo> = (0..4).map(backend).collect();
    let mut fwd = HashMap::new();
    let mut rev = HashMap::new();
    let mut p = packet(LB_MAC, CLIENT_MAC, CLIENT, VIP, 40000, 53);
    run(&mut p, Some(config()), &ring, &mut fwd, &mut rev);
    let b_ip = be32(&p, 30);
    let b_port = be16(&p, 36);
    let b_mac: [u8; 6] = p[0..6].try_into().unwrap();
    let mut reply = packet(LB_MAC, b_mac, b_ip, LIP, b_port, 40000);
    assert_eq!(run(&mut reply, Some(config()), &ring, &mut fwd, &mut rev), XDP_TX);
    assert_eq!(&reply[0..6], &CLIENT_MAC);
    assert_eq!(&reply[6..12], &LB_MAC);
    assert_eq!(be32(&reply, 26), VIP);
    assert_eq!(be32(&reply, 30), CLIENT);
    assert_eq!(be16(&reply, 34), b_port);
    assert_eq!(be16(&reply, 36), 40000);
    assert_eq!(compute_ipv4_checksum(&reply[14..34]), 0);
}

#[test]
fn unknown_reply_and_missing_ring_slot_pass_untouched() {
    let mut fwd = HashMap::new();
    let mut rev = HashMap::new();
    let mut reply = packet(LB_MAC, CLIENT_MAC, 0x0a00_0101, LIP, 9001, 40000);
    let before = reply.clone();
    assert_eq!(run(&mut reply, Some(config()), &[], &mut fwd, &mut rev), XDP_PASS);
    assert_eq!(reply, before);
    let mut p = packet(LB_MAC, CLIENT_MAC, CLIENT, VIP, 40000, 53);
    let before = p.clone();
    assert_eq!(run(&mut p, Some(config()), &[], &mut fwd, &mut rev), XDP_PASS);
    assert_eq!(p, before);
    assert!(fwd.is_empty());
}

#[test]
fn out_of_order_event_ends_the_run() {
    let mut p = packet(LB_MAC, CLIENT_MAC, CLIENT, VIP, 40000, 53);
    let before = p.clone();
    let (next, act) = step(Stage::Start, &mut p, Event::Inserted);
    assert!(matches!(next, Stage::Done));
    assert!(matches!(act, Action::Finish(XDP_PASS)));
    assert_eq!(p, before);
}

#[test]
fn reverse_handling_with_and_without_entry() {
    let mut p = packet(LB_MAC, [2, 0, 0, 0, 1, 1], 0x0a00_0101, LIP, 9001, 40000);
    let before = p.clone();
    assert_eq!(handle_rev_traffic(&mut p, VIP, None), XDP_PASS);
    assert_eq!(p, before);
    let orig = FlowValue { target_ip: CLIENT, target_port: 40000, target_mac: CLIENT_MAC };
    assert_eq!(handle_rev_traffic(&mut p, VIP, Some(orig)), XDP_TX);
    assert_eq!(&p[0..6], &CLIENT_MAC);
    assert_eq!(be32(&p, 26), VIP);
    assert_eq!(be32(&p, 30), CLIENT);
    assert_eq!(be16(&p, 36), 40000);
    assert_eq!(be16(&p, 24), compute_ipv4_checksum(&{
        let mut h = p[14..34].to_vec();
        h[10] = 0;
        h[11] = 0;
        h
    }));
}

#[test]
fn new_flows_land_in_the_ring() {
    for ring_size in [1u32, 3, 4, 100, MAX_RING_SIZE] {
        let c = LbConfig { vip: VIP, lip: LIP, ring_size, hash_seed: 0xabcd };
        for port in (0u16..2000).step_by(37) {
            match forward_plan(&c, &FlowKey::new(CLIENT ^ port as u32, port), None) {
                ForwardPlan::Lookup(slot) => assert!(slot < ring_size),
                _ => panic!("a new flow under a usable configuration looks up a slot"),
            }
        }
    }
}

#[test]
fn reclaiming_finds_the_reverse_entry() {
    let key = FlowKey::new(CLIENT, 40000);
    let s = open_session(&key, CLIENT_MAC, &backend(3));
    let k = udp_lb::conntrack::reverse_key(&s.fwd_value);
    assert_eq!((k.ip, k.port, k._pad), (s.rev_key.ip, s.rev_key.port, s.rev_key._pad));
}

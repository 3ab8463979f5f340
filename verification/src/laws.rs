//! Properties of the data plane that span several of its steps.

use vstd::prelude::*;
use crate::common::{BackendInfo, FlowKey, LbConfig, MAX_RING_SIZE, XDP_TX};
use crate::checksum::ipv4_checksum;
use crate::hash::spec_calculate_hash;
use crate::dataplane::{config_valid, spec_forwarded, spec_restored, spec_ring_slot, spec_route, spec_session_ok, Route, Session};
use crate::packet::{
    eth_dst, eth_src, ether_type, ip_dst, ip_header, ip_proto, ip_src, lemma_nat_rewrite_fields,
    udp_dst, udp_src, ETHERTYPE_IPV4, IPPROTO_UDP, UDP_HDR_LEN, UDP_OFF,
};
use crate::pipeline::{spec_step, Action, Event, Stage};

verus! {

/// A real server's reply to a forwarded client packet comes back along the
/// session: it is routed to the reverse path under the session's reverse
/// key, and the reverse rewrite with the session's reverse entry delivers
/// it to the client's address, port and MAC address, from the address the
/// client sent to, with a valid IPv4 checksum.
pub proof fn lemma_reply_reaches_client(
    c: LbConfig,
    p: Seq<u8>,
    key: FlowKey,
    rs: BackendInfo,
    s: Session,
    r: Seq<u8>,
    next: Stage,
    r2: Seq<u8>,
    act: Action,
)
    requires
        c.vip != c.lip,
        spec_route(p, Some(c)) == (Route::Forward { src_ip: key.ip, src_port: key.port }),
        spec_session_ok(s, key, eth_src(p), rs),
        r.len() >= UDP_OFF + UDP_HDR_LEN,
        ether_type(r) == ETHERTYPE_IPV4,
        ip_proto(r) == IPPROTO_UDP,
        ip_src(r) == ip_dst(spec_forwarded(p, c, s.fwd_value)),
        ip_dst(r) == ip_src(spec_forwarded(p, c, s.fwd_value)),
        udp_src(r) == udp_dst(spec_forwarded(p, c, s.fwd_value)),
        udp_dst(r) == udp_src(spec_forwarded(p, c, s.fwd_value)),
        spec_step(Stage::Start, r, Event::Config(Some(c)), next, r2, act),
    ensures
        spec_route(r, Some(c)) == (Route::Reverse { src_ip: s.rev_key.ip, src_port: s.rev_key.port }),
        act == Action::LookupReverse(s.rev_key),
        next == (Stage::AwaitReverse { vip: c.vip }),
        ({
            let t = spec_restored(r, c.vip, s.rev_value);
            &&& ip_src(t) == ip_dst(p)
            &&& ip_dst(t) == ip_src(p)
            &&& udp_dst(t) == udp_src(p)
            &&& eth_dst(t) == eth_src(p)
            &&& ipv4_checksum(ip_header(t)) == 0
        }),
{
    lemma_nat_rewrite_fields(p, c.lip, s.fwd_value.target_ip, s.fwd_value.target_port, s.fwd_value.target_mac@);
    lemma_nat_rewrite_fields(r, c.vip, s.rev_value.target_ip, s.rev_value.target_port, s.rev_value.target_mac@);
    let k = act->LookupReverse_0;
    assert(k._pad =~= s.rev_key._pad);
}

/// Every packet of a flow goes to the real server its session was opened
/// with: the first packet, rewritten once the session is stored, and each
/// later packet, rewritten from the forward entry, leave for the same
/// address, port and MAC address.
pub proof fn lemma_flow_affinity(
    c: LbConfig,
    key: FlowKey,
    client_mac: Seq<u8>,
    rs: BackendInfo,
    s: Session,
    p1: Seq<u8>,
    n1: Stage,
    q1: Seq<u8>,
    a1: Action,
    later: Stage,
    p2: Seq<u8>,
    n2: Stage,
    q2: Seq<u8>,
    a2: Action,
)
    requires
        spec_session_ok(s, key, client_mac, rs),
        p1.len() >= UDP_OFF + UDP_HDR_LEN,
        p2.len() >= UDP_OFF + UDP_HDR_LEN,
        spec_step(Stage::AwaitInsert { config: c, backend: s.fwd_value }, p1, Event::Inserted, n1, q1, a1),
        later matches Stage::AwaitConntrack { config, .. } && config == c,
        spec_step(later, p2, Event::Conntrack(Some(s.fwd_value)), n2, q2, a2),
    ensures
        a1 == Action::Finish(XDP_TX),
        a2 == Action::Finish(XDP_TX),
        ip_dst(q1) == rs.ip && ip_dst(q2) == rs.ip,
        udp_dst(q1) == rs.port && udp_dst(q2) == rs.port,
        eth_dst(q1) == rs.mac@ && eth_dst(q2) == rs.mac@,
        ip_src(q1) == c.lip && ip_src(q2) == c.lip,
{
    lemma_nat_rewrite_fields(p1, c.lip, s.fwd_value.target_ip, s.fwd_value.target_port, s.fwd_value.target_mac@);
    lemma_nat_rewrite_fields(p2, c.lip, s.fwd_value.target_ip, s.fwd_value.target_port, s.fwd_value.target_mac@);
}

/// A new flow always hashes to a filled slot: under a usable configuration
/// the slot it picks lies within a ring of `ring_size` entries, the size
/// `populate_ring` fills.
pub proof fn lemma_new_flow_finds_slot(c: LbConfig, ring: Seq<BackendInfo>, src_ip: u32, src_port: u16)
    requires
        config_valid(c),
        ring.len() == c.ring_size,
    ensures
        0 <= spec_ring_slot(c, src_ip, src_port) < ring.len(),
        spec_ring_slot(c, src_ip, src_port) < MAX_RING_SIZE,
{
}

/// The ring sizes the data plane works with are exactly 1 through 4096.
pub proof fn lemma_usable_ring_sizes(c: LbConfig)
    ensures
        config_valid(c) <==> (1 <= c.ring_size && c.ring_size <= 4096),
{
}

/// A new flow's slot is the hash of its source address and port under the
/// configured seed, taken modulo the ring size.
pub proof fn lemma_slot_uses_seed(c: LbConfig, src_ip: u32, src_port: u16)
    requires
        1 <= c.ring_size <= 4096,
    ensures
        spec_ring_slot(c, src_ip, src_port) == spec_calculate_hash(src_ip, src_port, c.hash_seed) % c.ring_size,
        spec_ring_slot(c, src_ip, src_port) < c.ring_size,
{
}

/// Under any ring size from 1 to 4096, a complete UDP/IPv4 packet for the
/// virtual address is forwarded, as a flow from its source address and port.
pub proof fn lemma_vip_packets_forwarded(c: LbConfig, p: Seq<u8>)
    requires
        1 <= c.ring_size <= 4096,
        p.len() >= 42,
        p[12] == 0x08 && p[13] == 0x00,
        p[23] == 17,
        ip_dst(p) == c.vip,
    ensures
        spec_route(p, Some(c)) == (Route::Forward { src_ip: ip_src(p) as u32, src_port: udp_src(p) as u16 }),
{
}

} // verus!

//! Decisions of the XDP program: which packets it handles, how a forward
//! flow picks its real server, what the connection-tracking tables learn,
//! and how headers are rewritten on the way in and on the way back.
//!
//! The map lookups and inserts happen outside: the program asks for them
//! through an `Action` and hands their results back as an `Event`.

use vstd::prelude::*;
use crate::common::{BackendInfo, FlowKey, FlowValue, LbConfig, MAX_RING_SIZE, XDP_PASS, XDP_TX};
use crate::hash::{calculate_hash, spec_calculate_hash};
use crate::packet::{
    get_u16, get_u32, ether_type, ip_dst, ip_proto, ip_src, nat_rewrite, rewrite_headers, udp_src,
    ETHERTYPE_IPV4, ETH_HDR_LEN, IPPROTO_UDP, IP_OFF, UDP_HDR_LEN, UDP_OFF,
};

verus! {

/// What the parsing of a packet decided.
#[derive(Clone, Copy, PartialEq, Eq, Structural, Debug)]
pub enum Route {
    /// The configuration is missing or unusable, or a header does not fit
    /// in the packet.
    Abort,
    /// Not a UDP/IPv4 packet for this balancer.
    Pass,
    /// A client packet for the virtual address, from `src_ip`:`src_port`.
    Forward { src_ip: u32, src_port: u16 },
    /// A real server's packet for the local address, from `src_ip`:`src_port`.
    Reverse { src_ip: u32, src_port: u16 },
}

/// The ring size is usable.
pub open spec fn config_valid(c: LbConfig) -> bool {
    c.ring_size != 0 && c.ring_size <= MAX_RING_SIZE
}

/// How a packet with bytes `p` is routed under `config`.
pub open spec fn spec_route(p: Seq<u8>, config: Option<LbConfig>) -> Route {
    match config {
        None => Route::Abort,
        Some(c) => if !config_valid(c) || p.len() < ETH_HDR_LEN {
            Route::Abort
        } else if ether_type(p) != ETHERTYPE_IPV4 {
            Route::Pass
        } else if p.len() < UDP_OFF {
            Route::Abort
        } else if ip_proto(p) != IPPROTO_UDP {
            Route::Pass
        } else if p.len() < UDP_OFF + UDP_HDR_LEN {
            Route::Abort
        } else if ip_dst(p) == c.vip {
            Route::Forward { src_ip: ip_src(p) as u32, src_port: udp_src(p) as u16 }
        } else if ip_dst(p) == c.lip {
            Route::Reverse { src_ip: ip_src(p) as u32, src_port: udp_src(p) as u16 }
        } else {
            Route::Pass
        },
    }
}

/// Checks that the ring size is usable.
pub fn config_is_valid(c: &LbConfig) -> (b: bool)
    ensures
        b == config_valid(*c),
        b == (1 <= c.ring_size && c.ring_size <= 4096),
{
    c.ring_size != 0 && c.ring_size <= MAX_RING_SIZE
}

/// Parses the headers of `p` and decides where it goes.
pub fn classify(p: &[u8], config: Option<LbConfig>) -> (r: Route)
    ensures
        r == spec_route(p@, config),
{
    let c = match config {
        Some(c) => c,
        None => return Route::Abort,
    };
    if !config_is_valid(&c) {
        return Route::Abort;
    }
    if p.len() < ETH_HDR_LEN {
        return Route::Abort;
    }
    if get_u16(p, 12) != ETHERTYPE_IPV4 {
        return Route::Pass;
    }
    if p.len() < UDP_OFF {
        return Route::Abort;
    }
    if p[IP_OFF + 9] != IPPROTO_UDP {
        return Route::Pass;
    }
    let dst_ip = get_u32(p, IP_OFF + 16);
    if p.len() < UDP_OFF + UDP_HDR_LEN {
        return Route::Abort;
    }
    let src_ip = get_u32(p, IP_OFF + 12);
    let src_port = get_u16(p, UDP_OFF);
    if dst_ip == c.vip {
        Route::Forward { src_ip, src_port }
    } else if dst_ip == c.lip {
        Route::Reverse { src_ip, src_port }
    } else {
        Route::Pass
    }
}

/// The ring slot a new flow from `src_ip`:`src_port` hashes to.
pub open spec fn spec_ring_slot(c: LbConfig, src_ip: u32, src_port: u16) -> u32 {
    (spec_calculate_hash(src_ip, src_port, c.hash_seed) % (if c.ring_size > 0 { c.ring_size } else { 1 })) as u32
}

/// How a forward flow finds its real server.
#[derive(Clone, Copy, Debug)]
pub enum ForwardPlan {
    /// The flow is tracked already: send it where it went before.
    Cached(FlowValue),
    /// A new flow: take the real server in this ring slot.
    Lookup(u32),
    /// The slot lies beyond the ring.
    Abort,
}

/// Decides, from the forward tracking entry of `key` (if any), how the
/// flow finds its real server.
pub fn forward_plan(config: &LbConfig, key: &FlowKey, cached: Option<FlowValue>) -> (r: ForwardPlan)
    ensures
        match cached {
            Some(v) => r == ForwardPlan::Cached(v),
            None => if spec_ring_slot(*config, key.ip, key.port) < MAX_RING_SIZE {
                r == ForwardPlan::Lookup(spec_ring_slot(*config, key.ip, key.port))
            } else {
                r == ForwardPlan::Abort
            },
        },
        cached is None && config_valid(*config) ==> (r matches ForwardPlan::Lookup(slot)
            && slot < config.ring_size),
        cached is None && 1 <= config.ring_size <= 4096 ==> r == ForwardPlan::Lookup(
            (spec_calculate_hash(key.ip, key.port, config.hash_seed) % config.ring_size) as u32),
{
    match cached {
        Some(v) => ForwardPlan::Cached(v),
        None => {
            let safe_ring_size = if config.ring_size > 0 { config.ring_size } else { 1 };
            let hash = calculate_hash(key.ip, key.port, config.hash_seed);
            let slot = hash % safe_ring_size;
            if slot >= MAX_RING_SIZE {
                ForwardPlan::Abort
            } else {
                ForwardPlan::Lookup(slot)
            }
        }
    }
}

/// The two tracking entries of a new flow.
#[derive(Clone, Copy, Debug)]
pub struct Session {
    /// Forward entry, under the client's key: the real server.
    pub fwd_value: FlowValue,
    /// Key of the reverse entry: the real server's address and port.
    pub rev_key: FlowKey,
    /// Reverse entry: the client's address, port and MAC address.
    pub rev_value: FlowValue,
}

/// The session a new flow `key` from `client_mac` opens with real server `rs`.
pub open spec fn spec_session_ok(s: Session, key: FlowKey, client_mac: Seq<u8>, rs: BackendInfo) -> bool {
    &&& s.fwd_value.target_ip == rs.ip
    &&& s.fwd_value.target_port == rs.port
    &&& s.fwd_value.target_mac@ == rs.mac@
    &&& s.rev_key.ip == rs.ip
    &&& s.rev_key.port == rs.port
    &&& s.rev_key._pad@ == seq![0u8, 0u8]
    &&& s.rev_value.target_ip == key.ip
    &&& s.rev_value.target_port == key.port
    &&& s.rev_value.target_mac@ == client_mac
}

/// Builds the tracking entries of a new flow `key` from `client_mac`
/// served by `rs`.
pub fn open_session(key: &FlowKey, client_mac: [u8; 6], rs: &BackendInfo) -> (s: Session)
    ensures
        spec_session_ok(s, *key, client_mac@, *rs),
{
    Session {
        fwd_value: FlowValue { target_ip: rs.ip, target_port: rs.port, target_mac: rs.mac },
        rev_key: FlowKey::new(rs.ip, rs.port),
        rev_value: FlowValue { target_ip: key.ip, target_port: key.port, target_mac: client_mac },
    }
}

/// The packet a forward flow sends to its real server `backend`: from the
/// local address, to the real server's address, port and MAC address.
pub open spec fn spec_forwarded(p: Seq<u8>, c: LbConfig, backend: FlowValue) -> Seq<u8> {
    nat_rewrite(p, c.lip, backend.target_ip, backend.target_port, backend.target_mac@)
}

/// The packet a real server's reply becomes: from the virtual address, to
/// the client's address, port and MAC address kept in `orig`.
pub open spec fn spec_restored(p: Seq<u8>, vip: u32, orig: FlowValue) -> Seq<u8> {
    nat_rewrite(p, vip, orig.target_ip, orig.target_port, orig.target_mac@)
}

/// Rewrites a client packet towards real server `backend`.
pub fn rewrite_forward(p: &mut [u8], config: &LbConfig, backend: &FlowValue) -> (action: u32)
    requires
        old(p)@.len() >= UDP_OFF + UDP_HDR_LEN,
    ensures
        final(p)@ == spec_forwarded(old(p)@, *config, *backend),
        action == XDP_TX,
{
    rewrite_headers(p, config.lip, backend.target_ip, backend.target_port, &backend.target_mac);
    XDP_TX
}

/// Rewrites a real server's reply back towards the client kept in `orig`.
pub fn rewrite_reverse(p: &mut [u8], vip: u32, orig: &FlowValue) -> (action: u32)
    requires
        old(p)@.len() >= UDP_OFF + UDP_HDR_LEN,
    ensures
        final(p)@ == spec_restored(old(p)@, vip, *orig),
        action == XDP_TX,
{
    rewrite_headers(p, vip, orig.target_ip, orig.target_port, &orig.target_mac);
    XDP_TX
}

/// The reverse path once the reverse tracking entry has been looked up: a
/// reply of a tracked session is rewritten back towards its client and
/// sent out; any other packet is handed on untouched.
pub fn handle_rev_traffic(p: &mut [u8], vip: u32, found: Option<FlowValue>) -> (action: u32)
    requires
        old(p)@.len() >= UDP_OFF + UDP_HDR_LEN,
    ensures
        match found {
            Some(orig) => final(p)@ == spec_restored(old(p)@, vip, orig) && action == XDP_TX,
            None => final(p)@ == old(p)@ && action == XDP_PASS,
        },
{
    match found {
        Some(orig) => rewrite_reverse(p, vip, &orig),
        None => XDP_PASS,
    }
}

} // verus!

//! One run of the XDP program over a packet, as a sequence of steps.
//!
//! Each step takes the result of the map operation the previous step asked
//! for and says what to do next; the caller performs the map operations
//! (configuration read, tracking lookups and inserts, ring lookup).

use vstd::prelude::*;
use crate::common::{BackendInfo, FlowKey, FlowValue, LbConfig, MAX_RING_SIZE, XDP_PASS, XDP_TX};
use crate::dataplane::{
    classify, forward_plan, handle_rev_traffic, open_session, rewrite_forward, spec_forwarded,
    spec_restored, spec_ring_slot, spec_route, spec_session_ok, ForwardPlan, Route, Session,
};
use crate::packet::{eth_src, get_mac, UDP_HDR_LEN, UDP_OFF};

verus! {

/// Where a run stands.
#[derive(Clone, Copy, Debug)]
pub enum Stage {
    /// Nothing done yet; the configuration is awaited.
    Start,
    /// A client packet; its forward tracking entry is awaited.
    AwaitConntrack { config: LbConfig, key: FlowKey, client_mac: [u8; 6] },
    /// A new client flow; the ring entry of its slot is awaited.
    AwaitRing { config: LbConfig, key: FlowKey, client_mac: [u8; 6] },
    /// A new client flow; its tracking entries are being stored.
    AwaitInsert { config: LbConfig, backend: FlowValue },
    /// A real server's packet; its reverse tracking entry is awaited.
    AwaitReverse { vip: u32 },
    /// The run has finished.
    Done,
}

/// The result of the operation a step asked for.
#[derive(Clone, Copy, Debug)]
pub enum Event {
    /// The configuration entry, if the map holds one.
    Config(Option<LbConfig>),
    /// The forward tracking entry, if there is one.
    Conntrack(Option<FlowValue>),
    /// The ring entry, if the slot could be read.
    Ring(Option<BackendInfo>),
    /// The tracking entries have been stored (or storing them failed).
    Inserted,
    /// The reverse tracking entry, if there is one.
    Reverse(Option<FlowValue>),
}

/// What the caller does next.
#[derive(Clone, Copy, Debug)]
pub enum Action {
    /// Look up the forward tracking entry of this key.
    LookupConntrack(FlowKey),
    /// Read this ring slot.
    LookupRing(u32),
    /// Store the forward entry of the session under the key, and its
    /// reverse entry under the session's reverse key.
    Insert(FlowKey, Session),
    /// Look up the reverse tracking entry of this key.
    LookupReverse(FlowKey),
    /// The run is over; return this XDP action code.
    Finish(u32),
}

/// `k` is the key of the flow from `ip`:`port`.
pub open spec fn key_is(k: FlowKey, ip: u32, port: u16) -> bool {
    k.ip == ip && k.port == port && k._pad@ == seq![0u8, 0u8]
}

/// The packet is long enough for the stage (past `Start`, its headers fit).
pub open spec fn stage_fits(s: Stage, len: nat) -> bool {
    match s {
        Stage::Start | Stage::Done => true,
        _ => len >= UDP_OFF + UDP_HDR_LEN,
    }
}

/// Ending the run with `action`, the packet `q` left as `p` was.
pub open spec fn ends_with(next: Stage, p: Seq<u8>, q: Seq<u8>, act: Action, action: u32) -> bool {
    next == Stage::Done && q == p && act == Action::Finish(action)
}

/// One step: from `stage` and packet `p`, on `ev`, to stage `next`, packet
/// `q` and action `act`.
pub open spec fn spec_step(stage: Stage, p: Seq<u8>, ev: Event, next: Stage, q: Seq<u8>, act: Action) -> bool {
    match (stage, ev) {
        (Stage::Start, Event::Config(cfg)) => match spec_route(p, cfg) {
            Route::Forward { src_ip, src_port } => {
                &&& next matches Stage::AwaitConntrack { config, key, client_mac }
                &&& cfg == Some(config)
                &&& key_is(key, src_ip, src_port)
                &&& client_mac@ == eth_src(p)
                &&& act == Action::LookupConntrack(key)
                &&& q == p
            },
            Route::Reverse { src_ip, src_port } => {
                &&& next == Stage::AwaitReverse { vip: cfg->0.vip }
                &&& act matches Action::LookupReverse(k)
                &&& key_is(k, src_ip, src_port)
                &&& q == p
            },
            _ => ends_with(next, p, q, act, XDP_PASS),
        },
        (Stage::AwaitConntrack { config, key, client_mac }, Event::Conntrack(cached)) => match cached {
            Some(v) => next == Stage::Done && act == Action::Finish(XDP_TX) && q == spec_forwarded(p, config, v),
            None => {
                let slot = spec_ring_slot(config, key.ip, key.port);
                if slot < MAX_RING_SIZE {
                    next == (Stage::AwaitRing { config, key, client_mac }) && act == Action::LookupRing(slot) && q == p
                } else {
                    ends_with(next, p, q, act, XDP_PASS)
                }
            },
        },
        (Stage::AwaitRing { config, key, client_mac }, Event::Ring(entry)) => match entry {
            Some(rs) => {
                &&& act matches Action::Insert(k, s)
                &&& k == key
                &&& spec_session_ok(s, key, client_mac@, rs)
                &&& next == (Stage::AwaitInsert { config, backend: s.fwd_value })
                &&& q == p
            },
            None => ends_with(next, p, q, act, XDP_PASS),
        },
        (Stage::AwaitInsert { config, backend }, Event::Inserted) =>
            next == Stage::Done && act == Action::Finish(XDP_TX) && q == spec_forwarded(p, config, backend),
        (Stage::AwaitReverse { vip }, Event::Reverse(found)) => match found {
            Some(orig) => next == Stage::Done && act == Action::Finish(XDP_TX) && q == spec_restored(p, vip, orig),
            None => ends_with(next, p, q, act, XDP_PASS),
        },
        _ => ends_with(next, p, q, act, XDP_PASS),
    }
}

/// Takes one step of the run over packet `p`.
pub fn step(stage: Stage, p: &mut [u8], ev: Event) -> (r: (Stage, Action))
    requires
        stage_fits(stage, old(p)@.len()),
    ensures
        spec_step(stage, old(p)@, ev, r.0, final(p)@, r.1),
        stage_fits(r.0, final(p)@.len()),
{
    match (stage, ev) {
        (Stage::Start, Event::Config(cfg)) => match classify(p, cfg) {
            Route::Forward { src_ip, src_port } => {
                let config = cfg.unwrap();
                let key = FlowKey::new(src_ip, src_port);
                let client_mac = get_mac(p, 6);
                (Stage::AwaitConntrack { config, key, client_mac }, Action::LookupConntrack(key))
            },
            Route::Reverse { src_ip, src_port } => {
                let config = cfg.unwrap();
                (Stage::AwaitReverse { vip: config.vip }, Action::LookupReverse(FlowKey::new(src_ip, src_port)))
            },
            _ => (Stage::Done, Action::Finish(XDP_PASS)),
        },
        (Stage::AwaitConntrack { config, key, client_mac }, Event::Conntrack(cached)) => {
            match forward_plan(&config, &key, cached) {
                ForwardPlan::Cached(v) => {
                    let a = rewrite_forward(p, &config, &v);
                    (Stage::Done, Action::Finish(a))
                },
                ForwardPlan::Lookup(slot) => (Stage::AwaitRing { config, key, client_mac }, Action::LookupRing(slot)),
                ForwardPlan::Abort => (Stage::Done, Action::Finish(XDP_PASS)),
            }
        },
        (Stage::AwaitRing { config, key, client_mac }, Event::Ring(entry)) => match entry {
            Some(rs) => {
                let s = open_session(&key, client_mac, &rs);
                (Stage::AwaitInsert { config, backend: s.fwd_value }, Action::Insert(key, s))
            },
            None => (Stage::Done, Action::Finish(XDP_PASS)),
        },
        (Stage::AwaitInsert { config, backend }, Event::Inserted) => {
            let a = rewrite_forward(p, &config, &backend);
            (Stage::Done, Action::Finish(a))
        },
        (Stage::AwaitReverse { vip }, Event::Reverse(found)) => {
            let a = handle_rev_traffic(p, vip, found);
            (Stage::Done, Action::Finish(a))
        },
        _ => (Stage::Done, Action::Finish(XDP_PASS)),
    }
}

} // verus!

//! Reclaiming idle sessions from the connection-tracking tables.

use vstd::prelude::*;
use crate::common::{BackendInfo, FlowKey, FlowValue};
use crate::dataplane::{spec_session_ok, Session};

verus! {

/// A session idle for longer than this (in nanoseconds) is reclaimed.
pub const TIMEOUT_NS: u64 = 30_000_000_000;

/// A forward tracking entry together with the time it was last active.
#[derive(Clone, Copy, Debug)]
pub struct TrackedFlow {
    pub key: FlowKey,
    pub value: FlowValue,
    pub last_active: u64,
}

/// A session last active at `last_active` has been idle too long at `now`.
pub open spec fn spec_is_stale(now: u64, last_active: u64) -> bool {
    now > last_active && now - last_active > TIMEOUT_NS
}

/// The monotonic clock reading `tv_sec` seconds and `tv_nsec` nanoseconds
/// in nanoseconds.
pub fn ktime_ns(tv_sec: u64, tv_nsec: u64) -> (ns: u64)
    requires
        tv_sec * 1_000_000_000 + tv_nsec <= u64::MAX,
    ensures
        ns == tv_sec * 1_000_000_000 + tv_nsec,
{
    tv_sec * 1_000_000_000 + tv_nsec
}

/// Tells whether a session last active at `last_active` is stale at `now`.
pub fn is_stale(now: u64, last_active: u64) -> (b: bool)
    ensures
        b == spec_is_stale(now, last_active),
{
    now > last_active && now - last_active > TIMEOUT_NS
}

/// The key of the reverse entry that goes with forward value `v`: the real
/// server's address and port.
pub fn reverse_key(v: &FlowValue) -> (k: FlowKey)
    ensures
        k.ip == v.target_ip,
        k.port == v.target_port,
        k._pad@ == seq![0u8, 0u8],
{
    FlowKey::new(v.target_ip, v.target_port)
}

/// The flows of `flows` that are stale at `now`, in their order.
pub open spec fn stale_flows(now: u64, flows: Seq<TrackedFlow>) -> Seq<TrackedFlow> {
    flows.filter(|f: TrackedFlow| spec_is_stale(now, f.last_active))
}

/// The pairs of keys to delete at `now`: for each stale flow, in order, its
/// forward key and the key of its reverse entry.
pub fn collect_stale(now: u64, flows: &[TrackedFlow]) -> (keys: Vec<(FlowKey, FlowKey)>)
    ensures
        keys@.len() == stale_flows(now, flows@).len(),
        forall|i: int| 0 <= i < keys@.len() ==> {
            let f = #[trigger] stale_flows(now, flows@)[i];
            &&& keys@[i].0 == f.key
            &&& keys@[i].1.ip == f.value.target_ip
            &&& keys@[i].1.port == f.value.target_port
            &&& keys@[i].1._pad@ == seq![0u8, 0u8]
        },
{
    let mut keys: Vec<(FlowKey, FlowKey)> = Vec::new();
    let n = flows.len();
    let mut i: usize = 0;
    while i < n
        invariant
            n == flows@.len(),
            i <= n,
            keys@.len() == stale_flows(now, flows@.take(i as int)).len(),
            forall|j: int| 0 <= j < keys@.len() ==> {
                let f = #[trigger] stale_flows(now, flows@.take(i as int))[j];
                &&& keys@[j].0 == f.key
                &&& keys@[j].1.ip == f.value.target_ip
                &&& keys@[j].1.port == f.value.target_port
                &&& keys@[j].1._pad@ == seq![0u8, 0u8]
            },
        decreases n - i,
    {
        reveal_with_fuel(Seq::<_>::filter, 1);
        assert(flows@.take(i + 1).drop_last() =~= flows@.take(i as int));
        let f = flows[i];
        if is_stale(now, f.last_active) {
            keys.push((f.key, reverse_key(&f.value)));
        }
        i = i + 1;
    }
    assert(flows@.take(n as int) =~= flows@);
    keys
}

/// The reverse key that reclaiming a session computes from its forward
/// entry is the key under which opening the session stored its reverse
/// entry: reclaiming removes both halves of the session.
pub proof fn lemma_reclaim_removes_both(s: Session, key: FlowKey, client_mac: Seq<u8>, rs: BackendInfo, k: FlowKey)
    requires
        spec_session_ok(s, key, client_mac, rs),
        k.ip == s.fwd_value.target_ip,
        k.port == s.fwd_value.target_port,
        k._pad@ == seq![0u8, 0u8],
    ensures
        k == s.rev_key,
{
    assert(k._pad@ =~= s.rev_key._pad@);
    assert(k._pad =~= s.rev_key._pad);
}

} // verus!

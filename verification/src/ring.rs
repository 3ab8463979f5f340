//! Building the hash ring: slot `i` of a ring of `ring_size` slots is served
//! by backend `i % n` of the `n` configured backends.

use vstd::prelude::*;
use crate::common::BackendInfo;
use crate::config::{parse_mac, spec_parse_mac, BackendConfig, ConfigError};

verus! {

/// A ring slot as the ring map holds it.
#[derive(Clone, Copy, Debug)]
pub struct PodBackendInfo(pub BackendInfo);

/// The MAC address text of `b`, as bytes.
pub open spec fn mac_bytes(b: BackendConfig) -> Seq<u8> {
    vstd::utf8::encode_utf8(b.mac@)
}

/// Backend `b`, whose address parsed to `addr` (or failed to), can fill a slot.
pub open spec fn backend_ok(b: BackendConfig, addr: Option<u32>) -> bool {
    addr is Some && spec_parse_mac(mac_bytes(b)) is Some
}

/// Why backend `b` with address `addr` cannot fill a slot: the address is
/// checked first.
pub open spec fn backend_error(b: BackendConfig, addr: Option<u32>) -> ConfigError {
    if addr is None {
        ConfigError::InvalidAddress
    } else {
        ConfigError::InvalidMac
    }
}

/// `info` is the ring entry of backend `b` with address `addr`.
pub open spec fn is_entry_of(info: BackendInfo, b: BackendConfig, addr: Option<u32>) -> bool {
    &&& addr is Some
    &&& info.ip == addr->0
    &&& info.port == b.port
    &&& spec_parse_mac(mac_bytes(b)) == Some(info.mac@)
    &&& info._pad@ == seq![0u8, 0u8]
}

/// Fills a ring of `ring_size` slots from `backends`, whose addresses the
/// caller has parsed into `addrs` (`None` where an address did not parse).
/// Slots are filled in order; at the first slot whose backend is unusable
/// the filling stops, and the error comes with the slots filled before it.
pub fn populate_ring(backends: &[BackendConfig], addrs: &[Option<u32>], ring_size: u32) -> (r: Result<Vec<BackendInfo>, (Vec<BackendInfo>, ConfigError)>)
    requires
        backends@.len() == addrs@.len(),
        backends@.len() > 0 || ring_size == 0,
    ensures
        r is Ok <==> (forall|j: int| 0 <= j < backends@.len() && j < ring_size ==> backend_ok(#[trigger] backends@[j], addrs@[j])),
        r matches Ok(ring) ==> {
            &&& ring@.len() == ring_size
            &&& forall|i: int| 0 <= i < ring_size ==> is_entry_of(#[trigger] ring@[i], backends@[i % backends@.len() as int], addrs@[i % backends@.len() as int])
        },
        r matches Err((filled, e)) ==> exists|j: int| {
            &&& 0 <= j < backends@.len()
            &&& j < ring_size
            &&& !backend_ok(#[trigger] backends@[j], addrs@[j])
            &&& forall|k: int| 0 <= k < j ==> backend_ok(#[trigger] backends@[k], addrs@[k])
            &&& e == backend_error(backends@[j], addrs@[j])
            &&& filled@.len() == j
            &&& forall|i: int| 0 <= i < j ==> is_entry_of(#[trigger] filled@[i], backends@[i], addrs@[i])
        },
{
    let n = backends.len();
    let mut ring: Vec<BackendInfo> = Vec::new();
    let mut slot: u32 = 0;
    while slot < ring_size
        invariant
            n == backends@.len(),
            n == addrs@.len(),
            n > 0 || ring_size == 0,
            slot <= ring_size,
            ring@.len() == slot,
            forall|i: int| 0 <= i < slot ==> is_entry_of(#[trigger] ring@[i], backends@[i % n as int], addrs@[i % n as int]),
            forall|j: int| 0 <= j < n && j < slot ==> backend_ok(#[trigger] backends@[j], addrs@[j]),
        decreases ring_size - slot,
    {
        let idx = (slot as usize) % n;
        let b = &backends[idx];
        proof {
            if slot >= n {
                assert(idx < n);
                assert(backend_ok(backends@[idx as int], addrs@[idx as int]));
            } else {
                vstd::arithmetic::div_mod::lemma_small_mod(slot as nat, n as nat);
            }
        }
        let ip = match addrs[idx] {
            Some(ip) => ip,
            None => {
                assert(forall|i: int| 0 <= i < slot ==> #[trigger] (i % n as int) == i) by {
                    assert forall|i: int| 0 <= i < slot implies #[trigger] (i % n as int) == i by {
                        vstd::arithmetic::div_mod::lemma_small_mod(i as nat, n as nat);
                    }
                }
                return Err((ring, ConfigError::InvalidAddress));
            },
        };
        let mac = match parse_mac(b.mac.as_str()) {
            Ok(m) => m,
            Err(e) => {
                assert(forall|i: int| 0 <= i < slot ==> #[trigger] (i % n as int) == i) by {
                    assert forall|i: int| 0 <= i < slot implies #[trigger] (i % n as int) == i by {
                        vstd::arithmetic::div_mod::lemma_small_mod(i as nat, n as nat);
                    }
                }
                return Err((ring, e));
            },
        };
        let pad: [u8; 2] = [0, 0];
        let info = BackendInfo { ip, port: b.port, mac, _pad: pad };
        assert(pad@ =~= seq![0u8, 0u8]);
        assert(is_entry_of(info, backends@[idx as int], addrs@[idx as int]));
        ring.push(info);
        assert(ring@[slot as int] == info);
        assert(idx as int == (slot as int) % (n as int));
        slot = slot + 1;
        proof {
            assert forall|j: int| 0 <= j < n && j < slot implies backend_ok(#[trigger] backends@[j], addrs@[j]) by {
                if j == slot - 1 {
                    vstd::arithmetic::div_mod::lemma_small_mod(j as nat, n as nat);
                }
            }
        }
    }
    Ok(ring)
}

/// Number of the first `k` slots that backend `j` of `n` serves.
pub open spec fn slot_count(k: nat, n: nat, j: int) -> nat
    decreases k,
{
    if k == 0 {
        0
    } else {
        slot_count((k - 1) as nat, n, j) + if ((k - 1) as int) % (n as int) == j { 1nat } else { 0nat }
    }
}

proof fn lemma_next_div_mod(k: int, n: int)
    requires
        n > 0,
        k >= 0,
    ensures
        (k + 1) % n == (if k % n == n - 1 { 0 } else { k % n + 1 }),
        (k + 1) / n == (if k % n == n - 1 { k / n + 1 } else { k / n }),
{
    let q = k / n;
    let r = k % n;
    vstd::arithmetic::div_mod::lemma_fundamental_div_mod(k, n);
    if r == n - 1 {
        assert(k + 1 == (q + 1) * n + 0) by (nonlinear_arith)
            requires k == n * q + r, r == n - 1;
        vstd::arithmetic::div_mod::lemma_fundamental_div_mod_converse(k + 1, n, q + 1, 0);
    } else {
        assert(k + 1 == q * n + (r + 1)) by (nonlinear_arith)
            requires k == n * q + r;
        vstd::arithmetic::div_mod::lemma_fundamental_div_mod_converse(k + 1, n, q, r + 1);
    }
}

/// The ring is shared out evenly: of `ring_size` slots, backend `j` of `n`
/// serves `ring_size / n` slots, one more if `j < ring_size % n`; so any two
/// backends serve numbers of slots that differ by at most one.
pub proof fn lemma_ring_balance(ring_size: nat, n: nat, j: int, j2: int)
    requires
        n > 0,
        0 <= j < n,
        0 <= j2 < n,
    ensures
        slot_count(ring_size, n, j) == ring_size / n + (if j < ring_size % n { 1int } else { 0int }),
        slot_count(ring_size, n, j) <= slot_count(ring_size, n, j2) + 1,
{
    lemma_balance_formula(ring_size, n, j);
    lemma_balance_formula(ring_size, n, j2);
}

proof fn lemma_balance_formula(ring_size: nat, n: nat, j: int)
    requires
        n > 0,
        0 <= j < n,
    ensures
        slot_count(ring_size, n, j) == ring_size / n + (if j < ring_size % n { 1int } else { 0int }),
    decreases ring_size,
{
    if ring_size > 0 {
        let k = (ring_size - 1) as nat;
        lemma_balance_formula(k, n, j);
        lemma_next_div_mod(k as int, n as int);
        let kk = k as int;
        let nn = n as int;
        assert(slot_count(ring_size, n, j) == slot_count(k, n, j) + if kk % nn == j { 1nat } else { 0nat });
        assert(ring_size as int == kk + 1);
        assert(ring_size / n == (kk + 1) / nn);
        assert(ring_size % n == (kk + 1) % nn);
        vstd::arithmetic::div_mod::lemma_fundamental_div_mod(kk, nn);
        let r = kk % nn;
        let q = kk / nn;
        assert(0 <= r < nn);
        let prev = slot_count(k, n, j) as int;
        assert(prev == q + (if j < r { 1int } else { 0int }));
        if r == nn - 1 {
            assert((kk + 1) / nn == q + 1);
            assert((kk + 1) % nn == 0);
            if j == r {
                assert(slot_count(ring_size, n, j) == prev + 1);
            } else {
                assert(j < r);
                assert(slot_count(ring_size, n, j) == prev);
            }
        } else {
            assert((kk + 1) / nn == q);
            assert((kk + 1) % nn == r + 1);
            if j == r {
                assert(slot_count(ring_size, n, j) == prev + 1);
            } else {
                assert(slot_count(ring_size, n, j) == prev);
            }
        }
    } else {
        vstd::arithmetic::div_mod::lemma_small_mod(0, n);
        vstd::arithmetic::div_mod::lemma_basic_div(0, n as int);
    }
}

} // verus!

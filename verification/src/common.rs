//! Records shared between the data plane and the control plane.
//!
//! Addresses and ports are held as numbers in host order (10.0.0.1 is
//! `0x0a00_0001`); the control plane turns them into network byte order
//! when it writes them into the kernel maps.

use vstd::prelude::*;

verus! {

/// Largest number of slots the hash ring may have.
pub const MAX_RING_SIZE: u32 = 4096;

/// XDP action code: let the packet continue into the kernel network stack.
pub const XDP_PASS: u32 = 2;

/// XDP action code: transmit the packet out of the interface it arrived on.
pub const XDP_TX: u32 = 3;

/// One real server of the ring.
#[derive(Clone, Copy, Debug)]
pub struct BackendInfo {
    pub ip: u32,
    pub port: u16,
    pub mac: [u8; 6],
    pub _pad: [u8; 2],
}

/// Key of a connection-tracking entry: the source address and port of a flow.
#[derive(Clone, Copy, Debug)]
pub struct FlowKey {
    pub ip: u32,
    pub port: u16,
    pub _pad: [u8; 2],
}

/// Value of a connection-tracking entry: where packets of the flow go.
#[derive(Clone, Copy, Debug)]
pub struct FlowValue {
    pub target_ip: u32,
    pub target_port: u16,
    pub target_mac: [u8; 6],
}

/// Global settings of the data plane.
#[derive(Clone, Copy, PartialEq, Eq, Structural, Debug)]
pub struct LbConfig {
    /// The virtual address clients send to.
    pub vip: u32,
    /// The local address the balancer uses towards the real servers.
    pub lip: u32,
    /// Number of populated ring slots.
    pub ring_size: u32,
    /// Seed of the flow hash.
    pub hash_seed: u32,
}

impl FlowKey {
    /// The key of the flow that comes from `ip`:`port`.
    pub fn new(ip: u32, port: u16) -> (k: FlowKey)
        ensures
            k.ip == ip,
            k.port == port,
            k._pad@ == seq![0u8, 0u8],
    {
        FlowKey { ip, port, _pad: [0; 2] }
    }
}

} // verus!

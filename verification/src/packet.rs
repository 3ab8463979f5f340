//! Layout of the packets the data plane handles (Ethernet II, IPv4 without
//! options, UDP), the reads and writes of their fields, and the full-NAT
//! header rewrite.

use vstd::prelude::*;
use crate::checksum::{be16, ipv4_checksum, compute_ipv4_checksum, with_check, lemma_checksum_verifies};

verus! {

/// Length of an Ethernet II header.
pub const ETH_HDR_LEN: usize = 14;

/// Length of a UDP header.
pub const UDP_HDR_LEN: usize = 8;

/// Offset of the IPv4 header.
pub const IP_OFF: usize = 14;

/// Offset of the UDP header (the IPv4 header is taken to have no options).
pub const UDP_OFF: usize = 34;

/// EtherType of IPv4.
pub const ETHERTYPE_IPV4: u16 = 0x0800;

/// IP protocol number of UDP.
pub const IPPROTO_UDP: u8 = 17;

/// The big-endian 32-bit word that starts at byte `i` of `p`.
pub open spec fn be32(p: Seq<u8>, i: int) -> int {
    be16(p, i) * 0x1_0000 + be16(p, i + 2)
}

/// `p` with the big-endian 16-bit value `v` written at byte `i`.
pub open spec fn put16(p: Seq<u8>, i: int, v: int) -> Seq<u8> {
    p.update(i, (v / 0x100) as u8).update(i + 1, (v % 0x100) as u8)
}

/// `p` with the big-endian 32-bit value `v` written at byte `i`.
pub open spec fn put32(p: Seq<u8>, i: int, v: int) -> Seq<u8> {
    put16(put16(p, i, v / 0x1_0000), i + 2, v % 0x1_0000)
}

/// `p` with the six bytes of `mac` written at byte `i`.
pub open spec fn put_mac(p: Seq<u8>, i: int, mac: Seq<u8>) -> Seq<u8> {
    Seq::new(p.len(), |j: int| if i <= j < i + 6 { mac[j - i] } else { p[j] })
}

/// Destination MAC address of the Ethernet header.
pub open spec fn eth_dst(p: Seq<u8>) -> Seq<u8> {
    p.subrange(0, 6)
}

/// Source MAC address of the Ethernet header.
pub open spec fn eth_src(p: Seq<u8>) -> Seq<u8> {
    p.subrange(6, 12)
}

/// EtherType of the Ethernet header.
pub open spec fn ether_type(p: Seq<u8>) -> int {
    be16(p, 12)
}

/// Protocol field of the IPv4 header.
pub open spec fn ip_proto(p: Seq<u8>) -> u8 {
    p[IP_OFF + 9]
}

/// Source address of the IPv4 header.
pub open spec fn ip_src(p: Seq<u8>) -> int {
    be32(p, IP_OFF + 12)
}

/// Destination address of the IPv4 header.
pub open spec fn ip_dst(p: Seq<u8>) -> int {
    be32(p, IP_OFF + 16)
}

/// The 20 bytes of the IPv4 header.
pub open spec fn ip_header(p: Seq<u8>) -> Seq<u8> {
    p.subrange(IP_OFF as int, UDP_OFF as int)
}

/// Source port of the UDP header.
pub open spec fn udp_src(p: Seq<u8>) -> int {
    be16(p, UDP_OFF as int)
}

/// Destination port of the UDP header.
pub open spec fn udp_dst(p: Seq<u8>) -> int {
    be16(p, UDP_OFF + 2)
}

/// Checksum field of the UDP header.
pub open spec fn udp_check(p: Seq<u8>) -> int {
    be16(p, UDP_OFF + 6)
}

/// The full-NAT rewrite of `p`: the packet leaves from the MAC address it
/// arrived at, towards `dst_mac`, with IP source `src_ip`, IP destination
/// `dst_ip` and UDP destination port `dst_port`; the UDP source port is
/// kept, the IPv4 checksum is recomputed and the UDP checksum is cleared.
pub open spec fn nat_rewrite(p: Seq<u8>, src_ip: u32, dst_ip: u32, dst_port: u16, dst_mac: Seq<u8>) -> Seq<u8> {
    let q1 = put_mac(put_mac(p, 6, eth_dst(p)), 0, dst_mac);
    let q2 = put16(put32(put32(q1, IP_OFF + 12, src_ip as int), IP_OFF + 16, dst_ip as int), UDP_OFF + 2, dst_port as int);
    let q3 = put16(put16(q2, IP_OFF + 10, 0), UDP_OFF + 6, 0);
    put16(q3, IP_OFF + 10, ipv4_checksum(ip_header(q3)) as int)
}

/// What a rewritten packet holds: the new addresses and port, the MAC
/// addresses swapped in, the UDP source port and the rest of the packet
/// kept, and an IPv4 header whose checksum verifies.
pub proof fn lemma_nat_rewrite_fields(p: Seq<u8>, src_ip: u32, dst_ip: u32, dst_port: u16, dst_mac: Seq<u8>)
    requires
        p.len() >= UDP_OFF + UDP_HDR_LEN,
        dst_mac.len() == 6,
    ensures
        ({
            let r = nat_rewrite(p, src_ip, dst_ip, dst_port, dst_mac);
            &&& r.len() == p.len()
            &&& eth_dst(r) == dst_mac
            &&& eth_src(r) == eth_dst(p)
            &&& ether_type(r) == ether_type(p)
            &&& ip_proto(r) == ip_proto(p)
            &&& ip_src(r) == src_ip
            &&& ip_dst(r) == dst_ip
            &&& udp_src(r) == udp_src(p)
            &&& udp_dst(r) == dst_port
            &&& udp_check(r) == 0
            &&& ipv4_checksum(ip_header(r)) == 0
            &&& forall|j: int| 12 <= j < p.len() && !(IP_OFF + 10 <= j < IP_OFF + 20) && !(UDP_OFF + 2 <= j < UDP_OFF + 4)
                && !(UDP_OFF + 6 <= j < UDP_OFF + 8) ==> r[j] == p[j]
        }),
{
    let q1 = put_mac(put_mac(p, 6, eth_dst(p)), 0, dst_mac);
    let q2 = put16(put32(put32(q1, IP_OFF + 12, src_ip as int), IP_OFF + 16, dst_ip as int), UDP_OFF + 2, dst_port as int);
    let q3 = put16(put16(q2, IP_OFF + 10, 0), UDP_OFF + 6, 0);
    let c = ipv4_checksum(ip_header(q3));
    let r = put16(q3, IP_OFF + 10, c as int);
    let h = ip_header(q2);
    assert(ip_header(q3) =~= with_check(h, 0));
    assert(with_check(with_check(h, 0), c) =~= ip_header(r));
    lemma_checksum_verifies(h);
    assert(eth_dst(r) =~= dst_mac);
    assert(eth_src(r) =~= eth_dst(p));
    assert(ip_src(r) == src_ip as int) by {
        lemma_be32_put(q1, IP_OFF + 12, src_ip);
    }
    assert(ip_dst(r) == dst_ip as int) by {
        lemma_be32_put(put32(q1, IP_OFF + 12, src_ip as int), IP_OFF + 16, dst_ip);
    }
}

proof fn lemma_be32_put(p: Seq<u8>, i: int, v: u32)
    requires
        0 <= i,
        i + 4 <= p.len(),
    ensures
        be32(put32(p, i, v as int), i) == v,
{
    let x = v as int;
    assert(x / 0x1_0000 < 0x1_0000);
    assert((x / 0x1_0000) / 0x100 * 0x100 + (x / 0x1_0000) % 0x100 == x / 0x1_0000);
    assert((x % 0x1_0000) / 0x100 * 0x100 + (x % 0x1_0000) % 0x100 == x % 0x1_0000);
    assert(x / 0x1_0000 * 0x1_0000 + x % 0x1_0000 == x);
}

proof fn lemma_bytes16(v: u16)
    by (bit_vector)
    ensures
        (v >> 8u16) as u8 == (v / 0x100) as u8,
        (v & 0xffu16) as u8 == (v % 0x100) as u8,
{
}

proof fn lemma_bytes32(v: u32)
    by (bit_vector)
    ensures
        (v >> 24u32) as u8 == ((v / 0x1_0000) / 0x100) as u8,
        ((v >> 16u32) & 0xffu32) as u8 == ((v / 0x1_0000) % 0x100) as u8,
        ((v >> 8u32) & 0xffu32) as u8 == ((v % 0x1_0000) / 0x100) as u8,
        (v & 0xffu32) as u8 == ((v % 0x1_0000) % 0x100) as u8,
{
}

/// Reads the big-endian 16-bit value at byte `i`.
pub fn get_u16(p: &[u8], i: usize) -> (v: u16)
    requires
        i + 2 <= p@.len(),
    ensures
        v == be16(p@, i as int),
{
    (p[i] as u16) * 0x100 + p[i + 1] as u16
}

/// Reads the big-endian 32-bit value at byte `i`.
pub fn get_u32(p: &[u8], i: usize) -> (v: u32)
    requires
        i + 4 <= p@.len(),
    ensures
        v == be32(p@, i as int),
{
    let n = p.len();
    let hi = get_u16(p, i) as u32;
    let lo = get_u16(p, i + 2) as u32;
    hi * 0x1_0000 + lo
}

/// Writes `v` big-endian at byte `i`.
pub fn put_u16(p: &mut [u8], i: usize, v: u16)
    requires
        i + 2 <= old(p)@.len(),
    ensures
        final(p)@ == put16(old(p)@, i as int, v as int),
{
    proof {
        lemma_bytes16(v);
    }
    p[i] = (v >> 8u16) as u8;
    p[i + 1] = (v & 0xffu16) as u8;
}

/// Writes `v` big-endian at byte `i`.
pub fn put_u32(p: &mut [u8], i: usize, v: u32)
    requires
        i + 4 <= old(p)@.len(),
    ensures
        final(p)@ == put32(old(p)@, i as int, v as int),
{
    proof {
        lemma_bytes32(v);
    }
    p[i] = (v >> 24u32) as u8;
    p[i + 1] = ((v >> 16u32) & 0xffu32) as u8;
    p[i + 2] = ((v >> 8u32) & 0xffu32) as u8;
    p[i + 3] = (v & 0xffu32) as u8;
}

/// Writes the six bytes of `mac` at byte `i`.
pub fn put_mac_at(p: &mut [u8], i: usize, mac: &[u8; 6])
    requires
        i + 6 <= old(p)@.len(),
    ensures
        final(p)@ == put_mac(old(p)@, i as int, mac@),
{
    let ghost p0 = p@;
    let n = p.len();
    let mut k: usize = 0;
    while k < 6
        invariant
            k <= 6,
            i + 6 <= p@.len(),
            p@.len() == p0.len(),
            p@.len() == n,
            forall|j: int| 0 <= j < p@.len() ==> #[trigger] p@[j] == (if i <= j < i + k { mac@[j - i] } else { p0[j] }),
        decreases 6 - k,
    {
        p[i + k] = mac[k];
        k = k + 1;
    }
    assert(p@ =~= put_mac(p0, i as int, mac@));
}

/// Reads the six bytes at byte `i` as a MAC address.
pub fn get_mac(p: &[u8], i: usize) -> (mac: [u8; 6])
    requires
        i + 6 <= p@.len(),
    ensures
        mac@ == p@.subrange(i as int, i + 6),
{
    let mac = [p[i], p[i + 1], p[i + 2], p[i + 3], p[i + 4], p[i + 5]];
    assert(mac@ =~= p@.subrange(i as int, i + 6));
    mac
}

/// Rewrites the headers of `p` as `nat_rewrite` says.
pub fn rewrite_headers(p: &mut [u8], src_ip: u32, dst_ip: u32, dst_port: u16, dst_mac: &[u8; 6])
    requires
        old(p)@.len() >= UDP_OFF + UDP_HDR_LEN,
    ensures
        final(p)@ == nat_rewrite(old(p)@, src_ip, dst_ip, dst_port, dst_mac@),
{
    let ghost p0 = p@;
    let lb_mac = get_mac(p, 0);
    put_mac_at(p, 6, &lb_mac);
    put_mac_at(p, 0, dst_mac);
    put_u32(p, IP_OFF + 12, src_ip);
    put_u32(p, IP_OFF + 16, dst_ip);
    put_u16(p, UDP_OFF + 2, dst_port);
    put_u16(p, IP_OFF + 10, 0);
    put_u16(p, UDP_OFF + 6, 0);
    let ghost q3 = p@;
    let check = compute_ipv4_checksum(&p[IP_OFF..UDP_OFF]);
    assert(p@.subrange(IP_OFF as int, UDP_OFF as int) == ip_header(q3));
    put_u16(p, IP_OFF + 10, check);
}

} // verus!

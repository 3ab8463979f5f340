//! The flow hash: Bob Jenkins' `final` mix over a source address and port.

use vstd::prelude::*;

verus! {

/// `x` rotated left by `k` bits, for `0 < k < 32`.
pub open spec fn rotl32(x: u32, k: u32) -> u32 {
    (((x as int * pow2_32(k)) % 0x1_0000_0000) + x as int / pow2_32((32 - k) as u32)) as u32
}

/// `2^k` for `k < 32`.
pub open spec fn pow2_32(k: u32) -> int
    decreases k,
{
    if k == 0 {
        1
    } else {
        2 * pow2_32((k - 1) as u32)
    }
}

/// The value `calculate_hash(ip, port, seed)` returns.
pub open spec fn spec_calculate_hash(ip: u32, port: u16, seed: u32) -> u32 {
    let init = 0xdeadbeefu32.wrapping_add(6).wrapping_add(seed);
    let a0 = ip.wrapping_add(init);
    let b0 = (port as u32).wrapping_add(init);
    let c0 = init;
    let c1 = (c0 ^ b0).wrapping_sub(rotl32(b0, 14));
    let a1 = (a0 ^ c1).wrapping_sub(rotl32(c1, 11));
    let b1 = (b0 ^ a1).wrapping_sub(rotl32(a1, 25));
    let c2 = (c1 ^ b1).wrapping_sub(rotl32(b1, 16));
    let a2 = (a1 ^ c2).wrapping_sub(rotl32(c2, 4));
    let b2 = (b1 ^ a2).wrapping_sub(rotl32(a2, 14));
    (c2 ^ b2).wrapping_sub(rotl32(b2, 24))
}

proof fn lemma_pow2_values()
    ensures
        pow2_32(4) == 0x10,
        pow2_32(8) == 0x100,
        pow2_32(11) == 0x800,
        pow2_32(14) == 0x4000,
        pow2_32(16) == 0x1_0000,
        pow2_32(18) == 0x4_0000,
        pow2_32(21) == 0x20_0000,
        pow2_32(24) == 0x100_0000,
        pow2_32(25) == 0x200_0000,
        pow2_32(28) == 0x1000_0000,
{
    reveal_with_fuel(pow2_32, 29);
}

/// Rotation by shifting, for the amounts the hash uses.
fn rotl(x: u32, k: u32) -> (r: u32)
    requires
        k == 4 || k == 11 || k == 14 || k == 16 || k == 24 || k == 25,
    ensures
        r == rotl32(x, k),
{
    proof {
        lemma_pow2_values();
    }
    let r = (x << k) | (x >> (32 - k));
    if k == 4 {
        assert((x << 4u32) | (x >> 28u32) == ((x as int * 0x10) % 0x1_0000_0000 + x as int / 0x1000_0000) as u32) by (bit_vector);
    } else if k == 11 {
        assert((x << 11u32) | (x >> 21u32) == ((x as int * 0x800) % 0x1_0000_0000 + x as int / 0x20_0000) as u32) by (bit_vector);
    } else if k == 14 {
        assert((x << 14u32) | (x >> 18u32) == ((x as int * 0x4000) % 0x1_0000_0000 + x as int / 0x4_0000) as u32) by (bit_vector);
    } else if k == 16 {
        assert((x << 16u32) | (x >> 16u32) == ((x as int * 0x1_0000) % 0x1_0000_0000 + x as int / 0x1_0000) as u32) by (bit_vector);
    } else if k == 24 {
        assert((x << 24u32) | (x >> 8u32) == ((x as int * 0x100_0000) % 0x1_0000_0000 + x as int / 0x100) as u32) by (bit_vector);
    } else {
        assert((x << 25u32) | (x >> 7u32) == ((x as int * 0x200_0000) % 0x1_0000_0000 + x as int / 0x80) as u32) by (bit_vector);
    }
    r
}

/// Hashes a flow's source address and port (both in host order) with `seed`.
pub fn calculate_hash(ip: u32, port: u16, seed: u32) -> (h: u32)
    ensures
        h == spec_calculate_hash(ip, port, seed),
{
    let jh_magic = 0xdeadbeefu32;
    let length = 6u32;
    let mut a = ip.wrapping_add(jh_magic).wrapping_add(length).wrapping_add(seed);
    let mut b = (port as u32).wrapping_add(jh_magic).wrapping_add(length).wrapping_add(seed);
    let mut c = jh_magic.wrapping_add(length).wrapping_add(seed);
    c ^= b;
    c = c.wrapping_sub(rotl(b, 14));
    a ^= c;
    a = a.wrapping_sub(rotl(c, 11));
    b ^= a;
    b = b.wrapping_sub(rotl(a, 25));
    c ^= b;
    c = c.wrapping_sub(rotl(b, 16));
    a ^= c;
    a = a.wrapping_sub(rotl(c, 4));
    b ^= a;
    b = b.wrapping_sub(rotl(a, 14));
    c ^= b;
    c = c.wrapping_sub(rotl(b, 24));
    c
}

} // verus!

//! The IPv4 header checksum (RFC 791): the one's complement of the one's
//! complement sum of the header's ten 16-bit words.

use vstd::prelude::*;

verus! {

/// Length of an IPv4 header without options.
pub const IPV4_HDR_LEN: usize = 20;

/// The big-endian 16-bit word that starts at byte `i` of `p`.
pub open spec fn be16(p: Seq<u8>, i: int) -> int {
    p[i] as int * 0x100 + p[i + 1] as int
}

/// Sum of the first `n` big-endian words of `p`.
pub open spec fn word_sum(p: Seq<u8>, n: nat) -> int
    decreases n,
{
    if n == 0 {
        0
    } else {
        word_sum(p, (n - 1) as nat) + be16(p, 2 * (n - 1))
    }
}

/// One step of folding the carries above bit 16 back into the low 16 bits.
pub open spec fn fold16(x: int) -> int {
    x % 0x1_0000 + x / 0x1_0000
}

/// The checksum of the 20-byte IPv4 header at the start of `h`.
pub open spec fn ipv4_checksum(h: Seq<u8>) -> u16 {
    (0xffff - fold16(fold16(word_sum(h, 10)))) as u16
}

/// `h` with the checksum field (bytes 10 and 11 of the header) set to `c`.
pub open spec fn with_check(h: Seq<u8>, c: u16) -> Seq<u8> {
    h.update(10, (c / 0x100) as u8).update(11, (c % 0x100) as u8)
}

proof fn lemma_word_sum_bound(p: Seq<u8>, n: nat)
    requires
        2 * n <= p.len(),
    ensures
        0 <= word_sum(p, n) <= n * 0xffff,
    decreases n,
{
    if n > 0 {
        lemma_word_sum_bound(p, (n - 1) as nat);
    }
}

proof fn lemma_fold_bounds(s: u32)
    by (bit_vector)
    requires
        s < 0x10_0000,
    ensures
        (s & 0xffff) == s % 0x1_0000,
        (s >> 16) == s / 0x1_0000,
        s % 0x1_0000 + s / 0x1_0000 < 0x1_0010,
        ((s % 0x1_0000 + s / 0x1_0000) % 0x1_0000 + (s % 0x1_0000 + s / 0x1_0000) / 0x1_0000)
            <= 0xffff,
{
}

proof fn lemma_mask_shift(s: u32)
    by (bit_vector)
    ensures
        (s & 0xffff) == s % 0x1_0000,
        (s >> 16) == s / 0x1_0000,
{
}

proof fn lemma_not16(x: u32)
    by (bit_vector)
    requires
        x <= 0xffff,
    ensures
        !(x as u16) == (0xffff - x) as u16,
{
}

/// Computes the checksum of the IPv4 header that `header` starts with.
pub fn compute_ipv4_checksum(header: &[u8]) -> (c: u16)
    requires
        header@.len() >= IPV4_HDR_LEN,
    ensures
        c == ipv4_checksum(header@),
{
    let mut csum: u32 = 0;
    let mut i: usize = 0;
    while i < IPV4_HDR_LEN / 2
        invariant
            i <= 10,
            header@.len() >= 20,
            csum == word_sum(header@, i as nat),
        decreases 10 - i,
    {
        proof {
            lemma_word_sum_bound(header@, i as nat);
        }
        let word = (header[2 * i] as u32) * 0x100 + header[2 * i + 1] as u32;
        csum = csum + word;
        i = i + 1;
    }
    proof {
        lemma_word_sum_bound(header@, 10);
        lemma_fold_bounds(csum);
    }
    let s0 = csum;
    csum = (csum & 0xffff) + (csum >> 16);
    let s1 = csum;
    proof {
        lemma_mask_shift(s1);
    }
    csum = (csum & 0xffff) + (csum >> 16);
    proof {
        lemma_not16(csum);
    }
    !(csum as u16)
}

proof fn lemma_word_sum_update(z: Seq<u8>, c: u16, n: nat)
    requires
        z.len() >= 20,
        z[10] == 0,
        z[11] == 0,
        n <= 10,
    ensures
        word_sum(with_check(z, c), n) == word_sum(z, n) + (if n > 5 { c as int } else { 0 }),
    decreases n,
{
    if n > 0 {
        lemma_word_sum_update(z, c, (n - 1) as nat);
    }
}

proof fn lemma_fold_law(s0: u32)
    by (bit_vector)
    requires
        s0 < 0x10_0000,
    ensures
        ({
            let f1 = s0 % 0x1_0000 + s0 / 0x1_0000;
            let f2 = f1 % 0x1_0000 + f1 / 0x1_0000;
            let s = s0 + (0xffff - f2);
            let g1 = s % 0x1_0000 + s / 0x1_0000;
            g1 % 0x1_0000 + g1 / 0x1_0000 == 0xffff
        }),
{
}

/// A header whose checksum field holds the checksum computed over it with
/// that field zeroed checks out: its own checksum is 0.
pub proof fn lemma_checksum_verifies(h: Seq<u8>)
    requires
        h.len() >= IPV4_HDR_LEN,
    ensures
        ipv4_checksum(with_check(with_check(h, 0), ipv4_checksum(with_check(h, 0)))) == 0,
{
    let z = with_check(h, 0);
    let c = ipv4_checksum(z);
    lemma_word_sum_update(z, c, 10);
    lemma_word_sum_bound(z, 10);
    let s0 = word_sum(z, 10) as u32;
    lemma_fold_law(s0);
    lemma_fold_bounds(s0);
}

/// `h` (its first 20 bytes) with the two bytes of every 16-bit word swapped.
pub open spec fn swap_words(h: Seq<u8>) -> Seq<u8> {
    Seq::new(20, |i: int| if i % 2 == 0 { h[i + 1] } else { h[i - 1] })
}

/// `x` with its two bytes swapped.
pub open spec fn swap16(x: u16) -> u16 {
    ((x as int % 0x100) * 0x100 + x as int / 0x100) as u16
}

/// Sum of the high bytes of the first `n` words of `p`.
spec fn high_sum(p: Seq<u8>, n: nat) -> int
    decreases n,
{
    if n == 0 {
        0
    } else {
        high_sum(p, (n - 1) as nat) + p[2 * (n - 1)]
    }
}

/// Sum of the low bytes of the first `n` words of `p`.
spec fn low_sum(p: Seq<u8>, n: nat) -> int
    decreases n,
{
    if n == 0 {
        0
    } else {
        low_sum(p, (n - 1) as nat) + p[2 * (n - 1) + 1]
    }
}

proof fn lemma_swap_sums(h: Seq<u8>, n: nat)
    requires
        h.len() >= 20,
        n <= 10,
    ensures
        0x100 * word_sum(h, n) == word_sum(swap_words(h), n) + 0xffff * high_sum(h, n),
        0x100 * word_sum(swap_words(h), n) == word_sum(h, n) + 0xffff * low_sum(h, n),
        0 <= high_sum(h, n) <= 0xff * n,
        0 <= low_sum(h, n) <= 0xff * n,
    decreases n,
{
    if n > 0 {
        let k = n - 1;
        lemma_swap_sums(h, k as nat);
        let sw = swap_words(h);
        assert((2 * k) % 2 == 0);
        assert((2 * k + 1) % 2 == 1);
        assert(sw[2 * k] == h[2 * k + 1]);
        assert(sw[2 * k + 1] == h[2 * k]);
    }
}

proof fn lemma_fold_swap(s: u32, t: u32, a: u32)
    by (bit_vector)
    requires
        s < 0x10_0000,
        t < 0x10_0000,
        a <= 2550,
        0x100 * s == t + 0xffff * a,
        s > 0,
        t > 0,
    ensures
        ({
            let x = (s % 0x1_0000 + s / 0x1_0000) % 0x1_0000 + (s % 0x1_0000 + s / 0x1_0000) / 0x1_0000;
            let y = (t % 0x1_0000 + t / 0x1_0000) % 0x1_0000 + (t % 0x1_0000 + t / 0x1_0000) / 0x1_0000;
            y == (x % 0x100) * 0x100 + x / 0x100
        }),
{
}

proof fn lemma_swap_complement(x: u32)
    by (bit_vector)
    requires
        x <= 0xffff,
    ensures
        ((0xffff - x) % 0x100) * 0x100 + (0xffff - x) / 0x100 == 0xffff - ((x % 0x100) * 0x100 + x / 0x100),
{
}

/// The checksum does not depend on the byte order within words: computed
/// over a header whose words have their bytes swapped, it is the checksum
/// of the header with its bytes swapped. So summing words read in either
/// byte order, and storing the result in that order, writes the same bytes.
pub proof fn lemma_checksum_byte_order(h: Seq<u8>)
    requires
        h.len() >= IPV4_HDR_LEN,
    ensures
        ipv4_checksum(swap_words(h)) == swap16(ipv4_checksum(h)),
{
    let sw = swap_words(h);
    lemma_swap_sums(h, 10);
    lemma_word_sum_bound(h, 10);
    lemma_word_sum_bound(sw, 10);
    let s = word_sum(h, 10);
    let t = word_sum(sw, 10);
    lemma_fold_bounds(s as u32);
    lemma_fold_bounds(t as u32);
    let x = fold16(fold16(s));
    let y = fold16(fold16(t));
    if s == 0 {
        assert(t == 0);
        assert(x == 0 && y == 0);
    } else {
        assert(t > 0);
        lemma_fold_swap(s as u32, t as u32, high_sum(h, 10) as u32);
        assert(y == (x % 0x100) * 0x100 + x / 0x100);
        lemma_swap_complement(x as u32);
    }
}

} // verus!

//! The balancer's configuration records and the parsing of MAC addresses.

use vstd::prelude::*;
use crate::common::LbConfig;

verus! {

/// A real server as the configuration file lists it.
#[derive(Clone, Debug)]
pub struct BackendConfig {
    pub ip: String,
    pub port: u16,
    pub mac: String,
}

/// The configuration file.
#[derive(Clone, Debug)]
pub struct AppConfig {
    pub iface: String,
    pub ring_size: u32,
    pub vip: String,
    pub lip: String,
    pub backends: Vec<BackendConfig>,
}

/// The data-plane settings as the configuration map holds them.
#[derive(Clone, Copy, Debug)]
pub struct PodLbConfig(pub LbConfig);

/// Why a configuration value was refused.
#[derive(Clone, Copy, PartialEq, Eq, Structural, Debug)]
pub enum ConfigError {
    /// A MAC address is not six colon-separated hexadecimal bytes.
    InvalidMac,
    /// An IPv4 address does not parse.
    InvalidAddress,
}

/// `b` is an ASCII hexadecimal digit.
pub open spec fn is_hex_digit(b: u8) -> bool {
    (0x30 <= b <= 0x39) || (0x41 <= b <= 0x46) || (0x61 <= b <= 0x66)
}

/// The value of the hexadecimal digit `b`.
pub open spec fn hex_value(b: u8) -> int {
    if b <= 0x39 {
        b - 0x30
    } else if b <= 0x46 {
        b - 0x41 + 10
    } else {
        b - 0x61 + 10
    }
}

/// Every byte of `d` is a hexadecimal digit.
pub open spec fn all_hex(d: Seq<u8>) -> bool {
    forall|i: int| 0 <= i < d.len() ==> is_hex_digit(#[trigger] d[i])
}

/// The number the hexadecimal digits `d` spell.
pub open spec fn digits_value(d: Seq<u8>) -> int
    decreases d.len(),
{
    if d.len() == 0 {
        0
    } else {
        digits_value(d.drop_last()) * 16 + hex_value(d.last())
    }
}

/// The byte a field of a MAC address denotes, as `u8::from_str_radix(f, 16)`
/// reads it: an optional `+`, then at least one hexadecimal digit, of
/// value at most 255.
pub open spec fn hex_byte(f: Seq<u8>) -> Option<u8> {
    let d = if f.len() > 0 && f[0] == 0x2b { f.drop_first() } else { f };
    if d.len() > 0 && all_hex(d) && digits_value(d) <= 255 {
        Some(digits_value(d) as u8)
    } else {
        None
    }
}

/// `s` split at every `:`, as `str::split(':')` splits it.
pub open spec fn split_colon(s: Seq<u8>) -> Seq<Seq<u8>>
    decreases s.len(),
{
    if s.len() == 0 {
        seq![Seq::<u8>::empty()]
    } else {
        let parts = split_colon(s.drop_last());
        if s.last() == 0x3a {
            parts.push(Seq::<u8>::empty())
        } else {
            parts.update(parts.len() - 1, parts.last().push(s.last()))
        }
    }
}

/// The six bytes the text `s` (its UTF-8 bytes) denotes as a MAC address,
/// if it is one.
pub open spec fn spec_parse_mac(s: Seq<u8>) -> Option<Seq<u8>> {
    let parts = split_colon(s);
    if parts.len() == 6 && forall|i: int| 0 <= i < 6 ==> (#[trigger] hex_byte(parts[i])) is Some {
        Some(Seq::new(6, |i: int| hex_byte(parts[i])->0))
    } else {
        None
    }
}

proof fn lemma_digits_prefix(d: Seq<u8>, k: int)
    requires
        0 <= k <= d.len(),
        all_hex(d),
    ensures
        digits_value(d.take(k)) <= digits_value(d),
        0 <= digits_value(d.take(k)),
    decreases d.len() - k,
{
    if k < d.len() {
        lemma_digits_prefix(d, k + 1);
        assert(d.take(k + 1).drop_last() =~= d.take(k));
        lemma_digits_nonneg(d.take(k));
    } else {
        assert(d.take(k) =~= d);
        lemma_digits_nonneg(d);
    }
}

proof fn lemma_digits_nonneg(d: Seq<u8>)
    requires
        all_hex(d),
    ensures
        0 <= digits_value(d),
    decreases d.len(),
{
    if d.len() > 0 {
        lemma_digits_nonneg(d.drop_last());
    }
}

/// The hexadecimal digit of `v` (below 16), in upper or lower case.
pub open spec fn hex_digit_char(v: int, upper: bool) -> u8 {
    if v < 10 {
        (0x30 + v) as u8
    } else if upper {
        (0x41 + v - 10) as u8
    } else {
        (0x61 + v - 10) as u8
    }
}

/// The two hexadecimal digits of `b`.
pub open spec fn hex2(b: u8, upper: bool) -> Seq<u8> {
    seq![hex_digit_char(b as int / 16, upper), hex_digit_char(b as int % 16, upper)]
}

/// The six bytes of `m` written as colon-separated two-digit hexadecimal,
/// like `format!("{:02x}:{:02x}:..", ..)` (or with `{:02X}`).
pub open spec fn mac_text(m: Seq<u8>, upper: bool) -> Seq<u8> {
    hex2(m[0], upper) + seq![0x3au8] + hex2(m[1], upper) + seq![0x3au8] + hex2(m[2], upper) + seq![0x3au8]
        + hex2(m[3], upper) + seq![0x3au8] + hex2(m[4], upper) + seq![0x3au8] + hex2(m[5], upper)
}

/// `h` holds no `:`.
pub open spec fn colon_free(h: Seq<u8>) -> bool {
    forall|i: int| 0 <= i < h.len() ==> #[trigger] h[i] != 0x3a
}

proof fn lemma_split_colon_free(h: Seq<u8>)
    requires
        colon_free(h),
    ensures
        split_colon(h) == seq![h],
    decreases h.len(),
{
    if h.len() > 0 {
        lemma_split_colon_free(h.drop_last());
        assert(h.drop_last().push(h.last()) =~= h);
        assert(split_colon(h) =~= seq![h]);
    } else {
        assert(h =~= Seq::<u8>::empty());
    }
}

proof fn lemma_split_append_field(s: Seq<u8>, h: Seq<u8>)
    requires
        colon_free(h),
    ensures
        split_colon(s + seq![0x3au8] + h) == split_colon(s).push(h),
    decreases h.len(),
{
    let x = s + seq![0x3au8] + h;
    if h.len() == 0 {
        assert(x.drop_last() =~= s);
        assert(h =~= Seq::<u8>::empty());
        assert(split_colon(x) =~= split_colon(s).push(h));
    } else {
        lemma_split_append_field(s, h.drop_last());
        assert(x.drop_last() =~= s + seq![0x3au8] + h.drop_last());
        assert(h.drop_last().push(h.last()) =~= h);
        assert(split_colon(x) =~= split_colon(s).push(h));
    }
}

proof fn lemma_hex2_byte(b: u8, upper: bool)
    ensures
        colon_free(hex2(b, upper)),
        hex_byte(hex2(b, upper)) == Some(b),
{
    let h = hex2(b, upper);
    assert(h.drop_last() =~= seq![h[0]]);
    assert(h.drop_last().drop_last() =~= Seq::<u8>::empty());
    assert(all_hex(h));
    assert(hex_value(h[0]) == b as int / 16);
    assert(hex_value(h[1]) == b as int % 16);
    assert(digits_value(h.drop_last().drop_last()) == 0);
    assert(h.drop_last().last() == h[0]);
    assert(digits_value(h.drop_last()) == hex_value(h[0]));
    assert(digits_value(h) == digits_value(h.drop_last()) * 16 + hex_value(h[1]));
    assert(digits_value(h) == b);
}

/// Writing a MAC address as colon-separated two-digit hexadecimal (upper or
/// lower case) and parsing the text gives back the same six bytes.
pub proof fn lemma_parse_mac_of_text(m: Seq<u8>, upper: bool)
    requires
        m.len() == 6,
    ensures
        spec_parse_mac(mac_text(m, upper)) == Some(m),
{
    let h0 = hex2(m[0], upper);
    let h1 = hex2(m[1], upper);
    let h2 = hex2(m[2], upper);
    let h3 = hex2(m[3], upper);
    let h4 = hex2(m[4], upper);
    let h5 = hex2(m[5], upper);
    lemma_hex2_byte(m[0], upper);
    lemma_hex2_byte(m[1], upper);
    lemma_hex2_byte(m[2], upper);
    lemma_hex2_byte(m[3], upper);
    lemma_hex2_byte(m[4], upper);
    lemma_hex2_byte(m[5], upper);
    let c = seq![0x3au8];
    let t1 = h0 + c + h1;
    let t2 = t1 + c + h2;
    let t3 = t2 + c + h3;
    let t4 = t3 + c + h4;
    let t5 = t4 + c + h5;
    lemma_split_colon_free(h0);
    lemma_split_append_field(h0, h1);
    lemma_split_append_field(t1, h2);
    lemma_split_append_field(t2, h3);
    lemma_split_append_field(t3, h4);
    lemma_split_append_field(t4, h5);
    assert(t5 == mac_text(m, upper));
    let parts = split_colon(t5);
    assert(parts =~= seq![h0, h1, h2, h3, h4, h5]);
    assert(Seq::new(6, |i: int| hex_byte(parts[i])->0) =~= m);
}

/// `b` may stand in MAC address text: a digit 0-9, a letter a-f or A-F, a
/// colon or a plus sign.
pub open spec fn mac_text_byte(b: u8) -> bool {
    (0x30 <= b && b <= 0x39) || (0x41 <= b && b <= 0x46) || (0x61 <= b && b <= 0x66) || b == 0x3a || b == 0x2b
}

proof fn lemma_hex_byte_bytes(f: Seq<u8>)
    requires
        hex_byte(f) is Some,
    ensures
        forall|j: int| 0 <= j < f.len() ==> mac_text_byte(#[trigger] f[j]),
        forall|j: int| 0 < j < f.len() ==> #[trigger] f[j] != 0x2b,
{
    let d = if f.len() > 0 && f[0] == 0x2b { f.drop_first() } else { f };
    assert forall|j: int| 0 <= j < f.len() implies mac_text_byte(#[trigger] f[j]) && (j > 0 ==> f[j] != 0x2b) by {
        if f.len() > 0 && f[0] == 0x2b {
            if j > 0 {
                assert(d[j - 1] == f[j]);
                assert(is_hex_digit(d[j - 1]));
            }
        } else {
            assert(is_hex_digit(d[j]));
        }
    }
}

proof fn lemma_split_colon_nonempty(s: Seq<u8>)
    ensures
        split_colon(s).len() >= 1,
    decreases s.len(),
{
    if s.len() > 0 {
        lemma_split_colon_nonempty(s.drop_last());
    }
}

proof fn lemma_split_colon_covers(s: Seq<u8>)
    requires
        forall|k: int, j: int| 0 <= k < split_colon(s).len() && 0 <= j < split_colon(s)[k].len()
            ==> mac_text_byte(#[trigger] split_colon(s)[k][j]),
    ensures
        forall|i: int| 0 <= i < s.len() ==> mac_text_byte(#[trigger] s[i]),
    decreases s.len(),
{
    if s.len() > 0 {
        let t = s.drop_last();
        let p = split_colon(t);
        lemma_split_colon_nonempty(t);
        let q = split_colon(s);
        assert forall|k: int, j: int| 0 <= k < p.len() && 0 <= j < p[k].len() implies mac_text_byte(#[trigger] p[k][j]) by {
            if s.last() == 0x3a {
                assert(q[k] == p[k]);
            } else if k < p.len() - 1 {
                assert(q[k] == p[k]);
            } else {
                assert(q[k] == p[k].push(s.last()));
                assert(q[k][j] == p[k][j]);
            }
        }
        lemma_split_colon_covers(t);
        assert forall|i: int| 0 <= i < s.len() implies mac_text_byte(#[trigger] s[i]) by {
            if i < s.len() - 1 {
                assert(s[i] == t[i]);
            } else if s.last() != 0x3a {
                let last = p.len() - 1;
                assert(q[last] == p[last].push(s.last()));
                assert(q[last][p[last].len() as int] == s.last());
            }
        }
    }
}

/// Text that parses as a MAC address holds nothing but hexadecimal digits
/// (0-9, a-f, A-F), colons and plus signs: any other character is refused.
pub proof fn lemma_parse_mac_text_bytes(s: Seq<u8>)
    ensures
        spec_parse_mac(s) is Some ==> forall|i: int| 0 <= i < s.len() ==>
            ((0x30 <= #[trigger] s[i] && s[i] <= 0x39) || (0x41 <= s[i] && s[i] <= 0x46)
                || (0x61 <= s[i] && s[i] <= 0x66) || s[i] == 0x3a || s[i] == 0x2b),
{
    if spec_parse_mac(s) is Some {
        let parts = split_colon(s);
        assert forall|k: int, j: int| 0 <= k < parts.len() && 0 <= j < parts[k].len()
            implies mac_text_byte(#[trigger] parts[k][j]) by {
            assert(hex_byte(parts[k]) is Some);
            lemma_hex_byte_bytes(parts[k]);
        }
        lemma_split_colon_covers(s);
        assert forall|i: int| 0 <= i < s.len() implies
            ((0x30 <= #[trigger] s[i] && s[i] <= 0x39) || (0x41 <= s[i] && s[i] <= 0x46)
                || (0x61 <= s[i] && s[i] <= 0x66) || s[i] == 0x3a || s[i] == 0x2b) by {
            assert(mac_text_byte(s[i]));
        }
    }
}

/// A single character field is read as a byte exactly when it is a
/// hexadecimal digit, with the digit's value.
pub proof fn lemma_hex_byte_single(c: u8)
    ensures
        hex_byte(seq![c]) == (if 0x30 <= c && c <= 0x39 {
            Some((c - 0x30) as u8)
        } else if 0x41 <= c && c <= 0x46 {
            Some((c - 0x41 + 10) as u8)
        } else if 0x61 <= c && c <= 0x66 {
            Some((c - 0x61 + 10) as u8)
        } else {
            None
        }),
{
    let f = seq![c];
    assert(f.drop_last() =~= Seq::<u8>::empty());
    if c == 0x2b {
        assert(f.drop_first() =~= Seq::<u8>::empty());
    } else {
        assert(f[0] == c);
        assert(f.last() == c);
        assert(all_hex(f) == is_hex_digit(c));
        assert(digits_value(f.drop_last()) == 0);
        assert(digits_value(f) == hex_value(c));
    }
}

/// Reads the field `b[start..end]` as a hexadecimal byte.
fn parse_hex_byte(b: &[u8], start: usize, end: usize) -> (r: Option<u8>)
    requires
        start <= end <= b@.len(),
    ensures
        r == hex_byte(b@.subrange(start as int, end as int)),
{
    let ghost f = b@.subrange(start as int, end as int);
    let mut j = start;
    if j < end && b[j] == 0x2b {
        j = j + 1;
    }
    let ghost d = if f.len() > 0 && f[0] == 0x2b { f.drop_first() } else { f };
    assert(d =~= b@.subrange(j as int, end as int));
    if j == end {
        return None;
    }
    let mut v: u32 = 0;
    let mut k = j;
    while k < end
        invariant
            j < end,
            j <= k <= end,
            end <= b@.len(),
            f == b@.subrange(start as int, end as int),
            d == (if f.len() > 0 && f[0] == 0x2b { f.drop_first() } else { f }),
            d == b@.subrange(j as int, end as int),
            all_hex(d.take(k - j)),
            v == digits_value(d.take(k - j)),
            v <= 255,
        decreases end - k,
    {
        let c = b[k];
        assert(d[k - j] == c);
        let h: u32 = if 0x30 <= c && c <= 0x39 {
            (c - 0x30) as u32
        } else if 0x41 <= c && c <= 0x46 {
            (c - 0x41 + 10) as u32
        } else if 0x61 <= c && c <= 0x66 {
            (c - 0x61 + 10) as u32
        } else {
            assert(!is_hex_digit(d[k - j]));
            assert(!all_hex(d));
            return None;
        };
        assert(d.take(k - j + 1).drop_last() =~= d.take(k - j));
        v = v * 16 + h;
        k = k + 1;
        if v > 255 {
            proof {
                if all_hex(d) {
                    lemma_digits_prefix(d, k - j);
                }
            }
            return None;
        }
    }
    assert(d.take(k - j) =~= d);
    Some(v as u8)
}

/// Parses a MAC address written as six colon-separated hexadecimal bytes.
pub fn parse_mac(mac_str: &str) -> (r: Result<[u8; 6], ConfigError>)
    ensures
        match spec_parse_mac(vstd::utf8::encode_utf8(mac_str@)) {
            Some(m) => r matches Ok(mac) && mac@ == m,
            None => r == Err::<[u8; 6], ConfigError>(ConfigError::InvalidMac),
        },
        r is Ok ==> forall|i: int| 0 <= i < vstd::utf8::encode_utf8(mac_str@).len() ==> ({
            let c = #[trigger] vstd::utf8::encode_utf8(mac_str@)[i];
            (0x30 <= c && c <= 0x39) || (0x41 <= c && c <= 0x46) || (0x61 <= c && c <= 0x66) || c == 0x3a || c == 0x2b
        }),
{
    let b = mac_str.as_bytes();
    let ghost s = b@;
    assert(s == vstd::utf8::encode_utf8(mac_str@));
    let n = b.len();
    let mut starts: Vec<usize> = Vec::new();
    let mut ends: Vec<usize> = Vec::new();
    let ghost mut fields: Seq<Seq<u8>> = Seq::empty();
    let mut start: usize = 0;
    let mut i: usize = 0;
    assert(s.take(0) =~= Seq::<u8>::empty());
    assert(s.subrange(0, 0) =~= Seq::<u8>::empty());
    assert(split_colon(s.take(0)) =~= fields.push(s.subrange(0, 0)));
    while i < n
        invariant
            n == s.len(),
            s == b@,
            start <= i <= n,
            starts@.len() == ends@.len(),
            fields.len() == starts@.len(),
            forall|k: int| 0 <= k < starts@.len() ==> #[trigger] starts@[k] <= ends@[k],
            forall|k: int| 0 <= k < starts@.len() ==> #[trigger] ends@[k] <= start,
            forall|k: int| 0 <= k < starts@.len() ==> #[trigger] fields[k] == s.subrange(starts@[k] as int, ends@[k] as int),
            split_colon(s.take(i as int)) == fields.push(s.subrange(start as int, i as int)),
        decreases n - i,
    {
        let ghost prev = split_colon(s.take(i as int));
        assert(s.take(i + 1).drop_last() =~= s.take(i as int));
        assert(s.take(i + 1).last() == s[i as int]);
        if b[i] == 0x3a {
            proof {
                fields = fields.push(s.subrange(start as int, i as int));
            }
            starts.push(start);
            ends.push(i);
            start = i + 1;
            assert(s.subrange(start as int, start as int) =~= Seq::<u8>::empty());
            assert(split_colon(s.take(i + 1)) =~= fields.push(s.subrange(start as int, i + 1)));
        } else {
            assert(s.subrange(start as int, i + 1) =~= s.subrange(start as int, i as int).push(s[i as int]));
            assert(split_colon(s.take(i + 1)) =~= fields.push(s.subrange(start as int, i + 1)));
        }
        i = i + 1;
    }
    assert(s.take(n as int) =~= s);
    proof {
        fields = fields.push(s.subrange(start as int, n as int));
    }
    starts.push(start);
    ends.push(n);
    let ghost parts = split_colon(s);
    assert(parts == fields);
    if starts.len() != 6 {
        return Err(ConfigError::InvalidMac);
    }
    let mut mac = [0u8; 6];
    let mut k: usize = 0;
    while k < 6
        invariant
            k <= 6,
            starts@.len() == 6,
            ends@.len() == 6,
            s == b@,
            s == vstd::utf8::encode_utf8(mac_str@),
            parts == split_colon(s),
            parts.len() == 6,
            forall|q: int| 0 <= q < 6 ==> #[trigger] starts@[q] <= ends@[q] <= s.len(),
            forall|q: int| 0 <= q < 6 ==> #[trigger] parts[q] == s.subrange(starts@[q] as int, ends@[q] as int),
            forall|q: int| 0 <= q < k ==> (#[trigger] hex_byte(parts[q])) == Some(mac@[q]),
        decreases 6 - k,
    {
        match parse_hex_byte(b, starts[k], ends[k]) {
            Some(v) => {
                mac[k] = v;
            },
            None => {
                assert(hex_byte(parts[k as int]) is None);
                return Err(ConfigError::InvalidMac);
            },
        }
        k = k + 1;
    }
    assert(mac@ =~= Seq::new(6, |q: int| hex_byte(parts[q])->0));
    proof {
        lemma_parse_mac_text_bytes(s);
    }
    Ok(mac)
}

} // verus!

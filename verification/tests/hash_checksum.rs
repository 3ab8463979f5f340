use udp_lb::checksum::compute_ipv4_checksum;
use udp_lb::hash::calculate_hash;

#[test]
fn hash_of_zero_inputs() {
    assert_eq!(calculate_hash(0, 0, 0), 0x23700e53);
}

#[test]
fn hash_known_values() {
    assert_eq!(calculate_hash(0xc0a8_0001, 12345, 0), 0x862f48c9);
    assert_eq!(calculate_hash(0x0a00_0002, 53, 0x1234_5678), 0xc52e2822);
    assert_eq!(calculate_hash(0xffff_ffff, 0xffff, 0xffff_ffff), 0x95ed4c4e);
}

#[test]
fn hash_depends_on_seed() {
    assert_eq!(calculate_hash(0xc0a8_0001, 12345, 42), 0xf3d9428e);
    assert_ne!(calculate_hash(0xc0a8_0001, 12345, 42), calculate_hash(0xc0a8_0001, 12345, 0));
}

#[test]
fn hash_is_deterministic() {
    for port in [1u16, 80, 443, 65535] {
        assert_eq!(calculate_hash(0x0a01_0203, port, 7), calculate_hash(0x0a01_0203, port, 7));
    }
}

fn sample_header() -> Vec<u8> {
    vec![
        0x45, 0x00, 0x00, 0x73, 0x00, 0x00, 0x40, 0x00, 0x40, 0x11, 0x00, 0x00, 0xc0, 0xa8, 0x00, 0x01,
        0xc0, 0xa8, 0x00, 0xc7,
    ]
}

#[test]
fn checksum_of_known_header() {
    assert_eq!(compute_ipv4_checksum(&sample_header()), 0xb861);
}

#[test]
fn checksum_of_header_with_its_checksum_is_zero() {
    let mut h = sample_header();
    let c = compute_ipv4_checksum(&h);
    h[10] = (c >> 8) as u8;
    h[11] = (c & 0xff) as u8;
    assert_eq!(compute_ipv4_checksum(&h), 0);
}

#[test]
fn checksum_reads_only_twenty_bytes() {
    let mut h = sample_header();
    h.extend_from_slice(&[0xff, 0xff, 0x12, 0x34]);
    assert_eq!(compute_ipv4_checksum(&h), 0xb861);
}

#[test]
fn checksum_of_all_zero_header() {
    assert_eq!(compute_ipv4_checksum(&[0u8; 20]), 0xffff);
}

#[test]
fn checksum_of_all_ones_header() {
    // ten words of 0xffff sum to 0x9fff6; folding gives 0xffff, whose complement is 0
    assert_eq!(compute_ipv4_checksum(&[0xffu8; 20]), 0);
}

#[test]
fn checksum_with_swapped_words_is_swapped() {
    let h = sample_header();
    let mut sw = h.clone();
    for k in 0..10 {
        sw.swap(2 * k, 2 * k + 1);
    }
    assert_eq!(compute_ipv4_checksum(&sw), compute_ipv4_checksum(&h).swap_bytes());
    assert_eq!(compute_ipv4_checksum(&sw), 0x61b8);
}

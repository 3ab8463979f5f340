use udp_lb::config::{parse_mac, ConfigError};

#[test]
fn mac_lower_case() {
    assert_eq!(parse_mac("aa:bb:cc:dd:ee:ff").unwrap(), [0xaa, 0xbb, 0xcc, 0xdd, 0xee, 0xff]);
}

#[test]
fn mac_upper_and_mixed_case() {
    assert_eq!(parse_mac("00:1A:2b:3C:4d:5E").unwrap(), [0x00, 0x1a, 0x2b, 0x3c, 0x4d, 0x5e]);
}

#[test]
fn mac_short_fields_and_plus_sign() {
    assert_eq!(parse_mac("1:2:3:4:5:+f").unwrap(), [1, 2, 3, 4, 5, 15]);
    assert_eq!(parse_mac("000ff:0:0:0:0:01").unwrap(), [0xff, 0, 0, 0, 0, 1]);
}

#[test]
fn mac_wrong_field_count() {
    assert_eq!(parse_mac("aa:bb:cc:dd:ee"), Err(ConfigError::InvalidMac));
    assert_eq!(parse_mac("aa:bb:cc:dd:ee:ff:00"), Err(ConfigError::InvalidMac));
    assert_eq!(parse_mac(""), Err(ConfigError::InvalidMac));
    assert_eq!(parse_mac("aa-bb-cc-dd-ee-ff"), Err(ConfigError::InvalidMac));
}

#[test]
fn mac_bad_fields() {
    assert_eq!(parse_mac("aa:bb:cc:dd:ee:"), Err(ConfigError::InvalidMac));
    assert_eq!(parse_mac("aa:bb:cc:dd:ee:gg"), Err(ConfigError::InvalidMac));
    assert_eq!(parse_mac("aa:bb:cc:dd:ee:100"), Err(ConfigError::InvalidMac));
    assert_eq!(parse_mac("aa:bb:cc:dd:ee:-1"), Err(ConfigError::InvalidMac));
    assert_eq!(parse_mac("aa:bb:cc:dd:ee:+"), Err(ConfigError::InvalidMac));
    assert_eq!(parse_mac("aa:bb:cc:dd:ee: f"), Err(ConfigError::InvalidMac));
    assert_eq!(parse_mac("aa:bb:cc:dd:ee:é"), Err(ConfigError::InvalidMac));
}

#[test]
fn mac_agrees_with_from_str_radix() {
    for field in ["0", "ff", "FF", "+7", "0ff", "100", "", "+", "-0", "g", "1f0", "00000a"] {
        let text = format!("1:2:3:4:5:{}", field);
        let expected = u8::from_str_radix(field, 16).ok();
        assert_eq!(parse_mac(&text).ok().map(|m| m[5]), expected, "field {:?}", field);
    }
}


#[test]
fn mac_formatted_text_parses_back() {
    for m in [[0u8, 1, 2, 3, 4, 5], [0xff, 0xfe, 0x10, 0x0a, 0xa0, 0x99], [0xde, 0xad, 0xbe, 0xef, 0x00, 0x01]] {
        let lower = format!("{:02x}:{:02x}:{:02x}:{:02x}:{:02x}:{:02x}", m[0], m[1], m[2], m[3], m[4], m[5]);
        let upper = format!("{:02X}:{:02X}:{:02X}:{:02X}:{:02X}:{:02X}", m[0], m[1], m[2], m[3], m[4], m[5]);
        assert_eq!(parse_mac(&lower), Ok(m));
        assert_eq!(parse_mac(&upper), Ok(m));
    }
}

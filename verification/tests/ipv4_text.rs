use spb_web_server::ipv4::{
    format_ipv4, format_u16, mask_to_prefix, network_contains, parse_ipv4, prefix_to_mask,
};

#[test]
fn parse_accepts_canonical_addresses() {
    assert_eq!(parse_ipv4("192.168.1.50"), Some(0xC0A8_0132));
    assert_eq!(parse_ipv4("0.0.0.0"), Some(0));
    assert_eq!(parse_ipv4("255.255.255.255"), Some(0xFFFF_FFFF));
    assert_eq!(parse_ipv4("10.0.0.1"), Some(0x0A00_0001));
    assert_eq!(parse_ipv4("1.2.3.4"), Some(0x0102_0304));
}

#[test]
fn parse_rejects_malformed_text() {
    assert_eq!(parse_ipv4(""), None);
    assert_eq!(parse_ipv4("1.2.3"), None);
    assert_eq!(parse_ipv4("1.2.3.4.5"), None);
    assert_eq!(parse_ipv4("1..2.3"), None);
    assert_eq!(parse_ipv4("a.b.c.d"), None);
    assert_eq!(parse_ipv4("256.1.1.1"), None);
    assert_eq!(parse_ipv4("1.2.3.999"), None);
    assert_eq!(parse_ipv4("1.2.3.4 "), None);
    assert_eq!(parse_ipv4(".1.2.3"), None);
    assert_eq!(parse_ipv4("1.2.3."), None);
    assert_eq!(parse_ipv4("not a domain!!"), None);
}

#[test]
fn parse_rejects_leading_zeros() {
    assert_eq!(parse_ipv4("01.2.3.4"), None);
    assert_eq!(parse_ipv4("1.02.3.4"), None);
    assert_eq!(parse_ipv4("1.2.3.004"), None);
    assert_eq!(parse_ipv4("0.0.0.00"), None);
}

#[test]
fn format_renders_dotted_decimal() {
    assert_eq!(format_ipv4(0xC0A8_0132), "192.168.1.50");
    assert_eq!(format_ipv4(0), "0.0.0.0");
    assert_eq!(format_ipv4(0xFFFF_FFFF), "255.255.255.255");
    assert_eq!(format_ipv4(0x0A00_0001), "10.0.0.1");
}

#[test]
fn format_and_parse_round_trip() {
    for v in [0u32, 1, 0x0102_0304, 0xC0A8_0101, 0xFFFF_FF00, 0xFFFF_FFFF] {
        let text = format_ipv4(v);
        assert_eq!(parse_ipv4(&text), Some(v));
    }
}

#[test]
fn format_u16_renders_decimal() {
    assert_eq!(format_u16(0), "0");
    assert_eq!(format_u16(7), "7");
    assert_eq!(format_u16(80), "80");
    assert_eq!(format_u16(1883), "1883");
    assert_eq!(format_u16(65535), "65535");
}

#[test]
fn mask_prefix_conversions() {
    assert_eq!(mask_to_prefix(0xFFFF_FF00), Some(24));
    assert_eq!(mask_to_prefix(0), Some(0));
    assert_eq!(mask_to_prefix(0xFFFF_FFFF), Some(32));
    assert_eq!(mask_to_prefix(0x8000_0000), Some(1));
    assert_eq!(mask_to_prefix(0xFF00_FF00), None);
    assert_eq!(mask_to_prefix(0x0000_00FF), None);
    assert_eq!(prefix_to_mask(24), 0xFFFF_FF00);
    assert_eq!(prefix_to_mask(0), 0);
    assert_eq!(prefix_to_mask(32), 0xFFFF_FFFF);
    for p in 0u8..=32 {
        assert_eq!(mask_to_prefix(prefix_to_mask(p)), Some(p));
    }
}

#[test]
fn membership_follows_the_mask() {
    let net = parse_ipv4("192.168.1.0").unwrap();
    let inside = parse_ipv4("192.168.1.1").unwrap();
    let outside = parse_ipv4("10.0.0.1").unwrap();
    assert!(network_contains(net, 24, inside));
    assert!(!network_contains(net, 24, outside));
    // a zero-length prefix contains everything
    assert!(network_contains(net, 0, outside));
    // a full-length prefix contains only the address itself
    assert!(network_contains(inside, 32, inside));
    assert!(!network_contains(net, 32, inside));
}

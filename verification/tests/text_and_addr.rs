use acb::addr::{format_addr, format_ip, parse_ip, DeviceAddress, IpV4};
use acb::text::{parse_octet, parse_u16, split_fields, str_eq, u16_to_string};

#[test]
fn parse_u16_accepts_plain_decimals() {
    assert_eq!(parse_u16("0"), Some(0));
    assert_eq!(parse_u16("80"), Some(80));
    assert_eq!(parse_u16("65535"), Some(65535));
    assert_eq!(parse_u16("0080"), Some(80));
}

#[test]
fn parse_u16_rejects_bad_input() {
    assert_eq!(parse_u16(""), None);
    assert_eq!(parse_u16("65536"), None);
    assert_eq!(parse_u16("99999999999999999999"), None);
    assert_eq!(parse_u16("12a"), None);
    assert_eq!(parse_u16("-1"), None);
    assert_eq!(parse_u16("+1"), None);
}

#[test]
fn parse_octet_rejects_leading_zeros_and_overflow() {
    assert_eq!(parse_octet("0"), Some(0));
    assert_eq!(parse_octet("255"), Some(255));
    assert_eq!(parse_octet("00"), None);
    assert_eq!(parse_octet("01"), None);
    assert_eq!(parse_octet("256"), None);
    assert_eq!(parse_octet(""), None);
}

#[test]
fn u16_to_string_is_canonical() {
    assert_eq!(u16_to_string(0), "0");
    assert_eq!(u16_to_string(7), "7");
    assert_eq!(u16_to_string(80), "80");
    assert_eq!(u16_to_string(65535), "65535");
}

#[test]
fn split_fields_on_colon() {
    let f = split_fields("a:b:c", ':');
    assert_eq!(f, vec!["a".to_string(), "b".to_string(), "c".to_string()]);
    let g = split_fields("abc", ':');
    assert_eq!(g, vec!["abc".to_string()]);
    let h = split_fields("::", ':');
    assert_eq!(h, vec!["".to_string(), "".to_string(), "".to_string()]);
}

#[test]
fn str_eq_compares_contents() {
    assert!(str_eq("host", "host"));
    assert!(!str_eq("host", "hos"));
    assert!(!str_eq("host", "hosT"));
    assert!(str_eq("", ""));
}

#[test]
fn parse_ip_accepts_dotted_quads() {
    assert_eq!(
        parse_ip("127.0.0.1"),
        Some(IpV4 { a: 127, b: 0, c: 0, d: 1 })
    );
    assert_eq!(
        parse_ip("255.255.255.255"),
        Some(IpV4 { a: 255, b: 255, c: 255, d: 255 })
    );
}

#[test]
fn parse_ip_rejects_malformed_addresses() {
    assert_eq!(parse_ip("1.2.3"), None);
    assert_eq!(parse_ip("1.2.3.4.5"), None);
    assert_eq!(parse_ip("256.0.0.1"), None);
    assert_eq!(parse_ip("01.2.3.4"), None);
    assert_eq!(parse_ip("a.b.c.d"), None);
    assert_eq!(parse_ip(""), None);
}

#[test]
fn format_round_trips_through_parse() {
    let ip = IpV4 { a: 192, b: 168, c: 0, d: 42 };
    let text = format_ip(&ip);
    assert_eq!(text, "192.168.0.42");
    assert_eq!(parse_ip(&text), Some(ip));
    let addr = DeviceAddress { ip, port: 8080 };
    assert_eq!(format_addr(&addr), "192.168.0.42:8080");
}

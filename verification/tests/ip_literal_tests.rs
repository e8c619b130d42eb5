use bgp_config::address::IpAddress;
use bgp_config::ip_literal::parse_ip_literal;

#[test]
fn parses_ipv4_literals() {
    assert_eq!(parse_ip_literal("10.0.0.1"), Some(IpAddress::V4(10, 0, 0, 1)));
    assert_eq!(parse_ip_literal("0.0.0.0"), Some(IpAddress::V4(0, 0, 0, 0)));
    assert_eq!(
        parse_ip_literal("255.255.255.255"),
        Some(IpAddress::V4(255, 255, 255, 255))
    );
    assert_eq!(parse_ip_literal("192.168.10.250"), Some(IpAddress::V4(192, 168, 10, 250)));
}

#[test]
fn rejects_bad_ipv4_literals() {
    assert_eq!(parse_ip_literal(""), None);
    assert_eq!(parse_ip_literal("10.0.0"), None);
    assert_eq!(parse_ip_literal("10.0.0.0.1"), None);
    assert_eq!(parse_ip_literal("10.0.0.256"), None);
    assert_eq!(parse_ip_literal("01.2.3.4"), None);
    assert_eq!(parse_ip_literal("1.2.3.4 "), None);
    assert_eq!(parse_ip_literal("1.2.3.4x"), None);
    assert_eq!(parse_ip_literal("1..2.3"), None);
    assert_eq!(parse_ip_literal("not an address"), None);
    assert_eq!(parse_ip_literal("1234.1.1.1"), None);
}

#[test]
fn parses_ipv6_literals() {
    assert_eq!(parse_ip_literal("::"), Some(IpAddress::V6(0, 0, 0, 0, 0, 0, 0, 0)));
    assert_eq!(parse_ip_literal("::1"), Some(IpAddress::V6(0, 0, 0, 0, 0, 0, 0, 1)));
    assert_eq!(parse_ip_literal("1::"), Some(IpAddress::V6(1, 0, 0, 0, 0, 0, 0, 0)));
    assert_eq!(
        parse_ip_literal("2001:db8:0:0:8:800:200c:417a"),
        Some(IpAddress::V6(0x2001, 0xdb8, 0, 0, 8, 0x800, 0x200c, 0x417a))
    );
    assert_eq!(
        parse_ip_literal("2001:DB8::8:800:200C:417A"),
        Some(IpAddress::V6(0x2001, 0xdb8, 0, 0, 8, 0x800, 0x200c, 0x417a))
    );
    assert_eq!(
        parse_ip_literal("fe80::204:61ff:fe9d:f156"),
        Some(IpAddress::V6(0xfe80, 0, 0, 0, 0x204, 0x61ff, 0xfe9d, 0xf156))
    );
    assert_eq!(
        parse_ip_literal("1:2:3:4:5:6:7::"),
        Some(IpAddress::V6(1, 2, 3, 4, 5, 6, 7, 0))
    );
    assert_eq!(
        parse_ip_literal("::ffff:192.168.0.1"),
        Some(IpAddress::V6(0, 0, 0, 0, 0, 0xffff, 0xc0a8, 0x0001))
    );
    assert_eq!(
        parse_ip_literal("1:2:3:4:5:6:7.7.7.7"),
        Some(IpAddress::V6(1, 2, 3, 4, 5, 6, 0x0707, 0x0707))
    );
}

#[test]
fn rejects_bad_ipv6_literals() {
    assert_eq!(parse_ip_literal(":::"), None);
    assert_eq!(parse_ip_literal("1::2::3"), None);
    assert_eq!(parse_ip_literal("1:2:3:4:5:6:7"), None);
    assert_eq!(parse_ip_literal("1:2:3:4:5:6:7:8:9"), None);
    assert_eq!(parse_ip_literal("1:2:3:4:5:6:7:8::"), None);
    assert_eq!(parse_ip_literal("::1:2:3:4:5:6:7:8"), None);
    assert_eq!(parse_ip_literal("12345::"), None);
    assert_eq!(parse_ip_literal("g::1"), None);
    assert_eq!(parse_ip_literal("1:2"), None);
    assert_eq!(parse_ip_literal(":1:2:3:4:5:6:7"), None);
    assert_eq!(parse_ip_literal("1:2:3:4:5:6:7:"), None);
    assert_eq!(parse_ip_literal("1.2.3.4::"), None);
    assert_eq!(parse_ip_literal("fe80::1%eth0"), None);
}

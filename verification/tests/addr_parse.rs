use remote_log::addr::{ip_le_exec, min_ip, parse_ipv4, IpAddress};

#[test]
fn parses_dotted_quads() {
    assert_eq!(parse_ipv4("10.0.0.1"), Some(0x0A000001));
    assert_eq!(parse_ipv4("0.0.0.0"), Some(0));
    assert_eq!(parse_ipv4("255.255.255.255"), Some(0xFFFFFFFF));
    assert_eq!(parse_ipv4("192.168.1.100"), Some((192 << 24) | (168 << 16) | (1 << 8) | 100));
}

#[test]
fn rejects_non_literals() {
    assert_eq!(parse_ipv4(""), None);
    assert_eq!(parse_ipv4("example.com"), None);
    assert_eq!(parse_ipv4("1.2.3"), None);
    assert_eq!(parse_ipv4("1.2.3.4.5"), None);
    assert_eq!(parse_ipv4("256.1.1.1"), None);
    assert_eq!(parse_ipv4("01.2.3.4"), None);
    assert_eq!(parse_ipv4("1..2.3"), None);
    assert_eq!(parse_ipv4("1.2.3."), None);
    assert_eq!(parse_ipv4(".1.2.3"), None);
    assert_eq!(parse_ipv4("1.2.3.a"), None);
    assert_eq!(parse_ipv4("1.2.3.1234"), None);
}

#[test]
fn ip_order_v4_before_v6() {
    assert!(ip_le_exec(&IpAddress::V4(5), &IpAddress::V4(6)));
    assert!(!ip_le_exec(&IpAddress::V4(6), &IpAddress::V4(5)));
    assert!(ip_le_exec(&IpAddress::V4(u32::MAX), &IpAddress::V6(0)));
    assert!(!ip_le_exec(&IpAddress::V6(0), &IpAddress::V4(u32::MAX)));
    assert!(ip_le_exec(&IpAddress::V6(1), &IpAddress::V6(2)));
}

#[test]
fn min_ip_is_deterministic_tie_break() {
    let ips = vec![
        IpAddress::V6(1),
        IpAddress::V4(0x0A000002),
        IpAddress::V4(0x0A000001),
        IpAddress::V6(0),
    ];
    assert_eq!(min_ip(&ips), IpAddress::V4(0x0A000001));
    let single = vec![IpAddress::V6(9)];
    assert_eq!(min_ip(&single), IpAddress::V6(9));
}

use tray_node::error::ErrorType;
use tray_node::ip::{Ip, IpVersion};

#[test]
fn bogon_loopback_addresses() {
    assert!(Ip::is_bogon("127.0.0.1"));
    assert!(Ip::is_bogon("::1"));
}

#[test]
fn bogon_ranges_and_public_addresses() {
    assert!(Ip::is_bogon("10.1.2.3"));
    assert!(Ip::is_bogon("172.16.0.1"));
    assert!(Ip::is_bogon("172.31.255.255"));
    assert!(!Ip::is_bogon("172.32.0.1"));
    assert!(Ip::is_bogon("192.168.1.1"));
    assert!(Ip::is_bogon("169.254.10.10"));
    assert!(Ip::is_bogon("224.0.0.1"));
    assert!(Ip::is_bogon("192.0.2.5"));
    assert!(Ip::is_bogon("198.51.100.7"));
    assert!(Ip::is_bogon("203.0.113.9"));
    assert!(Ip::is_bogon("0.1.2.3"));
    assert!(!Ip::is_bogon("8.8.8.8"));
    assert!(Ip::is_bogon("::"));
    assert!(Ip::is_bogon("ff02::1"));
    assert!(Ip::is_bogon("fd00::1"));
    assert!(!Ip::is_bogon("2001:4860:4860::8888"));
    assert!(!Ip::is_bogon("not an ip"));
}

#[test]
fn version_of_addresses() {
    assert_eq!(Ip::version("127.0.0.1").unwrap(), IpVersion::V4);
    assert_eq!(Ip::version("::1").unwrap(), IpVersion::V6);
    assert_eq!(Ip::version("1:2:3:4:5:6:7.8.9.10").unwrap(), IpVersion::V6);
    let e = Ip::version("999.1.1.1").unwrap_err();
    assert_eq!(e.error_type, ErrorType::InvalidInput);
    assert_eq!(e.message, "Invalid IP address: 999.1.1.1");
}

#[test]
fn public_version() {
    assert_eq!(Ip::public_ip_version("8.8.8.8"), Some(IpVersion::V4));
    assert_eq!(Ip::public_ip_version("10.0.0.1"), None);
    assert_eq!(Ip::public_ip_version("2001:db8::1"), Some(IpVersion::V6));
    assert_eq!(Ip::public_ip_version("x"), None);
}

#[test]
fn ip_to_long_examples() {
    assert_eq!(Ip::ip_to_long("127.0.0.1").unwrap(), 2130706433);
    assert_eq!(Ip::ip_to_long("::1").unwrap(), 1);
    assert_eq!(Ip::ip_to_long("255.255.255.255").unwrap(), 4294967295);
    assert_eq!(
        Ip::ip_to_long("::ffff:1.2.3.4").unwrap(),
        0xffff_0102_0304
    );
    let e = Ip::ip_to_long("1.2.3").unwrap_err();
    assert_eq!(e.error_type, ErrorType::Parse);
    assert_eq!(e.message, "Failed to parse IP address: 1.2.3");
}

#[test]
fn ipv6_parsing_edge_cases() {
    assert!(Ip::ip_to_long("1:2:3:4:5:6:7:8:9").is_err());
    assert!(Ip::ip_to_long(":::").is_err());
    assert!(Ip::ip_to_long("1::2::3").is_err());
    assert!(Ip::ip_to_long("12345::").is_err());
    assert!(Ip::ip_to_long("1.2.3.4::").is_err());
    assert_eq!(Ip::ip_to_long("1::").unwrap(), 1u128 << 112);
    assert_eq!(Ip::ip_to_long("0:0:0:0:0:0:0:0").unwrap(), 0);
    assert!(Ip::ip_to_long("01.2.3.4").is_err());
}

#[test]
fn normalize_ipv4_text() {
    assert_eq!(Ip::normalize_ip4("000.000.000.001").unwrap(), "0.0.0.1");
    assert_eq!(Ip::normalize_ip4("10.020.3.4").unwrap(), "10.20.3.4");
    assert_eq!(Ip::normalize_ip4("1.2").unwrap(), "1.2");
    let e = Ip::normalize_ip4("1.2.3.4.5").unwrap_err();
    assert_eq!(e.error_type, ErrorType::InvalidInput);
    assert_eq!(e.message, "Invalid IP address");
    assert!(Ip::normalize_ip4("256.1.1.1").is_err());
    assert!(Ip::normalize_ip4("0001.1.1.1").is_err());
    assert!(Ip::normalize_ip4("a.b.c.d").is_err());
    assert!(Ip::normalize_ip4("").is_err());
}

#[test]
fn long_to_ip_examples() {
    assert_eq!(Ip::long_to_ip(2130706433, IpVersion::V4).unwrap(), "127.0.0.1");
    assert_eq!(Ip::long_to_ip(1, IpVersion::V6).unwrap(), "::1");
    assert_eq!(Ip::long_to_ip(0, IpVersion::V6).unwrap(), "::");
    assert_eq!(
        Ip::long_to_ip(0x2001_0db8_0000_0000_0001_0000_0000_0001, IpVersion::V6).unwrap(),
        "2001:db8::1:0:0:1"
    );
    assert_eq!(
        Ip::long_to_ip(0xffff_0102_0304, IpVersion::V6).unwrap(),
        "::ffff:1.2.3.4"
    );
    assert_eq!(
        Ip::long_to_ip(0x0001_0000_0002_0000_0003_0000_0004_0000, IpVersion::V6).unwrap(),
        "1:0:2:0:3:0:4:0"
    );
    let e = Ip::long_to_ip(1u128 << 32, IpVersion::V4).unwrap_err();
    assert_eq!(e.error_type, ErrorType::InvalidInput);
    assert_eq!(e.message, "Overflow IPv4");
}

#[test]
fn long_to_ip_compresses_the_longest_zero_run() {
    let cases: [(u128, &str); 6] = [
        (0x2001_0db8_85a3_0000_0000_8a2e_0370_7334, "2001:db8:85a3::8a2e:370:7334"),
        (0xfe80_0000_0000_0000_0000_0000_0000_0001, "fe80::1"),
        (0x0000_0000_0001_0000_0000_0000_0000_0000, "0:0:1::"),
        (0x0001_0000_0000_0002_0000_0000_0003_0004, "1::2:0:0:3:4"),
        (0x0001_0002_0003_0004_0005_0006_0007_0000, "1:2:3:4:5:6:7:0"),
        (u128::MAX, "ffff:ffff:ffff:ffff:ffff:ffff:ffff:ffff"),
    ];
    for (v, text) in cases {
        assert_eq!(Ip::long_to_ip(v, IpVersion::V6).unwrap(), text);
    }
}

#[test]
fn bounds_of_ipv4_range() {
    let (a, b) = Ip::range_to_bounds_v4("10.0.0.1", "10.0.0.9").unwrap();
    assert_eq!(a, "10.0.0.1");
    assert_eq!(b, "10.0.0.9");
    let e = Ip::range_to_bounds_v4("x", "10.0.0.9").unwrap_err();
    assert_eq!((e.error_type, e.message.as_str()), (ErrorType::InvalidInput, "Invalid Start IP"));
    let e = Ip::range_to_bounds_v4("10.0.0.1", "y").unwrap_err();
    assert_eq!((e.error_type, e.message.as_str()), (ErrorType::InvalidInput, "Invalid End IP"));
    let e = Ip::range_to_bounds_v4("10.0.0.9", "10.0.0.1").unwrap_err();
    assert_eq!(e.error_type, ErrorType::InvalidRange);
    assert_eq!(e.message, "Start IP must be less than End IP");
}

#[test]
fn ipv4_cidr_ranges() {
    let (a, b) = Ip::ipv4_cidr_to_range("192.168.1.77/24").unwrap();
    assert_eq!((a.as_str(), b.as_str()), ("192.168.1.0", "192.168.1.255"));
    let (a, b) = Ip::ipv4_cidr_to_range("10.1.2.3/0").unwrap();
    assert_eq!((a.as_str(), b.as_str()), ("0.0.0.0", "255.255.255.255"));
    let (a, b) = Ip::ipv4_cidr_to_range("10.1.2.3/32").unwrap();
    assert_eq!((a.as_str(), b.as_str()), ("10.1.2.3", "10.1.2.3"));
    let e = Ip::ipv4_cidr_to_range("10.1.2.3").unwrap_err();
    assert_eq!((e.error_type, e.message.as_str()), (ErrorType::InvalidInput, "Format must be IP/Prefix"));
    let e = Ip::ipv4_cidr_to_range("10.1.2/8").unwrap_err();
    assert_eq!((e.error_type, e.message.as_str()), (ErrorType::InvalidInput, "Invalid IP"));
    let e = Ip::ipv4_cidr_to_range("10.1.2.3/x").unwrap_err();
    assert_eq!((e.error_type, e.message.as_str()), (ErrorType::InvalidRange, "Invalid Prefix"));
    let e = Ip::ipv4_cidr_to_range("10.1.2.3/33").unwrap_err();
    assert_eq!((e.error_type, e.message.as_str()), (ErrorType::InvalidRange, "Prefix > 32"));
}

#[test]
fn ipv6_cidr_ranges() {
    let (a, b) = Ip::ipv6_cidr_to_range("2001:db8::1/32").unwrap();
    assert_eq!(a, "2001:db8::");
    assert_eq!(b, "2001:db8:ffff:ffff:ffff:ffff:ffff:ffff");
    let e = Ip::ipv6_cidr_to_range("2001:db8::1/129").unwrap_err();
    assert_eq!((e.error_type, e.message.as_str()), (ErrorType::InvalidRange, "Prefix > 128"));
    let e = Ip::ipv6_cidr_to_range("zz::/12").unwrap_err();
    assert_eq!((e.error_type, e.message.as_str()), (ErrorType::InvalidInput, "Invalid IPv6"));
    let e = Ip::ipv6_cidr_to_range("a/b/c").unwrap_err();
    assert_eq!(e.message, "Format must be IP/Prefix");
}

#[test]
fn smallest_block_holding_two_addresses() {
    assert_eq!(Ip::ipv4_to_cidr_string("10.0.0.0", "10.0.0.255").unwrap(), "10.0.0.0/24");
    assert_eq!(Ip::ipv4_to_cidr_string("10.0.0.5", "10.0.0.5").unwrap(), "10.0.0.5/32");
    assert_eq!(Ip::ipv4_to_cidr_string("10.0.0.1", "10.0.1.0").unwrap(), "10.0.0.0/23");
    assert_eq!(Ip::ipv4_to_cidr_string("0.0.0.0", "255.0.0.0").unwrap(), "0.0.0.0/0");
    let e = Ip::ipv4_to_cidr_string("10.0.0.2", "10.0.0.1").unwrap_err();
    assert_eq!(e.error_type, ErrorType::InvalidRange);
    assert_eq!(Ip::ipv6_to_cidr_string("2001:db8::", "2001:db8::ff").unwrap(), "2001:db8::/120");
    assert_eq!(Ip::ipv6_to_cidr_string("::1", "::1").unwrap(), "::1/128");
    let e = Ip::ipv6_to_cidr_string("::2", "::1").unwrap_err();
    assert_eq!(e.message, "Start IP must be less than End IP");
    let e = Ip::ipv6_to_cidr_string("x", "::1").unwrap_err();
    assert_eq!(e.message, "Invalid Start IPv6");
    let e = Ip::ipv6_to_cidr_string("::1", "x").unwrap_err();
    assert_eq!(e.message, "Invalid End IPv6");
}

#[test]
fn cidr_block_contains_its_address() {
    let (a, b) = Ip::ipv4_cidr_to_range("172.20.5.9/12").unwrap();
    let lo = Ip::ip_to_long(&a).unwrap();
    let hi = Ip::ip_to_long(&b).unwrap();
    let ip = Ip::ip_to_long("172.20.5.9").unwrap();
    assert!(lo <= ip && ip <= hi);
}

#[test]
fn cidr_of_range_covers_both_ends() {
    let cidr = Ip::ipv4_to_cidr_string("192.168.3.17", "192.168.6.2").unwrap();
    let (a, b) = Ip::ipv4_cidr_to_range(&cidr).unwrap();
    let lo = Ip::ip_to_long(&a).unwrap();
    let hi = Ip::ip_to_long(&b).unwrap();
    assert!(lo <= Ip::ip_to_long("192.168.3.17").unwrap());
    assert!(Ip::ip_to_long("192.168.6.2").unwrap() <= hi);
}

#[test]
fn long_and_text_round_trip() {
    for v in [0u128, 1, 2130706433, 4294967295, 3232235777] {
        let t = Ip::long_to_ip(v, IpVersion::V4).unwrap();
        assert_eq!(Ip::ip_to_long(&t).unwrap(), v);
    }
}

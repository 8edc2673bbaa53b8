use whatevertp::addr::ip_port_string;
use whatevertp::addr::parse_ipv4;
use whatevertp::addr::parse_sock_addr_v4;
use whatevertp::addr::Ipv4Parts;
use whatevertp::addr::SockAddr;
use whatevertp::decimal::parse_octet;
use whatevertp::decimal::parse_port;

#[test]
fn joins_ip_and_port_with_colon() {
    assert_eq!(ip_port_string("0.0.0.0", "3333"), "0.0.0.0:3333");
    assert_eq!(ip_port_string("::1", "80"), "::1:80");
    assert_eq!(ip_port_string("", ""), ":");
}

#[test]
fn port_accepts_canonical_numerals_up_to_65535() {
    assert_eq!(parse_port("0"), Some(0));
    assert_eq!(parse_port("3333"), Some(3333));
    assert_eq!(parse_port("65535"), Some(65535));
}

#[test]
fn port_rejects_empty_overflow_and_padding() {
    assert_eq!(parse_port(""), None);
    assert_eq!(parse_port("65536"), None);
    assert_eq!(parse_port("0080"), None);
    assert_eq!(parse_port("12a"), None);
    assert_eq!(parse_port("-1"), None);
    assert_eq!(parse_port("99999999999999999999"), None);
}

#[test]
fn octet_accepts_zero_through_255() {
    assert_eq!(parse_octet("0"), Some(0));
    assert_eq!(parse_octet("17"), Some(17));
    assert_eq!(parse_octet("255"), Some(255));
}

#[test]
fn octet_rejects_overflow_and_leading_zeros() {
    assert_eq!(parse_octet("256"), None);
    assert_eq!(parse_octet("007"), None);
    assert_eq!(parse_octet("00"), None);
    assert_eq!(parse_octet(""), None);
}

#[test]
fn ipv4_reads_four_octets() {
    assert_eq!(parse_ipv4("0.0.0.0"), Some(Ipv4Parts { a: 0, b: 0, c: 0, d: 0 }));
    assert_eq!(parse_ipv4("192.168.1.10"), Some(Ipv4Parts { a: 192, b: 168, c: 1, d: 10 }));
    assert_eq!(parse_ipv4("255.255.255.255"), Some(Ipv4Parts { a: 255, b: 255, c: 255, d: 255 }));
}

#[test]
fn ipv4_rejects_wrong_shapes() {
    assert_eq!(parse_ipv4("1.2.3"), None);
    assert_eq!(parse_ipv4("1.2.3.4.5"), None);
    assert_eq!(parse_ipv4("256.1.1.1"), None);
    assert_eq!(parse_ipv4("01.2.3.4"), None);
    assert_eq!(parse_ipv4("1..2.3"), None);
    assert_eq!(parse_ipv4(".1.2.3"), None);
    assert_eq!(parse_ipv4("1.2.3."), None);
    assert_eq!(parse_ipv4(""), None);
    assert_eq!(parse_ipv4("a.b.c.d"), None);
}

#[test]
fn sock_addr_reads_address_and_port() {
    assert_eq!(
        parse_sock_addr_v4("0.0.0.0:3333"),
        Some(SockAddr::V4 { a: 0, b: 0, c: 0, d: 0, port: 3333 })
    );
    assert_eq!(
        parse_sock_addr_v4("127.0.0.1:80"),
        Some(SockAddr::V4 { a: 127, b: 0, c: 0, d: 1, port: 80 })
    );
}

#[test]
fn sock_addr_rejects_wrong_shapes() {
    assert_eq!(parse_sock_addr_v4("1.2.3.4"), None);
    assert_eq!(parse_sock_addr_v4("1.2.3.4:"), None);
    assert_eq!(parse_sock_addr_v4(":80"), None);
    assert_eq!(parse_sock_addr_v4("1.2.3.4:99999"), None);
    assert_eq!(parse_sock_addr_v4("[::1]:80"), None);
    assert_eq!(parse_sock_addr_v4("not an address"), None);
    assert_eq!(parse_sock_addr_v4("1.2.3.4:80:90"), None);
}

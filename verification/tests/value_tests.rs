//! The value readers on their own: numbers, addresses, attribute lookup.

use nmap_xml_parser::ip::{parse_ip, parse_ipv4, IpAddr, Ipv4Addr, Ipv6Addr};
use nmap_xml_parser::text::{parse_i64, parse_u8};
use nmap_xml_parser::xml::{Attr, XmlNode};

#[test]
fn i64_round_values() {
    assert_eq!(parse_i64("0"), Some(0));
    assert_eq!(parse_i64("1589292535"), Some(1589292535));
    assert_eq!(parse_i64("+42"), Some(42));
    assert_eq!(parse_i64("-42"), Some(-42));
    assert_eq!(parse_i64("007"), Some(7));
}

#[test]
fn i64_limits() {
    assert_eq!(parse_i64("9223372036854775807"), Some(i64::MAX));
    assert_eq!(parse_i64("-9223372036854775808"), Some(i64::MIN));
    assert_eq!(parse_i64("9223372036854775808"), None);
    assert_eq!(parse_i64("-9223372036854775809"), None);
}

#[test]
fn i64_rejects_malformed() {
    assert_eq!(parse_i64(""), None);
    assert_eq!(parse_i64("-"), None);
    assert_eq!(parse_i64("+"), None);
    assert_eq!(parse_i64("NOT A NUMBER"), None);
    assert_eq!(parse_i64("12 3"), None);
    assert_eq!(parse_i64("12.3"), None);
}

#[test]
fn u8_values() {
    assert_eq!(parse_u8("0"), Some(0));
    assert_eq!(parse_u8("255"), Some(255));
    assert_eq!(parse_u8("+64"), Some(64));
    assert_eq!(parse_u8("007"), Some(7));
    assert_eq!(parse_u8("256"), None);
    assert_eq!(parse_u8("-1"), None);
    assert_eq!(parse_u8(""), None);
    assert_eq!(parse_u8("x"), None);
}

#[test]
fn ipv4_values() {
    assert_eq!(
        parse_ipv4("192.168.59.234"),
        Some(Ipv4Addr { a: 192, b: 168, c: 59, d: 234 })
    );
    assert_eq!(parse_ipv4("0.0.0.0"), Some(Ipv4Addr { a: 0, b: 0, c: 0, d: 0 }));
    assert_eq!(
        parse_ipv4("255.255.255.255"),
        Some(Ipv4Addr { a: 255, b: 255, c: 255, d: 255 })
    );
}

#[test]
fn ipv4_rejects_malformed() {
    assert_eq!(parse_ipv4("256.0.0.1"), None);
    assert_eq!(parse_ipv4("1.2.3"), None);
    assert_eq!(parse_ipv4("1.2.3.4.5"), None);
    assert_eq!(parse_ipv4("01.2.3.4"), None);
    assert_eq!(parse_ipv4("1.2.3."), None);
    assert_eq!(parse_ipv4(".1.2.3"), None);
    assert_eq!(parse_ipv4("1.2.3.f"), None);
    assert_eq!(parse_ipv4(""), None);
}

fn v6(segments: [u16; 8]) -> Option<IpAddr> {
    Some(IpAddr::V6(Ipv6Addr {
        s0: segments[0],
        s1: segments[1],
        s2: segments[2],
        s3: segments[3],
        s4: segments[4],
        s5: segments[5],
        s6: segments[6],
        s7: segments[7],
    }))
}

#[test]
fn ipv6_values() {
    assert_eq!(
        parse_ip("1:2:3:4:5:6:7:8"),
        v6([1, 2, 3, 4, 5, 6, 7, 8])
    );
    assert_eq!(parse_ip("::"), v6([0, 0, 0, 0, 0, 0, 0, 0]));
    assert_eq!(parse_ip("::1"), v6([0, 0, 0, 0, 0, 0, 0, 1]));
    assert_eq!(parse_ip("1::"), v6([1, 0, 0, 0, 0, 0, 0, 0]));
    assert_eq!(
        parse_ip("fe80::aBcD"),
        v6([0xfe80, 0, 0, 0, 0, 0, 0, 0xabcd])
    );
    assert_eq!(
        parse_ip("2001:db8::8:800:200c:417a"),
        v6([0x2001, 0xdb8, 0, 0, 0x8, 0x800, 0x200c, 0x417a])
    );
    assert_eq!(
        parse_ip("1:2:3:4:5:6:7::"),
        v6([1, 2, 3, 4, 5, 6, 7, 0])
    );
}

#[test]
fn ipv6_with_embedded_ipv4() {
    assert_eq!(
        parse_ip("::ffff:192.168.1.70"),
        v6([0, 0, 0, 0, 0, 0xffff, 0xc0a8, 0x0146])
    );
    assert_eq!(
        parse_ip("1:2:3:4:5:6:1.2.3.4"),
        v6([1, 2, 3, 4, 5, 6, 0x0102, 0x0304])
    );
}

#[test]
fn ipv6_rejects_malformed() {
    assert_eq!(parse_ip(":"), None);
    assert_eq!(parse_ip(":::"), None);
    assert_eq!(parse_ip("1:2:3:4:5:6:7"), None);
    assert_eq!(parse_ip("1:2:3:4:5:6:7:8:9"), None);
    assert_eq!(parse_ip("1::2::3"), None);
    assert_eq!(parse_ip("1:2:3:4:5:6:7:8::"), None);
    assert_eq!(parse_ip("12345::"), None);
    assert_eq!(parse_ip("g::1"), None);
    assert_eq!(parse_ip("1:"), None);
    assert_eq!(parse_ip(":1"), None);
    assert_eq!(parse_ip("1.2.3.4::"), None);
    assert_eq!(parse_ip("NOT AN ADDRESS"), None);
}

#[test]
fn ip_prefers_version_four() {
    assert_eq!(
        parse_ip("10.0.0.1"),
        Some(IpAddr::V4(Ipv4Addr { a: 10, b: 0, c: 0, d: 1 }))
    );
}

#[test]
fn attribute_lookup_finds_first() {
    let node = XmlNode {
        tag: "status".to_string(),
        attrs: vec![
            Attr { name: "state".to_string(), value: "up".to_string() },
            Attr { name: "reason".to_string(), value: "syn-ack".to_string() },
            Attr { name: "state".to_string(), value: "down".to_string() },
        ],
        children: Vec::new(),
    };
    assert_eq!(node.attribute("state"), Some(&"up".to_string()));
    assert_eq!(node.attribute("reason"), Some(&"syn-ack".to_string()));
    assert_eq!(node.attribute("missing"), None);
}

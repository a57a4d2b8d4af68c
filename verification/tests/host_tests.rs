//! Decoding whole host elements, read from real documents.

use nmap_xml_parser::error::Error;
use nmap_xml_parser::host::{Address, Host, HostState, HostnameType};
use nmap_xml_parser::ip::{IpAddr, Ipv4Addr};
use nmap_xml_parser::xml::{Attr, XmlNode};

fn node_of(n: roxmltree::Node) -> XmlNode {
    XmlNode {
        tag: n.tag_name().name().to_string(),
        attrs: n
            .attributes()
            .map(|a| Attr { name: a.name().to_string(), value: a.value().to_string() })
            .collect(),
        children: n.children().filter(|c| c.is_element()).map(node_of).collect(),
    }
}

fn host_node(xml: &str) -> XmlNode {
    let doc = roxmltree::Document::parse(xml).unwrap();
    node_of(doc.root_element())
}

#[test]
fn host_with_start_end_time() {
    let xml = r#"
<host starttime="1589292535" endtime="1589292535">
    <status state="down" reason="no-response" reason_ttl="0"/>
    <address addr="192.168.59.234" addrtype="ipv4"/>
</host>
        "#;
    let ele = host_node(xml);
    let host = Host::parse(&ele).unwrap();

    assert_eq!(host.scan_start_time, Some(1589292535));
    assert_eq!(host.scan_end_time, Some(1589292535));
}

#[test]
fn host_without_start_end_time() {
    let xml = r#"
<host>
    <status state="down" reason="no-response" reason_ttl="0"/>
    <address addr="192.168.59.234" addrtype="ipv4"/>
</host>
        "#;
    let ele = host_node(xml);
    let host = Host::parse(&ele).unwrap();

    assert!(host.scan_start_time.is_none());
    assert!(host.scan_end_time.is_none());
}

#[test]
fn host_with_invalid_start_time() {
    let xml = r#"
<host starttime="NOT A NUMBER" endtime="1589292535">
    <status state="down" reason="no-response" reason_ttl="0"/>
    <address addr="192.168.59.234" addrtype="ipv4"/>
</host>
        "#;
    let ele = host_node(xml);
    let host_err = Host::parse(&ele).unwrap_err();

    assert_eq!(
        host_err.message(),
        "error parsing Nmap XML output: failed to parse host start time"
    );
}

#[test]
fn host_with_multiple_script_output() {
    let xml = r#"
<host starttime="1623467939" endtime="1623467939"><status state="up" reason="conn-refused" reason_ttl="0"/>
<address addr="192.168.1.70" addrtype="ipv4"/>
<hostscript><script id="smb-print-text" output="false">false</script><script id="smb2-time" output="&#xa;  date: 2021-06-12T03:17:58&#xa;  start_date: N/A"><elem key="date">2021-06-12T03:17:58</elem>
<elem key="start_date">N/A</elem>
</script></hostscript><times srtt="5263" rttvar="4662" to="100000"/>
</host>
        "#;
    let ele = host_node(xml);
    let script_host = Host::parse(&ele).unwrap();
    let script_output = &script_host.scripts()[0];

    assert_eq!(script_output.id, "smb-print-text");
    assert_eq!(script_output.output, "false");
}

#[test]
fn host_with_invalid_end_time() {
    let xml = r#"
<host starttime="1589292535" endtime="NOT A NUMBER">
    <status state="down" reason="no-response" reason_ttl="0"/>
    <address addr="192.168.59.234" addrtype="ipv4"/>
</host>
        "#;
    let ele = host_node(xml);
    let host_err = Host::parse(&ele).unwrap_err();

    assert_eq!(
        host_err.message(),
        "error parsing Nmap XML output: failed to parse host end time"
    );
}

#[test]
fn host_full_scenario() {
    let xml = r#"<host starttime="1589292535" endtime="1589292535"><status state="down" reason="no-response" reason_ttl="0"/><address addr="192.168.59.234" addrtype="ipv4"/></host>"#;
    let host = Host::parse(&host_node(xml)).unwrap();

    assert_eq!(host.scan_start_time, Some(1589292535));
    assert_eq!(host.scan_end_time, Some(1589292535));
    assert_eq!(host.status.state, HostState::Down);
    assert_eq!(host.status.reason, "no-response");
    assert_eq!(host.status.reason_ttl, 0);
    assert_eq!(host.addresses().len(), 1);
    assert_eq!(
        host.addresses()[0],
        Address::IpAddr(IpAddr::V4(Ipv4Addr { a: 192, b: 168, c: 59, d: 234 }))
    );
}

#[test]
fn host_two_scripts_in_order() {
    let xml = r#"<host><status state="up" reason="syn-ack" reason_ttl="64"/><hostscript><script id="first-probe" output="one"/><script id="second-probe" output="two"/></hostscript></host>"#;
    let host = Host::parse(&host_node(xml)).unwrap();

    assert_eq!(host.scripts().len(), 2);
    assert_eq!(host.scripts()[0].id, "first-probe");
    assert_eq!(host.scripts()[0].output, "one");
    assert_eq!(host.scripts()[1].id, "second-probe");
    assert_eq!(host.scripts()[1].output, "two");
}

#[test]
fn host_names_in_order() {
    let xml = r#"<host><status state="up" reason="syn-ack" reason_ttl="64"/><hostnames><hostname name="gateway.example" type="user"/><hostname name="router.example" type="PTR"/></hostnames></host>"#;
    let host = Host::parse(&host_node(xml)).unwrap();

    assert_eq!(host.host_names().len(), 2);
    assert_eq!(host.host_names()[0].name, "gateway.example");
    assert_eq!(host.host_names()[0].source, HostnameType::User);
    assert_eq!(host.host_names()[1].name, "router.example");
    assert_eq!(host.host_names()[1].source, HostnameType::Dns);
}

#[test]
fn host_mac_address_kept_raw() {
    let xml = r#"<host><status state="up" reason="arp-response" reason_ttl="0"/><address addr="AA:BB:CC:DD:EE:FF" addrtype="mac"/></host>"#;
    let host = Host::parse(&host_node(xml)).unwrap();

    assert_eq!(host.addresses().len(), 1);
    assert_eq!(host.addresses()[0], Address::MacAddr("AA:BB:CC:DD:EE:FF".to_string()));
}

#[test]
fn host_ipv6_address() {
    let xml = r#"<host><status state="up" reason="nd-response" reason_ttl="0"/><address addr="fe80::1" addrtype="ipv6"/></host>"#;
    let host = Host::parse(&host_node(xml)).unwrap();

    assert!(matches!(host.addresses()[0], Address::IpAddr(IpAddr::V6(_))));
}

#[test]
fn host_decoding_is_deterministic() {
    let xml = r#"<host starttime="7" endtime="8"><status state="unknown" reason="none" reason_ttl="3"/><address addr="10.0.0.1" addrtype="ipv4"/><hostnames><hostname name="a.example" type="PTR"/></hostnames></host>"#;
    let ele = host_node(xml);
    let first = Host::parse(&ele).unwrap();
    let second = Host::parse(&ele).unwrap();

    assert_eq!(first, second);
}

#[test]
fn host_without_status_fails() {
    let xml = r#"<host><address addr="192.168.59.234" addrtype="ipv4"/></host>"#;
    let err = Host::parse(&host_node(xml)).unwrap_err();

    assert_eq!(err, Error::MissingStatus);
    assert_eq!(err.message(), "error parsing Nmap XML output: expected `status` node for host");
}

#[test]
fn host_last_status_wins() {
    let xml = r#"<host><status state="down" reason="no-response" reason_ttl="0"/><status state="up" reason="syn-ack" reason_ttl="64"/></host>"#;
    let host = Host::parse(&host_node(xml)).unwrap();

    assert_eq!(host.status.state, HostState::Up);
    assert_eq!(host.status.reason, "syn-ack");
    assert_eq!(host.status.reason_ttl, 64);
}

#[test]
fn host_ignores_unknown_children() {
    let xml = r#"<host><status state="up" reason="syn-ack" reason_ttl="64"/><times srtt="5263" rttvar="4662" to="100000"/><smurf responses="0"/></host>"#;
    let host = Host::parse(&host_node(xml)).unwrap();

    assert_eq!(host.status.state, HostState::Up);
    assert_eq!(host.addresses().len(), 0);
}

#[test]
fn host_invalid_ip_fails() {
    let xml = r#"<host><status state="up" reason="syn-ack" reason_ttl="64"/><address addr="192.168.59.256" addrtype="ipv4"/></host>"#;
    let err = Host::parse(&host_node(xml)).unwrap_err();

    assert_eq!(err, Error::InvalidIpAddress);
    assert_eq!(err.message(), "error parsing Nmap XML output: failed to parse IP address");
}

#[test]
fn address_attribute_errors() {
    let no_addr = r#"<host><status state="up" reason="x" reason_ttl="1"/><address addrtype="ipv4"/></host>"#;
    assert_eq!(Host::parse(&host_node(no_addr)).unwrap_err(), Error::MissingAddr);

    let bare = r#"<host><status state="up" reason="x" reason_ttl="1"/><address/></host>"#;
    assert_eq!(Host::parse(&host_node(bare)).unwrap_err(), Error::MissingAddr);
}

#[test]
fn address_without_type_read_as_ip() {
    let valid = r#"<host><status state="up" reason="x" reason_ttl="1"/><address addr="10.0.0.1"/></host>"#;
    let host = Host::parse(&host_node(valid)).unwrap();
    assert_eq!(
        host.addresses()[0],
        Address::IpAddr(IpAddr::V4(Ipv4Addr { a: 10, b: 0, c: 0, d: 1 }))
    );

    let invalid = r#"<host><status state="up" reason="x" reason_ttl="1"/><address addr="AA:BB:CC:DD:EE:FF"/></host>"#;
    assert_eq!(Host::parse(&host_node(invalid)).unwrap_err(), Error::InvalidIpAddress);
}

#[test]
fn status_attribute_errors() {
    let no_state = r#"<host><status reason="x" reason_ttl="1"/></host>"#;
    assert_eq!(Host::parse(&host_node(no_state)).unwrap_err(), Error::MissingStatusState);

    let bad_state = r#"<host><status state="sideways" reason="x" reason_ttl="1"/></host>"#;
    assert_eq!(Host::parse(&host_node(bad_state)).unwrap_err(), Error::InvalidStatusState);

    let no_reason = r#"<host><status state="up" reason_ttl="1"/></host>"#;
    assert_eq!(Host::parse(&host_node(no_reason)).unwrap_err(), Error::MissingStatusReason);

    let no_ttl = r#"<host><status state="up" reason="x"/></host>"#;
    assert_eq!(Host::parse(&host_node(no_ttl)).unwrap_err(), Error::MissingStatusReasonTtl);

    let bad_ttl = r#"<host><status state="up" reason="x" reason_ttl="256"/></host>"#;
    assert_eq!(Host::parse(&host_node(bad_ttl)).unwrap_err(), Error::InvalidStatusReasonTtl);
}

#[test]
fn hostname_attribute_errors() {
    let no_name = r#"<host><status state="up" reason="x" reason_ttl="1"/><hostnames><hostname type="user"/></hostnames></host>"#;
    assert_eq!(Host::parse(&host_node(no_name)).unwrap_err(), Error::MissingHostnameName);

    let no_type = r#"<host><status state="up" reason="x" reason_ttl="1"/><hostnames><hostname name="a.example"/></hostnames></host>"#;
    assert_eq!(Host::parse(&host_node(no_type)).unwrap_err(), Error::MissingHostnameType);

    let bad_type = r#"<host><status state="up" reason="x" reason_ttl="1"/><hostnames><hostname name="a.example" type="guess"/></hostnames></host>"#;
    assert_eq!(Host::parse(&host_node(bad_type)).unwrap_err(), Error::InvalidHostnameType);
}

#[test]
fn script_attribute_errors() {
    let no_id = r#"<host><status state="up" reason="x" reason_ttl="1"/><hostscript><script output="o"/></hostscript></host>"#;
    assert_eq!(Host::parse(&host_node(no_id)).unwrap_err(), Error::MissingScriptId);

    let no_output = r#"<host><status state="up" reason="x" reason_ttl="1"/><hostscript><script id="probe"/></hostscript></host>"#;
    assert_eq!(Host::parse(&host_node(no_output)).unwrap_err(), Error::MissingScriptOutput);
}

#[test]
fn host_addresses_in_order() {
    let xml = r#"<host><status state="up" reason="arp-response" reason_ttl="0"/><address addr="192.168.1.70" addrtype="ipv4"/><address addr="AA:BB:CC:DD:EE:FF" addrtype="mac"/></host>"#;
    let host = Host::parse(&host_node(xml)).unwrap();

    assert_eq!(host.addresses().len(), 2);
    assert_eq!(
        host.addresses()[0],
        Address::IpAddr(IpAddr::V4(Ipv4Addr { a: 192, b: 168, c: 1, d: 70 }))
    );
    assert_eq!(host.addresses()[1], Address::MacAddr("AA:BB:CC:DD:EE:FF".to_string()));
}

#[test]
fn host_states_recognized() {
    for (text, state) in [
        ("up", HostState::Up),
        ("down", HostState::Down),
        ("unknown", HostState::Unknown),
        ("skipped", HostState::Skipped),
    ] {
        let xml = format!(
            r#"<host><status state="{}" reason="x" reason_ttl="1"/></host>"#,
            text
        );
        let host = Host::parse(&host_node(&xml)).unwrap();
        assert_eq!(host.status.state, state);
    }
}

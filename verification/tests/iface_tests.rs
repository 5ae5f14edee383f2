use genesis_discovery::Ipv4;
use genesis_discovery::IfaceAddr;
use genesis_discovery::IfaceInfo;
use genesis_discovery::SubnetPrefix;
use genesis_discovery::resolve_interfaces;

fn iface(name: &str, loopback: bool, addrs: Vec<IfaceAddr>) -> IfaceInfo {
    IfaceInfo { name: String::from(name), loopback, addrs }
}

fn v4(a: u8, b: u8, c: u8, d: u8) -> IfaceAddr {
    IfaceAddr::V4(Ipv4 { a, b, c, d })
}

#[test]
fn preferred_interface_wins_over_earlier_ones() {
    let ifs = vec![
        iface("eth0", false, vec![v4(10, 0, 0, 7)]),
        iface("enp0s8", false, vec![v4(192, 168, 56, 4)]),
    ];
    let got = resolve_interfaces(&ifs, "enp0s8");
    assert_eq!(
        got,
        Some((Ipv4 { a: 192, b: 168, c: 56, d: 4 }, SubnetPrefix { a: 192, b: 168, c: 56 }))
    );
}

#[test]
fn preferred_interface_skips_non_ipv4_addresses() {
    let ifs = vec![iface("enp0s8", false, vec![IfaceAddr::Other, v4(192, 168, 1, 5)])];
    let got = resolve_interfaces(&ifs, "enp0s8");
    assert_eq!(got.map(|s| s.0), Some(Ipv4 { a: 192, b: 168, c: 1, d: 5 }));
}

#[test]
fn falls_back_to_first_non_loopback_with_ipv4() {
    let ifs = vec![
        iface("lo", true, vec![v4(127, 0, 0, 1)]),
        iface("wlan0", false, vec![IfaceAddr::Other]),
        iface("eth1", false, vec![v4(10, 1, 2, 3)]),
        iface("eth2", false, vec![v4(10, 9, 9, 9)]),
    ];
    let got = resolve_interfaces(&ifs, "enp0s8");
    assert_eq!(
        got,
        Some((Ipv4 { a: 10, b: 1, c: 2, d: 3 }, SubnetPrefix { a: 10, b: 1, c: 2 }))
    );
}

#[test]
fn preferred_interface_without_ipv4_falls_back() {
    let ifs = vec![
        iface("enp0s8", false, vec![IfaceAddr::Other]),
        iface("eth0", false, vec![v4(172, 20, 10, 3)]),
    ];
    let got = resolve_interfaces(&ifs, "enp0s8");
    assert_eq!(got.map(|s| s.0), Some(Ipv4 { a: 172, b: 20, c: 10, d: 3 }));
}

#[test]
fn nothing_qualifies_yields_none() {
    let ifs = vec![
        iface("lo", true, vec![v4(127, 0, 0, 1)]),
        iface("dummy", false, vec![IfaceAddr::Other]),
        iface("empty", false, vec![]),
    ];
    assert_eq!(resolve_interfaces(&ifs, "enp0s8"), None);
    assert_eq!(resolve_interfaces(&Vec::new(), "enp0s8"), None);
}

#[test]
fn preferred_interface_is_taken_even_if_loopback() {
    // The by-name choice does not consult the loopback flag; only the
    // fallback excludes loopback interfaces.
    let ifs = vec![
        iface("enp0s8", true, vec![v4(127, 0, 0, 1)]),
        iface("eth0", false, vec![v4(10, 0, 0, 1)]),
    ];
    let got = resolve_interfaces(&ifs, "enp0s8");
    assert_eq!(got.map(|s| s.0), Some(Ipv4 { a: 127, b: 0, c: 0, d: 1 }));
}

#[test]
fn only_first_interface_of_a_name_counts() {
    // The first interface with the preferred name has no IPv4 address: the
    // by-name choice gives up and the general fallback runs instead, which
    // here settles on the second interface of that name.
    let ifs = vec![
        iface("enp0s8", false, vec![IfaceAddr::Other]),
        iface("enp0s8", false, vec![v4(192, 168, 56, 9)]),
        iface("eth0", false, vec![v4(10, 0, 0, 2)]),
    ];
    let got = resolve_interfaces(&ifs, "enp0s8");
    assert_eq!(got.map(|s| s.0), Some(Ipv4 { a: 192, b: 168, c: 56, d: 9 }));
}

#[test]
fn subnet_prefix_is_the_first_three_octets() {
    let ip = Ipv4 { a: 192, b: 168, c: 1, d: 5 };
    let pre = ip.prefix();
    assert_eq!(pre, SubnetPrefix { a: 192, b: 168, c: 1 });
    assert_eq!(pre.host(10), Ipv4 { a: 192, b: 168, c: 1, d: 10 });
}

#[test]
fn addresses_format_as_dotted_decimal() {
    assert_eq!(Ipv4 { a: 192, b: 168, c: 1, d: 5 }.to_dotted(), "192.168.1.5");
    assert_eq!(Ipv4 { a: 0, b: 0, c: 0, d: 0 }.to_dotted(), "0.0.0.0");
    assert_eq!(Ipv4 { a: 255, b: 255, c: 255, d: 255 }.to_dotted(), "255.255.255.255");
    assert_eq!(Ipv4 { a: 10, b: 0, c: 99, d: 107 }.to_dotted(), "10.0.99.107");
    assert_eq!(SubnetPrefix { a: 172, b: 20, c: 10 }.to_dotted(), "172.20.10");
}

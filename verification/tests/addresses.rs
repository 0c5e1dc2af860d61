//! Addresses that the data plane can bind.
use portail::kubernetes::addresses::{
    compute_bind_addresses, ip_in_subnet, is_bindable_ipv4, is_bindable_ipv6, match_local_ip,
    network_local_ip, network_names, parse_cidr, parse_ipv4, substitute_network_addresses,
    UsableAddresses,
};
use portail::kubernetes::resources::{Gateway, GatewayAddresses, GatewaySpec};
use portail::table::Table;

fn ip(a: u32, b: u32, c: u32, d: u32) -> u32 {
    a << 24 | b << 16 | c << 8 | d
}

fn usable() -> UsableAddresses {
    let mut network_ips = Table::new();
    network_ips.insert("udn-a".to_string(), "192.168.10.3".to_string());
    UsableAddresses { interface_ips: vec!["10.244.1.5".into()], network_ips }
}

#[test]
fn parse_cidr_accepts_valid_and_rejects_garbage() {
    assert_eq!(parse_cidr("10.128.0.0/14"), Some((parse_ipv4("10.128.0.0").unwrap(), 14)));
    assert_eq!(parse_cidr("10.128.0.0/14"), Some((ip(10, 128, 0, 0), 14)));
    assert_eq!(parse_cidr("192.168.1.0/24").unwrap().1, 24);
    assert_eq!(parse_cidr("10.0.0.0"), None); // no prefix
    assert_eq!(parse_cidr("not-an-ip/24"), None);
    assert_eq!(parse_cidr("10.0.0.0/abc"), None);
    assert_eq!(parse_cidr(""), None);
}

#[test]
fn ip_in_subnet_edge_prefixes() {
    let addr = parse_ipv4("10.128.2.7").unwrap();
    let net = parse_ipv4("10.128.0.0").unwrap();
    assert!(ip_in_subnet(addr, net, 14));
    assert!(!ip_in_subnet(parse_ipv4("10.132.0.1").unwrap(), net, 14));
    // /0 matches everything
    assert!(ip_in_subnet(parse_ipv4("8.8.8.8").unwrap(), net, 0));
    // /32 is an exact match only
    assert!(ip_in_subnet(net, net, 32));
    assert!(!ip_in_subnet(addr, net, 32));
    // out-of-range prefix is rejected, not wrapped
    assert!(!ip_in_subnet(addr, net, 33));
}

#[test]
fn compute_bind_addresses_keeps_local_ips_drops_lb_vips() {
    let usable = usable();
    let spec_addrs = vec![
        "10.244.1.5".to_string(),   // pod IP: bindable
        "192.168.10.3".to_string(), // resolved Network IP: bindable
        "203.0.113.10".to_string(), // load balancer address: external, not bindable here
    ];
    assert_eq!(
        compute_bind_addresses(&spec_addrs, &usable),
        vec!["10.244.1.5".to_string(), "192.168.10.3".to_string()]
    );
    assert!(compute_bind_addresses(&vec![], &usable).is_empty());
}

#[test]
fn usable_addresses_prefer_interfaces() {
    let u = usable();
    let all: Vec<&str> = u.all();
    assert_eq!(all, vec!["10.244.1.5", "192.168.10.3"]);
    assert_eq!(u.preferred_ip(), "10.244.1.5");
    assert!(!u.is_empty());
    assert!(u.knows("192.168.10.3") && !u.knows("192.168.10.4"));
    let none = UsableAddresses { interface_ips: vec![], network_ips: Table::new() };
    assert!(none.is_empty());
    assert_eq!(none.preferred_ip(), "0.0.0.0");
}

#[test]
fn ipv4_texts_are_strict() {
    assert_eq!(parse_ipv4("255.255.255.255"), Some(u32::MAX));
    assert_eq!(parse_ipv4("0.0.0.0"), Some(0));
    for bad in ["", "1.2.3", "1.2.3.4.5", "256.1.1.1", "01.2.3.4", "1..2.3", "1.2.3.4 ", "a.b.c.d"]
    {
        assert_eq!(parse_ipv4(bad), None, "{bad}");
    }
}

#[test]
fn local_ip_matches_subnet() {
    let ips = vec!["10.0.0.1".to_string(), "192.168.1.7".to_string(), "192.168.1.8".to_string()];
    assert_eq!(match_local_ip("192.168.1.0/24", &ips).as_deref(), Some("192.168.1.7"));
    assert_eq!(match_local_ip("172.16.0.0/12", &ips), None);
    assert_eq!(match_local_ip("garbage", &ips), None);
}

#[test]
fn network_config_names_its_subnet() {
    let ips = vec!["10.0.0.1".to_string(), "192.168.1.7".to_string()];
    let config = r#"{"cniVersion": "0.3.1", "subnets": "192.168.1.0/24"}"#;
    assert_eq!(network_local_ip(config, &ips).as_deref(), Some("192.168.1.7"));
    assert_eq!(network_local_ip("not json", &ips), None);
    assert_eq!(network_local_ip("{}", &ips), None);
    assert_eq!(network_local_ip(r#"{"subnets": 7}"#, &ips), None);
}

#[test]
fn network_addresses_are_substituted() {
    let gateway = Gateway {
        spec: GatewaySpec {
            addresses: Some(vec![
                GatewayAddresses {
                    type_: Some("portail.epheo.eu/Network".to_string()),
                    value: Some("udn-a".to_string()),
                },
                GatewayAddresses { type_: None, value: Some("1.2.3.4".to_string()) },
            ]),
            ..Default::default()
        },
        ..Default::default()
    };
    let names = network_names(&gateway);
    let addresses = vec!["udn-a".to_string(), "1.2.3.4".to_string()];
    assert_eq!(
        substitute_network_addresses(&addresses, &usable()),
        vec!["192.168.10.3".to_string(), "1.2.3.4".to_string()]
    );
    assert_eq!(names, vec!["udn-a".to_string()]);
}

#[test]
fn bindable_addresses() {
    assert!(is_bindable_ipv4(ip(10, 0, 0, 1)));
    assert!(!is_bindable_ipv4(ip(127, 0, 0, 1)));
    assert!(!is_bindable_ipv4(ip(127, 255, 255, 255)));
    assert!(is_bindable_ipv6(&[0x2001, 0xdb8, 0, 0, 0, 0, 0, 1]));
    assert!(!is_bindable_ipv6(&[0, 0, 0, 0, 0, 0, 0, 1]));
    assert!(!is_bindable_ipv6(&[0xfe80, 0, 0, 0, 0, 0, 0, 1]));
}

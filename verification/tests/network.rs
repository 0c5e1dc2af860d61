//! Network interfaces.
use portail::network::{
    auto_select_interface, get_available_interfaces_string, get_interface_info,
    list_network_interfaces, select_and_validate_interface, validate_interface_for_xdp,
    InterfaceError, NetworkInterface,
};

fn iface(name: &str, is_up: bool, is_wireless: bool) -> NetworkInterface {
    NetworkInterface {
        name: name.to_string(),
        is_up,
        is_loopback: name == "lo",
        is_wireless,
    }
}

#[test]
fn test_list_interfaces() {
    let found = vec![iface("lo", true, false), iface("eth0", true, false)];
    if let Ok(interfaces) = list_network_interfaces(true, found) {
        assert!(!interfaces.is_empty(), "Should find at least loopback interface");
        assert!(interfaces.iter().any(|i| i.name == "lo"), "Should find loopback interface");
    }
}

#[test]
fn test_loopback_interface() {
    if let Ok(lo) = get_interface_info("lo", true, &Some("unknown\n".to_string()), false) {
        assert!(lo.is_loopback);
        assert_eq!(lo.name, "lo");
    }
}

#[test]
fn test_nonexistent_interface() {
    let result = get_interface_info("nonexistent_interface_12345", false, &None, false);
    assert!(result.is_err());
}

#[test]
fn interfaces_sort_with_loopback_last() {
    let found =
        vec![iface("wlan0", false, true), iface("lo", true, false), iface("eth0", true, false)];
    let names: Vec<String> =
        list_network_interfaces(true, found).unwrap().into_iter().map(|i| i.name).collect();
    assert_eq!(names, vec!["eth0", "wlan0", "lo"]);
    assert_eq!(list_network_interfaces(false, vec![]), Err(InterfaceError::NoDirectory));
}

#[test]
fn state_is_trimmed() {
    let up = validate_interface_for_xdp("eth0", true, &Some("up\n".to_string()), false).unwrap();
    assert_eq!(up, iface("eth0", true, false));
    let down = get_interface_info("wlan0", true, &Some("down\n".to_string()), true).unwrap();
    assert_eq!(down, iface("wlan0", false, true));
    assert!(!get_interface_info("eth1", true, &None, false).unwrap().is_up);
    let err = validate_interface_for_xdp("eth9", false, &None, false).unwrap_err();
    assert_eq!(err.message(), "Network interface 'eth9' not found");
}

#[test]
fn selection_prefers_connected_interfaces() {
    let pick = |v: Vec<NetworkInterface>| auto_select_interface(&v).unwrap();
    assert_eq!(pick(vec![iface("lo", true, false), iface("a", false, false), iface("b", true, false)]), "b");
    assert_eq!(pick(vec![iface("lo", true, false), iface("a", false, false)]), "a");
    assert_eq!(pick(vec![iface("lo", false, false)]), "lo");
    assert_eq!(auto_select_interface(&vec![]), Err(InterfaceError::NoInterfaces));
}

#[test]
fn listing_is_described() {
    let list = vec![iface("eth0", true, false), iface("wlan0", false, true), iface("lo", true, false)];
    assert_eq!(
        get_available_interfaces_string(&Some(list)),
        "eth0 (ethernet:up), wlan0 (wireless:down), lo (loopback:up)"
    );
    assert_eq!(get_available_interfaces_string(&Some(vec![])), "none");
    assert_eq!(get_available_interfaces_string(&None), "unable to detect");
}

#[test]
fn configured_interface_must_exist() {
    let listing = Some(vec![iface("eth0", true, false)]);
    assert_eq!(select_and_validate_interface(Some("eth1"), true, &listing), Ok("eth1".to_string()));
    assert_eq!(select_and_validate_interface(None, false, &listing), Ok("eth0".to_string()));
    assert_eq!(
        select_and_validate_interface(Some("eth7"), false, &listing).unwrap_err().message(),
        "Configured network interface 'eth7' not found.\nAvailable interfaces: eth0 (ethernet:up).\n\
         Please update the 'network_interface' setting in your configuration file."
    );
    assert_eq!(
        select_and_validate_interface(None, false, &None).unwrap_err().message(),
        "No network interface configured and auto-selection failed.\nAvailable interfaces: unable \
         to detect.\nPlease specify a 'network_interface' in your configuration file."
    );
    assert_eq!(
        InterfaceError::NoInterfaces.message(),
        "No network interfaces found on system"
    );
    assert_eq!(
        InterfaceError::NoDirectory.message(),
        "System network interface directory not found: /sys/class/net"
    );
}

use controlplane::compute_api::{
    agent_stats_url, convert_status_codes, get_main_interface_ip, ovs_add_port_args,
    ovs_add_vnet_args, ovs_del_port_args, ovs_set_interface_args, provider_bridge_name,
    validate_vm_os, AddrInfo, IfaceInfo,
};
use controlplane::foreign::lowercase;

#[test]
fn os_validation_accepts_known_images() {
    assert!(validate_vm_os("rhel9").is_none());
    assert!(validate_vm_os("fedora41").is_none());
    let e = validate_vm_os("debian12").unwrap();
    assert_eq!(e.code, 400);
    assert_eq!(e.body, "Invalid OS specified. Only 'rhel9' and 'fedora41' are supported.");
}

#[test]
fn ovs_argument_lists() {
    let add = ovs_add_port_args("web", "br-int", "acme");
    assert_eq!(add, vec!["add-port", "br-int", "acme-web", "external_ids:iface-id=acme-web"]);
    let set = ovs_set_interface_args("web", "acme");
    assert_eq!(set, vec!["set", "Interface", "acme-web", "external_ids:iface-id=acme-web"]);
    let del = ovs_del_port_args("web", "br-int", "acme");
    assert_eq!(del, vec!["del-port", "br-int", "acme-web"]);
    let vnet = ovs_add_vnet_args("web", "br-vlan100", "acme");
    assert_eq!(vnet, vec!["add-port", "br-vlan100", "acme-web"]);
}

#[test]
fn provider_bridge_naming() {
    assert_eq!(provider_bridge_name(100), "br-vlan100");
    assert_eq!(provider_bridge_name(1), "br-vlan1");
}

#[test]
fn libvirt_state_codes() {
    assert_eq!(convert_status_codes(0), "No state");
    assert_eq!(convert_status_codes(1), "Running");
    assert_eq!(convert_status_codes(2), "Blocked");
    assert_eq!(convert_status_codes(3), "Paused");
    assert_eq!(convert_status_codes(4), "Shutdown");
    assert_eq!(convert_status_codes(5), "Shutoff");
    assert_eq!(convert_status_codes(6), "Crashed");
    assert_eq!(convert_status_codes(7), "Suspended");
    assert_eq!(convert_status_codes(8), "Unknown");
    assert_eq!(convert_status_codes(999), "Unknown");
}

#[test]
fn lowercase_matches_std() {
    assert_eq!(lowercase("Running"), "running");
    assert_eq!(lowercase("ShutOFF"), "shutoff");
    assert_eq!(lowercase(""), "");
}

fn iface(name: &str, addrs: Vec<(&str, u32, bool)>) -> IfaceInfo {
    IfaceInfo {
        name: name.to_string(),
        addrs: addrs
            .into_iter()
            .map(|(a, p, v)| AddrInfo { addr: a.to_string(), prefix: p, addr_valid: v })
            .collect(),
    }
}

#[test]
fn main_interface_addresses_are_collected() {
    let ifaces = vec![
        iface("lo", vec![("127.0.0.1", 8, true)]),
        iface("eth0", vec![("10.0.0.5", 24, true), ("bogus", 0, false), ("fe80::1", 64, true)]),
    ];
    let ips = get_main_interface_ip(&ifaces).unwrap();
    assert_eq!(ips, vec!["10.0.0.5/24".to_string(), "fe80::1/64".to_string()]);
}

#[test]
fn no_usable_main_interface_yields_none() {
    let ifaces = vec![
        iface("lo", vec![("127.0.0.1", 8, true)]),
        iface("eth0", vec![("bogus", 0, false)]),
    ];
    assert!(get_main_interface_ip(&ifaces).is_none());
    assert!(get_main_interface_ip(&vec![]).is_none());
}

#[test]
fn agent_url_building() {
    assert_eq!(
        agent_stats_url("http", "cp.example", 8080, "/hypervisor/stats"),
        "http://cp.example:8080/hypervisor/stats"
    );
}

//! The compute-node side: the create-endpoint's OS validation, the
//! `ovs-vsctl` argument lists that attach and detach VM ports, libvirt
//! lifecycle state names, and the agent's reporting helpers.  Running the
//! commands, libvirt itself and the periodic push live outside the library.

use vstd::prelude::*;
use crate::response::{ApiResponse, resp, msg2, msg3, msg5, BAD_REQUEST};
use crate::text::{str_eq, spec_dec_i64, i64_to_string, u64_to_string, spec_dec};

verus! {

/// The operating systems the compute node can materialise.
pub open spec fn spec_os_supported(os: Seq<char>) -> bool {
    os == "rhel9"@ || os == "fedora41"@
}

/// Validate the OS of a VM create request; the rejection the endpoint
/// answers with, if any.
pub fn validate_vm_os(os: &str) -> (r: Option<ApiResponse>)
    ensures
        r is None <==> spec_os_supported(os@),
        r matches Some(e) ==> e.code == BAD_REQUEST && e.body@
            == "Invalid OS specified. Only 'rhel9' and 'fedora41' are supported."@,
{
    if str_eq(os, "rhel9") || str_eq(os, "fedora41") {
        None
    } else {
        Some(resp(BAD_REQUEST, "Invalid OS specified. Only 'rhel9' and 'fedora41' are supported."))
    }
}

/// The interface name a VM's port carries on the node: `"{tenant}-{name}"`.
pub open spec fn spec_vnet_name(tenant: Seq<char>, port: Seq<char>) -> Seq<char> {
    tenant + "-"@ + port
}

/// The bridge of a provider network: `"br-vlan{vlan}"`.
pub open spec fn spec_provider_bridge(vlan: int) -> Seq<char> {
    "br-vlan"@ + spec_dec_i64(vlan)
}

/// Name the bridge of a provider network.
pub fn provider_bridge_name(vlan: i32) -> (r: String)
    ensures
        r@ == spec_provider_bridge(vlan as int),
{
    let r = msg2("br-vlan", i64_to_string(vlan as i64).as_str());
    r
}

/// The `ovs-vsctl` arguments that attach a VM port to a bridge.
pub fn ovs_add_port_args(port_name: &str, bridge_name: &str, tenant: &str) -> (r: Vec<String>)
    ensures
        r@.len() == 4,
        r@[0]@ == "add-port"@,
        r@[1]@ == bridge_name@,
        r@[2]@ == spec_vnet_name(tenant@, port_name@),
        r@[3]@ == "external_ids:iface-id="@ + spec_vnet_name(tenant@, port_name@),
{
    let vnet = msg3(tenant, "-", port_name);
    let mut r: Vec<String> = Vec::new();
    r.push("add-port".to_owned());
    r.push(bridge_name.to_owned());
    r.push(vnet.clone());
    r.push(msg2("external_ids:iface-id=", vnet.as_str()));
    r
}

/// The `ovs-vsctl` arguments that attach a VM port to a provider bridge:
/// unlike the overlay attach, no logical port id is set.
pub fn ovs_add_vnet_args(port_name: &str, provider_bridge: &str, tenant: &str) -> (r: Vec<String>)
    ensures
        r@.len() == 3,
        r@[0]@ == "add-port"@,
        r@[1]@ == provider_bridge@,
        r@[2]@ == spec_vnet_name(tenant@, port_name@),
{
    let vnet = msg3(tenant, "-", port_name);
    let mut r: Vec<String> = Vec::new();
    r.push("add-port".to_owned());
    r.push(provider_bridge.to_owned());
    r.push(vnet);
    r
}

/// The `ovs-vsctl` arguments that set the interface's logical port id.
pub fn ovs_set_interface_args(port_name: &str, tenant: &str) -> (r: Vec<String>)
    ensures
        r@.len() == 4,
        r@[0]@ == "set"@,
        r@[1]@ == "Interface"@,
        r@[2]@ == spec_vnet_name(tenant@, port_name@),
        r@[3]@ == "external_ids:iface-id="@ + spec_vnet_name(tenant@, port_name@),
{
    let vnet = msg3(tenant, "-", port_name);
    let mut r: Vec<String> = Vec::new();
    r.push("set".to_owned());
    r.push("Interface".to_owned());
    r.push(vnet.clone());
    r.push(msg2("external_ids:iface-id=", vnet.as_str()));
    r
}

/// The `ovs-vsctl` arguments that detach a VM port from a bridge.
pub fn ovs_del_port_args(port_name: &str, bridge_name: &str, tenant: &str) -> (r: Vec<String>)
    ensures
        r@.len() == 3,
        r@[0]@ == "del-port"@,
        r@[1]@ == bridge_name@,
        r@[2]@ == spec_vnet_name(tenant@, port_name@),
{
    let vnet = msg3(tenant, "-", port_name);
    let mut r: Vec<String> = Vec::new();
    r.push("del-port".to_owned());
    r.push(bridge_name.to_owned());
    r.push(vnet);
    r
}

/// The lifecycle state text reported for a libvirt domain state code.
pub open spec fn spec_status_text(status: u32) -> Seq<char> {
    if status == 0 {
        "No state"@
    } else if status == 1 {
        "Running"@
    } else if status == 2 {
        "Blocked"@
    } else if status == 3 {
        "Paused"@
    } else if status == 4 {
        "Shutdown"@
    } else if status == 5 {
        "Shutoff"@
    } else if status == 6 {
        "Crashed"@
    } else if status == 7 {
        "Suspended"@
    } else {
        "Unknown"@
    }
}

/// Map a libvirt domain state code to its text.
pub fn convert_status_codes(status: u32) -> (r: String)
    ensures
        r@ == spec_status_text(status),
{
    if status == 0 {
        "No state".to_owned()
    } else if status == 1 {
        "Running".to_owned()
    } else if status == 2 {
        "Blocked".to_owned()
    } else if status == 3 {
        "Paused".to_owned()
    } else if status == 4 {
        "Shutdown".to_owned()
    } else if status == 5 {
        "Shutoff".to_owned()
    } else if status == 6 {
        "Crashed".to_owned()
    } else if status == 7 {
        "Suspended".to_owned()
    } else {
        "Unknown".to_owned()
    }
}

/// One address on a guest interface, as the agent reports it: the text form
/// and its prefix length, with a flag saying whether the text parsed as an
/// IP address.
pub struct AddrInfo {
    pub addr: String,
    pub prefix: u32,
    pub addr_valid: bool,
}

/// One guest interface with its addresses.
pub struct IfaceInfo {
    pub name: String,
    pub addrs: Vec<AddrInfo>,
}

/// The text form an address entry contributes: `"{addr}/{prefix}"`.
pub open spec fn spec_addr_text(a: AddrInfo) -> Seq<char> {
    a.addr@ + "/"@ + spec_dec(a.prefix as nat)
}

/// The text `s` is the rendering of some valid address entry of an `eth0`
/// interface in the report.
pub open spec fn spec_is_eth0_addr(interfaces: Seq<IfaceInfo>, s: Seq<char>) -> bool {
    exists|a: int, b: int|
        0 <= a < interfaces.len() && 0 <= b < interfaces[a].addrs@.len() && interfaces[a].name@
            == "eth0"@ && (#[trigger] interfaces[a].addrs@[b]).addr_valid && s == spec_addr_text(
            interfaces[a].addrs@[b],
        )
}

/// Some `eth0` interface in the report carries a valid address entry.
pub open spec fn spec_has_eth0_addr(interfaces: Seq<IfaceInfo>) -> bool {
    exists|a: int, b: int|
        0 <= a < interfaces.len() && 0 <= b < interfaces[a].addrs@.len() && interfaces[a].name@
            == "eth0"@ && (#[trigger] interfaces[a].addrs@[b]).addr_valid
}

/// Collect the addresses of the guest's main interface (`eth0`), as
/// `"{addr}/{prefix}"` texts; entries whose address did not parse are
/// skipped.  `None` when nothing was collected; otherwise every returned
/// text renders a valid `eth0` entry and every valid `eth0` entry is
/// returned.
pub fn get_main_interface_ip(interfaces: &Vec<IfaceInfo>) -> (r: Option<Vec<String>>)
    ensures
        r is Some <==> spec_has_eth0_addr(interfaces@),
        r matches Some(ips) ==> ips@.len() > 0 && forall|m: int|
            0 <= m < ips@.len() ==> spec_is_eth0_addr(interfaces@, (#[trigger] ips@[m])@),
        r matches Some(ips) ==> forall|a: int, b: int|
            0 <= a < interfaces@.len() && 0 <= b < interfaces@[a].addrs@.len()
                && interfaces@[a].name@ == "eth0"@ && (
            #[trigger] interfaces@[a].addrs@[b]).addr_valid ==> exists|m: int|
                0 <= m < ips@.len() && (#[trigger] ips@[m])@ == spec_addr_text(
                    interfaces@[a].addrs@[b],
                ),
{
    let mut ips: Vec<String> = Vec::new();
    let n = interfaces.len();
    let mut i: usize = 0;
    while i < n
        invariant
            n == interfaces@.len(),
            0 <= i <= n,
            forall|m: int|
                0 <= m < ips@.len() ==> spec_is_eth0_addr(interfaces@, (#[trigger] ips@[m])@),
            forall|a: int, b: int|
                0 <= a < i && 0 <= b < interfaces@[a].addrs@.len() && interfaces@[a].name@
                    == "eth0"@ && (#[trigger] interfaces@[a].addrs@[b]).addr_valid ==> exists|
                    m: int,
                |
                    0 <= m < ips@.len() && (#[trigger] ips@[m])@ == spec_addr_text(
                        interfaces@[a].addrs@[b],
                    ),
            ips@.len() == 0 ==> forall|a: int, b: int|
                0 <= a < i && 0 <= b < interfaces@[a].addrs@.len() && (
                #[trigger] interfaces@[a].addrs@[b]).addr_valid ==> interfaces@[a].name@
                    != "eth0"@,
        decreases n - i,
    {
        if str_eq(interfaces[i].name.as_str(), "eth0") {
            let m = interfaces[i].addrs.len();
            let mut j: usize = 0;
            while j < m
                invariant
                    n == interfaces@.len(),
                    0 <= i < n,
                    m == interfaces@[i as int].addrs@.len(),
                    0 <= j <= m,
                    interfaces@[i as int].name@ == "eth0"@,
                    forall|t: int|
                        0 <= t < ips@.len() ==> spec_is_eth0_addr(
                            interfaces@,
                            (#[trigger] ips@[t])@,
                        ),
                    forall|a: int, b: int|
                        0 <= a < i && 0 <= b < interfaces@[a].addrs@.len() && interfaces@[a].name@
                            == "eth0"@ && (#[trigger] interfaces@[a].addrs@[b]).addr_valid
                            ==> exists|t: int|
                            0 <= t < ips@.len() && (#[trigger] ips@[t])@ == spec_addr_text(
                                interfaces@[a].addrs@[b],
                            ),
                    forall|b: int|
                        0 <= b < j && (#[trigger] interfaces@[i as int].addrs@[b]).addr_valid
                            ==> exists|t: int|
                            0 <= t < ips@.len() && (#[trigger] ips@[t])@ == spec_addr_text(
                                interfaces@[i as int].addrs@[b],
                            ),
                    ips@.len() == 0 ==> (forall|a: int, b: int|
                        0 <= a < i && 0 <= b < interfaces@[a].addrs@.len() && (
                        #[trigger] interfaces@[a].addrs@[b]).addr_valid ==> interfaces@[a].name@
                            != "eth0"@) && (forall|b: int|
                        0 <= b < j ==> !(#[trigger] interfaces@[i as int].addrs@[b]).addr_valid),
                decreases m - j,
            {
                if interfaces[i].addrs[j].addr_valid {
                    let a = &interfaces[i].addrs[j];
                    let text = msg3(a.addr.as_str(), "/", u64_to_string(a.prefix as u64).as_str());
                    proof {
                        assert(spec_is_eth0_addr(interfaces@, text@)) by {
                            assert((interfaces@[i as int].addrs@[j as int]).addr_valid && text@
                                == spec_addr_text(interfaces@[i as int].addrs@[j as int]));
                        }
                    }
                    let ghost ips0 = ips@;
                    ips.push(text);
                    proof {
                        assert forall|a2: int, b2: int|
                            0 <= a2 < i && 0 <= b2 < interfaces@[a2].addrs@.len()
                                && interfaces@[a2].name@ == "eth0"@ && (
                            #[trigger] interfaces@[a2].addrs@[b2]).addr_valid implies exists|
                            t: int,
                        |
                            0 <= t < ips@.len() && (#[trigger] ips@[t])@ == spec_addr_text(
                                interfaces@[a2].addrs@[b2],
                            ) by {
                            let t = choose|t: int|
                                0 <= t < ips0.len() && (#[trigger] ips0[t])@ == spec_addr_text(
                                    interfaces@[a2].addrs@[b2],
                                );
                            assert(ips@[t]@ == spec_addr_text(interfaces@[a2].addrs@[b2]));
                        }
                        assert forall|b2: int|
                            0 <= b2 < j + 1 && (
                            #[trigger] interfaces@[i as int].addrs@[b2]).addr_valid implies exists|
                            t: int,
                        |
                            0 <= t < ips@.len() && (#[trigger] ips@[t])@ == spec_addr_text(
                                interfaces@[i as int].addrs@[b2],
                            ) by {
                            if b2 == j {
                                assert(ips@[ips@.len() - 1]@ == spec_addr_text(
                                    interfaces@[i as int].addrs@[b2],
                                ));
                            } else {
                                let t = choose|t: int|
                                    0 <= t < ips0.len() && (#[trigger] ips0[t])@ == spec_addr_text(
                                        interfaces@[i as int].addrs@[b2],
                                    );
                                assert(ips@[t]@ == spec_addr_text(interfaces@[i as int].addrs@[b2]));
                            }
                        }
                    }
                }
                j = j + 1;
            }
        }
        i = i + 1;
    }
    if ips.len() > 0 {
        proof {
            assert(spec_is_eth0_addr(interfaces@, ips@[0]@));
            let (a, b) = choose|a: int, b: int|
                0 <= a < interfaces@.len() && 0 <= b < interfaces@[a].addrs@.len()
                    && interfaces@[a].name@ == "eth0"@ && (
                #[trigger] interfaces@[a].addrs@[b]).addr_valid && ips@[0]@ == spec_addr_text(
                    interfaces@[a].addrs@[b],
                );
            assert(spec_has_eth0_addr(interfaces@)) by {
                assert((interfaces@[a].addrs@[b]).addr_valid);
            }
        }
        Some(ips)
    } else {
        proof {
            if spec_has_eth0_addr(interfaces@) {
                let (a, b) = choose|a: int, b: int|
                    0 <= a < interfaces@.len() && 0 <= b < interfaces@[a].addrs@.len()
                        && interfaces@[a].name@ == "eth0"@ && (
                    #[trigger] interfaces@[a].addrs@[b]).addr_valid;
                assert(interfaces@[a].name@ != "eth0"@);
            }
        }
        None
    }
}

/// The URL the agent pushes inventory to: `{protocol}://{host}:{port}{path}`.
pub open spec fn spec_agent_url(
    protocol: Seq<char>,
    host: Seq<char>,
    port: u16,
    path: Seq<char>,
) -> Seq<char> {
    protocol + "://"@ + host + ":"@ + spec_dec(port as nat) + path
}

/// Build the agent's push URL.
pub fn agent_stats_url(protocol: &str, host: &str, port: u16, path: &str) -> (r: String)
    ensures
        r@ == spec_agent_url(protocol@, host@, port, path@),
{
    let r = msg5(protocol, "://", host, ":", u64_to_string(port as u64).as_str());
    let r2 = msg2(r.as_str(), path);
    proof {
        assert(r2@ =~= spec_agent_url(protocol@, host@, port, path@));
    }
    r2
}

} // verus!

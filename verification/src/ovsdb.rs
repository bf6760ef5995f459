//! OVSDB northbound requests and responses.  Every overlay mutation is a
//! JSON-RPC `transact` against the `OVN_Northbound` database, one JSON
//! document per line; each builder here states the exact request text it
//! produces.  Responses are parsed with the two UUID extraction shapes the
//! protocol uses.  The transport (a TCP connection per operation) lives
//! outside the library.

use vstd::prelude::*;
use crate::foreign::{json_pointer_str, json_pointer_str_of, utc_now_string};
use crate::jsontext::{json_quote, spec_json_str, spec_hex_digit, hex_digit_str};
use crate::response::{msg2, msg5};

verus! {

/// The request that inserts a `Logical_Switch` row named `name` whose
/// `other_config` carries the subnet, with an audit comment.
pub open spec fn spec_create_l2_switch_req(name: Seq<char>, cidr: Seq<char>, stamp: Seq<char>) -> Seq<
    char,
> {
    "{\"id\":1,\"method\":\"transact\",\"params\":[\"OVN_Northbound\",{\"op\":\"insert\",\"row\":{\"name\":"@
        + spec_json_str(name) + ",\"other_config\":[\"map\",[[\"subnet\","@ + spec_json_str(cidr)
        + "]]]},\"table\":\"Logical_Switch\"},{\"comment\":"@ + spec_json_str(
        "Added by create_l2_switch "@ + name + " at "@ + stamp,
    ) + ",\"op\":\"comment\"}]}\n"@
}

/// Build the logical switch insert request with the given audit timestamp.
pub fn create_l2_switch_request_at(name: &str, cidr: &str, stamp: &str) -> (r: String)
    ensures
        r@ == spec_create_l2_switch_req(name@, cidr@, stamp@),
{
    let comment = msg5("Added by create_l2_switch ", name, " at ", stamp, "");
    let mut out = String::new();
    out.append(
        "{\"id\":1,\"method\":\"transact\",\"params\":[\"OVN_Northbound\",{\"op\":\"insert\",\"row\":{\"name\":",
    );
    out.append(json_quote(name).as_str());
    out.append(",\"other_config\":[\"map\",[[\"subnet\",");
    out.append(json_quote(cidr).as_str());
    out.append("]]]},\"table\":\"Logical_Switch\"},{\"comment\":");
    out.append(json_quote(comment.as_str()).as_str());
    out.append(",\"op\":\"comment\"}]}\n");
    proof {
        reveal_strlit("");
        assert(comment@ =~= "Added by create_l2_switch "@ + name@ + " at "@ + stamp@);
        assert(out@ =~= spec_create_l2_switch_req(name@, cidr@, stamp@));
    }
    out
}

/// Build the logical switch insert request, stamped with the clock.
pub fn create_l2_switch_request(name: &str, cidr: &str) -> (r: String)
    ensures
        exists|stamp: Seq<char>| r@ == spec_create_l2_switch_req(name@, cidr@, stamp),
{
    let stamp = utc_now_string();
    let r = create_l2_switch_request_at(name, cidr, stamp.as_str());
    proof {
        assert(r@ == spec_create_l2_switch_req(name@, cidr@, stamp@));
    }
    r
}

/// The request that deletes the `Logical_Switch` row named `name`.
pub open spec fn spec_delete_l2_switch_req(name: Seq<char>, stamp: Seq<char>) -> Seq<char> {
    "{\"id\":1,\"method\":\"transact\",\"params\":[\"OVN_Northbound\",{\"op\":\"delete\",\"table\":\"Logical_Switch\",\"where\":[[\"name\",\"==\","@
        + spec_json_str(name) + "]]},{\"comment\":"@ + spec_json_str(
        "Deleted by delete_l2_switch "@ + name + " at "@ + stamp,
    ) + ",\"op\":\"comment\"}]}\n"@
}

/// Build the logical switch delete request with the given audit timestamp.
pub fn delete_l2_switch_request_at(name: &str, stamp: &str) -> (r: String)
    ensures
        r@ == spec_delete_l2_switch_req(name@, stamp@),
{
    let comment = msg5("Deleted by delete_l2_switch ", name, " at ", stamp, "");
    let mut out = String::new();
    out.append(
        "{\"id\":1,\"method\":\"transact\",\"params\":[\"OVN_Northbound\",{\"op\":\"delete\",\"table\":\"Logical_Switch\",\"where\":[[\"name\",\"==\",",
    );
    out.append(json_quote(name).as_str());
    out.append("]]},{\"comment\":");
    out.append(json_quote(comment.as_str()).as_str());
    out.append(",\"op\":\"comment\"}]}\n");
    proof {
        reveal_strlit("");
        assert(comment@ =~= "Deleted by delete_l2_switch "@ + name@ + " at "@ + stamp@);
        assert(out@ =~= spec_delete_l2_switch_req(name@, stamp@));
    }
    out
}

/// Build the logical switch delete request, stamped with the clock.
pub fn delete_l2_switch_request(name: &str) -> (r: String)
    ensures
        exists|stamp: Seq<char>| r@ == spec_delete_l2_switch_req(name@, stamp),
{
    let stamp = utc_now_string();
    let r = delete_l2_switch_request_at(name, stamp.as_str());
    proof {
        assert(r@ == spec_delete_l2_switch_req(name@, stamp@));
    }
    r
}

/// The request that selects a `Logical_Switch` row by name.
pub open spec fn spec_select_switch_req(name: Seq<char>) -> Seq<char> {
    "{\"id\":3,\"method\":\"transact\",\"params\":[\"OVN_Northbound\",{\"op\":\"select\",\"table\":\"Logical_Switch\",\"where\":[[\"name\",\"==\","@
        + spec_json_str(name) + "]]}]}\n"@
}

/// Build the switch select request (the first step of attaching a port).
pub fn select_switch_request(name: &str) -> (r: String)
    ensures
        r@ == spec_select_switch_req(name@),
{
    let mut out = String::new();
    out.append(
        "{\"id\":3,\"method\":\"transact\",\"params\":[\"OVN_Northbound\",{\"op\":\"select\",\"table\":\"Logical_Switch\",\"where\":[[\"name\",\"==\",",
    );
    out.append(json_quote(name).as_str());
    out.append("]]}]}\n");
    proof {
        assert(out@ =~= spec_select_switch_req(name@));
    }
    out
}

/// The request that inserts a `Logical_Switch_Port` named `port_name` and in
/// the same transaction appends it to the ports of the switch with UUID
/// `switch_uuid`.
pub open spec fn spec_add_lsp_req(port_name: Seq<char>, switch_uuid: Seq<char>) -> Seq<char> {
    "{\"id\":4,\"method\":\"transact\",\"params\":[\"OVN_Northbound\",{\"op\":\"insert\",\"row\":{\"name\":"@
        + spec_json_str(port_name)
        + "},\"table\":\"Logical_Switch_Port\",\"uuid-name\":\"row1\"},{\"mutations\":[[\"ports\",\"insert\",[\"set\",[[\"named-uuid\",\"row1\"]]]]],\"op\":\"mutate\",\"table\":\"Logical_Switch\",\"where\":[[\"_uuid\",\"==\",[\"uuid\","@
        + spec_json_str(switch_uuid) + "]]]},{\"comment\":"@ + spec_json_str(
        "Added by add_lsp_to_ls for "@ + port_name,
    ) + ",\"op\":\"comment\"}]}\n"@
}

/// Build the port insert-and-attach request.
pub fn add_lsp_request(port_name: &str, switch_uuid: &str) -> (r: String)
    ensures
        r@ == spec_add_lsp_req(port_name@, switch_uuid@),
{
    let comment = msg2("Added by add_lsp_to_ls for ", port_name);
    let mut out = String::new();
    out.append(
        "{\"id\":4,\"method\":\"transact\",\"params\":[\"OVN_Northbound\",{\"op\":\"insert\",\"row\":{\"name\":",
    );
    out.append(json_quote(port_name).as_str());
    out.append(
        "},\"table\":\"Logical_Switch_Port\",\"uuid-name\":\"row1\"},{\"mutations\":[[\"ports\",\"insert\",[\"set\",[[\"named-uuid\",\"row1\"]]]]],\"op\":\"mutate\",\"table\":\"Logical_Switch\",\"where\":[[\"_uuid\",\"==\",[\"uuid\",",
    );
    out.append(json_quote(switch_uuid).as_str());
    out.append("]]]},{\"comment\":");
    out.append(json_quote(comment.as_str()).as_str());
    out.append(",\"op\":\"comment\"}]}\n");
    proof {
        assert(out@ =~= spec_add_lsp_req(port_name@, switch_uuid@));
    }
    out
}

/// The request that sets the `addresses` of the port with UUID `port_uuid`
/// to `"{mac} dynamic"`.
pub open spec fn spec_add_mac_req(port_uuid: Seq<char>, mac: Seq<char>) -> Seq<char> {
    "{\"id\":5,\"method\":\"transact\",\"params\":[\"OVN_Northbound\",{\"op\":\"update\",\"row\":{\"addresses\":"@
        + spec_json_str(mac + " dynamic"@)
        + "},\"table\":\"Logical_Switch_Port\",\"where\":[[\"_uuid\",\"==\",[\"uuid\","@
        + spec_json_str(port_uuid) + "]]]},{\"comment\":"@ + spec_json_str(
        "MAC Address defined by add_mac_to_lsp for "@ + port_uuid,
    ) + ",\"op\":\"comment\"}]}\n"@
}

/// Build the MAC binding request.
pub fn add_mac_request(port_uuid: &str, mac_address: &str) -> (r: String)
    ensures
        r@ == spec_add_mac_req(port_uuid@, mac_address@),
{
    let addresses = msg2(mac_address, " dynamic");
    let comment = msg2("MAC Address defined by add_mac_to_lsp for ", port_uuid);
    let mut out = String::new();
    out.append(
        "{\"id\":5,\"method\":\"transact\",\"params\":[\"OVN_Northbound\",{\"op\":\"update\",\"row\":{\"addresses\":",
    );
    out.append(json_quote(addresses.as_str()).as_str());
    out.append("},\"table\":\"Logical_Switch_Port\",\"where\":[[\"_uuid\",\"==\",[\"uuid\",");
    out.append(json_quote(port_uuid).as_str());
    out.append("]]]},{\"comment\":");
    out.append(json_quote(comment.as_str()).as_str());
    out.append(",\"op\":\"comment\"}]}\n");
    proof {
        assert(out@ =~= spec_add_mac_req(port_uuid@, mac_address@));
    }
    out
}

/// The request that selects a `DHCP_Options` row by CIDR.
pub open spec fn spec_select_dhcp_req(cidr: Seq<char>) -> Seq<char> {
    "{\"id\":20,\"method\":\"transact\",\"params\":[\"OVN_Northbound\",{\"op\":\"select\",\"table\":\"DHCP_Options\",\"where\":[[\"cidr\",\"==\","@
        + spec_json_str(cidr) + "]]}]}\n"@
}

/// Build the DHCP options select request.
pub fn select_dhcp_options_request(cidr: &str) -> (r: String)
    ensures
        r@ == spec_select_dhcp_req(cidr@),
{
    let mut out = String::new();
    out.append(
        "{\"id\":20,\"method\":\"transact\",\"params\":[\"OVN_Northbound\",{\"op\":\"select\",\"table\":\"DHCP_Options\",\"where\":[[\"cidr\",\"==\",",
    );
    out.append(json_quote(cidr).as_str());
    out.append("]]}]}\n");
    proof {
        assert(out@ =~= spec_select_dhcp_req(cidr@));
    }
    out
}

/// The request that deletes the `DHCP_Options` row with UUID `opts_uuid`.
pub open spec fn spec_delete_dhcp_req(opts_uuid: Seq<char>, cidr: Seq<char>, stamp: Seq<char>) -> Seq<
    char,
> {
    "{\"id\":12,\"method\":\"transact\",\"params\":[\"OVN_Northbound\",{\"op\":\"delete\",\"table\":\"DHCP_Options\",\"where\":[[\"_uuid\",\"==\",[\"uuid\","@
        + spec_json_str(opts_uuid) + "]]]},{\"comment\":"@ + spec_json_str(
        "Deleted by delete_dhcpv4_options with cidr="@ + cidr + " at "@ + stamp,
    ) + ",\"op\":\"comment\"}]}\n"@
}

/// Build the DHCP options delete request with the given audit timestamp.
pub fn delete_dhcp_options_request_at(opts_uuid: &str, cidr: &str, stamp: &str) -> (r: String)
    ensures
        r@ == spec_delete_dhcp_req(opts_uuid@, cidr@, stamp@),
{
    let comment = msg5("Deleted by delete_dhcpv4_options with cidr=", cidr, " at ", stamp, "");
    let mut out = String::new();
    out.append(
        "{\"id\":12,\"method\":\"transact\",\"params\":[\"OVN_Northbound\",{\"op\":\"delete\",\"table\":\"DHCP_Options\",\"where\":[[\"_uuid\",\"==\",[\"uuid\",",
    );
    out.append(json_quote(opts_uuid).as_str());
    out.append("]]]},{\"comment\":");
    out.append(json_quote(comment.as_str()).as_str());
    out.append(",\"op\":\"comment\"}]}\n");
    proof {
        reveal_strlit("");
        assert(comment@ =~= "Deleted by delete_dhcpv4_options with cidr="@ + cidr@ + " at "@
            + stamp@);
        assert(out@ =~= spec_delete_dhcp_req(opts_uuid@, cidr@, stamp@));
    }
    out
}

/// Build the DHCP options delete request, stamped with the clock.
pub fn delete_dhcp_options_request(opts_uuid: &str, cidr: &str) -> (r: String)
    ensures
        exists|stamp: Seq<char>| r@ == spec_delete_dhcp_req(opts_uuid@, cidr@, stamp),
{
    let stamp = utc_now_string();
    let r = delete_dhcp_options_request_at(opts_uuid, cidr, stamp.as_str());
    proof {
        assert(r@ == spec_delete_dhcp_req(opts_uuid@, cidr@, stamp@));
    }
    r
}

/// The request that inserts a `DHCP_Options` row for `cidr` with a lease
/// time of 3600 seconds, the router and server id at `router_ip`, and the
/// given server MAC.
pub open spec fn spec_create_dhcp_req(
    cidr: Seq<char>,
    router_ip: Seq<char>,
    server_mac: Seq<char>,
    stamp: Seq<char>,
) -> Seq<char> {
    "{\"id\":6,\"method\":\"transact\",\"params\":[\"OVN_Northbound\",{\"op\":\"insert\",\"row\":{\"cidr\":"@
        + spec_json_str(cidr) + ",\"options\":[\"map\",[[\"lease_time\",\"3600\"],[\"router\","@
        + spec_json_str(router_ip) + "],[\"server_id\","@ + spec_json_str(router_ip)
        + "],[\"server_mac\","@ + spec_json_str(server_mac)
        + "]]]},\"table\":\"DHCP_Options\",\"uuid-name\":\"row1\"},{\"comment\":"@ + spec_json_str(
        "Created by create_dhcpv4_options with cidr="@ + cidr + " at "@ + stamp,
    ) + ",\"op\":\"comment\"}]}\n"@
}

/// Build the DHCP options insert request with the given audit timestamp.
pub fn create_dhcp_options_request_at(cidr: &str, router_ip: &str, server_mac: &str, stamp: &str) -> (r:
    String)
    ensures
        r@ == spec_create_dhcp_req(cidr@, router_ip@, server_mac@, stamp@),
{
    let comment = msg5("Created by create_dhcpv4_options with cidr=", cidr, " at ", stamp, "");
    let mut out = String::new();
    out.append(
        "{\"id\":6,\"method\":\"transact\",\"params\":[\"OVN_Northbound\",{\"op\":\"insert\",\"row\":{\"cidr\":",
    );
    out.append(json_quote(cidr).as_str());
    out.append(",\"options\":[\"map\",[[\"lease_time\",\"3600\"],[\"router\",");
    out.append(json_quote(router_ip).as_str());
    out.append("],[\"server_id\",");
    out.append(json_quote(router_ip).as_str());
    out.append("],[\"server_mac\",");
    out.append(json_quote(server_mac).as_str());
    out.append("]]]},\"table\":\"DHCP_Options\",\"uuid-name\":\"row1\"},{\"comment\":");
    out.append(json_quote(comment.as_str()).as_str());
    out.append(",\"op\":\"comment\"}]}\n");
    proof {
        reveal_strlit("");
        assert(comment@ =~= "Created by create_dhcpv4_options with cidr="@ + cidr@ + " at "@
            + stamp@);
        assert(out@ =~= spec_create_dhcp_req(cidr@, router_ip@, server_mac@, stamp@));
    }
    out
}

/// The request that binds the DHCP options row `opts_uuid` to the port
/// `port_uuid`.
pub open spec fn spec_add_dhcp_to_lsp_req(port_uuid: Seq<char>, opts_uuid: Seq<char>) -> Seq<
    char,
> {
    "{\"id\":7,\"method\":\"transact\",\"params\":[\"OVN_Northbound\",{\"op\":\"update\",\"row\":{\"dhcpv4_options\":[\"uuid\","@
        + spec_json_str(opts_uuid)
        + "]},\"table\":\"Logical_Switch_Port\",\"where\":[[\"_uuid\",\"==\",[\"uuid\","@
        + spec_json_str(port_uuid) + "]]]},{\"comment\":"@ + spec_json_str(
        "Added by add_dhcp_options_to_lsp with: port_uuid="@ + port_uuid + ",dhcp_options_uuid="@
            + opts_uuid,
    ) + ",\"op\":\"comment\"}]}\n"@
}

/// Build the DHCP binding request.
pub fn add_dhcp_to_lsp_request(port_uuid: &str, opts_uuid: &str) -> (r: String)
    ensures
        r@ == spec_add_dhcp_to_lsp_req(port_uuid@, opts_uuid@),
{
    let comment = msg5(
        "Added by add_dhcp_options_to_lsp with: port_uuid=",
        port_uuid,
        ",dhcp_options_uuid=",
        opts_uuid,
        "",
    );
    let mut out = String::new();
    out.append(
        "{\"id\":7,\"method\":\"transact\",\"params\":[\"OVN_Northbound\",{\"op\":\"update\",\"row\":{\"dhcpv4_options\":[\"uuid\",",
    );
    out.append(json_quote(opts_uuid).as_str());
    out.append("]},\"table\":\"Logical_Switch_Port\",\"where\":[[\"_uuid\",\"==\",[\"uuid\",");
    out.append(json_quote(port_uuid).as_str());
    out.append("]]]},{\"comment\":");
    out.append(json_quote(comment.as_str()).as_str());
    out.append(",\"op\":\"comment\"}]}\n");
    proof {
        reveal_strlit("");
        assert(comment@ =~= "Added by add_dhcp_options_to_lsp with: port_uuid="@ + port_uuid@
            + ",dhcp_options_uuid="@ + opts_uuid@);
        assert(out@ =~= spec_add_dhcp_to_lsp_req(port_uuid@, opts_uuid@));
    }
    out
}

/// The request that selects a `Logical_Switch_Port` row by name.
pub open spec fn spec_select_lsp_req(port_name: Seq<char>) -> Seq<char> {
    "{\"id\":9,\"method\":\"transact\",\"params\":[\"OVN_Northbound\",{\"op\":\"select\",\"table\":\"Logical_Switch_Port\",\"where\":[[\"name\",\"==\","@
        + spec_json_str(port_name) + "]]}]}\n"@
}

/// Build the port select request (used before removing a port).
pub fn select_lsp_request(port_name: &str) -> (r: String)
    ensures
        r@ == spec_select_lsp_req(port_name@),
{
    let mut out = String::new();
    out.append(
        "{\"id\":9,\"method\":\"transact\",\"params\":[\"OVN_Northbound\",{\"op\":\"select\",\"table\":\"Logical_Switch_Port\",\"where\":[[\"name\",\"==\",",
    );
    out.append(json_quote(port_name).as_str());
    out.append("]]}]}\n");
    proof {
        assert(out@ =~= spec_select_lsp_req(port_name@));
    }
    out
}

/// The request that detaches the port with UUID `lsp_uuid` from the switch
/// with UUID `ls_uuid` (which garbage-collects the port row).
pub open spec fn spec_remove_lsp_req(lsp_uuid: Seq<char>, ls_uuid: Seq<char>) -> Seq<char> {
    "{\"id\":10,\"method\":\"transact\",\"params\":[\"OVN_Northbound\",{\"mutations\":[[\"ports\",\"delete\",[\"set\",[[\"uuid\","@
        + spec_json_str(lsp_uuid)
        + "]]]]],\"op\":\"mutate\",\"table\":\"Logical_Switch\",\"where\":[[\"_uuid\",\"==\",[\"uuid\","@
        + spec_json_str(ls_uuid) + "]]]},{\"comment\":\"\",\"op\":\"comment\"}]}\n"@
}

/// Build the port detach request.
pub fn remove_lsp_request(lsp_uuid: &str, ls_uuid: &str) -> (r: String)
    ensures
        r@ == spec_remove_lsp_req(lsp_uuid@, ls_uuid@),
{
    let mut out = String::new();
    out.append(
        "{\"id\":10,\"method\":\"transact\",\"params\":[\"OVN_Northbound\",{\"mutations\":[[\"ports\",\"delete\",[\"set\",[[\"uuid\",",
    );
    out.append(json_quote(lsp_uuid).as_str());
    out.append(
        "]]]]],\"op\":\"mutate\",\"table\":\"Logical_Switch\",\"where\":[[\"_uuid\",\"==\",[\"uuid\",",
    );
    out.append(json_quote(ls_uuid).as_str());
    out.append("]]]},{\"comment\":\"\",\"op\":\"comment\"}]}\n");
    proof {
        assert(out@ =~= spec_remove_lsp_req(lsp_uuid@, ls_uuid@));
    }
    out
}

/// Extract the row UUID from a select response: the string at
/// `result[0].rows[0]._uuid[1]`.
pub fn extract_uuid_from_row(response: &str) -> (r: Result<String, String>)
    ensures
        r is Ok <==> json_pointer_str_of(response@, "/result/0/rows/0/_uuid/1"@) is Some,
        r matches Ok(u) ==> Some(u@) == json_pointer_str_of(response@, "/result/0/rows/0/_uuid/1"@),
        r matches Err(e) ==> e@ == "UUID could not be parsed"@,
{
    match json_pointer_str(response, "/result/0/rows/0/_uuid/1") {
        Some(u) => Ok(u),
        None => Err("UUID could not be parsed".to_owned()),
    }
}

/// Extract the new row UUID from an insert response: the string at
/// `result[0].uuid[1]`.
pub fn extract_uuid_from_response(response: &str) -> (r: Result<String, String>)
    ensures
        r is Ok <==> json_pointer_str_of(response@, "/result/0/uuid/1"@) is Some,
        r matches Ok(u) ==> Some(u@) == json_pointer_str_of(response@, "/result/0/uuid/1"@),
        r matches Err(e) ==> e@ == "UUID could not be parsed"@,
{
    match json_pointer_str(response, "/result/0/uuid/1") {
        Some(u) => Ok(u),
        None => Err("UUID could not be parsed".to_owned()),
    }
}

/// Where the third dot of `s` stands, scanning from index `i` with `cnt`
/// dots already seen.
pub open spec fn spec_third_dot_from(s: Seq<char>, i: int, cnt: int) -> Option<int>
    decreases s.len() - i,
{
    if i < 0 || i >= s.len() {
        None
    } else if s[i] == '.' {
        if cnt >= 2 {
            Some(i)
        } else {
            spec_third_dot_from(s, i + 1, cnt + 1)
        }
    } else {
        spec_third_dot_from(s, i + 1, cnt)
    }
}

/// The router address of a subnet: the first three dotted groups of the CIDR
/// with `.254` as the final octet (the whole CIDR text when it has fewer
/// than three dots, mirroring a split-take-join).
pub open spec fn spec_router_ip(cidr: Seq<char>) -> Seq<char> {
    match spec_third_dot_from(cidr, 0, 0) {
        Some(i) => cidr.subrange(0, i) + ".254"@,
        None => cidr + ".254"@,
    }
}

/// Compute the router address for a CIDR.
pub fn router_ip_for_cidr(cidr: &str) -> (r: String)
    ensures
        r@ == spec_router_ip(cidr@),
{
    let n = cidr.unicode_len();
    let mut i: usize = 0;
    let mut cnt: u32 = 0;
    while i < n
        invariant
            n == cidr@.len(),
            0 <= i <= n,
            0 <= cnt <= 2,
            spec_third_dot_from(cidr@, 0, 0) == spec_third_dot_from(cidr@, i as int, cnt as int),
        decreases n - i,
    {
        if cidr.get_char(i) == '.' {
            if cnt >= 2 {
                let prefix = cidr.substring_char(0, i);
                let r = msg2(prefix, ".254");
                proof {
                    assert(r@ =~= spec_router_ip(cidr@));
                }
                return r;
            }
            cnt = cnt + 1;
        }
        i = i + 1;
    }
    let r = msg2(cidr, ".254");
    proof {
        assert(r@ =~= spec_router_ip(cidr@));
    }
    r
}

/// Two lowercase hexadecimal digits for one byte.
pub open spec fn spec_hex_pair(b: u8) -> Seq<char> {
    seq![spec_hex_digit((b / 16) as nat), spec_hex_digit((b % 16) as nat)]
}

/// A six-byte MAC address in its colon-separated lowercase text form.
pub open spec fn spec_mac_text(mac: Seq<u8>) -> Seq<char> {
    spec_hex_pair(mac[0]) + seq![':'] + spec_hex_pair(mac[1]) + seq![':'] + spec_hex_pair(mac[2])
        + seq![':'] + spec_hex_pair(mac[3]) + seq![':'] + spec_hex_pair(mac[4]) + seq![':']
        + spec_hex_pair(mac[5])
}

/// Append one byte as two lowercase hexadecimal digits.
fn push_hex_pair(out: &mut String, b: u8)
    ensures
        final(out)@ == old(out)@ + spec_hex_pair(b),
{
    out.append(hex_digit_str(b as u32 / 16));
    out.append(hex_digit_str(b as u32 % 16));
    proof {
        assert(out@ =~= old(out)@ + spec_hex_pair(b));
    }
}

/// Format a six-byte MAC address lowercase and colon-separated.
pub fn format_mac_address(mac: &[u8; 6]) -> (r: String)
    ensures
        r@ == spec_mac_text(mac@),
{
    let mut out = String::new();
    push_hex_pair(&mut out, mac[0]);
    out.append(":");
    push_hex_pair(&mut out, mac[1]);
    out.append(":");
    push_hex_pair(&mut out, mac[2]);
    out.append(":");
    push_hex_pair(&mut out, mac[3]);
    out.append(":");
    push_hex_pair(&mut out, mac[4]);
    out.append(":");
    push_hex_pair(&mut out, mac[5]);
    proof {
        reveal_strlit(":");
        assert(out@ =~= spec_mac_text(mac@));
    }
    out
}

/// Generate a locally-administered MAC address: the fixed KVM prefix
/// `52:54:00` with three random bytes behind it.
pub fn generate_mac_address() -> (r: [u8; 6])
    ensures
        r@[0] == 0x52,
        r@[1] == 0x54,
        r@[2] == 0x00,
{
    let b3 = crate::foreign::random_byte();
    let b4 = crate::foreign::random_byte();
    let b5 = crate::foreign::random_byte();
    let mac: [u8; 6] = [0x52, 0x54, 0x00, b3, b4, b5];
    mac
}

/// The shape the MAC text regex `52:54:00(:[0-9a-f]{2}){3}` demands: the
/// fixed prefix, then three colon-separated pairs of lowercase hex digits.
pub open spec fn spec_is_mac_text(s: Seq<char>) -> bool {
    &&& s.len() == 17
    &&& s.subrange(0, 9) == "52:54:00:"@
    &&& spec_is_hex_char(s[9]) && spec_is_hex_char(s[10])
    &&& s[11] == ':'
    &&& spec_is_hex_char(s[12]) && spec_is_hex_char(s[13])
    &&& s[14] == ':'
    &&& spec_is_hex_char(s[15]) && spec_is_hex_char(s[16])
}

/// A lowercase hexadecimal digit character.
pub open spec fn spec_is_hex_char(c: char) -> bool {
    ('0' <= c && c <= '9') || ('a' <= c && c <= 'f')
}

/// Every hexadecimal digit of the table is a hex character.
pub proof fn lemma_hex_digit_is_hex(d: nat)
    requires
        d < 16,
    ensures
        spec_is_hex_char(spec_hex_digit(d)),
{
    reveal_strlit("0123456789abcdef");
}

/// The text of a MAC with the KVM prefix matches the MAC regex shape.
pub proof fn lemma_mac_text_shape(mac: Seq<u8>)
    requires
        mac.len() == 6,
        mac[0] == 0x52,
        mac[1] == 0x54,
        mac[2] == 0x00,
    ensures
        spec_is_mac_text(spec_mac_text(mac)),
{
    reveal_strlit("0123456789abcdef");
    reveal_strlit("52:54:00:");
    let s = spec_mac_text(mac);
    assert(s.subrange(0, 9) =~= "52:54:00:"@);
    lemma_hex_digit_is_hex((mac[3] / 16) as nat);
    lemma_hex_digit_is_hex((mac[3] % 16) as nat);
    lemma_hex_digit_is_hex((mac[4] / 16) as nat);
    lemma_hex_digit_is_hex((mac[4] % 16) as nat);
    lemma_hex_digit_is_hex((mac[5] / 16) as nat);
    lemma_hex_digit_is_hex((mac[5] % 16) as nat);
}

} // verus!

use controlplane::jsontext::json_quote;
use controlplane::ovsdb::{
    add_dhcp_to_lsp_request, create_l2_switch_request, delete_dhcp_options_request, add_lsp_request, add_mac_request, create_dhcp_options_request_at,
    create_l2_switch_request_at, delete_dhcp_options_request_at, delete_l2_switch_request_at,
    extract_uuid_from_response, extract_uuid_from_row, remove_lsp_request, router_ip_for_cidr,
    select_dhcp_options_request, select_lsp_request, select_switch_request,
};
use controlplane::text::{i32_to_string, is_blank, u64_to_string};

#[test]
fn create_l2_switch_request_text() {
    let req = create_l2_switch_request_at("0-prod", "10.0.0.0/24", "now");
    assert_eq!(
        req,
        "{\"id\":1,\"method\":\"transact\",\"params\":[\"OVN_Northbound\",\
         {\"op\":\"insert\",\"row\":{\"name\":\"0-prod\",\"other_config\":\
         [\"map\",[[\"subnet\",\"10.0.0.0/24\"]]]},\"table\":\"Logical_Switch\"},\
         {\"comment\":\"Added by create_l2_switch 0-prod at now\",\"op\":\"comment\"}]}\n"
    );
}

#[test]
fn delete_l2_switch_request_text() {
    let req = delete_l2_switch_request_at("0-prod", "now");
    assert_eq!(
        req,
        "{\"id\":1,\"method\":\"transact\",\"params\":[\"OVN_Northbound\",\
         {\"op\":\"delete\",\"table\":\"Logical_Switch\",\"where\":[[\"name\",\"==\",\"0-prod\"]]},\
         {\"comment\":\"Deleted by delete_l2_switch 0-prod at now\",\"op\":\"comment\"}]}\n"
    );
}

#[test]
fn select_requests_text() {
    assert_eq!(
        select_switch_request("0-prod"),
        "{\"id\":3,\"method\":\"transact\",\"params\":[\"OVN_Northbound\",\
         {\"op\":\"select\",\"table\":\"Logical_Switch\",\"where\":[[\"name\",\"==\",\"0-prod\"]]}]}\n"
    );
    assert_eq!(
        select_lsp_request("acme-web"),
        "{\"id\":9,\"method\":\"transact\",\"params\":[\"OVN_Northbound\",\
         {\"op\":\"select\",\"table\":\"Logical_Switch_Port\",\"where\":[[\"name\",\"==\",\"acme-web\"]]}]}\n"
    );
    assert_eq!(
        select_dhcp_options_request("10.0.0.0/24"),
        "{\"id\":20,\"method\":\"transact\",\"params\":[\"OVN_Northbound\",\
         {\"op\":\"select\",\"table\":\"DHCP_Options\",\"where\":[[\"cidr\",\"==\",\"10.0.0.0/24\"]]}]}\n"
    );
}

#[test]
fn add_lsp_request_text() {
    let req = add_lsp_request("acme-web", "u-1");
    assert_eq!(
        req,
        "{\"id\":4,\"method\":\"transact\",\"params\":[\"OVN_Northbound\",\
         {\"op\":\"insert\",\"row\":{\"name\":\"acme-web\"},\"table\":\"Logical_Switch_Port\",\
         \"uuid-name\":\"row1\"},{\"mutations\":[[\"ports\",\"insert\",[\"set\",\
         [[\"named-uuid\",\"row1\"]]]]],\"op\":\"mutate\",\"table\":\"Logical_Switch\",\
         \"where\":[[\"_uuid\",\"==\",[\"uuid\",\"u-1\"]]]},\
         {\"comment\":\"Added by add_lsp_to_ls for acme-web\",\"op\":\"comment\"}]}\n"
    );
}

#[test]
fn add_mac_request_binds_dynamic_address() {
    let req = add_mac_request("p-1", "52:54:00:aa:bb:cc");
    assert!(req.contains("\"addresses\":\"52:54:00:aa:bb:cc dynamic\""));
    assert!(req.starts_with("{\"id\":5,\"method\":\"transact\""));
    assert!(req.ends_with("]}\n"));
}

#[test]
fn dhcp_requests_text() {
    let create = create_dhcp_options_request_at("10.0.0.0/24", "10.0.0.254", "52:54:00:01:02:03", "now");
    assert_eq!(
        create,
        "{\"id\":6,\"method\":\"transact\",\"params\":[\"OVN_Northbound\",\
         {\"op\":\"insert\",\"row\":{\"cidr\":\"10.0.0.0/24\",\"options\":[\"map\",\
         [[\"lease_time\",\"3600\"],[\"router\",\"10.0.0.254\"],[\"server_id\",\"10.0.0.254\"],\
         [\"server_mac\",\"52:54:00:01:02:03\"]]]},\"table\":\"DHCP_Options\",\"uuid-name\":\"row1\"},\
         {\"comment\":\"Created by create_dhcpv4_options with cidr=10.0.0.0/24 at now\",\
         \"op\":\"comment\"}]}\n"
    );
    let delete = delete_dhcp_options_request_at("d-1", "10.0.0.0/24", "now");
    assert!(delete.contains("\"op\":\"delete\""));
    assert!(delete.contains("[\"uuid\",\"d-1\"]"));
    let bind = add_dhcp_to_lsp_request("p-1", "d-1");
    assert!(bind.contains("\"dhcpv4_options\":[\"uuid\",\"d-1\"]"));
    assert!(bind.contains("[\"uuid\",\"p-1\"]"));
}

#[test]
fn remove_lsp_request_text() {
    let req = remove_lsp_request("lsp-1", "ls-1");
    assert_eq!(
        req,
        "{\"id\":10,\"method\":\"transact\",\"params\":[\"OVN_Northbound\",\
         {\"mutations\":[[\"ports\",\"delete\",[\"set\",[[\"uuid\",\"lsp-1\"]]]]],\
         \"op\":\"mutate\",\"table\":\"Logical_Switch\",\"where\":[[\"_uuid\",\"==\",\
         [\"uuid\",\"ls-1\"]]]},{\"comment\":\"\",\"op\":\"comment\"}]}\n"
    );
}

#[test]
fn json_quoting_escapes_specials() {
    assert_eq!(json_quote("plain"), "\"plain\"");
    assert_eq!(json_quote("a\"b\\c"), "\"a\\\"b\\\\c\"");
    assert_eq!(json_quote("a\nb\tc"), "\"a\\nb\\tc\"");
    assert_eq!(json_quote("\u{1}"), "\"\\u0001\"");
    assert_eq!(json_quote("\u{1f}"), "\"\\u001f\"");
}

#[test]
fn router_ip_takes_first_three_groups() {
    assert_eq!(router_ip_for_cidr("10.0.0.0/24"), "10.0.0.254");
    assert_eq!(router_ip_for_cidr("192.168.10.0/24"), "192.168.10.254");
    assert_eq!(router_ip_for_cidr("10.0/24"), "10.0/24.254");
}

#[test]
fn extract_uuid_from_insert_response() {
    let doc = "{\"error\":null,\"id\":1,\"result\":[{\"uuid\":[\"uuid\",\
               \"b19bc163-1325-4036-9dfc-f8155518e41e\"]},{}]}";
    assert_eq!(
        extract_uuid_from_response(doc).unwrap(),
        "b19bc163-1325-4036-9dfc-f8155518e41e"
    );
    assert_eq!(
        extract_uuid_from_response("{\"result\":[]}").err().unwrap(),
        "UUID could not be parsed"
    );
    assert_eq!(extract_uuid_from_response("not json").err().unwrap(), "UUID could not be parsed");
}

#[test]
fn extract_uuid_from_select_response() {
    let doc = "{\"error\":null,\"id\":3,\"result\":[{\"rows\":[{\"_uuid\":[\"uuid\",\
               \"640ac16a-9d76-424d-a35f-e8cc39d0d41a\"],\"name\":\"averi\"}]}]}";
    assert_eq!(
        extract_uuid_from_row(doc).unwrap(),
        "640ac16a-9d76-424d-a35f-e8cc39d0d41a"
    );
    assert_eq!(
        extract_uuid_from_row("{\"result\":[{\"rows\":[]}]}").err().unwrap(),
        "UUID could not be parsed"
    );
}

#[test]
fn decimal_formatting() {
    assert_eq!(u64_to_string(0), "0");
    assert_eq!(u64_to_string(4096), "4096");
    assert_eq!(u64_to_string(18446744073709551615), "18446744073709551615");
    assert_eq!(i32_to_string(-17), "-17");
    assert_eq!(i32_to_string(i32::MIN), "-2147483648");
}

#[test]
fn blankness_follows_trim() {
    assert!(is_blank(""));
    assert!(is_blank(" \t\n"));
    assert!(!is_blank(" a "));
    assert_eq!(is_blank("\u{3000}"), "\u{3000}".trim().is_empty());
}

#[test]
fn clock_stamped_requests_carry_a_timestamp() {
    let req = create_l2_switch_request("0-prod", "10.0.0.0/24");
    assert!(req.starts_with(
        "{\"id\":1,\"method\":\"transact\",\"params\":[\"OVN_Northbound\",\
         {\"op\":\"insert\",\"row\":{\"name\":\"0-prod\""
    ));
    assert!(req.contains("\"comment\":\"Added by create_l2_switch 0-prod at "));
    assert!(req.ends_with(",\"op\":\"comment\"}]}\n"));
    let del = delete_dhcp_options_request("d-1", "10.0.0.0/24");
    assert!(del.contains("Deleted by delete_dhcpv4_options with cidr=10.0.0.0/24 at "));
}

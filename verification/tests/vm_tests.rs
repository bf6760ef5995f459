use controlplane::db::Database;
use controlplane::ovsdb::{format_mac_address, generate_mac_address};
use controlplane::rows::{ProviderNetwork, Tenant, VirtualMachineCreate, VirtualMachineDelete};
use controlplane::sshkey_api::create_ssh_pub_key;
use controlplane::tenant_api::create_tenant_handler;
use controlplane::vm_api::{
    compute_url, vm_create_commit, vm_create_prepare, vm_create_rpc_body, vm_delete_commit,
    vm_delete_prepare, vm_delete_rpc_body, vm_wiring_plan,
};
use controlplane::vpc_api::create_vpc_commit;

const ED25519_KEY: &str =
    "ssh-ed25519 AAAAC3NzaC1lZDI1NTE5AAAAILM+rvN+ot98qgEN796jTiQfZfG1KaT0PtFDJ/XFSqti user@example.com";

fn setup() -> Database {
    let mut db = Database::new();
    create_tenant_handler(&mut db, &Tenant { name: Some("acme".to_string()), id: None });
    create_vpc_commit(
        &mut db,
        &controlplane::rows::Vpc {
            id: None,
            name: Some("prod".to_string()),
            cidr: Some("10.0.0.0/24".to_string()),
            nat: Some(true),
            tenant: Some(0),
        },
    );
    create_ssh_pub_key(
        &mut db,
        &controlplane::rows::SSHKey {
            name: Some("k1".to_string()),
            ssh_pub_key: Some(ED25519_KEY.to_string()),
            fingerprint: None,
            tenant: Some(0),
        },
    );
    db.hypervisor_register("h1", 64, 16, 2, 2, "x86_64", 1);
    db
}

fn create_req(name: &str, ram: i32) -> VirtualMachineCreate {
    VirtualMachineCreate {
        name: name.to_string(),
        ram,
        cpu: 2,
        os: "fedora41".to_string(),
        disk_size: 20,
        vpc: "prod".to_string(),
        ssh_pub_key: "k1".to_string(),
        tenant: "acme".to_string(),
        arch: "x86_64".to_string(),
        networking: "l2-tenant".to_string(),
        network: None,
    }
}

#[test]
fn happy_path_vm_create_on_l2_tenant() {
    let mut db = setup();
    let payload = create_req("web", 4);
    let placement = vm_create_prepare(&db, &payload).unwrap();
    assert_eq!(placement.tenant_uuid, 0);
    assert_eq!(placement.hypervisor_hostname, "h1");
    assert!(placement.provider_network_vlan.is_none());

    let wiring = vm_wiring_plan(&db, &payload, placement.tenant_uuid).unwrap();
    assert_eq!(wiring.port_name, "acme-web");
    assert_eq!(wiring.switch_name, "0-prod");
    assert_eq!(wiring.cidr, "10.0.0.0/24");

    let r = vm_create_commit(&mut db, &payload, &placement);
    assert_eq!(r.code, 200);
    assert_eq!(r.body, "VM 'web' created successfully.");
    let vm = db.vms.last().unwrap();
    assert_eq!(vm.name, "web");
    assert_eq!(vm.state, "created");
    assert_eq!(vm.tenant, 0);
    assert_eq!(vm.hypervisor, placement.hypervisor_uuid);
    let port = db.ports.last().unwrap();
    assert_eq!(port.name, "acme-web");
    assert_eq!(port.hypervisor, "h1");
}

#[test]
fn placement_failure_returns_400() {
    let db = setup();
    let e = vm_create_prepare(&db, &create_req("web", 100)).err().unwrap();
    assert_eq!(e.code, 400);
    assert_eq!(e.body, "No hypervisor available with enough resources to schedule VM.");
}

#[test]
fn bridged_mode_requires_network() {
    let db = setup();
    let mut payload = create_req("web", 4);
    payload.networking = "l2-bridged".to_string();
    let e = vm_create_prepare(&db, &payload).err().unwrap();
    assert_eq!(e.code, 400);
    assert_eq!(e.body, "Network must be specified for 'l2-bridged' networking.");
}

#[test]
fn invalid_networking_mode_rejected() {
    let db = setup();
    let mut payload = create_req("web", 4);
    payload.networking = "l3".to_string();
    let e = vm_create_prepare(&db, &payload).err().unwrap();
    assert_eq!(e.code, 400);
    assert_eq!(e.body, "Invalid networking type, valid modes are: l2-tenant, l2-bridged");
}

#[test]
fn network_only_valid_in_bridged_mode() {
    let db = setup();
    let mut payload = create_req("web", 4);
    payload.network = Some("ext".to_string());
    let e = vm_create_prepare(&db, &payload).err().unwrap();
    assert_eq!(e.code, 400);
    assert_eq!(e.body, "Network can only be specified for the l2-bridged networking mode");
}

#[test]
fn bridged_mode_records_vlan() {
    let mut db = setup();
    db.create_provider_network("ext", 100, "192.168.10.0/24");
    let mut payload = create_req("web", 4);
    payload.networking = "l2-bridged".to_string();
    payload.network = Some("ext".to_string());
    let placement = vm_create_prepare(&db, &payload).unwrap();
    assert_eq!(placement.provider_network_name.as_deref(), Some("ext"));
    assert_eq!(placement.provider_network_vlan, Some(100));
    let body = vm_create_rpc_body(&payload, "52:54:00:aa:bb:cc", placement.provider_network_vlan);
    assert!(body.contains("\"network\":\"100\""));
}

#[test]
fn missing_bridged_network_rejected() {
    let db = setup();
    let mut payload = create_req("web", 4);
    payload.networking = "l2-bridged".to_string();
    payload.network = Some("nope".to_string());
    let e = vm_create_prepare(&db, &payload).err().unwrap();
    assert_eq!(e.code, 400);
    assert_eq!(e.body, "Network 'nope' does not exist.");
}

#[test]
fn duplicate_vm_rejected() {
    let mut db = setup();
    let payload = create_req("web", 4);
    let placement = vm_create_prepare(&db, &payload).unwrap();
    vm_create_commit(&mut db, &payload, &placement);
    let e = vm_create_prepare(&db, &payload).err().unwrap();
    assert_eq!(e.code, 400);
    assert_eq!(e.body, "VM 'web' already exists.");
}

#[test]
fn placement_prefers_least_loaded_architecture_match() {
    let mut db = setup();
    db.hypervisor_register("h2", 64, 16, 2, 2, "x86_64", 0);
    db.hypervisor_register("a1", 64, 16, 2, 2, "aarch64", 0);
    let placement = vm_create_prepare(&db, &create_req("web", 4)).unwrap();
    assert_eq!(placement.hypervisor_hostname, "h2");
}

#[test]
fn placement_takes_first_fitting_candidate_in_order() {
    let mut db = setup();
    db.hypervisor_register("h2", 8, 4, 2, 2, "x86_64", 0);
    db.hypervisor_register("h3", 64, 16, 2, 2, "x86_64", 0);
    db.hypervisor_register("h4", 64, 16, 2, 2, "x86_64", 0);
    let placement = vm_create_prepare(&db, &create_req("web", 32)).unwrap();
    assert_eq!(placement.hypervisor_hostname, "h3");
}

#[test]
fn created_vm_row_records_networking_mode() {
    let mut db = setup();
    db.create_provider_network("ext", 100, "192.168.10.0/24");
    let mut payload = create_req("web", 4);
    payload.networking = "l2-bridged".to_string();
    payload.network = Some("ext".to_string());
    let placement = vm_create_prepare(&db, &payload).unwrap();
    let r = vm_create_commit(&mut db, &payload, &placement);
    assert_eq!(r.code, 200);
    let vm = db.vms.last().unwrap();
    assert_eq!(vm.networking, "l2-bridged");
    assert_eq!(vm.network.as_deref(), Some("ext"));
    assert_eq!(db.ports.len(), 0);
}

#[test]
fn vm_create_rpc_body_is_exact() {
    let payload = create_req("web", 4);
    let body = vm_create_rpc_body(&payload, "52:54:00:aa:bb:cc", None);
    assert_eq!(
        body,
        "{\"cpu\":2,\"disk\":20,\"mac_addr\":\"52:54:00:aa:bb:cc\",\"memory\":4096,\
         \"name\":\"web\",\"networking\":\"l2-tenant\",\"os\":\"fedora41\",\
         \"ssh_pub_key\":\"k1\",\"tenant\":\"acme\"}"
    );
    assert_eq!(
        compute_url("h1", "/virtualmachine/create"),
        "http://h1:3000/virtualmachine/create"
    );
}

#[test]
fn vm_delete_flow_removes_row_and_port() {
    let mut db = setup();
    let payload = create_req("web", 4);
    let placement = vm_create_prepare(&db, &payload).unwrap();
    vm_create_commit(&mut db, &payload, &placement);

    let del = VirtualMachineDelete { name: "web".to_string(), tenant: "acme".to_string() };
    let teardown = vm_delete_prepare(&db, &del).unwrap();
    assert_eq!(teardown.port_name, "acme-web");
    assert_eq!(teardown.switch_name, "0-prod");
    assert_eq!(teardown.hypervisor_hostname, "h1");
    assert_eq!(
        vm_delete_rpc_body("web", "acme"),
        "{\"name\":\"web\",\"tenant\":\"acme\"}"
    );
    let r = vm_delete_commit(&mut db, &del);
    assert_eq!(r.code, 200);
    assert_eq!(r.body, "VM 'web' deleted successfully.");
    assert_eq!(db.vms.len(), 0);
    assert_eq!(db.ports.len(), 0);
}

#[test]
fn delete_missing_vm_is_not_found() {
    let mut db = setup();
    let del = VirtualMachineDelete { name: "ghost".to_string(), tenant: "acme".to_string() };
    let e = vm_delete_prepare(&db, &del).err().unwrap();
    assert_eq!(e.code, 404);
    assert_eq!(e.body, "VM 'ghost' not found.");
    let c = vm_delete_commit(&mut db, &del);
    assert_eq!(c.code, 404);
}

#[test]
fn generated_mac_matches_expected_shape() {
    let mac = generate_mac_address();
    let text = format_mac_address(&mac);
    let bytes: Vec<char> = text.chars().collect();
    assert_eq!(bytes.len(), 17);
    assert_eq!(&text[0..9], "52:54:00:");
    for (i, c) in bytes.iter().enumerate() {
        if i == 2 || i == 5 || i == 8 || i == 11 || i == 14 {
            assert_eq!(*c, ':');
        } else {
            assert!(c.is_ascii_hexdigit() && !c.is_ascii_uppercase());
        }
    }
}

#[test]
fn mac_formatting_is_lowercase_hex() {
    let text = format_mac_address(&[0x52, 0x54, 0x00, 0xAB, 0x0F, 0xC9]);
    assert_eq!(text, "52:54:00:ab:0f:c9");
}

use controlplane::db::Database;
use controlplane::provider_api::{create_provider_network_handler, delete_provider_network_handler};
use controlplane::rows::{ProviderNetwork, ProviderNetworkDelete};

fn net(name: &str, vlan: i32) -> ProviderNetwork {
    ProviderNetwork { name: name.to_string(), vlan, subnet: "192.168.10.0/24".to_string() }
}

#[test]
fn vlan_zero_is_rejected() {
    let mut db = Database::new();
    let r = create_provider_network_handler(&mut db, &net("ext", 0));
    assert_eq!(r.code, 400);
    assert_eq!(
        r.body,
        "Provider network must include a non-empty name and a valid VLAN (1-4094)."
    );
    assert_eq!(db.provider_networks.len(), 0);
}

#[test]
fn vlan_4095_is_rejected() {
    let mut db = Database::new();
    let r = create_provider_network_handler(&mut db, &net("ext", 4095));
    assert_eq!(r.code, 400);
    assert_eq!(db.provider_networks.len(), 0);
}

#[test]
fn vlan_one_is_accepted() {
    let mut db = Database::new();
    let r = create_provider_network_handler(&mut db, &net("ext", 1));
    assert_eq!(r.code, 200);
    assert_eq!(r.body, "Provider network 'ext' created successfully.");
    assert_eq!(db.provider_networks[0].vlan, 1);
}

#[test]
fn vlan_4094_is_accepted() {
    let mut db = Database::new();
    let r = create_provider_network_handler(&mut db, &net("ext", 4094));
    assert_eq!(r.code, 200);
    assert_eq!(db.provider_networks[0].vlan, 4094);
}

#[test]
fn blank_name_is_rejected() {
    let mut db = Database::new();
    let r = create_provider_network_handler(&mut db, &net("   ", 100));
    assert_eq!(r.code, 400);
}

#[test]
fn duplicate_name_fails() {
    let mut db = Database::new();
    create_provider_network_handler(&mut db, &net("ext", 100));
    let r = create_provider_network_handler(&mut db, &net("ext", 200));
    assert_eq!(r.code, 500);
    assert_eq!(db.provider_networks.len(), 1);
}

#[test]
fn delete_provider_network_by_name() {
    let mut db = Database::new();
    create_provider_network_handler(&mut db, &net("ext", 100));
    let r = delete_provider_network_handler(
        &mut db,
        &ProviderNetworkDelete { name: "ext".to_string() },
    );
    assert_eq!(r.code, 200);
    assert_eq!(r.body, "Provider network 'ext' deleted successfully.");
    assert_eq!(db.provider_networks.len(), 0);
}

#[test]
fn delete_with_blank_name_is_rejected() {
    let mut db = Database::new();
    let r = delete_provider_network_handler(
        &mut db,
        &ProviderNetworkDelete { name: " ".to_string() },
    );
    assert_eq!(r.code, 400);
    assert_eq!(r.body, "Provider network delete request must include a non-empty name.");
}

#[test]
fn list_provider_networks_returns_rows() {
    let mut db = Database::new();
    create_provider_network_handler(&mut db, &net("a", 10));
    create_provider_network_handler(&mut db, &net("b", 20));
    let all = db.list_provider_networks();
    assert_eq!(all.len(), 2);
    assert_eq!(all[0].name, "a");
    assert_eq!(all[1].vlan, 20);
}

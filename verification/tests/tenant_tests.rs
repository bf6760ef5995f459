use controlplane::db::Database;
use controlplane::rows::Tenant;
use controlplane::tenant_api::{create_tenant_handler, delete_tenant_handler};

fn named(name: &str) -> Tenant {
    Tenant { name: Some(name.to_string()), id: None }
}

#[test]
fn create_and_lookup_tenant() {
    let mut db = Database::new();
    let r = create_tenant_handler(&mut db, &named("acme"));
    assert_eq!(r.code, 200);
    assert_eq!(r.body, "Tenant 'acme' created successfully.");
    assert_eq!(db.get_tenant_by_name("acme"), Some(0));
    assert_eq!(db.get_tenant_by_id(0).as_deref(), Some("acme"));
}

#[test]
fn create_duplicate_tenant_rejected() {
    let mut db = Database::new();
    create_tenant_handler(&mut db, &named("acme"));
    let r = create_tenant_handler(&mut db, &named("acme"));
    assert_eq!(r.code, 400);
    assert_eq!(r.body, "Tenant 'acme' already exists.");
    assert_eq!(db.tenants.len(), 1);
}

#[test]
fn create_tenant_without_name_rejected() {
    let mut db = Database::new();
    let r = create_tenant_handler(&mut db, &Tenant { name: None, id: Some(3) });
    assert_eq!(r.code, 400);
    assert_eq!(r.body, "Tenant create request must include a name.");
    assert_eq!(db.tenants.len(), 0);
}

#[test]
fn tenant_round_trip_create_get_delete_get() {
    let mut db = Database::new();
    create_tenant_handler(&mut db, &named("acme"));
    assert_eq!(db.get_tenant_by_name("acme"), Some(0));
    let r = delete_tenant_handler(&mut db, &named("acme"));
    assert_eq!(r.code, 200);
    assert_eq!(r.body, "Tenant 'acme' deleted successfully.");
    assert_eq!(db.get_tenant_by_name("acme"), None);
    let again = create_tenant_handler(&mut db, &named("acme"));
    assert_eq!(again.code, 200);
    assert_eq!(db.get_tenant_by_name("acme"), Some(1));
}

#[test]
fn delete_missing_tenant_by_id_is_404() {
    let mut db = Database::new();
    let r = delete_tenant_handler(&mut db, &Tenant { name: None, id: Some(7) });
    assert_eq!(r.code, 404);
    assert_eq!(r.body, "Tenant with UUID '7' not found.");
}

#[test]
fn delete_missing_tenant_by_name_is_404() {
    let mut db = Database::new();
    let r = delete_tenant_handler(&mut db, &named("ghost"));
    assert_eq!(r.code, 404);
    assert_eq!(r.body, "Tenant with name 'ghost' not found.");
}

#[test]
fn delete_request_without_id_or_name_is_400() {
    let mut db = Database::new();
    let r = delete_tenant_handler(&mut db, &Tenant { name: None, id: None });
    assert_eq!(r.code, 400);
    assert_eq!(r.body, "Tenant delete request must include either 'id' (UUID) or 'name'.");
}

#[test]
fn delete_tenant_blocked_by_vm() {
    let mut db = Database::new();
    create_tenant_handler(&mut db, &named("acme"));
    db.create_virtual_machine("web", 2, 4, 0, 99, 98, 20, 97, "fedora41", "created", "l2-tenant", &None);
    let r = delete_tenant_handler(&mut db, &named("acme"));
    assert_eq!(r.code, 400);
    assert_eq!(
        r.body,
        "Tenant 'acme' has associated VMs. Please delete associated VMs first."
    );
    assert_eq!(db.get_tenant_by_name("acme"), Some(0));
    assert_eq!(db.vms.len(), 1);
}

#[test]
fn delete_tenant_blocked_by_ssh_key() {
    let mut db = Database::new();
    create_tenant_handler(&mut db, &named("acme"));
    db.create_ssh_pub_key("k1", "ssh-ed25519 AAAA", "SHA256:x", 0);
    let r = delete_tenant_handler(&mut db, &named("acme"));
    assert_eq!(r.code, 400);
    assert_eq!(
        r.body,
        "Tenant 'acme' has associated SSH keys (1 found). Please delete associated SSH keys first."
    );
    assert_eq!(db.get_tenant_by_name("acme"), Some(0));
    assert_eq!(db.ssh_keys.len(), 1);
}

#[test]
fn list_tenants_returns_rows() {
    let mut db = Database::new();
    create_tenant_handler(&mut db, &named("a"));
    create_tenant_handler(&mut db, &named("b"));
    let all = db.list_tenants();
    assert_eq!(all.len(), 2);
    assert_eq!(all[0].name.as_deref(), Some("a"));
    assert_eq!(all[0].id, Some(0));
    assert_eq!(all[1].name.as_deref(), Some("b"));
    assert_eq!(all[1].id, Some(1));
}

use controlplane::db::Database;
use controlplane::rows::{SSHKey, Tenant};
use controlplane::sshkey_api::{create_ssh_pub_key, delete_ssh_pub_key, list_ssh_pub_keys};
use controlplane::tenant_api::create_tenant_handler;

const ED25519_KEY: &str =
    "ssh-ed25519 AAAAC3NzaC1lZDI1NTE5AAAAILM+rvN+ot98qgEN796jTiQfZfG1KaT0PtFDJ/XFSqti user@example.com";

fn key_payload(name: &str, key: &str, tenant: u64) -> SSHKey {
    SSHKey {
        name: Some(name.to_string()),
        ssh_pub_key: Some(key.to_string()),
        fingerprint: None,
        tenant: Some(tenant),
    }
}

fn with_tenant() -> Database {
    let mut db = Database::new();
    create_tenant_handler(&mut db, &Tenant { name: Some("acme".to_string()), id: None });
    db
}

#[test]
fn create_ssh_key_derives_fingerprint() {
    let mut db = with_tenant();
    let r = create_ssh_pub_key(&mut db, &key_payload("k1", ED25519_KEY, 0));
    assert_eq!(r.code, 200);
    assert_eq!(r.body, "SSH public key 'k1' created successfully.");
    assert_eq!(db.ssh_keys.len(), 1);
    let row = &db.ssh_keys[0];
    assert_eq!(row.name, "k1");
    assert_eq!(row.ssh_pub_key, ED25519_KEY);
    assert!(row.fingerprint.starts_with("SHA256:"));
    assert_ne!(row.fingerprint, ED25519_KEY);
    assert_eq!(db.get_ssh_key("k1"), Some(row.id));
}

#[test]
fn create_ssh_key_rejects_invalid_key() {
    let mut db = with_tenant();
    let r = create_ssh_pub_key(&mut db, &key_payload("k1", "not a key", 0));
    assert_eq!(r.code, 400);
    assert!(r.body.starts_with("Invalid SSH public key: "));
    assert_eq!(db.ssh_keys.len(), 0);
}

#[test]
fn create_ssh_key_requires_all_fields() {
    let mut db = with_tenant();
    let r = create_ssh_pub_key(
        &mut db,
        &SSHKey { name: Some("k1".to_string()), ssh_pub_key: None, fingerprint: None, tenant: Some(0) },
    );
    assert_eq!(r.code, 400);
    assert_eq!(r.body, "SSH public key create request must include a name and SSH public key.");
}

#[test]
fn create_ssh_key_unknown_tenant_fails() {
    let mut db = with_tenant();
    let r = create_ssh_pub_key(&mut db, &key_payload("k1", ED25519_KEY, 42));
    assert_eq!(r.code, 500);
    assert_eq!(db.ssh_keys.len(), 0);
}

#[test]
fn create_ssh_key_duplicate_name_fails() {
    let mut db = with_tenant();
    create_ssh_pub_key(&mut db, &key_payload("k1", ED25519_KEY, 0));
    let r = create_ssh_pub_key(&mut db, &key_payload("k1", ED25519_KEY, 0));
    assert_eq!(r.code, 500);
    assert_eq!(db.ssh_keys.len(), 1);
}

#[test]
fn delete_ssh_key_by_name() {
    let mut db = with_tenant();
    create_ssh_pub_key(&mut db, &key_payload("k1", ED25519_KEY, 0));
    let r = delete_ssh_pub_key(&mut db, &key_payload("k1", ED25519_KEY, 0));
    assert_eq!(r.code, 200);
    assert_eq!(r.body, "SSH public key with name 'k1' deleted successfully.");
    assert_eq!(db.ssh_keys.len(), 0);
    let again = delete_ssh_pub_key(&mut db, &key_payload("k1", ED25519_KEY, 0));
    assert_eq!(again.code, 200);
}

#[test]
fn list_ssh_keys_by_tenant() {
    let mut db = with_tenant();
    create_ssh_pub_key(&mut db, &key_payload("k1", ED25519_KEY, 0));
    let keys = list_ssh_pub_keys(&db, &Tenant { name: None, id: Some(0) }).unwrap();
    assert_eq!(keys.len(), 1);
    assert_eq!(keys[0].name.as_deref(), Some("k1"));
    let err = list_ssh_pub_keys(&db, &Tenant { name: Some("acme".to_string()), id: None })
        .err()
        .unwrap();
    assert_eq!(err.code, 400);
    assert_eq!(err.body, "SSH public key list request must include tenant's UUID.");
}

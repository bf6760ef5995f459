use controlplane::db::Database;
use controlplane::rows::{Tenant, Vpc, VpcDelete};
use controlplane::tenant_api::create_tenant_handler;
use controlplane::vpc_api::{
    create_vpc_commit, create_vpc_validate, delete_vpc_commit, delete_vpc_validate,
    list_ports_handler, list_vpcs_handler,
};

fn vpc(name: &str, cidr: &str, tenant: u64) -> Vpc {
    Vpc {
        id: None,
        name: Some(name.to_string()),
        cidr: Some(cidr.to_string()),
        nat: Some(true),
        tenant: Some(tenant),
    }
}

fn with_tenant() -> Database {
    let mut db = Database::new();
    create_tenant_handler(&mut db, &Tenant { name: Some("acme".to_string()), id: None });
    db
}

#[test]
fn create_vpc_wires_switch_and_dhcp() {
    let mut db = with_tenant();
    let payload = vpc("prod", "10.0.0.0/24", 0);
    let plan = create_vpc_validate(&db, &payload).unwrap();
    assert_eq!(plan.switch_name, "0-prod");
    assert_eq!(plan.cidr, "10.0.0.0/24");
    let r = create_vpc_commit(&mut db, &payload);
    assert_eq!(r.code, 200);
    assert_eq!(r.body, "VPC 'prod' created successfully.");
    let row = &db.vpcs[0];
    assert_eq!(row.name, "prod");
    assert_eq!(row.cidr, "10.0.0.0/24");
    assert!(row.nat);
    assert_eq!(row.tenant, 0);
}

#[test]
fn duplicate_vpc_is_rejected() {
    let mut db = with_tenant();
    let payload = vpc("prod", "10.0.0.0/24", 0);
    create_vpc_commit(&mut db, &payload);
    let e = create_vpc_validate(&db, &payload).err().unwrap();
    assert_eq!(e.code, 400);
    assert_eq!(e.body, "VPC 'prod' already exists.");
}

#[test]
fn vpc_create_requires_fields() {
    let db = Database::new();
    let e = create_vpc_validate(
        &db,
        &Vpc { id: None, name: Some("prod".to_string()), cidr: None, nat: None, tenant: None },
    )
    .err()
    .unwrap();
    assert_eq!(e.code, 400);
    assert_eq!(e.body, "VPC create request must include a name and CIDR.");
}

#[test]
fn vpc_delete_blocked_by_ports_leaves_everything() {
    let mut db = with_tenant();
    create_vpc_commit(&mut db, &vpc("prod", "10.0.0.0/24", 0));
    let vpc_id = db.vpcs[0].id;
    db.create_port("acme-web", vpc_id, "h1");
    let req = VpcDelete { id: vpc_id, tenant: 0 };
    let e = delete_vpc_validate(&db, &req).err().unwrap();
    assert_eq!(e.code, 400);
    assert_eq!(
        e.body,
        format!("VPC '{}' has ports associated with it. Please delete associated ports first.", vpc_id)
    );
    let c = delete_vpc_commit(&mut db, &req);
    assert_eq!(c.code, 400);
    assert_eq!(db.vpcs.len(), 1);
    assert_eq!(db.vpcs[0].cidr, "10.0.0.0/24");
}

#[test]
fn vpc_round_trip_tears_down_same_cidr() {
    let mut db = with_tenant();
    create_vpc_commit(&mut db, &vpc("prod", "10.0.0.0/24", 0));
    let vpc_id = db.vpcs[0].id;
    let req = VpcDelete { id: vpc_id, tenant: 0 };
    let plan = delete_vpc_validate(&db, &req).unwrap();
    assert_eq!(plan.cidr, "10.0.0.0/24");
    assert_eq!(plan.switch_name, "0-prod");
    let r = delete_vpc_commit(&mut db, &req);
    assert_eq!(r.code, 200);
    assert_eq!(r.body, format!("VPC '{}' deleted successfully.", vpc_id));
    assert_eq!(db.vpcs.len(), 0);
}

#[test]
fn delete_missing_vpc_is_not_found() {
    let mut db = with_tenant();
    let req = VpcDelete { id: 9, tenant: 0 };
    let e = delete_vpc_validate(&db, &req).err().unwrap();
    assert_eq!(e.code, 404);
    assert_eq!(e.body, "VPC '9' does not exist.");
    let c = delete_vpc_commit(&mut db, &req);
    assert_eq!(c.code, 404);
}

#[test]
fn list_vpcs_by_name_and_by_id() {
    let mut db = with_tenant();
    create_vpc_commit(&mut db, &vpc("prod", "10.0.0.0/24", 0));
    let (by_name, yaml) =
        list_vpcs_handler(&db, &Tenant { name: Some("acme".to_string()), id: None }).unwrap();
    assert!(yaml);
    assert_eq!(by_name.len(), 1);
    assert_eq!(by_name[0].name.as_deref(), Some("prod"));
    let (by_id, yaml2) = list_vpcs_handler(&db, &Tenant { name: None, id: Some(0) }).unwrap();
    assert!(!yaml2);
    assert_eq!(by_id.len(), 1);
    let e = list_vpcs_handler(&db, &Tenant { name: None, id: None }).err().unwrap();
    assert_eq!(e.code, 400);
    assert_eq!(e.body, "VPC list request must include a tenant name or UUID.");
}

#[test]
fn list_ports_requires_vpc_id() {
    let mut db = with_tenant();
    create_vpc_commit(&mut db, &vpc("prod", "10.0.0.0/24", 0));
    let vpc_id = db.vpcs[0].id;
    db.create_port("acme-web", vpc_id, "h1");
    let ports = list_ports_handler(
        &db,
        &Vpc { id: Some(vpc_id), name: None, cidr: None, nat: None, tenant: None },
    )
    .unwrap();
    assert_eq!(ports.len(), 1);
    assert_eq!(ports[0].name, "acme-web");
    assert_eq!(ports[0].hypervisor, "h1");
    let e = list_ports_handler(
        &db,
        &Vpc { id: None, name: None, cidr: None, nat: None, tenant: None },
    )
    .err()
    .unwrap();
    assert_eq!(e.code, 400);
    assert_eq!(e.body, "VPC delete request must use a valid VPC UUID.");
}

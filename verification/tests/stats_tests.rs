use controlplane::db::Database;
use controlplane::rows::{HypervisorAgent, HypervisorSchedulerVM, Tenant};
use controlplane::stats_api::hypervisor_stats_handler;
use controlplane::tenant_api::create_tenant_handler;

fn push(hostname: &str, arch: &str, vms: Vec<HypervisorSchedulerVM>) -> HypervisorAgent {
    HypervisorAgent { hostname: hostname.to_string(), memory: 64, cpu: 16, arch: arch.to_string(), vms }
}

fn vm_entry(name: &str, memory: i32, cpu: i32, state: &str, ips: Vec<&str>) -> HypervisorSchedulerVM {
    HypervisorSchedulerVM {
        name: name.to_string(),
        memory,
        cpu,
        state: state.to_string(),
        ip_addresses: ips.into_iter().map(|s| s.to_string()).collect(),
    }
}

#[test]
fn unsupported_arch_is_rejected() {
    let mut db = Database::new();
    let r = hypervisor_stats_handler(&mut db, &push("h1", "riscv", vec![]));
    assert_eq!(r.code, 400);
    assert_eq!(
        r.body,
        "Invalid architecture specified. Only x86_64 and aarch64 are supported."
    );
    assert_eq!(db.hypervisors.len(), 0);
}

#[test]
fn empty_vm_list_reserves_one() {
    let mut db = Database::new();
    let r = hypervisor_stats_handler(&mut db, &push("h1", "x86_64", vec![]));
    assert_eq!(r.code, 200);
    assert_eq!(r.body, "Hypervisor 'h1' registered successfully.");
    let row = &db.hypervisors[0];
    assert_eq!(row.used_ram, 1);
    assert_eq!(row.used_cpu, 1);
    assert_eq!(row.hosted_vms, 0);
    assert_eq!(row.total_ram, 64);
    assert_eq!(row.total_cpu, 16);
    assert_eq!(row.arch, "x86_64");
}

#[test]
fn stats_reconciliation_updates_state_and_ips() {
    let mut db = Database::new();
    create_tenant_handler(&mut db, &Tenant { name: Some("acme".to_string()), id: None });
    db.create_virtual_machine("web", 2, 4, 0, 9, 8, 20, 7, "fedora41", "created", "l2-tenant", &None);
    hypervisor_stats_handler(&mut db, &push("h1", "x86_64", vec![]));
    let r = hypervisor_stats_handler(
        &mut db,
        &push("h1", "x86_64", vec![vm_entry("acme-web", 4, 2, "Running", vec!["10.0.0.5/24"])]),
    );
    assert_eq!(r.code, 200);
    assert_eq!(r.body, "Hypervisor and all VMs updated successfully.");
    let h = &db.hypervisors[0];
    assert_eq!((h.used_ram, h.used_cpu, h.hosted_vms), (5, 3, 1));
    let vm = &db.vms[0];
    assert_eq!(vm.state, "running");
    assert_eq!(vm.ip_addresses, vec!["10.0.0.5/24".to_string()]);
}

#[test]
fn malformed_reported_name_is_skipped() {
    let mut db = Database::new();
    create_tenant_handler(&mut db, &Tenant { name: Some("acme".to_string()), id: None });
    db.create_virtual_machine("web", 2, 4, 0, 9, 8, 20, 7, "fedora41", "created", "l2-tenant", &None);
    hypervisor_stats_handler(&mut db, &push("h1", "x86_64", vec![]));
    let r = hypervisor_stats_handler(
        &mut db,
        &push(
            "h1",
            "x86_64",
            vec![
                vm_entry("standalone", 2, 1, "Running", vec![]),
                vm_entry("acme-web", 4, 2, "Running", vec![]),
            ],
        ),
    );
    assert_eq!(r.code, 200);
    let h = &db.hypervisors[0];
    assert_eq!((h.used_ram, h.used_cpu, h.hosted_vms), (8, 5, 2));
    assert_eq!(db.vms[0].state, "running");
}

#[test]
fn unknown_tenant_in_report_is_collected() {
    let mut db = Database::new();
    hypervisor_stats_handler(&mut db, &push("h1", "x86_64", vec![]));
    let r = hypervisor_stats_handler(
        &mut db,
        &push("h1", "x86_64", vec![vm_entry("ghost-x", 1, 1, "Running", vec![])]),
    );
    assert_eq!(r.code, 500);
    assert!(r.body.starts_with("Hypervisor updated but had VM errors: "));
    assert!(r.body.contains("Tenant 'ghost' not found."));
    let h = &db.hypervisors[0];
    assert_eq!((h.used_ram, h.used_cpu, h.hosted_vms), (2, 2, 1));
}

#[test]
fn second_push_for_known_hostname_updates_counters() {
    let mut db = Database::new();
    hypervisor_stats_handler(&mut db, &push("h1", "aarch64", vec![]));
    let r = hypervisor_stats_handler(
        &mut db,
        &push("h1", "aarch64", vec![vm_entry("a-b", 8, 4, "Shutoff", vec![])]),
    );
    assert_eq!(r.code, 500);
    assert_eq!(db.hypervisors.len(), 1);
    let h = &db.hypervisors[0];
    assert_eq!((h.used_ram, h.used_cpu, h.hosted_vms), (9, 5, 1));
}

#[test]
fn vm_create_and_delete_leave_counters_unchanged_after_next_push() {
    let mut db = Database::new();
    create_tenant_handler(&mut db, &Tenant { name: Some("acme".to_string()), id: None });
    hypervisor_stats_handler(&mut db, &push("h1", "x86_64", vec![]));
    let before = (db.hypervisors[0].used_ram, db.hypervisors[0].used_cpu, db.hypervisors[0].hosted_vms);
    let h_id = db.hypervisors[0].id;
    db.create_virtual_machine("web", 2, 4, 0, 9, 8, 20, h_id, "fedora41", "created", "l2-tenant", &None);
    db.delete_virtual_machine("web", 0);
    hypervisor_stats_handler(&mut db, &push("h1", "x86_64", vec![]));
    let after = (db.hypervisors[0].used_ram, db.hypervisors[0].used_cpu, db.hypervisors[0].hosted_vms);
    assert_eq!(before, after);
    assert_eq!(before, (1, 1, 0));
}

#[test]
fn first_push_reconciles_known_vms() {
    let mut db = Database::new();
    create_tenant_handler(&mut db, &Tenant { name: Some("acme".to_string()), id: None });
    db.create_virtual_machine("web", 2, 4, 0, 9, 8, 20, 7, "fedora41", "created", "l2-tenant", &None);
    let r = hypervisor_stats_handler(
        &mut db,
        &push("h1", "x86_64", vec![vm_entry("acme-web", 4, 2, "Running", vec!["10.0.0.5/24"])]),
    );
    assert_eq!(r.code, 200);
    assert_eq!(r.body, "Hypervisor 'h1' registered successfully.");
    let h = &db.hypervisors[0];
    assert_eq!((h.used_ram, h.used_cpu, h.hosted_vms), (5, 3, 1));
    assert_eq!(db.vms[0].state, "running");
    assert_eq!(db.vms[0].ip_addresses, vec!["10.0.0.5/24".to_string()]);
}

#[test]
fn first_push_with_unknown_tenant_registers_and_reports() {
    let mut db = Database::new();
    let r = hypervisor_stats_handler(
        &mut db,
        &push("h1", "x86_64", vec![vm_entry("ghost-x", 1, 1, "Running", vec![])]),
    );
    assert_eq!(r.code, 500);
    assert!(r.body.starts_with("Hypervisor updated but had VM errors: "));
    assert!(r.body.contains("Tenant 'ghost' not found."));
    assert_eq!(db.hypervisors.len(), 1);
    let h = &db.hypervisors[0];
    assert_eq!((h.used_ram, h.used_cpu, h.hosted_vms), (2, 2, 1));
}

#[test]
fn identical_push_leaves_vm_rows_untouched() {
    let mut db = Database::new();
    create_tenant_handler(&mut db, &Tenant { name: Some("acme".to_string()), id: None });
    db.create_virtual_machine("web", 2, 4, 0, 9, 8, 20, 7, "fedora41", "created", "l2-tenant", &None);
    hypervisor_stats_handler(
        &mut db,
        &push("h1", "x86_64", vec![vm_entry("acme-web", 4, 2, "Running", vec!["10.0.0.5/24"])]),
    );
    let state1 = db.vms[0].state.clone();
    let ips1 = db.vms[0].ip_addresses.clone();
    hypervisor_stats_handler(
        &mut db,
        &push("h1", "x86_64", vec![vm_entry("acme-web", 4, 2, "running", vec!["10.0.0.5/24"])]),
    );
    assert_eq!(db.vms[0].state, state1);
    assert_eq!(db.vms[0].ip_addresses, ips1);
}

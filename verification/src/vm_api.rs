//! The placement orchestrator: VM create (validation, architecture-filtered
//! least-loaded hypervisor selection, overlay wiring names, compute RPC body,
//! database commit) and VM delete.  The outside work — OVSDB transactions
//! and the compute-node HTTP call — happens between the steps here: a prepare
//! step decides, the caller performs the I/O with the requests the library
//! builds, and a commit step changes the repository.

use vstd::prelude::*;
use crate::db::Database;
use crate::jsontext::{json_quote, spec_json_str};
use crate::response::{ApiResponse, resp, resp_owned, msg3, msg5, OK, BAD_REQUEST, NOT_FOUND,
    INTERNAL_SERVER_ERROR};
use crate::rows::{HypervisorScheduler, VirtualMachineCreate, VirtualMachineDelete};
use crate::text::{u64_to_string, i64_to_string, spec_dec_i64};
use crate::vpc_api::spec_switch_name;

verus! {

/// The networking mode is one the orchestrator knows.
pub open spec fn spec_networking_valid(networking: Seq<char>) -> bool {
    networking == "l2-tenant"@ || networking == "l2-bridged"@
}

/// The network field is consistent with the networking mode: a network may
/// (and must) be named exactly in `l2-bridged` mode, and it must exist.
pub open spec fn spec_network_ok(db: Database, payload: VirtualMachineCreate) -> bool {
    if payload.network is Some {
        payload.networking@ == "l2-bridged"@ && db.has_provider_network((payload.network->0)@)
    } else {
        payload.networking@ != "l2-bridged"@
    }
}

/// The hypervisor has room for the requested RAM and CPU.
pub open spec fn spec_fits(h: HypervisorScheduler, ram: int, cpu: int) -> bool {
    h.total_ram - h.used_ram >= ram && h.total_cpu - h.used_cpu >= cpu
}

/// Some hypervisor of the requested architecture, among those hosting the
/// fewest VMs for that architecture, has room for the request.
pub open spec fn spec_placement_possible(db: Database, payload: VirtualMachineCreate) -> bool {
    exists|k: int|
        0 <= k < db.hypervisors@.len() && (#[trigger] db.hypervisors@[k]).arch@ == payload.arch@
            && db.is_min_hosted(payload.arch@, db.hypervisors@[k].hosted_vms) && spec_fits(
            db.hypervisors@[k],
            payload.ram as int,
            payload.cpu as int,
        )
}

/// What the placement decided: the chosen hypervisor and, in bridged mode,
/// the provider network's name and VLAN.
pub struct VmPlacement {
    pub tenant_uuid: u64,
    pub hypervisor_hostname: String,
    pub hypervisor_uuid: u64,
    pub provider_network_name: Option<String>,
    pub provider_network_vlan: Option<i32>,
}

/// A chosen hypervisor: its hostname and row id.
pub struct HypervisorChoice {
    pub hostname: String,
    pub id: u64,
}

/// Walk the minimum-hosted candidates in order and take the first with room
/// for the request.
fn pick_hypervisor(
    db: &Database,
    candidates: &Vec<HypervisorScheduler>,
    ram: i32,
    cpu: i32,
    arch: &str,
) -> (r: Option<HypervisorChoice>)
    requires
        forall|m: int|
            0 <= m < candidates@.len() ==> (#[trigger] candidates@[m]).arch@ == arch@
                && db.is_min_hosted(arch@, candidates@[m].hosted_vms) && exists|k: int|
                0 <= k < db.hypervisors@.len() && #[trigger] db.hypervisors@[k] == candidates@[m],
    ensures
        r matches Some(c) ==> exists|m: int|
            0 <= m < candidates@.len() && {
                let h = #[trigger] candidates@[m];
                &&& spec_fits(h, ram as int, cpu as int)
                &&& c.hostname@ == h.hostname@
                &&& c.id == h.id
                &&& forall|m2: int|
                    0 <= m2 < m ==> !spec_fits(#[trigger] candidates@[m2], ram as int, cpu as int)
            },
        r matches Some(c) ==> exists|k: int|
            0 <= k < db.hypervisors@.len() && {
                let h = #[trigger] db.hypervisors@[k];
                &&& h.arch@ == arch@
                &&& db.is_min_hosted(arch@, h.hosted_vms)
                &&& spec_fits(h, ram as int, cpu as int)
                &&& c.hostname@ == h.hostname@
                &&& c.id == h.id
            },
        r is None ==> forall|m: int|
            0 <= m < candidates@.len() ==> !spec_fits(
                #[trigger] candidates@[m],
                ram as int,
                cpu as int,
            ),
{
    let n = candidates.len();
    let mut i: usize = 0;
    while i < n
        invariant
            n == candidates@.len(),
            0 <= i <= n,
            forall|m: int|
                0 <= m < candidates@.len() ==> (#[trigger] candidates@[m]).arch@ == arch@
                    && db.is_min_hosted(arch@, candidates@[m].hosted_vms) && exists|k: int|
                    0 <= k < db.hypervisors@.len() && #[trigger] db.hypervisors@[k]
                        == candidates@[m],
            forall|m: int|
                0 <= m < i ==> !spec_fits(#[trigger] candidates@[m], ram as int, cpu as int),
        decreases n - i,
    {
        let h = &candidates[i];
        if (h.total_ram as i64) - (h.used_ram as i64) >= ram as i64 && (h.total_cpu as i64) - (
        h.used_cpu as i64) >= cpu as i64 {
            proof {
                assert(spec_fits(candidates@[i as int], ram as int, cpu as int));
                let k = choose|k: int|
                    0 <= k < db.hypervisors@.len() && #[trigger] db.hypervisors@[k]
                        == candidates@[i as int];
                assert(db.hypervisors@[k].arch@ == arch@ && db.is_min_hosted(
                    arch@,
                    db.hypervisors@[k].hosted_vms,
                ) && spec_fits(db.hypervisors@[k], ram as int, cpu as int));
            }
            return Some(HypervisorChoice { hostname: h.hostname.clone(), id: h.id });
        }
        i = i + 1;
    }
    None
}

/// All the validations of a VM create request, in order, and the placement
/// decision.  Nothing is changed; the caller wires the overlay and calls the
/// compute node before committing.
pub fn vm_create_prepare(db: &Database, payload: &VirtualMachineCreate) -> (r: Result<VmPlacement,
    ApiResponse>)
    requires
        db.wf(),
    ensures
        !db.has_tenant_named(payload.tenant@) ==> r is Err && (r->Err_0).code == BAD_REQUEST && (
        r->Err_0).body@ == "Tenant not found"@,
        db.has_tenant_named(payload.tenant@) && db.has_vm(
            payload.name@,
            db.tenant_id_of(payload.tenant@),
        ) ==> r is Err && (r->Err_0).code == BAD_REQUEST && (r->Err_0).body@ == "VM '"@
            + payload.name@ + "' already exists."@,
        db.has_tenant_named(payload.tenant@) && !db.has_vm(
            payload.name@,
            db.tenant_id_of(payload.tenant@),
        ) && !spec_networking_valid(payload.networking@) ==> r is Err && (r->Err_0).code
            == BAD_REQUEST && (r->Err_0).body@
            == "Invalid networking type, valid modes are: l2-tenant, l2-bridged"@,
        db.has_tenant_named(payload.tenant@) && !db.has_vm(
            payload.name@,
            db.tenant_id_of(payload.tenant@),
        ) && spec_networking_valid(payload.networking@) && payload.network is Some
            && payload.networking@ != "l2-bridged"@ ==> r is Err && (r->Err_0).code == BAD_REQUEST
            && (r->Err_0).body@
            == "Network can only be specified for the l2-bridged networking mode"@,
        db.has_tenant_named(payload.tenant@) && !db.has_vm(
            payload.name@,
            db.tenant_id_of(payload.tenant@),
        ) && spec_networking_valid(payload.networking@) && payload.network is Some
            && payload.networking@ == "l2-bridged"@ && !db.has_provider_network(
            (payload.network->0)@,
        ) ==> r is Err && (r->Err_0).code == BAD_REQUEST && (r->Err_0).body@ == "Network '"@ + (
        payload.network->0)@ + "' does not exist."@,
        db.has_tenant_named(payload.tenant@) && !db.has_vm(
            payload.name@,
            db.tenant_id_of(payload.tenant@),
        ) && spec_networking_valid(payload.networking@) && payload.network is None
            && payload.networking@ == "l2-bridged"@ ==> r is Err && (r->Err_0).code == BAD_REQUEST
            && (r->Err_0).body@ == "Network must be specified for 'l2-bridged' networking."@,
        db.has_tenant_named(payload.tenant@) && !db.has_vm(
            payload.name@,
            db.tenant_id_of(payload.tenant@),
        ) && spec_networking_valid(payload.networking@) && spec_network_ok(*db, *payload)
            && !spec_placement_possible(*db, *payload) ==> r is Err && (r->Err_0).code
            == BAD_REQUEST && (r->Err_0).body@
            == "No hypervisor available with enough resources to schedule VM."@,
        db.has_tenant_named(payload.tenant@) && !db.has_vm(
            payload.name@,
            db.tenant_id_of(payload.tenant@),
        ) && spec_networking_valid(payload.networking@) && spec_network_ok(*db, *payload)
            && spec_placement_possible(*db, *payload) ==> r is Ok && {
            let p = r->Ok_0;
            &&& p.tenant_uuid == db.tenant_id_of(payload.tenant@)
            &&& exists|k: int|
                0 <= k < db.hypervisors@.len() && {
                    let h = #[trigger] db.hypervisors@[k];
                    &&& h.arch@ == payload.arch@
                    &&& db.is_min_hosted(payload.arch@, h.hosted_vms)
                    &&& spec_fits(h, payload.ram as int, payload.cpu as int)
                    &&& p.hypervisor_hostname@ == h.hostname@
                    &&& p.hypervisor_uuid == h.id
                }
            &&& (payload.networking@ == "l2-bridged"@ ==> p.provider_network_name is Some && (
            p.provider_network_name->0)@ == (payload.network->0)@ && p.provider_network_vlan
                == Some(db.provider_network_by_name((payload.network->0)@).vlan))
            &&& (payload.networking@ != "l2-bridged"@ ==> p.provider_network_name is None
                && p.provider_network_vlan is None)
        },
{
    let tenant_uuid = match db.get_tenant_by_name(payload.tenant.as_str()) {
        Some(t) => t,
        None => {
            return Err(resp(BAD_REQUEST, "Tenant not found"));
        },
    };
    if db.get_virtual_machine_by_name(payload.name.as_str(), tenant_uuid).is_some() {
        return Err(resp_owned(
            BAD_REQUEST,
            msg3("VM '", payload.name.as_str(), "' already exists."),
        ));
    }
    let is_tenant_mode = crate::text::str_eq(payload.networking.as_str(), "l2-tenant");
    let is_bridged_mode = crate::text::str_eq(payload.networking.as_str(), "l2-bridged");
    if !is_tenant_mode && !is_bridged_mode {
        return Err(resp(BAD_REQUEST, "Invalid networking type, valid modes are: l2-tenant, l2-bridged"));
    }
    proof {
        assert(spec_networking_valid(payload.networking@));
    }
    let mut provider_network_name: Option<String> = None;
    let mut provider_network_vlan: Option<i32> = None;
    match &payload.network {
        Some(network) => {
            if !is_bridged_mode {
                return Err(resp(
                    BAD_REQUEST,
                    "Network can only be specified for the l2-bridged networking mode",
                ));
            }
            match db.get_provider_network(network.as_str()) {
                Some(provider) => {
                    provider_network_name = Some(provider.name);
                    provider_network_vlan = Some(provider.vlan);
                },
                None => {
                    return Err(resp_owned(
                        BAD_REQUEST,
                        msg3("Network '", network.as_str(), "' does not exist."),
                    ));
                },
            }
        },
        None => {
            if is_bridged_mode {
                return Err(resp(
                    BAD_REQUEST,
                    "Network must be specified for 'l2-bridged' networking.",
                ));
            }
        },
    }
    let candidates = db.get_hypervisors_min_hosted_vms(payload.arch.as_str());
    match pick_hypervisor(db, &candidates, payload.ram, payload.cpu, payload.arch.as_str()) {
        Some(c) => {
            proof {
                assert(spec_placement_possible(*db, *payload)) by {
                    let k = choose|k: int|
                        0 <= k < db.hypervisors@.len() && {
                            let h = #[trigger] db.hypervisors@[k];
                            &&& h.arch@ == payload.arch@
                            &&& db.is_min_hosted(payload.arch@, h.hosted_vms)
                            &&& spec_fits(h, payload.ram as int, payload.cpu as int)
                            &&& c.hostname@ == h.hostname@
                            &&& c.id == h.id
                        };
                    assert(db.hypervisors@[k].arch@ == payload.arch@ && db.is_min_hosted(
                        payload.arch@,
                        db.hypervisors@[k].hosted_vms,
                    ) && spec_fits(db.hypervisors@[k], payload.ram as int, payload.cpu as int));
                }
            }
            Ok(VmPlacement {
                tenant_uuid,
                hypervisor_hostname: c.hostname,
                hypervisor_uuid: c.id,
                provider_network_name,
                provider_network_vlan,
            })
        },
        None => {
            proof {
                assert(!spec_placement_possible(*db, *payload)) by {
                    if spec_placement_possible(*db, *payload) {
                        let k = choose|k: int|
                            0 <= k < db.hypervisors@.len() && (#[trigger] db.hypervisors@[k]).arch@
                                == payload.arch@ && db.is_min_hosted(
                                payload.arch@,
                                db.hypervisors@[k].hosted_vms,
                            ) && spec_fits(
                                db.hypervisors@[k],
                                payload.ram as int,
                                payload.cpu as int,
                            );
                        let m = choose|m: int|
                            0 <= m < candidates@.len() && #[trigger] candidates@[m]
                                == db.hypervisors@[k];
                        assert(!spec_fits(candidates@[m], payload.ram as int, payload.cpu as int));
                    }
                }
            }
            Err(resp(BAD_REQUEST, "No hypervisor available with enough resources to schedule VM."))
        },
    }
}

/// The overlay wiring of an `l2-tenant` VM: the port named
/// `"{tenant-name}-{vm-name}"`, the switch named `"{tenant-id}-{vpc-name}"`,
/// and the VPC's CIDR, whose DHCP options row the port is bound to.
pub struct VmWiring {
    pub port_name: String,
    pub switch_name: String,
    pub cidr: String,
}

/// The logical switch port name of a VM.
pub open spec fn spec_port_name(tenant: Seq<char>, name: Seq<char>) -> Seq<char> {
    tenant + "-"@ + name
}

/// Decide the overlay wiring of an `l2-tenant` VM create.  Nothing is
/// changed; the caller runs the OVSDB transactions.
pub fn vm_wiring_plan(db: &Database, payload: &VirtualMachineCreate, tenant_uuid: u64) -> (r:
    Result<VmWiring, ApiResponse>)
    requires
        db.wf(),
    ensures
        !db.has_vpc_named(payload.vpc@, tenant_uuid) ==> r is Err && (r->Err_0).code == BAD_REQUEST
            && (r->Err_0).body@ == "VPC CIDR not found"@,
        db.has_vpc_named(payload.vpc@, tenant_uuid) ==> r is Ok && {
            let w = r->Ok_0;
            &&& w.port_name@ == spec_port_name(payload.tenant@, payload.name@)
            &&& w.switch_name@ == spec_switch_name(tenant_uuid, payload.vpc@)
            &&& w.cidr@ == db.vpc_by_name(payload.vpc@, tenant_uuid).cidr@
        },
{
    let cidr = match db.get_vpc_cidr(payload.vpc.as_str(), tenant_uuid) {
        Some(c) => c,
        None => {
            return Err(resp(BAD_REQUEST, "VPC CIDR not found"));
        },
    };
    let port_name = msg3(payload.tenant.as_str(), "-", payload.name.as_str());
    let switch_name = msg3(u64_to_string(tenant_uuid).as_str(), "-", payload.vpc.as_str());
    Ok(VmWiring { port_name, switch_name, cidr })
}

/// The JSON body POSTed to the compute node to create a VM: the request's
/// fields with RAM converted from GiB to MiB, the generated MAC, and (in
/// bridged mode) the VLAN id as the network.
pub open spec fn spec_vm_create_rpc_body(
    payload: VirtualMachineCreate,
    mac: Seq<char>,
    vlan: Option<i32>,
) -> Seq<char> {
    "{\"cpu\":"@ + spec_dec_i64(payload.cpu as int) + ",\"disk\":"@ + spec_dec_i64(
        payload.disk_size as int,
    ) + ",\"mac_addr\":"@ + spec_json_str(mac) + ",\"memory\":"@ + spec_dec_i64(
        payload.ram * 1024,
    ) + ",\"name\":"@ + spec_json_str(payload.name@) + (if vlan is Some {
        ",\"network\":"@ + spec_json_str(spec_dec_i64(vlan->0 as int))
    } else {
        Seq::<char>::empty()
    }) + ",\"networking\":"@ + spec_json_str(payload.networking@) + ",\"os\":"@ + spec_json_str(
        payload.os@,
    ) + ",\"ssh_pub_key\":"@ + spec_json_str(payload.ssh_pub_key@) + ",\"tenant\":"@
        + spec_json_str(payload.tenant@) + "}"@
}

/// Build the compute-node create body.  In bridged mode the VLAN id is sent
/// as the network, as its decimal text.
pub fn vm_create_rpc_body(payload: &VirtualMachineCreate, mac: &str, vlan: Option<i32>) -> (r:
    String)
    ensures
        r@ == spec_vm_create_rpc_body(*payload, mac@, vlan),
{
    let mut out = String::new();
    out.append("{\"cpu\":");
    out.append(i64_to_string(payload.cpu as i64).as_str());
    out.append(",\"disk\":");
    out.append(i64_to_string(payload.disk_size as i64).as_str());
    out.append(",\"mac_addr\":");
    out.append(json_quote(mac).as_str());
    out.append(",\"memory\":");
    out.append(i64_to_string((payload.ram as i64) * 1024).as_str());
    out.append(",\"name\":");
    out.append(json_quote(payload.name.as_str()).as_str());
    match vlan {
        Some(v) => {
            out.append(",\"network\":");
            let vtext = i64_to_string(v as i64);
            out.append(json_quote(vtext.as_str()).as_str());
        },
        None => {},
    }
    out.append(",\"networking\":");
    out.append(json_quote(payload.networking.as_str()).as_str());
    out.append(",\"os\":");
    out.append(json_quote(payload.os.as_str()).as_str());
    out.append(",\"ssh_pub_key\":");
    out.append(json_quote(payload.ssh_pub_key.as_str()).as_str());
    out.append(",\"tenant\":");
    out.append(json_quote(payload.tenant.as_str()).as_str());
    out.append("}");
    proof {
        assert(out@ =~= spec_vm_create_rpc_body(*payload, mac@, vlan));
    }
    out
}

/// The JSON body POSTed to the compute node to delete a VM.
pub open spec fn spec_vm_delete_rpc_body(name: Seq<char>, tenant: Seq<char>) -> Seq<char> {
    "{\"name\":"@ + spec_json_str(name) + ",\"tenant\":"@ + spec_json_str(tenant) + "}"@
}

/// Build the compute-node delete body.
pub fn vm_delete_rpc_body(name: &str, tenant: &str) -> (r: String)
    ensures
        r@ == spec_vm_delete_rpc_body(name@, tenant@),
{
    let mut out = String::new();
    out.append("{\"name\":");
    out.append(json_quote(name).as_str());
    out.append(",\"tenant\":");
    out.append(json_quote(tenant).as_str());
    out.append("}");
    proof {
        assert(out@ =~= spec_vm_delete_rpc_body(name@, tenant@));
    }
    out
}

/// The URL of a compute-node endpoint: `http://{hostname}:3000{path}`.
pub open spec fn spec_compute_url(hostname: Seq<char>, path: Seq<char>) -> Seq<char> {
    "http://"@ + hostname + ":3000"@ + path
}

/// Build a compute-node URL.
pub fn compute_url(hostname: &str, path: &str) -> (r: String)
    ensures
        r@ == spec_compute_url(hostname@, path@),
{
    let r = msg5("http://", hostname, ":3000", path, "");
    proof {
        reveal_strlit("");
        assert(r@ =~= spec_compute_url(hostname@, path@));
    }
    r
}

/// Commit a created VM: resolve the VPC, tenant and SSH key, store the VM
/// row with state `"created"`, and in `l2-tenant` mode store the port row
/// that ties the VM to its VPC.  Run only after the compute node answered
/// 200.
pub fn vm_create_commit(db: &mut Database, payload: &VirtualMachineCreate, placement: &VmPlacement) -> (r:
    ApiResponse)
    requires
        old(db).wf(),
    ensures
        final(db).wf(),
        !old(db).has_vpc_named(payload.vpc@, placement.tenant_uuid) ==> r.code == BAD_REQUEST
            && r.body@ == "VPC not found"@ && *final(db) == *old(db),
        old(db).has_vpc_named(payload.vpc@, placement.tenant_uuid) && !old(db).has_tenant_named(
            payload.tenant@,
        ) ==> r.code == BAD_REQUEST && r.body@ == "Tenant not found"@ && *final(db) == *old(db),
        old(db).has_vpc_named(payload.vpc@, placement.tenant_uuid) && old(db).has_tenant_named(
            payload.tenant@,
        ) && !old(db).has_ssh_key_named(payload.ssh_pub_key@) ==> r.code == BAD_REQUEST && r.body@
            == "SSH public key not found"@ && *final(db) == *old(db),
        old(db).has_vpc_named(payload.vpc@, placement.tenant_uuid) && old(db).has_tenant_named(
            payload.tenant@,
        ) && old(db).has_ssh_key_named(payload.ssh_pub_key@) && old(db).has_vm(
            payload.name@,
            old(db).tenant_id_of(payload.tenant@),
        ) ==> r.code == INTERNAL_SERVER_ERROR && *final(db) == *old(db),
        old(db).has_vpc_named(payload.vpc@, placement.tenant_uuid) && old(db).has_tenant_named(
            payload.tenant@,
        ) && old(db).has_ssh_key_named(payload.ssh_pub_key@) && !old(db).has_vm(
            payload.name@,
            old(db).tenant_id_of(payload.tenant@),
        ) && old(db).next_id < u64::MAX ==> {
            let tid = old(db).tenant_id_of(payload.tenant@);
            &&& r.code == OK
            &&& r.body@ == "VM '"@ + payload.name@ + "' created successfully."@
            &&& final(db).has_vm(payload.name@, tid)
            &&& final(db).vms@.len() == old(db).vms@.len() + 1
            &&& final(db).vms@.subrange(0, old(db).vms@.len() as int) == old(db).vms@
            &&& final(db).vms@.last().name@ == payload.name@
            &&& final(db).vms@.last().ram == payload.ram
            &&& final(db).vms@.last().cpu == payload.cpu
            &&& final(db).vms@.last().state@ == "created"@
            &&& final(db).vms@.last().os@ == payload.os@
            &&& final(db).vms@.last().disk_size == payload.disk_size
            &&& final(db).vms@.last().vpc == old(db).vpc_by_name(payload.vpc@, placement.tenant_uuid).id
            &&& final(db).vms@.last().ssh_pub_key == old(db).ssh_key_by_name(
                payload.ssh_pub_key@,
            ).id
            &&& final(db).vms@.last().tenant == tid
            &&& final(db).vms@.last().hypervisor == placement.hypervisor_uuid
            &&& final(db).vms@.last().networking@ == payload.networking@
            &&& (final(db).vms@.last().network is Some <==> placement.provider_network_name
                is Some)
            &&& (placement.provider_network_name is Some ==> (final(db).vms@.last().network->0)@
                == (placement.provider_network_name->0)@)
            &&& final(db).tenants == old(db).tenants
            &&& final(db).vpcs == old(db).vpcs
            &&& final(db).ssh_keys == old(db).ssh_keys
            &&& final(db).provider_networks == old(db).provider_networks
            &&& final(db).hypervisors == old(db).hypervisors
            &&& (payload.networking@ != "l2-tenant"@ ==> final(db).ports == old(db).ports)
            &&& (payload.networking@ == "l2-tenant"@ ==> final(db).ports@.len()
                == old(db).ports@.len() + 1 && final(db).ports@.subrange(0, old(db).ports@.len() as int)
                == old(db).ports@ && final(db).ports@.last().name@ == spec_port_name(
                payload.tenant@,
                payload.name@,
            ) && final(db).ports@.last().vpc == old(db).vpc_by_name(payload.vpc@, placement.tenant_uuid).id
                && final(db).ports@.last().hypervisor@ == placement.hypervisor_hostname@)
        },
{
    let vpc_uuid = match db.get_vpc_by_name(payload.vpc.as_str(), placement.tenant_uuid) {
        Some(v) => v,
        None => {
            return resp(BAD_REQUEST, "VPC not found");
        },
    };
    let tenant_uuid = match db.get_tenant_by_name(payload.tenant.as_str()) {
        Some(t) => t,
        None => {
            return resp(BAD_REQUEST, "Tenant not found");
        },
    };
    let pub_ssh_key_uuid = match db.get_ssh_key(payload.ssh_pub_key.as_str()) {
        Some(k) => k,
        None => {
            return resp(BAD_REQUEST, "SSH public key not found");
        },
    };
    if db.get_virtual_machine_by_name(payload.name.as_str(), tenant_uuid).is_some() {
        return resp(INTERNAL_SERVER_ERROR, "Failed to add VM to database: VM already exists");
    }
    if db.next_id == u64::MAX {
        return resp(INTERNAL_SERVER_ERROR, "Failed to add VM to database: no free id");
    }
    db.create_virtual_machine(
        payload.name.as_str(),
        payload.cpu,
        payload.ram,
        tenant_uuid,
        vpc_uuid,
        pub_ssh_key_uuid,
        payload.disk_size,
        placement.hypervisor_uuid,
        payload.os.as_str(),
        "created",
        payload.networking.as_str(),
        &placement.provider_network_name,
    );
    let ghost mid = *db;
    proof {
        reveal_strlit("created");
        assert(mid.vms@.last().state@ == "created"@);
        assert(mid.next_id == old(db).next_id);
    }
    if crate::text::str_eq(payload.networking.as_str(), "l2-tenant") {
        let port_name = msg3(payload.tenant.as_str(), "-", payload.name.as_str());
        db.create_port(port_name.as_str(), vpc_uuid, placement.hypervisor_hostname.as_str());
        proof {
            assert(db.vms == mid.vms);
            assert(db.vms@.subrange(0, old(db).vms@.len() as int) == old(db).vms@);
            assert(db.has_vm(payload.name@, tenant_uuid)) by {
                assert(mid.has_vm(payload.name@, tenant_uuid));
            }
        }
    }
    resp_owned(OK, msg3("VM '", payload.name.as_str(), "' created successfully."))
}

/// What a VM delete must tear down: the overlay port and switch names and
/// the hypervisor that hosts the VM.
pub struct VmTeardown {
    pub port_name: String,
    pub switch_name: String,
    pub hypervisor_hostname: String,
}

/// Resolve a VM delete request: the VM row, the names of its overlay port
/// and switch, and its hypervisor's hostname.  Nothing is changed; the
/// caller detaches the port and calls the compute node before committing.
pub fn vm_delete_prepare(db: &Database, payload: &VirtualMachineDelete) -> (r: Result<VmTeardown,
    ApiResponse>)
    requires
        db.wf(),
    ensures
        !db.has_tenant_named(payload.tenant@) ==> r is Err && (r->Err_0).code == BAD_REQUEST && (
        r->Err_0).body@ == "Tenant not found"@,
        db.has_tenant_named(payload.tenant@) && !db.has_vm(
            payload.name@,
            db.tenant_id_of(payload.tenant@),
        ) ==> r is Err && (r->Err_0).code == NOT_FOUND && (r->Err_0).body@ == "VM '"@
            + payload.name@ + "' not found."@,
        db.has_tenant_named(payload.tenant@) && db.has_vm(
            payload.name@,
            db.tenant_id_of(payload.tenant@),
        ) && !db.has_vpc_id(
            db.vm_by_name(payload.name@, db.tenant_id_of(payload.tenant@)).vpc,
            db.tenant_id_of(payload.tenant@),
        ) ==> r is Err && (r->Err_0).code == BAD_REQUEST && (r->Err_0).body@ == "VPC not found"@,
        db.has_tenant_named(payload.tenant@) && db.has_vm(
            payload.name@,
            db.tenant_id_of(payload.tenant@),
        ) && db.has_vpc_id(
            db.vm_by_name(payload.name@, db.tenant_id_of(payload.tenant@)).vpc,
            db.tenant_id_of(payload.tenant@),
        ) && !db.has_hypervisor_id(
            db.vm_by_name(payload.name@, db.tenant_id_of(payload.tenant@)).hypervisor,
        ) ==> r is Err && (r->Err_0).code == BAD_REQUEST,
        db.has_tenant_named(payload.tenant@) && db.has_vm(
            payload.name@,
            db.tenant_id_of(payload.tenant@),
        ) && db.has_vpc_id(
            db.vm_by_name(payload.name@, db.tenant_id_of(payload.tenant@)).vpc,
            db.tenant_id_of(payload.tenant@),
        ) && db.has_hypervisor_id(
            db.vm_by_name(payload.name@, db.tenant_id_of(payload.tenant@)).hypervisor,
        ) ==> r is Ok && {
            let tid = db.tenant_id_of(payload.tenant@);
            let vm = db.vm_by_name(payload.name@, tid);
            let t = r->Ok_0;
            &&& t.port_name@ == spec_port_name(payload.tenant@, payload.name@)
            &&& t.switch_name@ == spec_switch_name(tid, db.vpc_by_id(vm.vpc, tid).name@)
            &&& t.hypervisor_hostname@ == db.hypervisor_by_id(vm.hypervisor).hostname@
        },
{
    let tenant_uuid = match db.get_tenant_by_name(payload.tenant.as_str()) {
        Some(t) => t,
        None => {
            return Err(resp(BAD_REQUEST, "Tenant not found"));
        },
    };
    let vm = match db.get_virtual_machine_by_name(payload.name.as_str(), tenant_uuid) {
        Some(vm) => vm,
        None => {
            return Err(resp_owned(
                NOT_FOUND,
                msg3("VM '", payload.name.as_str(), "' not found."),
            ));
        },
    };
    let vpc_name = match db.get_vpc_by_id(vm.vpc, tenant_uuid) {
        Some(nm) => nm,
        None => {
            return Err(resp(BAD_REQUEST, "VPC not found"));
        },
    };
    let hypervisor_hostname = match db.get_hypervisor_by_id(vm.hypervisor) {
        Some(h) => h,
        None => {
            let body = msg3(
                "Hypervisor '",
                u64_to_string(vm.hypervisor).as_str(),
                "' not found.",
            );
            return Err(resp_owned(BAD_REQUEST, body));
        },
    };
    let port_name = msg3(payload.tenant.as_str(), "-", payload.name.as_str());
    let switch_name = msg3(u64_to_string(tenant_uuid).as_str(), "-", vpc_name.as_str());
    proof {
        let tid = db.tenant_id_of(payload.tenant@);
        let row = db.vm_by_name(payload.name@, tid);
        assert(Database::vm_view_eq(vm, row));
    }
    Ok(VmTeardown { port_name, switch_name, hypervisor_hostname })
}

/// Commit a deleted VM: remove the VM row and its port row.  Run only after
/// the compute node answered 200.
pub fn vm_delete_commit(db: &mut Database, payload: &VirtualMachineDelete) -> (r: ApiResponse)
    requires
        old(db).wf(),
    ensures
        final(db).wf(),
        !old(db).has_tenant_named(payload.tenant@) ==> r.code == BAD_REQUEST && r.body@
            == "Tenant not found"@ && *final(db) == *old(db),
        old(db).has_tenant_named(payload.tenant@) && !old(db).has_vm(
            payload.name@,
            old(db).tenant_id_of(payload.tenant@),
        ) ==> r.code == NOT_FOUND && r.body@ == "VM '"@ + payload.name@ + "' not found."@
            && *final(db) == *old(db),
        old(db).has_tenant_named(payload.tenant@) && old(db).has_vm(
            payload.name@,
            old(db).tenant_id_of(payload.tenant@),
        ) ==> {
            let tid = old(db).tenant_id_of(payload.tenant@);
            &&& r.code == OK
            &&& r.body@ == "VM '"@ + payload.name@ + "' deleted successfully."@
            &&& !final(db).has_vm(payload.name@, tid)
            &&& exists|j: int|
                0 <= j < old(db).vms@.len() && old(db).vms@[j].name@ == payload.name@
                    && old(db).vms@[j].tenant == tid && final(db).vms@ == old(db).vms@.remove(j)
            &&& final(db).tenants == old(db).tenants
            &&& final(db).vpcs == old(db).vpcs
            &&& final(db).ssh_keys == old(db).ssh_keys
            &&& final(db).provider_networks == old(db).provider_networks
            &&& final(db).hypervisors == old(db).hypervisors
            &&& final(db).next_id == old(db).next_id
        },
{
    let tenant_uuid = match db.get_tenant_by_name(payload.tenant.as_str()) {
        Some(t) => t,
        None => {
            return resp(BAD_REQUEST, "Tenant not found");
        },
    };
    let found = db.delete_virtual_machine(payload.name.as_str(), tenant_uuid);
    if !found {
        return resp_owned(NOT_FOUND, msg3("VM '", payload.name.as_str(), "' not found."));
    }
    let port_name = msg3(payload.tenant.as_str(), "-", payload.name.as_str());
    db.delete_port_by_name(port_name.as_str());
    resp_owned(OK, msg3("VM '", payload.name.as_str(), "' deleted successfully."))
}

} // verus!

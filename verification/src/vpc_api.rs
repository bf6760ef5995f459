//! VPC lifecycle.  A VPC maps one-to-one to an overlay logical switch named
//! `"{tenant-id}-{vpc-name}"` and to one DHCP options row keyed by its CIDR.
//! Creation and deletion are split around the overlay work: a validation
//! step decides and hands back what to wire or tear down, the caller performs
//! the OVSDB operations, and a commit step changes the repository.

use vstd::prelude::*;
use crate::db::Database;
use crate::response::{ApiResponse, resp, resp_owned, msg2, msg3, OK, BAD_REQUEST, NOT_FOUND,
    INTERNAL_SERVER_ERROR};
use crate::rows::{Tenant, Vpc, VpcDelete, Port};
use crate::text::{u64_to_string, spec_dec};

verus! {

/// The overlay work a VPC create or delete entails: the logical switch named
/// `"{tenant-id}-{vpc-name}"` and the DHCP options row keyed by the CIDR.
pub struct VpcWiring {
    pub switch_name: String,
    pub cidr: String,
}

/// The create request carries all four required fields.
pub open spec fn spec_vpc_create_fields(payload: Vpc) -> bool {
    payload.name is Some && payload.cidr is Some && payload.nat is Some && payload.tenant is Some
}

/// The name of the logical switch realising a VPC.
pub open spec fn spec_switch_name(tenant: u64, name: Seq<char>) -> Seq<char> {
    spec_dec(tenant as nat) + "-"@ + name
}

/// Validate a VPC create request and hand back the overlay work: the switch
/// to create and the CIDR whose DHCP options row must exist.  Nothing is
/// stored here.
pub fn create_vpc_validate(db: &Database, payload: &Vpc) -> (r: Result<VpcWiring, ApiResponse>)
    requires
        db.wf(),
    ensures
        !spec_vpc_create_fields(*payload) ==> r is Err && (r->Err_0).code == BAD_REQUEST && (
        r->Err_0).body@ == "VPC create request must include a name and CIDR."@,
        spec_vpc_create_fields(*payload) && db.has_vpc_named(
            (payload.name->0)@,
            payload.tenant->0,
        ) ==> r is Err && (r->Err_0).code == BAD_REQUEST && (r->Err_0).body@ == "VPC '"@ + (
        payload.name->0)@ + "' already exists."@,
        spec_vpc_create_fields(*payload) && !db.has_vpc_named(
            (payload.name->0)@,
            payload.tenant->0,
        ) ==> r is Ok && (r->Ok_0).switch_name@ == spec_switch_name(
            payload.tenant->0,
            (payload.name->0)@,
        ) && (r->Ok_0).cidr@ == (payload.cidr->0)@,
{
    match (&payload.name, &payload.cidr, &payload.nat, &payload.tenant) {
        (Some(name), Some(cidr), Some(_nat), Some(tenant)) => {
            if db.get_vpc_by_name(name.as_str(), *tenant).is_some() {
                return Err(resp_owned(
                    BAD_REQUEST,
                    msg3("VPC '", name.as_str(), "' already exists."),
                ));
            }
            let switch_name = msg3(u64_to_string(*tenant).as_str(), "-", name.as_str());
            Ok(VpcWiring { switch_name, cidr: cidr.clone() })
        },
        _ => Err(resp(BAD_REQUEST, "VPC create request must include a name and CIDR.")),
    }
}

/// Store the VPC row once the overlay work succeeded.  A duplicate that
/// appeared meanwhile fails and stores nothing.
pub fn create_vpc_commit(db: &mut Database, payload: &Vpc) -> (r: ApiResponse)
    requires
        old(db).wf(),
    ensures
        final(db).wf(),
        !spec_vpc_create_fields(*payload) ==> r.code == BAD_REQUEST && *final(db) == *old(db),
        spec_vpc_create_fields(*payload) && old(db).has_vpc_named(
            (payload.name->0)@,
            payload.tenant->0,
        ) ==> r.code == INTERNAL_SERVER_ERROR && *final(db) == *old(db),
        spec_vpc_create_fields(*payload) && !old(db).has_vpc_named(
            (payload.name->0)@,
            payload.tenant->0,
        ) && old(db).next_id == u64::MAX ==> r.code == INTERNAL_SERVER_ERROR
            && *final(db) == *old(db),
        spec_vpc_create_fields(*payload) && !old(db).has_vpc_named(
            (payload.name->0)@,
            payload.tenant->0,
        ) && old(db).next_id < u64::MAX ==> {
            &&& r.code == OK
            &&& r.body@ == "VPC '"@ + (payload.name->0)@ + "' created successfully."@
            &&& final(db).vpcs@.len() == old(db).vpcs@.len() + 1
            &&& final(db).vpcs@.subrange(0, old(db).vpcs@.len() as int) == old(db).vpcs@
            &&& final(db).vpcs@.last().name@ == (payload.name->0)@
            &&& final(db).vpcs@.last().cidr@ == (payload.cidr->0)@
            &&& final(db).vpcs@.last().nat == payload.nat->0
            &&& final(db).vpcs@.last().tenant == payload.tenant->0
            &&& final(db).vpcs@.last().id == old(db).next_id
            &&& final(db).same_but_vpcs(*old(db))
            &&& final(db).has_vpc_named((payload.name->0)@, payload.tenant->0)
            &&& final(db).vpc_by_name((payload.name->0)@, payload.tenant->0)
                == final(db).vpcs@.last()
        },
{
    match (&payload.name, &payload.cidr, &payload.nat, &payload.tenant) {
        (Some(name), Some(cidr), Some(nat_flag), Some(tenant)) => {
            if db.get_vpc_by_name(name.as_str(), *tenant).is_some() {
                return resp(INTERNAL_SERVER_ERROR, "Failed to create VPC: VPC already exists");
            }
            match db.create_vpc(name.as_str(), cidr.as_str(), *nat_flag, *tenant) {
                Some(_) => resp_owned(OK, msg3("VPC '", name.as_str(), "' created successfully.")),
                None => resp(INTERNAL_SERVER_ERROR, "Failed to create VPC: no free id"),
            }
        },
        _ => resp(BAD_REQUEST, "VPC create request must include a name and CIDR."),
    }
}

/// Validate a VPC delete request and hand back the teardown work: the switch
/// to delete and the CIDR whose DHCP options row must be removed.  A VPC
/// with port rows cannot be deleted; nothing is changed here.
pub fn delete_vpc_validate(db: &Database, payload: &VpcDelete) -> (r: Result<VpcWiring,
    ApiResponse>)
    requires
        db.wf(),
    ensures
        !db.has_vpc_id(payload.id, payload.tenant) ==> r is Err && (r->Err_0).code == NOT_FOUND
            && (r->Err_0).body@ == "VPC '"@ + spec_dec(payload.id as nat) + "' does not exist."@,
        db.has_vpc_id(payload.id, payload.tenant) && db.has_port_for_vpc(payload.id) ==> r is Err
            && (r->Err_0).code == BAD_REQUEST && (r->Err_0).body@ == "VPC '"@ + spec_dec(
            payload.id as nat,
        ) + "' has ports associated with it. Please delete associated ports first."@,
        db.has_vpc_id(payload.id, payload.tenant) && !db.has_port_for_vpc(payload.id) ==> r is Ok
            && (r->Ok_0).switch_name@ == spec_switch_name(
            payload.tenant,
            db.vpc_by_id(payload.id, payload.tenant).name@,
        ) && (r->Ok_0).cidr@ == db.vpc_by_id(payload.id, payload.tenant).cidr@,
{
    let vpc_name = match db.get_vpc_by_id(payload.id, payload.tenant) {
        Some(nm) => nm,
        None => {
            let body = msg3("VPC '", u64_to_string(payload.id).as_str(), "' does not exist.");
            return Err(resp_owned(NOT_FOUND, body));
        },
    };
    let ports = db.list_ports(payload.id);
    if ports.len() > 0 {
        let body = msg3(
            "VPC '",
            u64_to_string(payload.id).as_str(),
            "' has ports associated with it. Please delete associated ports first.",
        );
        return Err(resp_owned(BAD_REQUEST, body));
    }
    let cidr = match db.get_vpc_cidr(vpc_name.as_str(), payload.tenant) {
        Some(c) => c,
        None => {
            let body = msg3("VPC '", u64_to_string(payload.id).as_str(), "' does not exist.");
            return Err(resp_owned(BAD_REQUEST, body));
        },
    };
    proof {
        let rowi = db.vpc_by_id(payload.id, payload.tenant);
        let ki = choose|k: int|
            0 <= k < db.vpcs@.len() && (#[trigger] db.vpcs@[k]).id == payload.id
                && db.vpcs@[k].tenant == payload.tenant;
        let kn = choose|k: int|
            0 <= k < db.vpcs@.len() && (#[trigger] db.vpcs@[k]).name@ == vpc_name@
                && db.vpcs@[k].tenant == payload.tenant;
        db.lemma_vpc_name_unique(ki, kn);
    }
    let switch_name = msg3(u64_to_string(payload.tenant).as_str(), "-", vpc_name.as_str());
    Ok(VpcWiring { switch_name, cidr })
}

/// Remove the VPC row once the overlay teardown succeeded.  The port check is
/// repeated: a port row that appeared meanwhile still blocks the deletion.
pub fn delete_vpc_commit(db: &mut Database, payload: &VpcDelete) -> (r: ApiResponse)
    requires
        old(db).wf(),
    ensures
        final(db).wf(),
        !old(db).has_vpc_id(payload.id, payload.tenant) ==> r.code == NOT_FOUND && *final(db)
            == *old(db),
        old(db).has_vpc_id(payload.id, payload.tenant) && old(db).has_port_for_vpc(payload.id)
            ==> r.code == BAD_REQUEST && *final(db) == *old(db),
        old(db).has_vpc_id(payload.id, payload.tenant) && !old(db).has_port_for_vpc(payload.id)
            ==> {
            &&& r.code == OK
            &&& r.body@ == "VPC '"@ + spec_dec(payload.id as nat) + "' deleted successfully."@
            &&& exists|j: int|
                0 <= j < old(db).vpcs@.len() && old(db).vpcs@[j].id == payload.id
                    && final(db).vpcs@ == old(db).vpcs@.remove(j)
            &&& final(db).same_but_vpcs(*old(db))
            &&& !final(db).has_vpc_id(payload.id, payload.tenant)
        },
{
    if db.get_vpc_by_id(payload.id, payload.tenant).is_none() {
        let body = msg3("VPC '", u64_to_string(payload.id).as_str(), "' does not exist.");
        return resp_owned(NOT_FOUND, body);
    }
    let ports = db.list_ports(payload.id);
    if ports.len() > 0 {
        let body = msg3(
            "VPC '",
            u64_to_string(payload.id).as_str(),
            "' has ports associated with it. Please delete associated ports first.",
        );
        return resp_owned(BAD_REQUEST, body);
    }
    db.delete_vpc(payload.id);
    proof {
        assert forall|k: int| 0 <= k < db.vpcs@.len() implies !((#[trigger] db.vpcs@[k]).id
            == payload.id && db.vpcs@[k].tenant == payload.tenant) by {
            let j = choose|j: int|
                0 <= j < old(db).vpcs@.len() && old(db).vpcs@[j].id == payload.id && db.vpcs@
                    == old(db).vpcs@.remove(j);
            let k0: int = if k < j {
                k
            } else {
                k + 1
            };
            assert(db.vpcs@[k] == old(db).vpcs@[k0]);
            if db.vpcs@[k].id == payload.id {
                old(db).lemma_vpc_id_unique(k0, j);
                assert(false);
            }
        }
    }
    resp_owned(OK, msg3("VPC '", u64_to_string(payload.id).as_str(), "' deleted successfully."))
}

/// List the VPCs of a tenant given by id or by name.  The flag in the result
/// says whether the caller asked by name (those responses are historically
/// rendered as YAML rather than JSON).
pub fn list_vpcs_handler(db: &Database, payload: &Tenant) -> (r: Result<(Vec<Vpc>, bool),
    ApiResponse>)
    requires
        db.wf(),
    ensures
        payload.name is None && payload.id is None ==> r is Err && (r->Err_0).code == BAD_REQUEST
            && (r->Err_0).body@ == "VPC list request must include a tenant name or UUID."@,
        payload.name is Some && !db.has_tenant_named((payload.name->0)@) ==> r is Err && (
        r->Err_0).code == INTERNAL_SERVER_ERROR,
        payload.name is Some && db.has_tenant_named((payload.name->0)@) ==> r is Ok && (r->Ok_0).1
            && ((r->Ok_0).0@.len() > 0 <==> db.has_vpc_for_tenant(
            db.tenant_id_of((payload.name->0)@),
        )),
        payload.name is None && payload.id is Some ==> r is Ok && !(r->Ok_0).1 && ((
        r->Ok_0).0@.len() > 0 <==> db.has_vpc_for_tenant(payload.id->0)),
{
    match (&payload.name, &payload.id) {
        (Some(name), _) => {
            match db.get_tenant_by_name(name.as_str()) {
                Some(tenant_id) => Ok((db.list_vpcs_by_tenantid(tenant_id), true)),
                None => Err(resp(INTERNAL_SERVER_ERROR, "Error fetching tenant for VPC list")),
            }
        },
        (None, Some(id)) => Ok((db.list_vpcs_by_tenantid(*id), false)),
        (None, None) => Err(resp(BAD_REQUEST, "VPC list request must include a tenant name or UUID.")),
    }
}

/// List the port rows of a VPC given by id.
pub fn list_ports_handler(db: &Database, payload: &Vpc) -> (r: Result<Vec<Port>, ApiResponse>)
    ensures
        payload.id is None ==> r is Err && (r->Err_0).code == BAD_REQUEST && (r->Err_0).body@
            == "VPC delete request must use a valid VPC UUID."@,
        payload.id is Some ==> r is Ok && ((r->Ok_0)@.len() > 0 <==> db.has_port_for_vpc(
            payload.id->0,
        )),
{
    match &payload.id {
        Some(id) => Ok(db.list_ports(*id)),
        None => Err(resp(BAD_REQUEST, "VPC delete request must use a valid VPC UUID.")),
    }
}

} // verus!

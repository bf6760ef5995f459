//! Tenant lifecycle: creation, deletion (blocked while VMs or SSH keys
//! reference the tenant) and listing.

use vstd::prelude::*;
use crate::db::Database;
use crate::response::{ApiResponse, resp, resp_owned, msg3, msg5, OK, BAD_REQUEST, NOT_FOUND,
    INTERNAL_SERVER_ERROR};
use crate::rows::Tenant;
use crate::text::{u64_to_string, spec_dec};

verus! {

/// The tenant a delete request denotes: by id when `id` is given, else by
/// name; `None` when the request names no tenant or none matches.
pub open spec fn spec_tenant_to_delete(db: Database, payload: Tenant) -> Option<u64> {
    if payload.id is Some {
        if db.has_tenant_id(payload.id->0) {
            Some(payload.id->0)
        } else {
            None
        }
    } else if payload.name is Some {
        if db.has_tenant_named((payload.name->0)@) {
            Some(db.tenant_id_of((payload.name->0)@))
        } else {
            None
        }
    } else {
        None
    }
}

/// How a tenant is referred to in delete messages: its id in decimal when the
/// request carried an id, else the requested name.
pub open spec fn spec_tenant_ident(payload: Tenant) -> Seq<char> {
    if payload.id is Some {
        spec_dec(payload.id->0 as nat)
    } else {
        (payload.name->0)@
    }
}

/// Create a tenant: rejected without a name or when the name is taken.
pub fn create_tenant_handler(db: &mut Database, payload: &Tenant) -> (r: ApiResponse)
    requires
        old(db).wf(),
    ensures
        final(db).wf(),
        payload.name is None ==> r.code == BAD_REQUEST && r.body@
            == "Tenant create request must include a name."@ && *final(db) == *old(db),
        payload.name is Some && old(db).has_tenant_named((payload.name->0)@) ==> r.code
            == BAD_REQUEST && r.body@ == "Tenant '"@ + (payload.name->0)@ + "' already exists."@
            && *final(db) == *old(db),
        payload.name is Some && !old(db).has_tenant_named((payload.name->0)@) && old(db).next_id
            == u64::MAX ==> r.code == INTERNAL_SERVER_ERROR && *final(db) == *old(db),
        payload.name is Some && !old(db).has_tenant_named((payload.name->0)@) && old(db).next_id
            < u64::MAX ==> {
            &&& r.code == OK
            &&& r.body@ == "Tenant '"@ + (payload.name->0)@ + "' created successfully."@
            &&& final(db).tenants@.len() == old(db).tenants@.len() + 1
            &&& final(db).tenants@.subrange(0, old(db).tenants@.len() as int) == old(db).tenants@
            &&& final(db).tenants@.last().name@ == (payload.name->0)@
            &&& final(db).tenants@.last().id == old(db).next_id
            &&& final(db).same_but_tenants(*old(db))
            &&& final(db).has_tenant_named((payload.name->0)@)
            &&& final(db).tenant_id_of((payload.name->0)@) == old(db).next_id
        },
{
    match &payload.name {
        Some(name) => {
            let existing = db.get_tenant_by_name(name.as_str());
            if existing.is_some() {
                return resp_owned(
                    BAD_REQUEST,
                    msg3("Tenant '", name.as_str(), "' already exists."),
                );
            }
            match db.create_tenant(name.as_str()) {
                Some(_) => resp_owned(
                    OK,
                    msg3("Tenant '", name.as_str(), "' created successfully."),
                ),
                None => resp(INTERNAL_SERVER_ERROR, "Failed to create tenant: no free id"),
            }
        },
        None => resp(BAD_REQUEST, "Tenant create request must include a name."),
    }
}

/// Delete a tenant by id or name.  The tenant must exist and must have no
/// VMs and no SSH keys; otherwise nothing is changed.
pub fn delete_tenant_handler(db: &mut Database, payload: &Tenant) -> (r: ApiResponse)
    requires
        old(db).wf(),
    ensures
        final(db).wf(),
        payload.id is None && payload.name is None ==> r.code == BAD_REQUEST && r.body@
            == "Tenant delete request must include either 'id' (UUID) or 'name'."@ && *final(db)
            == *old(db),
        (payload.id is Some || payload.name is Some) && spec_tenant_to_delete(*old(db), *payload)
            is None ==> r.code == NOT_FOUND && *final(db) == *old(db),
        spec_tenant_to_delete(*old(db), *payload) is Some && old(db).has_vm_for_tenant(
            spec_tenant_to_delete(*old(db), *payload)->0,
        ) ==> r.code == BAD_REQUEST && *final(db) == *old(db) && r.body@ == "Tenant '"@
            + spec_tenant_ident(*payload) + "' has associated VMs. Please delete associated VMs first."@,
        spec_tenant_to_delete(*old(db), *payload) is Some && !old(db).has_vm_for_tenant(
            spec_tenant_to_delete(*old(db), *payload)->0,
        ) && old(db).has_ssh_key_for_tenant(spec_tenant_to_delete(*old(db), *payload)->0)
            ==> r.code == BAD_REQUEST && *final(db) == *old(db),
        spec_tenant_to_delete(*old(db), *payload) is Some && !old(db).has_vm_for_tenant(
            spec_tenant_to_delete(*old(db), *payload)->0,
        ) && !old(db).has_ssh_key_for_tenant(spec_tenant_to_delete(*old(db), *payload)->0) ==> {
            &&& r.code == OK
            &&& r.body@ == "Tenant '"@ + spec_tenant_ident(*payload) + "' deleted successfully."@
            &&& exists|j: int|
                0 <= j < old(db).tenants@.len() && old(db).tenants@[j].id
                    == spec_tenant_to_delete(*old(db), *payload)->0 && final(db).tenants@ == old(
                    db,
                ).tenants@.remove(j)
            &&& final(db).same_but_tenants(*old(db))
            &&& final(db).next_id == old(db).next_id
            &&& !final(db).has_tenant_id(spec_tenant_to_delete(*old(db), *payload)->0)
        },
{
    let tenant_id_to_delete: u64;
    let tenant_identifier_for_msg: String;

    if let Some(id) = &payload.id {
        match db.get_tenant_by_id(*id) {
            Some(_) => {
                tenant_id_to_delete = *id;
                tenant_identifier_for_msg = u64_to_string(*id);
            },
            None => {
                let body = msg3("Tenant with UUID '", u64_to_string(*id).as_str(), "' not found.");
                return resp_owned(NOT_FOUND, body);
            },
        }
    } else if let Some(name) = &payload.name {
        match db.get_tenant_by_name(name.as_str()) {
            Some(id) => {
                tenant_id_to_delete = id;
                tenant_identifier_for_msg = name.clone();
            },
            None => {
                let body = msg3("Tenant with name '", name.as_str(), "' not found.");
                return resp_owned(NOT_FOUND, body);
            },
        }
    } else {
        return resp(BAD_REQUEST, "Tenant delete request must include either 'id' (UUID) or 'name'.");
    }

    if db.get_virtual_machine_by_tenant(tenant_id_to_delete).is_some() {
        let body = msg3(
            "Tenant '",
            tenant_identifier_for_msg.as_str(),
            "' has associated VMs. Please delete associated VMs first.",
        );
        return resp_owned(BAD_REQUEST, body);
    }

    let ssh_keys = db.list_ssh_pub_keys(tenant_id_to_delete);
    if ssh_keys.len() > 0 {
        let count = u64_to_string(ssh_keys.len() as u64);
        let body = msg5(
            "Tenant '",
            tenant_identifier_for_msg.as_str(),
            "' has associated SSH keys (",
            count.as_str(),
            " found). Please delete associated SSH keys first.",
        );
        return resp_owned(BAD_REQUEST, body);
    }

    db.delete_tenant(tenant_id_to_delete);
    let body = msg3("Tenant '", tenant_identifier_for_msg.as_str(), "' deleted successfully.");
    resp_owned(OK, body)
}

} // verus!

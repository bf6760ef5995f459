//! SSH public key lifecycle: creation (with fingerprint derivation),
//! deletion and listing.  Key names are unique globally.

use vstd::prelude::*;
use crate::db::Database;
use crate::foreign::{openssh_fingerprint, openssh_parses, openssh_fingerprint_of};
use crate::response::{ApiResponse, resp, resp_owned, msg2, msg3, OK, BAD_REQUEST,
    INTERNAL_SERVER_ERROR};
use crate::rows::{SSHKey, Tenant};

verus! {

/// The create request carries all three required fields.
pub open spec fn spec_ssh_create_fields(payload: SSHKey) -> bool {
    payload.name is Some && payload.ssh_pub_key is Some && payload.tenant is Some
}

/// Create an SSH public key row; the fingerprint is derived from the key
/// text.  Rejected when a field is missing or the key does not parse; it
/// fails when the tenant does not exist or the name is taken (the row is
/// never stored in those cases).
pub fn create_ssh_pub_key(db: &mut Database, payload: &SSHKey) -> (r: ApiResponse)
    requires
        old(db).wf(),
    ensures
        final(db).wf(),
        !spec_ssh_create_fields(*payload) ==> r.code == BAD_REQUEST && r.body@
            == "SSH public key create request must include a name and SSH public key."@
            && *final(db) == *old(db),
        spec_ssh_create_fields(*payload) && !openssh_parses((payload.ssh_pub_key->0)@) ==> r.code
            == BAD_REQUEST && r.body@.subrange(0, 24) == "Invalid SSH public key: "@
            && r.body@.len() >= 24 && *final(db) == *old(db),
        spec_ssh_create_fields(*payload) && openssh_parses((payload.ssh_pub_key->0)@)
            && !(old(db).has_tenant_id(payload.tenant->0)) ==> r.code == INTERNAL_SERVER_ERROR
            && *final(db) == *old(db),
        spec_ssh_create_fields(*payload) && openssh_parses((payload.ssh_pub_key->0)@)
            && old(db).has_tenant_id(payload.tenant->0)
            && old(db).has_ssh_key_named((payload.name->0)@) ==> r.code == INTERNAL_SERVER_ERROR
            && *final(db) == *old(db),
        spec_ssh_create_fields(*payload) && openssh_parses((payload.ssh_pub_key->0)@)
            && old(db).has_tenant_id(payload.tenant->0)
            && !old(db).has_ssh_key_named((payload.name->0)@)
            && old(db).next_id == u64::MAX ==> r.code == INTERNAL_SERVER_ERROR
            && *final(db) == *old(db),
        spec_ssh_create_fields(*payload) && openssh_parses((payload.ssh_pub_key->0)@)
            && old(db).has_tenant_id(payload.tenant->0)
            && !old(db).has_ssh_key_named((payload.name->0)@)
            && old(db).next_id < u64::MAX ==> {
            &&& r.code == OK
            &&& r.body@ == "SSH public key '"@ + (payload.name->0)@ + "' created successfully."@
            &&& final(db).ssh_keys@.len() == old(db).ssh_keys@.len() + 1
            &&& final(db).ssh_keys@.subrange(0, old(db).ssh_keys@.len() as int)
                == old(db).ssh_keys@
            &&& final(db).ssh_keys@.last().name@ == (payload.name->0)@
            &&& final(db).ssh_keys@.last().ssh_pub_key@ == (payload.ssh_pub_key->0)@
            &&& final(db).ssh_keys@.last().fingerprint@ == openssh_fingerprint_of(
                (payload.ssh_pub_key->0)@,
            )
            &&& final(db).ssh_keys@.last().tenant == payload.tenant->0
            &&& final(db).same_but_ssh_keys(*old(db))
            &&& final(db).has_ssh_key_named((payload.name->0)@)
        },
{
    match (&payload.name, &payload.ssh_pub_key, &payload.tenant) {
        (Some(name), Some(ssh_pub_key), Some(tenant)) => {
            let fingerprint = match openssh_fingerprint(ssh_pub_key.as_str()) {
                Ok(f) => f,
                Err(e) => {
                    let body = msg2("Invalid SSH public key: ", e.as_str());
                    proof {
                        reveal_strlit("Invalid SSH public key: ");
                        assert(body@.subrange(0, 24) =~= "Invalid SSH public key: "@);
                    }
                    return resp_owned(BAD_REQUEST, body);
                },
            };
            if db.get_tenant_by_id(*tenant).is_none() {
                return resp(
                    INTERNAL_SERVER_ERROR,
                    "Failed to create SSH public key: tenant not found",
                );
            }
            if db.get_ssh_key(name.as_str()).is_some() {
                return resp(
                    INTERNAL_SERVER_ERROR,
                    "Failed to create SSH public key: key name already in use",
                );
            }
            match db.create_ssh_pub_key(
                name.as_str(),
                ssh_pub_key.as_str(),
                fingerprint.as_str(),
                *tenant,
            ) {
                Some(_) => resp_owned(
                    OK,
                    msg3("SSH public key '", name.as_str(), "' created successfully."),
                ),
                None => resp(INTERNAL_SERVER_ERROR, "Failed to create SSH public key: no free id"),
            }
        },
        _ => resp(
            BAD_REQUEST,
            "SSH public key create request must include a name and SSH public key.",
        ),
    }
}

/// Delete an SSH public key by name.  As with the stored rows, deletion of an
/// absent name is reported as success.
pub fn delete_ssh_pub_key(db: &mut Database, payload: &SSHKey) -> (r: ApiResponse)
    requires
        old(db).wf(),
    ensures
        final(db).wf(),
        payload.name is None ==> r.code == BAD_REQUEST && r.body@
            == "SSH public key delete request must use a valid SSH public key name."@ && *final(db)
            == *old(db),
        payload.name is Some ==> {
            &&& r.code == OK
            &&& r.body@ == "SSH public key with name '"@ + (payload.name->0)@
                + "' deleted successfully."@
            &&& !final(db).has_ssh_key_named((payload.name->0)@)
            &&& final(db).same_but_ssh_keys(*old(db))
            &&& (!old(db).has_ssh_key_named((payload.name->0)@) ==> *final(db) == *old(db))
            &&& (old(db).has_ssh_key_named((payload.name->0)@) ==> exists|j: int|
                0 <= j < old(db).ssh_keys@.len() && old(db).ssh_keys@[j].name@ == (
                payload.name->0)@ && final(db).ssh_keys@ == old(db).ssh_keys@.remove(j))
        },
{
    match &payload.name {
        Some(name) => {
            db.delete_ssh_pub_key(name.as_str());
            resp_owned(
                OK,
                msg3("SSH public key with name '", name.as_str(), "' deleted successfully."),
            )
        },
        None => resp(
            BAD_REQUEST,
            "SSH public key delete request must use a valid SSH public key name.",
        ),
    }
}

/// List the SSH public keys of a tenant given by id.
pub fn list_ssh_pub_keys(db: &Database, payload: &Tenant) -> (r: Result<Vec<SSHKey>, ApiResponse>)
    ensures
        payload.id is None ==> r is Err && (r->Err_0).code == BAD_REQUEST && (r->Err_0).body@
            == "SSH public key list request must include tenant's UUID."@,
        payload.id is Some ==> r is Ok && ((r->Ok_0)@.len() > 0 <==> db.has_ssh_key_for_tenant(
            payload.id->0,
        )),
{
    match &payload.id {
        Some(id) => Ok(db.list_ssh_pub_keys(*id)),
        None => Err(resp(BAD_REQUEST, "SSH public key list request must include tenant's UUID.")),
    }
}

} // verus!

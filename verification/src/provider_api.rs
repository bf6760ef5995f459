//! Provider network lifecycle: VLAN-tagged external networks with a name,
//! a VLAN id in `[1, 4094]` and a subnet.

use vstd::prelude::*;
use crate::db::Database;
use crate::response::{ApiResponse, resp, resp_owned, msg3, OK, BAD_REQUEST,
    INTERNAL_SERVER_ERROR};
use crate::rows::{ProviderNetwork, ProviderNetworkDelete};
use crate::text::spec_is_blank;

verus! {

/// A provider network create request is valid when the name and subnet carry
/// more than whitespace and the VLAN id lies in `[1, 4094]`.
pub open spec fn spec_provider_network_valid(payload: ProviderNetwork) -> bool {
    &&& !spec_is_blank(payload.name@)
    &&& 1 <= payload.vlan <= 4094
    &&& !spec_is_blank(payload.subnet@)
}

/// Create a provider network.  The VLAN id must lie in `[1, 4094]` and the
/// name and subnet must be non-empty; a taken name fails and stores nothing.
pub fn create_provider_network_handler(db: &mut Database, payload: &ProviderNetwork) -> (r:
    ApiResponse)
    requires
        old(db).wf(),
    ensures
        final(db).wf(),
        !spec_provider_network_valid(*payload) ==> r.code == BAD_REQUEST && r.body@
            == "Provider network must include a non-empty name and a valid VLAN (1-4094)."@
            && *final(db) == *old(db),
        spec_provider_network_valid(*payload) && old(db).has_provider_network(payload.name@)
            ==> r.code == INTERNAL_SERVER_ERROR && *final(db) == *old(db),
        spec_provider_network_valid(*payload) && !old(db).has_provider_network(payload.name@)
            ==> {
            &&& r.code == OK
            &&& r.body@ == "Provider network '"@ + payload.name@ + "' created successfully."@
            &&& final(db).provider_networks@.len() == old(db).provider_networks@.len() + 1
            &&& final(db).provider_networks@.subrange(
                0,
                old(db).provider_networks@.len() as int,
            ) == old(db).provider_networks@
            &&& final(db).provider_networks@.last().name@ == payload.name@
            &&& final(db).provider_networks@.last().vlan == payload.vlan
            &&& final(db).provider_networks@.last().subnet@ == payload.subnet@
            &&& final(db).same_but_provider_networks(*old(db))
            &&& final(db).has_provider_network(payload.name@)
            &&& final(db).provider_network_by_name(payload.name@).vlan == payload.vlan
        },
{
    if crate::text::is_blank(payload.name.as_str()) || payload.vlan < 1 || payload.vlan > 4094
        || crate::text::is_blank(payload.subnet.as_str()) {
        return resp(
            BAD_REQUEST,
            "Provider network must include a non-empty name and a valid VLAN (1-4094).",
        );
    }
    if db.get_provider_network(payload.name.as_str()).is_some() {
        return resp(
            INTERNAL_SERVER_ERROR,
            "Failed to create provider network: name already in use",
        );
    }
    db.create_provider_network(payload.name.as_str(), payload.vlan, payload.subnet.as_str());
    resp_owned(OK, msg3("Provider network '", payload.name.as_str(), "' created successfully."))
}

/// Delete a provider network by name.  Deletion of an absent name is
/// reported as success.
pub fn delete_provider_network_handler(db: &mut Database, payload: &ProviderNetworkDelete) -> (r:
    ApiResponse)
    requires
        old(db).wf(),
    ensures
        final(db).wf(),
        spec_is_blank(payload.name@) ==> r.code == BAD_REQUEST && r.body@
            == "Provider network delete request must include a non-empty name."@ && *final(db)
            == *old(db),
        !spec_is_blank(payload.name@) ==> {
            &&& r.code == OK
            &&& r.body@ == "Provider network '"@ + payload.name@ + "' deleted successfully."@
            &&& !final(db).has_provider_network(payload.name@)
            &&& final(db).same_but_provider_networks(*old(db))
            &&& (!old(db).has_provider_network(payload.name@) ==> *final(db) == *old(db))
            &&& (old(db).has_provider_network(payload.name@) ==> exists|j: int|
                0 <= j < old(db).provider_networks@.len()
                    && old(db).provider_networks@[j].name@ == payload.name@
                    && final(db).provider_networks@ == old(db).provider_networks@.remove(j))
        },
{
    if crate::text::is_blank(payload.name.as_str()) {
        return resp(BAD_REQUEST, "Provider network delete request must include a non-empty name.");
    }
    db.delete_provider_network(payload.name.as_str());
    resp_owned(OK, msg3("Provider network '", payload.name.as_str(), "' deleted successfully."))
}

} // verus!

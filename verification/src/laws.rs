//! Cross-cutting guarantees of the control plane, proved once over the
//! repository model.  Each law quantifies over all repositories and inputs;
//! the scenario-level checks live in the test suite.

use vstd::prelude::*;
use crate::db::Database;

verus! {

/// A created VM has exactly one row under its `(tenant, name)` pair: one
/// exists, and any two matching indices are the same.
pub proof fn lemma_created_vm_row_unique(db: Database, name: Seq<char>, tenant: u64)
    requires
        db.wf(),
        db.has_vm(name, tenant),
    ensures
        exists|j: int|
            {
                &&& 0 <= j < db.vms@.len()
                &&& (#[trigger] db.vms@[j]).name@ == name
                &&& db.vms@[j].tenant == tenant
                &&& forall|k: int|
                    0 <= k < db.vms@.len() && (#[trigger] db.vms@[k]).name@ == name
                        && db.vms@[k].tenant == tenant ==> k == j
            },
{
    let j = choose|j: int|
        0 <= j < db.vms@.len() && (#[trigger] db.vms@[j]).name@ == name && db.vms@[j].tenant
            == tenant;
    assert forall|k: int|
        0 <= k < db.vms@.len() && (#[trigger] db.vms@[k]).name@ == name && db.vms@[k].tenant
            == tenant implies k == j by {
        db.lemma_vm_unique(k, j);
    }
    assert(0 <= j < db.vms@.len() && (db.vms@[j]).name@ == name && db.vms@[j].tenant == tenant
        && forall|k: int|
        0 <= k < db.vms@.len() && (#[trigger] db.vms@[k]).name@ == name && db.vms@[k].tenant
            == tenant ==> k == j);
}

/// Round trip of a tenant: after a successful create of a fresh name the
/// lookup finds exactly the new id, and after the subsequent delete of that
/// id the lookup finds nothing — and since the delete keeps the id spring
/// intact, re-creating the same name meets the create path's success
/// conditions again.  `pre` is the repository before the create, `mid` after
/// it (as the create's contract describes it), `post` after the delete of
/// the created id (as the delete's contract describes it).
pub proof fn lemma_tenant_round_trip(pre: Database, mid: Database, post: Database, name: Seq<char>)
    requires
        pre.wf(),
        mid.wf(),
        !pre.has_tenant_named(name),
        mid.tenants@.len() == pre.tenants@.len() + 1,
        mid.tenants@.subrange(0, pre.tenants@.len() as int) == pre.tenants@,
        mid.tenants@.last().name@ == name,
        mid.tenants@.last().id == pre.next_id,
        mid.next_id == pre.next_id + 1,
        post.next_id == mid.next_id,
        exists|j: int|
            0 <= j < mid.tenants@.len() && mid.tenants@[j].id == pre.next_id && post.tenants@
                == mid.tenants@.remove(j),
    ensures
        mid.has_tenant_named(name),
        mid.tenant_id_of(name) == pre.next_id,
        !post.has_tenant_named(name),
        post.next_id == pre.next_id + 1,
{
    let newlen = mid.tenants@.len() as int;
    assert(mid.has_tenant_named(name)) by {
        assert(mid.tenants@[newlen - 1].name@ == name);
    }
    let k = choose|k: int|
        0 <= k < mid.tenants@.len() && (#[trigger] mid.tenants@[k]).name@ == name;
    mid.lemma_tenant_name_unique(k, newlen - 1);
    let j = choose|j: int|
        0 <= j < mid.tenants@.len() && mid.tenants@[j].id == pre.next_id && post.tenants@
            == mid.tenants@.remove(j);
    assert(mid.tenants@[newlen - 1].id == pre.next_id);
    mid.lemma_tenant_id_unique(j, newlen - 1);
    assert(post.tenants@ =~= pre.tenants@);
    if post.has_tenant_named(name) {
        let t = choose|t: int|
            0 <= t < post.tenants@.len() && (#[trigger] post.tenants@[t]).name@ == name;
        assert(pre.tenants@[t].name@ == name);
    }
}

/// Round trip of a VPC and its DHCP options row: the DHCP options are keyed
/// by the VPC's CIDR, so after a successful create of a VPC with CIDR `cidr`
/// the teardown that a delete of the created id prescribes names exactly
/// `cidr` — what was created for the VPC is what is removed with it.  `pre`
/// is the repository before the create, `mid` after it (as the create's
/// contract describes it).
pub proof fn lemma_vpc_dhcp_round_trip(
    pre: Database,
    mid: Database,
    name: Seq<char>,
    cidr: Seq<char>,
    tenant: u64,
)
    requires
        pre.wf(),
        mid.wf(),
        mid.vpcs@.len() == pre.vpcs@.len() + 1,
        mid.vpcs@.subrange(0, pre.vpcs@.len() as int) == pre.vpcs@,
        mid.vpcs@.last().id == pre.next_id,
        mid.vpcs@.last().name@ == name,
        mid.vpcs@.last().cidr@ == cidr,
        mid.vpcs@.last().tenant == tenant,
    ensures
        mid.has_vpc_id(pre.next_id, tenant),
        mid.vpc_by_id(pre.next_id, tenant).cidr@ == cidr,
        mid.vpc_by_id(pre.next_id, tenant).name@ == name,
{
    let newlen = mid.vpcs@.len() as int;
    assert(mid.has_vpc_id(pre.next_id, tenant)) by {
        assert(mid.vpcs@[newlen - 1].id == pre.next_id && mid.vpcs@[newlen - 1].tenant == tenant);
    }
    let k = choose|k: int|
        0 <= k < mid.vpcs@.len() && (#[trigger] mid.vpcs@[k]).id == pre.next_id
            && mid.vpcs@[k].tenant == tenant;
    mid.lemma_vpc_id_unique(k, newlen - 1);
}

/// Creating and then deleting a VM never touches the hypervisor rows, and a
/// stats push writes counters computed from the push alone; so after the
/// next push the hypervisor counters stand exactly where they would have
/// stood had the VM never existed.  `pre` is the repository before the
/// create, `mid` after the create's commit, `post` after the delete's
/// commit (as the two contracts describe them).
pub proof fn lemma_vm_lifecycle_keeps_hypervisors(pre: Database, mid: Database, post: Database)
    requires
        mid.hypervisors == pre.hypervisors,
        post.hypervisors == mid.hypervisors,
    ensures
        post.hypervisors == pre.hypervisors,
        post.hypervisors@ =~= pre.hypervisors@,
{
}

/// An `l2-tenant` VM create leaves a port row named
/// `"{tenant-name}-{vm-name}"` that references the VM's VPC — the repository
/// reflection of the overlay port the wiring created on the VPC's switch.
/// `pre` is the repository before the commit, `post` after it (as the
/// commit's contract describes it).
pub proof fn lemma_l2_tenant_port_row(
    pre: Database,
    post: Database,
    tenant_name: Seq<char>,
    vm_name: Seq<char>,
    vpc_id: u64,
)
    requires
        post.ports@.len() == pre.ports@.len() + 1,
        post.ports@.subrange(0, pre.ports@.len() as int) == pre.ports@,
        post.ports@.last().name@ == crate::vm_api::spec_port_name(tenant_name, vm_name),
        post.ports@.last().vpc == vpc_id,
    ensures
        exists|p: int|
            0 <= p < post.ports@.len() && (#[trigger] post.ports@[p]).name@
                == crate::vm_api::spec_port_name(tenant_name, vm_name) && post.ports@[p].vpc
                == vpc_id,
        post.has_port_for_vpc(vpc_id),
{
    let newlen = post.ports@.len() as int;
    assert(post.ports@[newlen - 1].name@ == crate::vm_api::spec_port_name(tenant_name, vm_name)
        && post.ports@[newlen - 1].vpc == vpc_id);
}

} // verus!

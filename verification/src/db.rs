//! The typed repository: tenants, VPCs, ports, SSH keys, provider networks,
//! hypervisors and virtual machines, with the uniqueness invariants the
//! control plane relies on (unique tenant names, unique `(tenant, name)`
//! pairs for VPCs and VMs, unique hostnames, and so on).

use vstd::prelude::*;
use crate::rows::{
    TenantRow, VpcRow, SshKeyRow, SSHKey, Port, ProviderNetwork, HypervisorScheduler,
    VirtualMachine,
};
use crate::text::str_eq;

verus! {

/// The repository. Rows are kept in insertion order; `next_id` is the next
/// identifier to hand out, and every stored id is below it.
pub struct Database {
    pub tenants: Vec<TenantRow>,
    pub vpcs: Vec<VpcRow>,
    pub ports: Vec<Port>,
    pub ssh_keys: Vec<SshKeyRow>,
    pub provider_networks: Vec<ProviderNetwork>,
    pub hypervisors: Vec<HypervisorScheduler>,
    pub vms: Vec<VirtualMachine>,
    pub next_id: u64,
}

impl Database {
    /// Uniqueness of tenant ids and names.
    pub open spec fn tenants_wf(self) -> bool {
        &&& forall|i: int, j: int|
            0 <= i < j < self.tenants@.len() ==> (#[trigger] self.tenants@[i]).id != (
            #[trigger] self.tenants@[j]).id && self.tenants@[i].name@ != self.tenants@[j].name@
        &&& forall|i: int|
            0 <= i < self.tenants@.len() ==> (#[trigger] self.tenants@[i]).id < self.next_id
    }

    /// Uniqueness of VPC ids and of `(tenant, name)` pairs.
    pub open spec fn vpcs_wf(self) -> bool {
        &&& forall|i: int, j: int|
            0 <= i < j < self.vpcs@.len() ==> (#[trigger] self.vpcs@[i]).id != (
            #[trigger] self.vpcs@[j]).id && !(self.vpcs@[i].tenant == self.vpcs@[j].tenant
                && self.vpcs@[i].name@ == self.vpcs@[j].name@)
        &&& forall|i: int| 0 <= i < self.vpcs@.len() ==> (#[trigger] self.vpcs@[i]).id < self.next_id
    }

    /// Uniqueness of port ids.
    pub open spec fn ports_wf(self) -> bool {
        &&& forall|i: int, j: int|
            0 <= i < j < self.ports@.len() ==> (#[trigger] self.ports@[i]).id != (
            #[trigger] self.ports@[j]).id
        &&& forall|i: int| 0 <= i < self.ports@.len() ==> (#[trigger] self.ports@[i]).id < self.next_id
    }

    /// Uniqueness of SSH key ids and (globally) of their names.
    pub open spec fn ssh_keys_wf(self) -> bool {
        &&& forall|i: int, j: int|
            0 <= i < j < self.ssh_keys@.len() ==> (#[trigger] self.ssh_keys@[i]).id != (
            #[trigger] self.ssh_keys@[j]).id && self.ssh_keys@[i].name@ != self.ssh_keys@[j].name@
        &&& forall|i: int|
            0 <= i < self.ssh_keys@.len() ==> (#[trigger] self.ssh_keys@[i]).id < self.next_id
    }

    /// Uniqueness of provider network names.
    pub open spec fn provider_networks_wf(self) -> bool {
        forall|i: int, j: int|
            0 <= i < j < self.provider_networks@.len() ==> (
            #[trigger] self.provider_networks@[i]).name@ != (
            #[trigger] self.provider_networks@[j]).name@
    }

    /// Uniqueness of hypervisor ids and hostnames.
    pub open spec fn hypervisors_wf(self) -> bool {
        &&& forall|i: int, j: int|
            0 <= i < j < self.hypervisors@.len() ==> (#[trigger] self.hypervisors@[i]).id != (
            #[trigger] self.hypervisors@[j]).id && self.hypervisors@[i].hostname@
                != self.hypervisors@[j].hostname@
        &&& forall|i: int|
            0 <= i < self.hypervisors@.len() ==> (#[trigger] self.hypervisors@[i]).id < self.next_id
    }

    /// Uniqueness of VM `(tenant, name)` pairs.
    pub open spec fn vms_wf(self) -> bool {
        forall|i: int, j: int|
            0 <= i < j < self.vms@.len() ==> !((#[trigger] self.vms@[i]).tenant == (
            #[trigger] self.vms@[j]).tenant && self.vms@[i].name@ == self.vms@[j].name@)
    }

    /// The repository invariant: every constructor establishes it and every
    /// method preserves it.
    pub open spec fn wf(self) -> bool {
        &&& self.tenants_wf()
        &&& self.vpcs_wf()
        &&& self.ports_wf()
        &&& self.ssh_keys_wf()
        &&& self.provider_networks_wf()
        &&& self.hypervisors_wf()
        &&& self.vms_wf()
    }

    /// All tables other than `tenants` are those of `other`.
    pub open spec fn same_but_tenants(self, other: Database) -> bool {
        &&& self.vpcs == other.vpcs
        &&& self.ports == other.ports
        &&& self.ssh_keys == other.ssh_keys
        &&& self.provider_networks == other.provider_networks
        &&& self.hypervisors == other.hypervisors
        &&& self.vms == other.vms
    }

    /// All tables other than `vpcs` are those of `other`.
    pub open spec fn same_but_vpcs(self, other: Database) -> bool {
        &&& self.tenants == other.tenants
        &&& self.ports == other.ports
        &&& self.ssh_keys == other.ssh_keys
        &&& self.provider_networks == other.provider_networks
        &&& self.hypervisors == other.hypervisors
        &&& self.vms == other.vms
    }

    /// All tables other than `ssh_keys` are those of `other`.
    pub open spec fn same_but_ssh_keys(self, other: Database) -> bool {
        &&& self.tenants == other.tenants
        &&& self.vpcs == other.vpcs
        &&& self.ports == other.ports
        &&& self.provider_networks == other.provider_networks
        &&& self.hypervisors == other.hypervisors
        &&& self.vms == other.vms
    }

    /// All tables other than `provider_networks` are those of `other`.
    pub open spec fn same_but_provider_networks(self, other: Database) -> bool {
        &&& self.tenants == other.tenants
        &&& self.vpcs == other.vpcs
        &&& self.ports == other.ports
        &&& self.ssh_keys == other.ssh_keys
        &&& self.hypervisors == other.hypervisors
        &&& self.vms == other.vms
        &&& self.next_id == other.next_id
    }

    /// All tables other than `hypervisors` are those of `other`.
    pub open spec fn same_but_hypervisors(self, other: Database) -> bool {
        &&& self.tenants == other.tenants
        &&& self.vpcs == other.vpcs
        &&& self.ports == other.ports
        &&& self.ssh_keys == other.ssh_keys
        &&& self.provider_networks == other.provider_networks
        &&& self.vms == other.vms
    }

    /// All tables other than `vms` and `ports` are those of `other`: a VM
    /// lifecycle change may touch both.
    pub open spec fn same_but_vms_ports(self, other: Database) -> bool {
        &&& self.tenants == other.tenants
        &&& self.vpcs == other.vpcs
        &&& self.ssh_keys == other.ssh_keys
        &&& self.provider_networks == other.provider_networks
        &&& self.hypervisors == other.hypervisors
    }

    /// All tables other than `vms` are those of `other`.
    pub open spec fn same_but_vms(self, other: Database) -> bool {
        &&& self.same_but_vms_ports(other)
        &&& self.ports == other.ports
        &&& self.next_id == other.next_id
    }

    /// An empty repository.
    pub fn new() -> (r: Database)
        ensures
            r.wf(),
            r.tenants@.len() == 0,
            r.vpcs@.len() == 0,
            r.ports@.len() == 0,
            r.ssh_keys@.len() == 0,
            r.provider_networks@.len() == 0,
            r.hypervisors@.len() == 0,
            r.vms@.len() == 0,
            r.next_id == 0,
    {
        Database {
            tenants: Vec::new(),
            vpcs: Vec::new(),
            ports: Vec::new(),
            ssh_keys: Vec::new(),
            provider_networks: Vec::new(),
            hypervisors: Vec::new(),
            vms: Vec::new(),
            next_id: 0,
        }
    }

    /// There is a tenant row named `name`.
    pub open spec fn has_tenant_named(self, name: Seq<char>) -> bool {
        exists|i: int| 0 <= i < self.tenants@.len() && (#[trigger] self.tenants@[i]).name@ == name
    }

    /// The id of the (by `tenants_wf` unique) tenant row named `name`.
    pub open spec fn tenant_id_of(self, name: Seq<char>) -> u64 {
        self.tenants@[choose|i: int|
            0 <= i < self.tenants@.len() && (#[trigger] self.tenants@[i]).name@ == name].id
    }

    /// There is a tenant row with id `id`.
    pub open spec fn has_tenant_id(self, id: u64) -> bool {
        exists|i: int| 0 <= i < self.tenants@.len() && (#[trigger] self.tenants@[i]).id == id
    }

    /// The name of the (unique) tenant row with id `id`.
    pub open spec fn tenant_name_of(self, id: u64) -> Seq<char> {
        self.tenants@[choose|i: int|
            0 <= i < self.tenants@.len() && (#[trigger] self.tenants@[i]).id == id].name@
    }

    /// Two tenant rows carrying the same name are the same row.
    pub proof fn lemma_tenant_name_unique(self, i: int, k: int)
        requires
            self.tenants_wf(),
            0 <= i < self.tenants@.len(),
            0 <= k < self.tenants@.len(),
            self.tenants@[i].name@ == self.tenants@[k].name@,
        ensures
            i == k,
    {
        if i < k {
            assert(self.tenants@[i].name@ != self.tenants@[k].name@);
        } else if k < i {
            assert(self.tenants@[k].name@ != self.tenants@[i].name@);
        }
    }

    /// Two tenant rows carrying the same id are the same row.
    pub proof fn lemma_tenant_id_unique(self, i: int, k: int)
        requires
            self.tenants_wf(),
            0 <= i < self.tenants@.len(),
            0 <= k < self.tenants@.len(),
            self.tenants@[i].id == self.tenants@[k].id,
        ensures
            i == k,
    {
        if i < k {
            assert(self.tenants@[i].id != self.tenants@[k].id);
        } else if k < i {
            assert(self.tenants@[k].id != self.tenants@[i].id);
        }
    }

    /// Look a tenant up by name.
    pub fn get_tenant_by_name(&self, name: &str) -> (r: Option<u64>)
        requires
            self.tenants_wf(),
        ensures
            r is Some <==> self.has_tenant_named(name@),
            r matches Some(id) ==> id == self.tenant_id_of(name@) && self.has_tenant_id(id),
    {
        let n = self.tenants.len();
        let mut i: usize = 0;
        while i < n
            invariant
                self.tenants_wf(),
                n == self.tenants@.len(),
                0 <= i <= n,
                forall|j: int| 0 <= j < i ==> (#[trigger] self.tenants@[j]).name@ != name@,
            decreases n - i,
        {
            if str_eq(self.tenants[i].name.as_str(), name) {
                proof {
                    assert(self.has_tenant_named(name@)) by {
                        assert(self.tenants@[i as int].name@ == name@);
                    }
                    let k = choose|k: int|
                        0 <= k < self.tenants@.len() && (#[trigger] self.tenants@[k]).name@
                            == name@;
                    self.lemma_tenant_name_unique(i as int, k);
                    assert(self.has_tenant_id(self.tenants@[i as int].id)) by {
                        assert(self.tenants@[i as int].id == self.tenants@[i as int].id);
                    }
                }
                return Some(self.tenants[i].id);
            }
            i = i + 1;
        }
        None
    }

    /// Look a tenant up by id.
    pub fn get_tenant_by_id(&self, id: u64) -> (r: Option<String>)
        requires
            self.tenants_wf(),
        ensures
            r is Some <==> self.has_tenant_id(id),
            r matches Some(nm) ==> nm@ == self.tenant_name_of(id),
    {
        let n = self.tenants.len();
        let mut i: usize = 0;
        while i < n
            invariant
                self.tenants_wf(),
                n == self.tenants@.len(),
                0 <= i <= n,
                forall|j: int| 0 <= j < i ==> (#[trigger] self.tenants@[j]).id != id,
            decreases n - i,
        {
            if self.tenants[i].id == id {
                let nm = self.tenants[i].name.clone();
                proof {
                    assert(self.has_tenant_id(id)) by {
                        assert(self.tenants@[i as int].id == id);
                    }
                    let k = choose|k: int|
                        0 <= k < self.tenants@.len() && (#[trigger] self.tenants@[k]).id == id;
                    self.lemma_tenant_id_unique(i as int, k);
                }
                return Some(nm);
            }
            i = i + 1;
        }
        None
    }

    /// Insert a tenant row. Fails (with `None`) only when the id space is
    /// exhausted.
    pub fn create_tenant(&mut self, name: &str) -> (r: Option<u64>)
        requires
            old(self).wf(),
            !old(self).has_tenant_named(name@),
        ensures
            final(self).wf(),
            r is None <==> old(self).next_id == u64::MAX,
            r is None ==> *final(self) == *old(self),
            r matches Some(id) ==> {
                &&& id == old(self).next_id
                &&& final(self).next_id == old(self).next_id + 1
                &&& final(self).tenants@.len() == old(self).tenants@.len() + 1
                &&& final(self).tenants@.subrange(0, old(self).tenants@.len() as int) == old(
                    self).tenants@
                &&& final(self).tenants@.last().id == id
                &&& final(self).tenants@.last().name@ == name@
                &&& final(self).same_but_tenants(*old(self))
                &&& final(self).has_tenant_named(name@)
                &&& final(self).tenant_id_of(name@) == id
            },
    {
        if self.next_id == u64::MAX {
            return None;
        }
        let id = self.next_id;
        self.next_id = self.next_id + 1;
        let row = TenantRow { id, name: name.to_owned() };
        self.tenants.push(row);
        proof {
            let newlen = self.tenants@.len() as int;
            assert(self.tenants@.subrange(0, old(self).tenants@.len() as int) =~= old(
                self,
            ).tenants@);
            assert(self.has_tenant_named(name@)) by {
                assert(self.tenants@[newlen - 1].name@ == name@);
            }
            assert(self.tenants_wf()) by {
                assert forall|a: int, b: int| 0 <= a < b < newlen implies (
                #[trigger] self.tenants@[a]).id != (#[trigger] self.tenants@[b]).id
                    && self.tenants@[a].name@ != self.tenants@[b].name@ by {
                    if b < newlen - 1 {
                        assert(self.tenants@[a] == old(self).tenants@[a]);
                        assert(self.tenants@[b] == old(self).tenants@[b]);
                    } else {
                        assert(self.tenants@[a] == old(self).tenants@[a]);
                        assert(old(self).tenants@[a].id < old(self).next_id);
                        assert(old(self).tenants@[a].name@ != name@);
                    }
                }
            }
            let k = choose|k: int|
                0 <= k < self.tenants@.len() && (#[trigger] self.tenants@[k]).name@ == name@;
            self.lemma_tenant_name_unique(newlen - 1, k);
        }
        Some(id)
    }

    /// Remove the tenant row with id `id`, if any.
    pub fn delete_tenant(&mut self, id: u64) -> (found: bool)
        requires
            old(self).wf(),
        ensures
            final(self).wf(),
            found <==> old(self).has_tenant_id(id),
            !found ==> *final(self) == *old(self),
            found ==> {
                &&& exists|j: int|
                    0 <= j < old(self).tenants@.len() && old(self).tenants@[j].id == id
                        && final(self).tenants@ == old(self).tenants@.remove(j)
                &&& final(self).same_but_tenants(*old(self))
                &&& final(self).next_id == old(self).next_id
                &&& !final(self).has_tenant_id(id)
            },
    {
        let n = self.tenants.len();
        let mut i: usize = 0;
        while i < n
            invariant
                *self == *old(self),
                self.wf(),
                n == self.tenants@.len(),
                0 <= i <= n,
                forall|j: int| 0 <= j < i ==> (#[trigger] self.tenants@[j]).id != id,
            decreases n - i,
        {
            if self.tenants[i].id == id {
                self.tenants.remove(i);
                proof {
                    let oldt = old(self).tenants@;
                    assert(oldt[i as int].id == id && self.tenants@ == oldt.remove(i as int));
                    assert forall|k: int| 0 <= k < self.tenants@.len() implies (
                    #[trigger] self.tenants@[k]).id != id by {
                        if k < i {
                            assert(self.tenants@[k] == oldt[k]);
                        } else {
                            assert(self.tenants@[k] == oldt[k + 1]);
                            assert(oldt[i as int].id != oldt[k + 1].id);
                        }
                    }
                    assert(self.tenants_wf()) by {
                        assert forall|a: int, b: int|
                            0 <= a < b < self.tenants@.len() implies (
                        #[trigger] self.tenants@[a]).id != (#[trigger] self.tenants@[b]).id
                            && self.tenants@[a].name@ != self.tenants@[b].name@ by {
                            let a0: int = if a < i { a } else { a + 1 };
                            let b0: int = if b < i { b } else { b + 1 };
                            assert(self.tenants@[a] == oldt[a0]);
                            assert(self.tenants@[b] == oldt[b0]);
                            assert(oldt[a0].id != oldt[b0].id && oldt[a0].name@ != oldt[b0].name@);
                        }
                    }
                }
                return true;
            }
            i = i + 1;
        }
        false
    }

    /// All tenant rows, as list items.
    pub fn list_tenants(&self) -> (r: Vec<crate::rows::Tenant>)
        ensures
            r@.len() == self.tenants@.len(),
            forall|i: int|
                0 <= i < r@.len() ==> (#[trigger] r@[i]).id == Some(self.tenants@[i].id)
                    && r@[i].name is Some && (r@[i].name->0)@ == self.tenants@[i].name@,
    {
        let n = self.tenants.len();
        let mut r: Vec<crate::rows::Tenant> = Vec::new();
        let mut i: usize = 0;
        while i < n
            invariant
                n == self.tenants@.len(),
                0 <= i <= n,
                r@.len() == i,
                forall|j: int|
                    0 <= j < i ==> (#[trigger] r@[j]).id == Some(self.tenants@[j].id)
                        && r@[j].name is Some && (r@[j].name->0)@ == self.tenants@[j].name@,
            decreases n - i,
        {
            let item = crate::rows::Tenant {
                name: Some(self.tenants[i].name.clone()),
                id: Some(self.tenants[i].id),
            };
            r.push(item);
            i = i + 1;
        }
        r
    }

    /// There is a VPC row named `name` under tenant `tenant`.
    pub open spec fn has_vpc_named(self, name: Seq<char>, tenant: u64) -> bool {
        exists|i: int|
            0 <= i < self.vpcs@.len() && (#[trigger] self.vpcs@[i]).name@ == name
                && self.vpcs@[i].tenant == tenant
    }

    /// The (unique) VPC row named `name` under tenant `tenant`.
    pub open spec fn vpc_by_name(self, name: Seq<char>, tenant: u64) -> VpcRow {
        self.vpcs@[choose|i: int|
            0 <= i < self.vpcs@.len() && (#[trigger] self.vpcs@[i]).name@ == name
                && self.vpcs@[i].tenant == tenant]
    }

    /// There is a VPC row with id `id` under tenant `tenant`.
    pub open spec fn has_vpc_id(self, id: u64, tenant: u64) -> bool {
        exists|i: int|
            0 <= i < self.vpcs@.len() && (#[trigger] self.vpcs@[i]).id == id && self.vpcs@[i].tenant
                == tenant
    }

    /// The (unique) VPC row with id `id` under tenant `tenant`.
    pub open spec fn vpc_by_id(self, id: u64, tenant: u64) -> VpcRow {
        self.vpcs@[choose|i: int|
            0 <= i < self.vpcs@.len() && (#[trigger] self.vpcs@[i]).id == id && self.vpcs@[i].tenant
                == tenant]
    }

    /// Two VPC rows under one tenant carrying the same name are the same row.
    pub proof fn lemma_vpc_name_unique(self, i: int, k: int)
        requires
            self.vpcs_wf(),
            0 <= i < self.vpcs@.len(),
            0 <= k < self.vpcs@.len(),
            self.vpcs@[i].name@ == self.vpcs@[k].name@,
            self.vpcs@[i].tenant == self.vpcs@[k].tenant,
        ensures
            i == k,
    {
        if i < k {
            assert(!(self.vpcs@[i].tenant == self.vpcs@[k].tenant && self.vpcs@[i].name@
                == self.vpcs@[k].name@));
        } else if k < i {
            assert(!(self.vpcs@[k].tenant == self.vpcs@[i].tenant && self.vpcs@[k].name@
                == self.vpcs@[i].name@));
        }
    }

    /// Two VPC rows carrying the same id are the same row.
    pub proof fn lemma_vpc_id_unique(self, i: int, k: int)
        requires
            self.vpcs_wf(),
            0 <= i < self.vpcs@.len(),
            0 <= k < self.vpcs@.len(),
            self.vpcs@[i].id == self.vpcs@[k].id,
        ensures
            i == k,
    {
        if i < k {
            assert(self.vpcs@[i].id != self.vpcs@[k].id);
        } else if k < i {
            assert(self.vpcs@[k].id != self.vpcs@[i].id);
        }
    }

    /// Look a VPC up by name and tenant; the id of the row is returned.
    pub fn get_vpc_by_name(&self, name: &str, tenant: u64) -> (r: Option<u64>)
        requires
            self.vpcs_wf(),
        ensures
            r is Some <==> self.has_vpc_named(name@, tenant),
            r matches Some(id) ==> id == self.vpc_by_name(name@, tenant).id,
    {
        let n = self.vpcs.len();
        let mut i: usize = 0;
        while i < n
            invariant
                self.vpcs_wf(),
                n == self.vpcs@.len(),
                0 <= i <= n,
                forall|j: int|
                    0 <= j < i ==> !((#[trigger] self.vpcs@[j]).name@ == name@
                        && self.vpcs@[j].tenant == tenant),
            decreases n - i,
        {
            if self.vpcs[i].tenant == tenant && str_eq(self.vpcs[i].name.as_str(), name) {
                proof {
                    assert(self.has_vpc_named(name@, tenant)) by {
                        assert(self.vpcs@[i as int].name@ == name@ && self.vpcs@[i as int].tenant
                            == tenant);
                    }
                    let k = choose|k: int|
                        0 <= k < self.vpcs@.len() && (#[trigger] self.vpcs@[k]).name@ == name@
                            && self.vpcs@[k].tenant == tenant;
                    self.lemma_vpc_name_unique(i as int, k);
                }
                return Some(self.vpcs[i].id);
            }
            i = i + 1;
        }
        None
    }

    /// Look a VPC up by id and tenant; the name of the row is returned.
    pub fn get_vpc_by_id(&self, id: u64, tenant: u64) -> (r: Option<String>)
        requires
            self.vpcs_wf(),
        ensures
            r is Some <==> self.has_vpc_id(id, tenant),
            r matches Some(nm) ==> nm@ == self.vpc_by_id(id, tenant).name@,
    {
        let n = self.vpcs.len();
        let mut i: usize = 0;
        while i < n
            invariant
                self.vpcs_wf(),
                n == self.vpcs@.len(),
                0 <= i <= n,
                forall|j: int|
                    0 <= j < i ==> !((#[trigger] self.vpcs@[j]).id == id && self.vpcs@[j].tenant
                        == tenant),
            decreases n - i,
        {
            if self.vpcs[i].id == id && self.vpcs[i].tenant == tenant {
                let nm = self.vpcs[i].name.clone();
                proof {
                    assert(self.has_vpc_id(id, tenant)) by {
                        assert(self.vpcs@[i as int].id == id && self.vpcs@[i as int].tenant
                            == tenant);
                    }
                    let k = choose|k: int|
                        0 <= k < self.vpcs@.len() && (#[trigger] self.vpcs@[k]).id == id
                            && self.vpcs@[k].tenant == tenant;
                    self.lemma_vpc_id_unique(i as int, k);
                }
                return Some(nm);
            }
            i = i + 1;
        }
        None
    }

    /// Look the CIDR of a VPC up by name and tenant.
    pub fn get_vpc_cidr(&self, name: &str, tenant: u64) -> (r: Option<String>)
        requires
            self.vpcs_wf(),
        ensures
            r is Some <==> self.has_vpc_named(name@, tenant),
            r matches Some(c) ==> c@ == self.vpc_by_name(name@, tenant).cidr@,
    {
        let n = self.vpcs.len();
        let mut i: usize = 0;
        while i < n
            invariant
                self.vpcs_wf(),
                n == self.vpcs@.len(),
                0 <= i <= n,
                forall|j: int|
                    0 <= j < i ==> !((#[trigger] self.vpcs@[j]).name@ == name@
                        && self.vpcs@[j].tenant == tenant),
            decreases n - i,
        {
            if self.vpcs[i].tenant == tenant && str_eq(self.vpcs[i].name.as_str(), name) {
                let c = self.vpcs[i].cidr.clone();
                proof {
                    assert(self.has_vpc_named(name@, tenant)) by {
                        assert(self.vpcs@[i as int].name@ == name@ && self.vpcs@[i as int].tenant
                            == tenant);
                    }
                    let k = choose|k: int|
                        0 <= k < self.vpcs@.len() && (#[trigger] self.vpcs@[k]).name@ == name@
                            && self.vpcs@[k].tenant == tenant;
                    self.lemma_vpc_name_unique(i as int, k);
                }
                return Some(c);
            }
            i = i + 1;
        }
        None
    }

    /// Insert a VPC row. Fails (with `None`) only when the id space is
    /// exhausted.
    pub fn create_vpc(&mut self, name: &str, cidr: &str, nat_flag: bool, tenant: u64) -> (r: Option<
        u64,
    >)
        requires
            old(self).wf(),
            !old(self).has_vpc_named(name@, tenant),
        ensures
            final(self).wf(),
            r is None <==> old(self).next_id == u64::MAX,
            r is None ==> *final(self) == *old(self),
            r matches Some(id) ==> {
                &&& id == old(self).next_id
                &&& final(self).next_id == old(self).next_id + 1
                &&& final(self).vpcs@.len() == old(self).vpcs@.len() + 1
                &&& final(self).vpcs@.subrange(0, old(self).vpcs@.len() as int) == old(self).vpcs@
                &&& final(self).vpcs@.last().id == id
                &&& final(self).vpcs@.last().name@ == name@
                &&& final(self).vpcs@.last().cidr@ == cidr@
                &&& final(self).vpcs@.last().nat == nat_flag
                &&& final(self).vpcs@.last().tenant == tenant
                &&& final(self).same_but_vpcs(*old(self))
                &&& final(self).has_vpc_named(name@, tenant)
                &&& final(self).vpc_by_name(name@, tenant) == final(self).vpcs@.last()
            },
    {
        if self.next_id == u64::MAX {
            return None;
        }
        let id = self.next_id;
        self.next_id = self.next_id + 1;
        let row = VpcRow { id, name: name.to_owned(), cidr: cidr.to_owned(), nat: nat_flag, tenant };
        self.vpcs.push(row);
        proof {
            let newlen = self.vpcs@.len() as int;
            assert(self.vpcs@.subrange(0, old(self).vpcs@.len() as int) =~= old(self).vpcs@);
            assert(self.has_vpc_named(name@, tenant)) by {
                assert(self.vpcs@[newlen - 1].name@ == name@ && self.vpcs@[newlen - 1].tenant
                    == tenant);
            }
            assert(self.vpcs_wf()) by {
                assert forall|a: int, b: int| 0 <= a < b < newlen implies (
                #[trigger] self.vpcs@[a]).id != (#[trigger] self.vpcs@[b]).id && !(
                self.vpcs@[a].tenant == self.vpcs@[b].tenant && self.vpcs@[a].name@
                    == self.vpcs@[b].name@) by {
                    if b < newlen - 1 {
                        assert(self.vpcs@[a] == old(self).vpcs@[a]);
                        assert(self.vpcs@[b] == old(self).vpcs@[b]);
                    } else {
                        assert(self.vpcs@[a] == old(self).vpcs@[a]);
                        assert(old(self).vpcs@[a].id < old(self).next_id);
                        assert(!(old(self).vpcs@[a].tenant == tenant && old(self).vpcs@[a].name@
                            == name@));
                    }
                }
            }
            let k = choose|k: int|
                0 <= k < self.vpcs@.len() && (#[trigger] self.vpcs@[k]).name@ == name@
                    && self.vpcs@[k].tenant == tenant;
            self.lemma_vpc_name_unique(newlen - 1, k);
        }
        Some(id)
    }

    /// Remove the VPC row with id `id`, if any.
    pub fn delete_vpc(&mut self, id: u64) -> (found: bool)
        requires
            old(self).wf(),
        ensures
            final(self).wf(),
            found <==> exists|j: int|
                0 <= j < old(self).vpcs@.len() && (#[trigger] old(self).vpcs@[j]).id == id,
            !found ==> *final(self) == *old(self),
            found ==> {
                &&& exists|j: int|
                    0 <= j < old(self).vpcs@.len() && old(self).vpcs@[j].id == id
                        && final(self).vpcs@ == old(self).vpcs@.remove(j)
                &&& final(self).same_but_vpcs(*old(self))
                &&& final(self).next_id == old(self).next_id
            },
    {
        let n = self.vpcs.len();
        let mut i: usize = 0;
        while i < n
            invariant
                *self == *old(self),
                self.wf(),
                n == self.vpcs@.len(),
                0 <= i <= n,
                forall|j: int| 0 <= j < i ==> (#[trigger] self.vpcs@[j]).id != id,
            decreases n - i,
        {
            if self.vpcs[i].id == id {
                self.vpcs.remove(i);
                proof {
                    let oldt = old(self).vpcs@;
                    assert(oldt[i as int].id == id && self.vpcs@ == oldt.remove(i as int));
                    assert(self.vpcs_wf()) by {
                        assert forall|a: int, b: int| 0 <= a < b < self.vpcs@.len() implies (
                        #[trigger] self.vpcs@[a]).id != (#[trigger] self.vpcs@[b]).id && !(
                        self.vpcs@[a].tenant == self.vpcs@[b].tenant && self.vpcs@[a].name@
                            == self.vpcs@[b].name@) by {
                            let a0: int = if a < i { a } else { a + 1 };
                            let b0: int = if b < i { b } else { b + 1 };
                            assert(self.vpcs@[a] == oldt[a0]);
                            assert(self.vpcs@[b] == oldt[b0]);
                            assert(oldt[a0].id != oldt[b0].id && !(oldt[a0].tenant == oldt[b0].tenant
                                && oldt[a0].name@ == oldt[b0].name@));
                        }
                    }
                }
                return true;
            }
            i = i + 1;
        }
        false
    }

    /// Some port row references the VPC with id `vpc`.
    pub open spec fn has_port_for_vpc(self, vpc: u64) -> bool {
        exists|i: int| 0 <= i < self.ports@.len() && (#[trigger] self.ports@[i]).vpc == vpc
    }

    /// All port rows referencing the VPC `vpc`.
    pub fn list_ports(&self, vpc: u64) -> (r: Vec<Port>)
        ensures
            r@.len() > 0 <==> self.has_port_for_vpc(vpc),
            forall|m: int|
                0 <= m < r@.len() ==> (#[trigger] r@[m]).vpc == vpc && exists|k: int|
                    0 <= k < self.ports@.len() && #[trigger] self.ports@[k] == r@[m],
            forall|k: int|
                0 <= k < self.ports@.len() && (#[trigger] self.ports@[k]).vpc == vpc ==> exists|
                    m: int,
                |
                    0 <= m < r@.len() && #[trigger] r@[m] == self.ports@[k],
    {
        let n = self.ports.len();
        let mut r: Vec<Port> = Vec::new();
        let mut i: usize = 0;
        while i < n
            invariant
                n == self.ports@.len(),
                0 <= i <= n,
                forall|m: int|
                    0 <= m < r@.len() ==> (#[trigger] r@[m]).vpc == vpc && exists|k: int|
                        0 <= k < self.ports@.len() && #[trigger] self.ports@[k] == r@[m],
                forall|k: int|
                    0 <= k < i && (#[trigger] self.ports@[k]).vpc == vpc ==> exists|m: int|
                        0 <= m < r@.len() && #[trigger] r@[m] == self.ports@[k],
                r@.len() > 0 ==> exists|k: int|
                    0 <= k < self.ports@.len() && (#[trigger] self.ports@[k]).vpc == vpc,
            decreases n - i,
        {
            if self.ports[i].vpc == vpc {
                let p = Port {
                    id: self.ports[i].id,
                    name: self.ports[i].name.clone(),
                    vpc: self.ports[i].vpc,
                    hypervisor: self.ports[i].hypervisor.clone(),
                };
                proof {
                    assert(p == self.ports@[i as int]);
                }
                let ghost r0 = r@;
                r.push(p);
                proof {
                    assert forall|k: int|
                        0 <= k < i + 1 && (#[trigger] self.ports@[k]).vpc == vpc implies exists|
                        m: int,
                    | 0 <= m < r@.len() && #[trigger] r@[m] == self.ports@[k] by {
                        if k == i {
                            assert(r@[r@.len() - 1] == self.ports@[k]);
                        } else {
                            let m = choose|m: int| 0 <= m < r0.len() && #[trigger] r0[m]
                                == self.ports@[k];
                            assert(r@[m] == self.ports@[k]);
                        }
                    }
                }
            }
            i = i + 1;
        }
        r
    }

    /// Insert a port row. Fails (with `None`) only when the id space is
    /// exhausted.
    pub fn create_port(&mut self, name: &str, vpc: u64, hypervisor: &str) -> (r: Option<u64>)
        requires
            old(self).wf(),
        ensures
            final(self).wf(),
            r is None <==> old(self).next_id == u64::MAX,
            r is None ==> *final(self) == *old(self),
            r matches Some(id) ==> {
                &&& id == old(self).next_id
                &&& final(self).next_id == old(self).next_id + 1
                &&& final(self).ports@.len() == old(self).ports@.len() + 1
                &&& final(self).ports@.subrange(0, old(self).ports@.len() as int) == old(
                    self).ports@
                &&& final(self).ports@.last().id == id
                &&& final(self).ports@.last().name@ == name@
                &&& final(self).ports@.last().vpc == vpc
                &&& final(self).ports@.last().hypervisor@ == hypervisor@
                &&& final(self).tenants == old(self).tenants
                &&& final(self).vpcs == old(self).vpcs
                &&& final(self).ssh_keys == old(self).ssh_keys
                &&& final(self).provider_networks == old(self).provider_networks
                &&& final(self).hypervisors == old(self).hypervisors
                &&& final(self).vms == old(self).vms
            },
    {
        if self.next_id == u64::MAX {
            return None;
        }
        let id = self.next_id;
        self.next_id = self.next_id + 1;
        let row = Port { id, name: name.to_owned(), vpc, hypervisor: hypervisor.to_owned() };
        self.ports.push(row);
        proof {
            let newlen = self.ports@.len() as int;
            assert(self.ports@.subrange(0, old(self).ports@.len() as int) =~= old(self).ports@);
            assert(self.ports_wf()) by {
                assert forall|a: int, b: int| 0 <= a < b < newlen implies (
                #[trigger] self.ports@[a]).id != (#[trigger] self.ports@[b]).id by {
                    if b < newlen - 1 {
                        assert(self.ports@[a] == old(self).ports@[a]);
                        assert(self.ports@[b] == old(self).ports@[b]);
                    } else {
                        assert(self.ports@[a] == old(self).ports@[a]);
                        assert(old(self).ports@[a].id < old(self).next_id);
                    }
                }
            }
        }
        Some(id)
    }

    /// Remove the first port row named `name`, if any.
    pub fn delete_port_by_name(&mut self, name: &str) -> (found: bool)
        requires
            old(self).wf(),
        ensures
            final(self).wf(),
            found <==> exists|j: int|
                0 <= j < old(self).ports@.len() && (#[trigger] old(self).ports@[j]).name@ == name@,
            !found ==> *final(self) == *old(self),
            found ==> {
                &&& exists|j: int|
                    0 <= j < old(self).ports@.len() && old(self).ports@[j].name@ == name@
                        && final(self).ports@ == old(self).ports@.remove(j)
                &&& final(self).tenants == old(self).tenants
                &&& final(self).vpcs == old(self).vpcs
                &&& final(self).ssh_keys == old(self).ssh_keys
                &&& final(self).provider_networks == old(self).provider_networks
                &&& final(self).hypervisors == old(self).hypervisors
                &&& final(self).vms == old(self).vms
                &&& final(self).next_id == old(self).next_id
            },
    {
        let n = self.ports.len();
        let mut i: usize = 0;
        while i < n
            invariant
                *self == *old(self),
                self.wf(),
                n == self.ports@.len(),
                0 <= i <= n,
                forall|j: int| 0 <= j < i ==> (#[trigger] self.ports@[j]).name@ != name@,
            decreases n - i,
        {
            if str_eq(self.ports[i].name.as_str(), name) {
                self.ports.remove(i);
                proof {
                    let oldt = old(self).ports@;
                    assert(oldt[i as int].name@ == name@ && self.ports@ == oldt.remove(i as int));
                    assert(self.ports_wf()) by {
                        assert forall|a: int, b: int| 0 <= a < b < self.ports@.len() implies (
                        #[trigger] self.ports@[a]).id != (#[trigger] self.ports@[b]).id by {
                            let a0: int = if a < i { a } else { a + 1 };
                            let b0: int = if b < i { b } else { b + 1 };
                            assert(self.ports@[a] == oldt[a0]);
                            assert(self.ports@[b] == oldt[b0]);
                            assert(oldt[a0].id != oldt[b0].id);
                        }
                    }
                }
                return true;
            }
            i = i + 1;
        }
        false
    }

    /// There is an SSH key row named `name`.
    pub open spec fn has_ssh_key_named(self, name: Seq<char>) -> bool {
        exists|i: int| 0 <= i < self.ssh_keys@.len() && (#[trigger] self.ssh_keys@[i]).name@ == name
    }

    /// The (unique) SSH key row named `name`.
    pub open spec fn ssh_key_by_name(self, name: Seq<char>) -> SshKeyRow {
        self.ssh_keys@[choose|i: int|
            0 <= i < self.ssh_keys@.len() && (#[trigger] self.ssh_keys@[i]).name@ == name]
    }

    /// Some SSH key row belongs to tenant `tenant`.
    pub open spec fn has_ssh_key_for_tenant(self, tenant: u64) -> bool {
        exists|i: int|
            0 <= i < self.ssh_keys@.len() && (#[trigger] self.ssh_keys@[i]).tenant == tenant
    }

    /// Two SSH key rows carrying the same name are the same row.
    pub proof fn lemma_ssh_key_name_unique(self, i: int, k: int)
        requires
            self.ssh_keys_wf(),
            0 <= i < self.ssh_keys@.len(),
            0 <= k < self.ssh_keys@.len(),
            self.ssh_keys@[i].name@ == self.ssh_keys@[k].name@,
        ensures
            i == k,
    {
        if i < k {
            assert(self.ssh_keys@[i].name@ != self.ssh_keys@[k].name@);
        } else if k < i {
            assert(self.ssh_keys@[k].name@ != self.ssh_keys@[i].name@);
        }
    }

    /// Look an SSH key up by name; the id of the row is returned.
    pub fn get_ssh_key(&self, name: &str) -> (r: Option<u64>)
        requires
            self.ssh_keys_wf(),
        ensures
            r is Some <==> self.has_ssh_key_named(name@),
            r matches Some(id) ==> id == self.ssh_key_by_name(name@).id,
    {
        let n = self.ssh_keys.len();
        let mut i: usize = 0;
        while i < n
            invariant
                self.ssh_keys_wf(),
                n == self.ssh_keys@.len(),
                0 <= i <= n,
                forall|j: int| 0 <= j < i ==> (#[trigger] self.ssh_keys@[j]).name@ != name@,
            decreases n - i,
        {
            if str_eq(self.ssh_keys[i].name.as_str(), name) {
                proof {
                    assert(self.has_ssh_key_named(name@)) by {
                        assert(self.ssh_keys@[i as int].name@ == name@);
                    }
                    let k = choose|k: int|
                        0 <= k < self.ssh_keys@.len() && (#[trigger] self.ssh_keys@[k]).name@
                            == name@;
                    self.lemma_ssh_key_name_unique(i as int, k);
                }
                return Some(self.ssh_keys[i].id);
            }
            i = i + 1;
        }
        None
    }

    /// Insert an SSH key row. Fails (with `None`) only when the id space is
    /// exhausted.
    pub fn create_ssh_pub_key(
        &mut self,
        name: &str,
        ssh_pub_key: &str,
        fingerprint: &str,
        tenant: u64,
    ) -> (r: Option<u64>)
        requires
            old(self).wf(),
            !old(self).has_ssh_key_named(name@),
        ensures
            final(self).wf(),
            r is None <==> old(self).next_id == u64::MAX,
            r is None ==> *final(self) == *old(self),
            r matches Some(id) ==> {
                &&& id == old(self).next_id
                &&& final(self).next_id == old(self).next_id + 1
                &&& final(self).ssh_keys@.len() == old(self).ssh_keys@.len() + 1
                &&& final(self).ssh_keys@.subrange(0, old(self).ssh_keys@.len() as int) == old(
                    self).ssh_keys@
                &&& final(self).ssh_keys@.last().id == id
                &&& final(self).ssh_keys@.last().name@ == name@
                &&& final(self).ssh_keys@.last().ssh_pub_key@ == ssh_pub_key@
                &&& final(self).ssh_keys@.last().fingerprint@ == fingerprint@
                &&& final(self).ssh_keys@.last().tenant == tenant
                &&& final(self).same_but_ssh_keys(*old(self))
                &&& final(self).has_ssh_key_named(name@)
                &&& final(self).has_ssh_key_for_tenant(tenant)
            },
    {
        if self.next_id == u64::MAX {
            return None;
        }
        let id = self.next_id;
        self.next_id = self.next_id + 1;
        let row = SshKeyRow {
            id,
            name: name.to_owned(),
            ssh_pub_key: ssh_pub_key.to_owned(),
            fingerprint: fingerprint.to_owned(),
            tenant,
        };
        self.ssh_keys.push(row);
        proof {
            let newlen = self.ssh_keys@.len() as int;
            assert(self.ssh_keys@.subrange(0, old(self).ssh_keys@.len() as int) =~= old(
                self,
            ).ssh_keys@);
            assert(self.has_ssh_key_named(name@)) by {
                assert(self.ssh_keys@[newlen - 1].name@ == name@);
            }
            assert(self.has_ssh_key_for_tenant(tenant)) by {
                assert(self.ssh_keys@[newlen - 1].tenant == tenant);
            }
            assert(self.ssh_keys_wf()) by {
                assert forall|a: int, b: int| 0 <= a < b < newlen implies (
                #[trigger] self.ssh_keys@[a]).id != (#[trigger] self.ssh_keys@[b]).id
                    && self.ssh_keys@[a].name@ != self.ssh_keys@[b].name@ by {
                    if b < newlen - 1 {
                        assert(self.ssh_keys@[a] == old(self).ssh_keys@[a]);
                        assert(self.ssh_keys@[b] == old(self).ssh_keys@[b]);
                    } else {
                        assert(self.ssh_keys@[a] == old(self).ssh_keys@[a]);
                        assert(old(self).ssh_keys@[a].id < old(self).next_id);
                        assert(old(self).ssh_keys@[a].name@ != name@);
                    }
                }
            }
        }
        Some(id)
    }

    /// Remove the SSH key row named `name`, if any.
    pub fn delete_ssh_pub_key(&mut self, name: &str) -> (found: bool)
        requires
            old(self).wf(),
        ensures
            final(self).wf(),
            found <==> old(self).has_ssh_key_named(name@),
            !found ==> *final(self) == *old(self),
            found ==> {
                &&& exists|j: int|
                    0 <= j < old(self).ssh_keys@.len() && old(self).ssh_keys@[j].name@ == name@
                        && final(self).ssh_keys@ == old(self).ssh_keys@.remove(j)
                &&& final(self).same_but_ssh_keys(*old(self))
                &&& final(self).next_id == old(self).next_id
                &&& !final(self).has_ssh_key_named(name@)
            },
    {
        let n = self.ssh_keys.len();
        let mut i: usize = 0;
        while i < n
            invariant
                *self == *old(self),
                self.wf(),
                n == self.ssh_keys@.len(),
                0 <= i <= n,
                forall|j: int| 0 <= j < i ==> (#[trigger] self.ssh_keys@[j]).name@ != name@,
            decreases n - i,
        {
            if str_eq(self.ssh_keys[i].name.as_str(), name) {
                self.ssh_keys.remove(i);
                proof {
                    let oldt = old(self).ssh_keys@;
                    assert(oldt[i as int].name@ == name@ && self.ssh_keys@ == oldt.remove(
                        i as int,
                    ));
                    assert forall|k: int| 0 <= k < self.ssh_keys@.len() implies (
                    #[trigger] self.ssh_keys@[k]).name@ != name@ by {
                        if k < i {
                            assert(self.ssh_keys@[k] == oldt[k]);
                        } else {
                            assert(self.ssh_keys@[k] == oldt[k + 1]);
                            assert(oldt[i as int].name@ != oldt[k + 1].name@);
                        }
                    }
                    assert(self.ssh_keys_wf()) by {
                        assert forall|a: int, b: int| 0 <= a < b < self.ssh_keys@.len() implies (
                        #[trigger] self.ssh_keys@[a]).id != (#[trigger] self.ssh_keys@[b]).id
                            && self.ssh_keys@[a].name@ != self.ssh_keys@[b].name@ by {
                            let a0: int = if a < i { a } else { a + 1 };
                            let b0: int = if b < i { b } else { b + 1 };
                            assert(self.ssh_keys@[a] == oldt[a0]);
                            assert(self.ssh_keys@[b] == oldt[b0]);
                            assert(oldt[a0].id != oldt[b0].id && oldt[a0].name@ != oldt[b0].name@);
                        }
                    }
                }
                return true;
            }
            i = i + 1;
        }
        false
    }

    /// The list item renders the stored SSH key row.
    pub open spec fn ssh_item_of(item: SSHKey, row: SshKeyRow) -> bool {
        &&& item.name is Some && (item.name->0)@ == row.name@
        &&& item.ssh_pub_key is Some && (item.ssh_pub_key->0)@ == row.ssh_pub_key@
        &&& item.fingerprint is Some && (item.fingerprint->0)@ == row.fingerprint@
        &&& item.tenant == Some(row.tenant)
    }

    /// All SSH key rows of tenant `tenant`, as list items: every item renders
    /// a row of the tenant, and every row of the tenant is rendered.
    pub fn list_ssh_pub_keys(&self, tenant: u64) -> (r: Vec<SSHKey>)
        ensures
            r@.len() > 0 <==> self.has_ssh_key_for_tenant(tenant),
            forall|m: int|
                0 <= m < r@.len() ==> exists|k: int|
                    0 <= k < self.ssh_keys@.len() && (#[trigger] self.ssh_keys@[k]).tenant == tenant
                        && Self::ssh_item_of(#[trigger] r@[m], self.ssh_keys@[k]),
            forall|k: int|
                0 <= k < self.ssh_keys@.len() && (#[trigger] self.ssh_keys@[k]).tenant == tenant
                    ==> exists|m: int|
                    0 <= m < r@.len() && Self::ssh_item_of(#[trigger] r@[m], self.ssh_keys@[k]),
    {
        let n = self.ssh_keys.len();
        let mut r: Vec<SSHKey> = Vec::new();
        let mut i: usize = 0;
        while i < n
            invariant
                n == self.ssh_keys@.len(),
                0 <= i <= n,
                forall|m: int|
                    0 <= m < r@.len() ==> exists|k: int|
                        0 <= k < self.ssh_keys@.len() && (#[trigger] self.ssh_keys@[k]).tenant
                            == tenant && Self::ssh_item_of(#[trigger] r@[m], self.ssh_keys@[k]),
                forall|k: int|
                    0 <= k < i && (#[trigger] self.ssh_keys@[k]).tenant == tenant ==> exists|m: int|
                        0 <= m < r@.len() && Self::ssh_item_of(
                            #[trigger] r@[m],
                            self.ssh_keys@[k],
                        ),
                r@.len() > 0 ==> self.has_ssh_key_for_tenant(tenant),
                r@.len() == 0 ==> forall|j: int|
                    0 <= j < i ==> (#[trigger] self.ssh_keys@[j]).tenant != tenant,
            decreases n - i,
        {
            if self.ssh_keys[i].tenant == tenant {
                let item = SSHKey {
                    name: Some(self.ssh_keys[i].name.clone()),
                    ssh_pub_key: Some(self.ssh_keys[i].ssh_pub_key.clone()),
                    fingerprint: Some(self.ssh_keys[i].fingerprint.clone()),
                    tenant: Some(self.ssh_keys[i].tenant),
                };
                proof {
                    assert(self.has_ssh_key_for_tenant(tenant)) by {
                        assert(self.ssh_keys@[i as int].tenant == tenant);
                    }
                    assert(Self::ssh_item_of(item, self.ssh_keys@[i as int]));
                }
                let ghost r0 = r@;
                r.push(item);
                proof {
                    assert forall|k: int|
                        0 <= k < i + 1 && (#[trigger] self.ssh_keys@[k]).tenant
                            == tenant implies exists|m: int|
                        0 <= m < r@.len() && Self::ssh_item_of(
                            #[trigger] r@[m],
                            self.ssh_keys@[k],
                        ) by {
                        if k == i {
                            assert(Self::ssh_item_of(r@[r@.len() - 1], self.ssh_keys@[k]));
                        } else {
                            let m = choose|m: int|
                                0 <= m < r0.len() && Self::ssh_item_of(
                                    #[trigger] r0[m],
                                    self.ssh_keys@[k],
                                );
                            assert(Self::ssh_item_of(r@[m], self.ssh_keys@[k]));
                        }
                    }
                }
            }
            i = i + 1;
        }
        r
    }

    /// There is a provider network row named `name`.
    pub open spec fn has_provider_network(self, name: Seq<char>) -> bool {
        exists|i: int|
            0 <= i < self.provider_networks@.len() && (#[trigger] self.provider_networks@[i]).name@
                == name
    }

    /// The (unique) provider network row named `name`.
    pub open spec fn provider_network_by_name(self, name: Seq<char>) -> ProviderNetwork {
        self.provider_networks@[choose|i: int|
            0 <= i < self.provider_networks@.len() && (#[trigger] self.provider_networks@[i]).name@
                == name]
    }

    /// Two provider network rows carrying the same name are the same row.
    pub proof fn lemma_provider_network_name_unique(self, i: int, k: int)
        requires
            self.provider_networks_wf(),
            0 <= i < self.provider_networks@.len(),
            0 <= k < self.provider_networks@.len(),
            self.provider_networks@[i].name@ == self.provider_networks@[k].name@,
        ensures
            i == k,
    {
        if i < k {
            assert(self.provider_networks@[i].name@ != self.provider_networks@[k].name@);
        } else if k < i {
            assert(self.provider_networks@[k].name@ != self.provider_networks@[i].name@);
        }
    }

    /// Look a provider network up by name.
    pub fn get_provider_network(&self, name: &str) -> (r: Option<ProviderNetwork>)
        requires
            self.provider_networks_wf(),
        ensures
            r is Some <==> self.has_provider_network(name@),
            r matches Some(p) ==> p.name@ == name@ && p.vlan == self.provider_network_by_name(
                name@,
            ).vlan && p.subnet@ == self.provider_network_by_name(name@).subnet@,
    {
        let n = self.provider_networks.len();
        let mut i: usize = 0;
        while i < n
            invariant
                self.provider_networks_wf(),
                n == self.provider_networks@.len(),
                0 <= i <= n,
                forall|j: int|
                    0 <= j < i ==> (#[trigger] self.provider_networks@[j]).name@ != name@,
            decreases n - i,
        {
            if str_eq(self.provider_networks[i].name.as_str(), name) {
                let p = ProviderNetwork {
                    name: self.provider_networks[i].name.clone(),
                    vlan: self.provider_networks[i].vlan,
                    subnet: self.provider_networks[i].subnet.clone(),
                };
                proof {
                    assert(self.has_provider_network(name@)) by {
                        assert(self.provider_networks@[i as int].name@ == name@);
                    }
                    let k = choose|k: int|
                        0 <= k < self.provider_networks@.len() && (
                        #[trigger] self.provider_networks@[k]).name@ == name@;
                    self.lemma_provider_network_name_unique(i as int, k);
                }
                return Some(p);
            }
            i = i + 1;
        }
        None
    }

    /// Insert a provider network row.
    pub fn create_provider_network(&mut self, name: &str, vlan: i32, subnet: &str)
        requires
            old(self).wf(),
            !old(self).has_provider_network(name@),
        ensures
            final(self).wf(),
            final(self).provider_networks@.len() == old(self).provider_networks@.len() + 1,
            final(self).provider_networks@.subrange(
                0,
                old(self).provider_networks@.len() as int,
            ) == old(self).provider_networks@,
            final(self).provider_networks@.last().name@ == name@,
            final(self).provider_networks@.last().vlan == vlan,
            final(self).provider_networks@.last().subnet@ == subnet@,
            final(self).same_but_provider_networks(*old(self)),
            final(self).has_provider_network(name@),
            final(self).provider_network_by_name(name@) == final(self).provider_networks@.last(),
    {
        let row = ProviderNetwork { name: name.to_owned(), vlan, subnet: subnet.to_owned() };
        self.provider_networks.push(row);
        proof {
            let newlen = self.provider_networks@.len() as int;
            assert(self.provider_networks@.subrange(0, old(self).provider_networks@.len() as int)
                =~= old(self).provider_networks@);
            assert(self.has_provider_network(name@)) by {
                assert(self.provider_networks@[newlen - 1].name@ == name@);
            }
            assert(self.provider_networks_wf()) by {
                assert forall|a: int, b: int| 0 <= a < b < newlen implies (
                #[trigger] self.provider_networks@[a]).name@ != (
                #[trigger] self.provider_networks@[b]).name@ by {
                    if b < newlen - 1 {
                        assert(self.provider_networks@[a] == old(self).provider_networks@[a]);
                        assert(self.provider_networks@[b] == old(self).provider_networks@[b]);
                    } else {
                        assert(self.provider_networks@[a] == old(self).provider_networks@[a]);
                        assert(old(self).provider_networks@[a].name@ != name@);
                    }
                }
            }
            let k = choose|k: int|
                0 <= k < self.provider_networks@.len() && (
                #[trigger] self.provider_networks@[k]).name@ == name@;
            self.lemma_provider_network_name_unique(newlen - 1, k);
        }
    }

    /// Remove the provider network row named `name`, if any.
    pub fn delete_provider_network(&mut self, name: &str) -> (found: bool)
        requires
            old(self).wf(),
        ensures
            final(self).wf(),
            found <==> old(self).has_provider_network(name@),
            !found ==> *final(self) == *old(self),
            found ==> {
                &&& exists|j: int|
                    0 <= j < old(self).provider_networks@.len()
                        && old(self).provider_networks@[j].name@ == name@
                        && final(self).provider_networks@ == old(self).provider_networks@.remove(j)
                &&& final(self).same_but_provider_networks(*old(self))
                &&& !final(self).has_provider_network(name@)
            },
    {
        let n = self.provider_networks.len();
        let mut i: usize = 0;
        while i < n
            invariant
                *self == *old(self),
                self.wf(),
                n == self.provider_networks@.len(),
                0 <= i <= n,
                forall|j: int|
                    0 <= j < i ==> (#[trigger] self.provider_networks@[j]).name@ != name@,
            decreases n - i,
        {
            if str_eq(self.provider_networks[i].name.as_str(), name) {
                self.provider_networks.remove(i);
                proof {
                    let oldt = old(self).provider_networks@;
                    assert(oldt[i as int].name@ == name@ && self.provider_networks@ == oldt.remove(
                        i as int,
                    ));
                    assert forall|k: int| 0 <= k < self.provider_networks@.len() implies (
                    #[trigger] self.provider_networks@[k]).name@ != name@ by {
                        if k < i {
                            assert(self.provider_networks@[k] == oldt[k]);
                        } else {
                            assert(self.provider_networks@[k] == oldt[k + 1]);
                            assert(oldt[i as int].name@ != oldt[k + 1].name@);
                        }
                    }
                    assert(self.provider_networks_wf()) by {
                        assert forall|a: int, b: int|
                            0 <= a < b < self.provider_networks@.len() implies (
                        #[trigger] self.provider_networks@[a]).name@ != (
                        #[trigger] self.provider_networks@[b]).name@ by {
                            let a0: int = if a < i { a } else { a + 1 };
                            let b0: int = if b < i { b } else { b + 1 };
                            assert(self.provider_networks@[a] == oldt[a0]);
                            assert(self.provider_networks@[b] == oldt[b0]);
                            assert(oldt[a0].name@ != oldt[b0].name@);
                        }
                    }
                }
                return true;
            }
            i = i + 1;
        }
        false
    }

    /// All provider network rows.
    pub fn list_provider_networks(&self) -> (r: Vec<ProviderNetwork>)
        ensures
            r@ == self.provider_networks@,
    {
        let n = self.provider_networks.len();
        let mut r: Vec<ProviderNetwork> = Vec::new();
        let mut i: usize = 0;
        while i < n
            invariant
                n == self.provider_networks@.len(),
                0 <= i <= n,
                r@ =~= self.provider_networks@.subrange(0, i as int),
            decreases n - i,
        {
            let p = ProviderNetwork {
                name: self.provider_networks[i].name.clone(),
                vlan: self.provider_networks[i].vlan,
                subnet: self.provider_networks[i].subnet.clone(),
            };
            proof {
                assert(p == self.provider_networks@[i as int]);
            }
            r.push(p);
            proof {
                assert(r@ =~= self.provider_networks@.subrange(0, i as int + 1));
            }
            i = i + 1;
        }
        proof {
            assert(self.provider_networks@.subrange(0, n as int) =~= self.provider_networks@);
        }
        r
    }

    /// There is a hypervisor row with hostname `h`.
    pub open spec fn has_hypervisor_hostname(self, h: Seq<char>) -> bool {
        exists|i: int|
            0 <= i < self.hypervisors@.len() && (#[trigger] self.hypervisors@[i]).hostname@ == h
    }

    /// The (unique) hypervisor row with hostname `h`.
    pub open spec fn hypervisor_by_hostname(self, h: Seq<char>) -> HypervisorScheduler {
        self.hypervisors@[choose|i: int|
            0 <= i < self.hypervisors@.len() && (#[trigger] self.hypervisors@[i]).hostname@ == h]
    }

    /// There is a hypervisor row with id `id`.
    pub open spec fn has_hypervisor_id(self, id: u64) -> bool {
        exists|i: int| 0 <= i < self.hypervisors@.len() && (#[trigger] self.hypervisors@[i]).id == id
    }

    /// The (unique) hypervisor row with id `id`.
    pub open spec fn hypervisor_by_id(self, id: u64) -> HypervisorScheduler {
        self.hypervisors@[choose|i: int|
            0 <= i < self.hypervisors@.len() && (#[trigger] self.hypervisors@[i]).id == id]
    }

    /// Two hypervisor rows carrying the same hostname are the same row.
    pub proof fn lemma_hypervisor_hostname_unique(self, i: int, k: int)
        requires
            self.hypervisors_wf(),
            0 <= i < self.hypervisors@.len(),
            0 <= k < self.hypervisors@.len(),
            self.hypervisors@[i].hostname@ == self.hypervisors@[k].hostname@,
        ensures
            i == k,
    {
        if i < k {
            assert(self.hypervisors@[i].hostname@ != self.hypervisors@[k].hostname@);
        } else if k < i {
            assert(self.hypervisors@[k].hostname@ != self.hypervisors@[i].hostname@);
        }
    }

    /// Two hypervisor rows carrying the same id are the same row.
    pub proof fn lemma_hypervisor_id_unique(self, i: int, k: int)
        requires
            self.hypervisors_wf(),
            0 <= i < self.hypervisors@.len(),
            0 <= k < self.hypervisors@.len(),
            self.hypervisors@[i].id == self.hypervisors@[k].id,
        ensures
            i == k,
    {
        if i < k {
            assert(self.hypervisors@[i].id != self.hypervisors@[k].id);
        } else if k < i {
            assert(self.hypervisors@[k].id != self.hypervisors@[i].id);
        }
    }

    /// Look a hypervisor up by hostname; the id of the row is returned.
    pub fn get_hypervisor_by_hostname(&self, hostname: &str) -> (r: Option<u64>)
        requires
            self.hypervisors_wf(),
        ensures
            r is Some <==> self.has_hypervisor_hostname(hostname@),
            r matches Some(id) ==> id == self.hypervisor_by_hostname(hostname@).id
                && self.has_hypervisor_id(id) && self.hypervisor_by_id(id)
                == self.hypervisor_by_hostname(hostname@),
    {
        let n = self.hypervisors.len();
        let mut i: usize = 0;
        while i < n
            invariant
                self.hypervisors_wf(),
                n == self.hypervisors@.len(),
                0 <= i <= n,
                forall|j: int| 0 <= j < i ==> (#[trigger] self.hypervisors@[j]).hostname@ != hostname@,
            decreases n - i,
        {
            if str_eq(self.hypervisors[i].hostname.as_str(), hostname) {
                proof {
                    assert(self.has_hypervisor_hostname(hostname@)) by {
                        assert(self.hypervisors@[i as int].hostname@ == hostname@);
                    }
                    let k = choose|k: int|
                        0 <= k < self.hypervisors@.len() && (#[trigger] self.hypervisors@[k]).hostname@
                            == hostname@;
                    self.lemma_hypervisor_hostname_unique(i as int, k);
                    assert(self.has_hypervisor_id(self.hypervisors@[i as int].id)) by {
                        assert(self.hypervisors@[i as int].id == self.hypervisors@[i as int].id);
                    }
                    let k2 = choose|k2: int|
                        0 <= k2 < self.hypervisors@.len() && (#[trigger] self.hypervisors@[k2]).id
                            == self.hypervisors@[i as int].id;
                    self.lemma_hypervisor_id_unique(i as int, k2);
                }
                return Some(self.hypervisors[i].id);
            }
            i = i + 1;
        }
        None
    }

    /// Look a hypervisor up by id; the hostname of the row is returned.
    pub fn get_hypervisor_by_id(&self, id: u64) -> (r: Option<String>)
        requires
            self.hypervisors_wf(),
        ensures
            r is Some <==> self.has_hypervisor_id(id),
            r matches Some(h) ==> h@ == self.hypervisor_by_id(id).hostname@,
    {
        let n = self.hypervisors.len();
        let mut i: usize = 0;
        while i < n
            invariant
                self.hypervisors_wf(),
                n == self.hypervisors@.len(),
                0 <= i <= n,
                forall|j: int| 0 <= j < i ==> (#[trigger] self.hypervisors@[j]).id != id,
            decreases n - i,
        {
            if self.hypervisors[i].id == id {
                let h = self.hypervisors[i].hostname.clone();
                proof {
                    assert(self.has_hypervisor_id(id)) by {
                        assert(self.hypervisors@[i as int].id == id);
                    }
                    let k = choose|k: int|
                        0 <= k < self.hypervisors@.len() && (#[trigger] self.hypervisors@[k]).id
                            == id;
                    self.lemma_hypervisor_id_unique(i as int, k);
                }
                return Some(h);
            }
            i = i + 1;
        }
        None
    }

    /// Register a new hypervisor row. Fails (with `None`) only when the id
    /// space is exhausted.
    pub fn hypervisor_register(
        &mut self,
        hostname: &str,
        total_ram: i32,
        total_cpu: i32,
        used_ram: i32,
        used_cpu: i32,
        arch: &str,
        hosted_vms: i32,
    ) -> (r: Option<u64>)
        requires
            old(self).wf(),
            !old(self).has_hypervisor_hostname(hostname@),
        ensures
            final(self).wf(),
            r is None <==> old(self).next_id == u64::MAX,
            r is None ==> *final(self) == *old(self),
            r matches Some(id) ==> {
                &&& id == old(self).next_id
                &&& final(self).next_id == old(self).next_id + 1
                &&& final(self).hypervisors@.len() == old(self).hypervisors@.len() + 1
                &&& final(self).hypervisors@.subrange(0, old(self).hypervisors@.len() as int)
                    == old(self).hypervisors@
                &&& final(self).hypervisors@.last().id == id
                &&& final(self).hypervisors@.last().hostname@ == hostname@
                &&& final(self).hypervisors@.last().total_ram == total_ram
                &&& final(self).hypervisors@.last().total_cpu == total_cpu
                &&& final(self).hypervisors@.last().used_ram == used_ram
                &&& final(self).hypervisors@.last().used_cpu == used_cpu
                &&& final(self).hypervisors@.last().arch@ == arch@
                &&& final(self).hypervisors@.last().hosted_vms == hosted_vms
                &&& final(self).same_but_hypervisors(*old(self))
                &&& final(self).has_hypervisor_hostname(hostname@)
                &&& final(self).hypervisor_by_hostname(hostname@)
                    == final(self).hypervisors@.last()
            },
    {
        if self.next_id == u64::MAX {
            return None;
        }
        let id = self.next_id;
        self.next_id = self.next_id + 1;
        let row = HypervisorScheduler {
            id,
            hostname: hostname.to_owned(),
            total_ram,
            total_cpu,
            used_ram,
            used_cpu,
            hosted_vms,
            arch: arch.to_owned(),
        };
        self.hypervisors.push(row);
        proof {
            let newlen = self.hypervisors@.len() as int;
            assert(self.hypervisors@.subrange(0, old(self).hypervisors@.len() as int) =~= old(
                self,
            ).hypervisors@);
            assert(self.has_hypervisor_hostname(hostname@)) by {
                assert(self.hypervisors@[newlen - 1].hostname@ == hostname@);
            }
            assert(self.hypervisors_wf()) by {
                assert forall|a: int, b: int| 0 <= a < b < newlen implies (
                #[trigger] self.hypervisors@[a]).id != (#[trigger] self.hypervisors@[b]).id
                    && self.hypervisors@[a].hostname@ != self.hypervisors@[b].hostname@ by {
                    if b < newlen - 1 {
                        assert(self.hypervisors@[a] == old(self).hypervisors@[a]);
                        assert(self.hypervisors@[b] == old(self).hypervisors@[b]);
                    } else {
                        assert(self.hypervisors@[a] == old(self).hypervisors@[a]);
                        assert(old(self).hypervisors@[a].id < old(self).next_id);
                        assert(old(self).hypervisors@[a].hostname@ != hostname@);
                    }
                }
            }
            let k = choose|k: int|
                0 <= k < self.hypervisors@.len() && (#[trigger] self.hypervisors@[k]).hostname@
                    == hostname@;
            self.lemma_hypervisor_hostname_unique(newlen - 1, k);
        }
        Some(id)
    }

    /// Two hypervisor rows agreeing on everything but the usage counters.
    pub open spec fn hypervisor_same_but_usage(a: HypervisorScheduler, b: HypervisorScheduler) -> bool {
        &&& a.id == b.id
        &&& a.hostname == b.hostname
        &&& a.total_ram == b.total_ram
        &&& a.total_cpu == b.total_cpu
        &&& a.arch == b.arch
    }

    /// Overwrite the usage counters of the hypervisor row with id `id`.
    pub fn update_hypervisor(&mut self, id: u64, used_ram: i32, used_cpu: i32, hosted_vms: i32) -> (found: bool)
        requires
            old(self).wf(),
        ensures
            final(self).wf(),
            found <==> old(self).has_hypervisor_id(id),
            !found ==> *final(self) == *old(self),
            found ==> {
                &&& exists|j: int|
                    0 <= j < old(self).hypervisors@.len() && old(self).hypervisors@[j].id == id
                        && final(self).hypervisors@ == old(self).hypervisors@.update(
                        j,
                        final(self).hypervisors@[j],
                    ) && Self::hypervisor_same_but_usage(
                        final(self).hypervisors@[j],
                        old(self).hypervisors@[j],
                    ) && final(self).hypervisors@[j].used_ram == used_ram
                        && final(self).hypervisors@[j].used_cpu == used_cpu
                        && final(self).hypervisors@[j].hosted_vms == hosted_vms
                &&& final(self).same_but_hypervisors(*old(self))
                &&& final(self).next_id == old(self).next_id
            },
    {
        let n = self.hypervisors.len();
        let mut i: usize = 0;
        while i < n
            invariant
                *self == *old(self),
                self.wf(),
                n == self.hypervisors@.len(),
                0 <= i <= n,
                forall|j: int| 0 <= j < i ==> (#[trigger] self.hypervisors@[j]).id != id,
            decreases n - i,
        {
            if self.hypervisors[i].id == id {
                let mut row = self.hypervisors.remove(i);
                row.used_ram = used_ram;
                row.used_cpu = used_cpu;
                row.hosted_vms = hosted_vms;
                self.hypervisors.insert(i, row);
                proof {
                    let oldt = old(self).hypervisors@;
                    assert(self.hypervisors@ =~= oldt.update(i as int, self.hypervisors@[i as int]));
                    assert(self.hypervisors_wf()) by {
                        assert forall|a: int, b: int| 0 <= a < b < self.hypervisors@.len() implies (
                        #[trigger] self.hypervisors@[a]).id != (#[trigger] self.hypervisors@[b]).id
                            && self.hypervisors@[a].hostname@ != self.hypervisors@[b].hostname@ by {
                            assert(self.hypervisors@[a].id == oldt[a].id && self.hypervisors@[a].hostname@
                                == oldt[a].hostname@);
                            assert(self.hypervisors@[b].id == oldt[b].id && self.hypervisors@[b].hostname@
                                == oldt[b].hostname@);
                            assert(oldt[a].id != oldt[b].id && oldt[a].hostname@ != oldt[b].hostname@);
                        }
                    }
                }
                return true;
            }
            i = i + 1;
        }
        false
    }

    /// Some hypervisor row has architecture `arch`.
    pub open spec fn has_hypervisor_arch(self, arch: Seq<char>) -> bool {
        exists|i: int|
            0 <= i < self.hypervisors@.len() && (#[trigger] self.hypervisors@[i]).arch@ == arch
    }

    /// `m` is at most the `hosted_vms` count of every hypervisor row with
    /// architecture `arch`.
    pub open spec fn is_min_hosted(self, arch: Seq<char>, m: i32) -> bool {
        forall|i: int|
            0 <= i < self.hypervisors@.len() && (#[trigger] self.hypervisors@[i]).arch@ == arch
                ==> self.hypervisors@[i].hosted_vms >= m
    }

    /// All hypervisor rows of architecture `arch` whose `hosted_vms` count is
    /// the minimum across that architecture, in table order.
    pub fn get_hypervisors_min_hosted_vms(&self, arch: &str) -> (r: Vec<HypervisorScheduler>)
        ensures
            r@.len() > 0 <==> self.has_hypervisor_arch(arch@),
            forall|m: int|
                0 <= m < r@.len() ==> (#[trigger] r@[m]).arch@ == arch@ && self.is_min_hosted(
                    arch@,
                    r@[m].hosted_vms,
                ) && exists|k: int|
                    0 <= k < self.hypervisors@.len() && #[trigger] self.hypervisors@[k] == r@[m],
            forall|k: int|
                0 <= k < self.hypervisors@.len() && (#[trigger] self.hypervisors@[k]).arch@ == arch@
                    && self.is_min_hosted(arch@, self.hypervisors@[k].hosted_vms) ==> exists|m: int|
                    0 <= m < r@.len() && #[trigger] r@[m] == self.hypervisors@[k],
    {
        let n = self.hypervisors.len();
        let mut best: Option<i32> = None;
        let mut i: usize = 0;
        while i < n
            invariant
                n == self.hypervisors@.len(),
                0 <= i <= n,
                best is None ==> forall|j: int|
                    0 <= j < i ==> (#[trigger] self.hypervisors@[j]).arch@ != arch@,
                best matches Some(m) ==> (exists|j: int|
                    0 <= j < i && (#[trigger] self.hypervisors@[j]).arch@ == arch@
                        && self.hypervisors@[j].hosted_vms == m) && forall|j: int|
                    0 <= j < i && (#[trigger] self.hypervisors@[j]).arch@ == arch@
                        ==> self.hypervisors@[j].hosted_vms >= m,
            decreases n - i,
        {
            if str_eq(self.hypervisors[i].arch.as_str(), arch) {
                let h = self.hypervisors[i].hosted_vms;
                match best {
                    None => {
                        best = Some(h);
                        proof {
                            assert(self.hypervisors@[i as int].arch@ == arch@
                                && self.hypervisors@[i as int].hosted_vms == h);
                        }
                    },
                    Some(m) => {
                        if h < m {
                            best = Some(h);
                            proof {
                                assert(self.hypervisors@[i as int].arch@ == arch@
                                    && self.hypervisors@[i as int].hosted_vms == h);
                            }
                        }
                    },
                }
            }
            i = i + 1;
        }
        let mut r: Vec<HypervisorScheduler> = Vec::new();
        match best {
            None => {
                proof {
                    assert(!self.has_hypervisor_arch(arch@));
                }
                r
            },
            Some(m) => {
                let mut i: usize = 0;
                while i < n
                    invariant
                        n == self.hypervisors@.len(),
                        0 <= i <= n,
                        exists|j: int|
                            0 <= j < n && (#[trigger] self.hypervisors@[j]).arch@ == arch@
                                && self.hypervisors@[j].hosted_vms == m,
                        forall|j: int|
                            0 <= j < n && (#[trigger] self.hypervisors@[j]).arch@ == arch@
                                ==> self.hypervisors@[j].hosted_vms >= m,
                        forall|t: int|
                            0 <= t < r@.len() ==> (#[trigger] r@[t]).arch@ == arch@
                                && r@[t].hosted_vms == m && exists|k: int|
                                0 <= k < self.hypervisors@.len() && #[trigger] self.hypervisors@[k]
                                    == r@[t],
                        forall|k: int|
                            0 <= k < i && (#[trigger] self.hypervisors@[k]).arch@ == arch@
                                && self.hypervisors@[k].hosted_vms == m ==> exists|t: int|
                                0 <= t < r@.len() && #[trigger] r@[t] == self.hypervisors@[k],
                    decreases n - i,
                {
                    if str_eq(self.hypervisors[i].arch.as_str(), arch)
                        && self.hypervisors[i].hosted_vms == m {
                        let row = HypervisorScheduler {
                            id: self.hypervisors[i].id,
                            hostname: self.hypervisors[i].hostname.clone(),
                            total_ram: self.hypervisors[i].total_ram,
                            total_cpu: self.hypervisors[i].total_cpu,
                            used_ram: self.hypervisors[i].used_ram,
                            used_cpu: self.hypervisors[i].used_cpu,
                            hosted_vms: self.hypervisors[i].hosted_vms,
                            arch: self.hypervisors[i].arch.clone(),
                        };
                        proof {
                            assert(row == self.hypervisors@[i as int]);
                        }
                        let ghost r0 = r@;
                        r.push(row);
                        proof {
                            assert forall|k: int|
                                0 <= k < i + 1 && (#[trigger] self.hypervisors@[k]).arch@ == arch@
                                    && self.hypervisors@[k].hosted_vms == m implies exists|t: int|
                                0 <= t < r@.len() && #[trigger] r@[t] == self.hypervisors@[k] by {
                                if k == i {
                                    assert(r@[r@.len() - 1] == self.hypervisors@[k]);
                                } else {
                                    let t = choose|t: int|
                                        0 <= t < r0.len() && #[trigger] r0[t]
                                            == self.hypervisors@[k];
                                    assert(r@[t] == self.hypervisors@[k]);
                                }
                            }
                        }
                    }
                    i = i + 1;
                }
                proof {
                    let j = choose|j: int|
                        0 <= j < n && (#[trigger] self.hypervisors@[j]).arch@ == arch@
                            && self.hypervisors@[j].hosted_vms == m;
                    assert(exists|t: int| 0 <= t < r@.len() && #[trigger] r@[t]
                        == self.hypervisors@[j]);
                    assert(self.has_hypervisor_arch(arch@)) by {
                        assert(self.hypervisors@[j].arch@ == arch@);
                    }
                    assert forall|t: int| 0 <= t < r@.len() implies (#[trigger] r@[t]).arch@
                        == arch@ && self.is_min_hosted(arch@, r@[t].hosted_vms) && exists|k: int|
                        0 <= k < self.hypervisors@.len() && #[trigger] self.hypervisors@[k]
                            == r@[t] by {
                        assert(r@[t].hosted_vms == m);
                    }
                }
                r
            },
        }
    }

    /// All hypervisor rows.
    pub fn list_hypervisors(&self) -> (r: Vec<HypervisorScheduler>)
        ensures
            r@ == self.hypervisors@,
    {
        let n = self.hypervisors.len();
        let mut r: Vec<HypervisorScheduler> = Vec::new();
        let mut i: usize = 0;
        while i < n
            invariant
                n == self.hypervisors@.len(),
                0 <= i <= n,
                r@ =~= self.hypervisors@.subrange(0, i as int),
            decreases n - i,
        {
            let row = HypervisorScheduler {
                id: self.hypervisors[i].id,
                hostname: self.hypervisors[i].hostname.clone(),
                total_ram: self.hypervisors[i].total_ram,
                total_cpu: self.hypervisors[i].total_cpu,
                used_ram: self.hypervisors[i].used_ram,
                used_cpu: self.hypervisors[i].used_cpu,
                hosted_vms: self.hypervisors[i].hosted_vms,
                arch: self.hypervisors[i].arch.clone(),
            };
            proof {
                assert(row == self.hypervisors@[i as int]);
            }
            r.push(row);
            proof {
                assert(r@ =~= self.hypervisors@.subrange(0, i as int + 1));
            }
            i = i + 1;
        }
        proof {
            assert(self.hypervisors@.subrange(0, n as int) =~= self.hypervisors@);
        }
        r
    }

    /// There is a VM row named `name` under tenant `tenant`.
    pub open spec fn has_vm(self, name: Seq<char>, tenant: u64) -> bool {
        exists|i: int|
            0 <= i < self.vms@.len() && (#[trigger] self.vms@[i]).name@ == name
                && self.vms@[i].tenant == tenant
    }

    /// The (unique) VM row named `name` under tenant `tenant`.
    pub open spec fn vm_by_name(self, name: Seq<char>, tenant: u64) -> VirtualMachine {
        self.vms@[choose|i: int|
            0 <= i < self.vms@.len() && (#[trigger] self.vms@[i]).name@ == name
                && self.vms@[i].tenant == tenant]
    }

    /// Some VM row belongs to tenant `tenant`.
    pub open spec fn has_vm_for_tenant(self, tenant: u64) -> bool {
        exists|i: int| 0 <= i < self.vms@.len() && (#[trigger] self.vms@[i]).tenant == tenant
    }

    /// Two VM rows under one tenant carrying the same name are the same row.
    pub proof fn lemma_vm_unique(self, i: int, k: int)
        requires
            self.vms_wf(),
            0 <= i < self.vms@.len(),
            0 <= k < self.vms@.len(),
            self.vms@[i].name@ == self.vms@[k].name@,
            self.vms@[i].tenant == self.vms@[k].tenant,
        ensures
            i == k,
    {
        if i < k {
            assert(!(self.vms@[i].tenant == self.vms@[k].tenant && self.vms@[i].name@
                == self.vms@[k].name@));
        } else if k < i {
            assert(!(self.vms@[k].tenant == self.vms@[i].tenant && self.vms@[k].name@
                == self.vms@[i].name@));
        }
    }

    /// The two VM rows agree field by field, comparing text by contents.
    pub open spec fn vm_view_eq(a: VirtualMachine, b: VirtualMachine) -> bool {
        &&& a.name@ == b.name@
        &&& a.ram == b.ram
        &&& a.cpu == b.cpu
        &&& a.state@ == b.state@
        &&& a.os@ == b.os@
        &&& a.disk_size == b.disk_size
        &&& a.vpc == b.vpc
        &&& a.ssh_pub_key == b.ssh_pub_key
        &&& a.tenant == b.tenant
        &&& a.hypervisor == b.hypervisor
        &&& a.ip_addresses@ == b.ip_addresses@
        &&& a.networking@ == b.networking@
        &&& (a.network is Some <==> b.network is Some)
        &&& (a.network is Some ==> (a.network->0)@ == (b.network->0)@)
    }

    /// Look a VM up by name and tenant; a copy of the row is returned.
    pub fn get_virtual_machine_by_name(&self, name: &str, tenant: u64) -> (r: Option<
        VirtualMachine,
    >)
        requires
            self.vms_wf(),
        ensures
            r is Some <==> self.has_vm(name@, tenant),
            r matches Some(vm) ==> Self::vm_view_eq(vm, self.vm_by_name(name@, tenant)),
    {
        let n = self.vms.len();
        let mut i: usize = 0;
        while i < n
            invariant
                self.vms_wf(),
                n == self.vms@.len(),
                0 <= i <= n,
                forall|j: int|
                    0 <= j < i ==> !((#[trigger] self.vms@[j]).name@ == name@
                        && self.vms@[j].tenant == tenant),
            decreases n - i,
        {
            if self.vms[i].tenant == tenant && str_eq(self.vms[i].name.as_str(), name) {
                let vm = VirtualMachine {
                    name: self.vms[i].name.clone(),
                    ram: self.vms[i].ram,
                    cpu: self.vms[i].cpu,
                    state: self.vms[i].state.clone(),
                    os: self.vms[i].os.clone(),
                    disk_size: self.vms[i].disk_size,
                    vpc: self.vms[i].vpc,
                    ssh_pub_key: self.vms[i].ssh_pub_key,
                    tenant: self.vms[i].tenant,
                    hypervisor: self.vms[i].hypervisor,
                    ip_addresses: crate::text::clone_strings(&self.vms[i].ip_addresses),
                    networking: self.vms[i].networking.clone(),
                    network: match &self.vms[i].network {
                        Some(nw) => Some(nw.clone()),
                        None => None,
                    },
                };
                proof {
                    assert(self.has_vm(name@, tenant)) by {
                        assert(self.vms@[i as int].name@ == name@ && self.vms@[i as int].tenant
                            == tenant);
                    }
                    let k = choose|k: int|
                        0 <= k < self.vms@.len() && (#[trigger] self.vms@[k]).name@ == name@
                            && self.vms@[k].tenant == tenant;
                    self.lemma_vm_unique(i as int, k);
                    assert(Self::vm_view_eq(vm, self.vms@[i as int]));
                }
                return Some(vm);
            }
            i = i + 1;
        }
        None
    }

    /// The first VM row of tenant `tenant`, if any.
    pub fn get_virtual_machine_by_tenant(&self, tenant: u64) -> (r: Option<VirtualMachine>)
        ensures
            r is Some <==> self.has_vm_for_tenant(tenant),
    {
        let n = self.vms.len();
        let mut i: usize = 0;
        while i < n
            invariant
                n == self.vms@.len(),
                0 <= i <= n,
                forall|j: int| 0 <= j < i ==> (#[trigger] self.vms@[j]).tenant != tenant,
            decreases n - i,
        {
            if self.vms[i].tenant == tenant {
                let vm = VirtualMachine {
                    name: self.vms[i].name.clone(),
                    ram: self.vms[i].ram,
                    cpu: self.vms[i].cpu,
                    state: self.vms[i].state.clone(),
                    os: self.vms[i].os.clone(),
                    disk_size: self.vms[i].disk_size,
                    vpc: self.vms[i].vpc,
                    ssh_pub_key: self.vms[i].ssh_pub_key,
                    tenant: self.vms[i].tenant,
                    hypervisor: self.vms[i].hypervisor,
                    ip_addresses: crate::text::clone_strings(&self.vms[i].ip_addresses),
                    networking: self.vms[i].networking.clone(),
                    network: match &self.vms[i].network {
                        Some(nw) => Some(nw.clone()),
                        None => None,
                    },
                };
                proof {
                    assert(self.has_vm_for_tenant(tenant)) by {
                        assert(self.vms@[i as int].tenant == tenant);
                    }
                }
                return Some(vm);
            }
            i = i + 1;
        }
        None
    }

    /// Insert a VM row.
    pub fn create_virtual_machine(
        &mut self,
        name: &str,
        cpu: i32,
        ram: i32,
        tenant: u64,
        vpc: u64,
        ssh_pub_key: u64,
        disk_size: i32,
        hypervisor: u64,
        os: &str,
        state: &str,
        networking: &str,
        network: &Option<String>,
    )
        requires
            old(self).wf(),
            !old(self).has_vm(name@, tenant),
        ensures
            final(self).wf(),
            final(self).vms@.len() == old(self).vms@.len() + 1,
            final(self).vms@.subrange(0, old(self).vms@.len() as int) == old(self).vms@,
            final(self).vms@.last().name@ == name@,
            final(self).vms@.last().ram == ram,
            final(self).vms@.last().cpu == cpu,
            final(self).vms@.last().state@ == state@,
            final(self).vms@.last().os@ == os@,
            final(self).vms@.last().disk_size == disk_size,
            final(self).vms@.last().vpc == vpc,
            final(self).vms@.last().ssh_pub_key == ssh_pub_key,
            final(self).vms@.last().tenant == tenant,
            final(self).vms@.last().hypervisor == hypervisor,
            final(self).vms@.last().ip_addresses@.len() == 0,
            final(self).vms@.last().networking@ == networking@,
            final(self).vms@.last().network is Some <==> network is Some,
            network matches Some(nw) ==> (final(self).vms@.last().network->0)@ == nw@,
            final(self).same_but_vms(*old(self)),
            final(self).has_vm(name@, tenant),
            final(self).vm_by_name(name@, tenant) == final(self).vms@.last(),
    {
        let network_copy: Option<String> = match network {
            Some(nw) => Some(nw.clone()),
            None => None,
        };
        let row = VirtualMachine {
            name: name.to_owned(),
            ram,
            cpu,
            state: state.to_owned(),
            os: os.to_owned(),
            disk_size,
            vpc,
            ssh_pub_key,
            tenant,
            hypervisor,
            ip_addresses: Vec::new(),
            networking: networking.to_owned(),
            network: network_copy,
        };
        self.vms.push(row);
        proof {
            let newlen = self.vms@.len() as int;
            assert(self.vms@.subrange(0, old(self).vms@.len() as int) =~= old(self).vms@);
            assert(self.has_vm(name@, tenant)) by {
                assert(self.vms@[newlen - 1].name@ == name@ && self.vms@[newlen - 1].tenant
                    == tenant);
            }
            assert(self.vms_wf()) by {
                assert forall|a: int, b: int| 0 <= a < b < newlen implies !((
                #[trigger] self.vms@[a]).tenant == (#[trigger] self.vms@[b]).tenant
                    && self.vms@[a].name@ == self.vms@[b].name@) by {
                    if b < newlen - 1 {
                        assert(self.vms@[a] == old(self).vms@[a]);
                        assert(self.vms@[b] == old(self).vms@[b]);
                    } else {
                        assert(self.vms@[a] == old(self).vms@[a]);
                        assert(!(old(self).vms@[a].name@ == name@ && old(self).vms@[a].tenant
                            == tenant));
                    }
                }
            }
            let k = choose|k: int|
                0 <= k < self.vms@.len() && (#[trigger] self.vms@[k]).name@ == name@
                    && self.vms@[k].tenant == tenant;
            self.lemma_vm_unique(newlen - 1, k);
        }
    }

    /// Remove the VM row named `name` under tenant `tenant`, if any.
    pub fn delete_virtual_machine(&mut self, name: &str, tenant: u64) -> (found: bool)
        requires
            old(self).wf(),
        ensures
            final(self).wf(),
            found <==> old(self).has_vm(name@, tenant),
            !found ==> *final(self) == *old(self),
            found ==> {
                &&& exists|j: int|
                    0 <= j < old(self).vms@.len() && old(self).vms@[j].name@ == name@
                        && old(self).vms@[j].tenant == tenant
                        && final(self).vms@ == old(self).vms@.remove(j)
                &&& final(self).same_but_vms(*old(self))
                &&& !final(self).has_vm(name@, tenant)
            },
    {
        let n = self.vms.len();
        let mut i: usize = 0;
        while i < n
            invariant
                *self == *old(self),
                self.wf(),
                n == self.vms@.len(),
                0 <= i <= n,
                forall|j: int|
                    0 <= j < i ==> !((#[trigger] self.vms@[j]).name@ == name@
                        && self.vms@[j].tenant == tenant),
            decreases n - i,
        {
            if self.vms[i].tenant == tenant && str_eq(self.vms[i].name.as_str(), name) {
                self.vms.remove(i);
                proof {
                    let oldt = old(self).vms@;
                    assert(oldt[i as int].name@ == name@ && oldt[i as int].tenant == tenant
                        && self.vms@ == oldt.remove(i as int));
                    assert forall|k: int| 0 <= k < self.vms@.len() implies !((
                    #[trigger] self.vms@[k]).name@ == name@ && self.vms@[k].tenant == tenant) by {
                        if k < i {
                            assert(self.vms@[k] == oldt[k]);
                        } else {
                            assert(self.vms@[k] == oldt[k + 1]);
                            assert(!(oldt[i as int].tenant == oldt[k + 1].tenant
                                && oldt[i as int].name@ == oldt[k + 1].name@));
                        }
                    }
                    assert(self.vms_wf()) by {
                        assert forall|a: int, b: int| 0 <= a < b < self.vms@.len() implies !((
                        #[trigger] self.vms@[a]).tenant == (#[trigger] self.vms@[b]).tenant
                            && self.vms@[a].name@ == self.vms@[b].name@) by {
                            let a0: int = if a < i { a } else { a + 1 };
                            let b0: int = if b < i { b } else { b + 1 };
                            assert(self.vms@[a] == oldt[a0]);
                            assert(self.vms@[b] == oldt[b0]);
                            assert(!(oldt[a0].tenant == oldt[b0].tenant && oldt[a0].name@
                                == oldt[b0].name@));
                        }
                    }
                }
                return true;
            }
            i = i + 1;
        }
        false
    }

    /// The two VM rows agree on every field but `state`.
    pub open spec fn vm_same_but_state(a: VirtualMachine, b: VirtualMachine) -> bool {
        &&& a.name == b.name
        &&& a.ram == b.ram
        &&& a.cpu == b.cpu
        &&& a.os == b.os
        &&& a.disk_size == b.disk_size
        &&& a.vpc == b.vpc
        &&& a.ssh_pub_key == b.ssh_pub_key
        &&& a.tenant == b.tenant
        &&& a.hypervisor == b.hypervisor
        &&& a.ip_addresses == b.ip_addresses
        &&& a.networking == b.networking
        &&& a.network == b.network
    }

    /// The two VM rows agree on every field but `state` and `ip_addresses`.
    pub open spec fn vm_same_but_state_ips(a: VirtualMachine, b: VirtualMachine) -> bool {
        &&& a.name == b.name
        &&& a.ram == b.ram
        &&& a.cpu == b.cpu
        &&& a.os == b.os
        &&& a.disk_size == b.disk_size
        &&& a.vpc == b.vpc
        &&& a.ssh_pub_key == b.ssh_pub_key
        &&& a.tenant == b.tenant
        &&& a.hypervisor == b.hypervisor
        &&& a.networking == b.networking
        &&& a.network == b.network
    }

    /// The two VM rows agree on every field but `ip_addresses`.
    pub open spec fn vm_same_but_ips(a: VirtualMachine, b: VirtualMachine) -> bool {
        &&& a.name == b.name
        &&& a.ram == b.ram
        &&& a.cpu == b.cpu
        &&& a.state == b.state
        &&& a.os == b.os
        &&& a.disk_size == b.disk_size
        &&& a.vpc == b.vpc
        &&& a.ssh_pub_key == b.ssh_pub_key
        &&& a.tenant == b.tenant
        &&& a.hypervisor == b.hypervisor
        &&& a.networking == b.networking
        &&& a.network == b.network
    }

    /// Overwrite the state of the VM row named `name` under tenant `tenant`.
    pub fn update_vm_state(&mut self, name: &str, tenant: u64, state: &str) -> (found: bool)
        requires
            old(self).wf(),
        ensures
            final(self).wf(),
            found <==> old(self).has_vm(name@, tenant),
            !found ==> *final(self) == *old(self),
            found ==> {
                &&& exists|j: int|
                    0 <= j < old(self).vms@.len() && old(self).vms@[j].name@ == name@
                        && old(self).vms@[j].tenant == tenant
                        && final(self).vms@ == old(self).vms@.update(j, final(self).vms@[j])
                        && Self::vm_same_but_state(final(self).vms@[j], old(self).vms@[j])
                        && final(self).vms@[j].state@ == state@
                &&& final(self).same_but_vms(*old(self))
            },
    {
        let n = self.vms.len();
        let mut i: usize = 0;
        while i < n
            invariant
                *self == *old(self),
                self.wf(),
                n == self.vms@.len(),
                0 <= i <= n,
                forall|j: int|
                    0 <= j < i ==> !((#[trigger] self.vms@[j]).name@ == name@
                        && self.vms@[j].tenant == tenant),
            decreases n - i,
        {
            if self.vms[i].tenant == tenant && str_eq(self.vms[i].name.as_str(), name) {
                let mut row = self.vms.remove(i);
                row.state = state.to_owned();
                self.vms.insert(i, row);
                proof {
                    let oldt = old(self).vms@;
                    assert(self.vms@ =~= oldt.update(i as int, self.vms@[i as int]));
                    assert(self.vms_wf()) by {
                        assert forall|a: int, b: int| 0 <= a < b < self.vms@.len() implies !((
                        #[trigger] self.vms@[a]).tenant == (#[trigger] self.vms@[b]).tenant
                            && self.vms@[a].name@ == self.vms@[b].name@) by {
                            assert(self.vms@[a].tenant == oldt[a].tenant && self.vms@[a].name@
                                == oldt[a].name@);
                            assert(self.vms@[b].tenant == oldt[b].tenant && self.vms@[b].name@
                                == oldt[b].name@);
                            assert(!(oldt[a].tenant == oldt[b].tenant && oldt[a].name@
                                == oldt[b].name@));
                        }
                    }
                }
                return true;
            }
            i = i + 1;
        }
        false
    }

    /// Overwrite the IP address list of the VM row named `name` under tenant
    /// `tenant`.
    pub fn update_vm_ip_addr(&mut self, name: &str, tenant: u64, ip_addresses: &Vec<String>) -> (found: bool)
        requires
            old(self).wf(),
        ensures
            final(self).wf(),
            found <==> old(self).has_vm(name@, tenant),
            !found ==> *final(self) == *old(self),
            found ==> {
                &&& exists|j: int|
                    0 <= j < old(self).vms@.len() && old(self).vms@[j].name@ == name@
                        && old(self).vms@[j].tenant == tenant
                        && final(self).vms@ == old(self).vms@.update(j, final(self).vms@[j])
                        && Self::vm_same_but_ips(final(self).vms@[j], old(self).vms@[j])
                        && final(self).vms@[j].ip_addresses@ == ip_addresses@
                &&& final(self).same_but_vms(*old(self))
            },
    {
        let n = self.vms.len();
        let mut i: usize = 0;
        while i < n
            invariant
                *self == *old(self),
                self.wf(),
                n == self.vms@.len(),
                0 <= i <= n,
                forall|j: int|
                    0 <= j < i ==> !((#[trigger] self.vms@[j]).name@ == name@
                        && self.vms@[j].tenant == tenant),
            decreases n - i,
        {
            if self.vms[i].tenant == tenant && str_eq(self.vms[i].name.as_str(), name) {
                let mut row = self.vms.remove(i);
                row.ip_addresses = crate::text::clone_strings(ip_addresses);
                self.vms.insert(i, row);
                proof {
                    let oldt = old(self).vms@;
                    assert(self.vms@ =~= oldt.update(i as int, self.vms@[i as int]));
                    assert(self.vms_wf()) by {
                        assert forall|a: int, b: int| 0 <= a < b < self.vms@.len() implies !((
                        #[trigger] self.vms@[a]).tenant == (#[trigger] self.vms@[b]).tenant
                            && self.vms@[a].name@ == self.vms@[b].name@) by {
                            assert(self.vms@[a].tenant == oldt[a].tenant && self.vms@[a].name@
                                == oldt[a].name@);
                            assert(self.vms@[b].tenant == oldt[b].tenant && self.vms@[b].name@
                                == oldt[b].name@);
                            assert(!(oldt[a].tenant == oldt[b].tenant && oldt[a].name@
                                == oldt[b].name@));
                        }
                    }
                }
                return true;
            }
            i = i + 1;
        }
        false
    }

    /// All VM rows of tenant `tenant`, as copies: every returned VM renders a
    /// row of the tenant, and every row of the tenant is returned.
    pub fn list_virtual_machines(&self, tenant: u64) -> (r: Vec<VirtualMachine>)
        ensures
            r@.len() > 0 <==> self.has_vm_for_tenant(tenant),
            forall|m: int|
                0 <= m < r@.len() ==> (#[trigger] r@[m]).tenant == tenant && exists|k: int|
                    0 <= k < self.vms@.len() && Self::vm_view_eq(#[trigger] self.vms@[k], r@[m]),
            forall|k: int|
                0 <= k < self.vms@.len() && (#[trigger] self.vms@[k]).tenant == tenant ==> exists|
                    m: int,
                |
                    0 <= m < r@.len() && Self::vm_view_eq(self.vms@[k], #[trigger] r@[m]),
    {
        let n = self.vms.len();
        let mut r: Vec<VirtualMachine> = Vec::new();
        let mut i: usize = 0;
        while i < n
            invariant
                n == self.vms@.len(),
                0 <= i <= n,
                forall|m: int|
                    0 <= m < r@.len() ==> (#[trigger] r@[m]).tenant == tenant && exists|k: int|
                        0 <= k < self.vms@.len() && Self::vm_view_eq(
                            #[trigger] self.vms@[k],
                            r@[m],
                        ),
                forall|k: int|
                    0 <= k < i && (#[trigger] self.vms@[k]).tenant == tenant ==> exists|m: int|
                        0 <= m < r@.len() && Self::vm_view_eq(self.vms@[k], #[trigger] r@[m]),
                r@.len() > 0 ==> self.has_vm_for_tenant(tenant),
                r@.len() == 0 ==> forall|j: int|
                    0 <= j < i ==> (#[trigger] self.vms@[j]).tenant != tenant,
            decreases n - i,
        {
            if self.vms[i].tenant == tenant {
                let vm = VirtualMachine {
                    name: self.vms[i].name.clone(),
                    ram: self.vms[i].ram,
                    cpu: self.vms[i].cpu,
                    state: self.vms[i].state.clone(),
                    os: self.vms[i].os.clone(),
                    disk_size: self.vms[i].disk_size,
                    vpc: self.vms[i].vpc,
                    ssh_pub_key: self.vms[i].ssh_pub_key,
                    tenant: self.vms[i].tenant,
                    hypervisor: self.vms[i].hypervisor,
                    ip_addresses: crate::text::clone_strings(&self.vms[i].ip_addresses),
                    networking: self.vms[i].networking.clone(),
                    network: match &self.vms[i].network {
                        Some(nw) => Some(nw.clone()),
                        None => None,
                    },
                };
                proof {
                    assert(Self::vm_view_eq(self.vms@[i as int], vm));
                    assert(self.has_vm_for_tenant(tenant)) by {
                        assert(self.vms@[i as int].tenant == tenant);
                    }
                }
                let ghost r0 = r@;
                r.push(vm);
                proof {
                    assert forall|k: int|
                        0 <= k < i + 1 && (#[trigger] self.vms@[k]).tenant == tenant implies exists|
                        m: int,
                    | 0 <= m < r@.len() && Self::vm_view_eq(self.vms@[k], #[trigger] r@[m]) by {
                        if k == i {
                            assert(Self::vm_view_eq(self.vms@[k], r@[r@.len() - 1]));
                        } else {
                            let m = choose|m: int|
                                0 <= m < r0.len() && Self::vm_view_eq(
                                    self.vms@[k],
                                    #[trigger] r0[m],
                                );
                            assert(Self::vm_view_eq(self.vms@[k], r@[m]));
                        }
                    }
                }
            }
            i = i + 1;
        }
        r
    }

    /// Some VPC row belongs to tenant `tenant`.
    pub open spec fn has_vpc_for_tenant(self, tenant: u64) -> bool {
        exists|i: int| 0 <= i < self.vpcs@.len() && (#[trigger] self.vpcs@[i]).tenant == tenant
    }

    /// The list item renders the stored VPC row.
    pub open spec fn vpc_item_of(item: crate::rows::Vpc, row: VpcRow) -> bool {
        &&& item.id == Some(row.id)
        &&& item.name is Some && (item.name->0)@ == row.name@
        &&& item.cidr is Some && (item.cidr->0)@ == row.cidr@
        &&& item.nat == Some(row.nat)
        &&& item.tenant == Some(row.tenant)
    }

    /// All VPC rows of tenant `tenant`, as list items: every item renders a
    /// row of the tenant, and every row of the tenant is rendered.
    pub fn list_vpcs_by_tenantid(&self, tenant: u64) -> (r: Vec<crate::rows::Vpc>)
        ensures
            r@.len() > 0 <==> self.has_vpc_for_tenant(tenant),
            forall|m: int|
                0 <= m < r@.len() ==> exists|k: int|
                    0 <= k < self.vpcs@.len() && (#[trigger] self.vpcs@[k]).tenant == tenant
                        && Self::vpc_item_of(#[trigger] r@[m], self.vpcs@[k]),
            forall|k: int|
                0 <= k < self.vpcs@.len() && (#[trigger] self.vpcs@[k]).tenant == tenant ==> exists|
                    m: int,
                |
                    0 <= m < r@.len() && Self::vpc_item_of(#[trigger] r@[m], self.vpcs@[k]),
    {
        let n = self.vpcs.len();
        let mut r: Vec<crate::rows::Vpc> = Vec::new();
        let mut i: usize = 0;
        while i < n
            invariant
                n == self.vpcs@.len(),
                0 <= i <= n,
                forall|m: int|
                    0 <= m < r@.len() ==> exists|k: int|
                        0 <= k < self.vpcs@.len() && (#[trigger] self.vpcs@[k]).tenant == tenant
                            && Self::vpc_item_of(#[trigger] r@[m], self.vpcs@[k]),
                forall|k: int|
                    0 <= k < i && (#[trigger] self.vpcs@[k]).tenant == tenant ==> exists|m: int|
                        0 <= m < r@.len() && Self::vpc_item_of(#[trigger] r@[m], self.vpcs@[k]),
                r@.len() > 0 ==> self.has_vpc_for_tenant(tenant),
                r@.len() == 0 ==> forall|j: int|
                    0 <= j < i ==> (#[trigger] self.vpcs@[j]).tenant != tenant,
            decreases n - i,
        {
            if self.vpcs[i].tenant == tenant {
                let item = crate::rows::Vpc {
                    id: Some(self.vpcs[i].id),
                    name: Some(self.vpcs[i].name.clone()),
                    cidr: Some(self.vpcs[i].cidr.clone()),
                    nat: Some(self.vpcs[i].nat),
                    tenant: Some(self.vpcs[i].tenant),
                };
                proof {
                    assert(self.has_vpc_for_tenant(tenant)) by {
                        assert(self.vpcs@[i as int].tenant == tenant);
                    }
                    assert(Self::vpc_item_of(item, self.vpcs@[i as int]));
                }
                let ghost r0 = r@;
                r.push(item);
                proof {
                    assert forall|k: int|
                        0 <= k < i + 1 && (#[trigger] self.vpcs@[k]).tenant == tenant implies exists|
                        m: int,
                    | 0 <= m < r@.len() && Self::vpc_item_of(#[trigger] r@[m], self.vpcs@[k]) by {
                        if k == i {
                            assert(Self::vpc_item_of(r@[r@.len() - 1], self.vpcs@[k]));
                        } else {
                            let m = choose|m: int|
                                0 <= m < r0.len() && Self::vpc_item_of(
                                    #[trigger] r0[m],
                                    self.vpcs@[k],
                                );
                            assert(Self::vpc_item_of(r@[m], self.vpcs@[k]));
                        }
                    }
                }
            }
            i = i + 1;
        }
        r
    }
}

} // verus!

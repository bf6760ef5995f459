//! The inventory sink: hypervisor stats ingestion.  A push upserts the
//! hypervisor row (usage counters computed from the reported VMs) and
//! reconciles each reported VM's state and IP addresses with the stored rows.

use vstd::prelude::*;
use crate::db::Database;
use crate::foreign::{lowercase, lower_of};
use crate::response::{ApiResponse, resp, resp_owned, msg2, msg3, OK, BAD_REQUEST,
    INTERNAL_SERVER_ERROR};
use crate::rows::{HypervisorAgent, HypervisorSchedulerVM, TenantRow, VirtualMachine};
use crate::text::str_eq;

verus! {

/// The reported architecture is one the fleet supports.
pub open spec fn spec_arch_supported(arch: Seq<char>) -> bool {
    arch == "x86_64"@ || arch == "aarch64"@
}

/// Sum of `1 + memory` over the reported VMs.
pub open spec fn spec_ram_sum(vms: Seq<HypervisorSchedulerVM>) -> int
    decreases vms.len(),
{
    if vms.len() == 0 {
        0
    } else {
        spec_ram_sum(vms.drop_last()) + 1 + vms.last().memory
    }
}

/// Sum of `1 + cpu` over the reported VMs.
pub open spec fn spec_cpu_sum(vms: Seq<HypervisorSchedulerVM>) -> int
    decreases vms.len(),
{
    if vms.len() == 0 {
        0
    } else {
        spec_cpu_sum(vms.drop_last()) + 1 + vms.last().cpu
    }
}

/// RAM a push charges the hypervisor: the sum, or 1 when no VM is reported
/// (the host's own reservation).
pub open spec fn spec_used_ram(vms: Seq<HypervisorSchedulerVM>) -> int {
    if vms.len() == 0 {
        1
    } else {
        spec_ram_sum(vms)
    }
}

/// CPU a push charges the hypervisor: the sum, or 1 when no VM is reported.
pub open spec fn spec_used_cpu(vms: Seq<HypervisorSchedulerVM>) -> int {
    if vms.len() == 0 {
        1
    } else {
        spec_cpu_sum(vms)
    }
}

/// The nearest `i32` to an unbounded value.
pub open spec fn spec_clamp_i32(x: int) -> int {
    if x > i32::MAX {
        i32::MAX as int
    } else if x < i32::MIN {
        i32::MIN as int
    } else {
        x
    }
}

/// The `hosted_vms` count a push stores: the number of reported VMs.
pub open spec fn spec_hosted(vms: Seq<HypervisorSchedulerVM>) -> int {
    spec_clamp_i32(vms.len() as int)
}

/// The name has a dash.
pub open spec fn spec_has_dash(s: Seq<char>) -> bool {
    exists|i: int| 0 <= i < s.len() && s[i] == '-'
}

/// The index of the first dash.
pub open spec fn spec_first_dash(s: Seq<char>) -> int {
    choose|i: int|
        0 <= i < s.len() && s[i] == '-' && (forall|j: int| 0 <= j < i ==> s[j] != '-')
}

/// Below any dash there is a first dash.
pub proof fn lemma_min_dash(s: Seq<char>, w: int)
    requires
        0 <= w < s.len(),
        s[w] == '-',
    ensures
        exists|i: int|
            0 <= i <= w && s[i] == '-' && (forall|j: int| 0 <= j < i ==> s[j] != '-'),
    decreases w,
{
    if forall|j: int| 0 <= j < w ==> s[j] != '-' {
        assert(0 <= w <= w && s[w] == '-' && (forall|j: int| 0 <= j < w ==> s[j] != '-'));
    } else {
        let j = choose|j: int| 0 <= j < w && s[j] == '-';
        lemma_min_dash(s, j);
        let i = choose|i: int|
            0 <= i <= j && s[i] == '-' && (forall|k: int| 0 <= k < i ==> s[k] != '-');
        assert(0 <= i <= w && s[i] == '-' && (forall|k: int| 0 <= k < i ==> s[k] != '-'));
    }
}

/// The tenant-name part of a reported VM name: everything before the first
/// dash.
pub open spec fn spec_tenant_part(s: Seq<char>) -> Seq<char> {
    s.subrange(0, spec_first_dash(s))
}

/// The VM-name part of a reported VM name: everything after the first dash.
pub open spec fn spec_vm_part(s: Seq<char>) -> Seq<char> {
    s.subrange(spec_first_dash(s) + 1, s.len() as int)
}

/// There is a tenant row named `name` in the table.
pub open spec fn spec_tenants_have(tenants: Seq<TenantRow>, name: Seq<char>) -> bool {
    exists|i: int| 0 <= i < tenants.len() && (#[trigger] tenants[i]).name@ == name
}

/// The entry names a tenant that does not exist (the one per-VM failure the
/// repository can produce).
pub open spec fn spec_entry_tenant_error(tenants: Seq<TenantRow>, e: HypervisorSchedulerVM) -> bool {
    spec_has_dash(e.name@) && !spec_tenants_have(tenants, spec_tenant_part(e.name@))
}

/// Some reported entry names an unknown tenant.
pub open spec fn spec_any_tenant_error(
    tenants: Seq<TenantRow>,
    vms: Seq<HypervisorSchedulerVM>,
) -> bool {
    exists|k: int| 0 <= k < vms.len() && spec_entry_tenant_error(tenants, vms[k])
}

/// The message an entry naming an unknown tenant contributes.
pub open spec fn spec_tenant_error_text(e: HypervisorSchedulerVM) -> Seq<char> {
    "Tenant '"@ + spec_tenant_part(e.name@) + "' not found."@
}

/// The error texts a report accumulates, in report order: one message for
/// each entry whose tenant part resolves to no tenant row.
pub open spec fn spec_error_texts(
    tenants: Seq<TenantRow>,
    entries: Seq<HypervisorSchedulerVM>,
) -> Seq<Seq<char>>
    decreases entries.len(),
{
    if entries.len() == 0 {
        Seq::empty()
    } else {
        spec_error_texts(tenants, entries.drop_last()) + (if spec_entry_tenant_error(
            tenants,
            entries.last(),
        ) {
            seq![spec_tenant_error_text(entries.last())]
        } else {
            Seq::<Seq<char>>::empty()
        })
    }
}

/// The reported entry names this stored row: its name splits as
/// `"{tenant-name}-{vm-name}"`, some tenant row carries that tenant name and
/// the row's tenant id, and the row carries the VM name.
pub open spec fn spec_entry_matches_row(
    tenants: Seq<TenantRow>,
    row: VirtualMachine,
    e: HypervisorSchedulerVM,
) -> bool {
    &&& spec_has_dash(e.name@)
    &&& row.name@ == spec_vm_part(e.name@)
    &&& exists|i: int|
        0 <= i < tenants.len() && (#[trigger] tenants[i]).name@ == spec_tenant_part(e.name@)
            && tenants[i].id == row.tenant
}

/// Index of the first dash in a string, if any.
fn find_first_dash(s: &str) -> (r: Option<usize>)
    ensures
        r is Some <==> spec_has_dash(s@),
        r matches Some(i) ==> i < s@.len() && s@[i as int] == '-' && (forall|j: int|
            0 <= j < i ==> s@[j] != '-') && i == spec_first_dash(s@),
{
    let n = s.unicode_len();
    let mut i: usize = 0;
    while i < n
        invariant
            n == s@.len(),
            0 <= i <= n,
            forall|j: int| 0 <= j < i ==> s@[j] != '-',
        decreases n - i,
    {
        if s.get_char(i) == '-' {
            proof {
                assert(spec_has_dash(s@)) by {
                    assert(s@[i as int] == '-');
                }
                let k = spec_first_dash(s@);
                assert(0 <= k < s@.len() && s@[k] == '-' && (forall|j: int| 0 <= j < k ==> s@[j]
                    != '-')) by {
                    lemma_min_dash(s@, i as int);
                }
                if k < i {
                    assert(s@[k] != '-');
                } else if k > i {
                    assert(s@[i as int] != '-');
                }
            }
            return Some(i);
        }
        i = i + 1;
    }
    None
}

/// Some string in `v` has the characters `s`.
pub open spec fn spec_contains_str(v: Seq<String>, s: Seq<char>) -> bool {
    exists|i: int| 0 <= i < v.len() && (#[trigger] v[i])@ == s
}

/// Whether some string in `v` has the same characters as `s`.
fn contains_str(v: &Vec<String>, s: &String) -> (r: bool)
    ensures
        r == spec_contains_str(v@, s@),
{
    let n = v.len();
    let mut i: usize = 0;
    while i < n
        invariant
            n == v@.len(),
            0 <= i <= n,
            forall|j: int| 0 <= j < i ==> (#[trigger] v@[j])@ != s@,
        decreases n - i,
    {
        if str_eq(v[i].as_str(), s.as_str()) {
            proof {
                assert(v@[i as int]@ == s@);
            }
            return true;
        }
        i = i + 1;
    }
    false
}

/// The two lists carry the same set of strings (order and multiplicity
/// disregarded).
pub open spec fn spec_same_members(a: Seq<String>, b: Seq<String>) -> bool {
    &&& forall|i: int| 0 <= i < a.len() ==> spec_contains_str(b, (#[trigger] a[i])@)
    &&& forall|j: int| 0 <= j < b.len() ==> spec_contains_str(a, (#[trigger] b[j])@)
}

/// Unordered comparison of two IP address lists.
pub fn ip_sets_equal(a: &Vec<String>, b: &Vec<String>) -> (r: bool)
    ensures
        r == spec_same_members(a@, b@),
{
    let n = a.len();
    let mut i: usize = 0;
    while i < n
        invariant
            n == a@.len(),
            0 <= i <= n,
            forall|k: int| 0 <= k < i ==> spec_contains_str(b@, (#[trigger] a@[k])@),
        decreases n - i,
    {
        if !contains_str(b, &a[i]) {
            return false;
        }
        i = i + 1;
    }
    let m = b.len();
    let mut j: usize = 0;
    while j < m
        invariant
            m == b@.len(),
            n == a@.len(),
            0 <= j <= m,
            forall|k: int| 0 <= k < n ==> spec_contains_str(b@, (#[trigger] a@[k])@),
            forall|k: int| 0 <= k < j ==> spec_contains_str(a@, (#[trigger] b@[k])@),
        decreases m - j,
    {
        if !contains_str(a, &b[j]) {
            return false;
        }
        j = j + 1;
    }
    true
}

/// Reconcile one reported VM with the stored rows: names without a dash are
/// skipped; an unknown tenant is reported; otherwise the matching row (if
/// any) has its state overwritten with the lowercased reported state when it
/// differs, and its IP address list replaced when the sets differ.
pub fn reconcile_reported_vm(db: &mut Database, entry: &HypervisorSchedulerVM) -> (err: Option<
    String,
>)
    requires
        old(db).wf(),
    ensures
        final(db).wf(),
        final(db).tenants == old(db).tenants,
        final(db).same_but_vms(*old(db)),
        err is Some <==> spec_entry_tenant_error(old(db).tenants@, *entry),
        err matches Some(e) ==> e@ == "Tenant '"@ + spec_tenant_part(entry.name@) + "' not found."@
            && *final(db) == *old(db),
        !spec_has_dash(entry.name@) ==> *final(db) == *old(db),
        spec_has_dash(entry.name@) && old(db).has_tenant_named(spec_tenant_part(entry.name@))
            && !old(db).has_vm(
            spec_vm_part(entry.name@),
            old(db).tenant_id_of(spec_tenant_part(entry.name@)),
        ) ==> *final(db) == *old(db),
        spec_has_dash(entry.name@) && old(db).has_tenant_named(spec_tenant_part(entry.name@))
            && old(db).has_vm(
            spec_vm_part(entry.name@),
            old(db).tenant_id_of(spec_tenant_part(entry.name@)),
        ) ==> {
            let tid = old(db).tenant_id_of(spec_tenant_part(entry.name@));
            let vmname = spec_vm_part(entry.name@);
            let row = old(db).vm_by_name(vmname, tid);
            exists|j: int|
                {
                    &&& 0 <= j < old(db).vms@.len()
                    &&& old(db).vms@[j] == row
                    &&& final(db).vms@ == old(db).vms@.update(j, final(db).vms@[j])
                    &&& Database::vm_same_but_state_ips(final(db).vms@[j], row)
                    &&& final(db).vms@[j].state@ == (if row.state@ != entry.state@ {
                        lower_of(entry.state@)
                    } else {
                        row.state@
                    })
                    &&& final(db).vms@[j].ip_addresses@ == (if !spec_same_members(
                        row.ip_addresses@,
                        entry.ip_addresses@,
                    ) {
                        entry.ip_addresses@
                    } else {
                        row.ip_addresses@
                    })
                }
        },
{
    let name_full = entry.name.as_str();
    let dash = match find_first_dash(name_full) {
        Some(i) => i,
        None => {
            return None;
        },
    };
    let n = name_full.unicode_len();
    let tenant_name = name_full.substring_char(0, dash);
    let vm_name = name_full.substring_char(dash + 1, n);
    proof {
        assert(tenant_name@ == spec_tenant_part(entry.name@));
        assert(vm_name@ == spec_vm_part(entry.name@));
    }
    let tenant_uuid = match db.get_tenant_by_name(tenant_name) {
        Some(t) => t,
        None => {
            return Some(msg3("Tenant '", tenant_name, "' not found."));
        },
    };
    let vm_on_db = match db.get_virtual_machine_by_name(vm_name, tenant_uuid) {
        Some(vm) => vm,
        None => {
            return None;
        },
    };
    let ghost pre = *db;
    proof {
        let tid = pre.tenant_id_of(spec_tenant_part(entry.name@));
        assert(tid == tenant_uuid);
    }
    let ghost j0 = choose|j: int|
        0 <= j < pre.vms@.len() && (#[trigger] pre.vms@[j]).name@ == vm_name@
            && pre.vms@[j].tenant == tenant_uuid;
    proof {
        assert(pre.vms@[j0].name@ == vm_name@ && pre.vms@[j0].tenant == tenant_uuid);
        let row = pre.vm_by_name(spec_vm_part(entry.name@), tenant_uuid);
        let jr = choose|j: int|
            0 <= j < pre.vms@.len() && (#[trigger] pre.vms@[j]).name@ == vm_name@
                && pre.vms@[j].tenant == tenant_uuid;
        pre.lemma_vm_unique(j0, jr);
        assert(pre.vms@[j0] == row);
    }
    let state_differs = !str_eq(vm_on_db.state.as_str(), entry.state.as_str());
    if state_differs {
        let lowered = lowercase(entry.state.as_str());
        db.update_vm_state(vm_name, tenant_uuid, lowered.as_str());
        proof {
            let ja = choose|j: int|
                0 <= j < pre.vms@.len() && pre.vms@[j].name@ == vm_name@ && pre.vms@[j].tenant
                    == tenant_uuid && db.vms@ == pre.vms@.update(j, db.vms@[j])
                    && Database::vm_same_but_state(db.vms@[j], pre.vms@[j]) && db.vms@[j].state@
                    == lowered@;
            assert(pre.vms@[ja].name@ == vm_name@ && pre.vms@[ja].tenant == tenant_uuid);
            pre.lemma_vm_unique(ja, j0);
            assert(db.vms@ == pre.vms@.update(j0, db.vms@[j0]));
        }
    }
    let ghost mid = *db;
    proof {
        assert(mid.vms@.len() == pre.vms@.len());
        assert(mid.vms@[j0].name@ == vm_name@ && mid.vms@[j0].tenant == tenant_uuid);
    }
    let ips_differ = !ip_sets_equal(&vm_on_db.ip_addresses, &entry.ip_addresses);
    if ips_differ {
        db.update_vm_ip_addr(vm_name, tenant_uuid, &entry.ip_addresses);
        proof {
            assert(mid.has_vm(vm_name@, tenant_uuid)) by {
                assert(mid.vms@[j0].name@ == vm_name@ && mid.vms@[j0].tenant == tenant_uuid);
            }
            let jb = choose|j: int|
                0 <= j < mid.vms@.len() && mid.vms@[j].name@ == vm_name@ && mid.vms@[j].tenant
                    == tenant_uuid && db.vms@ == mid.vms@.update(j, db.vms@[j])
                    && Database::vm_same_but_ips(db.vms@[j], mid.vms@[j])
                    && db.vms@[j].ip_addresses@ == entry.ip_addresses@;
            assert(mid.vms@[jb].name@ == vm_name@ && mid.vms@[jb].tenant == tenant_uuid);
            mid.lemma_vm_unique(jb, j0);
            assert(db.vms@ == mid.vms@.update(j0, db.vms@[j0]));
        }
    }
    proof {
        let row = pre.vm_by_name(spec_vm_part(entry.name@), pre.tenant_id_of(
            spec_tenant_part(entry.name@),
        ));
        assert(row == pre.vms@[j0]);
        assert(Database::vm_view_eq(vm_on_db, row));
        assert(state_differs == (row.state@ != entry.state@));
        assert(ips_differ == !spec_same_members(row.ip_addresses@, entry.ip_addresses@));
        assert(db.vms@ =~= pre.vms@.update(j0, db.vms@[j0]));
        assert(Database::vm_same_but_state_ips(db.vms@[j0], row));
        if state_differs {
            assert(db.vms@[j0].state@ == lower_of(entry.state@));
        } else {
            assert(db.vms@[j0].state@ == row.state@);
        }
        if ips_differ {
            assert(db.vms@[j0].ip_addresses@ == entry.ip_addresses@);
        } else {
            assert(db.vms@[j0].ip_addresses@ == row.ip_addresses@);
        }
    }
        None
}


/// Every list shares its members with itself.
pub proof fn lemma_same_members_refl(a: Seq<String>)
    ensures
        spec_same_members(a, a),
{
    assert forall|i: int| 0 <= i < a.len() implies spec_contains_str(a, (#[trigger] a[i])@) by {
        assert(0 <= i < a.len() && (a[i])@ == (a[i])@);
    }
}

/// What one reconciliation pass may do to the VM rows.  Identity fields
/// never change; a row no reported entry names is untouched; a row whose
/// last matching entry is `entries[t]` ends with that entry's state (as
/// reported, or lowercased) and an IP list equal as a set to that entry's;
/// and a row exactly one entry names ends exactly as the single step
/// prescribes — state lowercased when it differed, IP list replaced when the
/// sets differed.
pub open spec fn spec_vms_reconciled(
    tenants: Seq<TenantRow>,
    pre: Seq<VirtualMachine>,
    post: Seq<VirtualMachine>,
    entries: Seq<HypervisorSchedulerVM>,
) -> bool {
    &&& post.len() == pre.len()
    &&& forall|k: int|
        0 <= k < pre.len() ==> Database::vm_same_but_state_ips(#[trigger] post[k], pre[k])
    &&& forall|k: int|
        0 <= k < pre.len() && (forall|t: int|
            0 <= t < entries.len() ==> !spec_entry_matches_row(
                tenants,
                pre[k],
                #[trigger] entries[t],
            )) ==> #[trigger] post[k] == pre[k]
    &&& forall|k: int, t: int|
        0 <= k < pre.len() && 0 <= t < entries.len() && #[trigger] spec_entry_matches_row(
            tenants,
            pre[k],
            entries[t],
        ) && (forall|u: int|
            t < u < entries.len() ==> !spec_entry_matches_row(
                tenants,
                pre[k],
                #[trigger] entries[u],
            )) ==> (post[k].state@ == entries[t].state@ || post[k].state@ == lower_of(
            entries[t].state@,
        )) && spec_same_members(post[k].ip_addresses@, entries[t].ip_addresses@)
    &&& forall|k: int, t: int|
        0 <= k < pre.len() && 0 <= t < entries.len() && #[trigger] spec_entry_matches_row(
            tenants,
            pre[k],
            entries[t],
        ) && (forall|u: int|
            0 <= u < entries.len() && u != t ==> !spec_entry_matches_row(
                tenants,
                pre[k],
                #[trigger] entries[u],
            )) ==> post[k].state@ == (if pre[k].state@ != entries[t].state@ {
            lower_of(entries[t].state@)
        } else {
            pre[k].state@
        }) && post[k].ip_addresses@ == (if !spec_same_members(
            pre[k].ip_addresses@,
            entries[t].ip_addresses@,
        ) {
            entries[t].ip_addresses@
        } else {
            pre[k].ip_addresses@
        })
}

/// Two rows matched by one entry are the same row: its VM name and the
/// (unique) tenant named in the entry pin the row.
proof fn lemma_match_unique(
    db: Database,
    pre: Seq<VirtualMachine>,
    e: HypervisorSchedulerVM,
    x1: int,
    x2: int,
)
    requires
        db.wf(),
        pre.len() == db.vms@.len(),
        forall|k: int|
            0 <= k < pre.len() ==> Database::vm_same_but_state_ips(#[trigger] db.vms@[k], pre[k]),
        0 <= x1 < pre.len(),
        0 <= x2 < pre.len(),
        spec_entry_matches_row(db.tenants@, pre[x1], e),
        spec_entry_matches_row(db.tenants@, pre[x2], e),
    ensures
        x1 == x2,
{
    let i1 = choose|i: int|
        0 <= i < db.tenants@.len() && (#[trigger] db.tenants@[i]).name@ == spec_tenant_part(
            e.name@,
        ) && db.tenants@[i].id == pre[x1].tenant;
    let i2 = choose|i: int|
        0 <= i < db.tenants@.len() && (#[trigger] db.tenants@[i]).name@ == spec_tenant_part(
            e.name@,
        ) && db.tenants@[i].id == pre[x2].tenant;
    db.lemma_tenant_name_unique(i1, i2);
    assert(db.vms@[x1].name@ == pre[x1].name@ && db.vms@[x1].tenant == pre[x1].tenant);
    assert(db.vms@[x2].name@ == pre[x2].name@ && db.vms@[x2].tenant == pre[x2].tenant);
    db.lemma_vm_unique(x1, x2);
}

/// Some row matches the entry exactly when the single-step lookups succeed:
/// the name has a dash, the tenant part resolves, and a row carries the VM
/// part under that tenant.
proof fn lemma_match_means_found(db: Database, pre: Seq<VirtualMachine>, e: HypervisorSchedulerVM)
    requires
        db.wf(),
        pre.len() == db.vms@.len(),
        forall|k: int|
            0 <= k < pre.len() ==> Database::vm_same_but_state_ips(#[trigger] db.vms@[k], pre[k]),
    ensures
        (exists|x: int|
            0 <= x < pre.len() && spec_entry_matches_row(db.tenants@, #[trigger] pre[x], e)) <==> (
        spec_has_dash(e.name@) && db.has_tenant_named(spec_tenant_part(e.name@)) && db.has_vm(
            spec_vm_part(e.name@),
            db.tenant_id_of(spec_tenant_part(e.name@)),
        )),
{
    let part = spec_tenant_part(e.name@);
    let vmname = spec_vm_part(e.name@);
    if exists|x: int| 0 <= x < pre.len() && spec_entry_matches_row(db.tenants@, #[trigger] pre[x], e) {
        let x = choose|x: int|
            0 <= x < pre.len() && spec_entry_matches_row(db.tenants@, #[trigger] pre[x], e);
        let i = choose|i: int|
            0 <= i < db.tenants@.len() && (#[trigger] db.tenants@[i]).name@ == part
                && db.tenants@[i].id == pre[x].tenant;
        assert(db.has_tenant_named(part)) by {
            assert(db.tenants@[i].name@ == part);
        }
        let c = choose|c: int|
            0 <= c < db.tenants@.len() && (#[trigger] db.tenants@[c]).name@ == part;
        db.lemma_tenant_name_unique(c, i);
        assert(db.tenant_id_of(part) == pre[x].tenant);
        assert(db.has_vm(vmname, db.tenant_id_of(part))) by {
            assert(db.vms@[x].name@ == pre[x].name@ && db.vms@[x].tenant == pre[x].tenant);
            assert(db.vms@[x].name@ == vmname && db.vms@[x].tenant == db.tenant_id_of(part));
        }
    }
    if spec_has_dash(e.name@) && db.has_tenant_named(part) && db.has_vm(
        vmname,
        db.tenant_id_of(part),
    ) {
        let tid = db.tenant_id_of(part);
        let j = choose|j: int|
            0 <= j < db.vms@.len() && (#[trigger] db.vms@[j]).name@ == vmname && db.vms@[j].tenant
                == tid;
        let c = choose|c: int|
            0 <= c < db.tenants@.len() && (#[trigger] db.tenants@[c]).name@ == part;
        assert(db.tenants@[c].id == tid);
        assert(spec_entry_matches_row(db.tenants@, pre[j], e)) by {
            assert(pre[j].name@ == db.vms@[j].name@ && pre[j].tenant == db.vms@[j].tenant);
            assert(db.tenants@[c].name@ == part && db.tenants@[c].id == pre[j].tenant);
        }
        assert(0 <= j < pre.len() && spec_entry_matches_row(db.tenants@, pre[j], e));
    }
}

/// Reconcile every reported VM with the stored rows, in report order,
/// collecting the per-entry errors.  The rows evolve exactly as
/// `spec_vms_reconciled` describes; errors arise precisely from entries that
/// name an unknown tenant.
pub fn reconcile_reported_vms(db: &mut Database, entries: &Vec<HypervisorSchedulerVM>) -> (errors:
    Vec<String>)
    requires
        old(db).wf(),
    ensures
        final(db).wf(),
        final(db).tenants == old(db).tenants,
        final(db).vpcs == old(db).vpcs,
        final(db).ports == old(db).ports,
        final(db).ssh_keys == old(db).ssh_keys,
        final(db).provider_networks == old(db).provider_networks,
        final(db).hypervisors == old(db).hypervisors,
        final(db).next_id == old(db).next_id,
        spec_vms_reconciled(old(db).tenants@, old(db).vms@, final(db).vms@, entries@),
        errors@.len() > 0 <==> spec_any_tenant_error(old(db).tenants@, entries@),
        errors.deep_view() == spec_error_texts(old(db).tenants@, entries@),
{
    let ghost tn = old(db).tenants@;
    let ghost pre0 = old(db).vms@;
    let mut errors: Vec<String> = Vec::new();
    let m = entries.len();
    let mut k: usize = 0;
    while k < m
        invariant
            old(db).wf(),
            db.wf(),
            m == entries@.len(),
            0 <= k <= m,
            tn == old(db).tenants@,
            pre0 == old(db).vms@,
            db.tenants == old(db).tenants,
            db.vpcs == old(db).vpcs,
            db.ports == old(db).ports,
            db.ssh_keys == old(db).ssh_keys,
            db.provider_networks == old(db).provider_networks,
            db.hypervisors == old(db).hypervisors,
            db.next_id == old(db).next_id,
            db.vms@.len() == pre0.len(),
            forall|x: int|
                0 <= x < pre0.len() ==> Database::vm_same_but_state_ips(
                    #[trigger] db.vms@[x],
                    pre0[x],
                ),
            forall|x: int|
                0 <= x < pre0.len() && (forall|t: int|
                    0 <= t < k ==> !spec_entry_matches_row(tn, pre0[x], #[trigger] entries@[t]))
                    ==> #[trigger] db.vms@[x] == pre0[x],
            forall|x: int, t: int|
                0 <= x < pre0.len() && 0 <= t < k && #[trigger] spec_entry_matches_row(
                    tn,
                    pre0[x],
                    entries@[t],
                ) && (forall|u: int|
                    t < u < k ==> !spec_entry_matches_row(tn, pre0[x], #[trigger] entries@[u]))
                    ==> (db.vms@[x].state@ == entries@[t].state@ || db.vms@[x].state@ == lower_of(
                    entries@[t].state@,
                )) && spec_same_members(db.vms@[x].ip_addresses@, entries@[t].ip_addresses@),
            forall|x: int, t: int|
                0 <= x < pre0.len() && 0 <= t < k && #[trigger] spec_entry_matches_row(
                    tn,
                    pre0[x],
                    entries@[t],
                ) && (forall|u: int|
                    0 <= u < m && u != t ==> !spec_entry_matches_row(
                        tn,
                        pre0[x],
                        #[trigger] entries@[u],
                    )) ==> db.vms@[x].state@ == (if pre0[x].state@ != entries@[t].state@ {
                    lower_of(entries@[t].state@)
                } else {
                    pre0[x].state@
                }) && db.vms@[x].ip_addresses@ == (if !spec_same_members(
                    pre0[x].ip_addresses@,
                    entries@[t].ip_addresses@,
                ) {
                    entries@[t].ip_addresses@
                } else {
                    pre0[x].ip_addresses@
                }),
            errors@.len() > 0 <==> exists|t: int|
                0 <= t < k && spec_entry_tenant_error(tn, entries@[t]),
            errors.deep_view() == spec_error_texts(tn, entries@.subrange(0, k as int)),
        decreases m - k,
    {
        let ghost before = *db;
        let ghost e = entries@[k as int];
        let ghost part = spec_tenant_part(e.name@);
        let ghost vmname = spec_vm_part(e.name@);
        let err = reconcile_reported_vm(db, &entries[k]);
        proof {
            lemma_match_means_found(before, pre0, e);
            let matched = spec_has_dash(e.name@) && before.has_tenant_named(part)
                && before.has_vm(vmname, before.tenant_id_of(part));
            if !matched {
                assert(*db == before) by {
                    if spec_has_dash(e.name@) {
                        if before.has_tenant_named(part) {
                            assert(!before.has_vm(vmname, before.tenant_id_of(part)));
                        } else {
                            assert(spec_entry_tenant_error(before.tenants@, e)) by {
                                if spec_tenants_have(before.tenants@, part) {
                                    let i = choose|i: int|
                                        0 <= i < before.tenants@.len() && (
                                        #[trigger] before.tenants@[i]).name@ == part;
                                    assert(before.has_tenant_named(part));
                                }
                            }
                            assert(err is Some);
                        }
                    }
                }
                assert forall|x: int|
                    0 <= x < pre0.len() && (forall|t: int|
                        0 <= t < k + 1 ==> !spec_entry_matches_row(
                            tn,
                            pre0[x],
                            #[trigger] entries@[t],
                        )) implies #[trigger] db.vms@[x] == pre0[x] by {
                    assert(forall|t: int|
                        0 <= t < k ==> !spec_entry_matches_row(tn, pre0[x], #[trigger] entries@[t]));
                    assert(before.vms@[x] == pre0[x]);
                }
                assert forall|x: int, t: int|
                    0 <= x < pre0.len() && 0 <= t < k + 1 && #[trigger] spec_entry_matches_row(
                        tn,
                        pre0[x],
                        entries@[t],
                    ) && (forall|u: int|
                        t < u < k + 1 ==> !spec_entry_matches_row(
                            tn,
                            pre0[x],
                            #[trigger] entries@[u],
                        )) implies (db.vms@[x].state@ == entries@[t].state@ || db.vms@[x].state@
                    == lower_of(entries@[t].state@)) && spec_same_members(
                    db.vms@[x].ip_addresses@,
                    entries@[t].ip_addresses@,
                ) by {
                    assert(t < k);
                }
                assert forall|x: int, t: int|
                    0 <= x < pre0.len() && 0 <= t < k + 1 && #[trigger] spec_entry_matches_row(
                        tn,
                        pre0[x],
                        entries@[t],
                    ) && (forall|u: int|
                        0 <= u < m && u != t ==> !spec_entry_matches_row(
                            tn,
                            pre0[x],
                            #[trigger] entries@[u],
                        )) implies db.vms@[x].state@ == (if pre0[x].state@ != entries@[t].state@ {
                    lower_of(entries@[t].state@)
                } else {
                    pre0[x].state@
                }) && db.vms@[x].ip_addresses@ == (if !spec_same_members(
                    pre0[x].ip_addresses@,
                    entries@[t].ip_addresses@,
                ) {
                    entries@[t].ip_addresses@
                } else {
                    pre0[x].ip_addresses@
                }) by {
                    assert(t < k);
                }
            } else {
                let tid = before.tenant_id_of(part);
                let row = before.vm_by_name(vmname, tid);
                let j = choose|j: int|
                    0 <= j < before.vms@.len() && before.vms@[j].name@ == vmname
                        && before.vms@[j].tenant == tid && db.vms@ == before.vms@.update(
                        j,
                        db.vms@[j],
                    ) && Database::vm_same_but_state_ips(db.vms@[j], row) && db.vms@[j].state@ == (
                    if row.state@ != e.state@ {
                        lower_of(e.state@)
                    } else {
                        row.state@
                    }) && db.vms@[j].ip_addresses@ == (if !spec_same_members(
                        row.ip_addresses@,
                        e.ip_addresses@,
                    ) {
                        e.ip_addresses@
                    } else {
                        row.ip_addresses@
                    });
                let jr = choose|jr: int|
                    0 <= jr < before.vms@.len() && (#[trigger] before.vms@[jr]).name@ == vmname
                        && before.vms@[jr].tenant == tid;
                before.lemma_vm_unique(j, jr);
                assert(before.vms@[j] == row);
                assert(spec_entry_matches_row(tn, pre0[j], e)) by {
                    let c = choose|c: int|
                        0 <= c < before.tenants@.len() && (#[trigger] before.tenants@[c]).name@
                            == part;
                    assert(before.tenants@[c].id == tid);
                    assert(pre0[j].name@ == before.vms@[j].name@ && pre0[j].tenant
                        == before.vms@[j].tenant);
                    assert(tn[c].name@ == part && tn[c].id == pre0[j].tenant);
                }
                assert forall|x: int|
                    0 <= x < pre0.len() && x != j implies #[trigger] db.vms@[x]
                    == before.vms@[x] by {}
                assert forall|x: int|
                    0 <= x < pre0.len() && spec_entry_matches_row(tn, #[trigger] pre0[x], e)
                    implies x == j by {
                    lemma_match_unique(before, pre0, e, x, j);
                }
                assert forall|x: int|
                    0 <= x < pre0.len() && (forall|t: int|
                        0 <= t < k + 1 ==> !spec_entry_matches_row(
                            tn,
                            pre0[x],
                            #[trigger] entries@[t],
                        )) implies #[trigger] db.vms@[x] == pre0[x] by {
                    assert(!spec_entry_matches_row(tn, pre0[x], entries@[k as int]));
                    assert(x != j);
                    assert(before.vms@[x] == pre0[x]);
                }
                assert forall|x: int, t: int|
                    0 <= x < pre0.len() && 0 <= t < k + 1 && #[trigger] spec_entry_matches_row(
                        tn,
                        pre0[x],
                        entries@[t],
                    ) && (forall|u: int|
                        t < u < k + 1 ==> !spec_entry_matches_row(
                            tn,
                            pre0[x],
                            #[trigger] entries@[u],
                        )) implies (db.vms@[x].state@ == entries@[t].state@ || db.vms@[x].state@
                    == lower_of(entries@[t].state@)) && spec_same_members(
                    db.vms@[x].ip_addresses@,
                    entries@[t].ip_addresses@,
                ) by {
                    if t == k {
                        assert(x == j);
                        if !spec_same_members(row.ip_addresses@, e.ip_addresses@) {
                            lemma_same_members_refl(e.ip_addresses@);
                            assert(db.vms@[j].ip_addresses@ == e.ip_addresses@);
                        }
                    } else {
                        assert(!spec_entry_matches_row(tn, pre0[x], entries@[k as int]));
                        assert(x != j);
                        assert(db.vms@[x] == before.vms@[x]);
                    }
                }
                assert forall|x: int, t: int|
                    0 <= x < pre0.len() && 0 <= t < k + 1 && #[trigger] spec_entry_matches_row(
                        tn,
                        pre0[x],
                        entries@[t],
                    ) && (forall|u: int|
                        0 <= u < m && u != t ==> !spec_entry_matches_row(
                            tn,
                            pre0[x],
                            #[trigger] entries@[u],
                        )) implies db.vms@[x].state@ == (if pre0[x].state@ != entries@[t].state@ {
                    lower_of(entries@[t].state@)
                } else {
                    pre0[x].state@
                }) && db.vms@[x].ip_addresses@ == (if !spec_same_members(
                    pre0[x].ip_addresses@,
                    entries@[t].ip_addresses@,
                ) {
                    entries@[t].ip_addresses@
                } else {
                    pre0[x].ip_addresses@
                }) by {
                    if t == k {
                        assert(x == j);
                        assert(forall|t2: int|
                            0 <= t2 < k ==> !spec_entry_matches_row(
                                tn,
                                pre0[j],
                                #[trigger] entries@[t2],
                            ));
                        assert(before.vms@[j] == pre0[j]);
                        assert(row == pre0[j]);
                    } else {
                        assert(!spec_entry_matches_row(tn, pre0[x], entries@[k as int]));
                        assert(x != j);
                        assert(db.vms@[x] == before.vms@[x]);
                    }
                }
            }
        }
        let ghost dv0 = errors.deep_view();
        match err {
            Some(msg) => {
                errors.push(msg);
            },
            None => {},
        }
        proof {
            assert(spec_entry_tenant_error(before.tenants@, e) == spec_entry_tenant_error(
                tn,
                e,
            ));
            if errors@.len() > 0 && !(exists|t: int|
                0 <= t < k && spec_entry_tenant_error(tn, entries@[t]))
                && !spec_entry_tenant_error(tn, entries@[k as int]) {
                assert(false);
            }
            if spec_entry_tenant_error(tn, entries@[k as int]) {
                assert(errors@.len() > 0);
            }
            assert(entries@.subrange(0, k as int + 1).drop_last() =~= entries@.subrange(
                0,
                k as int,
            ));
            assert(entries@.subrange(0, k as int + 1).last() == e);
            if err is Some {
                assert((err->0)@ == spec_tenant_error_text(e));
                assert(errors.deep_view() =~= dv0.push((err->0)@));
                assert(errors.deep_view() =~= spec_error_texts(
                    tn,
                    entries@.subrange(0, k as int + 1),
                ));
            } else {
                assert(errors.deep_view() =~= dv0);
                assert(errors.deep_view() =~= spec_error_texts(
                    tn,
                    entries@.subrange(0, k as int + 1),
                ));
            }
        }
        k = k + 1;
    }
    proof {
        assert(entries@.subrange(0, m as int) =~= entries@);
    }
    errors
}

/// The nearest `i32` to a wide value.
pub fn clamp_i32(x: i128) -> (r: i32)
    ensures
        r as int == spec_clamp_i32(x as int),
{
    if x > i32::MAX as i128 {
        i32::MAX
    } else if x < i32::MIN as i128 {
        i32::MIN
    } else {
        x as i32
    }
}

/// The texts joined with `"; "`.
pub open spec fn spec_join_sc(v: Seq<Seq<char>>) -> Seq<char>
    decreases v.len(),
{
    if v.len() == 0 {
        Seq::empty()
    } else if v.len() == 1 {
        v[0]
    } else {
        spec_join_sc(v.drop_last()) + "; "@ + v.last()
    }
}

/// Join strings with `"; "`.
pub fn join_semicolon(v: &Vec<String>) -> (r: String)
    ensures
        r@ == spec_join_sc(v.deep_view()),
{
    let ghost dv = v.deep_view();
    let n = v.len();
    let mut acc = String::new();
    let mut i: usize = 0;
    while i < n
        invariant
            dv == v.deep_view(),
            dv.len() == v@.len(),
            forall|t: int| 0 <= t < dv.len() ==> #[trigger] dv[t] == v@[t]@,
            n == v@.len(),
            0 <= i <= n,
            acc@ == spec_join_sc(dv.subrange(0, i as int)),
        decreases n - i,
    {
        if i > 0 {
            acc.append("; ");
        }
        acc.append(v[i].as_str());
        proof {
            assert(dv.subrange(0, i as int + 1).drop_last() =~= dv.subrange(0, i as int));
            assert(dv.subrange(0, i as int + 1).last() == dv[i as int]);
            if i == 0 {
                assert(acc@ =~= spec_join_sc(dv.subrange(0, 1)));
            }
        }
        i = i + 1;
    }
    proof {
        assert(dv.subrange(0, n as int) =~= dv);
    }
    acc
}

/// Ingest one hypervisor stats push: validate the architecture, compute the
/// usage counters from the reported VMs (`used = sum of 1 + vm value`, or 1
/// when the list is empty), upsert the hypervisor row — updating a known
/// hostname, registering a new one — and on both paths reconcile every
/// reported VM with the stored rows.  Per-VM errors are accumulated and
/// reported together; the hypervisor row is still written.
pub fn hypervisor_stats_handler(db: &mut Database, payload: &HypervisorAgent) -> (r: ApiResponse)
    requires
        old(db).wf(),
    ensures
        final(db).wf(),
        !spec_arch_supported(payload.arch@) ==> r.code == BAD_REQUEST && r.body@
            == "Invalid architecture specified. Only x86_64 and aarch64 are supported."@
            && *final(db) == *old(db),
        spec_arch_supported(payload.arch@) && !old(db).has_hypervisor_hostname(payload.hostname@)
            && old(db).next_id == u64::MAX ==> r.code == INTERNAL_SERVER_ERROR && *final(db)
            == *old(db),
        spec_arch_supported(payload.arch@) && !old(db).has_hypervisor_hostname(payload.hostname@)
            && old(db).next_id < u64::MAX ==> {
            &&& final(db).hypervisors@.len() == old(db).hypervisors@.len() + 1
            &&& final(db).hypervisors@.subrange(0, old(db).hypervisors@.len() as int) == old(
                db,
            ).hypervisors@
            &&& final(db).hypervisors@.last().hostname@ == payload.hostname@
            &&& final(db).hypervisors@.last().total_ram == payload.memory
            &&& final(db).hypervisors@.last().total_cpu == payload.cpu
            &&& final(db).hypervisors@.last().used_ram as int == spec_clamp_i32(
                spec_used_ram(payload.vms@),
            )
            &&& final(db).hypervisors@.last().used_cpu as int == spec_clamp_i32(
                spec_used_cpu(payload.vms@),
            )
            &&& final(db).hypervisors@.last().hosted_vms as int == spec_hosted(payload.vms@)
            &&& final(db).hypervisors@.last().arch@ == payload.arch@
            &&& final(db).tenants == old(db).tenants
            &&& final(db).vpcs == old(db).vpcs
            &&& final(db).ports == old(db).ports
            &&& final(db).ssh_keys == old(db).ssh_keys
            &&& final(db).provider_networks == old(db).provider_networks
            &&& final(db).next_id == old(db).next_id + 1
            &&& spec_vms_reconciled(old(db).tenants@, old(db).vms@, final(db).vms@, payload.vms@)
            &&& (r.code == OK <==> !spec_any_tenant_error(old(db).tenants@, payload.vms@))
            &&& (r.code == OK ==> r.body@ == "Hypervisor '"@ + payload.hostname@
                + "' registered successfully."@)
            &&& (r.code != OK ==> r.code == INTERNAL_SERVER_ERROR && r.body@
                == "Hypervisor updated but had VM errors: "@ + spec_join_sc(
                spec_error_texts(old(db).tenants@, payload.vms@),
            ))
        },
        spec_arch_supported(payload.arch@) && old(db).has_hypervisor_hostname(payload.hostname@)
            ==> {
            &&& (r.code == OK <==> !spec_any_tenant_error(old(db).tenants@, payload.vms@))
            &&& (r.code == OK ==> r.body@ == "Hypervisor and all VMs updated successfully."@)
            &&& (r.code != OK ==> r.code == INTERNAL_SERVER_ERROR && r.body@
                == "Hypervisor updated but had VM errors: "@ + spec_join_sc(
                spec_error_texts(old(db).tenants@, payload.vms@),
            ))
            &&& exists|j: int|
                0 <= j < old(db).hypervisors@.len() && (#[trigger] old(db).hypervisors@[j]).hostname@
                    == payload.hostname@ && final(db).hypervisors@ == old(
                    db,
                ).hypervisors@.update(j, final(db).hypervisors@[j])
                    && Database::hypervisor_same_but_usage(
                    final(db).hypervisors@[j],
                    old(db).hypervisors@[j],
                ) && final(db).hypervisors@[j].used_ram as int == spec_clamp_i32(
                    spec_used_ram(payload.vms@),
                ) && final(db).hypervisors@[j].used_cpu as int == spec_clamp_i32(
                    spec_used_cpu(payload.vms@),
                ) && final(db).hypervisors@[j].hosted_vms as int == spec_hosted(payload.vms@)
            &&& final(db).tenants == old(db).tenants
            &&& final(db).vpcs == old(db).vpcs
            &&& final(db).ports == old(db).ports
            &&& final(db).ssh_keys == old(db).ssh_keys
            &&& final(db).provider_networks == old(db).provider_networks
            &&& final(db).next_id == old(db).next_id
            &&& spec_vms_reconciled(old(db).tenants@, old(db).vms@, final(db).vms@, payload.vms@)
        },
{
    let arch_ok = str_eq(payload.arch.as_str(), "x86_64") || str_eq(
        payload.arch.as_str(),
        "aarch64",
    );
    if !arch_ok {
        return resp(
            BAD_REQUEST,
            "Invalid architecture specified. Only x86_64 and aarch64 are supported.",
        );
    }
    let n = payload.vms.len();
    let mut ram_acc: i128 = 0;
    let mut cpu_acc: i128 = 0;
    let mut i: usize = 0;
    while i < n
        invariant
            n == payload.vms@.len(),
            0 <= i <= n,
            ram_acc == spec_ram_sum(payload.vms@.subrange(0, i as int)),
            cpu_acc == spec_cpu_sum(payload.vms@.subrange(0, i as int)),
            -(i as int) * 0x8000_0000 <= ram_acc <= (i as int) * 0x8000_0000,
            -(i as int) * 0x8000_0000 <= cpu_acc <= (i as int) * 0x8000_0000,
        decreases n - i,
    {
        ram_acc = ram_acc + 1 + (payload.vms[i].memory as i128);
        cpu_acc = cpu_acc + 1 + (payload.vms[i].cpu as i128);
        proof {
            assert(payload.vms@.subrange(0, i as int + 1).drop_last() =~= payload.vms@.subrange(
                0,
                i as int,
            ));
            assert(payload.vms@.subrange(0, i as int + 1).last() == payload.vms@[i as int]);
        }
        i = i + 1;
    }
    proof {
        assert(payload.vms@.subrange(0, n as int) =~= payload.vms@);
    }
    let used_ram: i32;
    let used_cpu: i32;
    if n == 0 {
        used_ram = 1;
        used_cpu = 1;
    } else {
        used_ram = clamp_i32(ram_acc);
        used_cpu = clamp_i32(cpu_acc);
    }
    let hosted: i32 = if n > i32::MAX as usize {
        i32::MAX
    } else {
        n as i32
    };
    match db.get_hypervisor_by_hostname(payload.hostname.as_str()) {
        Some(id) => {
            db.update_hypervisor(id, used_ram, used_cpu, hosted);
            proof {
                let j = choose|j: int|
                    0 <= j < old(db).hypervisors@.len() && old(db).hypervisors@[j].id == id
                        && db.hypervisors@ == old(db).hypervisors@.update(j, db.hypervisors@[j])
                        && Database::hypervisor_same_but_usage(
                        db.hypervisors@[j],
                        old(db).hypervisors@[j],
                    ) && db.hypervisors@[j].used_ram == used_ram && db.hypervisors@[j].used_cpu
                        == used_cpu && db.hypervisors@[j].hosted_vms == hosted;
                old(db).lemma_hypervisor_id_unique(j, choose|c: int|
                    0 <= c < old(db).hypervisors@.len() && (#[trigger] old(db).hypervisors@[c]).id
                        == id);
            }
            let ghost mid = *db;
            let errors = reconcile_reported_vms(db, &payload.vms);
            proof {
                assert(mid.tenants@ == old(db).tenants@);
                assert(mid.vms@ == old(db).vms@);
                assert(db.hypervisors == mid.hypervisors);
            }
            if errors.len() == 0 {
                resp(OK, "Hypervisor and all VMs updated successfully.")
            } else {
                let joined = join_semicolon(&errors);
                let body = msg2("Hypervisor updated but had VM errors: ", joined.as_str());
                resp_owned(INTERNAL_SERVER_ERROR, body)
            }
        },
        None => {
            match db.hypervisor_register(
                payload.hostname.as_str(),
                payload.memory,
                payload.cpu,
                used_ram,
                used_cpu,
                payload.arch.as_str(),
                hosted,
            ) {
                Some(_) => {
                    let ghost mid = *db;
                    let errors = reconcile_reported_vms(db, &payload.vms);
                    proof {
                        assert(mid.tenants@ == old(db).tenants@);
                        assert(mid.vms@ == old(db).vms@);
                        assert(db.hypervisors == mid.hypervisors);
                        assert(db.hypervisors@ == mid.hypervisors@);
                    }
                    if errors.len() == 0 {
                        resp_owned(
                            OK,
                            msg3(
                                "Hypervisor '",
                                payload.hostname.as_str(),
                                "' registered successfully.",
                            ),
                        )
                    } else {
                        let joined = join_semicolon(&errors);
                        let body = msg2(
                            "Hypervisor updated but had VM errors: ",
                            joined.as_str(),
                        );
                        resp_owned(INTERNAL_SERVER_ERROR, body)
                    }
                },
                None => resp(INTERNAL_SERVER_ERROR, "Failed to register hypervisor: no free id"),
            }
        },
    }
}

} // verus!

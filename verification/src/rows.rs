//! Entity types of the control plane: request payloads as the HTTP API
//! receives them, and the rows the typed repository stores.
//!
//! Identifiers are modelled as `u64` values handed out by the repository;
//! IP networks and CIDRs are carried as their dotted-quad/prefix text form.

use vstd::prelude::*;

verus! {

/// Tenant payload and list item: either field may be absent in a request.
pub struct Tenant {
    pub name: Option<String>,
    pub id: Option<u64>,
}

/// VPC payload and list item.
pub struct Vpc {
    pub id: Option<u64>,
    pub name: Option<String>,
    pub cidr: Option<String>,
    pub nat: Option<bool>,
    pub tenant: Option<u64>,
}

/// VPC delete request.
pub struct VpcDelete {
    pub id: u64,
    pub tenant: u64,
}

/// SSH key payload and list item.
pub struct SSHKey {
    pub name: Option<String>,
    pub ssh_pub_key: Option<String>,
    pub fingerprint: Option<String>,
    pub tenant: Option<u64>,
}

/// Provider network: a VLAN-tagged external network. Also the stored row.
pub struct ProviderNetwork {
    pub name: String,
    pub vlan: i32,
    pub subnet: String,
}

/// Provider network delete request.
pub struct ProviderNetworkDelete {
    pub name: String,
}

/// A logical switch port row; created as a side effect of provisioning an
/// overlay-networked VM and destroyed with it.
pub struct Port {
    pub id: u64,
    pub name: String,
    pub vpc: u64,
    pub hypervisor: String,
}

/// Hypervisor inventory row as stored and listed.
pub struct HypervisorScheduler {
    pub id: u64,
    pub hostname: String,
    pub total_ram: i32,
    pub total_cpu: i32,
    pub used_ram: i32,
    pub used_cpu: i32,
    pub hosted_vms: i32,
    pub arch: String,
}

/// One virtual machine as reported by a hypervisor agent.
pub struct HypervisorSchedulerVM {
    pub name: String,
    pub memory: i32,
    pub cpu: i32,
    pub state: String,
    pub ip_addresses: Vec<String>,
}

/// A hypervisor inventory push from an agent.
pub struct HypervisorAgent {
    pub hostname: String,
    pub memory: i32,
    pub cpu: i32,
    pub arch: String,
    pub vms: Vec<HypervisorSchedulerVM>,
}

/// A virtual machine row.
pub struct VirtualMachine {
    pub name: String,
    pub ram: i32,
    pub cpu: i32,
    pub state: String,
    pub os: String,
    pub disk_size: i32,
    pub vpc: u64,
    pub ssh_pub_key: u64,
    pub tenant: u64,
    pub hypervisor: u64,
    pub ip_addresses: Vec<String>,
    pub networking: String,
    pub network: Option<String>,
}

/// VM create request.
pub struct VirtualMachineCreate {
    pub name: String,
    pub ram: i32,
    pub cpu: i32,
    pub os: String,
    pub disk_size: i32,
    pub vpc: String,
    pub ssh_pub_key: String,
    pub tenant: String,
    pub arch: String,
    pub networking: String,
    pub network: Option<String>,
}

/// VM delete request.
pub struct VirtualMachineDelete {
    pub name: String,
    pub tenant: String,
}

/// Stored tenant row.
pub struct TenantRow {
    pub id: u64,
    pub name: String,
}

/// Stored VPC row.
pub struct VpcRow {
    pub id: u64,
    pub name: String,
    pub cidr: String,
    pub nat: bool,
    pub tenant: u64,
}

/// Stored SSH key row.
pub struct SshKeyRow {
    pub id: u64,
    pub name: String,
    pub ssh_pub_key: String,
    pub fingerprint: String,
    pub tenant: u64,
}

} // verus!

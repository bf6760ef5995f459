//! A minimal cloud control plane library.
//!
//! The library provisions virtual machines across a fleet of hypervisors and
//! stitches their network interfaces into a software-defined overlay (tenant
//! L2 segments) or a VLAN-bridged provider network.  It holds the verified
//! core: the typed repository of tenants, VPCs, ports, SSH keys, provider
//! networks, hypervisors and virtual machines; the placement orchestrator;
//! the inventory sink; and the OVSDB request builders and response framing
//! used for all overlay mutations.  Transport (HTTP serving, TCP sockets)
//! lives outside the library and hands it plain values.

pub mod compute_api;
pub mod db;
pub mod foreign;
pub mod frame;
pub mod jsontext;
pub mod laws;
pub mod ovsdb;
pub mod provider_api;
pub mod response;
pub mod rows;
pub mod sshkey_api;
pub mod stats_api;
pub mod tenant_api;
pub mod text;
pub mod vm_api;
pub mod vpc_api;

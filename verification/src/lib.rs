//! An agentic hypervisor: a model turns an operator's intent into a plan, the operator
//! approves it, and the plan becomes a virtual machine on KVM.
//!
//! This crate decides; it performs no I/O. [`agent`] holds the conversation with the
//! model, [`config`] and [`console`] the settings and the command line, [`registry`]
//! the ledger of VMs, [`server`] the HTTP control plane, and [`vmm`] the machine itself:
//! what a VM may be, its boot structures, devices and run loop. What a model or a
//! client asks for is never trusted: every bound is enforced here.

pub mod agent;
pub mod bytes;
pub mod config;
pub mod console;
pub mod json;
pub mod registry;
pub mod server;
pub mod text;
pub mod vmm;

//! Point-in-time inventory of InfiniBand/RDMA host adapters.
//!
//! The library correlates two independently-sourced views of the hardware:
//! kernel device-manager catalog records (identity, vendor and model, PCI
//! linkage) and live hardware-verbs queries (per-port link state, addressing
//! and capability counts). Raw status codes are decoded into typed states,
//! and the two differently-keyed sources are joined into one consistent
//! topology of physical cards, logical devices and ports.
//!
//! The native verbs interface and the device-manager subsystem are driven by
//! an unverified host shim: the shim performs the raw queries, while every
//! decision — which query to issue next, when a device context must be
//! closed, how raw answers are decoded, validated and joined — is made here.

use vstd::prelude::*;

pub mod catalog;
pub mod correlate;
pub mod decode;
pub mod errors;
pub mod laws;
pub mod portmap;
pub mod scan;
pub mod types;

verus! {

} // verus!

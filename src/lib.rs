//! Secure Boot key provisioning and network boot-entry logic for a pre-boot agent.
//!
//! The firmware services (variable storage, PXE discovery, HTTP transfers) are driven
//! by the caller; this library holds the decisions and the byte formats, each with a
//! contract proved by Verus.

pub mod boot_order;
pub mod bytes;
pub mod device_path;
pub mod dhcp;
pub mod enroll;
pub mod error;
pub mod http;
pub mod load_option;
pub mod orchestrator;
pub mod store;
pub mod text;
pub mod urls;
pub mod variables;

//! Verified core of the KernelSU userspace daemon: the driver command layer, app
//! profiles, and module risk screening.
pub mod bitnames;
pub mod error;
pub mod ksucalls;
pub mod profile;
pub mod risk;
pub mod text;
pub mod uapi;

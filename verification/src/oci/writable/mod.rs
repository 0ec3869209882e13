//! Writable root filesystems.

pub mod config;
pub mod diff;
pub mod gvisor;
pub mod handle;
pub mod identity;
pub mod loopback;

//! Volumes that outlive or accompany a sandbox.

pub mod archive;
pub mod artifacts;
pub mod command;
pub mod directory;
pub mod error;
pub mod freeze;
pub mod local;
pub mod meter;
pub mod model;
pub mod mounts;
pub mod provider;
pub mod reconcile;
pub mod recovery;
pub mod restore;
pub mod secrets;
pub mod setup;

pub use error::VolumeError;

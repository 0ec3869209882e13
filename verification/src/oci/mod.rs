//! Restricted topologies and the images they run.

pub mod address;
pub mod compiler;
pub mod docker;
pub mod error;
pub mod model;
pub mod network;
pub mod prepared;
pub mod process;
pub mod provider;
pub mod startup;
pub mod values;
pub mod writable;

pub use error::{io_error, SandboxError};

//! Placement: a fair, bounded queue of work and the leases under which workers take it.

pub mod database;
pub mod error;
pub mod lease;
pub mod model;
pub mod pools;
pub mod queue;
pub mod rows;
pub mod schema;
pub mod statements;
pub mod workers;

pub use error::PlacementStoreError;

//! Admission, storage and placement rules of a sandbox worker.

pub mod bytes;
pub mod byteset;
pub mod checks;
pub mod digest;
pub mod json;
pub mod lines;
pub mod oci;
pub mod paths;
pub mod placement;
pub mod protocol;
pub mod runtime;
pub mod table;
pub mod text;
pub mod time;
pub mod volume;

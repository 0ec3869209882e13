//! What a sandbox backend offers.

use crate::text::{join2, join5};
use vstd::prelude::*;

verus! {

/// Where the artifacts of a snapshot are staged.
#[derive(Debug, Clone, PartialEq, Eq)]
pub struct ArtifactStaging {
    snapshot_id: String,
    directory: String,
}

impl ArtifactStaging {
    pub closed spec fn snapshot(self) -> Seq<char> {
        self.snapshot_id@
    }

    pub closed spec fn place(self) -> Seq<char> {
        self.directory@
    }

    pub fn new(snapshot_id: String, directory: String) -> (r: Self)
        ensures
            r.snapshot() == snapshot_id@,
            r.place() == directory@,
    {
        ArtifactStaging { snapshot_id, directory }
    }

    pub fn snapshot_id(&self) -> (r: &str)
        ensures
            r@ == self.snapshot(),
    {
        self.snapshot_id.as_str()
    }

    pub fn directory(&self) -> (r: &str)
        ensures
            r@ == self.place(),
    {
        self.directory.as_str()
    }
}

/// An artifact of a snapshot.
#[derive(Debug, Clone, PartialEq, Eq)]
pub struct StagedArtifact {
    pub role: String,
    pub container: Option<String>,
    pub path: String,
    pub media_type: String,
}

/// Why a backend operation failed.
#[derive(Debug)]
pub enum RuntimeError {
    Core(String),
    Unsupported(String),
    Backend(String),
    ArtifactIo { path: String, source: String },
}

impl RuntimeError {
    /// The failure in words.
    pub open spec fn text(self) -> Seq<char> {
        match self {
            RuntimeError::Core(text) => text@,
            RuntimeError::Unsupported(feature) => "backend does not support "@ + feature@,
            RuntimeError::Backend(text) => "backend operation failed: "@ + text@,
            RuntimeError::ArtifactIo { path, source } =>
            "snapshot artifact operation failed for `"@ + path@ + "`: "@ + source@ + ""@,
        }
    }

    pub fn message(&self) -> (r: String)
        ensures
            r@ == self.text(),
    {
        match self {
            RuntimeError::Core(text) => text.clone(),
            RuntimeError::Unsupported(feature) => join2(
                "backend does not support ",
                feature.as_str(),
            ),
            RuntimeError::Backend(text) => join2("backend operation failed: ", text.as_str()),
            RuntimeError::ArtifactIo { path, source } => join5(
                "snapshot artifact operation failed for `",
                path.as_str(),
                "`: ",
                source.as_str(),
                "",
            ),
        }
    }
}

/// The state of a sandbox.
#[derive(Debug, Clone, PartialEq, Eq)]
pub struct InstanceStatus {
    pub sandbox_id: String,
    pub backend: String,
    pub state: String,
    pub generation: u64,
    pub running_containers: usize,
}

/// A sandbox to be created from a specification.
#[derive(Debug, Clone)]
pub struct CreateRequest<S> {
    pub sandbox_id: String,
    pub worker_id: String,
    pub assignment_epoch: u64,
    pub specification: S,
}

/// A snapshot to be taken.
#[derive(Debug, Clone)]
pub struct SnapshotRequest {
    pub mode: String,
    pub staging: ArtifactStaging,
}

/// A sandbox to be restored from a manifest.
#[derive(Debug, Clone)]
pub struct RestoreRequest<S, M> {
    pub worker_id: String,
    pub assignment_epoch: u64,
    pub specification: S,
    pub manifest: M,
    pub materialized_objects: ArtifactStaging,
}

/// A sandbox under a backend.
pub trait SandboxInstance: Send {
    fn status(&self) -> Result<InstanceStatus, RuntimeError>;

    fn pause(&mut self) -> Result<InstanceStatus, RuntimeError>;

    fn resume(&mut self) -> Result<InstanceStatus, RuntimeError>;

    fn snapshot(&mut self, request: SnapshotRequest) -> Result<Vec<StagedArtifact>, RuntimeError>;

    fn stop(&mut self) -> Result<InstanceStatus, RuntimeError>;
}

/// A backend that creates and restores sandboxes.
pub trait SandboxBackend: Send + Sync {
    type Instance: SandboxInstance;

    type Specification;

    type Manifest;

    type Descriptor;

    type Capabilities;

    fn descriptor(&self) -> &Self::Descriptor;

    fn capabilities(&self) -> &Self::Capabilities;

    fn create(&self, request: CreateRequest<Self::Specification>) -> Result<
        Self::Instance,
        RuntimeError,
    >;

    fn restore(&self, request: RestoreRequest<Self::Specification, Self::Manifest>) -> Result<
        Self::Instance,
        RuntimeError,
    >;
}

/// Each error reads as what failed and why.
pub proof fn law_runtime_errors_read_as_their_kind(text: String, path: String)
    ensures
        RuntimeError::Core(text).text() == text@,
        RuntimeError::Unsupported(text).text() == "backend does not support "@ + text@,
        RuntimeError::Backend(text).text() == "backend operation failed: "@ + text@,
        (RuntimeError::ArtifactIo { path, source: text }).text()
            == "snapshot artifact operation failed for `"@ + path@ + "`: "@ + text@,
{
    reveal_strlit("");
    let whole = "snapshot artifact operation failed for `"@ + path@ + "`: "@ + text@;
    assert(whole + ""@ =~= whole);
}

} // verus!

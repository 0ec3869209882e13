//! Failures of placement.

use crate::text::join2;
use vstd::prelude::*;

verus! {

/// Why a placement operation failed.
#[derive(Debug)]
pub enum PlacementStoreError {
    Database(String),
    Tls(String),
    Invalid(String),
    GlobalQueueFull,
    TenantQueueFull,
    SandboxConflict,
    WorkerUnavailable,
    StaleAssignment,
    CompletionConflict,
}

/// A `PlacementStoreError` with its texts read as character sequences.
pub enum PlacementFailure {
    Database(Seq<char>),
    Tls(Seq<char>),
    Invalid(Seq<char>),
    GlobalQueueFull,
    TenantQueueFull,
    SandboxConflict,
    WorkerUnavailable,
    StaleAssignment,
    CompletionConflict,
}

impl View for PlacementStoreError {
    type V = PlacementFailure;

    open spec fn view(&self) -> PlacementFailure {
        match *self {
            PlacementStoreError::Database(text) => PlacementFailure::Database(text@),
            PlacementStoreError::Tls(text) => PlacementFailure::Tls(text@),
            PlacementStoreError::Invalid(text) => PlacementFailure::Invalid(text@),
            PlacementStoreError::GlobalQueueFull => PlacementFailure::GlobalQueueFull,
            PlacementStoreError::TenantQueueFull => PlacementFailure::TenantQueueFull,
            PlacementStoreError::SandboxConflict => PlacementFailure::SandboxConflict,
            PlacementStoreError::WorkerUnavailable => PlacementFailure::WorkerUnavailable,
            PlacementStoreError::StaleAssignment => PlacementFailure::StaleAssignment,
            PlacementStoreError::CompletionConflict => PlacementFailure::CompletionConflict,
        }
    }
}

impl PlacementFailure {
    /// The failure in words.
    pub open spec fn text(self) -> Seq<char> {
        match self {
            PlacementFailure::Database(text) => "placement database: "@ + text,
            PlacementFailure::Tls(text) => "placement database TLS: "@ + text,
            PlacementFailure::Invalid(text) => text,
            PlacementFailure::GlobalQueueFull => "global placement queue is full"@,
            PlacementFailure::TenantQueueFull => "tenant placement queue is full"@,
            PlacementFailure::SandboxConflict => "sandbox identity is already in use"@,
            PlacementFailure::WorkerUnavailable => "worker is unavailable or incompatible"@,
            PlacementFailure::StaleAssignment => "assignment is stale, expired, or fenced"@,
            PlacementFailure::CompletionConflict =>
            "completion conflicts with the winning result"@,
        }
    }
}

impl PlacementStoreError {
    /// The failure in words.
    pub fn message(&self) -> (r: String)
        ensures
            r@ == self@.text(),
    {
        match self {
            PlacementStoreError::Database(text) => join2("placement database: ", text.as_str()),
            PlacementStoreError::Tls(text) => join2("placement database TLS: ", text.as_str()),
            PlacementStoreError::Invalid(text) => text.clone(),
            PlacementStoreError::GlobalQueueFull => "global placement queue is full".to_owned(),
            PlacementStoreError::TenantQueueFull => "tenant placement queue is full".to_owned(),
            PlacementStoreError::SandboxConflict => "sandbox identity is already in use".to_owned(),
            PlacementStoreError::WorkerUnavailable =>
            "worker is unavailable or incompatible".to_owned(),
            PlacementStoreError::StaleAssignment =>
            "assignment is stale, expired, or fenced".to_owned(),
            PlacementStoreError::CompletionConflict =>
            "completion conflicts with the winning result".to_owned(),
        }
    }
}

/// Each failure reads as what failed and why.
pub proof fn law_placement_failures_read_as_their_kind(text: Seq<char>)
    ensures
        PlacementFailure::Database(text).text() == "placement database: "@ + text,
        PlacementFailure::Tls(text).text() == "placement database TLS: "@ + text,
        PlacementFailure::Invalid(text).text() == text,
        PlacementFailure::GlobalQueueFull.text() == "global placement queue is full"@,
        PlacementFailure::TenantQueueFull.text() == "tenant placement queue is full"@,
        PlacementFailure::SandboxConflict.text() == "sandbox identity is already in use"@,
        PlacementFailure::WorkerUnavailable.text() == "worker is unavailable or incompatible"@,
        PlacementFailure::StaleAssignment.text() == "assignment is stale, expired, or fenced"@,
        PlacementFailure::CompletionConflict.text()
            == "completion conflicts with the winning result"@,
{
}

/// An error is viewed as the failure of its kind.
pub proof fn law_placement_errors_are_viewed_as_their_kind(text: String)
    ensures
        PlacementStoreError::Database(text)@ == PlacementFailure::Database(text@),
        PlacementStoreError::Tls(text)@ == PlacementFailure::Tls(text@),
        PlacementStoreError::Invalid(text)@ == PlacementFailure::Invalid(text@),
        PlacementStoreError::GlobalQueueFull@ is GlobalQueueFull,
        PlacementStoreError::TenantQueueFull@ is TenantQueueFull,
        PlacementStoreError::SandboxConflict@ is SandboxConflict,
        PlacementStoreError::WorkerUnavailable@ is WorkerUnavailable,
        PlacementStoreError::StaleAssignment@ is StaleAssignment,
        PlacementStoreError::CompletionConflict@ is CompletionConflict,
{
}

} // verus!

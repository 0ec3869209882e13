//! Failures of volume operations.

use crate::text::{join2, join5};
use vstd::prelude::*;

verus! {

/// Why a volume operation failed.
#[derive(Debug)]
pub enum VolumeError {
    Invalid(String),
    AccessDenied(String),
    AlreadyExists(String),
    NotFound(String),
    Unsupported(String),
    Integrity(String),
    Timeout(String),
    Io { path: String, source: String },
    Mount(String),
}

/// A `VolumeError` with its texts read as character sequences.
pub enum VolumeFailure {
    Invalid(Seq<char>),
    AccessDenied(Seq<char>),
    AlreadyExists(Seq<char>),
    NotFound(Seq<char>),
    Unsupported(Seq<char>),
    Integrity(Seq<char>),
    Timeout(Seq<char>),
    Io { path: Seq<char>, source: Seq<char> },
    Mount(Seq<char>),
}

impl View for VolumeError {
    type V = VolumeFailure;

    open spec fn view(&self) -> VolumeFailure {
        match *self {
            VolumeError::Invalid(text) => VolumeFailure::Invalid(text@),
            VolumeError::AccessDenied(text) => VolumeFailure::AccessDenied(text@),
            VolumeError::AlreadyExists(text) => VolumeFailure::AlreadyExists(text@),
            VolumeError::NotFound(text) => VolumeFailure::NotFound(text@),
            VolumeError::Unsupported(text) => VolumeFailure::Unsupported(text@),
            VolumeError::Integrity(text) => VolumeFailure::Integrity(text@),
            VolumeError::Timeout(text) => VolumeFailure::Timeout(text@),
            VolumeError::Io { path, source } => VolumeFailure::Io {
                path: path@,
                source: source@,
            },
            VolumeError::Mount(text) => VolumeFailure::Mount(text@),
        }
    }
}

impl VolumeFailure {
    /// The failure in words.
    pub open spec fn text(self) -> Seq<char> {
        match self {
            VolumeFailure::Invalid(text) => "invalid volume request: "@ + text,
            VolumeFailure::AccessDenied(text) => "volume access is denied: "@ + text,
            VolumeFailure::AlreadyExists(text) => "volume already exists: "@ + text,
            VolumeFailure::NotFound(text) => "volume was not found: "@ + text,
            VolumeFailure::Unsupported(text) => "volume provider does not support: "@ + text,
            VolumeFailure::Integrity(text) => "volume integrity verification failed: "@ + text,
            VolumeFailure::Timeout(text) => "volume operation timed out: "@ + text,
            VolumeFailure::Io { path, source } => "volume path `"@ + path + "` failed: "@ + source
                + ""@,
            VolumeFailure::Mount(text) => "volume mount operation failed: "@ + text,
        }
    }
}

impl VolumeError {
    /// The failure in words.
    pub fn message(&self) -> (r: String)
        ensures
            r@ == self@.text(),
    {
        match self {
            VolumeError::Invalid(text) => join2("invalid volume request: ", text.as_str()),
            VolumeError::AccessDenied(text) => join2("volume access is denied: ", text.as_str()),
            VolumeError::AlreadyExists(text) => join2("volume already exists: ", text.as_str()),
            VolumeError::NotFound(text) => join2("volume was not found: ", text.as_str()),
            VolumeError::Unsupported(text) => join2(
                "volume provider does not support: ",
                text.as_str(),
            ),
            VolumeError::Integrity(text) => join2(
                "volume integrity verification failed: ",
                text.as_str(),
            ),
            VolumeError::Timeout(text) => join2("volume operation timed out: ", text.as_str()),
            VolumeError::Io { path, source } => join5(
                "volume path `",
                path.as_str(),
                "` failed: ",
                source.as_str(),
                "",
            ),
            VolumeError::Mount(text) => join2("volume mount operation failed: ", text.as_str()),
        }
    }
}

/// A file operation on `path` that failed with `source`.
pub fn io_error(path: String, source: String) -> (r: VolumeError)
    ensures
        r == (VolumeError::Io { path, source }),
{
    VolumeError::Io { path, source }
}

/// Each failure reads as what failed and why.
pub proof fn law_volume_failures_read_as_their_kind(text: Seq<char>, path: Seq<char>)
    ensures
        VolumeFailure::Invalid(text).text() == "invalid volume request: "@ + text,
        VolumeFailure::AccessDenied(text).text() == "volume access is denied: "@ + text,
        VolumeFailure::AlreadyExists(text).text() == "volume already exists: "@ + text,
        VolumeFailure::NotFound(text).text() == "volume was not found: "@ + text,
        VolumeFailure::Unsupported(text).text() == "volume provider does not support: "@ + text,
        VolumeFailure::Integrity(text).text() == "volume integrity verification failed: "@ + text,
        VolumeFailure::Timeout(text).text() == "volume operation timed out: "@ + text,
        VolumeFailure::Mount(text).text() == "volume mount operation failed: "@ + text,
        (VolumeFailure::Io { path, source: text }).text() == "volume path `"@ + path
            + "` failed: "@ + text,
{
    reveal_strlit("");
    let whole = "volume path `"@ + path + "` failed: "@ + text;
    assert(whole + ""@ =~= whole);
}

/// An error is viewed as the failure of its kind.
pub proof fn law_volume_errors_are_viewed_as_their_kind(text: String, path: String)
    ensures
        VolumeError::Invalid(text)@ == VolumeFailure::Invalid(text@),
        VolumeError::AccessDenied(text)@ == VolumeFailure::AccessDenied(text@),
        VolumeError::AlreadyExists(text)@ == VolumeFailure::AlreadyExists(text@),
        VolumeError::NotFound(text)@ == VolumeFailure::NotFound(text@),
        VolumeError::Unsupported(text)@ == VolumeFailure::Unsupported(text@),
        VolumeError::Integrity(text)@ == VolumeFailure::Integrity(text@),
        VolumeError::Timeout(text)@ == VolumeFailure::Timeout(text@),
        VolumeError::Mount(text)@ == VolumeFailure::Mount(text@),
        (VolumeError::Io { path, source: text })@ == (VolumeFailure::Io {
            path: path@,
            source: text@,
        }),
{
}

} // verus!

//! Failures of topology admission and image preparation.

use crate::text::{join2, join5};
use vstd::prelude::*;

verus! {

/// A result with its error read through its view.
pub open spec fn outcome<T, E: View>(result: Result<T, E>) -> Result<T, E::V> {
    match result {
        Ok(value) => Ok(value),
        Err(error) => Err(error@),
    }
}

/// A result with its value and its error read through their views.
pub open spec fn seen<T: View, E: View>(result: Result<T, E>) -> Result<T::V, E::V> {
    match result {
        Ok(value) => Ok(value@),
        Err(error) => Err(error@),
    }
}

/// Why an operation on a topology or an image failed.
#[derive(Debug)]
pub enum SandboxError {
    Io { path: String, source: String },
    Compose(String),
    Lock(String),
    Docker(String),
    ImageProvider(String),
    Timeout(String),
    Runtime(String),
    Unsupported(String),
}

/// A `SandboxError` with its texts read as character sequences.
pub enum SandboxFailure {
    Io { path: Seq<char>, source: Seq<char> },
    Compose(Seq<char>),
    Lock(Seq<char>),
    Docker(Seq<char>),
    ImageProvider(Seq<char>),
    Timeout(Seq<char>),
    Runtime(Seq<char>),
    Unsupported(Seq<char>),
}

impl View for SandboxError {
    type V = SandboxFailure;

    open spec fn view(&self) -> SandboxFailure {
        match *self {
            SandboxError::Io { path, source } => SandboxFailure::Io {
                path: path@,
                source: source@,
            },
            SandboxError::Compose(text) => SandboxFailure::Compose(text@),
            SandboxError::Lock(text) => SandboxFailure::Lock(text@),
            SandboxError::Docker(text) => SandboxFailure::Docker(text@),
            SandboxError::ImageProvider(text) => SandboxFailure::ImageProvider(text@),
            SandboxError::Timeout(text) => SandboxFailure::Timeout(text@),
            SandboxError::Runtime(text) => SandboxFailure::Runtime(text@),
            SandboxError::Unsupported(text) => SandboxFailure::Unsupported(text@),
        }
    }
}

impl SandboxFailure {
    /// The failure in words.
    pub open spec fn text(self) -> Seq<char> {
        match self {
            SandboxFailure::Io { path, source } => "I/O failed for `"@ + path + "`: "@ + source
                + ""@,
            SandboxFailure::Compose(text) => "invalid restricted Compose input: "@ + text,
            SandboxFailure::Lock(text) => "invalid topology lock: "@ + text,
            SandboxFailure::Docker(text) => "local Docker operation failed: "@ + text,
            SandboxFailure::ImageProvider(text) => "OCI image provider failed: "@ + text,
            SandboxFailure::Timeout(text) => "sandbox timed out: "@ + text,
            SandboxFailure::Runtime(text) => "sandbox runtime failed: "@ + text,
            SandboxFailure::Unsupported(text) => "unsupported sandbox feature: "@ + text,
        }
    }
}

impl SandboxError {
    /// The failure in words.
    pub fn message(&self) -> (r: String)
        ensures
            r@ == self@.text(),
    {
        match self {
            SandboxError::Io { path, source } => join5(
                "I/O failed for `",
                path.as_str(),
                "`: ",
                source.as_str(),
                "",
            ),
            SandboxError::Compose(text) => join2(
                "invalid restricted Compose input: ",
                text.as_str(),
            ),
            SandboxError::Lock(text) => join2("invalid topology lock: ", text.as_str()),
            SandboxError::Docker(text) => join2("local Docker operation failed: ", text.as_str()),
            SandboxError::ImageProvider(text) => join2(
                "OCI image provider failed: ",
                text.as_str(),
            ),
            SandboxError::Timeout(text) => join2("sandbox timed out: ", text.as_str()),
            SandboxError::Runtime(text) => join2("sandbox runtime failed: ", text.as_str()),
            SandboxError::Unsupported(text) => join2(
                "unsupported sandbox feature: ",
                text.as_str(),
            ),
        }
    }
}

/// A file operation on `path` that failed with `source`.
pub fn io_error(path: String, source: String) -> (r: SandboxError)
    ensures
        r == (SandboxError::Io { path, source }),
{
    SandboxError::Io { path, source }
}

/// What a result is seen as: its value, or its error by its view.
pub proof fn law_results_are_seen_as_they_are<T, E: View>(value: T, error: E)
    ensures
        outcome(Ok::<T, E>(value)) == Ok::<T, E::V>(value),
        outcome(Err::<T, E>(error)) == Err::<T, E::V>(error@),
{
}

/// What a result of a viewed value is seen as.
pub proof fn law_viewed_results_are_seen_as_they_are<T: View, E: View>(value: T, error: E)
    ensures
        seen(Ok::<T, E>(value)) == Ok::<T::V, E::V>(value@),
        seen(Err::<T, E>(error)) == Err::<T::V, E::V>(error@),
{
}

/// Each failure reads as what failed and why.
pub proof fn law_failures_read_as_their_kind(text: Seq<char>, path: Seq<char>)
    ensures
        SandboxFailure::Compose(text).text() == "invalid restricted Compose input: "@ + text,
        SandboxFailure::Lock(text).text() == "invalid topology lock: "@ + text,
        SandboxFailure::Docker(text).text() == "local Docker operation failed: "@ + text,
        SandboxFailure::ImageProvider(text).text() == "OCI image provider failed: "@ + text,
        SandboxFailure::Timeout(text).text() == "sandbox timed out: "@ + text,
        SandboxFailure::Runtime(text).text() == "sandbox runtime failed: "@ + text,
        SandboxFailure::Unsupported(text).text() == "unsupported sandbox feature: "@ + text,
        (SandboxFailure::Io { path, source: text }).text() == "I/O failed for `"@ + path + "`: "@
            + text,
{
    reveal_strlit("");
    let whole = "I/O failed for `"@ + path + "`: "@ + text;
    assert(whole + ""@ =~= whole);
}

/// An error is viewed as the failure of its kind.
pub proof fn law_errors_are_viewed_as_their_kind(text: String, path: String)
    ensures
        SandboxError::Compose(text)@ == SandboxFailure::Compose(text@),
        SandboxError::Lock(text)@ == SandboxFailure::Lock(text@),
        SandboxError::Docker(text)@ == SandboxFailure::Docker(text@),
        SandboxError::ImageProvider(text)@ == SandboxFailure::ImageProvider(text@),
        SandboxError::Timeout(text)@ == SandboxFailure::Timeout(text@),
        SandboxError::Runtime(text)@ == SandboxFailure::Runtime(text@),
        SandboxError::Unsupported(text)@ == SandboxFailure::Unsupported(text@),
        (SandboxError::Io { path, source: text })@ == (SandboxFailure::Io {
            path: path@,
            source: text@,
        }),
{
}

} // verus!

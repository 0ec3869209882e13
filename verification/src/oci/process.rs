//! Processes that run for a limited time.

use crate::oci::error::SandboxError;
use vstd::prelude::*;

verus! {

/// What a look at a process shows.
#[derive(Debug)]
pub enum Polled {
    Ended,
    Running,
    Failed(SandboxError),
}

/// What is done next about a process.
#[derive(Debug)]
pub enum Wait {
    /// The process has ended.
    Ended,
    /// Look again after a while.
    Pause,
    /// Kill the process.
    Kill,
    /// Give up on the process.
    Fail(SandboxError),
}

/// Judges a look at a process, whose time may be over.
pub fn judge_wait(polled: Polled, expired: bool) -> (r: Wait)
    ensures
        match polled {
            Polled::Ended => r is Ended,
            Polled::Running => if expired {
                r is Kill
            } else {
                r is Pause
            },
            Polled::Failed(error) => r == Wait::Fail(error),
        },
{
    match polled {
        Polled::Ended => Wait::Ended,
        Polled::Running => if expired {
            Wait::Kill
        } else {
            Wait::Pause
        },
        Polled::Failed(error) => Wait::Fail(error),
    }
}

/// What is said of a process whose time was over: why it could not be killed, or else that it ran
/// for too long.
pub fn judge_kill(killed: Result<(), SandboxError>, timeout: SandboxError) -> (r: SandboxError)
    ensures
        match killed {
            Ok(()) => r == timeout,
            Err(error) => r == error,
        },
{
    match killed {
        Ok(()) => timeout,
        Err(error) => error,
    }
}

} // verus!

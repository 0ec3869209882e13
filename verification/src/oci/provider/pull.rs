//! The steps of pulling an image: it is fetched, verified, and only then unpacked.

use crate::oci::error::{SandboxError, SandboxFailure};
use crate::oci::model::LockedImage;
use crate::oci::provider::containerd::ContainerdImageProvider;
use crate::oci::provider::PreparationStatus;
use vstd::prelude::*;

verus! {

/// What is done next to pull an image.
#[derive(Clone, Copy, Debug, PartialEq, Eq, Structural)]
pub enum PullStage {
    /// Verify the image and check that it is unpacked.
    Probe,
    /// Put the credential where the client finds it.
    Credentials,
    /// Fetch the content.
    Fetch,
    /// Verify what was fetched.
    Verify,
    /// Unpack the image.
    Unpack,
    /// Check that it is unpacked.
    Check,
}

/// What comes of a stage.
#[derive(Clone, Copy, Debug, PartialEq, Eq, Structural)]
pub enum PullProgress {
    Next(PullStage),
    Done(PreparationStatus),
}

/// What comes of the outcome of a stage.
pub open spec fn pull_step(stage: PullStage, outcome: Result<(), SandboxFailure>) -> Result<
    PullProgress,
    SandboxFailure,
> {
    match (stage, outcome) {
        (PullStage::Probe, Ok(())) => Ok(PullProgress::Done(PreparationStatus::Reused)),
        (PullStage::Probe, Err(_)) => Ok(PullProgress::Next(PullStage::Credentials)),
        (_, Err(failure)) => Err(failure),
        (PullStage::Credentials, Ok(())) => Ok(PullProgress::Next(PullStage::Fetch)),
        (PullStage::Fetch, Ok(())) => Ok(PullProgress::Next(PullStage::Verify)),
        (PullStage::Verify, Ok(())) => Ok(PullProgress::Next(PullStage::Unpack)),
        (PullStage::Unpack, Ok(())) => Ok(PullProgress::Next(PullStage::Check)),
        (PullStage::Check, Ok(())) => Ok(PullProgress::Done(PreparationStatus::Prepared)),
    }
}

/// Begins to pull an image.
pub fn begin_pull(provider: &ContainerdImageProvider, image: &LockedImage) -> (r: Result<
    PullProgress,
    SandboxError,
>)
    ensures
        match provider.image_refusal(image@) {
            Some(failure) => r matches Err(error) && error@ == failure,
            None => r == Ok::<PullProgress, SandboxError>(
                if provider.is_fixed() {
                    PullProgress::Done(PreparationStatus::Reused)
                } else {
                    PullProgress::Next(PullStage::Probe)
                },
            ),
        },
{
    match provider.validate_image(image) {
        Ok(()) => {},
        Err(error) => return Err(error),
    }
    if provider.config().fixed_rootfs.is_some() {
        Ok(PullProgress::Done(PreparationStatus::Reused))
    } else {
        Ok(PullProgress::Next(PullStage::Probe))
    }
}

/// Takes the outcome of a stage.
pub fn advance_pull(stage: PullStage, outcome: Result<(), SandboxError>) -> (r: Result<
    PullProgress,
    SandboxError,
>)
    ensures
        crate::oci::error::outcome(r) == pull_step(stage, crate::oci::error::outcome(outcome)),
{
    match outcome {
        Err(error) => match stage {
            PullStage::Probe => Ok(PullProgress::Next(PullStage::Credentials)),
            _ => Err(error),
        },
        Ok(()) => Ok(
            match stage {
                PullStage::Probe => PullProgress::Done(PreparationStatus::Reused),
                PullStage::Credentials => PullProgress::Next(PullStage::Fetch),
                PullStage::Fetch => PullProgress::Next(PullStage::Verify),
                PullStage::Verify => PullProgress::Next(PullStage::Unpack),
                PullStage::Unpack => PullProgress::Next(PullStage::Check),
                PullStage::Check => PullProgress::Done(PreparationStatus::Prepared),
            },
        ),
    }
}

/// Where a row of outcomes leads from the first stage.
pub open spec fn pulled(outcomes: Seq<Result<(), SandboxFailure>>) -> Result<
    PullProgress,
    SandboxFailure,
>
    decreases outcomes.len(),
{
    if outcomes.len() == 0 {
        Ok(PullProgress::Next(PullStage::Probe))
    } else {
        match pulled(outcomes.drop_last()) {
            Ok(PullProgress::Next(stage)) => pull_step(stage, outcomes.last()),
            other => other,
        }
    }
}

/// An image that was not there before is unpacked only after what was fetched has been
/// verified, and counts as prepared only after its unpacking has been checked.
pub proof fn law_unpacking_follows_verification(outcomes: Seq<Result<(), SandboxFailure>>)
    ensures
        pulled(outcomes) == Ok::<PullProgress, SandboxFailure>(
            PullProgress::Next(PullStage::Unpack),
        ) ==> outcomes.len() == 4 && outcomes[0] is Err && outcomes[1] is Ok && outcomes[2] is Ok
            && outcomes[3] is Ok,
        pulled(outcomes) == Ok::<PullProgress, SandboxFailure>(
            PullProgress::Done(PreparationStatus::Prepared),
        ) ==> outcomes.len() >= 6 && outcomes[3] is Ok && outcomes[4] is Ok && outcomes[5] is Ok,
{
    lemma_pulled(outcomes);
}

proof fn lemma_pulled(outcomes: Seq<Result<(), SandboxFailure>>)
    ensures
        match pulled(outcomes) {
            Ok(PullProgress::Next(stage)) => match stage {
                PullStage::Probe => outcomes.len() == 0,
                PullStage::Credentials => outcomes.len() == 1 && outcomes[0] is Err,
                PullStage::Fetch => outcomes.len() == 2 && outcomes[0] is Err && outcomes[1] is Ok,
                PullStage::Verify => outcomes.len() == 3 && outcomes[0] is Err && outcomes[1] is Ok
                    && outcomes[2] is Ok,
                PullStage::Unpack => outcomes.len() == 4 && outcomes[0] is Err && outcomes[1] is Ok
                    && outcomes[2] is Ok && outcomes[3] is Ok,
                PullStage::Check => outcomes.len() == 5 && outcomes[0] is Err && outcomes[1] is Ok
                    && outcomes[2] is Ok && outcomes[3] is Ok && outcomes[4] is Ok,
            },
            Ok(PullProgress::Done(PreparationStatus::Prepared)) => outcomes.len() >= 6
                && outcomes[3] is Ok && outcomes[4] is Ok && outcomes[5] is Ok,
            _ => true,
        },
    decreases outcomes.len(),
{
    if outcomes.len() > 0 {
        lemma_pulled(outcomes.drop_last());
    }
}

/// An image that is there is used again. Any other is pulled stage by stage, in this order, and the
/// first failure behind the probe ends the pull.
pub proof fn law_pulls_take_their_course(
    stage: PullStage,
    outcome: Result<(), SandboxFailure>,
    failure: SandboxFailure,
)
    ensures
        pull_step(PullStage::Probe, Ok(())) == Ok::<PullProgress, SandboxFailure>(
            PullProgress::Done(PreparationStatus::Reused),
        ),
        pull_step(PullStage::Probe, Err(failure)) == Ok::<PullProgress, SandboxFailure>(
            PullProgress::Next(PullStage::Credentials),
        ),
        !(stage is Probe) ==> pull_step(stage, Err(failure)) == Err::<PullProgress, SandboxFailure>(
            failure,
        ),
        !(stage is Probe) && outcome is Ok ==> pull_step(stage, outcome) is Ok,
        outcome is Ok ==> {
            &&& pull_step(stage, outcome) == Ok::<PullProgress, SandboxFailure>(
                PullProgress::Next(PullStage::Fetch),
            ) <==> stage is Credentials
            &&& pull_step(stage, outcome) == Ok::<PullProgress, SandboxFailure>(
                PullProgress::Next(PullStage::Verify),
            ) <==> stage is Fetch
            &&& pull_step(stage, outcome) == Ok::<PullProgress, SandboxFailure>(
                PullProgress::Next(PullStage::Unpack),
            ) <==> stage is Verify
            &&& pull_step(stage, outcome) == Ok::<PullProgress, SandboxFailure>(
                PullProgress::Next(PullStage::Check),
            ) <==> stage is Unpack
            &&& pull_step(stage, outcome) == Ok::<PullProgress, SandboxFailure>(
                PullProgress::Done(PreparationStatus::Prepared),
            ) <==> stage is Check
        },
{
}

} // verus!

//! Restoring a named volume from the file of a snapshot.

use crate::checks;
use crate::oci::error;
use crate::oci::model::{VolumePersistenceClass, VolumeSpec};
use crate::text;
use crate::volume::error::{VolumeError, VolumeFailure};
use crate::volume::local;
use crate::volume::local::{
    validate_record, AttachmentText, RecordText, VolumeRecord, LOCAL_VOLUME_PROVIDER_ID,
    SNAPSHOT_FORMAT, VOLUME_SNAPSHOT_VERSION,
};
use crate::volume::meter::FileDigest;
use crate::volume::model::{HandleText, SnapshotText, VolumeHandle, VolumeSnapshot};
use vstd::prelude::*;

verus! {

/// A snapshot that fits the volume that is asked for.
pub open spec fn is_compatible(specification: VolumeSpec, snapshot: SnapshotText) -> bool {
    &&& snapshot.schema_version == VOLUME_SNAPSHOT_VERSION
    &&& snapshot.provider_id == LOCAL_VOLUME_PROVIDER_ID@
    &&& snapshot.volume_id == specification.volume_id@
    &&& snapshot.persistence_class == specification.persistence_class
    &&& snapshot.quota_bytes == specification.quota_bytes
    &&& snapshot.format == SNAPSHOT_FORMAT@
    &&& snapshot.portability.crosses()
    &&& specification.persistence_class.named()
}

/// Why a restoration is not begun. `check` is what the specification's own rules say of it.
pub open spec fn restore_failure(
    specification: VolumeSpec,
    check: Result<(), String>,
    snapshot: SnapshotText,
) -> Option<VolumeFailure> {
    match check {
        Err(reason) => Some(VolumeFailure::Invalid(reason@)),
        Ok(()) => checks::when(
            !is_compatible(specification, snapshot),
            VolumeFailure::Invalid("volume snapshot is incompatible with the restore request"@),
        ),
    }
}

/// Begins to restore a volume.
pub fn begin_restore(
    specification: &VolumeSpec,
    check: Result<(), String>,
    snapshot: &VolumeSnapshot,
) -> (r: Result<(), VolumeError>)
    ensures
        error::outcome(r) == checks::verdict(restore_failure(*specification, check, snapshot@)),
{
    match check {
        Ok(()) => {},
        Err(reason) => return Err(VolumeError::Invalid(reason)),
    }
    if snapshot.schema_version != VOLUME_SNAPSHOT_VERSION || !text::same(
        snapshot.provider_id.as_str(),
        LOCAL_VOLUME_PROVIDER_ID,
    ) || !text::same(snapshot.volume_id.as_str(), specification.volume_id.as_str())
        || snapshot.persistence_class != specification.persistence_class || snapshot.quota_bytes
        != specification.quota_bytes || !text::same(snapshot.format.as_str(), SNAPSHOT_FORMAT)
        || !snapshot.portability.permits_cross_worker()
        || !specification.persistence_class.is_named() {
        return Err(
            VolumeError::Invalid(
                "volume snapshot is incompatible with the restore request".to_owned(),
            ),
        );
    }
    Ok(())
}

/// The file has the digest and the size that a snapshot tells.
pub open spec fn is_told(snapshot: SnapshotText, file: (Seq<char>, u64)) -> bool {
    file.0 == snapshot.digest && file.1 == snapshot.size_bytes
}

/// Accepts the file of a snapshot, which holds a whole volume.
pub fn check_source(
    specification: &VolumeSpec,
    snapshot: &VolumeSnapshot,
    is_file: bool,
    file: &FileDigest,
) -> (r: Result<(), VolumeError>)
    ensures
        error::outcome(r) == checks::verdict(
            checks::when(
                !is_file || !is_told(snapshot@, (file.digest@, file.size_bytes)) || file.size_bytes
                    != specification.quota_bytes,
                VolumeFailure::Integrity("volume snapshot content does not match its descriptor"@),
            ),
        ),
{
    if !is_file || !text::same(file.digest.as_str(), snapshot.digest.as_str()) || file.size_bytes
        != snapshot.size_bytes || file.size_bytes != specification.quota_bytes {
        return Err(
            VolumeError::Integrity(
                "volume snapshot content does not match its descriptor".to_owned(),
            ),
        );
    }
    Ok(())
}

/// Why the contents of a volume that is there are not replaced.
pub open spec fn replace_failure(handle: HandleText, record: RecordText) -> Option<VolumeFailure> {
    checks::or(
        local::record_failure(handle, record),
        checks::when(
            !(record.volume.persistence_class is Persistent) || record.frozen || record.attachments
                != Map::<Seq<char>, AttachmentText>::empty(),
            VolumeFailure::AlreadyExists(handle.volume_id),
        ),
    )
}

/// Accepts a volume whose contents are to be replaced.
pub fn check_replaceable(handle: &VolumeHandle, record: &VolumeRecord) -> (r: Result<
    (),
    VolumeError,
>)
    ensures
        error::outcome(r) == checks::verdict(replace_failure(handle@, record@)),
{
    match validate_record(handle, record) {
        Ok(()) => {},
        Err(error) => return Err(error),
    }
    proof {
        local::lemma_no_attachments(record.attachments@);
    }
    let persistent = match record.persistence_class {
        VolumePersistenceClass::Persistent => true,
        _ => false,
    };
    if !persistent || record.frozen || !record.attachments.is_empty() {
        return Err(VolumeError::AlreadyExists(handle.volume_id().to_owned()));
    }
    Ok(())
}

/// What is done next to restore a volume.
#[derive(Debug)]
pub enum RestoreState {
    /// Unmount the volume that is there.
    Unmount,
    /// Remove the staging file, if there is one.
    ClearStaging,
    /// Copy the snapshot into the staging file.
    Stage,
    /// Measure the staging file.
    MeasureStaged,
    /// Remove the staging file.
    Discard { error: VolumeError },
    /// Put the staging file in the place of the backing file.
    Install,
    /// Copy the snapshot into the backing file of a volume that was just created.
    Copy,
    /// Measure the backing file.
    MeasureCopied,
    /// Remove the volume.
    Undo { error: VolumeError },
    /// Nothing more.
    Done(Result<(), VolumeError>),
}

/// A `RestoreState` with its texts read as character sequences.
pub enum RestoreText {
    Unmount,
    ClearStaging,
    Stage,
    MeasureStaged,
    Discard { error: VolumeFailure },
    Install,
    Copy,
    MeasureCopied,
    Undo { error: VolumeFailure },
    Done(Result<(), VolumeFailure>),
}

impl View for RestoreState {
    type V = RestoreText;

    open spec fn view(&self) -> RestoreText {
        match *self {
            RestoreState::Unmount => RestoreText::Unmount,
            RestoreState::ClearStaging => RestoreText::ClearStaging,
            RestoreState::Stage => RestoreText::Stage,
            RestoreState::MeasureStaged => RestoreText::MeasureStaged,
            RestoreState::Discard { error } => RestoreText::Discard { error: error@ },
            RestoreState::Install => RestoreText::Install,
            RestoreState::Copy => RestoreText::Copy,
            RestoreState::MeasureCopied => RestoreText::MeasureCopied,
            RestoreState::Undo { error } => RestoreText::Undo { error: error@ },
            RestoreState::Done(result) => RestoreText::Done(
                match result {
                    Ok(()) => Ok(()),
                    Err(error) => Err(error@),
                },
            ),
        }
    }
}

/// What the host has done or found.
#[derive(Debug)]
pub enum RestoreEvent {
    Completed(Result<(), VolumeError>),
    Measured(Result<FileDigest, VolumeError>),
}

/// A `RestoreEvent` with its texts read as character sequences.
pub enum RestoreEventText {
    Completed(Result<(), VolumeFailure>),
    Measured(Result<(Seq<char>, u64), VolumeFailure>),
}

impl View for RestoreEvent {
    type V = RestoreEventText;

    open spec fn view(&self) -> RestoreEventText {
        match *self {
            RestoreEvent::Completed(result) => RestoreEventText::Completed(
                match result {
                    Ok(()) => Ok(()),
                    Err(error) => Err(error@),
                },
            ),
            RestoreEvent::Measured(result) => RestoreEventText::Measured(
                match result {
                    Ok(file) => Ok((file.digest@, file.size_bytes)),
                    Err(error) => Err(error@),
                },
            ),
        }
    }
}

/// Where an event leads the restoration of a snapshot.
pub open spec fn restore_step(
    snapshot: SnapshotText,
    state: RestoreText,
    event: RestoreEventText,
) -> RestoreText {
    match (state, event) {
        (RestoreText::Unmount, RestoreEventText::Completed(Ok(()))) => RestoreText::ClearStaging,
        (RestoreText::Unmount, RestoreEventText::Completed(Err(error))) => RestoreText::Done(
            Err(error),
        ),
        (RestoreText::ClearStaging, RestoreEventText::Completed(Ok(()))) => RestoreText::Stage,
        (RestoreText::ClearStaging, RestoreEventText::Completed(Err(error))) => RestoreText::Done(
            Err(error),
        ),
        (RestoreText::Stage, RestoreEventText::Completed(Ok(()))) => RestoreText::MeasureStaged,
        (RestoreText::Stage, RestoreEventText::Completed(Err(error))) => RestoreText::Discard {
            error,
        },
        (RestoreText::MeasureStaged, RestoreEventText::Measured(Ok(file))) => if is_told(
            snapshot,
            file,
        ) {
            RestoreText::Install
        } else {
            RestoreText::Discard {
                error: VolumeFailure::Integrity("restored volume changed while it was staged"@),
            }
        },
        (RestoreText::MeasureStaged, RestoreEventText::Measured(Err(error))) =>
        RestoreText::Discard { error },
        (RestoreText::Discard { error }, RestoreEventText::Completed(_)) => RestoreText::Done(
            Err(error),
        ),
        (RestoreText::Install, RestoreEventText::Completed(result)) => RestoreText::Done(result),
        (RestoreText::Copy, RestoreEventText::Completed(Ok(()))) => RestoreText::MeasureCopied,
        (RestoreText::Copy, RestoreEventText::Completed(Err(error))) => RestoreText::Undo { error },
        (RestoreText::MeasureCopied, RestoreEventText::Measured(Ok(file))) => if is_told(
            snapshot,
            file,
        ) {
            RestoreText::Done(Ok(()))
        } else {
            RestoreText::Undo {
                error: VolumeFailure::Integrity("restored volume changed while it was copied"@),
            }
        },
        (RestoreText::MeasureCopied, RestoreEventText::Measured(Err(error))) => RestoreText::Done(
            Err(error),
        ),
        (RestoreText::Undo { error }, RestoreEventText::Completed(_)) => RestoreText::Done(
            Err(error),
        ),
        (state, _) => state,
    }
}

/// Whether a file has the digest and the size that a snapshot tells.
fn told(snapshot: &VolumeSnapshot, file: &FileDigest) -> (r: bool)
    ensures
        r == is_told(snapshot@, (file.digest@, file.size_bytes)),
{
    text::same(file.digest.as_str(), snapshot.digest.as_str()) && file.size_bytes
        == snapshot.size_bytes
}

/// Takes what the host has done or found.
pub fn advance_restore(snapshot: &VolumeSnapshot, state: RestoreState, event: RestoreEvent) -> (r:
    RestoreState)
    ensures
        r@ == restore_step(snapshot@, state@, event@),
{
    match (state, event) {
        (RestoreState::Unmount, RestoreEvent::Completed(Ok(()))) => RestoreState::ClearStaging,
        (RestoreState::Unmount, RestoreEvent::Completed(Err(error))) => RestoreState::Done(
            Err(error),
        ),
        (RestoreState::ClearStaging, RestoreEvent::Completed(Ok(()))) => RestoreState::Stage,
        (RestoreState::ClearStaging, RestoreEvent::Completed(Err(error))) => RestoreState::Done(
            Err(error),
        ),
        (RestoreState::Stage, RestoreEvent::Completed(Ok(()))) => RestoreState::MeasureStaged,
        (RestoreState::Stage, RestoreEvent::Completed(Err(error))) => RestoreState::Discard {
            error,
        },
        (RestoreState::MeasureStaged, RestoreEvent::Measured(Ok(file))) => if told(
            snapshot,
            &file,
        ) {
            RestoreState::Install
        } else {
            RestoreState::Discard {
                error: VolumeError::Integrity(
                    "restored volume changed while it was staged".to_owned(),
                ),
            }
        },
        (RestoreState::MeasureStaged, RestoreEvent::Measured(Err(error))) =>
        RestoreState::Discard { error },
        (RestoreState::Discard { error }, RestoreEvent::Completed(_)) => RestoreState::Done(
            Err(error),
        ),
        (RestoreState::Install, RestoreEvent::Completed(result)) => RestoreState::Done(result),
        (RestoreState::Copy, RestoreEvent::Completed(Ok(()))) => RestoreState::MeasureCopied,
        (RestoreState::Copy, RestoreEvent::Completed(Err(error))) => RestoreState::Undo { error },
        (RestoreState::MeasureCopied, RestoreEvent::Measured(Ok(file))) => if told(
            snapshot,
            &file,
        ) {
            RestoreState::Done(Ok(()))
        } else {
            RestoreState::Undo {
                error: VolumeError::Integrity(
                    "restored volume changed while it was copied".to_owned(),
                ),
            }
        },
        (RestoreState::MeasureCopied, RestoreEvent::Measured(Err(error))) => RestoreState::Done(
            Err(error),
        ),
        (RestoreState::Undo { error }, RestoreEvent::Completed(_)) => RestoreState::Done(
            Err(error),
        ),
        (state, _) => state,
    }
}

/// Where a row of events leads a restoration.
pub open spec fn restored(
    snapshot: SnapshotText,
    start: RestoreText,
    events: Seq<RestoreEventText>,
) -> RestoreText
    decreases events.len(),
{
    if events.len() == 0 {
        start
    } else {
        restore_step(snapshot, restored(snapshot, start, events.drop_last()), events.last())
    }
}

/// A copy was measured and is what the snapshot tells.
pub open spec fn was_measured(snapshot: SnapshotText, events: Seq<RestoreEventText>) -> bool {
    events.contains(RestoreEventText::Measured(Ok((snapshot.digest, snapshot.size_bytes))))
}

proof fn lemma_restored(
    snapshot: SnapshotText,
    start: RestoreText,
    events: Seq<RestoreEventText>,
)
    requires
        start is Unmount || start is Copy,
    ensures
        restored(snapshot, start, events) is Install ==> was_measured(snapshot, events),
        restored(snapshot, start, events) == RestoreText::Done(Ok(())) ==> was_measured(
            snapshot,
            events,
        ),
    decreases events.len(),
{
    if events.len() > 0 {
        let before = events.drop_last();
        lemma_restored(snapshot, start, before);
        assert(events[events.len() - 1] == events.last());
        if was_measured(snapshot, before) {
            let told = RestoreEventText::Measured(
                Ok::<(Seq<char>, u64), VolumeFailure>((snapshot.digest, snapshot.size_bytes)),
            );
            let at = before.index_of(told);
            assert(events[at] == told);
        }
    }
}

/// The contents of a volume are replaced, and a restoration succeeds, only after a copy was
/// measured that has the digest and the size of the snapshot.
pub proof fn law_restored_contents_match_the_snapshot(
    snapshot: SnapshotText,
    start: RestoreText,
    events: Seq<RestoreEventText>,
)
    requires
        start is Unmount || start is Copy,
    ensures
        restored(snapshot, start, events) is Install ==> was_measured(snapshot, events),
        restored(snapshot, start, events) == RestoreText::Done(Ok(())) ==> was_measured(
            snapshot,
            events,
        ),
{
    lemma_restored(snapshot, start, events);
}

/// A snapshot that a provider took of a volume fits the restoration of that volume.
pub proof fn law_own_snapshots_are_compatible(
    volume: HandleText,
    specification: VolumeSpec,
    digest: Seq<char>,
    size_bytes: u64,
)
    requires
        volume.persistence_class.named(),
        volume.volume_id == specification.volume_id@,
        volume.persistence_class == specification.persistence_class,
        volume.quota_bytes == specification.quota_bytes,
    ensures
        restore_failure(
            specification,
            Ok(()),
            crate::volume::freeze::snapshot_of(volume, digest, size_bytes),
        ) is None,
{
}

/// A snapshot fits a specification exactly where it is of the first version, of the local provider
/// and its format, tells of the same named volume, and may cross workers.
pub proof fn law_fitting_snapshots_tell_of_the_volume(
    specification: VolumeSpec,
    snapshot: SnapshotText,
    check: Result<(), String>,
)
    ensures
        is_compatible(specification, snapshot) <==> {
            &&& snapshot.schema_version == 1
            &&& snapshot.provider_id == "local-loopback-v1"@
            &&& snapshot.format == "application/vnd.runtrue.volume.ext4.v1"@
            &&& snapshot.volume_id == specification.volume_id@
            &&& snapshot.persistence_class == specification.persistence_class
            &&& snapshot.quota_bytes == specification.quota_bytes
            &&& snapshot.portability.crosses()
            &&& specification.persistence_class is Ephemeral
                || specification.persistence_class is Persistent
        },
        restore_failure(specification, check, snapshot) is None <==> check is Ok && is_compatible(
            specification,
            snapshot,
        ),
{
}

/// A file is what a snapshot tells exactly where digest and size agree.
pub proof fn law_told_files_agree(snapshot: SnapshotText, digest: Seq<char>, size_bytes: u64)
    ensures
        is_told(snapshot, (digest, size_bytes)) <==> digest == snapshot.digest && size_bytes
            == snapshot.size_bytes,
{
}

/// A volume is replaced exactly where the record is of it, it is persistent, thawed and attached
/// nowhere.
pub proof fn law_replaced_volumes_are_persistent_and_free(handle: HandleText, record: RecordText)
    ensures
        replace_failure(handle, record) is None <==> {
            &&& local::record_failure(handle, record) is None
            &&& record.volume.persistence_class is Persistent
            &&& !record.frozen
            &&& record.attachments == Map::<Seq<char>, AttachmentText>::empty()
        },
{
}

/// A restore goes on with what was done: into a volume that is there by way of a staged copy that
/// is measured before it is installed, into a new one by a copy that is measured.
pub proof fn law_restores_take_their_course(
    snapshot: SnapshotText,
    file: (Seq<char>, u64),
    failure: VolumeFailure,
    done: Result<(), VolumeFailure>,
)
    ensures
        restore_step(snapshot, RestoreText::Unmount, RestoreEventText::Completed(Ok(())))
            is ClearStaging,
        restore_step(snapshot, RestoreText::ClearStaging, RestoreEventText::Completed(Ok(())))
            is Stage,
        restore_step(snapshot, RestoreText::Stage, RestoreEventText::Completed(Ok(())))
            is MeasureStaged,
        restore_step(snapshot, RestoreText::MeasureStaged, RestoreEventText::Measured(Ok(file)))
            is Install <==> file.0 == snapshot.digest && file.1 == snapshot.size_bytes,
        !(file.0 == snapshot.digest && file.1 == snapshot.size_bytes) ==> restore_step(
            snapshot,
            RestoreText::MeasureStaged,
            RestoreEventText::Measured(Ok(file)),
        ) is Discard,
        restore_step(snapshot, RestoreText::Install, RestoreEventText::Completed(done))
            == RestoreText::Done(done),
        restore_step(snapshot, RestoreText::Copy, RestoreEventText::Completed(Ok(())))
            is MeasureCopied,
        restore_step(snapshot, RestoreText::MeasureCopied, RestoreEventText::Measured(Ok(file)))
            == RestoreText::Done(Ok(())) <==> file.0 == snapshot.digest && file.1
            == snapshot.size_bytes,
        !(file.0 == snapshot.digest && file.1 == snapshot.size_bytes) ==> restore_step(
            snapshot,
            RestoreText::MeasureCopied,
            RestoreEventText::Measured(Ok(file)),
        ) is Undo,
        restore_step(snapshot, RestoreText::Unmount, RestoreEventText::Completed(Err(failure)))
            == RestoreText::Done(Err(failure)),
        restore_step(snapshot, RestoreText::ClearStaging, RestoreEventText::Completed(Err(failure)))
            == RestoreText::Done(Err(failure)),
        restore_step(snapshot, RestoreText::Stage, RestoreEventText::Completed(Err(failure))) == (
        RestoreText::Discard { error: failure }),
        restore_step(snapshot, RestoreText::MeasureStaged, RestoreEventText::Measured(Err(failure)))
            == (RestoreText::Discard { error: failure }),
        restore_step(snapshot, RestoreText::Copy, RestoreEventText::Completed(Err(failure))) == (
        RestoreText::Undo { error: failure }),
        restore_step(snapshot, RestoreText::MeasureCopied, RestoreEventText::Measured(Err(failure)))
            == RestoreText::Done(Err(failure)),
        restore_step(
            snapshot,
            (RestoreText::Discard { error: failure }),
            RestoreEventText::Completed(done),
        ) == RestoreText::Done(Err(failure)),
        restore_step(
            snapshot,
            (RestoreText::Undo { error: failure }),
            RestoreEventText::Completed(done),
        ) == RestoreText::Done(Err(failure)),
{
}

/// Each refusal of a restore is of its kind.
pub proof fn law_refused_restores_say_why(
    specification: VolumeSpec,
    snapshot: SnapshotText,
    check: Result<(), String>,
    handle: HandleText,
    record: RecordText,
)
    ensures
        check matches Err(reason) ==> restore_failure(specification, check, snapshot) == Some(
            VolumeFailure::Invalid(reason@),
        ),
        check is Ok ==> (restore_failure(specification, check, snapshot) matches Some(failure)
            ==> failure == VolumeFailure::Invalid(
            "volume snapshot is incompatible with the restore request"@,
        )),
        local::record_failure(handle, record) is Some ==> replace_failure(handle, record)
            == local::record_failure(handle, record),
        local::record_failure(handle, record) is None ==> (replace_failure(handle, record)
            matches Some(failure) ==> failure == VolumeFailure::AlreadyExists(handle.volume_id)),
{
}

} // verus!

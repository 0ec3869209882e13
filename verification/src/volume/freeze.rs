//! Frozen volumes: their records, and the snapshots that are taken of them.

use crate::checks;
use crate::oci::error;
use crate::oci::model::VolumePersistenceClass;
use crate::text;
use crate::text::join5;
use crate::volume::error::{VolumeError, VolumeFailure};
use crate::volume::local;
use crate::volume::local::{
    validate_attachment, RecordText, VolumeRecord, LOCAL_VOLUME_PROVIDER_ID, SNAPSHOT_FORMAT,
    VOLUME_SNAPSHOT_VERSION,
};
use crate::volume::meter::FileDigest;
use crate::volume::model::{
    AttachedText, HandleText, SnapshotPortability, SnapshotText, VolumeAttachment, VolumeSnapshot,
};
use vstd::prelude::*;

verus! {

/// Why an attached volume is not frozen.
pub open spec fn freeze_failure(attachment: AttachedText, record: RecordText) -> Option<
    VolumeFailure,
> {
    checks::or(
        local::attachment_failure(attachment, record),
        checks::when(
            record.volume.persistence_class is Secret,
            VolumeFailure::Unsupported("secret volumes are excluded from snapshots"@),
        ),
    )
}

/// Begins to freeze an attached volume: whether there is anything to freeze.
pub fn begin_freeze(attachment: &VolumeAttachment, record: &VolumeRecord) -> (r: Result<
    bool,
    VolumeError,
>)
    ensures
        match r {
            Ok(needed) => freeze_failure(attachment@, record@) is None && needed == (
            record@.volume.persistence_class.named() && !record@.frozen),
            Err(error) => freeze_failure(attachment@, record@) == Some(error@),
        },
{
    match validate_attachment(attachment, record) {
        Ok(()) => {},
        Err(error) => return Err(error),
    }
    match record.persistence_class {
        VolumePersistenceClass::Artifact => Ok(false),
        VolumePersistenceClass::Secret => Err(
            VolumeError::Unsupported("secret volumes are excluded from snapshots".to_owned()),
        ),
        VolumePersistenceClass::Ephemeral | VolumePersistenceClass::Persistent => Ok(
            !record.frozen,
        ),
    }
}

/// Accepts a file system that is to be frozen.
pub fn check_freezable(mounted: bool) -> (r: Result<(), VolumeError>)
    ensures
        error::outcome(r) == checks::verdict(
            checks::when(
                !mounted,
                VolumeFailure::Integrity("cannot freeze an unmounted named volume"@),
            ),
        ),
{
    if !mounted {
        return Err(VolumeError::Integrity("cannot freeze an unmounted named volume".to_owned()));
    }
    Ok(())
}

/// Begins to thaw an attached volume: whether there is anything to thaw.
pub fn begin_thaw(attachment: &VolumeAttachment, record: &VolumeRecord) -> (r: Result<
    bool,
    VolumeError,
>)
    ensures
        match r {
            Ok(needed) => local::attachment_failure(attachment@, record@) is None && needed == (
            record@.volume.persistence_class.named() && record@.frozen),
            Err(error) => local::attachment_failure(attachment@, record@) == Some(error@),
        },
{
    match validate_attachment(attachment, record) {
        Ok(()) => {},
        Err(error) => return Err(error),
    }
    Ok(record.persistence_class.is_named() && record.frozen)
}

/// Why a frozen volume could be neither recorded nor thawed.
pub open spec fn stuck(persisted: VolumeFailure, thawed: VolumeFailure) -> VolumeFailure {
    VolumeFailure::Mount(
        "record frozen volume failed: "@ + persisted.text() + "; unfreeze failed: "@
            + thawed.text() + ""@,
    )
}

/// The record of a volume that is frozen, or is not.
pub open spec fn marked(record: VolumeRecord, frozen: bool) -> VolumeRecord {
    VolumeRecord { frozen, ..record }
}

/// Freezes a volume and records it. Where the record cannot be written, the volume is thawed
/// again.
pub fn record_freeze<Freeze, Persist, Thaw>(
    record: &mut VolumeRecord,
    freeze: Freeze,
    persist: Persist,
    thaw: Thaw,
) -> (r: Result<(), VolumeError>) where
    Freeze: FnOnce() -> Result<(), VolumeError>,
    Persist: FnOnce(&VolumeRecord) -> Result<(), VolumeError>,
    Thaw: FnOnce() -> Result<(), VolumeError>,

    requires
        freeze.requires(()),
        forall|held: &VolumeRecord| #[trigger] persist.requires((held,)),
        thaw.requires(()),
    ensures
        old(record).frozen ==> r is Ok && *final(record) == *old(record),
        !old(record).frozen ==> exists|frozen: Result<(), VolumeError>| #[trigger]
            freeze.ensures((), frozen) && match frozen {
                Err(error) => r == Err::<(), VolumeError>(error) && *final(record) == *old(record),
                Ok(()) => exists|persisted: Result<(), VolumeError>| #[trigger]
                    persist.ensures(
                        (&marked(*old(record), true),),
                        persisted,
                    ) && match persisted {
                        Ok(()) => r is Ok && *final(record) == marked(*old(record), true),
                        Err(error) => exists|thawed: Result<(), VolumeError>| #[trigger]
                            thaw.ensures((), thawed) && match thawed {
                                Ok(()) => r == Err::<(), VolumeError>(error) && *final(record)
                                    == *old(record),
                                Err(cause) => *final(record) == marked(*old(record), true) && (r matches Err(both) && both@ == stuck(error@, cause@)),
                            },
                    },
            },
{
    if record.frozen {
        return Ok(());
    }
    let frozen = freeze();
    match frozen {
        Ok(()) => {},
        Err(error) => return Err(error),
    }
    record.frozen = true;
    let persisted = persist(&*record);
    match persisted {
        Ok(()) => Ok(()),
        Err(error) => {
            let thawed = thaw();
            match thawed {
                Ok(()) => {
                    record.frozen = false;
                    Err(error)
                },
                Err(cause) => {
                    let first = error.message();
                    let second = cause.message();
                    Err(
                        VolumeError::Mount(
                            join5(
                                "record frozen volume failed: ",
                                first.as_str(),
                                "; unfreeze failed: ",
                                second.as_str(),
                                "",
                            ),
                        ),
                    )
                },
            }
        },
    }
}

/// Thaws a volume and records it. Where the record cannot be written, the volume still counts
/// as frozen, so that thawing it can be tried again.
pub fn record_thaw<Thaw, Persist>(
    record: &mut VolumeRecord,
    thaw: Thaw,
    persist: Persist,
) -> (r: Result<(), VolumeError>) where
    Thaw: FnOnce() -> Result<(), VolumeError>,
    Persist: FnOnce(&VolumeRecord) -> Result<(), VolumeError>,

    requires
        thaw.requires(()),
        forall|held: &VolumeRecord| #[trigger] persist.requires((held,)),
    ensures
        !old(record).frozen ==> r is Ok && *final(record) == *old(record),
        old(record).frozen ==> exists|thawed: Result<(), VolumeError>| #[trigger]
            thaw.ensures((), thawed) && match thawed {
                Err(error) => r == Err::<(), VolumeError>(error) && *final(record) == *old(record),
                Ok(()) => exists|persisted: Result<(), VolumeError>| #[trigger]
                    persist.ensures(
                        (&marked(*old(record), false),),
                        persisted,
                    ) && match persisted {
                        Ok(()) => r is Ok && *final(record) == marked(*old(record), false),
                        Err(error) => r == Err::<(), VolumeError>(error) && *final(record) == *old(
                            record,
                        ),
                    },
            },
{
    if !record.frozen {
        return Ok(());
    }
    let thawed = thaw();
    match thawed {
        Ok(()) => {},
        Err(error) => return Err(error),
    }
    record.frozen = false;
    let persisted = persist(&*record);
    match persisted {
        Ok(()) => Ok(()),
        Err(error) => {
            record.frozen = true;
            Err(error)
        },
    }
}

/// Why a mount that an earlier run left could not be taken back.
pub open spec fn recovery_failure(
    thaw: Result<(), VolumeFailure>,
    unmount: Result<(), VolumeFailure>,
) -> Option<VolumeFailure> {
    match (thaw, unmount) {
        (_, Ok(())) => None,
        (Ok(()), Err(error)) => Some(error),
        (Err(thaw), Err(unmount)) => Some(
            VolumeFailure::Mount(
                "unfreeze volume during recovery failed: "@ + thaw.text() + "; "@ + unmount.text()
                    + ""@,
            ),
        ),
    }
}

/// Judges how a mount that an earlier run left was taken back: what was unmounted need not
/// have been thawed.
pub fn finish_mount_recovery(
    thaw: Result<(), VolumeError>,
    unmount: Result<(), VolumeError>,
) -> (r: Result<(), VolumeError>)
    ensures
        error::outcome(r) == checks::verdict(
            recovery_failure(error::outcome(thaw), error::outcome(unmount)),
        ),
{
    match (thaw, unmount) {
        (_, Ok(())) => Ok(()),
        (Ok(()), Err(error)) => Err(error),
        (Err(thaw), Err(unmount)) => {
            let first = thaw.message();
            let second = unmount.message();
            Err(
                VolumeError::Mount(
                    join5(
                        "unfreeze volume during recovery failed: ",
                        first.as_str(),
                        "; ",
                        second.as_str(),
                        "",
                    ),
                ),
            )
        },
    }
}

/// Why no snapshot is taken of an attached volume.
pub open spec fn snapshot_failure(
    attachment: AttachedText,
    record: RecordText,
    destination: Seq<char>,
    exists_already: bool,
) -> Option<VolumeFailure> {
    checks::or(
        local::attachment_failure(attachment, record),
        checks::or(
            checks::when(
                !record.volume.persistence_class.named(),
                VolumeFailure::Unsupported(
                    "only named volumes produce writable snapshot objects"@,
                ),
            ),
            checks::or(
                checks::when(
                    !record.frozen,
                    VolumeFailure::Invalid("named volume must be frozen before snapshot"@),
                ),
                checks::when(exists_already, VolumeFailure::AlreadyExists(destination)),
            ),
        ),
    )
}

/// Begins to take a snapshot of an attached volume.
pub fn begin_snapshot(
    attachment: &VolumeAttachment,
    record: &VolumeRecord,
    destination: &str,
    exists_already: bool,
) -> (r: Result<(), VolumeError>)
    ensures
        error::outcome(r) == checks::verdict(
            snapshot_failure(attachment@, record@, destination@, exists_already),
        ),
{
    match validate_attachment(attachment, record) {
        Ok(()) => {},
        Err(error) => return Err(error),
    }
    if !record.persistence_class.is_named() {
        return Err(
            VolumeError::Unsupported(
                "only named volumes produce writable snapshot objects".to_owned(),
            ),
        );
    }
    if !record.frozen {
        return Err(
            VolumeError::Invalid("named volume must be frozen before snapshot".to_owned()),
        );
    }
    if exists_already {
        return Err(VolumeError::AlreadyExists(destination.to_owned()));
    }
    Ok(())
}

/// What is told of a snapshot whose file has the digest and the size.
pub open spec fn snapshot_of(volume: HandleText, digest: Seq<char>, size_bytes: u64) ->
    SnapshotText {
    SnapshotText {
        schema_version: VOLUME_SNAPSHOT_VERSION,
        provider_id: LOCAL_VOLUME_PROVIDER_ID@,
        volume_id: volume.volume_id,
        persistence_class: volume.persistence_class,
        digest,
        size_bytes,
        quota_bytes: volume.quota_bytes,
        format: SNAPSHOT_FORMAT@,
        portability: SnapshotPortability::CrossWorkerSameBackend,
    }
}

/// Describes the snapshot of a volume.
pub fn new_snapshot(attachment: &VolumeAttachment, record: &VolumeRecord, file: FileDigest) -> (r:
    VolumeSnapshot)
    ensures
        r@ == snapshot_of(
            HandleText { volume_id: attachment@.handle.volume_id, ..record@.volume },
            file.digest@,
            file.size_bytes,
        ),
{
    VolumeSnapshot {
        schema_version: VOLUME_SNAPSHOT_VERSION,
        provider_id: LOCAL_VOLUME_PROVIDER_ID.to_owned(),
        volume_id: attachment.handle().volume_id().to_owned(),
        persistence_class: record.persistence_class,
        digest: file.digest,
        size_bytes: file.size_bytes,
        quota_bytes: record.quota_bytes,
        format: SNAPSHOT_FORMAT.to_owned(),
        portability: SnapshotPortability::CrossWorkerSameBackend,
    }
}

/// What comes of a snapshot and of the thawing behind it.
pub open spec fn snapshot_result(
    snapshot: Result<SnapshotText, VolumeFailure>,
    thaw: Result<(), VolumeFailure>,
) -> Result<SnapshotText, VolumeFailure> {
    match (snapshot, thaw) {
        (Ok(snapshot), Ok(())) => Ok(snapshot),
        (Err(error), Ok(())) => Err(error),
        (Ok(_), Err(error)) => Err(error),
        (Err(error), Err(thaw)) => Err(
            VolumeFailure::Mount(
                "snapshot failed: "@ + error.text() + "; unfreeze failed: "@ + thaw.text() + ""@,
            ),
        ),
    }
}

/// Judges a snapshot and the thawing behind it.
pub fn finish_snapshot(
    snapshot: Result<VolumeSnapshot, VolumeError>,
    thaw: Result<(), VolumeError>,
) -> (r: Result<VolumeSnapshot, VolumeError>)
    ensures
        error::seen(r) == snapshot_result(error::seen(snapshot), error::outcome(thaw)),
{
    match (snapshot, thaw) {
        (Ok(snapshot), Ok(())) => Ok(snapshot),
        (Err(error), Ok(())) => Err(error),
        (Ok(_), Err(error)) => Err(error),
        (Err(error), Err(thaw)) => {
            let first = error.message();
            let second = thaw.message();
            Err(
                VolumeError::Mount(
                    join5(
                        "snapshot failed: ",
                        first.as_str(),
                        "; unfreeze failed: ",
                        second.as_str(),
                        "",
                    ),
                ),
            )
        },
    }
}

/// A snapshot is taken only of a frozen named volume that the record knows to be attached.
pub proof fn law_snapshots_are_of_frozen_volumes(
    attachment: AttachedText,
    record: RecordText,
    destination: Seq<char>,
    exists_already: bool,
)
    requires
        snapshot_failure(attachment, record, destination, exists_already) is None,
    ensures
        record.frozen,
        record.volume.persistence_class.named(),
        record.attachments.contains_key(attachment.attachment_id),
        record.attachments[attachment.attachment_id] == local::told_of(attachment),
        !exists_already,
{
}

/// A volume is frozen exactly where its attachment is accepted and it is not secret.
pub proof fn law_frozen_volumes_are_not_secret(attachment: AttachedText, record: RecordText)
    ensures
        freeze_failure(attachment, record) is None <==> local::attachment_failure(
            attachment,
            record,
        ) is None && !(record.volume.persistence_class is Secret),
{
}

/// Marking a record changes nothing else.
pub proof fn law_marked_records_keep_the_rest(record: VolumeRecord, frozen: bool)
    ensures
        marked(record, frozen)@.frozen == frozen,
        marked(record, frozen)@.volume == record@.volume,
        marked(record, frozen)@.attachments == record@.attachments,
        marked(record, frozen)@.schema_version == record@.schema_version,
{
}

/// A volume that was unmounted is recovered, whether or not it could be thawed.
pub proof fn law_unmounted_volumes_are_recovered(
    thaw: Result<(), VolumeFailure>,
    unmount: Result<(), VolumeFailure>,
)
    ensures
        recovery_failure(thaw, unmount) is None <==> unmount is Ok,
        thaw is Ok ==> (unmount matches Err(error) ==> recovery_failure(thaw, unmount) == Some(
            error,
        )),
{
}

/// A snapshot is taken exactly where the attachment is accepted, the volume is named and frozen,
/// and nothing stands at the destination.
pub proof fn law_snapshots_begin_with_a_frozen_named_volume(
    attachment: AttachedText,
    record: RecordText,
    destination: Seq<char>,
    exists_already: bool,
)
    ensures
        snapshot_failure(attachment, record, destination, exists_already) is None <==> {
            &&& local::attachment_failure(attachment, record) is None
            &&& record.volume.persistence_class is Ephemeral
                || record.volume.persistence_class is Persistent
            &&& record.frozen
            &&& !exists_already
        },
{
}

/// A snapshot says what it is of.
pub proof fn law_snapshots_say_what_they_are_of(
    volume: HandleText,
    digest: Seq<char>,
    size_bytes: u64,
)
    ensures
        snapshot_of(volume, digest, size_bytes).schema_version == 1,
        snapshot_of(volume, digest, size_bytes).provider_id == "local-loopback-v1"@,
        snapshot_of(volume, digest, size_bytes).volume_id == volume.volume_id,
        snapshot_of(volume, digest, size_bytes).persistence_class == volume.persistence_class,
        snapshot_of(volume, digest, size_bytes).digest == digest,
        snapshot_of(volume, digest, size_bytes).size_bytes == size_bytes,
        snapshot_of(volume, digest, size_bytes).quota_bytes == volume.quota_bytes,
        snapshot_of(volume, digest, size_bytes).format
            == "application/vnd.runtrue.volume.ext4.v1"@,
        snapshot_of(volume, digest, size_bytes).portability.crosses(),
{
}

/// A snapshot counts exactly where it was taken and the volume was thawed behind it.
pub proof fn law_snapshots_count_behind_the_thaw(
    snapshot: Result<SnapshotText, VolumeFailure>,
    thaw: Result<(), VolumeFailure>,
)
    ensures
        snapshot_result(snapshot, thaw) is Ok <==> snapshot is Ok && thaw is Ok,
        thaw is Ok ==> snapshot_result(snapshot, thaw) == snapshot,
        snapshot is Ok ==> (thaw matches Err(error) ==> snapshot_result(snapshot, thaw) == Err::<
            SnapshotText,
            VolumeFailure,
        >(error)),
{
}

/// A volume that stays frozen is told with both failures.
pub proof fn law_stuck_volumes_tell_both_failures(persisted: VolumeFailure, thawed: VolumeFailure)
    ensures
        stuck(persisted, thawed) == VolumeFailure::Mount(
            "record frozen volume failed: "@ + persisted.text() + "; unfreeze failed: "@
                + thawed.text(),
        ),
        recovery_failure(Err(persisted), Err(thawed)) == Some(
            VolumeFailure::Mount(
                "unfreeze volume during recovery failed: "@ + persisted.text() + "; "@
                    + thawed.text(),
            ),
        ),
        snapshot_result(Err(persisted), Err(thawed)) == Err::<SnapshotText, VolumeFailure>(
            VolumeFailure::Mount(
                "snapshot failed: "@ + persisted.text() + "; unfreeze failed: "@ + thawed.text(),
            ),
        ),
{
    reveal_strlit("");
    let first = "record frozen volume failed: "@ + persisted.text() + "; unfreeze failed: "@
        + thawed.text();
    let second = "unfreeze volume during recovery failed: "@ + persisted.text() + "; "@
        + thawed.text();
    let third = "snapshot failed: "@ + persisted.text() + "; unfreeze failed: "@ + thawed.text();
    assert(first + ""@ =~= first);
    assert(second + ""@ =~= second);
    assert(third + ""@ =~= third);
}

/// Each refusal of a freeze or a snapshot is of its kind.
pub proof fn law_refused_snapshots_say_why(
    attachment: AttachedText,
    record: RecordText,
    destination: Seq<char>,
    exists_already: bool,
)
    ensures
        local::attachment_failure(attachment, record) is Some ==> freeze_failure(attachment, record)
            == local::attachment_failure(attachment, record),
        local::attachment_failure(attachment, record) is None ==> (freeze_failure(
            attachment,
            record,
        ) matches Some(failure) ==> failure == VolumeFailure::Unsupported(
            "secret volumes are excluded from snapshots"@,
        )),
        local::attachment_failure(attachment, record) is Some ==> snapshot_failure(
            attachment,
            record,
            destination,
            exists_already,
        ) == local::attachment_failure(attachment, record),
        local::attachment_failure(attachment, record) is None
            && !record.volume.persistence_class.named() ==> snapshot_failure(
            attachment,
            record,
            destination,
            exists_already,
        ) == Some(
            VolumeFailure::Unsupported("only named volumes produce writable snapshot objects"@),
        ),
        local::attachment_failure(attachment, record) is None
            && record.volume.persistence_class.named() && !record.frozen ==> snapshot_failure(
            attachment,
            record,
            destination,
            exists_already,
        ) == Some(VolumeFailure::Invalid("named volume must be frozen before snapshot"@)),
        local::attachment_failure(attachment, record) is None
            && record.volume.persistence_class.named() && record.frozen && exists_already
            ==> snapshot_failure(attachment, record, destination, exists_already) == Some(
            VolumeFailure::AlreadyExists(destination),
        ),
{
}

} // verus!

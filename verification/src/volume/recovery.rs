//! What a provider makes of the volumes that an earlier run left.

use crate::checks;
use crate::oci::error;
use crate::oci::model::VolumePersistenceClass;
use crate::text;
use crate::text::{join2, Alphabet};
use crate::volume::error::{VolumeError, VolumeFailure};
use crate::volume::local;
use crate::volume::local::{
    AttachmentText, RecordText, VolumeRecord, VolumeStep, LOCAL_VOLUME_PROVIDER_ID,
    MAXIMUM_RECORD_BYTES, RECORD_VERSION,
};
use crate::volume::model::VolumeCleanupReport;
use vstd::prelude::*;

verus! {

/// The shape of a key: 64 hexadecimal digits of either case.
pub open spec fn is_key(name: Seq<char>) -> bool {
    text::utf8(name).len() == 64 && text::drawn_from(text::utf8(name), Alphabet::Hex)
}

/// Accepts an entry of the volume directory. `name` is its name, where it is UTF-8.
pub fn check_entry(is_directory: bool, name: Option<&str>, path: &str) -> (r: Result<
    (),
    VolumeError,
>)
    ensures
        error::outcome(r) == checks::verdict(
            checks::when(
                !(is_directory && name is Some && is_key(name->0@)),
                VolumeFailure::Integrity("unexpected entry in local volume root: "@ + path@),
            ),
        ),
{
    let expected = match name {
        Some(name) => is_directory && name.as_bytes().len() == 64 && text::all_bytes(
            name,
            Alphabet::Hex,
        ),
        None => false,
    };
    if !expected {
        return Err(
            VolumeError::Integrity(join2("unexpected entry in local volume root: ", path)),
        );
    }
    Ok(())
}

/// Why the record of a volume could not be looked up.
pub fn lookup_error(not_found: bool, directory: &str, path: String, source: String) -> (r:
    VolumeError)
    ensures
        r@ == (if not_found {
            VolumeFailure::NotFound(directory@)
        } else {
            VolumeFailure::Io { path: path@, source: source@ }
        }),
{
    if not_found {
        VolumeError::NotFound(directory.to_owned())
    } else {
        VolumeError::Io { path, source }
    }
}

/// Accepts the file of a record before it is read.
pub fn check_record_file(is_file: bool, mode: u32) -> (r: Result<(), VolumeError>)
    ensures
        error::outcome(r) == checks::verdict(
            checks::when(
                !is_file || mode & 0o077 != 0,
                VolumeFailure::Integrity("volume record is not an owner-only regular file"@),
            ),
        ),
{
    if !is_file || mode & 0o077 != 0 {
        return Err(
            VolumeError::Integrity("volume record is not an owner-only regular file".to_owned()),
        );
    }
    Ok(())
}

/// Why a record could not be read.
pub fn decode_error(reason: &str) -> (r: VolumeError)
    ensures
        r@ == VolumeFailure::Integrity("decode volume record: "@ + reason@),
{
    VolumeError::Integrity(join2("decode volume record: ", reason))
}

/// Why a record could not be encoded.
pub fn encode_error(reason: &str) -> (r: VolumeError)
    ensures
        r@ == VolumeFailure::Integrity("encode volume record: "@ + reason@),
{
    VolumeError::Integrity(join2("encode volume record: ", reason))
}

/// Accepts the encoding of a record before it is written.
pub fn check_record_size(length: usize) -> (r: Result<(), VolumeError>)
    ensures
        error::outcome(r) == checks::verdict(
            checks::when(
                length > MAXIMUM_RECORD_BYTES,
                VolumeFailure::Invalid("volume attachment record exceeds 1 MiB"@),
            ),
        ),
{
    if length > MAXIMUM_RECORD_BYTES {
        return Err(VolumeError::Invalid("volume attachment record exceeds 1 MiB".to_owned()));
    }
    Ok(())
}

/// Why the record in the directory `name` stops the recovery.
pub open spec fn stored_failure(record: RecordText, name: Seq<char>) -> Option<VolumeFailure> {
    checks::when(
        record.schema_version != RECORD_VERSION || record.volume.provider_id
            != LOCAL_VOLUME_PROVIDER_ID@ || record.volume.key != name,
        VolumeFailure::Integrity("local volume record is invalid"@),
    )
}

/// What is kept of a volume that an earlier run left.
pub open spec fn recovered_record(record: RecordText) -> RecordText {
    RecordText {
        frozen: false,
        attachments: Map::empty(),
        ..record
    }
}

/// The steps that recover a volume.
pub open spec fn recovery_steps(class: VolumePersistenceClass) -> Seq<VolumeStep> {
    match class {
        VolumePersistenceClass::Persistent => seq![
            VolumeStep::Recover,
            VolumeStep::Unmount,
            VolumeStep::DropStaging,
            VolumeStep::Write,
        ],
        VolumePersistenceClass::Ephemeral => seq![VolumeStep::Recover, VolumeStep::Remove],
        VolumePersistenceClass::Artifact | VolumePersistenceClass::Secret => seq![
            VolumeStep::Remove,
        ],
    }
}

/// One more, where `counted`.
pub open spec fn plus(count: usize, counted: bool) -> int {
    if counted {
        count + 1
    } else {
        count as int
    }
}

/// Recovers the volume in the directory `name`: the report with it, its record, and the steps
/// to take.
pub fn recover(report: VolumeCleanupReport, record: VolumeRecord, name: &str) -> (r: Result<
    (VolumeCleanupReport, VolumeRecord, Vec<VolumeStep>),
    VolumeError,
>)
    requires
        report.cleared_attachments + record@.attachments.len() <= usize::MAX,
        report.removed_ephemeral_volumes < usize::MAX,
        report.retained_persistent_volumes < usize::MAX,
        report.removed_secret_volumes < usize::MAX,
    ensures
        match r {
            Ok(recovered) => {
                let class = record@.volume.persistence_class;
                &&& stored_failure(record@, name@) is None
                &&& recovered.0.cleared_attachments == report.cleared_attachments
                    + record@.attachments.len()
                &&& recovered.0.removed_ephemeral_volumes == plus(
                    report.removed_ephemeral_volumes,
                    class is Ephemeral,
                )
                &&& recovered.0.retained_persistent_volumes == plus(
                    report.retained_persistent_volumes,
                    class is Persistent,
                )
                &&& recovered.0.removed_secret_volumes == plus(
                    report.removed_secret_volumes,
                    class is Secret,
                )
                &&& recovered.1@ == recovered_record(record@)
                &&& recovered.2@ == recovery_steps(class)
            },
            Err(error) => stored_failure(record@, name@) == Some(error@),
        },
{
    if record.schema_version != RECORD_VERSION || !text::same(
        record.provider_id.as_str(),
        LOCAL_VOLUME_PROVIDER_ID,
    ) || !text::same(record.key.as_str(), name) {
        return Err(VolumeError::Integrity("local volume record is invalid".to_owned()));
    }
    let mut report = report;
    let mut record = record;
    proof {
        local::lemma_attachment_count(record.attachments@);
    }
    let count: usize = record.attachments.len();
    report.cleared_attachments = report.cleared_attachments + count;
    record.attachments.clear();
    record.frozen = false;
    proof {
        assert(local::attachment_texts(record.attachments@) =~= Map::<
            Seq<char>,
            AttachmentText,
        >::empty());
    }
    let mut steps: Vec<VolumeStep> = Vec::new();
    match record.persistence_class {
        VolumePersistenceClass::Persistent => {
            report.retained_persistent_volumes = report.retained_persistent_volumes + 1;
            steps.push(VolumeStep::Recover);
            steps.push(VolumeStep::Unmount);
            steps.push(VolumeStep::DropStaging);
            steps.push(VolumeStep::Write);
        },
        VolumePersistenceClass::Ephemeral => {
            report.removed_ephemeral_volumes = report.removed_ephemeral_volumes + 1;
            steps.push(VolumeStep::Recover);
            steps.push(VolumeStep::Remove);
        },
        VolumePersistenceClass::Secret => {
            report.removed_secret_volumes = report.removed_secret_volumes + 1;
            steps.push(VolumeStep::Remove);
        },
        VolumePersistenceClass::Artifact => {
            steps.push(VolumeStep::Remove);
        },
    }
    proof {
        assert(steps@ =~= recovery_steps(record.persistence_class));
    }
    Ok((report, record, steps))
}

/// Counts a directory without a record, which is removed.
pub fn note_orphan(report: VolumeCleanupReport) -> (r: VolumeCleanupReport)
    requires
        report.removed_ephemeral_volumes < usize::MAX,
    ensures
        r == (VolumeCleanupReport {
            removed_ephemeral_volumes: (report.removed_ephemeral_volumes + 1) as usize,
            ..report
        }),
{
    VolumeCleanupReport {
        cleared_attachments: report.cleared_attachments,
        removed_ephemeral_volumes: report.removed_ephemeral_volumes + 1,
        retained_persistent_volumes: report.retained_persistent_volumes,
        removed_secret_volumes: report.removed_secret_volumes,
    }
}

/// Only persistent volumes survive a recovery, unmounted, thawed and attached to nothing.
pub proof fn law_only_persistent_volumes_survive(record: RecordText)
    ensures
        recovery_steps(record.volume.persistence_class).contains(VolumeStep::Remove) <==> !(
        record.volume.persistence_class is Persistent),
        !recovered_record(record).frozen,
        recovered_record(record).attachments == Map::<Seq<char>, AttachmentText>::empty(),
        recovered_record(record).volume == record.volume,
{
    let steps = recovery_steps(record.volume.persistence_class);
    if !(record.volume.persistence_class is Persistent) {
        assert(steps[steps.len() - 1] == VolumeStep::Remove);
    }
}

/// A volume is kept under sixty-four hexadecimal digits.
pub proof fn law_volume_keys_are_hashes(name: Seq<char>)
    ensures
        is_key(name) <==> {
            let bytes = text::utf8(name);
            &&& bytes.len() == 64
            &&& forall|i: int|
                0 <= i < bytes.len() ==> (48 <= #[trigger] bytes[i] <= 57 || 65 <= bytes[i] <= 70
                    || 97 <= bytes[i] <= 102)
        },
{
    let bytes = text::utf8(name);
    assert forall|i: int| 0 <= i < bytes.len() implies (Alphabet::Hex.admits(#[trigger] bytes[i])
        <==> (48 <= bytes[i] <= 57 || 65 <= bytes[i] <= 70 || 97 <= bytes[i] <= 102)) by {
        text::law_alphabets_hold_their_bytes(bytes[i]);
    }
    if is_key(name) {
        assert forall|i: int| 0 <= i < bytes.len() implies (48 <= #[trigger] bytes[i] <= 57 || 65
            <= bytes[i] <= 70 || 97 <= bytes[i] <= 102) by {
            assert(Alphabet::Hex.admits(bytes[i]));
        }
    }
}

/// A stored record is of the first version, of the local provider, and under its own key.
pub proof fn law_stored_records_are_under_their_key(record: RecordText, name: Seq<char>)
    ensures
        stored_failure(record, name) is None <==> {
            &&& record.schema_version == 1
            &&& record.volume.provider_id == "local-loopback-v1"@
            &&& record.volume.key == name
        },
{
}

/// A recovered record is thawed, free, and otherwise what it was.
pub proof fn law_recovered_records_are_thawed_and_free(record: RecordText)
    ensures
        !recovered_record(record).frozen,
        recovered_record(record).attachments.dom().is_empty(),
        recovered_record(record).volume == record.volume,
        recovered_record(record).schema_version == record.schema_version,
{
}

/// Named volumes are recovered; of these a persistent one is unmounted, rid of what was staged and
/// written. All others are removed.
pub proof fn law_recovery_follows_the_class(class: VolumePersistenceClass)
    ensures
        recovery_steps(class).contains(VolumeStep::Recover) <==> class is Ephemeral
            || class is Persistent,
        recovery_steps(class).contains(VolumeStep::Remove) <==> !(class is Persistent),
        class is Persistent ==> recovery_steps(class).len() == 4 && recovery_steps(class)[0]
            == VolumeStep::Recover && recovery_steps(class)[1] == VolumeStep::Unmount
            && recovery_steps(class)[2] == VolumeStep::DropStaging && recovery_steps(class)[3]
            == VolumeStep::Write,
        class is Ephemeral ==> recovery_steps(class) == seq![
            VolumeStep::Recover,
            VolumeStep::Remove,
        ],
        class is Artifact || class is Secret ==> recovery_steps(class) == seq![VolumeStep::Remove],
{
    let steps = recovery_steps(class);
    if class is Ephemeral {
        assert(steps[0] == VolumeStep::Recover && steps[1] == VolumeStep::Remove);
    } else if class is Persistent {
        assert(steps[0] == VolumeStep::Recover);
    } else {
        assert(steps[0] == VolumeStep::Remove);
    }
}

/// One more is counted where it counts.
pub proof fn law_counts_go_up_by_one(count: usize)
    ensures
        plus(count, true) == count + 1,
        plus(count, false) == count,
{
}

} // verus!

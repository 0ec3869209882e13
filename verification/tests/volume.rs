use sandboxd::digest::{hash, identity};
use sandboxd::oci::model::{VolumePersistenceClass, VolumeSnapshotPolicy, VolumeSpec};
use sandboxd::oci::provider::content::BoundedCapture;
use sandboxd::table::Table;
use sandboxd::time::Duration;
use sandboxd::volume::archive::{
    check_archive_file, check_archive_open, check_destination, collect_path, ArchiveAudit,
    ArchiveEntry, ArchiveExport, ArchiveKind, ArchiveWriter, ExportKind, ExtensionKey,
};
use sandboxd::volume::artifacts::{
    advance_publish, artifact_path, begin_publish, changed_directory, check_artifact_content,
    check_artifact_file, collect_entry, needs_permissions, ArtifactGarbageCollectionReport,
    ArtifactPublicationStatus, ArtifactReferences, PublishEvent, PublishState,
};
use sandboxd::volume::command::{
    associated_loop_devices, bounded_output, collect_output, copy_arguments, freeze_arguments,
    is_already_thawed, judge_command, judge_unfreeze, judge_wait, parse_loop_device,
    unfreeze_arguments, CommandOutput, Ended, Polled, Reading, Wait,
};
use sandboxd::volume::directory;
use sandboxd::volume::freeze::{
    begin_freeze, begin_snapshot, begin_thaw, check_freezable, finish_mount_recovery, finish_snapshot, new_snapshot,
    record_freeze, record_thaw,
};
use sandboxd::volume::local::{
    attach, attachment_key, begin_create, begin_mount, capabilities, check_secret_storage,
    delete_steps, handle, new_record, release, volume_key, AttachmentRecord, LocalVolumeConfig, Storage, VolumeRecord,
    VolumeStep, LOCAL_VOLUME_PROVIDER_ID, RECORD_VERSION,
};
use sandboxd::volume::meter::{FileDigest, FileMeter};
use sandboxd::volume::model::{
    AttachmentOwner, SecretFile, SnapshotPortability, VolumeCleanupReport, VolumeScope,
};
use sandboxd::volume::mounts::is_mount;
use sandboxd::volume::reconcile::{
    advance_make, advance_swap, check_data_root, effective_capability, reconcile_data_directory,
    reconcile_volume_metadata, DataDirectories, DataStep, Lookup, MakeState, MetadataStep,
    SwapEvent, SwapState,
};
use sandboxd::volume::recovery::{
    check_record_size, decode_error, encode_error, note_orphan, recover,
};
use sandboxd::volume::restore::{
    advance_restore, begin_restore, check_replaceable, check_source, RestoreEvent, RestoreState,
};
use sandboxd::volume::secrets::{
    check_resolved, check_resolver, check_secret_contents, check_secret_directory,
    check_secret_root, directory_error, file_error, secret_components, secret_options,
    validate_secret_name, OpenFault, SecretFacts, SecretListing, SecretMeter,
};
use sandboxd::volume::setup::{
    advance_named_mount, advance_setup, begin_setup, NamedMount, NamedMountEvent, SetupEvent,
    SetupState,
};
use sandboxd::volume::VolumeError;
use std::cell::RefCell;
use zeroize::Zeroizing;

const MINIMUM_NAMED_VOLUME_BYTES: u64 = 4 * 1024 * 1024;

fn scope(tenant: &str) -> VolumeScope {
    VolumeScope::new(tenant.to_owned(), "workspace-a".to_owned())
}

fn test_record(frozen: bool) -> VolumeRecord {
    VolumeRecord {
        schema_version: RECORD_VERSION,
        provider_id: LOCAL_VOLUME_PROVIDER_ID.to_owned(),
        key: "a".repeat(64),
        tenant_id: "tenant-a".to_owned(),
        workspace_id: "workspace-a".to_owned(),
        volume_id: "database".to_owned(),
        persistence_class: VolumePersistenceClass::Persistent,
        quota_bytes: MINIMUM_NAMED_VOLUME_BYTES,
        content_digest: None,
        frozen,
        attachments: Table::new(),
    }
}

fn specification(volume: &str, class: VolumePersistenceClass) -> VolumeSpec {
    VolumeSpec {
        schema_version: 1,
        volume_id: volume.to_owned(),
        destination: "/data".to_owned(),
        read_only: false,
        persistence_class: class,
        snapshot_policy: VolumeSnapshotPolicy::Required,
        quota_bytes: MINIMUM_NAMED_VOLUME_BYTES,
        content_digest: None,
    }
}

fn owner(sandbox: &str) -> AttachmentOwner {
    AttachmentOwner { sandbox_id: sandbox.to_owned(), container_id: "api".to_owned() }
}

fn config() -> LocalVolumeConfig {
    LocalVolumeConfig::new("/var/lib/volumes".to_owned(), MINIMUM_NAMED_VOLUME_BYTES)
}

fn reason<T>(result: Result<T, VolumeError>) -> String {
    match result {
        Ok(_) => panic!("a refusal was expected"),
        Err(error) => error.message(),
    }
}

#[test]
fn freeze_record_fault_thaws_before_returning_the_write_error() {
    let mut record = test_record(false);
    let operations = RefCell::new(Vec::new());

    let error = record_freeze(
        &mut record,
        || {
            operations.borrow_mut().push("freeze");
            Ok(())
        },
        |record: &VolumeRecord| {
            assert!(record.frozen);
            operations.borrow_mut().push("persist");
            Err(VolumeError::Invalid("injected record fault".to_owned()))
        },
        || {
            operations.borrow_mut().push("thaw");
            Ok(())
        },
    )
    .expect_err("record fault must be returned");

    assert_eq!(operations.into_inner(), vec!["freeze", "persist", "thaw"]);
    assert!(!record.frozen);
    assert!(error.message().contains("injected record fault"));
}

#[test]
fn freeze_record_fault_preserves_the_compensation_error() {
    let mut record = test_record(false);

    let error = record_freeze(
        &mut record,
        || Ok(()),
        |_: &VolumeRecord| Err(VolumeError::Invalid("injected record fault".to_owned())),
        || Err(VolumeError::Mount("injected thaw fault".to_owned())),
    )
    .expect_err("both failures must be returned");
    let message = error.message();

    assert!(record.frozen);
    assert!(message.contains("injected record fault"));
    assert!(message.contains("injected thaw fault"));
}

#[test]
fn thaw_record_fault_can_be_retried_after_the_filesystem_is_already_thawed() {
    let mut record = test_record(true);
    let thaw_calls = RefCell::new(0_u32);

    let error = record_thaw(
        &mut record,
        || {
            *thaw_calls.borrow_mut() += 1;
            Ok(())
        },
        |_: &VolumeRecord| Err(VolumeError::Invalid("injected record fault".to_owned())),
    )
    .expect_err("record fault must be returned");
    assert!(record.frozen);
    assert!(error.message().contains("injected record fault"));

    record_thaw(
        &mut record,
        || {
            *thaw_calls.borrow_mut() += 1;
            Ok(())
        },
        |_: &VolumeRecord| Ok(()),
    )
    .expect("already-thawed retry");
    assert!(!record.frozen);
    assert_eq!(thaw_calls.into_inner(), 2);
}

#[test]
fn unfreeze_treats_only_einval_as_already_thawed() {
    let already_thawed = b"fsfreeze: /volume: unfreeze failed: Invalid argument\n";
    let other_failure = b"fsfreeze: /volume: unfreeze failed: Operation not permitted\n";

    assert!(is_already_thawed(Some(1), already_thawed));
    assert!(!is_already_thawed(Some(1), other_failure));
}

#[test]
fn recovery_accepts_a_thaw_error_only_after_a_safe_unmount() {
    let thaw_error = || VolumeError::Mount("injected thaw fault".to_owned());
    let unmount_error = || VolumeError::Mount("injected unmount fault".to_owned());

    finish_mount_recovery(Err(thaw_error()), Ok(())).expect("safe unmount");
    let error = finish_mount_recovery(Err(thaw_error()), Err(unmount_error()))
        .expect_err("unsafe recovery must fail");
    let message = error.message();
    assert!(message.contains("injected thaw fault"));
    assert!(message.contains("injected unmount fault"));
}

#[test]
fn tenant_scope_changes_the_provider_key() {
    let first = volume_key(&scope("tenant-a"), "shared");
    let second = volume_key(&scope("tenant-b"), "shared");
    assert_ne!(first, second);
    assert_eq!(first.len(), 64);
}

#[test]
fn attachment_identity_includes_sandbox_container_and_destination() {
    let spec = specification("shared", VolumePersistenceClass::Persistent);
    let handle = handle(&scope("tenant-a"), &spec, volume_key(&scope("tenant-a"), "shared"));
    let first = owner("sandbox-a");
    let second = owner("sandbox-b");
    assert_ne!(
        attachment_key(&handle, &first, "/data"),
        attachment_key(&handle, &second, "/data")
    );
}

#[test]
fn artifact_verification_rejects_writable_content() {
    let digest = identity(b"content");
    assert!(check_artifact_file(true, 0o100_644, &digest).is_err());
    assert!(check_artifact_file(true, 0o100_400, &digest).is_ok());
    assert!(needs_permissions(0o100_400));
    assert!(!needs_permissions(0o100_444));
    let measured = FileMeter::new().push_artifact(b"content", 7).unwrap().finish();
    assert_eq!(check_artifact_content(&digest, &measured).unwrap(), 7);
}

#[test]
fn published_artifact_mount_is_content_addressed_and_read_only() {
    let digest = identity(b"dataset");
    assert_eq!(begin_publish(&digest).unwrap(), digest);
    let publish = |events: Vec<PublishEvent>| {
        let mut state = PublishState::Look;
        for event in events {
            state = advance_publish(&digest, state, event);
        }
        match state {
            PublishState::Done(Ok(publication)) => publication,
            other => panic!("{other:?}"),
        }
    };
    let staged = FileMeter::new().push_artifact(b"dataset", 7).unwrap().finish();
    let publication = publish(vec![
        PublishEvent::Found(false),
        PublishEvent::Staged(Ok(staged)),
        PublishEvent::Completed(Ok(())),
        PublishEvent::Completed(Ok(())),
        PublishEvent::Completed(Ok(())),
    ]);
    assert_eq!(publication.digest, digest);
    assert_eq!(publication.size_bytes, 7);
    assert_eq!(publication.status, ArtifactPublicationStatus::Published);
    let again = publish(vec![
        PublishEvent::Found(true),
        PublishEvent::Verified(Ok(7)),
        PublishEvent::Completed(Ok(())),
    ]);
    assert_eq!(again.status, ArtifactPublicationStatus::Reused);
    assert_eq!((again.digest, again.size_bytes), (publication.digest, publication.size_bytes));

    let mut spec = specification("dataset", VolumePersistenceClass::Artifact);
    spec.destination = "/opt/dataset".to_owned();
    spec.read_only = true;
    spec.snapshot_policy = VolumeSnapshotPolicy::Excluded;
    spec.quota_bytes = 0;
    spec.content_digest = Some(digest.clone());
    let handle = begin_create(&config(), &scope("tenant-a"), &spec, Ok(())).expect("handle");
    let record = new_record(&handle);
    let (record, attachment) =
        attach(&handle, owner("sandbox-a"), &spec, record).expect("attachment");
    assert!(attachment.read_only());
    match begin_mount(&attachment, &record).expect("storage") {
        Storage::Artifact { digest: named, name } => {
            assert_eq!(named, digest);
            assert_eq!(name, hash(b"dataset"));
        }
        _ => panic!("an artifact"),
    }
    let (record, _) = release(&attachment, record).expect("unmounted artifact");
    assert!(record.attachments.is_empty());
}

#[test]
fn artifact_garbage_collection_preserves_live_volume_references() {
    let referenced = identity(b"referenced");
    let unused = identity(b"unused");
    let name = |digest: &str| digest[7..].to_owned();
    let collect = |references: &ArtifactReferences, digests: &[&String]| {
        let mut report = ArtifactGarbageCollectionReport::default();
        let mut removed = Vec::new();
        for digest in digests {
            let entry = name(digest);
            let (next, remove) =
                collect_entry(report, references, Some(&entry), true, true).expect("entry");
            report = next;
            if remove {
                removed.push((*digest).clone());
            }
        }
        (report, removed)
    };
    let references = ArtifactReferences::new()
        .note(VolumePersistenceClass::Artifact, &Some(referenced.clone()))
        .expect("reference");
    let (first, removed) = collect(&references, &[&referenced, &unused]);
    assert_eq!(first.removed_artifacts, 1);
    assert_eq!(first.retained_artifacts, 1);
    assert!(removed.contains(&unused));
    assert!(!removed.contains(&referenced));
    assert!(changed_directory(&first));

    let (second, _) = collect(&ArtifactReferences::new(), &[&referenced]);
    assert_eq!(second.removed_artifacts, 1);
    assert_eq!(second.retained_artifacts, 0);
    assert_eq!(
        artifact_path("/provider", &unused).expect("unused artifact path"),
        format!("/provider/artifacts/{}", name(&unused))
    );
}

#[test]
fn loop_device_parser_rejects_command_output_injection() {
    assert_eq!(parse_loop_device(b"/dev/loop12\n").expect("loop device"), "/dev/loop12");
    assert!(parse_loop_device(b"/dev/loop1 --detach /dev/loop2").is_err());
    assert!(parse_loop_device(b"/tmp/loop1").is_err());
}

fn drained(chunks: &[&[u8]], limit: usize) -> Reading {
    let mut capture = BoundedCapture::new(limit);
    for chunk in chunks {
        capture = capture.push(chunk);
    }
    Reading::Complete(bounded_output(capture))
}

fn ended(code: i32) -> Result<Ended, VolumeError> {
    Ok(Ended { code: Some(code), status: format!("exit status: {code}") })
}

#[test]
fn external_command_drains_output_larger_than_pipe_capacity() {
    let large = vec![0_u8; 4 * 1024 * 1024];
    let limit = 8 * 1024 * 1024;
    let output = collect_output(
        "produce large output",
        drained(&[&large], limit),
        drained(&[&large], limit),
        ended(0),
        limit,
    )
    .expect("large output command");
    let output = judge_command("produce large output", output).expect("success");

    assert_eq!(output.stdout.len(), 4 * 1024 * 1024);
    assert_eq!(output.stderr.len(), 4 * 1024 * 1024);
}

#[test]
fn external_command_rejects_output_over_limit_with_bounded_stderr() {
    let large = vec![0_u8; 4 * 1024 * 1024];
    let limit = 1024;
    let message = reason(collect_output(
        "produce excessive output",
        drained(&[], limit),
        drained(&[b"diagnostic-start\n", &large], limit),
        ended(7),
        limit,
    ));

    assert!(message.contains("output exceeded its byte limit"));
    assert!(message.contains("diagnostic-start"));
    assert!(message.contains("[truncated]"));
    assert!(message.len() < 1200);
}

#[test]
fn external_command_timeout_kills_and_reaps_while_draining_output() {
    assert!(matches!(judge_wait("produce output forever", Polled::Running, false), Wait::Pause));
    let error = match judge_wait("produce output forever", Polled::Running, true) {
        Wait::Kill(error) => error,
        _ => panic!("command must time out"),
    };

    assert!(
        matches!(error, VolumeError::Timeout(operation) if operation == "produce output forever")
    );
    assert!(matches!(judge_wait("produce output forever", Polled::Ended, true), Wait::Ended));
}

#[test]
fn startup_recovery_clears_attachments_and_removes_ephemeral_state() {
    let tenant_scope = scope("tenant-a");
    let mut report = VolumeCleanupReport::default();
    for (name, class) in [
        ("persistent", VolumePersistenceClass::Persistent),
        ("ephemeral", VolumePersistenceClass::Ephemeral),
    ] {
        let key = volume_key(&tenant_scope, name);
        let mut attachments = Table::new();
        attachments.insert(
            "attachment".to_owned(),
            AttachmentRecord {
                sandbox_id: "sandbox-a".to_owned(),
                container_id: "api".to_owned(),
                destination: "/data".to_owned(),
                read_only: false,
                snapshot_policy: VolumeSnapshotPolicy::Required,
            },
        );
        let record = VolumeRecord {
            key: key.clone(),
            volume_id: name.to_owned(),
            persistence_class: class,
            attachments,
            ..test_record(false)
        };
        let (next, recovered, steps) = recover(report, record, &key).expect("provider recovery");
        report = next;
        if name == "persistent" {
            assert!(recovered.attachments.is_empty());
            assert!(steps.contains(&VolumeStep::Write));
        } else {
            assert!(steps.contains(&VolumeStep::Remove));
        }
    }
    let report = note_orphan(report);
    assert_eq!(report.cleared_attachments, 2);
    assert_eq!(report.removed_ephemeral_volumes, 2);
    assert_eq!(report.retained_persistent_volumes, 1);
    assert!(recover(report, test_record(false), &"b".repeat(64)).is_err());
}

fn cache(class: VolumePersistenceClass) -> VolumeSpec {
    VolumeSpec { destination: "/var/lib/cache".to_owned(), ..specification("cache", class) }
}

fn authority() -> directory::DirectoryAuthority {
    directory::DirectoryAuthority { gofer_access: true, ownership_restore: true }
}

fn directories() -> directory::DirectoryVolumeConfig {
    directory::DirectoryVolumeConfig::new("/volumes".to_owned(), MINIMUM_NAMED_VOLUME_BYTES)
}

#[test]
fn persistent_directory_is_tenant_scoped_and_survives_reopen() {
    let spec = cache(VolumePersistenceClass::Persistent);
    let create = |tenant: &str| {
        directory::begin_create(&directories(), authority(), &scope(tenant), &spec, Ok(()))
    };
    let first = create("tenant-a").expect("first");
    let other = create("tenant-b").expect("other tenant");
    assert_ne!(first.key(), other.key());
    let records = [directory::new_record(&first), directory::new_record(&other)];

    let retained = create("tenant-a").expect("retained");
    assert_eq!(retained.key(), first.key());
    directory::check_reuse(&retained, &records[0]).expect("reopen");
    let mut report = VolumeCleanupReport::default();
    for record in records {
        let (next, _, remove) = directory::recover(report, record);
        assert!(!remove);
        report = next;
    }
    assert_eq!(report.retained_persistent_volumes, 2);
}

#[test]
fn mount_is_a_direct_directory_and_snapshot_restore_is_bounded() {
    let spec = cache(VolumePersistenceClass::Persistent);
    let handle = directory::begin_create(&directories(), authority(), &scope("tenant"), &spec, Ok(()))
        .expect("create");
    let record = directory::new_record(&handle);
    directory::begin_attach(&handle, &spec, Ok(())).expect("attachable");
    let (record, attachment) =
        directory::attach(&handle, owner("sandbox"), &spec, record).expect("attach");
    directory::begin_mount(&attachment, &record).expect("mountable");
    let data = format!("/volumes/{}/data", handle.key());
    let mounted = directory::finish_mount(&attachment, "/volumes", data.clone()).expect("mount");
    assert_eq!(mounted.source(), data);
    assert!(directory::finish_mount(&attachment, "/volumes", "/etc".to_owned()).is_err());

    directory::begin_freeze(authority()).expect("freezable");
    let record = directory::mark(&attachment, record, true).expect("freeze");
    directory::begin_snapshot(authority(), &attachment, &record).expect("snapshot");
    let file = FileMeter::new().push_archive(b"before").unwrap().finish();
    let snapshot = directory::new_snapshot(&attachment, &record, file);
    let record = directory::mark(&attachment, record, false).expect("thaw");
    assert!(directory::begin_snapshot(authority(), &attachment, &record).is_err());
    directory::begin_restore(authority(), &spec, &snapshot).expect("restore");
    let before = FileMeter::new().push_archive(b"before").unwrap().finish();
    directory::check_content(&spec, &snapshot, &before).expect("restored value");
    let after = FileMeter::new().push_archive(b"after").unwrap().finish();
    assert!(directory::check_content(&spec, &snapshot, &after).is_err());
    let record = directory::release(&attachment, record).expect("unmount");
    assert!(directory::begin_delete(&handle, &record).is_ok());
}

#[test]
fn provider_requires_exact_named_volume_authority() {
    let lacking = directory::DirectoryAuthority { ownership_restore: false, ..authority() };
    let capabilities = directory::capabilities(lacking);
    assert!(!capabilities.snapshot);
    assert!(!capabilities.persistence_classes.contains(VolumePersistenceClass::Persistent));
    let spec = cache(VolumePersistenceClass::Persistent);
    assert!(matches!(
        directory::begin_create(&directories(), lacking, &scope("tenant"), &spec, Ok(())),
        Err(VolumeError::Unsupported(_))
    ));

    let lacking = directory::DirectoryAuthority { gofer_access: false, ..lacking };
    let capabilities = directory::capabilities(lacking);
    assert!(!capabilities.persistence_classes.contains(VolumePersistenceClass::Persistent));
}

#[test]
fn cleanup_recovers_an_interrupted_directory_swap() {
    let interrupted = DataDirectories { data: false, restoring: false, replaced: true };
    let (steps, outcome) = reconcile_data_directory(interrupted);
    assert_eq!(steps, [DataStep::TakeBack]);
    assert!(outcome.is_ok());
    let complete = DataDirectories { data: true, restoring: true, replaced: true };
    let (steps, outcome) = reconcile_data_directory(complete);
    assert_eq!(steps, [DataStep::DropRestoring, DataStep::DropReplaced]);
    assert!(outcome.is_ok());
    let (_, outcome) =
        reconcile_data_directory(DataDirectories { data: false, restoring: false, replaced: false });
    assert!(outcome.is_err());
}

fn link(path: &[u8], target: &[u8]) -> ArchiveEntry {
    ArchiveEntry {
        path: path.to_vec(),
        kind: ArchiveKind::Symlink,
        extensions: Vec::new(),
        link: Some(target.to_vec()),
        size: 0,
    }
}

#[test]
fn portable_archive_rejects_sparse_and_hostile_content() {
    let export = || ArchiveExport::new(4 * 1024 * 1024);
    let plain = ExportKind::File { links: 1, size: 5, blocks: 8 };
    assert!(matches!(export().accept(true, plain), Err(VolumeError::Unsupported(_))));
    let sparse = ExportKind::File { links: 1, size: 2 * 1024 * 1024, blocks: 0 };
    assert!(matches!(export().accept(false, sparse), Err(VolumeError::Unsupported(_))));
    assert!(export().accept(false, ExportKind::File { links: 1, size: 5, blocks: 8 }).is_ok());

    let mut hostile = tar::Builder::new(Vec::new());
    let mut header = tar::Header::new_gnu();
    header.set_entry_type(tar::EntryType::Symlink);
    header.set_size(0);
    header.set_mode(0o777);
    header.set_link_name("../escape").expect("link target");
    header.set_cksum();
    hostile
        .append_data(&mut header, "unsafe-link", std::io::empty())
        .expect("append hostile link");
    let bytes = hostile.into_inner().expect("finish hostile archive");
    let mut archive = tar::Archive::new(std::io::Cursor::new(bytes));
    let entry = archive.entries().unwrap().next().unwrap().unwrap();
    let target = entry.link_name_bytes().unwrap().into_owned();
    let entry = link(&entry.path_bytes(), &target);
    assert!(matches!(
        ArchiveAudit::new(4 * 1024 * 1024).accept(entry),
        Err(VolumeError::Integrity(_))
    ));
}

fn member(path: &[u8], size: u64) -> ArchiveEntry {
    ArchiveEntry {
        path: path.to_vec(),
        kind: ArchiveKind::Regular,
        extensions: Vec::new(),
        link: None,
        size,
    }
}

#[test]
fn archives_stay_in_their_directory() {
    let audit = || ArchiveAudit::new(100);
    assert!(audit().accept(member(b"a/b", 100)).is_ok());
    assert!(audit().accept(member(b"a/b", 101)).is_err());
    assert!(audit().accept(member(b"../a", 1)).is_err());
    assert!(audit().accept(member(b"/a", 1)).is_err());
    let twice = audit().accept(member(b"a", 1)).unwrap();
    assert!(twice.accept(member(b"a", 1)).is_err());
    let through = audit().accept(link(b"l", b"target")).unwrap();
    assert!(through.accept(member(b"l/file", 1)).is_err());
    let mut attributed = member(b"a", 1);
    attributed.extensions.push(ExtensionKey::Key(b"SCHILY.xattr.user.x".to_vec()));
    assert!(audit().accept(attributed).is_err());
    let mut fifo = member(b"a", 0);
    fifo.kind = ArchiveKind::Other;
    assert!(audit().accept(fifo).is_err());
    assert!(collect_path(0, b"a/b").is_ok());
    assert!(collect_path(100_000, b"a/b").is_err());
    assert!(check_archive_file(true, 10, 100).is_ok());
    assert!(check_archive_file(false, 10, 100).is_err());
    let writer = ArchiveWriter::new(4);
    assert!(writer.before_write(4).is_ok());
    assert!(writer.after_write(4).before_write(1).is_err());
}

#[test]
fn records_are_replaced_as_a_whole() {
    assert_eq!(
        reconcile_volume_metadata(Lookup::File, Lookup::File).unwrap(),
        MetadataStep::DropPending
    );
    assert_eq!(
        reconcile_volume_metadata(Lookup::File, Lookup::Missing).unwrap(),
        MetadataStep::Keep
    );
    assert_eq!(
        reconcile_volume_metadata(Lookup::Missing, Lookup::File).unwrap(),
        MetadataStep::Promote
    );
    assert!(reconcile_volume_metadata(Lookup::Missing, Lookup::Missing).is_err());
    assert!(effective_capability("Name:\tx\nCapEff:\t0000000000000002\n", 1));
    assert!(!effective_capability("Name:\tx\nCapEff:\t0000000000000002\n", 2));
    let failure = || VolumeError::Invalid("no room".to_owned());
    let undo = advance_make(MakeState::Data, Err(failure()));
    assert!(matches!(undo, MakeState::Undo { .. }));
    let done = advance_make(undo, Ok(()));
    assert!(matches!(done, MakeState::Done(Err(VolumeError::Invalid(_)))));
    let back = advance_swap("/data", SwapState::Install, SwapEvent::Renamed(Err("busy".to_owned())));
    assert!(matches!(back, SwapState::TakeBack { .. }));
}

#[test]
fn a_named_volume_is_set_up_and_undone() {
    let mut state = begin_setup(VolumePersistenceClass::Persistent, false);
    for _ in 0..4 {
        assert!(!matches!(state, SetupState::Done(_)));
        state = advance_setup(state, SetupEvent::Completed(Ok(())));
    }
    assert!(matches!(state, SetupState::Done(Ok(()))));
    let state = begin_setup(VolumePersistenceClass::Persistent, false);
    let state = advance_setup(
        state,
        SetupEvent::Completed(Err(VolumeError::Invalid("no room".to_owned()))),
    );
    assert!(matches!(state, SetupState::Undo { .. }));
    assert!(matches!(
        begin_setup(VolumePersistenceClass::Secret, false),
        SetupState::Done(Err(_)) | SetupState::Undo { .. }
    ));
}

#[test]
fn a_failed_mount_detaches_its_device() {
    let state = advance_named_mount(NamedMount::Look, NamedMountEvent::Mounted(Ok(false)));
    let state = advance_named_mount(state, NamedMountEvent::Printed(Ok(b"/dev/loop4\n".to_vec())));
    assert!(matches!(state, NamedMount::Mount { .. }));
    let state = advance_named_mount(state, NamedMountEvent::Tried(Err("busy".to_owned())));
    assert!(matches!(state, NamedMount::Detach { .. }));
    let state = advance_named_mount(state, NamedMountEvent::Detached);
    assert!(matches!(state, NamedMount::Done(Err(VolumeError::Mount(_)))));
}

fn attached() -> (VolumeRecord, sandboxd::volume::model::VolumeAttachment) {
    let spec = specification("database", VolumePersistenceClass::Persistent);
    let handle = begin_create(&config(), &scope("tenant-a"), &spec, Ok(())).expect("handle");
    attach(&handle, owner("sandbox-a"), &spec, new_record(&handle)).expect("attachment")
}

#[test]
fn a_snapshot_is_of_a_frozen_volume() {
    let (mut record, attachment) = attached();
    assert!(begin_snapshot(&attachment, &record, "/snapshots/a", false).is_err());
    assert!(begin_freeze(&attachment, &record).unwrap());
    record_freeze(&mut record, || Ok(()), |_: &VolumeRecord| Ok(()), || Ok(())).expect("freeze");
    begin_snapshot(&attachment, &record, "/snapshots/a", false).expect("snapshot");
    assert!(begin_snapshot(&attachment, &record, "/snapshots/a", true).is_err());
    let file = FileMeter::new().push_backing(b"image").unwrap().finish();
    let snapshot = new_snapshot(&attachment, &record, file);
    assert_eq!(snapshot.digest, identity(b"image"));
    assert_eq!(snapshot.size_bytes, 5);
    let failed = finish_snapshot(Ok(snapshot), Err(VolumeError::Mount("stuck".to_owned())));
    assert!(reason(failed).contains("stuck"));
}

#[test]
fn a_restored_volume_holds_what_was_taken() {
    let (record, attachment) = attached();
    let spec = specification("database", VolumePersistenceClass::Persistent);
    let size = MINIMUM_NAMED_VOLUME_BYTES;
    let file = || FileDigest { digest: identity(b"image"), size_bytes: size };
    let snapshot = new_snapshot(&attachment, &record, file());
    begin_restore(&spec, Ok(()), &snapshot).expect("restorable");
    assert!(begin_restore(&spec, Err("bad".to_owned()), &snapshot).is_err());
    check_source(&spec, &snapshot, true, &file()).expect("source");
    let other = FileDigest { digest: identity(b"other"), size_bytes: size };
    assert!(check_source(&spec, &snapshot, true, &other).is_err());
    assert!(check_source(&spec, &snapshot, false, &file()).is_err());
    let state = advance_restore(&snapshot, RestoreState::Stage, RestoreEvent::Completed(Ok(())));
    assert!(matches!(state, RestoreState::MeasureStaged));
    let wrong = advance_restore(&snapshot, state, RestoreEvent::Measured(Ok(other)));
    assert!(matches!(wrong, RestoreState::Discard { .. }));
}

#[test]
fn volumes_are_used_by_those_who_attached_them() {
    let (record, attachment) = attached();
    assert_eq!(record.attachments.len(), 1);
    assert!(delete_steps(attachment.handle(), &record).is_err());
    let spec = specification("database", VolumePersistenceClass::Persistent);
    let (record, again) =
        attach(attachment.handle(), owner("sandbox-a"), &spec, record).expect("attached again");
    assert_eq!(record.attachments.len(), 1);
    assert_eq!(again.attachment_id(), attachment.attachment_id());
    let read_only = VolumeSpec { read_only: true, ..spec };
    let other = attach(attachment.handle(), owner("sandbox-a"), &read_only, record);
    assert!(matches!(other, Err(VolumeError::AccessDenied(_))));
    let (record, attachment) = attached();
    let (record, _) = release(&attachment, record).expect("released");
    assert!(record.attachments.is_empty());
    assert!(delete_steps(attachment.handle(), &record).expect("deletable").contains(&VolumeStep::Remove));
    assert!(release(&attachment, record).is_err());
    let all = capabilities();
    assert!(all.snapshot);
    assert!(all.persistence_classes.contains(VolumePersistenceClass::Secret));
    assert!(SnapshotPortability::CrossWorkerSameBackend.permits_cross_worker());
}

#[test]
fn settings_of_volumes_are_bounded() {
    assert!(config().validate(MINIMUM_NAMED_VOLUME_BYTES).is_ok());
    let mut relative = config();
    relative.root = "volumes".to_owned();
    assert!(relative.validate(MINIMUM_NAMED_VOLUME_BYTES).is_err());
    let mut slow = config();
    slow.operation_timeout = Duration::from_secs(0);
    assert!(slow.validate(MINIMUM_NAMED_VOLUME_BYTES).is_err());
    let mut small = specification("database", VolumePersistenceClass::Persistent);
    small.quota_bytes = 1;
    assert!(begin_create(&config(), &scope("tenant-a"), &small, Ok(())).is_err());
    assert_eq!(
        reason(begin_create(
            &config(),
            &scope("tenant-a"),
            &specification("database", VolumePersistenceClass::Persistent),
            Err("bad specification".to_owned())
        )),
        "invalid volume request: bad specification"
    );
    assert!(directories().validate(MINIMUM_NAMED_VOLUME_BYTES).is_ok());
}

#[test]
fn secrets_are_bounded_and_private() {
    assert!(validate_secret_name("token").is_ok());
    assert!(validate_secret_name("../token").is_err());
    assert_eq!(
        secret_components(&scope("tenant-a"), "credentials"),
        ["tenants", "tenant-a", "workspaces", "workspace-a", "credentials"]
    );
    let listed = SecretListing::new().note(b"b".to_vec(), 2).unwrap().note(b"a".to_vec(), 1).unwrap();
    let entries = listed.finish().expect("secrets");
    assert_eq!(entries[0].name, "a");
    assert_eq!(entries[1].inode, 2);
    assert!(SecretListing::new().finish().is_err());
    assert!(SecretListing::new().note(b"\xff".to_vec(), 1).is_err());
    let facts = SecretFacts { length: 9, is_file: true, same_inode: true, owned: true, mode: 0o100_600 };
    let meter = || SecretMeter { total: 0, maximum: 10 };
    let (used, length) = meter().accept(facts).expect("secret");
    assert_eq!((used.total, length), (9, 9));
    assert!(used.accept(facts).is_err());
    assert!(meter().accept(SecretFacts { mode: 0o100_644, ..facts }).is_err());
    assert!(meter().accept(SecretFacts { same_inode: false, ..facts }).is_err());
    assert!(check_secret_contents(9, 9).is_ok());
    assert!(check_secret_contents(9, 8).is_err());
    assert!(check_resolved(&vec!["a".to_owned()]).is_ok());
    assert!(check_resolved(&Vec::new()).is_err());
    assert!(check_resolved(&vec!["a".to_owned(), "a".to_owned()]).is_err());
    assert!(secret_options(4096).contains("4096"));
    let secret = SecretFile {
        name: "token".to_owned(),
        contents: Zeroizing::new(b"sensitive".to_vec()),
    };
    assert!(secret.describe().contains("token"));
    assert!(!secret.describe().contains("sensitive"));
}

#[test]
fn commands_are_judged_by_what_they_print() {
    let output = |code: i32, stderr: &[u8]| CommandOutput {
        code: Some(code),
        status: format!("exit status: {code}"),
        stdout: Vec::new(),
        stderr: stderr.to_vec(),
    };
    assert!(judge_command("copy", output(0, b"")).is_ok());
    assert!(reason(judge_command("copy", output(1, b"bad \xff"))).contains("bad \u{fffd}"));
    assert!(judge_unfreeze("thaw", &output(1, b"unfreeze failed: Invalid argument")).is_ok());
    assert!(judge_unfreeze("thaw", &output(1, b"Operation not permitted")).is_err());
    assert_eq!(associated_loop_devices(b"/dev/loop1\n").unwrap(), ["/dev/loop1"]);
    assert!(associated_loop_devices(b"/tmp/loop1\n").is_err());
    let table = "36 35 98:0 / /mnt/a\\040b rw - ext4 /dev/root rw\n";
    assert!(is_mount(table, b"/mnt/a b"));
    assert!(!is_mount(table, b"/mnt/a"));
}

#[test]
fn volume_errors_are_told_in_words() {
    for (error, told) in [
        (VolumeError::Invalid("x".to_owned()), "invalid volume request: x"),
        (VolumeError::AccessDenied("x".to_owned()), "volume access is denied: x"),
        (VolumeError::AlreadyExists("x".to_owned()), "volume already exists: x"),
        (VolumeError::NotFound("x".to_owned()), "volume was not found: x"),
        (VolumeError::Unsupported("x".to_owned()), "volume provider does not support: x"),
        (VolumeError::Integrity("x".to_owned()), "volume integrity verification failed: x"),
        (VolumeError::Timeout("x".to_owned()), "volume operation timed out: x"),
        (VolumeError::Mount("x".to_owned()), "volume mount operation failed: x"),
        (
            VolumeError::Io { path: "/a".to_owned(), source: "x".to_owned() },
            "volume path `/a` failed: x",
        ),
    ] {
        assert_eq!(error.message(), told);
    }
}

#[test]
fn secret_resolver_is_scope_bound_and_rejects_symlinks() {
    let place = |tenant: &str| secret_components(&scope(tenant), "credentials").join("/");
    assert_eq!(place("tenant-a"), "tenants/tenant-a/workspaces/workspace-a/credentials");
    assert_ne!(place("tenant-a"), place("tenant-b"));
    let missing = directory_error(
        OpenFault::Missing,
        "credentials",
        place("tenant-b"),
        "missing".to_owned(),
    );
    assert!(matches!(missing, VolumeError::NotFound(volume) if volume == "credentials"));
    let secret = SecretFile {
        name: "token".to_owned(),
        contents: Zeroizing::new(b"sensitive".to_vec()),
    };
    assert!(!secret.describe().contains("sensitive"));
    let alias = file_error(true, "credentials/alias".to_owned(), "loop".to_owned());
    assert!(matches!(alias, VolumeError::AccessDenied(_)));
    let broken = file_error(false, "credentials/alias".to_owned(), "broken".to_owned());
    assert!(matches!(broken, VolumeError::Io { .. }));
}

#[test]
fn secret_resolver_rejects_intermediate_and_final_directory_symlinks() {
    for place in ["tenants", "tenants/tenant-a/workspaces/workspace-a/credentials"] {
        let refused = directory_error(
            OpenFault::Refused,
            "credentials",
            place.to_owned(),
            "not a directory".to_owned(),
        );
        assert!(matches!(refused, VolumeError::AccessDenied(_)));
    }
    let other =
        directory_error(OpenFault::Other, "credentials", "tenants".to_owned(), "io".to_owned());
    assert!(matches!(other, VolumeError::Io { .. }));
}

#[test]
fn secret_directories_are_the_workers_own() {
    assert!(check_resolver("/secrets", 1024).is_ok());
    assert!(check_resolver("secrets", 1024).is_err());
    assert!(check_resolver("/secrets", 0).is_err());
    for check in [check_secret_root, check_secret_directory] {
        assert!(check(true, true, 0o040_700).is_ok());
        assert!(check(false, true, 0o040_700).is_err());
        assert!(check(true, false, 0o040_700).is_err());
        assert!(check(true, true, 0o040_750).is_err());
        assert!(check(true, true, 0o040_701).is_err());
    }
    assert!(check_secret_storage(true).is_ok());
    assert!(reason(check_secret_storage(false)).contains("no longer mounted"));
}

#[test]
fn copies_and_freezes_are_asked_for_by_exact_arguments() {
    assert_eq!(
        copy_arguments("/a", "/b"),
        ["--sparse=always", "--reflink=auto", "/a", "/b"]
    );
    assert_eq!(freeze_arguments("/data"), ["--freeze", "/data"]);
    assert_eq!(unfreeze_arguments("/data"), ["--unfreeze", "/data"]);
}

#[test]
fn a_volume_is_thawed_where_it_is_frozen() {
    let (mut record, attachment) = attached();
    assert!(!begin_thaw(&attachment, &record).unwrap());
    record.frozen = true;
    assert!(begin_thaw(&attachment, &record).unwrap());
    assert!(!begin_freeze(&attachment, &record).unwrap());
    record.attachments.clear();
    assert!(begin_thaw(&attachment, &record).is_err());
    assert!(check_freezable(true).is_ok());
    assert!(reason(check_freezable(false)).contains("unmounted"));
}

#[test]
fn only_an_idle_persistent_volume_is_replaced() {
    let spec = specification("database", VolumePersistenceClass::Persistent);
    let held = begin_create(&config(), &scope("tenant-a"), &spec, Ok(())).expect("handle");
    assert!(check_replaceable(&held, &new_record(&held)).is_ok());
    let mut frozen = new_record(&held);
    frozen.frozen = true;
    assert!(matches!(check_replaceable(&held, &frozen), Err(VolumeError::AlreadyExists(_))));
    let (in_use, attachment) = attached();
    assert!(matches!(
        check_replaceable(attachment.handle(), &in_use),
        Err(VolumeError::AlreadyExists(_))
    ));
    let mut foreign = new_record(&held);
    foreign.tenant_id = "tenant-b".to_owned();
    assert!(matches!(check_replaceable(&held, &foreign), Err(VolumeError::AccessDenied(_))));
}

#[test]
fn stored_records_are_read_with_care() {
    assert!(decode_error("eof").message().contains("decode volume record: eof"));
    assert!(encode_error("key").message().contains("encode volume record: key"));
    assert!(check_record_size(1024 * 1024).is_ok());
    assert!(check_record_size(1024 * 1024 + 1).is_err());
    assert!(check_data_root(true, false).is_ok());
    assert!(check_data_root(false, false).is_err());
    assert!(check_data_root(true, true).is_err());
    assert!(check_archive_open(true).is_ok());
    assert!(check_archive_open(false).is_err());
    assert!(check_destination("/snapshot", false).is_ok());
    assert!(matches!(
        check_destination("/snapshot", true),
        Err(VolumeError::AlreadyExists(path)) if path == "/snapshot"
    ));

    let spec = cache(VolumePersistenceClass::Persistent);
    let held =
        directory::begin_create(&directories(), authority(), &scope("tenant"), &spec, Ok(()))
            .expect("handle");
    let stored = || directory::new_record(&held);
    let check = |record: &directory::VolumeRecord, name: &str| {
        directory::validate_stored_record(record, name.as_bytes(), MINIMUM_NAMED_VOLUME_BYTES)
    };
    assert!(check(&stored(), held.key()).is_ok());
    assert!(check(&stored(), &"0".repeat(64)).is_err());
    let mut moved = stored();
    moved.workspace = "workspace-b".to_owned();
    assert!(check(&moved, held.key()).is_err());
    let mut small = stored();
    small.quota_bytes = MINIMUM_NAMED_VOLUME_BYTES - 1;
    assert!(check(&small, held.key()).is_err());
    let mut secret = stored();
    secret.persistence_class = VolumePersistenceClass::Secret;
    assert!(check(&secret, held.key()).is_err());
}

use sandboxd::oci::model::{LockedDescriptor, LockedImage};
use sandboxd::oci::provider::config::{
    ContainerdProviderConfig, FixedRootfsConfig, FixedRootfsMeasurement, ImageLimits,
    ImagePlatform, ProviderHost,
};
use sandboxd::oci::provider::containerd::ContainerdImageProvider;
use sandboxd::oci::provider::handle::ImmutableRootfs;
use sandboxd::oci::provider::layer::EntryKind;
use sandboxd::oci::provider::mount::{begin_mount, MountState};
use sandboxd::oci::writable::config::WritableRootfsConfig;
use sandboxd::oci::writable::diff::{
    check_restore_target, check_upper, conversion, depth, validate_attributes, BoundedWriter, Conversion, DiffExport, UpperEntry,
    UpperKind, WhiteoutAudit,
};
use sandboxd::oci::writable::gvisor;
use sandboxd::oci::writable::identity::WritableRootfsIdentity;
use sandboxd::oci::writable::loopback::{
    advance_create, attach_arguments, begin_create, check_record, detach_arguments,
    filesystem_uuid, filled_lines, format_arguments, list_arguments, listed_loop_devices, new_handle, new_record, overlay_options, parse_loop_device,
    restore_failure, rootfs_key, validate_handle, validate_overlay_path, Cleanup, CreateEvent,
    CreateState,
};
use sandboxd::oci::SandboxError;
use sandboxd::time::Duration;

fn identity(project: &str, service: &str) -> Result<WritableRootfsIdentity, SandboxError> {
    WritableRootfsIdentity::new(project.to_owned(), service.to_owned())
}

fn settings() -> WritableRootfsConfig {
    WritableRootfsConfig {
        root: "/var/lib/sandboxd/writable".to_owned(),
        minimum_bytes: 16 * 1024 * 1024,
        maximum_bytes: 64 * 1024 * 1024,
        operation_timeout: Duration::from_secs(30),
        mkfs_ext4_program: "/usr/sbin/mkfs.ext4".to_owned(),
        losetup_program: "/usr/sbin/losetup".to_owned(),
    }
}

fn descriptor(digit: char, media_type: &str) -> LockedDescriptor {
    LockedDescriptor {
        media_type: media_type.to_owned(),
        digest: format!("sha256:{}", digit.to_string().repeat(64)),
        size: 1,
    }
}

fn image() -> LockedImage {
    LockedImage {
        source: "example.test/app:latest".to_owned(),
        exact_reference: format!("example.test/app@sha256:{}", "a".repeat(64)),
        image_id: format!("sha256:{}", "b".repeat(64)),
        index: None,
        manifest: descriptor('a', "application/vnd.oci.image.manifest.v1+json"),
        config: descriptor('b', "application/vnd.oci.image.config.v1+json"),
        layers: vec![descriptor('c', "application/vnd.oci.image.layer.v1.tar+gzip")],
        operating_system: "linux".to_owned(),
        architecture: "amd64".to_owned(),
        variant: None,
    }
}

fn immutable() -> ImmutableRootfs {
    let config = ContainerdProviderConfig {
        ctr_program: "/usr/bin/ctr".to_owned(),
        address: "/run/containerd/containerd.sock".to_owned(),
        namespace: "sandboxd".to_owned(),
        snapshotter: "overlayfs".to_owned(),
        mount_root: "/var/lib/sandboxd/images".to_owned(),
        writable_rootfs: settings(),
        platform: ImagePlatform::linux_amd64(),
        limits: ImageLimits::default(),
        fixed_rootfs: Some(FixedRootfsConfig {
            rootfs: "/opt/rootfs".to_owned(),
            topology_lock: "/opt/topology.lock.json".to_owned(),
            measurement: Some(FixedRootfsMeasurement {
                digest: format!("sha256:{}", "d".repeat(64)),
                entries: 1,
                bytes: 1,
            }),
        }),
    };
    let host = ProviderHost {
        client_is_file: true,
        address_is_socket: true,
        store_is_directory: true,
        store_owner: 0,
        worker: 0,
    };
    let provider = ContainerdImageProvider::new(
        config,
        "/usr/bin/ctr".to_owned(),
        "/var/lib/sandboxd/images".to_owned(),
        host,
        |_: &str| Ok(image()),
    )
    .expect("provider");
    let handle = provider.activate(&image()).expect("handle");
    match begin_mount(&provider, &handle) {
        MountState::Done(Ok(rootfs)) => rootfs,
        other => panic!("{other:?}"),
    }
}

#[test]
fn bounded_writer_stops_archive_growth() {
    let writer = BoundedWriter::new(4);
    assert!(writer.before_write(b"test".len()).is_ok());
    let writer = writer.after_write(4);
    assert_eq!(writer.bytes, 4);
    assert!(writer.before_write(b"x".len()).is_err());
}

#[test]
fn identity_is_bounded_and_path_safe() {
    assert!(identity("s0123", "api_worker").is_ok());
    assert!(identity("../tenant", "api").is_err());
    assert!(identity("tenant", "api/worker").is_err());
}

#[test]
fn keys_bind_project_service_and_image() {
    let identity = identity("sandbox", "api").unwrap();
    assert_ne!(rootfs_key(&identity, "sha256:a"), rootfs_key(&identity, "sha256:b"));
    assert_eq!(rootfs_key(&identity, "sha256:a").len(), 64);
}

#[test]
fn loop_device_parser_rejects_untrusted_paths_before_metadata_lookup() {
    assert!(parse_loop_device(b"/dev/sda").is_err());
    assert!(parse_loop_device(b"/dev/loop../../sda").is_err());
}

#[test]
fn keys_of_both_kinds_bind_the_service() {
    let api = identity("sandbox", "api").unwrap();
    let web = identity("sandbox", "web").unwrap();
    assert_ne!(rootfs_key(&api, "sha256:a"), rootfs_key(&web, "sha256:a"));
    assert_ne!(gvisor::rootfs_key(&api, "sha256:a"), gvisor::rootfs_key(&web, "sha256:a"));
    let key = rootfs_key(&api, "sha256:a");
    let uuid = filesystem_uuid(&key);
    assert_eq!(uuid.len(), 36);
    assert_eq!(&uuid[..8], &key[..8]);
}

#[test]
fn loop_devices_are_listed_line_by_line() {
    assert_eq!(parse_loop_device(b"/dev/loop7\n").unwrap(), "/dev/loop7");
    assert_eq!(filled_lines("a\n\n b\n"), ["a", " b"]);
    assert_eq!(listed_loop_devices(b"/dev/loop1\n/dev/loop2\n"), ["/dev/loop1", "/dev/loop2"]);
    assert!(validate_overlay_path("/var/lib/lower").is_ok());
    assert!(validate_overlay_path("/var/lib/a,b").is_err());
    assert_eq!(overlay_options("/l", "/u", "/w"), "lowerdir=/l,upperdir=/u,workdir=/w");
}

#[test]
fn quotas_stay_between_their_bounds() {
    let config = settings();
    assert!(config.validate_bounds().is_ok());
    assert!(config.validate_quota(16 * 1024 * 1024).is_ok());
    assert!(config.validate_quota(16 * 1024 * 1024 - 1).is_err());
    assert!(config.validate_quota(64 * 1024 * 1024 + 1).is_err());
    let mut small = settings();
    small.minimum_bytes = 1;
    assert!(small.validate_bounds().is_err());
}

#[test]
fn a_created_root_is_known_again() {
    let immutable = immutable();
    let owner = identity("sandbox", "api").unwrap();
    let quota = 16 * 1024 * 1024;
    let key = begin_create(&settings(), &immutable, &owner, quota, true).expect("key");
    assert!(begin_create(&settings(), &immutable, &owner, quota, false).is_err());
    let record = new_record(&immutable, &owner, quota, &key);
    let handle = new_handle(&immutable, owner, quota, key, "/w/rootfs".to_owned());
    assert!(validate_handle(&handle, "/w/rootfs").is_ok());
    assert!(validate_handle(&handle, "/elsewhere").is_err());
    assert!(check_record(&handle, &record).is_ok());
    let mut other = record;
    other.quota_bytes += 1;
    assert!(check_record(&handle, &other).is_err());
}

#[test]
fn a_checked_root_is_recorded() {
    let immutable = immutable();
    let owner = identity("sandbox", "api").unwrap();
    let quota = 16 * 1024 * 1024;
    let (handle, mut record) =
        gvisor::create(&settings(), &immutable, owner, quota, "/opt/rootfs".to_owned()).unwrap();
    assert!(gvisor::check_handle(&handle).is_ok());
    assert!(gvisor::check_record(&handle, &record).is_ok());
    record.service = "web".to_owned();
    assert!(gvisor::check_record(&handle, &record).is_err());
    let owner = identity("sandbox", "api").unwrap();
    assert!(gvisor::create(&settings(), &immutable, owner, 1, "/opt/rootfs".to_owned()).is_err());
}

#[test]
fn a_failed_creation_is_undone() {
    let failure = || SandboxError::Runtime("no device".to_owned());
    let mut state = CreateState::Backing;
    state = advance_create(state, CreateEvent::Completed(Ok(())));
    state = advance_create(state, CreateEvent::Completed(Ok(())));
    state = advance_create(state, CreateEvent::Printed(Ok(b"/dev/loop3\n".to_vec())));
    assert!(matches!(state, CreateState::Confirm { .. }));
    state = advance_create(state, CreateEvent::Block(Ok(true)));
    state = advance_create(state, CreateEvent::Completed(Err(failure())));
    assert!(matches!(state, CreateState::Undo { .. }));
    match advance_create(state, CreateEvent::Completed(Ok(()))) {
        CreateState::Done(Err(error)) => assert!(error.message().contains("no device")),
        other => panic!("{other:?}"),
    }
}

#[test]
fn the_first_failure_of_a_cleanup_is_kept() {
    let failure = |reason: &str| Err(SandboxError::Runtime(reason.to_owned()));
    let cleanup = Cleanup::new().note(Ok(()));
    assert!(cleanup.may_remove());
    let cleanup = cleanup.note(failure("first")).note(failure("second"));
    assert!(!cleanup.may_remove());
    assert!(cleanup.finish().unwrap_err().message().contains("first"));
    let both = restore_failure(SandboxError::Runtime("first".to_owned()), failure("second"));
    assert!(both.message().contains("first") && both.message().contains("second"));
}

fn upper(path: &[u8], kind: UpperKind) -> UpperEntry {
    UpperEntry { path: path.to_vec(), attributes: Vec::new(), mode: 0o640, modified: 9, kind }
}

#[test]
fn an_upper_layer_is_exported_entry_by_entry() {
    let export = DiffExport::new(100);
    let (export, members) =
        export.export(&upper(b"value", UpperKind::File { links: 1, size: 8 })).unwrap();
    assert_eq!(members.len(), 1);
    assert_eq!(members[0].path, b"value");
    assert_eq!(members[0].kind, EntryKind::File);
    assert_eq!(members[0].size, 8);
    assert_eq!(export.logical_bytes, 8);
    let (export, members) =
        export.export(&upper(b"gone", UpperKind::CharacterDevice { device: 0 })).unwrap();
    assert_eq!(members[0].path, b".wh.gone");
    let (export, members) =
        export.export(&upper(b"fresh", UpperKind::Directory { opaque: true })).unwrap();
    assert_eq!(members.len(), 2);
    let finished = export.finish(512);
    assert_eq!(finished.entries, 3);
    assert_eq!(finished.archive_bytes, 512);
    let linked = upper(b"linked", UpperKind::File { links: 2, size: 8 });
    assert!(DiffExport::new(100).export(&linked).is_err());
    let large = upper(b"large", UpperKind::File { links: 1, size: 101 });
    assert!(DiffExport::new(100).export(&large).is_err());
    assert!(DiffExport::new(100).export(&upper(b"other", UpperKind::Other)).is_err());
}

#[test]
fn removals_are_told_from_content() {
    assert!(matches!(conversion(b"a/.wh..wh..opq"), Conversion::Opaque));
    assert!(matches!(conversion(b"a/.wh.b"), Conversion::Remove { name } if name == b"b"));
    assert!(matches!(conversion(b"a/b"), Conversion::Keep));
    assert_eq!(depth(b"a/b/c"), 3);
    let audit = WhiteoutAudit::new().note(b"a/b").unwrap();
    assert!(audit.note(b"a/.wh.b").is_err());
    assert!(validate_attributes(&vec![b"trusted.overlay.opaque".to_vec()], true).is_ok());
    assert!(validate_attributes(&vec![b"user.other".to_vec()], true).is_err());
}

#[test]
fn export_rejects_hard_links_until_inode_identity_is_portable() {
    let export = DiffExport::new(16 * 1024 * 1024);
    assert!(export.export(&upper(b"first", UpperKind::File { links: 2, size: 5 })).is_err());
    let export = DiffExport::new(16 * 1024 * 1024);
    assert!(export.export(&upper(b"first", UpperKind::File { links: 1, size: 5 })).is_ok());
}

#[test]
fn an_upper_layer_is_looked_at_before_it_is_read_or_filled() {
    assert!(check_upper(true).is_ok());
    assert!(check_upper(false).unwrap_err().message().contains("is unavailable"));
    assert!(check_restore_target(true).is_ok());
    assert!(check_restore_target(false).unwrap_err().message().contains("is not empty"));
}

#[test]
fn loop_devices_are_made_and_dropped_by_exact_arguments() {
    let key = "0123456789abcdef".repeat(4);
    assert_eq!(
        format_arguments(&key, "/srv/root.ext4"),
        [
            "-q",
            "-F",
            "-m",
            "0",
            "-U",
            "01234567-89ab-cdef-0123-456789abcdef",
            "/srv/root.ext4"
        ]
    );
    assert_eq!(
        attach_arguments("/srv/root.ext4"),
        ["--find", "--show", "--nooverlap", "/srv/root.ext4"]
    );
    assert_eq!(
        list_arguments("/srv/root.ext4"),
        ["--associated", "/srv/root.ext4", "--output", "NAME", "--noheadings"]
    );
    assert_eq!(detach_arguments("/dev/loop3"), ["--detach", "/dev/loop3"]);
}

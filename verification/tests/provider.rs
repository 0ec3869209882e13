use flate2::{read::MultiGzDecoder, write::GzEncoder, Compression};
use sandboxd::digest::identity;
use sandboxd::oci::model::{LockedDescriptor, LockedImage};
use sandboxd::oci::provider::config::{
    ContainerdProviderConfig, FixedRootfsConfig, ImageLimits, ImagePlatform, ProviderHost,
};
use sandboxd::oci::provider::containerd::{
    credential_files, needs_etc, needs_runtime_file, stale_staging, ContainerdImageProvider,
    RootfsMeasurement, Standing, WritableRequest,
};
use sandboxd::oci::provider::content::{
    check_announced, check_content, check_inspected, ensure_success, verified_content, BlobDigest,
    BoundedCapture, ContentMeter, MetadataBuffer,
};
use sandboxd::oci::provider::credentials::RegistryCredential;
use sandboxd::oci::provider::handle::ProviderMetadata;
use sandboxd::oci::provider::layer::{
    check_deadline, check_image_deadline, decoded_allowance, is_whiteout, layer_coding, layer_error, normalized_path,
    DecodedMeter, EntryKind, LayerAudit, LayerBudget, LayerCoding, LayerEntry,
};
use sandboxd::oci::provider::mount::{
    advance_mount, begin_mount, pause_length, MountEvent, MountState,
};
use sandboxd::oci::provider::mounts::{decode_mount_path, mount_is_read_only, mount_state};
use sandboxd::oci::provider::pull::{advance_pull, begin_pull, PullProgress, PullStage};
use sandboxd::oci::provider::reference::{
    containerd_reference, digest_key, image_record, parse_reference,
};
use sandboxd::oci::provider::resolve::{
    graph_request, verify_descriptor_graph, ClientRequest, GraphProgress, GraphStage, Resolution,
    ResolutionProgress,
};
use sandboxd::oci::provider::rootfs::{collect_path, RootfsEntry, RootfsEntryKind, RootfsMeter};
use sandboxd::oci::provider::validation::{validate_locked_image, validate_platform};
use sandboxd::oci::process::{judge_kill, judge_wait, Polled, Wait};
use sandboxd::oci::provider::handle::{ImmutableRootfs, PreparedImageHandle};
use sandboxd::oci::provider::{GarbageCollectionReport, ImageProvider, PreparationStatus};
use sandboxd::oci::writable::config::WritableRootfsConfig;
use sandboxd::oci::SandboxError;
use sandboxd::time::Duration;
use std::cell::Cell;
use std::io::{self, Cursor, Read};
use std::rc::Rc;
use std::sync::Mutex;
use tar::{Builder, EntryType, Header};

const TAR: &str = "application/vnd.oci.image.layer.v1.tar";
const GZIP: &str = "application/vnd.oci.image.layer.v1.tar+gzip";
const ZSTD: &str = "application/vnd.oci.image.layer.v1.tar+zstd";

fn descriptor(media_type: &str, digit: char, size: u64) -> LockedDescriptor {
    LockedDescriptor {
        media_type: media_type.to_owned(),
        digest: format!("sha256:{}", digit.to_string().repeat(64)),
        size,
    }
}

fn image() -> LockedImage {
    let manifest = descriptor("application/vnd.oci.image.manifest.v1+json", '1', 100);
    let config = descriptor("application/vnd.oci.image.config.v1+json", '2', 100);
    LockedImage {
        source: "example.test/app:latest".to_owned(),
        exact_reference: format!("example.test/app@{}", manifest.digest),
        image_id: config.digest.clone(),
        index: None,
        manifest,
        config,
        layers: vec![descriptor(GZIP, '3', 100)],
        operating_system: "linux".to_owned(),
        architecture: "amd64".to_owned(),
        variant: None,
    }
}

fn configuration() -> ContainerdProviderConfig {
    ContainerdProviderConfig {
        ctr_program: "/usr/bin/ctr".to_owned(),
        address: "/run/containerd/containerd.sock".to_owned(),
        namespace: "sandboxd".to_owned(),
        snapshotter: "overlayfs".to_owned(),
        mount_root: "/var/lib/sandboxd/images".to_owned(),
        writable_rootfs: WritableRootfsConfig {
            root: "/var/lib/sandboxd/writable".to_owned(),
            minimum_bytes: 16 * 1024 * 1024,
            maximum_bytes: 64 * 1024 * 1024,
            operation_timeout: Duration::from_secs(30),
            mkfs_ext4_program: "/usr/sbin/mkfs.ext4".to_owned(),
            losetup_program: "/usr/sbin/losetup".to_owned(),
        },
        platform: ImagePlatform::linux_amd64(),
        limits: ImageLimits::default(),
        fixed_rootfs: None,
    }
}

fn host() -> ProviderHost {
    ProviderHost {
        client_is_file: true,
        address_is_socket: true,
        store_is_directory: true,
        store_owner: 1_000,
        worker: 1_000,
    }
}

fn open(
    config: ContainerdProviderConfig,
    host: ProviderHost,
) -> Result<ContainerdImageProvider, SandboxError> {
    let program = config.ctr_program.clone();
    let root = config.mount_root.clone();
    ContainerdImageProvider::new(config, program, root, host, |_: &str| Ok(image()))
}

fn provider() -> ContainerdImageProvider {
    open(configuration(), host()).expect("provider")
}

fn reason<T>(result: Result<T, SandboxError>) -> String {
    match result {
        Ok(_) => panic!("a refusal was expected"),
        Err(error) => error.message(),
    }
}

#[test]
fn bounded_reader_drains_but_does_not_retain_excess_output() {
    let mut source = Cursor::new(vec![b'x'; 1_024]);
    let mut capture = BoundedCapture::new(32);
    let mut chunk = [0_u8; 100];
    loop {
        let count = source.read(&mut chunk).unwrap();
        if count == 0 {
            break;
        }
        capture = capture.push(&chunk[..count]);
    }
    let (captured, truncated) = capture.finish();
    assert_eq!(captured, vec![b'x'; 32]);
    assert!(truncated);
}

#[test]
fn digest_reader_enforces_the_stream_limit() {
    let observed = ContentMeter::new(8).push(b"verified").unwrap().finish();
    assert_eq!(observed.bytes, 8);
    assert_eq!(
        observed.digest,
        "sha256:1c34f88707b55e6104c4eb20e71ffa3d33e414b71ef689a15fad0640d0ac58cb"
    );
    assert!(ContentMeter::new(8).push(b"oversized").is_err());
}

#[test]
fn platform_is_explicit_and_bounded() {
    assert_eq!(
        ImagePlatform::parse("linux/arm64/v8").unwrap().as_containerd_platform(),
        "linux/arm64/v8"
    );
    let platform = ImagePlatform::parse("linux/arm64/v8").unwrap();
    assert_eq!(platform.operating_system, "linux");
    assert_eq!(platform.architecture, "arm64");
    assert_eq!(platform.variant.as_deref(), Some("v8"));
    assert_eq!(ImagePlatform::parse(&platform.as_containerd_platform()).unwrap(), platform);
    assert_eq!(ImagePlatform::parse("linux/amd64").unwrap(), ImagePlatform::linux_amd64());
    assert!(ImagePlatform::parse("windows/amd64").is_err());
    assert!(ImagePlatform::parse("linux/ppc64le").is_err());
    assert!(ImagePlatform::parse("linux/amd64/../../host").is_err());
}

#[test]
fn references_are_fully_qualified_and_path_safe() {
    let tagged = parse_reference("registry.example:5000/team/app:stable").unwrap();
    assert_eq!(tagged.registry, "registry.example:5000");
    assert_eq!(tagged.repository, "registry.example:5000/team/app");

    let pinned_value = format!("docker.io/library/alpine@sha256:{}", "a".repeat(64));
    let pinned = parse_reference(&pinned_value).unwrap();
    assert_eq!(pinned.repository, "docker.io/library/alpine");
    assert!(parse_reference("alpine:latest").is_err());
    assert!(parse_reference("docker.io/../host:latest").is_err());
    assert!(parse_reference("docker.io/library/alpine@sha256:bad").is_err());
}

#[test]
fn image_records_require_one_exact_digest_result() {
    let output = format!(
        "REF TYPE DIGEST SIZE PLATFORMS LABELS\n\
         docker.io/library/alpine:3.20 application/vnd.oci.image.index.v1+json sha256:{} 1KiB linux/amd64 -\n",
        "b".repeat(64)
    );
    let (media_type, digest) =
        image_record("docker.io/library/alpine:3.20", output.as_bytes()).unwrap();
    assert_eq!(media_type, "application/vnd.oci.image.index.v1+json");
    assert_eq!(digest, format!("sha256:{}", "b".repeat(64)));
    assert!(image_record("docker.io/library/missing:latest", output.as_bytes()).is_err());
}

#[test]
fn debug_never_contains_the_secret() {
    let credential = RegistryCredential::basic(
        "tenant-a".to_owned(),
        "ghcr.io".to_owned(),
        "user".to_owned(),
        "credential-value-must-not-leak".to_owned(),
    )
    .expect("valid credential");
    let debug = credential.describe();
    assert!(debug.contains("[redacted]"));
    assert!(!debug.contains("credential-value-must-not-leak"));
}

#[test]
fn credentials_are_registry_scoped() {
    let credential = RegistryCredential::bearer(
        "tenant-a".to_owned(),
        "ghcr.io".to_owned(),
        "secret".to_owned(),
    )
    .expect("valid credential");
    assert!(credential.ensure_registry("ghcr.io").is_ok());
    assert!(credential.ensure_registry("registry.example").is_err());
}

#[test]
fn authorization_is_encoded_for_the_registry() {
    let basic = RegistryCredential::basic(
        "tenant-a".to_owned(),
        "ghcr.io".to_owned(),
        "user".to_owned(),
        "pass".to_owned(),
    )
    .expect("valid credential");
    assert_eq!(basic.authorization_header(), "Basic dXNlcjpwYXNz");
    let bearer = RegistryCredential::bearer(
        "tenant-a".to_owned(),
        "docker.io".to_owned(),
        "token".to_owned(),
    )
    .expect("valid credential");
    assert_eq!(bearer.authorization_header(), "Bearer token");
    assert_eq!(
        bearer.describe(),
        "RegistryCredential { tenant: \"tenant-a\", registry: \"docker.io\", secret: \"[redacted]\" }"
    );
    let (registry, hosts) = credential_files("docker.io/library/alpine:3.20", &bearer).unwrap();
    assert_eq!(registry, "docker.io");
    assert!(hosts.contains("server = \"https://registry-1.docker.io\""));
    assert!(hosts.contains("authorization = \"Bearer token\""));
    assert!(credential_files("ghcr.io/team/app:1", &bearer).is_err());
    assert!(RegistryCredential::bearer(
        "tenant-a".to_owned(),
        "ghcr.io".to_owned(),
        String::new()
    )
    .is_err());
}

struct Metered<R> {
    inner: R,
    meter: Rc<Cell<DecodedMeter>>,
}

impl<R: Read> Read for Metered<R> {
    fn read(&mut self, buffer: &mut [u8]) -> io::Result<usize> {
        self.meter.get().before_read(false).map_err(io::Error::other)?;
        let count = self.inner.read(buffer)?;
        let meter = self.meter.get().after_read(count).map_err(io::Error::other)?;
        self.meter.set(meter);
        Ok(count)
    }
}

fn told(error: io::Error) -> SandboxError {
    layer_error(&error.to_string())
}

fn validate_layer(
    bytes: &[u8],
    media_type: &str,
    limits: &ImageLimits,
) -> Result<LayerBudget, SandboxError> {
    let budget = LayerBudget::default();
    let decoder: Box<dyn Read> = match layer_coding(media_type)? {
        LayerCoding::Plain => Box::new(Cursor::new(bytes.to_vec())),
        LayerCoding::Gzip => Box::new(MultiGzDecoder::new(Cursor::new(bytes.to_vec()))),
        LayerCoding::Zstd => {
            Box::new(zstd::stream::read::Decoder::new(Cursor::new(bytes.to_vec())).unwrap())
        }
    };
    let maximum = decoded_allowance(limits, &budget)?;
    let meter = Rc::new(Cell::new(DecodedMeter { bytes: 0, maximum }));
    let mut archive = tar::Archive::new(Metered { inner: decoder, meter: Rc::clone(&meter) });
    let mut audit = LayerAudit::new(budget);
    for entry in archive.entries().map_err(told)? {
        check_deadline(false)?;
        let mut entry = entry.map_err(told)?;
        let kind = match entry.header().entry_type() {
            EntryType::Regular | EntryType::Continuous => EntryKind::File,
            EntryType::Directory => EntryKind::Directory,
            EntryType::Symlink => EntryKind::Symlink,
            EntryType::Link => EntryKind::HardLink,
            _ => EntryKind::Other,
        };
        let path = entry.path_bytes().into_owned();
        let size = entry.header().size().map_err(|error| error.to_string());
        let link = Ok(entry.link_name_bytes().map(|link| link.into_owned()));
        let mut extensions = Vec::new();
        if let Some(found) = entry.pax_extensions().map_err(told)? {
            for extension in found {
                extensions.push(
                    extension
                        .map(|extension| extension.key_bytes().to_vec())
                        .map_err(|error| error.to_string()),
                );
            }
        }
        audit = audit.accept(&LayerEntry { path, kind, size, link, extensions }, limits)?;
        io::copy(&mut entry, &mut io::sink()).map_err(told)?;
    }
    let mut rest = archive.into_inner();
    io::copy(&mut rest, &mut io::sink()).map_err(told)?;
    audit.finish(meter.get().bytes)
}

fn regular(builder: &mut Builder<Vec<u8>>, path: &str, contents: &[u8]) {
    let mut header = Header::new_gnu();
    header.set_mode(0o644);
    header.set_size(contents.len() as u64);
    header.set_entry_type(EntryType::Regular);
    header.set_cksum();
    builder.append_data(&mut header, path, Cursor::new(contents)).unwrap();
}

fn finish(builder: Builder<Vec<u8>>) -> Vec<u8> {
    builder.into_inner().unwrap()
}

fn validate(bytes: &[u8], limits: &ImageLimits) -> Result<LayerBudget, SandboxError> {
    validate_layer(bytes, TAR, limits)
}

#[test]
fn corpus_rejects_traversal_absolute_and_hardlink_escapes() {
    assert!(normalized_path(b"../host", 4_096, "path").is_err());
    assert!(normalized_path(b"/etc/passwd", 4_096, "path").is_err());

    let mut builder = Builder::new(Vec::new());
    let mut header = Header::new_gnu();
    header.set_entry_type(EntryType::Link);
    header.set_size(0);
    builder.append_link(&mut header, "inside", "../outside").unwrap();
    assert!(validate(&finish(builder), &ImageLimits::default()).is_err());
}

#[test]
fn corpus_bounds_symlinks_and_accepts_valid_whiteouts() {
    let mut builder = Builder::new(Vec::new());
    let mut link = Header::new_gnu();
    link.set_entry_type(EntryType::Symlink);
    link.set_size(0);
    builder.append_link(&mut link, "var/run", "/run").unwrap();
    regular(&mut builder, "etc/.wh.removed", b"");
    assert!(validate(&finish(builder), &ImageLimits::default()).is_ok());
}

#[test]
fn accepts_gzip_and_zstd_layers() {
    let mut builder = Builder::new(Vec::new());
    regular(&mut builder, "payload", b"safe");
    let archive = finish(builder);

    let mut gzip = GzEncoder::new(Vec::new(), Compression::fast());
    io::copy(&mut Cursor::new(&archive), &mut gzip).unwrap();
    let gzip = gzip.finish().unwrap();
    assert!(validate_layer(&gzip, GZIP, &ImageLimits::default()).is_ok());

    let zstd = zstd::stream::encode_all(Cursor::new(&archive), 1).unwrap();
    assert!(validate_layer(&zstd, ZSTD, &ImageLimits::default()).is_ok());
}

#[test]
fn corpus_rejects_duplicate_special_xattr_and_sparse_entries() {
    let mut duplicate = Builder::new(Vec::new());
    regular(&mut duplicate, "same", b"first");
    regular(&mut duplicate, "same", b"second");
    assert!(validate(&finish(duplicate), &ImageLimits::default()).is_err());

    let mut special = Builder::new(Vec::new());
    let mut fifo = Header::new_gnu();
    fifo.set_entry_type(EntryType::Fifo);
    fifo.set_size(0);
    fifo.set_cksum();
    special.append_data(&mut fifo, "fifo", io::empty()).unwrap();
    assert!(validate(&finish(special), &ImageLimits::default()).is_err());

    let mut attributed = Builder::new(Vec::new());
    attributed
        .append_pax_extensions([("SCHILY.xattr.user.bad", b"value".as_slice())])
        .unwrap();
    regular(&mut attributed, "attributed", b"content");
    assert!(validate(&finish(attributed), &ImageLimits::default()).is_err());

    let mut sparse = Builder::new(Vec::new());
    let mut header = Header::new_gnu();
    header.set_entry_type(EntryType::GNUSparse);
    header.set_size(0);
    header.set_cksum();
    sparse.append_data(&mut header, "sparse", io::empty()).unwrap();
    assert!(validate(&finish(sparse), &ImageLimits::default()).is_err());
}

#[test]
fn corpus_rejects_sparse_expansion_and_compression_bombs() {
    let mut builder = Builder::new(Vec::new());
    regular(&mut builder, "expanded", &vec![0_u8; 64 * 1024]);
    let archive = finish(builder);
    let mut encoder = GzEncoder::new(Vec::new(), Compression::best());
    io::copy(&mut Cursor::new(archive), &mut encoder).unwrap();
    let compressed = encoder.finish().unwrap();
    let limits = ImageLimits { maximum_expanded_bytes: 4 * 1024, ..ImageLimits::default() };
    assert!(validate_layer(&compressed, GZIP, &limits).is_err());
}

fn layer_file(path: &[u8], size: u64) -> LayerEntry {
    LayerEntry {
        path: path.to_vec(),
        kind: EntryKind::File,
        size: Ok(size),
        link: Ok(None),
        extensions: Vec::new(),
    }
}

#[test]
fn layers_are_counted_together() {
    let limits = ImageLimits {
        maximum_entries: 3,
        maximum_expanded_bytes: 100,
        ..ImageLimits::default()
    };
    let first = LayerAudit::new(LayerBudget::default())
        .accept(&layer_file(b"a", 40), &limits)
        .unwrap()
        .accept(&layer_file(b"b", 40), &limits)
        .unwrap()
        .finish(90)
        .unwrap();
    assert_eq!(first, LayerBudget { entries: 2, logical_bytes: 80, decoded_bytes: 90 });
    assert_eq!(decoded_allowance(&limits, &first).unwrap(), 10);
    assert!(LayerAudit::new(first).accept(&layer_file(b"a", 21), &limits).is_err());
    let second = LayerAudit::new(first).accept(&layer_file(b"a", 20), &limits).unwrap();
    assert!(second.accept(&layer_file(b"c", 0), &limits).is_err());
    let spent = LayerBudget { decoded_bytes: 101, ..first };
    assert!(decoded_allowance(&limits, &spent).is_err());
}

#[test]
fn removals_are_empty_files() {
    let limits = ImageLimits::default();
    assert!(is_whiteout(b"etc/.wh.removed"));
    assert!(!is_whiteout(b"etc/.wh."));
    let audit = || LayerAudit::new(LayerBudget::default());
    assert!(audit().accept(&layer_file(b"etc/.wh.removed", 1), &limits).is_err());
    let mut directory = layer_file(b"etc/.wh.removed", 0);
    directory.kind = EntryKind::Directory;
    assert!(audit().accept(&directory, &limits).is_err());
    assert!(matches!(check_deadline(true), Err(SandboxError::Timeout(_))));
    assert!(layer_coding("application/octet-stream").is_err());
}

#[test]
fn rejects_duplicate_layers_and_oversized_images() {
    let limits = ImageLimits::default();
    let mut locked = image();
    assert!(validate_locked_image(&locked, &limits).is_ok());
    let repeated = locked.layers[0].clone();
    locked.layers.push(repeated);
    assert!(validate_locked_image(&locked, &limits).is_err());

    let mut locked = image();
    locked.layers[0].size = limits.maximum_compressed_bytes + 1;
    assert!(validate_locked_image(&locked, &limits).is_err());
}

#[test]
fn rejects_platform_and_digest_identity_mismatches() {
    let limits = ImageLimits::default();
    let mut wrong_platform = image();
    wrong_platform.architecture = "arm64".to_owned();
    wrong_platform.variant = Some("../../host".to_owned());
    assert!(validate_platform(&wrong_platform, &ImagePlatform::linux_amd64()).is_err());

    let mut wrong_manifest = image();
    wrong_manifest.manifest.digest = format!("sha256:{}", "9".repeat(64));
    assert!(validate_locked_image(&wrong_manifest, &limits).is_err());

    let mut wrong_config = image();
    wrong_config.config.digest = format!("sha256:{}", "8".repeat(64));
    assert!(validate_locked_image(&wrong_config, &limits).is_err());
}

#[test]
fn mountinfo_octal_paths_decode() {
    assert_eq!(decode_mount_path("/tmp/a\\040b").unwrap(), b"/tmp/a b");
    assert!(decode_mount_path("/tmp/invalid\\xx").is_err());
}

#[test]
fn the_mount_table_tells_how_a_path_is_mounted() {
    let table = "36 35 98:0 / /mnt/a\\040b ro,noatime - ext4 /dev/root rw\n\
                 37 35 98:0 / /mnt/c rw,noatime - ext4 /dev/root rw\n";
    assert_eq!(mount_state(table, b"/mnt/a b").unwrap(), Some(true));
    assert_eq!(mount_state(table, b"/mnt/c").unwrap(), Some(false));
    assert_eq!(mount_state(table, b"/mnt/d").unwrap(), None);
    assert!(mount_is_read_only(table, b"/mnt/a b").unwrap());
    assert!(!mount_is_read_only(table, b"/mnt/c").unwrap());
}

#[test]
fn a_provider_needs_a_sound_host() {
    assert!(open(configuration(), host()).is_ok());
    let wrong = ProviderHost { client_is_file: false, ..host() };
    assert!(reason(open(configuration(), wrong)).contains("is not a regular file"));
    let wrong = ProviderHost { address_is_socket: false, ..host() };
    assert!(reason(open(configuration(), wrong)).contains("is not a Unix socket"));
    let wrong = ProviderHost { worker: 0, ..host() };
    assert!(reason(open(configuration(), wrong)).contains("owned by the worker UID"));
    let mut relative = configuration();
    relative.mount_root = "images".to_owned();
    assert!(reason(open(relative, host())).contains("must be absolute"));
    let mut unnamed = configuration();
    unnamed.namespace = "../other".to_owned();
    assert!(reason(open(unnamed, host())).contains("is not a bounded identifier"));
    let mut unbounded = configuration();
    unbounded.limits.maximum_layers = 0;
    assert!(reason(open(unbounded, host())).contains("limits are invalid"));
}

#[test]
fn the_client_is_asked_for_the_namespace_of_the_provider() {
    let provider = provider();
    assert_eq!(
        provider.record_arguments("example.test/app:latest"),
        ["images", "list", "name==example.test/app:latest"]
    );
    assert!(provider.create_namespace_arguments(b"default\nsandboxd\n").is_none());
    assert!(provider.create_namespace_arguments(b"default\nother\n").is_some());
    let image = image();
    assert!(provider.check_unpacked(&image, b"").is_err());
    assert_eq!(
        containerd_reference(&image).unwrap(),
        format!("example.test/app@{}", image.manifest.digest)
    );
    assert_eq!(digest_key(&image.manifest.digest).unwrap(), "1".repeat(64));
    assert!(digest_key("sha256:short").is_err());
}

#[test]
fn an_image_is_verified_before_it_is_unpacked() {
    let provider = provider();
    assert_eq!(
        begin_pull(&provider, &image()).unwrap(),
        PullProgress::Next(PullStage::Probe)
    );
    let missing = || Err(SandboxError::ImageProvider("missing".to_owned()));
    assert_eq!(
        advance_pull(PullStage::Probe, Ok(())).unwrap(),
        PullProgress::Done(PreparationStatus::Reused)
    );
    let order = [
        PullStage::Credentials,
        PullStage::Fetch,
        PullStage::Verify,
        PullStage::Unpack,
        PullStage::Check,
    ];
    let mut progress = advance_pull(PullStage::Probe, missing()).unwrap();
    for stage in order {
        assert_eq!(progress, PullProgress::Next(stage));
        assert!(advance_pull(stage, missing()).is_err());
        progress = advance_pull(stage, Ok(())).unwrap();
    }
    assert_eq!(progress, PullProgress::Done(PreparationStatus::Prepared));
}

fn measurement() -> RootfsMeasurement {
    RootfsMeasurement { digest: format!("sha256:{}", "4".repeat(64)), entries: 2, bytes: 7 }
}

/// Mounts an image that nothing is in the way of but a busy client.
fn mounted(
    provider: &ContainerdImageProvider,
    handle: &PreparedImageHandle,
    rootfs: &str,
) -> Result<ImmutableRootfs, SandboxError> {
    let events = vec![
        MountEvent::Completed(Ok(())),
        MountEvent::Present(false),
        MountEvent::Completed(Ok(())),
        MountEvent::Completed(Err(SandboxError::ImageProvider("bucket already exists".to_owned()))),
        MountEvent::Resumed,
        MountEvent::Completed(Ok(())),
        MountEvent::Resolved(Ok(rootfs.to_owned())),
        MountEvent::Completed(Ok(())),
        MountEvent::ReadOnly(Ok(true)),
        MountEvent::Recorded(Ok(None)),
        MountEvent::Measured(Ok(measurement())),
        MountEvent::Completed(Ok(())),
        MountEvent::Completed(Ok(())),
    ];
    let mut state = begin_mount(provider, handle);
    for event in events {
        assert!(!matches!(state, MountState::Done(_)));
        state = advance_mount(provider, handle, state, event);
    }
    match state {
        MountState::Done(result) => result,
        other => panic!("{other:?}"),
    }
}

/// A provider that notes what it is asked to do, and fails at one step.
struct Recorder {
    provider: ContainerdImageProvider,
    fails_at: &'static str,
    calls: Mutex<Vec<&'static str>>,
}

impl Recorder {
    fn at(fails_at: &'static str) -> Self {
        Recorder { provider: provider(), fails_at, calls: Mutex::new(Vec::new()) }
    }

    fn note(&self, call: &'static str) -> Result<(), SandboxError> {
        self.calls.lock().unwrap().push(call);
        if call == self.fails_at {
            return Err(SandboxError::ImageProvider(format!("{call} fails")));
        }
        Ok(())
    }

    fn called(&self) -> Vec<&'static str> {
        self.calls.lock().unwrap().clone()
    }
}

impl ImageProvider for Recorder {
    fn resolve(
        &self,
        _source: &str,
        _credential: Option<&RegistryCredential>,
    ) -> Result<LockedImage, SandboxError> {
        Ok(image())
    }

    fn pull(
        &self,
        _image: &LockedImage,
        _credential: Option<&RegistryCredential>,
    ) -> Result<PreparationStatus, SandboxError> {
        self.note("pull").map(|()| PreparationStatus::Prepared)
    }

    fn verify(&self, _image: &LockedImage) -> Result<(), SandboxError> {
        self.note("verify")
    }

    fn unpack(&self, _image: &LockedImage) -> Result<(), SandboxError> {
        self.note("unpack")
    }

    fn activate(&self, image: &LockedImage) -> Result<PreparedImageHandle, SandboxError> {
        self.note("activate")?;
        self.provider.activate(image)
    }

    fn mount(&self, handle: &PreparedImageHandle) -> Result<ImmutableRootfs, SandboxError> {
        self.note("mount")?;
        mounted(&self.provider, handle, "/var/lib/sandboxd/images/active/rootfs")
    }

    fn release(&self, _rootfs: &ImmutableRootfs) -> Result<(), SandboxError> {
        Ok(())
    }

    fn garbage_collect(&self) -> Result<GarbageCollectionReport, SandboxError> {
        Ok(GarbageCollectionReport::new(0))
    }
}

#[test]
fn an_image_is_prepared_step_by_step() {
    let steps = ["pull", "verify", "unpack", "activate", "mount"];
    let sound = Recorder::at("nothing");
    let (status, rootfs) = sound.prepare(&image(), None).unwrap();
    assert_eq!(status, PreparationStatus::Prepared);
    assert_eq!(rootfs.rootfs(), "/var/lib/sandboxd/images/active/rootfs");
    assert_eq!(sound.called(), steps);
    for (at, step) in steps.into_iter().enumerate() {
        let failing = Recorder::at(step);
        assert_eq!(
            reason(failing.prepare(&image(), None).map(|_| ())),
            format!("OCI image provider failed: {step} fails")
        );
        assert_eq!(failing.called(), &steps[..=at]);
    }
    let sound = Recorder::at("nothing");
    assert!(sound.admit_image(&image()).is_ok());
    assert_eq!(sound.called(), &steps[1..]);
    let failing = Recorder::at("verify");
    assert!(failing.admit_image(&image()).is_err());
    assert_eq!(failing.called(), ["verify"]);
}

#[test]
fn a_process_is_killed_at_its_deadline() {
    assert!(matches!(judge_wait(Polled::Ended, true), Wait::Ended));
    assert!(matches!(judge_wait(Polled::Running, false), Wait::Pause));
    assert!(matches!(judge_wait(Polled::Running, true), Wait::Kill));
    let lost = || SandboxError::ImageProvider("lost".to_owned());
    assert!(matches!(judge_wait(Polled::Failed(lost()), false), Wait::Fail(_)));
    let timeout = || SandboxError::Timeout("run".to_owned());
    assert!(matches!(judge_kill(Ok(()), timeout()), SandboxError::Timeout(_)));
    assert!(matches!(judge_kill(Err(lost()), timeout()), SandboxError::ImageProvider(_)));
}

#[test]
fn a_mounted_image_is_read_only_and_measured() {
    let provider = provider();
    let handle = provider.activate(&image()).expect("handle");
    let rootfs = "/var/lib/sandboxd/images/active/rootfs";
    let mounted = mounted(&provider, &handle, rootfs).expect("a root file system");
    assert_eq!(mounted.rootfs(), rootfs);
    assert_eq!(mounted.rootfs_entries(), 2);
    assert_eq!(mounted.rootfs_bytes(), 7);
    let metadata = ProviderMetadata::from_rootfs(&mounted);
    assert!(metadata.matches(mounted.provider(), mounted.activation_key(), &image()));
    assert!(!metadata.matches("other", mounted.activation_key(), &image()));
    assert!(provider.check_release(&mounted, rootfs).is_ok());
    assert!(provider.check_release(&mounted, "/elsewhere").is_err());
    let limits = &provider.config().limits;
    assert!(mounted.rootfs_entries() <= limits.maximum_entries);
    assert!(mounted.rootfs_bytes() <= limits.maximum_expanded_bytes);
    let again = provider
        .rootfs_from_metadata(&handle, &metadata, rootfs.to_owned(), true)
        .expect("the activation is used again");
    assert_eq!(again.rootfs_digest(), mounted.rootfs_digest());
    let mut large = ProviderMetadata::from_rootfs(&mounted);
    large.rootfs_bytes = limits.maximum_expanded_bytes + 1;
    assert!(provider.rootfs_from_metadata(&handle, &large, rootfs.to_owned(), true).is_err());
}

#[test]
fn a_writable_mount_is_undone() {
    let provider = provider();
    let handle = provider.activate(&image()).expect("handle");
    let state = MountState::Check { rootfs: "/var/lib/sandboxd/images/active/rootfs".to_owned() };
    let undo = advance_mount(&provider, &handle, state, MountEvent::ReadOnly(Ok(false)));
    assert!(matches!(undo, MountState::Undo { .. }));
    let done = advance_mount(&provider, &handle, undo, MountEvent::Completed(Ok(())));
    match done {
        MountState::Done(Err(error)) => {
            assert!(error.message().contains("without read-only enforcement"))
        }
        other => panic!("{other:?}"),
    }
    let escaped = advance_mount(
        &provider,
        &handle,
        MountState::Resolve,
        MountEvent::Resolved(Ok("/etc".to_owned())),
    );
    assert!(matches!(escaped, MountState::Undo { .. }));
}

fn manifest_bytes(config: &[u8]) -> Vec<u8> {
    format!(
        "{{\"schemaVersion\":2,\"mediaType\":\"application/vnd.oci.image.manifest.v1+json\",\
         \"config\":{{\"mediaType\":\"application/vnd.oci.image.config.v1+json\",\"digest\":\"{}\",\"size\":{}}},\
         \"layers\":[{{\"mediaType\":\"{}\",\"digest\":\"sha256:{}\",\"size\":100}}]}}",
        identity(config),
        config.len(),
        GZIP,
        "3".repeat(64)
    )
    .into_bytes()
}

fn index_bytes(manifest: &[u8], platforms: &[(&str, &str)]) -> Vec<u8> {
    let entries: Vec<String> = platforms
        .iter()
        .map(|(system, architecture)| {
            format!(
                "{{\"mediaType\":\"application/vnd.oci.image.manifest.v1+json\",\"digest\":\"{}\",\"size\":{},\
                 \"platform\":{{\"os\":\"{system}\",\"architecture\":\"{architecture}\"}}}}",
                identity(manifest),
                manifest.len()
            )
        })
        .collect();
    format!(
        "{{\"schemaVersion\":2,\"mediaType\":\"application/vnd.oci.image.index.v1+json\",\"manifests\":[{}]}}",
        entries.join(",")
    )
    .into_bytes()
}

const CONFIG: &[u8] = b"{\"architecture\":\"amd64\",\"os\":\"linux\"}";

fn resolve(replies: Vec<Vec<u8>>) -> Result<LockedImage, SandboxError> {
    let provider = provider();
    let mut resolution = Resolution::start("example.test/app:latest", None)?;
    for reply in replies {
        match resolution.advance(&provider, Ok(reply))? {
            ResolutionProgress::Next(next) => resolution = next,
            ResolutionProgress::Done(image) => return Ok(image),
        }
    }
    panic!("the resolution is not done")
}

fn listing(media_type: &str, top: &[u8]) -> Vec<u8> {
    format!(
        "REF TYPE DIGEST SIZE PLATFORMS LABELS\n\
         example.test/app:latest {media_type} {} 1KiB linux/amd64 -\n",
        identity(top)
    )
    .into_bytes()
}

#[test]
fn a_reference_is_resolved_to_exact_content() {
    let manifest = manifest_bytes(CONFIG);
    let index = index_bytes(&manifest, &[("linux", "arm64"), ("linux", "amd64")]);
    let image = resolve(vec![
        Vec::new(),
        listing("application/vnd.oci.image.index.v1+json", &index),
        index.clone(),
        manifest.clone(),
        CONFIG.to_vec(),
    ])
    .expect("image");
    assert_eq!(image.source, "example.test/app:latest");
    assert_eq!(image.exact_reference, format!("example.test/app@{}", identity(&manifest)));
    assert_eq!(image.image_id, identity(CONFIG));
    assert_eq!(image.manifest.digest, identity(&manifest));
    assert_eq!(image.index.as_ref().unwrap().digest, identity(&index));
    assert_eq!(image.layers.len(), 1);
    validate_locked_image(&image, &ImageLimits::default()).expect("valid image");

    let provider = provider();
    let next = verify_descriptor_graph(&provider, &image, GraphStage::Manifest, Ok(manifest.clone()));
    assert!(matches!(next, Ok(GraphProgress::Next(GraphStage::Config))));
    let wrong = verify_descriptor_graph(&provider, &image, GraphStage::Manifest, Ok(index));
    assert!(wrong.is_err());
}

#[test]
fn changed_content_is_not_resolved() {
    let manifest = manifest_bytes(CONFIG);
    let mut changed = manifest.clone();
    changed.push(b' ');
    let refused = resolve(vec![
        Vec::new(),
        listing("application/vnd.oci.image.manifest.v1+json", &manifest),
        changed,
    ]);
    assert!(refused.is_err());
    let index = index_bytes(&manifest, &[("linux", "arm64")]);
    let foreign = resolve(vec![
        Vec::new(),
        listing("application/vnd.oci.image.index.v1+json", &index),
        index.clone(),
    ]);
    assert!(foreign.is_err());
}

#[test]
fn a_resolution_first_fetches_the_source() {
    let provider = provider();
    let resolution = Resolution::start("example.test/app:latest", None).unwrap();
    match resolution.request(&provider, None) {
        ClientRequest::Run { arguments, operation, .. } => {
            assert_eq!(arguments[0], "content");
            assert_eq!(operation, "resolve OCI metadata through containerd");
        }
        other => panic!("{other:?}"),
    }
}

#[test]
fn content_is_held_to_its_digest() {
    let digest = identity(b"content");
    assert!(check_content(&digest, b"content").is_ok());
    assert!(check_content(&digest, b"changed").is_err());
    assert!(verified_content(&digest, 7, b"content").is_ok());
    assert!(verified_content(&digest, 8, b"content").is_err());
    assert!(check_announced(&digest, 7, 7).is_ok());
    assert!(check_announced(&digest, 8, 7).is_err());
    let observed = BlobDigest { digest: digest.clone(), bytes: 7 };
    assert!(check_inspected(&digest, 7, &observed).is_ok());
    assert!(check_inspected(&digest, 6, &observed).is_err());
    let mut buffer = MetadataBuffer::new(4);
    assert!(buffer.push(b"test").is_ok());
    assert!(buffer.push(b"x").is_err());
    assert!(ensure_success(Some(0), "run", b"", false).is_ok());
    let told = reason(ensure_success(Some(3), "run", b"bad \xff output", true));
    assert!(told.contains("run") && told.contains("bad \u{fffd} output"));
}

fn rootfs_entry(path: &[u8], kind: RootfsEntryKind) -> RootfsEntry {
    RootfsEntry { path: path.to_vec(), has_attributes: false, mode: 0o100_644, kind }
}

#[test]
fn a_root_file_system_is_measured_entry_by_entry() {
    let limits = ImageLimits { maximum_expanded_bytes: 7, ..ImageLimits::default() };
    let link = || rootfs_entry(b"link", RootfsEntryKind::Symlink { target: b"file".to_vec() });
    let measured = RootfsMeter::new(&limits)
        .enter(&rootfs_entry(b"file", RootfsEntryKind::File { size: 7 }))
        .unwrap()
        .push(b"content")
        .enter(&link())
        .unwrap()
        .finish();
    assert_eq!(measured.entries, 2);
    assert_eq!(measured.bytes, 7);
    let mut framed = Vec::new();
    framed.extend_from_slice(b"file\0");
    framed.extend_from_slice(&0o100_644_u32.to_le_bytes());
    framed.extend_from_slice(b"file");
    framed.extend_from_slice(&7_u64.to_le_bytes());
    framed.extend_from_slice(b"content");
    framed.extend_from_slice(b"link\0");
    framed.extend_from_slice(&0o100_644_u32.to_le_bytes());
    framed.extend_from_slice(b"symlinkfile");
    assert_eq!(measured.digest, identity(&framed));

    let special = rootfs_entry(b"fifo", RootfsEntryKind::Special);
    assert!(RootfsMeter::new(&limits).enter(&special).is_err());
    let mut attributed = link();
    attributed.has_attributes = true;
    assert!(RootfsMeter::new(&limits).enter(&attributed).is_err());
    let large = rootfs_entry(b"large", RootfsEntryKind::File { size: 8 });
    assert!(RootfsMeter::new(&limits).enter(&large).is_err());
    let few = ImageLimits { maximum_entries: 1, ..ImageLimits::default() };
    let full = RootfsMeter::new(&few).enter(&link()).unwrap();
    assert!(reason(full.enter(&link()).map(|_| ())).contains("rootfs exceeds the entry limit"));
    assert!(collect_path(&limits, 0, limits.maximum_path_bytes).is_ok());
    assert!(collect_path(&limits, 0, limits.maximum_path_bytes + 1).is_err());
    assert!(collect_path(&limits, limits.maximum_entries, 1).is_err());
}

#[test]
fn the_runtime_files_are_made_where_they_are_missing() {
    assert!(!needs_etc(Standing::Directory).unwrap());
    assert!(needs_etc(Standing::Nothing).unwrap());
    assert!(needs_etc(Standing::File).is_err());
    assert!(!needs_runtime_file("hosts", Standing::File).unwrap());
    assert!(needs_runtime_file("hosts", Standing::Nothing).unwrap());
    assert!(needs_runtime_file("hosts", Standing::Other).is_err());
}

#[test]
fn collections_are_counted() {
    let report = GarbageCollectionReport::new(3).removed(true).removed(false);
    assert_eq!(report.stale_staging_directories, 2);
    assert_eq!(report.stale_mounts, 1);
    assert_eq!(report.stale_writable_roots, 3);
}

fn measure_rootfs(
    entries: &[RootfsEntry],
    contents: &[&[u8]],
    limits: &ImageLimits,
) -> Result<RootfsMeasurement, SandboxError> {
    for (index, entry) in entries.iter().enumerate() {
        collect_path(limits, index, entry.path.len())?;
    }
    let mut meter = RootfsMeter::new(limits);
    for (entry, content) in entries.iter().zip(contents) {
        meter = meter.enter(entry)?.push(content);
    }
    Ok(meter.finish())
}

#[test]
fn rootfs_scan_rejects_special_files_and_bounds_paths() {
    let entries = [
        rootfs_entry(b"file", RootfsEntryKind::File { size: 7 }),
        rootfs_entry(b"link", RootfsEntryKind::Symlink { target: b"file".to_vec() }),
    ];
    let contents: [&[u8]; 2] = [b"content", b""];
    let measured = measure_rootfs(&entries, &contents, &ImageLimits::default()).unwrap();
    assert_eq!(measured.entries, 2);
    assert_eq!(measured.bytes, 7);

    let limits = ImageLimits { maximum_path_bytes: 2, ..ImageLimits::default() };
    assert!(measure_rootfs(&entries, &contents, &limits).is_err());
}

#[test]
fn rootfs_corpus_rejects_special_files_xattrs_and_sparse_expansion() {
    let special = [rootfs_entry(b"guest-fifo", RootfsEntryKind::Special)];
    assert!(measure_rootfs(&special, &[b""], &ImageLimits::default()).is_err());

    let mut attributed = rootfs_entry(b"capability", RootfsEntryKind::File { size: 7 });
    attributed.has_attributes = true;
    assert!(measure_rootfs(&[attributed], &[b"content"], &ImageLimits::default()).is_err());

    let sparse = [rootfs_entry(b"sparse", RootfsEntryKind::File { size: 1_024 * 1_024 })];
    let limits = ImageLimits { maximum_expanded_bytes: 1_024, ..ImageLimits::default() };
    assert!(measure_rootfs(&sparse, &[b""], &limits).is_err());
}

#[test]
fn rootfs_corpus_hashes_symlinks_without_following_them() {
    let target = b"../../../../etc/passwd".to_vec();
    let escape = [rootfs_entry(b"escape", RootfsEntryKind::Symlink { target })];
    let measured = measure_rootfs(&escape, &[b""], &ImageLimits::default()).unwrap();
    assert_eq!(measured.entries, 1);
    assert_eq!(measured.bytes, 0);
}

#[test]
fn the_client_is_given_exact_arguments() {
    let provider = provider();
    let image = image();
    let exact = image.exact_reference.as_str();
    assert_eq!(provider.list_namespaces_arguments(), ["namespaces", "list", "--quiet"]);
    assert_eq!(
        provider.fetch_arguments(&image, None).unwrap(),
        [
            "content",
            "fetch",
            "--platform",
            "linux/amd64",
            "--label",
            "runtrue.io/managed=true",
            exact,
            exact
        ]
    );
    assert_eq!(
        provider.pull_arguments(&image, None).unwrap(),
        [
            "images",
            "pull",
            "--local",
            "--sync-fs",
            "--max-concurrent-downloads",
            "3",
            "--platform",
            "linux/amd64",
            "--snapshotter",
            "overlayfs",
            "--label",
            "runtrue.io/managed=true",
            exact
        ]
    );
    let hosted = provider.pull_arguments(&image, Some("/run/hosts")).unwrap();
    assert!(hosted.contains(&"/run/hosts".to_owned()));
    assert_eq!(hosted.last().map(String::as_str), Some(exact));
    let name = format!("name=={exact}");
    assert_eq!(
        provider.check_arguments(&image).unwrap(),
        ["images", "check", "--quiet", "--snapshotter", "overlayfs", name.as_str()]
    );
    assert_eq!(
        provider.mount_arguments(&image, "/mnt/rootfs").unwrap(),
        [
            "images",
            "mount",
            "--rw",
            "--snapshotter",
            "overlayfs",
            "--platform",
            "linux/amd64",
            exact,
            "/mnt/rootfs"
        ]
    );
    assert_eq!(
        provider.unmount_arguments("/mnt/rootfs"),
        ["images", "unmount", "--snapshotter", "overlayfs", "--rm", "/mnt/rootfs"]
    );
    let mut loose = image;
    loose.exact_reference = "example.test/app:latest".to_owned();
    assert!(reason(provider.fetch_arguments(&loose, None)).contains("is not pinned"));
    assert!(provider.pull_arguments(&loose, None).is_err());
    assert!(provider.check_arguments(&loose).is_err());
    assert!(provider.mount_arguments(&loose, "/mnt/rootfs").is_err());
}

#[test]
fn activations_are_kept_apart() {
    let provider = provider();
    assert!(provider.activation_directory("key").ends_with("/key"));
    assert_eq!(
        provider.measurement_path("key"),
        "/var/lib/sandboxd/images/measurements/key.json"
    );
    assert!(stale_staging(b".credentials-abc"));
    assert!(!stale_staging(b"credentials-abc"));
    assert_eq!(pause_length(Duration::from_secs(1)).nanoseconds, 100_000_000);
    assert_eq!(pause_length(Duration { nanoseconds: 7 }).nanoseconds, 7);
    assert!(check_image_deadline(false).is_ok());
    assert!(matches!(check_image_deadline(true), Err(SandboxError::Timeout(_))));
}

#[test]
fn a_fixed_image_is_all_that_a_provider_serves() {
    let mut config = configuration();
    config.fixed_rootfs = Some(FixedRootfsConfig {
        rootfs: "/srv/rootfs".to_owned(),
        topology_lock: "/srv/topology.lock".to_owned(),
        measurement: None,
    });
    let fixed = open(config, host()).expect("provider");
    assert!(reason(fixed.ensure_resolvable("example.test/app")).contains("cannot resolve"));
    assert!(provider().ensure_resolvable("example.test/app").is_ok());
    let requests = [
        WritableRequest::Create,
        WritableRequest::Release,
        WritableRequest::Export,
        WritableRequest::Restore,
    ];
    for request in requests {
        assert!(matches!(
            fixed.ensure_writable_roots(request),
            Err(SandboxError::Unsupported(_))
        ));
        assert!(provider().ensure_writable_roots(request).is_ok());
    }
    assert!(fixed.activate(&image()).is_ok());
    let mut other = image();
    other.source = "example.test/other:latest".to_owned();
    assert!(fixed.activate(&other).is_err());
}

#[test]
fn a_locked_graph_is_read_within_its_limits() {
    let provider = provider();
    let image = image();
    assert!(graph_request(&provider, &image, GraphStage::Index).unwrap().is_none());
    let (digest, maximum) =
        graph_request(&provider, &image, GraphStage::Manifest).unwrap().expect("manifest");
    assert_eq!(digest, image.manifest.digest);
    assert_eq!(maximum, ImageLimits::default().maximum_manifest_bytes);
    let mut large = image;
    large.manifest.size = maximum + 1;
    assert!(graph_request(&provider, &large, GraphStage::Manifest).is_err());
}

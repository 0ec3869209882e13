use sandboxd::byteset::ByteSet;
use sandboxd::digest::{hash, identity, valid_digest, valid_hash};
use sandboxd::json::{decode, Json};
use sandboxd::oci::docker::{join_words, Docker, ImageInspect};
use sandboxd::oci::prepared::{
    advance_prepare, check_identity, check_integrity, check_location, check_program_file,
    check_program_path, check_reference, check_tree_entries, create_arguments, export_arguments,
    extract_arguments, image_key, remove_arguments, PrepareEvent, PrepareState, PreparedImage,
    TreeDigest, TreeMeter,
};
use sandboxd::oci::provider::rootfs::{RootfsEntry, RootfsEntryKind};
use sandboxd::oci::SandboxError;
use sandboxd::paths::{join, sort_paths};
use sandboxd::table::{rank, Rank, Table};
use sandboxd::text::{contains_text, decimal_text, join3, pieces, same};
use sandboxd::time::Duration;

#[test]
fn digests_are_those_of_sha256() {
    let empty = "e3b0c44298fc1c149afbf4c8996fb92427ae41e4649b934ca495991b7852b855";
    assert_eq!(hash(b""), empty);
    assert_eq!(identity(b""), format!("sha256:{empty}"));
    assert_ne!(hash(b"a"), hash(b"b"));
    assert!(valid_hash(empty));
    assert!(valid_digest(&identity(b"a")));
    assert!(!valid_digest(empty));
    assert!(!valid_hash(&empty.to_uppercase()));
}

#[test]
fn documents_are_decoded() {
    let value = decode(b"{\"a\": [1, null, true], \"b\": {\"c\": \"text\"}}").expect("document");
    let items = value.get("a").and_then(Json::as_array).expect("array");
    assert_eq!(items.len(), 3);
    assert_eq!(items[0].as_u64(), Some(1));
    assert!(items[1].is_null());
    assert_eq!(value.get("b").and_then(|inner| inner.get_str("c")), Some("text"));
    assert!(value.get("missing").is_none());
    assert!(decode(b"{").is_err());
    assert!(decode(b"\xff").is_err());
}

#[test]
fn tables_keep_their_rows_in_order() {
    let mut table = Table::new();
    assert!(table.is_empty());
    assert!(table.insert("b".to_owned(), 2).is_none());
    assert!(table.insert("a".to_owned(), 1).is_none());
    assert_eq!(table.insert("b".to_owned(), 3), Some(2));
    assert_eq!(table.len(), 2);
    assert_eq!(table.key(0), "a");
    assert_eq!(table.get("b"), Some(&3));
    assert_eq!(table.remove("a"), Some(1));
    assert!(!table.contains("a"));
    assert_eq!(table.into_rows(), vec![("b".to_owned(), 3)]);
    assert_eq!(rank(b"a", b"ab"), Rank::Before);
    assert_eq!(rank(b"b", b"ab"), Rank::After);
    assert_eq!(rank(b"", b""), Rank::Same);
    let mut set = ByteSet::new();
    assert!(set.insert(b"a".to_vec()));
    assert!(!set.insert(b"a".to_vec()));
    assert!(set.contains(b"a") && !set.contains(b"b"));
}

#[test]
fn text_is_put_together_and_taken_apart() {
    assert!(same("a", "a") && !same("a", "b"));
    assert_eq!(join3("a", "b", "c"), "abc");
    assert_eq!(decimal_text(0), "0");
    assert_eq!(decimal_text(u64::MAX), "18446744073709551615");
    assert!(contains_text("already exists", "exists"));
    assert!(!contains_text("already", "exists"));
    let parts: Vec<&[u8]> = vec![b"a", b"", b"b"];
    assert_eq!(pieces(b"a//b", b'/'), parts);
    assert_eq!(join("/root", "name"), "/root/name");
    assert_eq!(
        sort_paths(vec![b"b".to_vec(), b"a/c".to_vec(), b"a".to_vec()]),
        vec![b"a".to_vec(), b"a/c".to_vec(), b"b".to_vec()]
    );
}

#[test]
fn lengths_of_time_are_bounded() {
    assert!(Duration::from_secs(0).is_zero());
    assert!(Duration::from_secs(300).is_within(300));
    assert!(!Duration::from_millis(300_001).is_within(300));
    assert!(!Duration::from_secs(0).is_within(300));
    assert_eq!(Duration::from_secs(2).as_millis(), 2_000);
}

fn docker() -> Docker {
    Docker::new("/usr/bin/docker", "/usr/bin/docker".to_owned(), true).expect("docker")
}

#[test]
fn docker_is_a_regular_file() {
    assert_eq!(docker().program(), "/usr/bin/docker");
    assert!(Docker::new("/usr/bin", "/usr/bin".to_owned(), false).is_err());
    assert!(Docker::new("docker", "/usr/bin/docker".to_owned(), true).is_err());
    let arguments = docker().inspect_arguments("app:1");
    assert!(arguments.contains(&"app:1".to_owned()));
    assert_eq!(join_words(&vec!["a".to_owned(), "b".to_owned()]), "a b");
    assert!(docker().checked(&arguments, Some(0), b"").is_ok());
    match docker().checked(&arguments, Some(1), b"no such \xff image") {
        Err(SandboxError::Docker(reason)) => assert!(reason.contains("no such \u{fffd} image")),
        _ => panic!("a failed command"),
    }
    assert!(matches!(docker().timeout_error(&arguments), SandboxError::Timeout(_)));
    let found = || ImageInspect {
        id: identity(b"config"),
        repo_digests: vec![format!("app@{}", identity(b"manifest"))],
        os: "linux".to_owned(),
        architecture: "amd64".to_owned(),
    };
    assert!(docker().image_inspect("app:1", vec![found()]).is_ok());
    assert!(docker().image_inspect("app:1", Vec::new()).is_err());
    assert!(docker().image_inspect("app:1", vec![found(), found()]).is_err());
}

fn tree(digest: &str) -> TreeDigest {
    TreeDigest { digest: digest.to_owned(), entries: 1, bytes: 1 }
}

#[test]
fn a_prepared_image_is_measured_and_kept() {
    let image_id = identity(b"config");
    let reference = format!("app@{}", identity(b"manifest"));
    let advance = |state, event| advance_prepare(&reference, "/store/prepared", state, event);
    let state = advance(PrepareState::Inspect, PrepareEvent::Inspected(Ok(image_id.clone())));
    assert!(!matches!(state, PrepareState::Done(_)));
    let failed = advance(
        PrepareState::Inspect,
        PrepareEvent::Inspected(Err(SandboxError::Docker("missing".to_owned()))),
    );
    assert!(matches!(failed, PrepareState::Done(Err(SandboxError::Docker(_)))));
    assert_eq!(image_key(&image_id).unwrap(), hash(b"config"));
    assert!(image_key("config").is_err());
    let metadata = PreparedImage {
        schema_version: 1,
        exact_reference: reference.clone(),
        image_id,
        export_digest: identity(b"export"),
        rootfs_digest: identity(b"rootfs"),
        rootfs_entries: 1,
        rootfs_bytes: 1,
    };
    assert!(check_integrity(&metadata, &tree(&identity(b"rootfs"))).is_ok());
    assert!(check_integrity(&metadata, &tree(&identity(b"other"))).is_err());
}

#[test]
fn a_tree_is_measured_entry_by_entry() {
    let entry = |size| RootfsEntry {
        path: b"file".to_vec(),
        has_attributes: false,
        mode: 0o100_644,
        kind: RootfsEntryKind::File { size },
    };
    let measured = TreeMeter::new().enter(&entry(4)).unwrap().push(b"data").leave().finish(1);
    assert_eq!((measured.entries, measured.bytes), (1, 4));
    assert!(valid_digest(&measured.digest));
    let other = TreeMeter::new().enter(&entry(4)).unwrap().push(b"date").leave().finish(1);
    assert_ne!(measured.digest, other.digest);
    assert!(TreeMeter::new().enter(&entry(17_179_869_185)).is_err());
}

#[test]
fn an_image_is_exported_by_exact_arguments() {
    assert_eq!(docker().version_arguments(), ["version", "--format", "{{.Server.Version}}"]);
    assert_eq!(create_arguments("example.test/app"), ["create", "example.test/app"]);
    assert_eq!(
        export_arguments("/tmp/root.tar", "container-a"),
        ["export", "--output", "/tmp/root.tar", "container-a"]
    );
    assert_eq!(remove_arguments("container-a"), ["rm", "container-a"]);
    assert_eq!(
        extract_arguments("/tmp/root.tar", "/tmp/root"),
        [
            "--extract",
            "--file",
            "/tmp/root.tar",
            "--directory",
            "/tmp/root",
            "--no-same-owner",
            "--numeric-owner"
        ]
    );
}

#[test]
fn a_prepared_image_is_held_to_its_place_and_identity() {
    assert!(check_program_path("/usr/bin/tar", "tar").is_ok());
    assert!(check_program_path("usr/bin/tar", "tar").is_err());
    assert!(check_program_path("/usr/bin/bsdtar", "tar").is_err());
    assert!(check_program_file(true, "tar").is_ok());
    assert!(check_program_file(false, "tar").is_err());
    assert!(check_reference("example.test/app@sha256:00").is_ok());
    assert!(check_reference("example.test/app:latest").is_err());
    assert!(check_location("/srv/images", "/srv/images/key/rootfs", true).is_ok());
    assert!(check_location("/srv/images", "/srv/imagesque/rootfs", true).is_err());
    assert!(check_location("/srv/images", "/srv/images/key/rootfs", false).is_err());
    assert!(check_tree_entries(0).is_ok());
    assert!(check_tree_entries(usize::MAX).is_err());
    let prepared = PreparedImage {
        schema_version: 1,
        exact_reference: "example.test/app@sha256:00".to_owned(),
        image_id: "sha256:11".to_owned(),
        export_digest: "sha256:22".to_owned(),
        rootfs_digest: "sha256:33".to_owned(),
        rootfs_entries: 1,
        rootfs_bytes: 2,
    };
    assert!(check_identity(&prepared, "sha256:11", "example.test/app@sha256:00").is_ok());
    assert!(check_identity(&prepared, "sha256:12", "example.test/app@sha256:00").is_err());
    assert!(check_identity(&prepared, "sha256:11", "example.test/app@sha256:01").is_err());
}

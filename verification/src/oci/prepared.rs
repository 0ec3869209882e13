//! Images that are exported once and checked whenever they are loaded.

use crate::bytes;
use crate::checks;
use crate::digest;
use crate::digest::{valid_digest, Hasher};
use crate::lines;
use crate::lines::{chars_of, lossy_text, text_of, trim};
use crate::oci::error;
use crate::oci::error::{SandboxError, SandboxFailure};
use crate::oci::provider::config;
use crate::oci::provider::config::{absolute, below};
use crate::oci::provider::rootfs::{RootfsEntry, RootfsEntryKind};
use crate::paths;
use crate::text;
use crate::text::{join2, join3, join5};
use vstd::prelude::*;

verus! {

pub const PREPARED_SCHEMA_VERSION: u32 = 1;

pub const MAX_TREE_ENTRIES: usize = 500_000;

pub const MAX_TREE_BYTES: u64 = 17179869184;

/// What is kept of a prepared image.
#[derive(Debug, Clone, PartialEq, Eq)]
pub struct PreparedImage {
    pub schema_version: u32,
    pub exact_reference: String,
    pub image_id: String,
    pub export_digest: String,
    pub rootfs_digest: String,
    pub rootfs_entries: usize,
    pub rootfs_bytes: u64,
}

/// A `PreparedImage` with its texts read as character sequences.
#[verifier::ext_equal]
pub struct PreparedText {
    pub schema_version: u32,
    pub exact_reference: Seq<char>,
    pub image_id: Seq<char>,
    pub export_digest: Seq<char>,
    pub rootfs_digest: Seq<char>,
    pub rootfs_entries: usize,
    pub rootfs_bytes: u64,
}

impl View for PreparedImage {
    type V = PreparedText;

    open spec fn view(&self) -> PreparedText {
        PreparedText {
            schema_version: self.schema_version,
            exact_reference: self.exact_reference@,
            image_id: self.image_id@,
            export_digest: self.export_digest@,
            rootfs_digest: self.rootfs_digest@,
            rootfs_entries: self.rootfs_entries,
            rootfs_bytes: self.rootfs_bytes,
        }
    }
}

/// What was measured of a prepared root file system.
#[derive(Debug, PartialEq, Eq)]
pub struct TreeDigest {
    pub digest: String,
    pub entries: usize,
    pub bytes: u64,
}

/// A `TreeDigest` with its texts read as character sequences.
pub struct TreeText {
    pub digest: Seq<char>,
    pub entries: usize,
    pub bytes: u64,
}

impl View for TreeDigest {
    type V = TreeText;

    open spec fn view(&self) -> TreeText {
        TreeText { digest: self.digest@, entries: self.entries, bytes: self.bytes }
    }
}

/// Accepts a program by its path and its name.
pub fn check_program_path(path: &str, expected: &str) -> (r: Result<(), SandboxError>)
    ensures
        error::outcome(r) == checks::verdict(
            checks::when(
                !config::is_absolute(path@) || paths::last_name(text::utf8(path@)) != Some(
                    text::utf8(expected@),
                ),
                SandboxFailure::Lock(
                    expected@ + " program must be an absolute `"@ + expected@ + "` path"@ + ""@,
                ),
            ),
        ),
{
    let parts = paths::component_list(path.as_bytes());
    proof {
        let all = paths::components(text::utf8(path@));
        if all.len() > 0 {
            assert(all.last() == parts@.last()@);
        }
        assert(paths::strings(parts@).len() == parts@.len());
    }
    let named = match paths::name_of(&parts) {
        Some(name) => text::same_bytes(name.as_slice(), expected.as_bytes()),
        None => false,
    };
    if !absolute(path) || !named {
        return Err(
            SandboxError::Lock(
                join5(expected, " program must be an absolute `", expected, "` path", ""),
            ),
        );
    }
    Ok(())
}

/// Accepts a program that is a file.
pub fn check_program_file(is_file: bool, expected: &str) -> (r: Result<(), SandboxError>)
    ensures
        error::outcome(r) == checks::verdict(
            checks::when(
                !is_file,
                SandboxFailure::Lock(expected@ + " program is not a regular file"@),
            ),
        ),
{
    if !is_file {
        return Err(SandboxError::Lock(join2(expected, " program is not a regular file")));
    }
    Ok(())
}

/// Accepts a reference that names a digest.
pub fn check_reference(reference: &str) -> (r: Result<(), SandboxError>)
    ensures
        error::outcome(r) == checks::verdict(
            checks::when(
                !text::has_part(text::utf8(reference@), text::utf8("@sha256:"@)),
                SandboxFailure::Unsupported(
                    "direct image preparation requires an exact sha256 repository reference"@,
                ),
            ),
        ),
{
    if !text::contains_text(reference, "@sha256:") {
        return Err(
            SandboxError::Unsupported(
                "direct image preparation requires an exact sha256 repository reference".to_owned(),
            ),
        );
    }
    Ok(())
}

/// Why an image identifier makes no key.
pub open spec fn key_failure(image_id: Seq<char>) -> Option<SandboxFailure> {
    checks::or(
        checks::when(
            !text::begins_with(text::utf8(image_id), text::utf8("sha256:"@)),
            SandboxFailure::Lock("prepared image ID is not sha256"@),
        ),
        checks::when(
            !digest::is_identity(image_id),
            SandboxFailure::Lock("prepared image ID has invalid sha256 syntax"@),
        ),
    )
}

/// The hash of an image identifier, by which its export is kept.
pub fn image_key(image_id: &str) -> (r: Result<String, SandboxError>)
    ensures
        match r {
            Ok(key) => key_failure(image_id@) is None && image_id@ == "sha256:"@ + key@
                && digest::is_hash(key@),
            Err(error) => key_failure(image_id@) == Some(error@),
        },
{
    if !text::starts_with(image_id, "sha256:") {
        return Err(SandboxError::Lock("prepared image ID is not sha256".to_owned()));
    }
    if !valid_digest(image_id) {
        return Err(SandboxError::Lock("prepared image ID has invalid sha256 syntax".to_owned()));
    }
    proof {
        digest::lemma_prefix();
        assert(text::utf8(image_id@)[6] == text::utf8(image_id@).subrange(0, 7)[6]);
        assert(text::beside_ascii(text::utf8(image_id@), 7));
    }
    let (prefix, key) = text::split_text(image_id, 7);
    proof {
        text::lemma_utf8_injective(prefix@, "sha256:"@);
        assert(text::utf8(image_id@).subrange(7, 71) == text::utf8(key@));
    }
    Ok(key.to_owned())
}

/// What the host is to do next to prepare an image.
#[allow(inconsistent_fields)]
#[derive(Debug)]
pub enum PrepareState {
    /// Ask about the image.
    Inspect,
    /// Ask about the image again.
    Confirm { image_id: String },
    /// Look whether the export is there.
    Store { image_id: String, key: String },
    /// Create a container.
    Container { image_id: String },
    /// Export the container.
    Export { image_id: String, container: String },
    /// Remove the container.
    Remove { image_id: String, container: String, exported: Result<(), SandboxError> },
    /// Hash the archive.
    Hash { image_id: String },
    /// Extract the archive.
    Extract { image_id: String, export_digest: String },
    /// Measure the root file system.
    Measure { image_id: String, export_digest: String },
    /// Keep the image.
    Keep { image: PreparedImage },
    /// Nothing more.
    Done(Result<PreparedImage, SandboxError>),
}

/// A `PrepareState` with its texts read as character sequences.
#[allow(inconsistent_fields)]
pub enum PrepareText {
    Inspect,
    Confirm { image_id: Seq<char> },
    Store { image_id: Seq<char>, key: Seq<char> },
    Container { image_id: Seq<char> },
    Export { image_id: Seq<char>, container: Seq<char> },
    Remove { image_id: Seq<char>, container: Seq<char>, exported: Result<(), SandboxFailure> },
    Hash { image_id: Seq<char> },
    Extract { image_id: Seq<char>, export_digest: Seq<char> },
    Measure { image_id: Seq<char>, export_digest: Seq<char> },
    Keep { image: PreparedText },
    Done(Result<PreparedText, SandboxFailure>),
}

impl View for PrepareState {
    type V = PrepareText;

    open spec fn view(&self) -> PrepareText {
        match *self {
            PrepareState::Inspect => PrepareText::Inspect,
            PrepareState::Confirm { image_id } => PrepareText::Confirm { image_id: image_id@ },
            PrepareState::Store { image_id, key } => PrepareText::Store {
                image_id: image_id@,
                key: key@,
            },
            PrepareState::Container { image_id } => PrepareText::Container { image_id: image_id@ },
            PrepareState::Export { image_id, container } => PrepareText::Export {
                image_id: image_id@,
                container: container@,
            },
            PrepareState::Remove { image_id, container, exported } => PrepareText::Remove {
                image_id: image_id@,
                container: container@,
                exported: error::outcome(exported),
            },
            PrepareState::Hash { image_id } => PrepareText::Hash { image_id: image_id@ },
            PrepareState::Extract { image_id, export_digest } => PrepareText::Extract {
                image_id: image_id@,
                export_digest: export_digest@,
            },
            PrepareState::Measure { image_id, export_digest } => PrepareText::Measure {
                image_id: image_id@,
                export_digest: export_digest@,
            },
            PrepareState::Keep { image } => PrepareText::Keep { image: image@ },
            PrepareState::Done(result) => PrepareText::Done(error::seen(result)),
        }
    }
}

/// What the host has done or found.
#[derive(Debug)]
pub enum PrepareEvent {
    /// The identifier of the image.
    Inspected(Result<String, SandboxError>),
    /// Whether the export is there.
    Present(Result<bool, SandboxError>),
    /// What the client printed.
    Printed(Result<Vec<u8>, SandboxError>),
    Completed(Result<(), SandboxError>),
    /// The digest of the archive.
    Hashed(Result<String, SandboxError>),
    /// Whether the extraction succeeded, and its diagnostics.
    Extracted(Result<(bool, Vec<u8>), SandboxError>),
    Measured(Result<TreeDigest, SandboxError>),
}

/// A `PrepareEvent` with its texts read as character sequences.
pub enum PrepareEventText {
    Inspected(Result<Seq<char>, SandboxFailure>),
    Present(Result<bool, SandboxFailure>),
    Printed(Result<Seq<u8>, SandboxFailure>),
    Completed(Result<(), SandboxFailure>),
    Hashed(Result<Seq<char>, SandboxFailure>),
    Extracted(Result<(bool, Seq<u8>), SandboxFailure>),
    Measured(Result<TreeText, SandboxFailure>),
}

impl View for PrepareEvent {
    type V = PrepareEventText;

    open spec fn view(&self) -> PrepareEventText {
        match *self {
            PrepareEvent::Inspected(result) => PrepareEventText::Inspected(error::seen(result)),
            PrepareEvent::Present(result) => PrepareEventText::Present(error::outcome(result)),
            PrepareEvent::Printed(result) => PrepareEventText::Printed(error::seen(result)),
            PrepareEvent::Completed(result) => PrepareEventText::Completed(error::outcome(result)),
            PrepareEvent::Hashed(result) => PrepareEventText::Hashed(error::seen(result)),
            PrepareEvent::Extracted(result) => PrepareEventText::Extracted(
                match result {
                    Ok(found) => Ok((found.0, found.1@)),
                    Err(error) => Err(error@),
                },
            ),
            PrepareEvent::Measured(result) => PrepareEventText::Measured(error::seen(result)),
        }
    }
}

/// The image that was prepared.
pub open spec fn prepared(
    reference: Seq<char>,
    image_id: Seq<char>,
    export_digest: Seq<char>,
    tree: TreeText,
) -> PreparedText {
    PreparedText {
        schema_version: PREPARED_SCHEMA_VERSION,
        exact_reference: reference,
        image_id,
        export_digest,
        rootfs_digest: tree.digest,
        rootfs_entries: tree.entries,
        rootfs_bytes: tree.bytes,
    }
}

/// What the host is to do after an event, to prepare `reference` at `destination`. An event
/// that the state does not wait for changes nothing.
pub open spec fn prepare_step(
    reference: Seq<char>,
    destination: Seq<char>,
    state: PrepareText,
    event: PrepareEventText,
) -> PrepareText {
    match (state, event) {
        (PrepareText::Inspect, PrepareEventText::Inspected(Ok(image_id))) => PrepareText::Confirm {
            image_id,
        },
        (PrepareText::Inspect, PrepareEventText::Inspected(Err(error))) => PrepareText::Done(
            Err(error),
        ),
        (PrepareText::Confirm { image_id }, PrepareEventText::Inspected(Ok(again))) => {
            if again != image_id {
                PrepareText::Done(
                    Err(
                        SandboxFailure::Docker(
                            "image `"@ + reference + "` changed during preparation"@,
                        ),
                    ),
                )
            } else {
                match key_failure(image_id) {
                    Some(failure) => PrepareText::Done(Err(failure)),
                    None => PrepareText::Store {
                        image_id,
                        key: image_id.skip("sha256:"@.len() as int),
                    },
                }
            }
        },
        (PrepareText::Confirm { .. }, PrepareEventText::Inspected(Err(error))) => PrepareText::Done(
            Err(error),
        ),
        (PrepareText::Store { image_id, .. }, PrepareEventText::Present(Ok(present))) => {
            if present {
                PrepareText::Done(
                    Err(
                        SandboxFailure::Docker(
                            "prepared image `"@ + destination + "` already exists"@,
                        ),
                    ),
                )
            } else {
                PrepareText::Container { image_id }
            }
        },
        (PrepareText::Store { .. }, PrepareEventText::Present(Err(error))) => PrepareText::Done(
            Err(error),
        ),
        (PrepareText::Container { image_id }, PrepareEventText::Printed(Ok(output))) => {
            let container = lines::trimmed(lines::lossy(output));
            if text::utf8(container).len() == 0 {
                PrepareText::Done(
                    Err(SandboxFailure::Docker("docker create did not return a container ID"@)),
                )
            } else {
                PrepareText::Export { image_id, container }
            }
        },
        (PrepareText::Container { .. }, PrepareEventText::Printed(Err(error))) => PrepareText::Done(
            Err(error),
        ),
        (PrepareText::Export { image_id, container }, PrepareEventText::Completed(exported)) => {
            PrepareText::Remove { image_id, container, exported }
        },
        (
            PrepareText::Remove { image_id, exported, .. },
            PrepareEventText::Completed(removed),
        ) => match (exported, removed) {
            (Err(error), _) => PrepareText::Done(Err(error)),
            (_, Err(error)) => PrepareText::Done(Err(error)),
            (Ok(()), Ok(())) => PrepareText::Hash { image_id },
        },
        (PrepareText::Hash { image_id }, PrepareEventText::Hashed(Ok(export_digest))) => {
            PrepareText::Extract { image_id, export_digest }
        },
        (PrepareText::Hash { .. }, PrepareEventText::Hashed(Err(error))) => PrepareText::Done(
            Err(error),
        ),
        (
            PrepareText::Extract { image_id, export_digest },
            PrepareEventText::Extracted(Ok(found)),
        ) => if found.0 {
            PrepareText::Measure { image_id, export_digest }
        } else {
            PrepareText::Done(
                Err(
                    SandboxFailure::Docker(
                        "rootfs extraction failed: "@ + lines::trimmed(lines::lossy(found.1)),
                    ),
                ),
            )
        },
        (PrepareText::Extract { .. }, PrepareEventText::Extracted(Err(error))) => {
            PrepareText::Done(Err(error))
        },
        (
            PrepareText::Measure { image_id, export_digest },
            PrepareEventText::Measured(Ok(tree)),
        ) => PrepareText::Keep { image: prepared(reference, image_id, export_digest, tree) },
        (PrepareText::Measure { .. }, PrepareEventText::Measured(Err(error))) => PrepareText::Done(
            Err(error),
        ),
        (PrepareText::Keep { image }, PrepareEventText::Completed(Ok(()))) => PrepareText::Done(
            Ok(image),
        ),
        (PrepareText::Keep { .. }, PrepareEventText::Completed(Err(error))) => PrepareText::Done(
            Err(error),
        ),
        (state, _) => state,
    }
}

fn confirmed(reference: &str, image_id: String, again: String) -> (r: PrepareState)
    ensures
        r@ == prepare_step(
            reference@,
            Seq::empty(),
            PrepareText::Confirm { image_id: image_id@ },
            PrepareEventText::Inspected(Ok(again@)),
        ),
{
    if !text::same(again.as_str(), image_id.as_str()) {
        return PrepareState::Done(
            Err(
                SandboxError::Docker(
                    join3("image `", reference, "` changed during preparation"),
                ),
            ),
        );
    }
    match image_key(image_id.as_str()) {
        Err(error) => PrepareState::Done(Err(error)),
        Ok(key) => {
            proof {
                let prefix = "sha256:"@;
                assert(key@ =~= (prefix + key@).skip(prefix.len() as int));
            }
            PrepareState::Store { image_id, key }
        },
    }
}

fn trimmed_output(output: &[u8]) -> (r: String)
    ensures
        r@ == lines::trimmed(lines::lossy(output@)),
{
    let decoded = lossy_text(output);
    let chars = chars_of(decoded.as_str());
    text_of(trim(chars.as_slice()))
}

/// Takes what the host has done or found.
pub fn advance_prepare(
    reference: &str,
    destination: &str,
    state: PrepareState,
    event: PrepareEvent,
) -> (r: PrepareState)
    ensures
        r@ == prepare_step(reference@, destination@, state@, event@),
{
    match (state, event) {
        (PrepareState::Inspect, PrepareEvent::Inspected(result)) => match result {
            Ok(image_id) => PrepareState::Confirm { image_id },
            Err(error) => PrepareState::Done(Err(error)),
        },
        (PrepareState::Confirm { image_id }, PrepareEvent::Inspected(result)) => match result {
            Ok(again) => confirmed(reference, image_id, again),
            Err(error) => PrepareState::Done(Err(error)),
        },
        (PrepareState::Store { image_id, key: _ }, PrepareEvent::Present(result)) => match result {
            Ok(true) => PrepareState::Done(
                Err(
                    SandboxError::Docker(
                        join3("prepared image `", destination, "` already exists"),
                    ),
                ),
            ),
            Ok(false) => PrepareState::Container { image_id },
            Err(error) => PrepareState::Done(Err(error)),
        },
        (PrepareState::Container { image_id }, PrepareEvent::Printed(result)) => match result {
            Ok(output) => {
                let container = trimmed_output(output.as_slice());
                if container.as_str().as_bytes().len() == 0 {
                    PrepareState::Done(
                        Err(
                            SandboxError::Docker(
                                "docker create did not return a container ID".to_owned(),
                            ),
                        ),
                    )
                } else {
                    PrepareState::Export { image_id, container }
                }
            },
            Err(error) => PrepareState::Done(Err(error)),
        },
        (PrepareState::Export { image_id, container }, PrepareEvent::Completed(exported)) => {
            PrepareState::Remove { image_id, container, exported }
        },
        (
            PrepareState::Remove { image_id, container: _, exported },
            PrepareEvent::Completed(removed),
        ) => match exported {
            Err(error) => PrepareState::Done(Err(error)),
            Ok(()) => match removed {
                Err(error) => PrepareState::Done(Err(error)),
                Ok(()) => PrepareState::Hash { image_id },
            },
        },
        (PrepareState::Hash { image_id }, PrepareEvent::Hashed(result)) => match result {
            Ok(export_digest) => PrepareState::Extract { image_id, export_digest },
            Err(error) => PrepareState::Done(Err(error)),
        },
        (PrepareState::Extract { image_id, export_digest }, PrepareEvent::Extracted(result)) => {
            match result {
                Ok((succeeded, stderr)) => if succeeded {
                    PrepareState::Measure { image_id, export_digest }
                } else {
                    let detail = trimmed_output(stderr.as_slice());
                    PrepareState::Done(
                        Err(
                            SandboxError::Docker(
                                join2("rootfs extraction failed: ", detail.as_str()),
                            ),
                        ),
                    )
                },
                Err(error) => PrepareState::Done(Err(error)),
            }
        },
        (PrepareState::Measure { image_id, export_digest }, PrepareEvent::Measured(result)) => {
            match result {
                Ok(tree) => PrepareState::Keep {
                    image: PreparedImage {
                        schema_version: PREPARED_SCHEMA_VERSION,
                        exact_reference: reference.to_owned(),
                        image_id,
                        export_digest,
                        rootfs_digest: tree.digest,
                        rootfs_entries: tree.entries,
                        rootfs_bytes: tree.bytes,
                    },
                },
                Err(error) => PrepareState::Done(Err(error)),
            }
        },
        (PrepareState::Keep { image }, PrepareEvent::Completed(result)) => match result {
            Ok(()) => PrepareState::Done(Ok(image)),
            Err(error) => PrepareState::Done(Err(error)),
        },
        (state, _) => state,
    }
}

/// A container that was created is removed whatever its export came to: an export is followed
/// by the removal alone.
pub proof fn law_containers_are_removed(
    reference: Seq<char>,
    destination: Seq<char>,
    image_id: Seq<char>,
    container: Seq<char>,
    event: PrepareEventText,
)
    ensures
        ({
            let state = PrepareText::Export { image_id, container };
            let next = prepare_step(reference, destination, state, event);
            next == state || (next is Remove && next->Remove_container == container)
        }),
{
}

/// The arguments that create a container.
pub fn create_arguments(reference: &str) -> (r: Vec<String>)
    ensures
        text::texts(r@) == seq!["create"@, reference@],
{
    let parts = vec!["create", reference];
    proof {
        assert(text::borrowed(parts@) =~= seq!["create"@, reference@]);
    }
    text::owned(parts)
}

/// The arguments that export a container.
pub fn export_arguments(archive: &str, container: &str) -> (r: Vec<String>)
    ensures
        text::texts(r@) == seq!["export"@, "--output"@, archive@, container@],
{
    let parts = vec!["export", "--output", archive, container];
    proof {
        assert(text::borrowed(parts@) =~= seq!["export"@, "--output"@, archive@, container@]);
    }
    text::owned(parts)
}

/// The arguments that remove a container.
pub fn remove_arguments(container: &str) -> (r: Vec<String>)
    ensures
        text::texts(r@) == seq!["rm"@, container@],
{
    let parts = vec!["rm", container];
    proof {
        assert(text::borrowed(parts@) =~= seq!["rm"@, container@]);
    }
    text::owned(parts)
}

/// The arguments that extract an archive.
pub fn extract_arguments(archive: &str, rootfs: &str) -> (r: Vec<String>)
    ensures
        text::texts(r@) == seq![
            "--extract"@,
            "--file"@,
            archive@,
            "--directory"@,
            rootfs@,
            "--no-same-owner"@,
            "--numeric-owner"@,
        ],
{
    let parts = vec![
        "--extract",
        "--file",
        archive,
        "--directory",
        rootfs,
        "--no-same-owner",
        "--numeric-owner",
    ];
    proof {
        assert(text::borrowed(parts@) =~= seq![
            "--extract"@,
            "--file"@,
            archive@,
            "--directory"@,
            rootfs@,
            "--no-same-owner"@,
            "--numeric-owner"@,
        ]);
    }
    text::owned(parts)
}

/// Why the metadata is not of the image that was asked for.
pub open spec fn identity_failure(
    metadata: PreparedText,
    image_id: Seq<char>,
    exact_reference: Seq<char>,
) -> Option<SandboxFailure> {
    checks::when(
        metadata.schema_version != PREPARED_SCHEMA_VERSION || metadata.image_id != image_id
            || metadata.exact_reference != exact_reference,
        SandboxFailure::Lock("prepared image identity does not match the topology lock"@),
    )
}

/// Accepts the metadata of the image that was asked for.
pub fn check_identity(metadata: &PreparedImage, image_id: &str, exact_reference: &str) -> (r:
    Result<(), SandboxError>)
    ensures
        error::outcome(r) == checks::verdict(
            identity_failure(metadata@, image_id@, exact_reference@),
        ),
{
    if metadata.schema_version != PREPARED_SCHEMA_VERSION || !text::same(
        metadata.image_id.as_str(),
        image_id,
    ) || !text::same(metadata.exact_reference.as_str(), exact_reference) {
        return Err(
            SandboxError::Lock(
                "prepared image identity does not match the topology lock".to_owned(),
            ),
        );
    }
    Ok(())
}

/// Accepts a root file system that lies in the store.
pub fn check_location(store: &str, rootfs: &str, is_directory: bool) -> (r: Result<
    (),
    SandboxError,
>)
    ensures
        error::outcome(r) == checks::verdict(
            checks::when(
                !((rootfs@ == store@ || config::lies_below(
                    text::utf8(store@),
                    text::utf8(rootfs@),
                )) && is_directory),
                SandboxFailure::Lock("prepared rootfs escaped the image store"@),
            ),
        ),
{
    if !(text::same(rootfs, store) || below(store, rootfs)) || !is_directory {
        return Err(SandboxError::Lock("prepared rootfs escaped the image store".to_owned()));
    }
    Ok(())
}

/// Why what was observed is not what was prepared.
pub open spec fn integrity_failure(metadata: PreparedText, observed: TreeText) -> Option<
    SandboxFailure,
> {
    checks::when(
        observed.digest != metadata.rootfs_digest || observed.entries != metadata.rootfs_entries
            || observed.bytes != metadata.rootfs_bytes,
        SandboxFailure::Lock("prepared rootfs integrity check failed"@),
    )
}

/// Accepts what is still as it was prepared.
pub fn check_integrity(metadata: &PreparedImage, observed: &TreeDigest) -> (r: Result<
    (),
    SandboxError,
>)
    ensures
        error::outcome(r) == checks::verdict(integrity_failure(metadata@, observed@)),
{
    if !text::same(observed.digest.as_str(), metadata.rootfs_digest.as_str()) || observed.entries
        != metadata.rootfs_entries || observed.bytes != metadata.rootfs_bytes {
        return Err(SandboxError::Lock("prepared rootfs integrity check failed".to_owned()));
    }
    Ok(())
}

/// A prepared image loads again as long as its root file system measures the same.
pub proof fn law_prepared_image_loads_back(
    reference: Seq<char>,
    image_id: Seq<char>,
    export_digest: Seq<char>,
    tree: TreeText,
)
    ensures
        identity_failure(
            prepared(reference, image_id, export_digest, tree),
            image_id,
            reference,
        ) is None,
        forall|observed: TreeText|
            integrity_failure(
                prepared(reference, image_id, export_digest, tree),
                observed,
            ) is None <==> observed == tree,
{
}

/// Refuses more entries than allowed.
pub fn check_tree_entries(entries: usize) -> (r: Result<(), SandboxError>)
    ensures
        error::outcome(r) == checks::verdict(
            checks::when(
                entries > MAX_TREE_ENTRIES,
                SandboxFailure::Lock("prepared rootfs has too many entries"@),
            ),
        ),
{
    if entries > MAX_TREE_ENTRIES {
        return Err(SandboxError::Lock("prepared rootfs has too many entries".to_owned()));
    }
    Ok(())
}

/// Why an entry is refused behind files of `total` bytes.
pub open spec fn tree_failure(total: u64, entry: RootfsEntry) -> Option<SandboxFailure> {
    match entry.kind {
        RootfsEntryKind::Directory => None,
        RootfsEntryKind::Symlink { .. } => None,
        RootfsEntryKind::File { size } => checks::or(
            checks::when(
                total + size > u64::MAX,
                SandboxFailure::Lock("prepared rootfs size overflow"@),
            ),
            checks::when(
                total + size > MAX_TREE_BYTES,
                SandboxFailure::Lock("prepared rootfs exceeds the byte bound"@),
            ),
        ),
        RootfsEntryKind::Special => Some(
            SandboxFailure::Lock(
                "prepared rootfs contains a special file `"@ + lines::lossy(entry.path@) + "`"@,
            ),
        ),
    }
}

/// The measurement of a prepared root file system. The view is what it has taken in.
pub struct TreeMeter {
    hasher: Hasher,
    bytes: u64,
}

impl View for TreeMeter {
    type V = Seq<u8>;

    closed spec fn view(&self) -> Seq<u8> {
        digest::absorbed(self.hasher)
    }
}

impl TreeMeter {
    /// The bytes of the files so far.
    pub closed spec fn total(self) -> u64 {
        self.bytes
    }

    pub fn new() -> (r: Self)
        ensures
            r@ == Seq::<u8>::empty(),
            r.total() == 0,
    {
        TreeMeter { hasher: Hasher::new(), bytes: 0 }
    }

    /// Takes in the next entry, or says why the root file system is refused.
    pub fn enter(self, entry: &RootfsEntry) -> (r: Result<Self, SandboxError>)
        ensures
            match r {
                Ok(meter) => {
                    &&& tree_failure(self.total(), *entry) is None
                    &&& meter@ == self@ + entry.framing()
                    &&& meter.total() == self.total() + entry.size()
                },
                Err(error) => tree_failure(self.total(), *entry) == Some(error@),
            },
    {
        let TreeMeter { mut hasher, mut bytes } = self;
        let mut frame: Vec<u8> = text::copy_bytes(entry.path.as_slice());
        frame.push(0);
        bytes::push_le32(&mut frame, entry.mode);
        proof {
            assert(frame@ =~= entry.path@ + seq![0u8] + bytes::le32(entry.mode));
        }
        match &entry.kind {
            RootfsEntryKind::Directory => {
                frame.extend_from_slice("dir".as_bytes());
            },
            RootfsEntryKind::Symlink { target } => {
                frame.extend_from_slice("symlink".as_bytes());
                frame.extend_from_slice(target.as_slice());
            },
            RootfsEntryKind::File { size } => {
                frame.extend_from_slice("file".as_bytes());
                bytes::push_le64(&mut frame, *size);
                bytes = match bytes.checked_add(*size) {
                    Some(sum) => sum,
                    None => {
                        return Err(SandboxError::Lock("prepared rootfs size overflow".to_owned()));
                    },
                };
                if bytes > MAX_TREE_BYTES {
                    return Err(
                        SandboxError::Lock("prepared rootfs exceeds the byte bound".to_owned()),
                    );
                }
            },
            RootfsEntryKind::Special => {
                let shown = lossy_text(entry.path.as_slice());
                return Err(
                    SandboxError::Lock(
                        join3("prepared rootfs contains a special file `", shown.as_str(), "`"),
                    ),
                );
            },
        }
        proof {
            assert(frame@ =~= entry.framing());
        }
        hasher.update(frame.as_slice());
        Ok(TreeMeter { hasher, bytes })
    }

    /// Takes in content of the file that was entered last.
    pub fn push(self, chunk: &[u8]) -> (r: Self)
        ensures
            r@ == self@ + chunk@,
            r.total() == self.total(),
    {
        let TreeMeter { mut hasher, bytes } = self;
        hasher.update(chunk);
        TreeMeter { hasher, bytes }
    }

    /// Ends the entry that was entered last.
    pub fn leave(self) -> (r: Self)
        ensures
            r@ == self@ + seq![0xffu8],
            r.total() == self.total(),
    {
        let mut end: Vec<u8> = Vec::new();
        end.push(0xff);
        proof {
            assert(end@ =~= seq![0xffu8]);
        }
        self.push(end.as_slice())
    }

    /// The measurement of `entries` entries.
    pub fn finish(self, entries: usize) -> (r: TreeDigest)
        ensures
            r.digest@ == digest::identity_text(self@),
            r.entries == entries,
            r.bytes == self.total(),
    {
        TreeDigest { digest: self.hasher.identity(), entries, bytes: self.bytes }
    }
}

/// A preparation in which nothing fails asks about the image twice, finds nothing in its place,
/// exports a container and removes it, hashes and extracts the archive, measures what came of it,
/// and ends with the image that was asked for, as it was measured.
pub proof fn law_preparations_take_their_course(
    reference: Seq<char>,
    destination: Seq<char>,
    image_id: Seq<char>,
    output: Seq<u8>,
    export_digest: Seq<char>,
    diagnostics: Seq<u8>,
    tree: TreeText,
)
    requires
        key_failure(image_id) is None,
        text::utf8(lines::trimmed(lines::lossy(output))).len() > 0,
    ensures
        ({
            let container = lines::trimmed(lines::lossy(output));
            let asked = prepare_step(
                reference,
                destination,
                PrepareText::Inspect,
                PrepareEventText::Inspected(Ok(image_id)),
            );
            let confirmed = prepare_step(
                reference,
                destination,
                asked,
                PrepareEventText::Inspected(Ok(image_id)),
            );
            let absent = prepare_step(
                reference,
                destination,
                confirmed,
                PrepareEventText::Present(Ok(false)),
            );
            let created = prepare_step(
                reference,
                destination,
                absent,
                PrepareEventText::Printed(Ok(output)),
            );
            let exported = prepare_step(
                reference,
                destination,
                created,
                PrepareEventText::Completed(Ok(())),
            );
            let removed = prepare_step(
                reference,
                destination,
                exported,
                PrepareEventText::Completed(Ok(())),
            );
            let hashed = prepare_step(
                reference,
                destination,
                removed,
                PrepareEventText::Hashed(Ok(export_digest)),
            );
            let extracted = prepare_step(
                reference,
                destination,
                hashed,
                PrepareEventText::Extracted(Ok((true, diagnostics))),
            );
            let measured = prepare_step(
                reference,
                destination,
                extracted,
                PrepareEventText::Measured(Ok(tree)),
            );
            let image = PreparedText {
                schema_version: 1,
                exact_reference: reference,
                image_id,
                export_digest,
                rootfs_digest: tree.digest,
                rootfs_entries: tree.entries,
                rootfs_bytes: tree.bytes,
            };
            &&& asked is Confirm
            &&& confirmed is Store
            &&& absent is Container
            &&& created == (PrepareText::Export { image_id, container })
            &&& exported is Remove && exported->Remove_container == container
            &&& removed is Hash
            &&& hashed is Extract
            &&& extracted is Measure
            &&& measured == (PrepareText::Keep { image })
            &&& prepare_step(
                reference,
                destination,
                measured,
                PrepareEventText::Completed(Ok(())),
            ) == PrepareText::Done(Ok(image))
        }),
{
}

/// What fails ends a preparation with its failure: each question and each step, an image that is
/// another when it is asked about again, and one that is there already. A failed export ends it
/// once the container is removed.
pub proof fn law_failures_end_preparations(
    reference: Seq<char>,
    destination: Seq<char>,
    state: PrepareText,
    failure: SandboxFailure,
)
    ensures
        ({
            let ended = PrepareText::Done(Err(failure));
            let step = |event: PrepareEventText|
                prepare_step(reference, destination, state, event);
            &&& state is Inspect || state is Confirm ==> step(
                PrepareEventText::Inspected(Err(failure)),
            ) == ended
            &&& state is Store ==> step(PrepareEventText::Present(Err(failure))) == ended
            &&& state is Container ==> step(PrepareEventText::Printed(Err(failure))) == ended
            &&& state matches PrepareText::Remove { exported: Err(own), .. } ==> step(
                PrepareEventText::Completed(Ok(())),
            ) == PrepareText::Done(Err(own))
            &&& state matches PrepareText::Remove { exported: Ok(_), .. } ==> step(
                PrepareEventText::Completed(Err(failure)),
            ) == ended
            &&& state is Hash ==> step(PrepareEventText::Hashed(Err(failure))) == ended
            &&& state is Extract ==> step(PrepareEventText::Extracted(Err(failure))) == ended
            &&& state is Extract ==> (step(
                PrepareEventText::Extracted(Ok((false, Seq::empty()))),
            ) matches PrepareText::Done(Err(_)))
            &&& state is Measure ==> step(PrepareEventText::Measured(Err(failure))) == ended
            &&& state is Keep ==> step(PrepareEventText::Completed(Err(failure))) == ended
            &&& state is Store ==> (step(
                PrepareEventText::Present(Ok(true)),
            ) matches PrepareText::Done(Err(_)))
            &&& state matches PrepareText::Confirm { image_id } ==> forall|again: Seq<char>|
                again != image_id ==> (#[trigger] prepare_step(
                    reference,
                    destination,
                    state,
                    PrepareEventText::Inspected(Ok(again)),
                ) matches PrepareText::Done(Err(_)))
        }),
{
}

/// Metadata is of the image that is asked for exactly where it is of the first schema and names the
/// identifier and the reference; and an image is as it was prepared exactly where it has the digest,
/// the entries and the bytes.
pub proof fn law_prepared_images_are_identified(
    metadata: PreparedText,
    image_id: Seq<char>,
    exact_reference: Seq<char>,
    observed: TreeText,
)
    ensures
        identity_failure(metadata, image_id, exact_reference) is None <==> metadata.schema_version
            == 1 && metadata.image_id == image_id && metadata.exact_reference == exact_reference,
        integrity_failure(metadata, observed) is None <==> observed.digest == metadata.rootfs_digest
            && observed.entries == metadata.rootfs_entries && observed.bytes
            == metadata.rootfs_bytes,
        key_failure(image_id) is None <==> digest::is_identity(image_id),
{
}

/// An entry of a prepared root is measured exactly where it is a directory, a link, or a file with
/// which the files hold up to 16 GiB.
pub proof fn law_measured_entries_are_bounded(total: u64, entry: RootfsEntry)
    ensures
        tree_failure(total, entry) is None <==> match entry.kind {
            RootfsEntryKind::Directory => true,
            RootfsEntryKind::Symlink { .. } => true,
            RootfsEntryKind::File { size } => total + size <= 17_179_869_184,
            RootfsEntryKind::Special => false,
        },
{
}

/// A prepared image is of the first schema, with at most half a million entries of sixteen gibibytes
/// in all.
pub proof fn law_prepared_trees_are_limited()
    ensures
        PREPARED_SCHEMA_VERSION == 1,
        MAX_TREE_ENTRIES == 500_000,
        MAX_TREE_BYTES == 16 * 1024 * 1024 * 1024,
{
}

/// Each refusal of a prepared image is of its kind.
pub proof fn law_refused_prepared_images_say_why(
    image_id: Seq<char>,
    metadata: PreparedText,
    exact_reference: Seq<char>,
    observed: TreeText,
    total: u64,
    entry: RootfsEntry,
)
    ensures
        !text::begins_with(text::utf8(image_id), text::utf8("sha256:"@)) ==> key_failure(image_id)
            == Some(SandboxFailure::Lock("prepared image ID is not sha256"@)),
        text::begins_with(text::utf8(image_id), text::utf8("sha256:"@)) ==> (key_failure(image_id)
            matches Some(failure) ==> failure == SandboxFailure::Lock(
            "prepared image ID has invalid sha256 syntax"@,
        )),
        identity_failure(metadata, image_id, exact_reference) matches Some(failure) ==> failure
            == SandboxFailure::Lock("prepared image identity does not match the topology lock"@),
        integrity_failure(metadata, observed) matches Some(failure) ==> failure
            == SandboxFailure::Lock("prepared rootfs integrity check failed"@),
        entry.kind is Special ==> tree_failure(total, entry) == Some(
            SandboxFailure::Lock(
                "prepared rootfs contains a special file `"@ + lines::lossy(entry.path@) + "`"@,
            ),
        ),
        entry.kind matches RootfsEntryKind::File { size } ==> (17_179_869_184 < total + size
            <= 0xffff_ffff_ffff_ffff ==> tree_failure(total, entry) == Some(
            SandboxFailure::Lock("prepared rootfs exceeds the byte bound"@),
        )),
{
}

} // verus!

//! Published artifacts: read-only files named by their content.

use crate::byteset::ByteSet;
use crate::checks;
use crate::digest;
use crate::oci::error;
use crate::oci::model::VolumePersistenceClass;
use crate::paths;
use crate::paths::join;
use crate::text;
use crate::text::Alphabet;
use crate::volume::error::{VolumeError, VolumeFailure};
use crate::volume::meter::FileDigest;
use vstd::prelude::*;
use vstd::utf8::*;

verus! {

/// Whether a publication wrote the artifact or found it.
#[derive(Clone, Copy, Debug, PartialEq, Eq, Structural)]
pub enum ArtifactPublicationStatus {
    Published,
    Reused,
}

/// A published artifact.
#[derive(Clone, Debug, PartialEq, Eq)]
pub struct ArtifactPublication {
    pub digest: String,
    pub size_bytes: u64,
    pub status: ArtifactPublicationStatus,
}

/// What a garbage collection of artifacts did.
#[derive(Clone, Copy, Debug, PartialEq, Eq, Structural)]
pub struct ArtifactGarbageCollectionReport {
    pub removed_staging_files: usize,
    pub retained_staging_files: usize,
    pub retained_artifacts: usize,
    pub removed_artifacts: usize,
}

impl Default for ArtifactGarbageCollectionReport {
    fn default() -> (r: Self)
        ensures
            r == (ArtifactGarbageCollectionReport {
                removed_staging_files: 0,
                retained_staging_files: 0,
                retained_artifacts: 0,
                removed_artifacts: 0,
            }),
    {
        ArtifactGarbageCollectionReport {
            removed_staging_files: 0,
            retained_staging_files: 0,
            retained_artifacts: 0,
            removed_artifacts: 0,
        }
    }
}

/// A byte with upper-case letters turned to lower case.
pub open spec fn lowered(byte: u8) -> u8 {
    if text::is_upper(byte) {
        (byte + 32) as u8
    } else {
        byte
    }
}

/// Bytes with upper-case letters turned to lower case.
pub open spec fn lower(bytes: Seq<u8>) -> Seq<u8> {
    Seq::new(bytes.len(), |i: int| lowered(bytes[i]))
}

/// `sha256:` before 64 hexadecimal digits of either case.
pub open spec fn is_artifact_digest(value: Seq<char>) -> bool {
    let bytes = text::utf8(value);
    &&& bytes.len() == 71
    &&& text::begins_with(bytes, text::utf8("sha256:"@))
    &&& text::drawn_from(bytes.subrange(7, 71), Alphabet::Hex)
}

/// The lower-case hexadecimal digits of an artifact digest.
pub open spec fn artifact_hash(value: Seq<char>) -> Seq<u8> {
    lower(text::utf8(value).subrange(7, 71))
}

/// The name of an artifact: the lower-case hexadecimal digits of its digest.
pub fn artifact_name(digest: &str) -> (r: Option<String>)
    ensures
        match r {
            Some(name) => is_artifact_digest(digest@) && text::utf8(name@) == artifact_hash(
                digest@,
            ) && digest::is_hash(name@),
            None => !is_artifact_digest(digest@),
        },
{
    let bytes = digest.as_bytes();
    if bytes.len() != 71 || !text::starts_with(digest, "sha256:") {
        return None;
    }
    let digits = vstd::slice::slice_subrange(bytes, 7, 71);
    if !text::bytes_drawn_from(digits, Alphabet::Hex) {
        return None;
    }
    let mut lowered_digits: Vec<u8> = Vec::new();
    let mut i: usize = 0;
    while i < digits.len()
        invariant
            i <= digits@.len(),
            text::drawn_from(digits@, Alphabet::Hex),
            lowered_digits@ == lower(digits@).take(i as int),
            text::drawn_from(lowered_digits@, Alphabet::LowerHex),
        decreases digits@.len() - i,
    {
        let byte: u8 = digits[i];
        assert(Alphabet::Hex.admits(digits@[i as int]));
        let ghost before = lowered_digits@;
        lowered_digits.push(
            if 65 <= byte && byte <= 90 {
                byte + 32
            } else {
                byte
            },
        );
        proof {
            assert(lowered_digits@ =~= lower(digits@).take(i + 1));
            assert forall|j: int| 0 <= j < lowered_digits@.len() implies Alphabet::LowerHex.admits(
                #[trigger] lowered_digits@[j],
            ) by {
                if j < before.len() {
                    assert(lowered_digits@[j] == before[j]);
                }
            }
        }
        i += 1;
    }
    proof {
        assert(lower(digits@).take(digits@.len() as int) =~= lower(digits@));
        assert forall|j: int| 0 <= j < lowered_digits@.len() implies 0 <= #[trigger] lowered_digits@[j]
            < 128 by {
            assert(Alphabet::LowerHex.admits(lowered_digits@[j]));
        }
        lemma_ascii_is_valid(lowered_digits@);
    }
    text::decode_utf8(lowered_digits)
}

/// ASCII is well-formed UTF-8.
proof fn lemma_ascii_is_valid(bytes: Seq<u8>)
    requires
        forall|i: int| 0 <= i < bytes.len() ==> 0 <= #[trigger] bytes[i] < 128,
    ensures
        valid_utf8(bytes),
{
    let chars = Seq::new(bytes.len(), |i: int| bytes[i] as char);
    assert(is_ascii_chars(chars));
    is_ascii_chars_encode_utf8(chars);
    assert(encode_utf8(chars) =~= bytes);
    encode_utf8_valid_utf8(chars);
}

/// An artifact digest in lower case.
pub open spec fn canonical(value: Seq<char>) -> Seq<u8> {
    text::utf8("sha256:"@) + artifact_hash(value)
}

/// Writes an artifact digest in lower case.
pub fn canonical_artifact_digest(digest: &str) -> (r: Option<String>)
    ensures
        match r {
            Some(value) => is_artifact_digest(digest@) && text::utf8(value@) == canonical(digest@)
                && digest::is_identity(value@),
            None => !is_artifact_digest(digest@),
        },
{
    match artifact_name(digest) {
        Some(name) => {
            proof {
                text::lemma_utf8_concat("sha256:"@, name@);
                digest::lemma_prefixed_hash(name@);
            }
            Some(text::join2("sha256:", name.as_str()))
        },
        None => None,
    }
}

/// Where an artifact lies below the root of a provider.
pub fn artifact_path(root: &str, digest: &str) -> (r: Option<String>)
    ensures
        match r {
            Some(path) => is_artifact_digest(digest@) && exists|name: Seq<char>| #[trigger]
                text::utf8(name) == artifact_hash(digest@) && path@ == paths::joined(
                    paths::joined(root@, "artifacts"@),
                    name,
                ),
            None => !is_artifact_digest(digest@),
        },
{
    match artifact_name(digest) {
        Some(name) => {
            let directory = join(root, "artifacts");
            Some(join(directory.as_str(), name.as_str()))
        },
        None => None,
    }
}

/// Why a published artifact could not be looked up.
pub fn lookup_error(not_found: bool, expected: &str, path: String, source: String) -> (r:
    VolumeError)
    ensures
        r@ == (if not_found {
            VolumeFailure::NotFound(expected@)
        } else {
            VolumeFailure::Io { path: path@, source: source@ }
        }),
{
    if not_found {
        VolumeError::NotFound(expected.to_owned())
    } else {
        VolumeError::Io { path, source }
    }
}

/// A regular file that nobody may write.
pub open spec fn is_immutable(is_file: bool, mode: u32) -> bool {
    is_file && mode & 0o222 == 0
}

/// Accepts the file of a published artifact before it is read, and returns its digest in
/// lower case.
pub fn check_artifact_file(is_file: bool, mode: u32, expected: &str) -> (r: Result<
    String,
    VolumeError,
>)
    ensures
        match r {
            Ok(digest) => is_immutable(is_file, mode) && is_artifact_digest(expected@)
                && text::utf8(digest@) == canonical(expected@),
            Err(error) => if is_immutable(is_file, mode) {
                !is_artifact_digest(expected@) && error@ == VolumeFailure::Integrity(
                    "artifact content digest is malformed"@,
                )
            } else {
                error@ == VolumeFailure::Integrity("artifact must be an immutable regular file"@)
            },
        },
{
    if !is_file || mode & 0o222 != 0 {
        return Err(
            VolumeError::Integrity("artifact must be an immutable regular file".to_owned()),
        );
    }
    match canonical_artifact_digest(expected) {
        Some(digest) => Ok(digest),
        None => Err(VolumeError::Integrity("artifact content digest is malformed".to_owned())),
    }
}

/// Accepts the content of a published artifact whose digest in lower case is `expected`, and
/// returns its size.
pub fn check_artifact_content(expected: &str, actual: &FileDigest) -> (r: Result<u64, VolumeError>)
    ensures
        match r {
            Ok(size) => actual.digest@ == expected@ && size == actual.size_bytes,
            Err(error) => actual.digest@ != expected@ && error@ == VolumeFailure::Integrity(
                "artifact content digest does not match the volume specification"@,
            ),
        },
{
    if !text::same(actual.digest.as_str(), expected) {
        return Err(
            VolumeError::Integrity(
                "artifact content digest does not match the volume specification".to_owned(),
            ),
        );
    }
    Ok(actual.size_bytes)
}

/// Whether the file of a published artifact is to be made readable to all.
pub fn needs_permissions(mode: u32) -> (r: bool)
    ensures
        r == (mode & 0o777 != 0o444),
{
    mode & 0o777 != 0o444
}

/// What is done next to publish an artifact.
#[derive(Debug)]
pub enum PublishState {
    /// Look whether the artifact is there.
    Look,
    /// Verify the artifact that is there.
    Verify,
    /// Copy the source into a staging file.
    Stage,
    /// Write the staging file to disk and make it read-only.
    Seal { size_bytes: u64 },
    /// Give the staging file its name.
    Persist { size_bytes: u64 },
    /// Write the directory to disk.
    Sync { size_bytes: u64, status: ArtifactPublicationStatus },
    /// Nothing more.
    Done(Result<ArtifactPublication, VolumeError>),
}

/// A `PublishState` with its texts read as character sequences.
pub enum PublishText {
    Look,
    Verify,
    Stage,
    Seal { size_bytes: u64 },
    Persist { size_bytes: u64 },
    Sync { size_bytes: u64, status: ArtifactPublicationStatus },
    Done(Result<(Seq<char>, u64, ArtifactPublicationStatus), VolumeFailure>),
}

impl View for PublishState {
    type V = PublishText;

    open spec fn view(&self) -> PublishText {
        match *self {
            PublishState::Look => PublishText::Look,
            PublishState::Verify => PublishText::Verify,
            PublishState::Stage => PublishText::Stage,
            PublishState::Seal { size_bytes } => PublishText::Seal { size_bytes },
            PublishState::Persist { size_bytes } => PublishText::Persist { size_bytes },
            PublishState::Sync { size_bytes, status } => PublishText::Sync { size_bytes, status },
            PublishState::Done(result) => PublishText::Done(
                match result {
                    Ok(publication) => Ok(
                        (publication.digest@, publication.size_bytes, publication.status),
                    ),
                    Err(error) => Err(error@),
                },
            ),
        }
    }
}

/// What the host has done or found.
#[derive(Debug)]
pub enum PublishEvent {
    /// Whether the artifact is there.
    Found(bool),
    /// The size of an artifact that was verified.
    Verified(Result<u64, VolumeError>),
    /// What was copied of the source.
    Staged(Result<FileDigest, VolumeError>),
    /// A step that was done.
    Completed(Result<(), VolumeError>),
    /// The name was taken meanwhile.
    Taken,
}

/// A `PublishEvent` with its texts read as character sequences.
pub enum PublishEventText {
    Found(bool),
    Verified(Result<u64, VolumeFailure>),
    Staged(Result<(Seq<char>, u64), VolumeFailure>),
    Completed(Result<(), VolumeFailure>),
    Taken,
}

impl View for PublishEvent {
    type V = PublishEventText;

    open spec fn view(&self) -> PublishEventText {
        match *self {
            PublishEvent::Found(found) => PublishEventText::Found(found),
            PublishEvent::Verified(result) => PublishEventText::Verified(
                match result {
                    Ok(size) => Ok(size),
                    Err(error) => Err(error@),
                },
            ),
            PublishEvent::Staged(result) => PublishEventText::Staged(
                match result {
                    Ok(staged) => Ok((staged.digest@, staged.size_bytes)),
                    Err(error) => Err(error@),
                },
            ),
            PublishEvent::Completed(result) => PublishEventText::Completed(
                match result {
                    Ok(()) => Ok(()),
                    Err(error) => Err(error@),
                },
            ),
            PublishEvent::Taken => PublishEventText::Taken,
        }
    }
}

/// Where an event leads the publication of the artifact `digest`.
pub open spec fn publish_step(
    digest: Seq<char>,
    state: PublishText,
    event: PublishEventText,
) -> PublishText {
    match (state, event) {
        (PublishText::Look, PublishEventText::Found(found)) => if found {
            PublishText::Verify
        } else {
            PublishText::Stage
        },
        (PublishText::Verify, PublishEventText::Verified(Ok(size_bytes))) => PublishText::Sync {
            size_bytes,
            status: ArtifactPublicationStatus::Reused,
        },
        (PublishText::Verify, PublishEventText::Verified(Err(error))) => PublishText::Done(
            Err(error),
        ),
        (PublishText::Stage, PublishEventText::Staged(Ok(staged))) => if staged.0 == digest {
            PublishText::Seal { size_bytes: staged.1 }
        } else {
            PublishText::Done(
                Err(
                    VolumeFailure::Integrity(
                        "artifact source does not match its expected digest"@,
                    ),
                ),
            )
        },
        (PublishText::Stage, PublishEventText::Staged(Err(error))) => PublishText::Done(
            Err(error),
        ),
        (PublishText::Seal { size_bytes }, PublishEventText::Completed(Ok(()))) =>
        PublishText::Persist { size_bytes },
        (PublishText::Seal { .. }, PublishEventText::Completed(Err(error))) => PublishText::Done(
            Err(error),
        ),
        (PublishText::Persist { size_bytes }, PublishEventText::Completed(Ok(()))) =>
        PublishText::Sync { size_bytes, status: ArtifactPublicationStatus::Published },
        (PublishText::Persist { .. }, PublishEventText::Taken) => PublishText::Verify,
        (PublishText::Persist { .. }, PublishEventText::Completed(Err(error))) =>
        PublishText::Done(Err(error)),
        (PublishText::Sync { size_bytes, status }, PublishEventText::Completed(Ok(()))) =>
        PublishText::Done(Ok((digest, size_bytes, status))),
        (PublishText::Sync { .. }, PublishEventText::Completed(Err(error))) => PublishText::Done(
            Err(error),
        ),
        (state, _) => state,
    }
}

/// Begins to publish an artifact: returns its digest in lower case.
pub fn begin_publish(expected: &str) -> (r: Result<String, VolumeError>)
    ensures
        match r {
            Ok(digest) => is_artifact_digest(expected@) && text::utf8(digest@) == canonical(
                expected@,
            ),
            Err(error) => !is_artifact_digest(expected@) && error@ == VolumeFailure::Invalid(
                "artifact digest is not a sha256 identity"@,
            ),
        },
{
    match canonical_artifact_digest(expected) {
        Some(digest) => Ok(digest),
        None => Err(
            VolumeError::Invalid("artifact digest is not a sha256 identity".to_owned()),
        ),
    }
}

/// Accepts the source of an artifact before it is read.
pub fn check_source(is_file: bool) -> (r: Result<(), VolumeError>)
    ensures
        error::outcome(r) == checks::verdict(
            checks::when(
                !is_file,
                VolumeFailure::Invalid("artifact source must be a regular file"@),
            ),
        ),
{
    if !is_file {
        return Err(VolumeError::Invalid("artifact source must be a regular file".to_owned()));
    }
    Ok(())
}

/// Takes what the host has done or found.
pub fn advance_publish(digest: &str, state: PublishState, event: PublishEvent) -> (r: PublishState)
    ensures
        r@ == publish_step(digest@, state@, event@),
{
    match (state, event) {
        (PublishState::Look, PublishEvent::Found(found)) => if found {
            PublishState::Verify
        } else {
            PublishState::Stage
        },
        (PublishState::Verify, PublishEvent::Verified(Ok(size_bytes))) => PublishState::Sync {
            size_bytes,
            status: ArtifactPublicationStatus::Reused,
        },
        (PublishState::Verify, PublishEvent::Verified(Err(error))) => PublishState::Done(
            Err(error),
        ),
        (PublishState::Stage, PublishEvent::Staged(Ok(staged))) => if text::same(
            staged.digest.as_str(),
            digest,
        ) {
            PublishState::Seal { size_bytes: staged.size_bytes }
        } else {
            PublishState::Done(
                Err(
                    VolumeError::Integrity(
                        "artifact source does not match its expected digest".to_owned(),
                    ),
                ),
            )
        },
        (PublishState::Stage, PublishEvent::Staged(Err(error))) => PublishState::Done(Err(error)),
        (PublishState::Seal { size_bytes }, PublishEvent::Completed(Ok(()))) =>
        PublishState::Persist { size_bytes },
        (PublishState::Seal { size_bytes: _ }, PublishEvent::Completed(Err(error))) =>
        PublishState::Done(Err(error)),
        (PublishState::Persist { size_bytes }, PublishEvent::Completed(Ok(()))) =>
        PublishState::Sync { size_bytes, status: ArtifactPublicationStatus::Published },
        (PublishState::Persist { size_bytes: _ }, PublishEvent::Taken) => PublishState::Verify,
        (PublishState::Persist { size_bytes: _ }, PublishEvent::Completed(Err(error))) =>
        PublishState::Done(Err(error)),
        (PublishState::Sync { size_bytes, status }, PublishEvent::Completed(Ok(()))) =>
        PublishState::Done(
            Ok(ArtifactPublication { digest: digest.to_owned(), size_bytes, status }),
        ),
        (PublishState::Sync { size_bytes: _, status: _ }, PublishEvent::Completed(Err(error))) =>
        PublishState::Done(Err(error)),
        (state, _) => state,
    }
}

/// Where a row of events leads a publication.
pub open spec fn published(digest: Seq<char>, events: Seq<PublishEventText>) -> PublishText
    decreases events.len(),
{
    if events.len() == 0 {
        PublishText::Look
    } else {
        publish_step(digest, published(digest, events.drop_last()), events.last())
    }
}

/// The source was copied, and its content has the digest and the size.
pub open spec fn was_staged(
    events: Seq<PublishEventText>,
    digest: Seq<char>,
    size_bytes: u64,
) -> bool {
    events.contains(PublishEventText::Staged(Ok((digest, size_bytes))))
}

/// The artifact was verified and has the size.
pub open spec fn was_verified(events: Seq<PublishEventText>, size_bytes: u64) -> bool {
    events.contains(PublishEventText::Verified(Ok(size_bytes)))
}

proof fn lemma_published(digest: Seq<char>, events: Seq<PublishEventText>)
    ensures
        match published(digest, events) {
            PublishText::Seal { size_bytes } => was_staged(events, digest, size_bytes),
            PublishText::Persist { size_bytes } => was_staged(events, digest, size_bytes),
            PublishText::Sync { size_bytes, status } => match status {
                ArtifactPublicationStatus::Published => was_staged(events, digest, size_bytes),
                ArtifactPublicationStatus::Reused => was_verified(events, size_bytes),
            },
            PublishText::Done(Ok(publication)) => {
                &&& publication.0 == digest
                &&& match publication.2 {
                    ArtifactPublicationStatus::Published => was_staged(
                        events,
                        digest,
                        publication.1,
                    ),
                    ArtifactPublicationStatus::Reused => was_verified(events, publication.1),
                }
            },
            _ => true,
        },
    decreases events.len(),
{
    if events.len() > 0 {
        let before = events.drop_last();
        lemma_published(digest, before);
        assert(events[events.len() - 1] == events.last());
        assert forall|event: PublishEventText| before.contains(event) implies events.contains(
            event,
        ) by {
            let at = before.index_of(event);
            assert(events[at] == event);
        }
    }
}

/// A publication that succeeds names the artifact by its digest. Where it wrote the artifact,
/// the copied source has that digest and size; where it found one, that one was verified.
pub proof fn law_publication_is_backed_by_content(digest: Seq<char>, events: Seq<PublishEventText>)
    ensures
        published(digest, events) matches PublishText::Done(Ok(publication)) ==> {
            &&& publication.0 == digest
            &&& publication.2 is Published ==> was_staged(events, digest, publication.1)
            &&& publication.2 is Reused ==> was_verified(events, publication.1)
        },
{
    lemma_published(digest, events);
}

/// The artifacts of a store, by their digests.
pub type ArtifactStore = Map<Seq<char>, Seq<u8>>;

/// What the host says in a state, if nothing fails on it: an artifact is found where the store
/// has one, and is verified if its content has its digest; `source` is copied as it is.
pub open spec fn faithful(
    store: ArtifactStore,
    digest: Seq<char>,
    source: Seq<u8>,
    state: PublishText,
) -> PublishEventText {
    match state {
        PublishText::Look => PublishEventText::Found(store.contains_key(digest)),
        PublishText::Verify => PublishEventText::Verified(
            if digest::identity_text(store[digest]) == digest {
                Ok(store[digest].len() as u64)
            } else {
                Err(
                    VolumeFailure::Integrity(
                        "artifact content digest does not match the volume specification"@,
                    ),
                )
            },
        ),
        PublishText::Stage => PublishEventText::Staged(
            Ok((digest::identity_text(source), source.len() as u64)),
        ),
        _ => PublishEventText::Completed(Ok(())),
    }
}

/// Where a publication leads within a number of steps, and what it makes of the store, which
/// has the artifact once the copy gets its name.
pub open spec fn publish_run(
    store: ArtifactStore,
    digest: Seq<char>,
    source: Seq<u8>,
    state: PublishText,
    steps: nat,
) -> (ArtifactStore, PublishText)
    decreases steps,
{
    if steps == 0 {
        (store, state)
    } else {
        publish_run(
            if state is Persist {
                store.insert(digest, source)
            } else {
                store
            },
            digest,
            source,
            publish_step(digest, state, faithful(store, digest, source, state)),
            (steps - 1) as nat,
        )
    }
}

/// What publishing `source` as `digest` comes to, and what it makes of the store.
pub open spec fn publish_call(store: ArtifactStore, digest: Seq<char>, source: Seq<u8>) -> (
    ArtifactStore,
    PublishText,
) {
    publish_run(store, digest, source, PublishText::Look, 5)
}

/// Content that has the digest it is published under, in either case of letters, is published
/// with its size, and published again it is found there: with the same digest and size, and
/// nothing new is stored. Content that has another digest is refused and nothing is stored.
/// `digest` is the expected digest in lower case.
pub proof fn law_published_artifacts_are_reused(
    store: ArtifactStore,
    expected: Seq<char>,
    digest: Seq<char>,
    source: Seq<u8>,
)
    requires
        is_artifact_digest(expected),
        text::utf8(digest) == canonical(expected),
        !store.contains_key(digest),
        source.len() <= u64::MAX,
    ensures
        canonical(expected) == text::utf8(digest::identity_text(source)) ==> {
            let first = publish_call(store, digest, source);
            let second = publish_call(first.0, digest, source);
            &&& first.0 == store.insert(digest, source)
            &&& first.1 == PublishText::Done(
                Ok::<(Seq<char>, u64, ArtifactPublicationStatus), VolumeFailure>(
                    (digest, source.len() as u64, ArtifactPublicationStatus::Published),
                ),
            )
            &&& second.0 == first.0
            &&& second.1 == PublishText::Done(
                Ok::<(Seq<char>, u64, ArtifactPublicationStatus), VolumeFailure>(
                    (digest, source.len() as u64, ArtifactPublicationStatus::Reused),
                ),
            )
        },
        canonical(expected) != text::utf8(digest::identity_text(source)) ==> publish_call(
            store,
            digest,
            source,
        ) == (
            store,
            PublishText::Done(
                Err::<(Seq<char>, u64, ArtifactPublicationStatus), VolumeFailure>(
                    VolumeFailure::Integrity(
                        "artifact source does not match its expected digest"@,
                    ),
                ),
            ),
        ),
{
    reveal_with_fuel(publish_run, 6);
    if canonical(expected) == text::utf8(digest::identity_text(source)) {
        text::lemma_utf8_injective(digest, digest::identity_text(source));
    }
}

/// The artifacts that volume records refer to, by the bytes of their names.
pub struct ArtifactReferences {
    names: ByteSet,
}

impl View for ArtifactReferences {
    type V = Set<Seq<u8>>;

    closed spec fn view(&self) -> Set<Seq<u8>> {
        self.names@
    }
}

/// The artifact that the record of a volume refers to.
pub open spec fn referred(class: VolumePersistenceClass, digest: Option<Seq<char>>) -> Option<
    Seq<char>,
> {
    if class is Artifact {
        digest
    } else {
        None
    }
}

impl ArtifactReferences {
    pub fn new() -> (r: Self)
        ensures
            r@ == Set::<Seq<u8>>::empty(),
    {
        ArtifactReferences { names: ByteSet::new() }
    }

    /// Notes what the record of a volume refers to.
    pub fn note(self, class: VolumePersistenceClass, content_digest: &Option<String>) -> (r: Result<
        Self,
        VolumeError,
    >)
        ensures
            match referred(class, text::optional(*content_digest)) {
                Some(digest) => match r {
                    Ok(references) => is_artifact_digest(digest) && references@ == self@.insert(
                        artifact_hash(digest),
                    ),
                    Err(error) => !is_artifact_digest(digest) && error@ == VolumeFailure::Integrity(
                        "artifact volume record contains a malformed digest"@,
                    ),
                },
                None => r matches Ok(references) && references@ == self@,
            },
    {
        let ArtifactReferences { mut names } = self;
        match (class, content_digest) {
            (VolumePersistenceClass::Artifact, Some(digest)) => {
                match artifact_name(digest.as_str()) {
                    Some(name) => {
                        names.insert(text::copy_bytes(name.as_str().as_bytes()));
                        Ok(ArtifactReferences { names })
                    },
                    None => Err(
                        VolumeError::Integrity(
                            "artifact volume record contains a malformed digest".to_owned(),
                        ),
                    ),
                }
            },
            _ => Ok(ArtifactReferences { names }),
        }
    }
}

/// The name of a file that an unfinished publication left.
pub open spec fn is_staging_name(name: Seq<char>) -> bool {
    text::begins_with(text::utf8(name), text::utf8(".artifact-"@))
}

/// Why the entry `name` of the artifact directory stops a garbage collection.
pub open spec fn entry_failure(name: Option<Seq<char>>, is_file: bool) -> Option<VolumeFailure> {
    match name {
        None => Some(VolumeFailure::Integrity("artifact store contains a non-UTF-8 entry"@)),
        Some(name) => checks::or(
            checks::when(
                !is_file,
                VolumeFailure::Integrity("artifact store contains a non-regular entry"@),
            ),
            checks::when(
                !is_staging_name(name) && !is_artifact_digest("sha256:"@ + name),
                VolumeFailure::Integrity("artifact store contains an unexpected entry"@),
            ),
        ),
    }
}

/// A garbage collection removes what is old enough, but no artifact that is referred to.
pub open spec fn removes(references: Set<Seq<u8>>, name: Seq<char>, old_enough: bool) -> bool {
    old_enough && (is_staging_name(name) || !references.contains(
        artifact_hash("sha256:"@ + name),
    ))
}

/// The report behind the entry `name`.
pub open spec fn reported(
    report: ArtifactGarbageCollectionReport,
    name: Seq<char>,
    removed: bool,
) -> (int, int, int, int) {
    let staging = is_staging_name(name);
    (
        report.removed_staging_files + (if staging && removed {
            1int
        } else {
            0
        }),
        report.retained_staging_files + (if staging && !removed {
            1int
        } else {
            0
        }),
        report.retained_artifacts + (if !staging && !removed {
            1int
        } else {
            0
        }),
        report.removed_artifacts + (if !staging && removed {
            1int
        } else {
            0
        }),
    )
}

/// Judges the entry `name` of the artifact directory, where it is UTF-8: the report with the
/// entry, and whether it is removed.
pub fn collect_entry(
    report: ArtifactGarbageCollectionReport,
    references: &ArtifactReferences,
    name: Option<&str>,
    is_file: bool,
    old_enough: bool,
) -> (r: Result<(ArtifactGarbageCollectionReport, bool), VolumeError>)
    requires
        report.removed_staging_files < usize::MAX,
        report.retained_staging_files < usize::MAX,
        report.retained_artifacts < usize::MAX,
        report.removed_artifacts < usize::MAX,
    ensures
        match r {
            Ok(judged) => {
                &&& name is Some
                &&& entry_failure(Some(name->0@), is_file) is None
                &&& judged.1 == removes(references@, name->0@, old_enough)
                &&& reported(report, name->0@, judged.1) == (
                    judged.0.removed_staging_files as int,
                    judged.0.retained_staging_files as int,
                    judged.0.retained_artifacts as int,
                    judged.0.removed_artifacts as int,
                )
            },
            Err(error) => entry_failure(
                match name {
                    Some(name) => Some(name@),
                    None => None,
                },
                is_file,
            ) == Some(error@),
        },
{
    let name = match name {
        Some(name) => name,
        None => {
            return Err(
                VolumeError::Integrity("artifact store contains a non-UTF-8 entry".to_owned()),
            );
        },
    };
    if !is_file {
        return Err(
            VolumeError::Integrity("artifact store contains a non-regular entry".to_owned()),
        );
    }
    let mut report = report;
    if text::starts_with(name, ".artifact-") {
        if old_enough {
            report.removed_staging_files = report.removed_staging_files + 1;
        } else {
            report.retained_staging_files = report.retained_staging_files + 1;
        }
        return Ok((report, old_enough));
    }
    let digest = text::join2("sha256:", name);
    match artifact_name(digest.as_str()) {
        Some(hash) => {
            let removed = old_enough && !references.names.contains(hash.as_str().as_bytes());
            if removed {
                report.removed_artifacts = report.removed_artifacts + 1;
            } else {
                report.retained_artifacts = report.retained_artifacts + 1;
            }
            Ok((report, removed))
        },
        None => Err(
            VolumeError::Integrity("artifact store contains an unexpected entry".to_owned()),
        ),
    }
}

/// Whether a garbage collection changed the directory.
pub fn changed_directory(report: &ArtifactGarbageCollectionReport) -> (r: bool)
    ensures
        r == (report.removed_artifacts > 0 || report.removed_staging_files > 0),
{
    report.removed_artifacts > 0 || report.removed_staging_files > 0
}

/// What records refer to, and what no collection may remove.
pub open spec fn references_of(
    records: Seq<(VolumePersistenceClass, Option<Seq<char>>)>,
) -> Set<Seq<u8>>
    decreases records.len(),
{
    if records.len() == 0 {
        Set::empty()
    } else {
        match referred(records.last().0, records.last().1) {
            Some(digest) => references_of(records.drop_last()).insert(artifact_hash(digest)),
            None => references_of(records.drop_last()),
        }
    }
}

/// A garbage collection removes no artifact that the record of a volume refers to, whatever
/// the case of its digits, and nothing that is too young.
pub proof fn law_referenced_artifacts_are_retained(
    records: Seq<(VolumePersistenceClass, Option<Seq<char>>)>,
    at: int,
    name: Seq<char>,
    old_enough: bool,
)
    requires
        0 <= at < records.len(),
        records[at].0 is Artifact,
        records[at].1 is Some,
        !is_staging_name(name),
        artifact_hash("sha256:"@ + name) == artifact_hash(records[at].1->0),
    ensures
        !removes(references_of(records), name, old_enough),
        !removes(Set::empty(), name, false),
{
    lemma_referenced(records, at);
}

proof fn lemma_referenced(records: Seq<(VolumePersistenceClass, Option<Seq<char>>)>, at: int)
    requires
        0 <= at < records.len(),
        records[at].0 is Artifact,
        records[at].1 is Some,
    ensures
        references_of(records).contains(artifact_hash(records[at].1->0)),
    decreases records.len(),
{
    if at < records.len() - 1 {
        assert(records.drop_last()[at] == records[at]);
        lemma_referenced(records.drop_last(), at);
    }
}

/// Capital letters read as small ones, and all other bytes as they are.
pub proof fn law_capitals_read_as_small_letters(bytes: Seq<u8>, i: int)
    requires
        0 <= i < bytes.len(),
    ensures
        lower(bytes).len() == bytes.len(),
        65 <= bytes[i] <= 90 ==> lower(bytes)[i] == bytes[i] + 32,
        !(65 <= bytes[i] <= 90) ==> lower(bytes)[i] == bytes[i],
{
}

/// The digest of an artifact is `sha256:` and sixty-four hexadecimal digits of either case, and its
/// hash is those digits in small letters.
pub proof fn law_artifact_digests_are_hashes(value: Seq<char>, hash: Seq<u8>)
    requires
        text::utf8(value) == text::utf8("sha256:"@) + hash,
    ensures
        is_artifact_digest(value) <==> hash.len() == 64 && (forall|i: int|
            0 <= i < 64 ==> (48 <= #[trigger] hash[i] <= 57 || 65 <= hash[i] <= 70 || 97 <= hash[i]
                <= 102)),
        hash.len() == 64 ==> artifact_hash(value) == lower(hash),
        hash.len() == 64 ==> canonical(value) == text::utf8("sha256:"@) + lower(hash),
{
    let prefix = text::utf8("sha256:"@);
    reveal_strlit("sha256:");
    assert(vstd::utf8::is_ascii_chars("sha256:"@));
    vstd::utf8::is_ascii_chars_encode_utf8("sha256:"@);
    assert(prefix.len() == 7);
    let bytes = text::utf8(value);
    assert(bytes.subrange(0, 7) =~= prefix);
    if hash.len() == 64 {
        assert(bytes.subrange(7, 71) =~= hash);
        assert forall|i: int| 0 <= i < 64 implies (Alphabet::Hex.admits(#[trigger] hash[i])
            <==> (48 <= hash[i] <= 57 || 65 <= hash[i] <= 70 || 97 <= hash[i] <= 102)) by {
            text::law_alphabets_hold_their_bytes(hash[i]);
        }
        assert(text::drawn_from(hash, Alphabet::Hex) <==> forall|i: int|
            0 <= i < 64 ==> Alphabet::Hex.admits(#[trigger] hash[i]));
    }
}

/// A file is immutable exactly where nobody may write it: neither owner nor group nor others.
pub proof fn law_immutable_files_are_written_by_nobody(is_file: bool, mode: u32)
    ensures
        is_immutable(is_file, mode) <==> is_file && mode / 128 % 2 == 0 && mode / 16 % 2 == 0
            && mode / 2 % 2 == 0,
{
    assert(mode & 0o222 == 0 <==> mode / 128 % 2 == 0 && mode / 16 % 2 == 0 && mode / 2 % 2 == 0)
        by (bit_vector);
}

/// An artifact that is found is verified and used again. One that is not is staged, compared with
/// its digest, sealed, persisted and made to last. One that another has put there meanwhile is
/// verified.
pub proof fn law_publications_take_their_course(
    digest: Seq<char>,
    staged: Seq<char>,
    size_bytes: u64,
    status: ArtifactPublicationStatus,
    failure: VolumeFailure,
)
    ensures
        publish_step(digest, PublishText::Look, PublishEventText::Found(true)) is Verify,
        publish_step(digest, PublishText::Look, PublishEventText::Found(false)) is Stage,
        publish_step(digest, PublishText::Verify, PublishEventText::Verified(Ok(size_bytes))) == (
        PublishText::Sync { size_bytes, status: ArtifactPublicationStatus::Reused }),
        publish_step(digest, PublishText::Stage, PublishEventText::Staged(Ok((staged, size_bytes))))
            is Seal <==> staged == digest,
        publish_step(digest, PublishText::Stage, PublishEventText::Staged(Ok((digest, size_bytes))))
            == (PublishText::Seal { size_bytes }),
        staged != digest ==> publish_step(
            digest,
            PublishText::Stage,
            PublishEventText::Staged(Ok((staged, size_bytes))),
        ) == PublishText::Done(
            Err(
                VolumeFailure::Integrity("artifact source does not match its expected digest"@),
            ),
        ),
        publish_step(
            digest,
            (PublishText::Seal { size_bytes }),
            PublishEventText::Completed(Ok(())),
        ) == (PublishText::Persist { size_bytes }),
        publish_step(
            digest,
            (PublishText::Persist { size_bytes }),
            PublishEventText::Completed(Ok(())),
        ) == (PublishText::Sync { size_bytes, status: ArtifactPublicationStatus::Published }),
        publish_step(digest, (PublishText::Persist { size_bytes }), PublishEventText::Taken)
            is Verify,
        publish_step(
            digest,
            (PublishText::Sync { size_bytes, status }),
            PublishEventText::Completed(Ok(())),
        ) == PublishText::Done(Ok((digest, size_bytes, status))),
        publish_step(digest, PublishText::Verify, PublishEventText::Verified(Err(failure)))
            == PublishText::Done(Err(failure)),
        publish_step(digest, PublishText::Stage, PublishEventText::Staged(Err(failure)))
            == PublishText::Done(Err(failure)),
        forall|state: PublishText|
            (state is Seal || state is Persist || state is Sync) ==> #[trigger] publish_step(
                digest,
                state,
                PublishEventText::Completed(Err(failure)),
            ) == PublishText::Done(Err(failure)),
{
}

/// Only artifacts refer to stored content.
pub proof fn law_only_artifacts_refer_to_content(
    class: VolumePersistenceClass,
    digest: Option<Seq<char>>,
)
    ensures
        class is Artifact ==> referred(class, digest) == digest,
        !(class is Artifact) ==> referred(class, digest) is None,
{
}

/// A name is of staging exactly where it starts with `.artifact-`.
pub proof fn law_staging_names_have_their_prefix(name: Seq<char>)
    ensures
        is_staging_name(name) <==> exists|rest: Seq<u8>|
            text::utf8(name) == #[trigger] (text::utf8(".artifact-"@) + rest),
{
    let prefix = text::utf8(".artifact-"@);
    let bytes = text::utf8(name);
    if is_staging_name(name) {
        assert(bytes =~= prefix + bytes.skip(prefix.len() as int));
    }
    if exists|rest: Seq<u8>| bytes == #[trigger] (prefix + rest) {
        let rest = choose|rest: Seq<u8>| bytes == #[trigger] (prefix + rest);
        assert(bytes.subrange(0, prefix.len() as int) =~= prefix);
    }
}

/// The store holds regular files only, each of staging or named by a hash.
pub proof fn law_stored_entries_are_files(name: Option<Seq<char>>, is_file: bool)
    ensures
        entry_failure(name, is_file) is None <==> (name matches Some(own) && is_file && (
        is_staging_name(own) || is_artifact_digest("sha256:"@ + own))),
{
}

/// What is old enough is removed, unless it is an artifact that something refers to.
pub proof fn law_removed_entries_are_old_and_unreferenced(
    references: Set<Seq<u8>>,
    name: Seq<char>,
    old_enough: bool,
)
    ensures
        removes(references, name, old_enough) <==> old_enough && !(!is_staging_name(name)
            && references.contains(artifact_hash("sha256:"@ + name))),
{
}

/// Each entry is counted once, by what it is and what became of it.
pub proof fn law_each_entry_is_counted_once(
    report: ArtifactGarbageCollectionReport,
    name: Seq<char>,
    removed: bool,
)
    ensures
        reported(report, name, removed).0 + reported(report, name, removed).1 + reported(
            report,
            name,
            removed,
        ).2 + reported(report, name, removed).3 == report.removed_staging_files
            + report.retained_staging_files + report.retained_artifacts + report.removed_artifacts
            + 1,
        reported(report, name, removed).0 == report.removed_staging_files + 1 <==> is_staging_name(
            name,
        ) && removed,
        reported(report, name, removed).1 == report.retained_staging_files + 1
            <==> is_staging_name(name) && !removed,
        reported(report, name, removed).2 == report.retained_artifacts + 1 <==> !is_staging_name(
            name,
        ) && !removed,
        reported(report, name, removed).3 == report.removed_artifacts + 1 <==> !is_staging_name(
            name,
        ) && removed,
{
}

/// Each refusal of an entry of the store is of its kind.
pub proof fn law_refused_store_entries_say_why(name: Option<Seq<char>>, is_file: bool)
    ensures
        name is None ==> entry_failure(name, is_file) == Some(
            VolumeFailure::Integrity("artifact store contains a non-UTF-8 entry"@),
        ),
        name is Some && !is_file ==> entry_failure(name, is_file) == Some(
            VolumeFailure::Integrity("artifact store contains a non-regular entry"@),
        ),
        name is Some && is_file ==> (entry_failure(name, is_file) matches Some(failure) ==> failure
            == VolumeFailure::Integrity("artifact store contains an unexpected entry"@)),
{
}

} // verus!

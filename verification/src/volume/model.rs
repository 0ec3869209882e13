//! Volumes, their handles and their attachments.

use crate::checks;
use crate::oci::error;
use crate::oci::model::{VolumePersistenceClass, VolumeSnapshotPolicy, VolumeSpec};
use crate::oci::provider::credentials;
use crate::oci::provider::credentials::quote;
use crate::text;
use crate::text::join3;
use crate::volume::error::{VolumeError, VolumeFailure};
use vstd::prelude::*;

verus! {

/// The tenant and the workspace that a volume belongs to.
#[derive(Debug, PartialEq, Eq, PartialOrd, Ord, Hash)]
pub struct VolumeScope {
    tenant_id: String,
    workspace_id: String,
}

/// A `VolumeScope` with its texts read as character sequences.
#[verifier::ext_equal]
pub struct ScopeText {
    pub tenant_id: Seq<char>,
    pub workspace_id: Seq<char>,
}

impl View for VolumeScope {
    type V = ScopeText;

    closed spec fn view(&self) -> ScopeText {
        ScopeText { tenant_id: self.tenant_id@, workspace_id: self.workspace_id@ }
    }
}

impl Clone for VolumeScope {
    fn clone(&self) -> (r: Self)
        ensures
            r@ == self@,
    {
        VolumeScope { tenant_id: self.tenant_id.clone(), workspace_id: self.workspace_id.clone() }
    }
}

impl VolumeScope {
    pub fn new(tenant_id: String, workspace_id: String) -> (r: Self)
        ensures
            r@ == (ScopeText { tenant_id: tenant_id@, workspace_id: workspace_id@ }),
    {
        VolumeScope { tenant_id, workspace_id }
    }

    pub fn tenant_id(&self) -> (r: &str)
        ensures
            r@ == self@.tenant_id,
    {
        self.tenant_id.as_str()
    }

    pub fn workspace_id(&self) -> (r: &str)
        ensures
            r@ == self@.workspace_id,
    {
        self.workspace_id.as_str()
    }
}

/// The container that a volume is attached to.
#[derive(Debug, PartialEq, Eq)]
pub struct AttachmentOwner {
    pub sandbox_id: String,
    pub container_id: String,
}

/// An `AttachmentOwner` with its texts read as character sequences.
#[verifier::ext_equal]
pub struct OwnerText {
    pub sandbox_id: Seq<char>,
    pub container_id: Seq<char>,
}

impl View for AttachmentOwner {
    type V = OwnerText;

    open spec fn view(&self) -> OwnerText {
        OwnerText { sandbox_id: self.sandbox_id@, container_id: self.container_id@ }
    }
}

impl Clone for AttachmentOwner {
    fn clone(&self) -> (r: Self)
        ensures
            r@ == self@,
    {
        AttachmentOwner {
            sandbox_id: self.sandbox_id.clone(),
            container_id: self.container_id.clone(),
        }
    }
}

/// A set of persistence classes.
#[derive(Clone, Copy, Debug, PartialEq, Eq, Structural)]
pub struct PersistenceClasses {
    pub ephemeral: bool,
    pub persistent: bool,
    pub artifact: bool,
    pub secret: bool,
}

impl PersistenceClasses {
    pub open spec fn has(self, class: VolumePersistenceClass) -> bool {
        match class {
            VolumePersistenceClass::Ephemeral => self.ephemeral,
            VolumePersistenceClass::Persistent => self.persistent,
            VolumePersistenceClass::Artifact => self.artifact,
            VolumePersistenceClass::Secret => self.secret,
        }
    }

    pub fn contains(&self, class: VolumePersistenceClass) -> (r: bool)
        ensures
            r == self.has(class),
    {
        match class {
            VolumePersistenceClass::Ephemeral => self.ephemeral,
            VolumePersistenceClass::Persistent => self.persistent,
            VolumePersistenceClass::Artifact => self.artifact,
            VolumePersistenceClass::Secret => self.secret,
        }
    }
}

/// Where a snapshot can be restored.
#[derive(Clone, Debug, PartialEq, Eq)]
pub enum SnapshotPortability {
    CrossWorkerSameBackend,
    Labelled { label: String, cross_worker: bool },
}

impl SnapshotPortability {
    pub open spec fn crosses(self) -> bool {
        match self {
            SnapshotPortability::CrossWorkerSameBackend => true,
            SnapshotPortability::Labelled { cross_worker, .. } => cross_worker,
        }
    }

    /// Whether another worker may restore the snapshot.
    pub fn permits_cross_worker(&self) -> (r: bool)
        ensures
            r == self.crosses(),
    {
        match self {
            SnapshotPortability::CrossWorkerSameBackend => true,
            SnapshotPortability::Labelled { label: _, cross_worker } => *cross_worker,
        }
    }
}

/// What a volume provider can do.
#[derive(Debug, Clone, PartialEq, Eq)]
pub struct VolumeProviderCapabilities {
    pub persistence_classes: PersistenceClasses,
    pub snapshot: bool,
    pub clone: bool,
    pub snapshot_portability: SnapshotPortability,
}

/// A volume that a provider keeps.
#[derive(Debug, PartialEq, Eq)]
pub struct VolumeHandle {
    provider_id: String,
    key: String,
    scope: VolumeScope,
    volume_id: String,
    persistence_class: VolumePersistenceClass,
    quota_bytes: u64,
    content_digest: Option<String>,
}

/// A `VolumeHandle` with its texts read as character sequences.
#[verifier::ext_equal]
pub struct HandleText {
    pub provider_id: Seq<char>,
    pub key: Seq<char>,
    pub scope: ScopeText,
    pub volume_id: Seq<char>,
    pub persistence_class: VolumePersistenceClass,
    pub quota_bytes: u64,
    pub content_digest: Option<Seq<char>>,
}

impl View for VolumeHandle {
    type V = HandleText;

    closed spec fn view(&self) -> HandleText {
        HandleText {
            provider_id: self.provider_id@,
            key: self.key@,
            scope: self.scope@,
            volume_id: self.volume_id@,
            persistence_class: self.persistence_class,
            quota_bytes: self.quota_bytes,
            content_digest: text::optional(self.content_digest),
        }
    }
}

/// The handle of a provider for a volume.
pub open spec fn handle_of(
    provider_id: Seq<char>,
    key: Seq<char>,
    scope: ScopeText,
    specification: VolumeSpec,
) -> HandleText {
    HandleText {
        provider_id,
        key,
        scope,
        volume_id: specification.volume_id@,
        persistence_class: specification.persistence_class,
        quota_bytes: specification.quota_bytes,
        content_digest: text::optional(specification.content_digest),
    }
}

/// Copies an optional text.
pub fn copy_optional(value: &Option<String>) -> (r: Option<String>)
    ensures
        text::optional(r) == text::optional(*value),
{
    match value {
        Some(value) => Some(value.clone()),
        None => None,
    }
}

impl Clone for VolumeHandle {
    fn clone(&self) -> (r: Self)
        ensures
            r@ == self@,
    {
        VolumeHandle {
            provider_id: self.provider_id.clone(),
            key: self.key.clone(),
            scope: self.scope.clone(),
            volume_id: self.volume_id.clone(),
            persistence_class: self.persistence_class,
            quota_bytes: self.quota_bytes,
            content_digest: copy_optional(&self.content_digest),
        }
    }
}

impl VolumeHandle {
    pub(crate) fn new(
        provider_id: &str,
        key: String,
        scope: &VolumeScope,
        specification: &VolumeSpec,
    ) -> (r: Self)
        ensures
            r@ == handle_of(provider_id@, key@, scope@, *specification),
    {
        VolumeHandle {
            provider_id: provider_id.to_owned(),
            key,
            scope: scope.clone(),
            volume_id: specification.volume_id.clone(),
            persistence_class: specification.persistence_class,
            quota_bytes: specification.quota_bytes,
            content_digest: copy_optional(&specification.content_digest),
        }
    }

    pub fn provider_id(&self) -> (r: &str)
        ensures
            r@ == self@.provider_id,
    {
        self.provider_id.as_str()
    }

    pub fn key(&self) -> (r: &str)
        ensures
            r@ == self@.key,
    {
        self.key.as_str()
    }

    pub fn scope(&self) -> (r: &VolumeScope)
        ensures
            r@ == self@.scope,
    {
        &self.scope
    }

    pub fn volume_id(&self) -> (r: &str)
        ensures
            r@ == self@.volume_id,
    {
        self.volume_id.as_str()
    }

    pub fn persistence_class(&self) -> (r: VolumePersistenceClass)
        ensures
            r == self@.persistence_class,
    {
        self.persistence_class
    }

    pub fn quota_bytes(&self) -> (r: u64)
        ensures
            r == self@.quota_bytes,
    {
        self.quota_bytes
    }

    pub fn content_digest(&self) -> (r: &Option<String>)
        ensures
            text::optional(*r) == self@.content_digest,
    {
        &self.content_digest
    }
}

/// A volume attached to a container.
#[derive(Debug, PartialEq, Eq)]
pub struct VolumeAttachment {
    handle: VolumeHandle,
    attachment_id: String,
    owner: AttachmentOwner,
    destination: String,
    read_only: bool,
    snapshot_policy: VolumeSnapshotPolicy,
}

/// A `VolumeAttachment` with its texts read as character sequences.
#[verifier::ext_equal]
pub struct AttachedText {
    pub handle: HandleText,
    pub attachment_id: Seq<char>,
    pub owner: OwnerText,
    pub destination: Seq<char>,
    pub read_only: bool,
    pub snapshot_policy: VolumeSnapshotPolicy,
}

impl View for VolumeAttachment {
    type V = AttachedText;

    closed spec fn view(&self) -> AttachedText {
        AttachedText {
            handle: self.handle@,
            attachment_id: self.attachment_id@,
            owner: self.owner@,
            destination: self.destination@,
            read_only: self.read_only,
            snapshot_policy: self.snapshot_policy,
        }
    }
}

impl Clone for VolumeAttachment {
    fn clone(&self) -> (r: Self)
        ensures
            r@ == self@,
    {
        VolumeAttachment {
            handle: self.handle.clone(),
            attachment_id: self.attachment_id.clone(),
            owner: self.owner.clone(),
            destination: self.destination.clone(),
            read_only: self.read_only,
            snapshot_policy: self.snapshot_policy,
        }
    }
}

/// The attachment that a container asks for.
pub open spec fn attachment_of(
    handle: HandleText,
    attachment_id: Seq<char>,
    owner: OwnerText,
    specification: VolumeSpec,
) -> AttachedText {
    AttachedText {
        handle,
        attachment_id,
        owner,
        destination: specification.destination@,
        read_only: specification.read_only,
        snapshot_policy: specification.snapshot_policy,
    }
}

impl VolumeAttachment {
    pub(crate) fn new(
        handle: &VolumeHandle,
        attachment_id: String,
        owner: AttachmentOwner,
        specification: &VolumeSpec,
    ) -> (r: Self)
        ensures
            r@ == attachment_of(handle@, attachment_id@, owner@, *specification),
    {
        VolumeAttachment {
            handle: handle.clone(),
            attachment_id,
            owner,
            destination: specification.destination.clone(),
            read_only: specification.read_only,
            snapshot_policy: specification.snapshot_policy,
        }
    }

    pub fn handle(&self) -> (r: &VolumeHandle)
        ensures
            r@ == self@.handle,
    {
        &self.handle
    }

    pub fn attachment_id(&self) -> (r: &str)
        ensures
            r@ == self@.attachment_id,
    {
        self.attachment_id.as_str()
    }

    pub fn snapshot_policy(&self) -> (r: VolumeSnapshotPolicy)
        ensures
            r == self@.snapshot_policy,
    {
        self.snapshot_policy
    }

    pub fn owner(&self) -> (r: &AttachmentOwner)
        ensures
            r@ == self@.owner,
    {
        &self.owner
    }

    pub fn destination(&self) -> (r: &str)
        ensures
            r@ == self@.destination,
    {
        self.destination.as_str()
    }

    pub fn read_only(&self) -> (r: bool)
        ensures
            r == self@.read_only,
    {
        self.read_only
    }
}

/// An attached volume whose contents lie at `source`.
#[derive(Debug, PartialEq, Eq)]
pub struct MountedVolume {
    attachment: VolumeAttachment,
    source: String,
}

/// A `MountedVolume` with its texts read as character sequences.
#[verifier::ext_equal]
pub struct MountedText {
    pub attachment: AttachedText,
    pub source: Seq<char>,
}

impl View for MountedVolume {
    type V = MountedText;

    closed spec fn view(&self) -> MountedText {
        MountedText { attachment: self.attachment@, source: self.source@ }
    }
}

impl MountedVolume {
    pub(crate) fn new(attachment: &VolumeAttachment, source: String) -> (r: Self)
        ensures
            r@ == (MountedText { attachment: attachment@, source: source@ }),
    {
        MountedVolume { attachment: attachment.clone(), source }
    }

    pub fn source(&self) -> (r: &str)
        ensures
            r@ == self@.source,
    {
        self.source.as_str()
    }

    pub fn destination(&self) -> (r: &str)
        ensures
            r@ == self@.attachment.destination,
    {
        self.attachment.destination()
    }

    pub fn read_only(&self) -> (r: bool)
        ensures
            r == self@.attachment.read_only,
    {
        self.attachment.read_only()
    }

    pub fn attachment(&self) -> (r: &VolumeAttachment)
        ensures
            r@ == self@.attachment,
    {
        &self.attachment
    }
}

/// What is told of a snapshot of a volume.
#[derive(Debug, Clone, PartialEq, Eq)]
pub struct VolumeSnapshot {
    pub schema_version: u32,
    pub provider_id: String,
    pub volume_id: String,
    pub persistence_class: VolumePersistenceClass,
    pub digest: String,
    pub size_bytes: u64,
    pub quota_bytes: u64,
    pub format: String,
    pub portability: SnapshotPortability,
}

/// A `VolumeSnapshot` with its texts read as character sequences.
#[verifier::ext_equal]
pub struct SnapshotText {
    pub schema_version: u32,
    pub provider_id: Seq<char>,
    pub volume_id: Seq<char>,
    pub persistence_class: VolumePersistenceClass,
    pub digest: Seq<char>,
    pub size_bytes: u64,
    pub quota_bytes: u64,
    pub format: Seq<char>,
    pub portability: SnapshotPortability,
}

impl View for VolumeSnapshot {
    type V = SnapshotText;

    open spec fn view(&self) -> SnapshotText {
        SnapshotText {
            schema_version: self.schema_version,
            provider_id: self.provider_id@,
            volume_id: self.volume_id@,
            persistence_class: self.persistence_class,
            digest: self.digest@,
            size_bytes: self.size_bytes,
            quota_bytes: self.quota_bytes,
            format: self.format@,
            portability: self.portability,
        }
    }
}

/// What a provider found and removed when it started.
#[derive(Clone, Copy, Debug, PartialEq, Eq, Structural)]
pub struct VolumeCleanupReport {
    pub cleared_attachments: usize,
    pub removed_ephemeral_volumes: usize,
    pub retained_persistent_volumes: usize,
    pub removed_secret_volumes: usize,
}

impl Default for VolumeCleanupReport {
    fn default() -> (r: Self)
        ensures
            r == (VolumeCleanupReport {
                cleared_attachments: 0,
                removed_ephemeral_volumes: 0,
                retained_persistent_volumes: 0,
                removed_secret_volumes: 0,
            }),
    {
        VolumeCleanupReport {
            cleared_attachments: 0,
            removed_ephemeral_volumes: 0,
            retained_persistent_volumes: 0,
            removed_secret_volumes: 0,
        }
    }
}

/// A file of a secret volume. The holder of the contents decides how they are kept.
pub struct SecretFile<C> {
    pub name: String,
    pub contents: C,
}

impl<C> SecretFile<C> {
    /// What is shown of a secret file.
    pub open spec fn description(self) -> Seq<char> {
        "SecretFile { name: "@ + credentials::quoted(self.name@)
            + ", contents: \"<redacted>\" }"@
    }

    /// Shows the name, and nothing of the contents.
    pub fn describe(&self) -> (r: String)
        ensures
            r@ == self.description(),
    {
        let name = quote(self.name.as_str());
        join3("SecretFile { name: ", name.as_str(), ", contents: \"<redacted>\" }")
    }
}

/// A description tells nothing of the contents: files of one name read alike.
pub proof fn law_description_hides_the_contents<C>(left: SecretFile<C>, right: SecretFile<C>)
    requires
        left.name@ == right.name@,
    ensures
        left.description() == right.description(),
{
}

/// Where the files of secret volumes come from.
pub trait SecretResolver: Send + Sync {
    type Contents;

    fn resolve(&self, scope: &VolumeScope, volume_id: &str) -> Result<
        Vec<SecretFile<Self::Contents>>,
        VolumeError,
    >;
}

/// Why a specification does not belong to a handle. `check` is what the specification's own
/// rules say of it.
pub open spec fn handle_spec_failure(
    handle: HandleText,
    specification: VolumeSpec,
    check: Result<(), String>,
) -> Option<VolumeFailure> {
    match check {
        Err(reason) => Some(VolumeFailure::Invalid(reason@)),
        Ok(()) => checks::when(
            handle.volume_id != specification.volume_id@ || handle.persistence_class
                != specification.persistence_class || handle.quota_bytes
                != specification.quota_bytes || handle.content_digest != text::optional(
                specification.content_digest,
            ),
            VolumeFailure::Invalid("attachment specification does not match its volume handle"@),
        ),
    }
}

/// Accepts the specification of an attachment.
pub fn validate_handle_spec(
    handle: &VolumeHandle,
    specification: &VolumeSpec,
    check: Result<(), String>,
) -> (r: Result<(), VolumeError>)
    ensures
        error::outcome(r) == checks::verdict(handle_spec_failure(handle@, *specification, check)),
{
    match check {
        Ok(()) => {},
        Err(reason) => return Err(VolumeError::Invalid(reason)),
    }
    if !text::same(handle.volume_id(), specification.volume_id.as_str())
        || handle.persistence_class() != specification.persistence_class || handle.quota_bytes()
        != specification.quota_bytes || !text::same_optional(
        handle.content_digest(),
        &specification.content_digest,
    ) {
        return Err(
            VolumeError::Invalid(
                "attachment specification does not match its volume handle".to_owned(),
            ),
        );
    }
    Ok(())
}

/// A handle says what it was made for.
pub proof fn law_handles_say_what_they_are_for(
    provider_id: Seq<char>,
    key: Seq<char>,
    scope: ScopeText,
    specification: VolumeSpec,
)
    ensures
        handle_of(provider_id, key, scope, specification).provider_id == provider_id,
        handle_of(provider_id, key, scope, specification).key == key,
        handle_of(provider_id, key, scope, specification).scope == scope,
        handle_of(provider_id, key, scope, specification).volume_id == specification.volume_id@,
        handle_of(provider_id, key, scope, specification).persistence_class
            == specification.persistence_class,
        handle_of(provider_id, key, scope, specification).quota_bytes == specification.quota_bytes,
        match specification.content_digest {
            Some(digest) => handle_of(provider_id, key, scope, specification).content_digest
                == Some(digest@),
            None => handle_of(provider_id, key, scope, specification).content_digest is None,
        },
{
}

/// An attachment says what it was made for.
pub proof fn law_attachments_say_what_they_are_for(
    handle: HandleText,
    attachment_id: Seq<char>,
    owner: OwnerText,
    specification: VolumeSpec,
)
    ensures
        attachment_of(handle, attachment_id, owner, specification).handle == handle,
        attachment_of(handle, attachment_id, owner, specification).attachment_id == attachment_id,
        attachment_of(handle, attachment_id, owner, specification).owner == owner,
        attachment_of(handle, attachment_id, owner, specification).destination
            == specification.destination@,
        attachment_of(handle, attachment_id, owner, specification).read_only
            == specification.read_only,
        attachment_of(handle, attachment_id, owner, specification).snapshot_policy
            == specification.snapshot_policy,
{
}

/// A specification fits a handle exactly where it passed its own check and names the same volume,
/// class, quota and content.
pub proof fn law_specifications_fit_their_handle(
    handle: HandleText,
    specification: VolumeSpec,
    check: Result<(), String>,
)
    ensures
        handle_spec_failure(handle, specification, check) is None <==> {
            &&& check is Ok
            &&& handle.volume_id == specification.volume_id@
            &&& handle.persistence_class == specification.persistence_class
            &&& handle.quota_bytes == specification.quota_bytes
            &&& match (handle.content_digest, specification.content_digest) {
                (None, None) => true,
                (Some(own), Some(other)) => own == other@,
                _ => false,
            }
        },
        check matches Err(reason) ==> handle_spec_failure(handle, specification, check) == Some(
            VolumeFailure::Invalid(reason@),
        ),
{
}

/// A snapshot crosses workers where its portability says so.
pub proof fn law_snapshots_cross_workers_where_they_may(portability: SnapshotPortability)
    ensures
        portability is CrossWorkerSameBackend ==> portability.crosses(),
        portability matches SnapshotPortability::Labelled { cross_worker, .. }
            ==> portability.crosses() == cross_worker,
{
}

/// The name of a secret file is shown, its contents are not.
pub proof fn law_secret_files_show_their_name<C>(file: SecretFile<C>)
    ensures
        file.description() == "SecretFile { name: "@ + credentials::quoted(file.name@)
            + ", contents: \"<redacted>\" }"@,
{
}

/// A provider has the classes that it says it has.
pub proof fn law_providers_have_their_classes(capabilities: PersistenceClasses)
    ensures
        capabilities.has(VolumePersistenceClass::Ephemeral) == capabilities.ephemeral,
        capabilities.has(VolumePersistenceClass::Persistent) == capabilities.persistent,
        capabilities.has(VolumePersistenceClass::Artifact) == capabilities.artifact,
        capabilities.has(VolumePersistenceClass::Secret) == capabilities.secret,
{
}

} // verus!

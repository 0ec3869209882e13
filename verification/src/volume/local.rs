//! Volumes on this worker: named ones in files of fixed size, artifacts, and secrets.

use crate::checks;
use crate::digest;
use crate::oci::error;
use crate::oci::model::{VolumePersistenceClass, VolumeSnapshotPolicy, VolumeSpec};
use crate::oci::provider::config;
use crate::oci::provider::config::absolute;
use crate::table::Table;
use crate::text;
use crate::time::Duration;
use crate::volume::artifacts;
use crate::volume::artifacts::artifact_name;
use crate::volume::error::{VolumeError, VolumeFailure};
use crate::volume::model;
use crate::volume::model::{
    copy_optional, AttachedText, AttachmentOwner, HandleText, MountedText, MountedVolume, OwnerText,
    PersistenceClasses, ScopeText, SnapshotPortability, VolumeAttachment, VolumeHandle,
    VolumeProviderCapabilities, VolumeScope,
};
use vstd::prelude::*;

verus! {

pub const LOCAL_VOLUME_PROVIDER_ID: &'static str = "local-loopback-v1";

pub const RECORD_VERSION: u32 = 1;

pub const VOLUME_SNAPSHOT_VERSION: u32 = 1;

pub const SNAPSHOT_FORMAT: &'static str = "application/vnd.runtrue.volume.ext4.v1";

pub const MAXIMUM_ATTACHMENTS: usize = 1_024;

pub const MAXIMUM_RECORD_BYTES: usize = 1_048_576;

/// How a worker keeps its volumes.
#[derive(Debug, Clone)]
pub struct LocalVolumeConfig {
    pub root: String,
    pub minimum_quota_bytes: u64,
    pub maximum_quota_bytes: u64,
    pub operation_timeout: Duration,
    pub maximum_output_bytes: usize,
    pub mkfs_ext4_program: String,
    pub losetup_program: String,
    pub fsfreeze_program: String,
    pub copy_program: String,
}

impl LocalVolumeConfig {
    /// The usual configuration, where named volumes hold at least `minimum_named_bytes`.
    pub fn new(root: String, minimum_named_bytes: u64) -> (r: Self)
        ensures
            r.root == root,
            r.minimum_quota_bytes == minimum_named_bytes,
            r.maximum_quota_bytes == 1_099_511_627_776,
            r.operation_timeout.nanoseconds == 300_000_000_000,
            r.maximum_output_bytes == 1_048_576,
            r.mkfs_ext4_program@ == "/usr/sbin/mkfs.ext4"@,
            r.losetup_program@ == "/usr/sbin/losetup"@,
            r.fsfreeze_program@ == "/usr/sbin/fsfreeze"@,
            r.copy_program@ == "/bin/cp"@,
    {
        LocalVolumeConfig {
            root,
            minimum_quota_bytes: minimum_named_bytes,
            maximum_quota_bytes: 1_099_511_627_776,
            operation_timeout: Duration::from_secs(300),
            maximum_output_bytes: 1_048_576,
            mkfs_ext4_program: "/usr/sbin/mkfs.ext4".to_owned(),
            losetup_program: "/usr/sbin/losetup".to_owned(),
            fsfreeze_program: "/usr/sbin/fsfreeze".to_owned(),
            copy_program: "/bin/cp".to_owned(),
        }
    }

    /// Why the configuration is refused.
    pub open spec fn failure(self, minimum_named_bytes: u64) -> Option<VolumeFailure> {
        checks::when(
            !(config::is_absolute(self.root@) && minimum_named_bytes <= self.minimum_quota_bytes
                <= self.maximum_quota_bytes && self.operation_timeout.within(3_600) && 0
                < self.maximum_output_bytes <= 16_777_216 && config::is_absolute(
                self.mkfs_ext4_program@,
            ) && config::is_absolute(self.losetup_program@) && config::is_absolute(
                self.fsfreeze_program@,
            ) && config::is_absolute(self.copy_program@)),
            VolumeFailure::Invalid("local volume provider configuration is invalid"@),
        )
    }

    /// Accepts a configuration.
    pub fn validate(&self, minimum_named_bytes: u64) -> (r: Result<(), VolumeError>)
        ensures
            error::outcome(r) == checks::verdict(self.failure(minimum_named_bytes)),
    {
        if !absolute(self.root.as_str()) || self.minimum_quota_bytes < minimum_named_bytes
            || self.maximum_quota_bytes < self.minimum_quota_bytes
            || !self.operation_timeout.is_within(3_600) || self.maximum_output_bytes == 0
            || self.maximum_output_bytes > 16_777_216 || !absolute(self.mkfs_ext4_program.as_str())
            || !absolute(self.losetup_program.as_str()) || !absolute(
            self.fsfreeze_program.as_str(),
        ) || !absolute(self.copy_program.as_str()) {
            return Err(
                VolumeError::Invalid("local volume provider configuration is invalid".to_owned()),
            );
        }
        Ok(())
    }
}

/// Accepts the root directory of the provider.
pub fn check_root(is_directory: bool, owned: bool) -> (r: Result<(), VolumeError>)
    ensures
        error::outcome(r) == checks::verdict(
            checks::when(
                !(is_directory && owned),
                VolumeFailure::AccessDenied("local volume root must be owned by the provider UID"@),
            ),
        ),
{
    if !is_directory || !owned {
        return Err(
            VolumeError::AccessDenied(
                "local volume root must be owned by the provider UID".to_owned(),
            ),
        );
    }
    Ok(())
}

/// What the provider can do.
pub fn capabilities() -> (r: VolumeProviderCapabilities)
    ensures
        forall|class: VolumePersistenceClass| r.persistence_classes.has(class),
        r.snapshot,
        !r.clone,
        r.snapshot_portability == SnapshotPortability::CrossWorkerSameBackend,
{
    VolumeProviderCapabilities {
        persistence_classes: PersistenceClasses {
            ephemeral: true,
            persistent: true,
            artifact: true,
            secret: true,
        },
        snapshot: true,
        clone: false,
        snapshot_portability: SnapshotPortability::CrossWorkerSameBackend,
    }
}

/// What the key of a volume is the hash of.
pub open spec fn key_preimage(scope: ScopeText, volume_id: Seq<char>) -> Seq<u8> {
    text::utf8(scope.tenant_id) + seq![0u8] + (text::utf8(scope.workspace_id) + seq![0u8]
        + text::utf8(volume_id))
}

/// The key of a volume.
pub open spec fn key_of(scope: ScopeText, volume_id: Seq<char>) -> Seq<char> {
    digest::hash_text(key_preimage(scope, volume_id))
}

/// The key of a volume.
pub fn volume_key(scope: &VolumeScope, volume_id: &str) -> (r: String)
    ensures
        r@ == key_of(scope@, volume_id@),
        digest::is_hash(r@),
{
    let mut preimage: Vec<u8> = text::copy_bytes(scope.tenant_id().as_bytes());
    preimage.push(0);
    preimage.extend_from_slice(scope.workspace_id().as_bytes());
    preimage.push(0);
    preimage.extend_from_slice(volume_id.as_bytes());
    proof {
        assert(preimage@ =~= key_preimage(scope@, volume_id@));
    }
    digest::hash(preimage.as_slice())
}

/// Volumes of different tenants, workspaces or names have different key preimages, as long as
/// no tenant and no workspace holds a NUL.
pub proof fn law_keys_bind_tenant_workspace_and_volume(
    left: ScopeText,
    volume: Seq<char>,
    right: ScopeText,
    other: Seq<char>,
)
    requires
        !text::has_byte(text::utf8(left.tenant_id), 0),
        !text::has_byte(text::utf8(left.workspace_id), 0),
        !text::has_byte(text::utf8(right.tenant_id), 0),
        !text::has_byte(text::utf8(right.workspace_id), 0),
        key_preimage(left, volume) == key_preimage(right, other),
    ensures
        left == right,
        volume == other,
{
    text::lemma_separated(
        text::utf8(left.tenant_id),
        text::utf8(left.workspace_id) + seq![0u8] + text::utf8(volume),
        text::utf8(right.tenant_id),
        text::utf8(right.workspace_id) + seq![0u8] + text::utf8(other),
        0,
    );
    text::lemma_separated(
        text::utf8(left.workspace_id),
        text::utf8(volume),
        text::utf8(right.workspace_id),
        text::utf8(other),
        0,
    );
    text::lemma_utf8_injective(left.tenant_id, right.tenant_id);
    text::lemma_utf8_injective(left.workspace_id, right.workspace_id);
    text::lemma_utf8_injective(volume, other);
}

/// What the identity of an attachment is the hash of.
pub open spec fn attachment_preimage(
    key: Seq<char>,
    owner: OwnerText,
    destination: Seq<char>,
) -> Seq<u8> {
    text::utf8(key) + seq![0u8] + (text::utf8(owner.sandbox_id) + seq![0u8] + (text::utf8(
        owner.container_id,
    ) + seq![0u8] + text::utf8(destination)))
}

/// The identity of an attachment.
pub open spec fn attachment_id_of(
    key: Seq<char>,
    owner: OwnerText,
    destination: Seq<char>,
) -> Seq<char> {
    digest::hash_text(attachment_preimage(key, owner, destination))
}

/// The identity of an attachment.
pub fn attachment_key(handle: &VolumeHandle, owner: &AttachmentOwner, destination: &str) -> (r:
    String)
    ensures
        r@ == attachment_id_of(handle@.key, owner@, destination@),
        digest::is_hash(r@),
{
    let mut preimage: Vec<u8> = text::copy_bytes(handle.key().as_bytes());
    preimage.push(0);
    preimage.extend_from_slice(owner.sandbox_id.as_str().as_bytes());
    preimage.push(0);
    preimage.extend_from_slice(owner.container_id.as_str().as_bytes());
    preimage.push(0);
    preimage.extend_from_slice(destination.as_bytes());
    proof {
        assert(preimage@ =~= attachment_preimage(handle@.key, owner@, destination@));
    }
    digest::hash(preimage.as_slice())
}

/// Attachments of different volumes, sandboxes, containers or destinations have different
/// identity preimages, as long as nothing before the destination holds a NUL.
pub proof fn law_attachments_bind_volume_owner_and_destination(
    left_key: Seq<char>,
    left: OwnerText,
    destination: Seq<char>,
    right_key: Seq<char>,
    right: OwnerText,
    other: Seq<char>,
)
    requires
        !text::has_byte(text::utf8(left_key), 0),
        !text::has_byte(text::utf8(left.sandbox_id), 0),
        !text::has_byte(text::utf8(left.container_id), 0),
        !text::has_byte(text::utf8(right_key), 0),
        !text::has_byte(text::utf8(right.sandbox_id), 0),
        !text::has_byte(text::utf8(right.container_id), 0),
        attachment_preimage(left_key, left, destination) == attachment_preimage(
            right_key,
            right,
            other,
        ),
    ensures
        left_key == right_key,
        left == right,
        destination == other,
{
    let l2 = text::utf8(left.container_id) + seq![0u8] + text::utf8(destination);
    let r2 = text::utf8(right.container_id) + seq![0u8] + text::utf8(other);
    text::lemma_separated(
        text::utf8(left_key),
        text::utf8(left.sandbox_id) + seq![0u8] + l2,
        text::utf8(right_key),
        text::utf8(right.sandbox_id) + seq![0u8] + r2,
        0,
    );
    text::lemma_separated(
        text::utf8(left.sandbox_id),
        l2,
        text::utf8(right.sandbox_id),
        r2,
        0,
    );
    text::lemma_separated(
        text::utf8(left.container_id),
        text::utf8(destination),
        text::utf8(right.container_id),
        text::utf8(other),
        0,
    );
    text::lemma_utf8_injective(left_key, right_key);
    text::lemma_utf8_injective(left.sandbox_id, right.sandbox_id);
    text::lemma_utf8_injective(left.container_id, right.container_id);
    text::lemma_utf8_injective(destination, other);
}

/// What is kept of an attachment.
#[derive(Debug, PartialEq, Eq)]
pub struct AttachmentRecord {
    pub sandbox_id: String,
    pub container_id: String,
    pub destination: String,
    pub read_only: bool,
    pub snapshot_policy: VolumeSnapshotPolicy,
}

/// An `AttachmentRecord` with its texts read as character sequences.
#[verifier::ext_equal]
pub struct AttachmentText {
    pub owner: OwnerText,
    pub destination: Seq<char>,
    pub read_only: bool,
    pub snapshot_policy: VolumeSnapshotPolicy,
}

impl View for AttachmentRecord {
    type V = AttachmentText;

    open spec fn view(&self) -> AttachmentText {
        AttachmentText {
            owner: OwnerText {
                sandbox_id: self.sandbox_id@,
                container_id: self.container_id@,
            },
            destination: self.destination@,
            read_only: self.read_only,
            snapshot_policy: self.snapshot_policy,
        }
    }
}

impl AttachmentRecord {
    /// Whether two records tell the same.
    fn same(&self, other: &AttachmentRecord) -> (r: bool)
        ensures
            r == (self@ == other@),
    {
        text::same(self.sandbox_id.as_str(), other.sandbox_id.as_str()) && text::same(
            self.container_id.as_str(),
            other.container_id.as_str(),
        ) && text::same(self.destination.as_str(), other.destination.as_str()) && self.read_only
            == other.read_only && self.snapshot_policy == other.snapshot_policy
    }
}

/// Attachments with their texts read as character sequences.
pub open spec fn attachment_texts(attachments: Map<Seq<char>, AttachmentRecord>) -> Map<
    Seq<char>,
    AttachmentText,
> {
    Map::new(|id: Seq<char>| attachments.contains_key(id), |id: Seq<char>| attachments[id]@)
}

/// What is kept of a volume.
#[derive(Debug)]
pub struct VolumeRecord {
    pub schema_version: u32,
    pub provider_id: String,
    pub key: String,
    pub tenant_id: String,
    pub workspace_id: String,
    pub volume_id: String,
    pub persistence_class: VolumePersistenceClass,
    pub quota_bytes: u64,
    pub content_digest: Option<String>,
    pub frozen: bool,
    pub attachments: Table<AttachmentRecord>,
}

/// A `VolumeRecord` with its texts read as character sequences. What identifies the volume is
/// read as a handle.
#[verifier::ext_equal]
pub struct RecordText {
    pub schema_version: u32,
    pub volume: HandleText,
    pub frozen: bool,
    pub attachments: Map<Seq<char>, AttachmentText>,
}

impl View for VolumeRecord {
    type V = RecordText;

    open spec fn view(&self) -> RecordText {
        RecordText {
            schema_version: self.schema_version,
            volume: HandleText {
                provider_id: self.provider_id@,
                key: self.key@,
                scope: ScopeText {
                    tenant_id: self.tenant_id@,
                    workspace_id: self.workspace_id@,
                },
                volume_id: self.volume_id@,
                persistence_class: self.persistence_class,
                quota_bytes: self.quota_bytes,
                content_digest: text::optional(self.content_digest),
            },
            frozen: self.frozen,
            attachments: attachment_texts(self.attachments@),
        }
    }
}

/// The handle of a volume of this provider.
pub open spec fn local_handle(scope: ScopeText, specification: VolumeSpec) -> HandleText {
    model::handle_of(
        LOCAL_VOLUME_PROVIDER_ID@,
        key_of(scope, specification.volume_id@),
        scope,
        specification,
    )
}

/// The handle of a volume.
pub fn handle(scope: &VolumeScope, specification: &VolumeSpec, key: String) -> (r: VolumeHandle)
    ensures
        r@ == model::handle_of(LOCAL_VOLUME_PROVIDER_ID@, key@, scope@, *specification),
{
    VolumeHandle::new(LOCAL_VOLUME_PROVIDER_ID, key, scope, specification)
}

/// The record of a new volume.
pub open spec fn record_of(volume: HandleText) -> RecordText {
    RecordText {
        schema_version: RECORD_VERSION,
        volume,
        frozen: false,
        attachments: Map::empty(),
    }
}

/// The record of a new volume.
pub fn new_record(handle: &VolumeHandle) -> (r: VolumeRecord)
    ensures
        r@ == record_of(handle@),
{
    let attachments: Table<AttachmentRecord> = Table::new();
    proof {
        assert(attachment_texts(attachments@) =~= Map::<Seq<char>, AttachmentText>::empty());
    }
    VolumeRecord {
        schema_version: RECORD_VERSION,
        provider_id: handle.provider_id().to_owned(),
        key: handle.key().to_owned(),
        tenant_id: handle.scope().tenant_id().to_owned(),
        workspace_id: handle.scope().workspace_id().to_owned(),
        volume_id: handle.volume_id().to_owned(),
        persistence_class: handle.persistence_class(),
        quota_bytes: handle.quota_bytes(),
        content_digest: copy_optional(handle.content_digest()),
        frozen: false,
        attachments,
    }
}

/// Why a handle is not one of this provider.
pub open spec fn handle_failure(handle: HandleText) -> Option<VolumeFailure> {
    checks::when(
        handle.provider_id != LOCAL_VOLUME_PROVIDER_ID@ || handle.key != key_of(
            handle.scope,
            handle.volume_id,
        ),
        VolumeFailure::AccessDenied("volume handle belongs to another provider"@),
    )
}

/// Accepts a handle of this provider, before its record is read.
pub fn check_handle(handle: &VolumeHandle) -> (r: Result<(), VolumeError>)
    ensures
        error::outcome(r) == checks::verdict(handle_failure(handle@)),
{
    let key = volume_key(handle.scope(), handle.volume_id());
    if !text::same(handle.provider_id(), LOCAL_VOLUME_PROVIDER_ID) || !text::same(
        handle.key(),
        key.as_str(),
    ) {
        return Err(
            VolumeError::AccessDenied("volume handle belongs to another provider".to_owned()),
        );
    }
    Ok(())
}

/// Why a record is not that of a volume of this provider.
pub open spec fn record_failure(volume: HandleText, record: RecordText) -> Option<VolumeFailure> {
    checks::when(
        record.schema_version != RECORD_VERSION || record.volume != (HandleText {
            provider_id: LOCAL_VOLUME_PROVIDER_ID@,
            ..volume
        }),
        VolumeFailure::AccessDenied(
            "volume identity or tenant scope does not match provider state"@,
        ),
    )
}

/// Accepts the record of a volume.
pub fn validate_record(handle: &VolumeHandle, record: &VolumeRecord) -> (r: Result<
    (),
    VolumeError,
>)
    ensures
        error::outcome(r) == checks::verdict(record_failure(handle@, record@)),
{
    if record.schema_version != RECORD_VERSION || !text::same(
        record.provider_id.as_str(),
        LOCAL_VOLUME_PROVIDER_ID,
    ) || !text::same(record.key.as_str(), handle.key()) || !text::same(
        record.tenant_id.as_str(),
        handle.scope().tenant_id(),
    ) || !text::same(record.workspace_id.as_str(), handle.scope().workspace_id()) || !text::same(
        record.volume_id.as_str(),
        handle.volume_id(),
    ) || record.persistence_class != handle.persistence_class() || record.quota_bytes
        != handle.quota_bytes() || !text::same_optional(
        &record.content_digest,
        handle.content_digest(),
    ) {
        return Err(
            VolumeError::AccessDenied(
                "volume identity or tenant scope does not match provider state".to_owned(),
            ),
        );
    }
    Ok(())
}

/// What the record of an attachment tells.
pub open spec fn told_of(attachment: AttachedText) -> AttachmentText {
    AttachmentText {
        owner: attachment.owner,
        destination: attachment.destination,
        read_only: attachment.read_only,
        snapshot_policy: attachment.snapshot_policy,
    }
}

/// Why a record does not know an attachment.
pub open spec fn attachment_failure(attachment: AttachedText, record: RecordText) -> Option<
    VolumeFailure,
> {
    checks::or(
        record_failure(attachment.handle, record),
        checks::when(
            !record.attachments.contains_key(attachment.attachment_id)
                || record.attachments[attachment.attachment_id] != told_of(attachment),
            VolumeFailure::AccessDenied(
                "volume attachment ownership does not match provider state"@,
            ),
        ),
    )
}

/// Accepts an attachment that the record of its volume knows.
pub fn validate_attachment(attachment: &VolumeAttachment, record: &VolumeRecord) -> (r: Result<
    (),
    VolumeError,
>)
    ensures
        error::outcome(r) == checks::verdict(attachment_failure(attachment@, record@)),
{
    match validate_record(attachment.handle(), record) {
        Ok(()) => {},
        Err(error) => return Err(error),
    }
    let known = match record.attachments.get(attachment.attachment_id()) {
        Some(held) => text::same(
            held.sandbox_id.as_str(),
            attachment.owner().sandbox_id.as_str(),
        ) && text::same(
            held.container_id.as_str(),
            attachment.owner().container_id.as_str(),
        ) && text::same(held.destination.as_str(), attachment.destination()) && held.read_only
            == attachment.read_only() && held.snapshot_policy == attachment.snapshot_policy(),
        None => false,
    };
    if !known {
        return Err(
            VolumeError::AccessDenied(
                "volume attachment ownership does not match provider state".to_owned(),
            ),
        );
    }
    Ok(())
}

/// Why a volume is not created. `check` is what the specification's own rules say of it.
pub open spec fn create_failure(
    config: LocalVolumeConfig,
    specification: VolumeSpec,
    check: Result<(), String>,
) -> Option<VolumeFailure> {
    match check {
        Err(reason) => Some(VolumeFailure::Invalid(reason@)),
        Ok(()) => checks::or(
            checks::when(
                specification.persistence_class.named() && !(config.minimum_quota_bytes
                    <= specification.quota_bytes <= config.maximum_quota_bytes),
                VolumeFailure::Invalid("named volume quota is outside provider limits"@),
            ),
            checks::when(
                specification.persistence_class is Secret && specification.quota_bytes
                    > config.maximum_quota_bytes,
                VolumeFailure::Invalid("secret tmpfs quota exceeds the provider limit"@),
            ),
        ),
    }
}

/// Begins to create a volume: returns its handle, before anything is looked up.
pub fn begin_create(
    config: &LocalVolumeConfig,
    scope: &VolumeScope,
    specification: &VolumeSpec,
    check: Result<(), String>,
) -> (r: Result<VolumeHandle, VolumeError>)
    ensures
        match r {
            Ok(handle) => create_failure(*config, *specification, check) is None && handle@
                == local_handle(scope@, *specification) && digest::is_hash(handle@.key),
            Err(error) => create_failure(*config, *specification, check) == Some(error@),
        },
{
    match check {
        Ok(()) => {},
        Err(reason) => return Err(VolumeError::Invalid(reason)),
    }
    if specification.persistence_class.is_named() && (specification.quota_bytes
        < config.minimum_quota_bytes || specification.quota_bytes > config.maximum_quota_bytes) {
        return Err(
            VolumeError::Invalid("named volume quota is outside provider limits".to_owned()),
        );
    }
    let is_secret = match specification.persistence_class {
        VolumePersistenceClass::Secret => true,
        _ => false,
    };
    if is_secret && specification.quota_bytes > config.maximum_quota_bytes {
        return Err(
            VolumeError::Invalid("secret tmpfs quota exceeds the provider limit".to_owned()),
        );
    }
    let key = volume_key(scope, specification.volume_id.as_str());
    Ok(handle(scope, specification, key))
}

/// Why the directory of a volume was not made.
pub fn directory_error(already_exists: bool, volume_id: &str, path: String, source: String) -> (r:
    VolumeError)
    ensures
        r@ == (if already_exists {
            VolumeFailure::AlreadyExists(volume_id@)
        } else {
            VolumeFailure::Io { path: path@, source: source@ }
        }),
{
    if already_exists {
        VolumeError::AlreadyExists(volume_id.to_owned())
    } else {
        VolumeError::Io { path, source }
    }
}

/// Why a volume is not attached.
pub open spec fn attach_failure(
    handle: HandleText,
    owner: OwnerText,
    specification: VolumeSpec,
    record: RecordText,
) -> Option<VolumeFailure> {
    let id = attachment_id_of(handle.key, owner, specification.destination@);
    checks::or(
        record_failure(handle, record),
        checks::or(
            checks::when(
                record.frozen,
                VolumeFailure::Invalid("cannot attach a frozen volume"@),
            ),
            checks::or(
                checks::when(
                    record.attachments.len() >= MAXIMUM_ATTACHMENTS,
                    VolumeFailure::Invalid("volume attachment limit exceeded"@),
                ),
                checks::when(
                    record.attachments.contains_key(id) && record.attachments[id] != told_of(
                        model::attachment_of(handle, id, owner, specification),
                    ),
                    VolumeFailure::AccessDenied("volume attachment identity collision"@),
                ),
            ),
        ),
    )
}

/// Why an attachment is not begun.
pub open spec fn begin_attach_failure(
    handle: HandleText,
    specification: VolumeSpec,
    check: Result<(), String>,
) -> Option<VolumeFailure> {
    checks::or(
        model::handle_spec_failure(handle, specification, check),
        handle_failure(handle),
    )
}

/// Begins to attach a volume, before its record is read.
pub fn begin_attach(
    handle: &VolumeHandle,
    specification: &VolumeSpec,
    check: Result<(), String>,
) -> (r: Result<(), VolumeError>)
    ensures
        error::outcome(r) == checks::verdict(begin_attach_failure(handle@, *specification, check)),
{
    match model::validate_handle_spec(handle, specification, check) {
        Ok(()) => {},
        Err(error) => return Err(error),
    }
    check_handle(handle)
}

/// The number of attachments is that of the identities.
pub proof fn lemma_attachment_count(attachments: Map<Seq<char>, AttachmentRecord>)
    ensures
        attachment_texts(attachments).dom() == attachments.dom(),
        attachment_texts(attachments).len() == attachments.len(),
{
    assert(attachment_texts(attachments).dom() =~= attachments.dom());
}

/// Attaches a volume: the record with the attachment, and the attachment.
pub fn attach(
    handle: &VolumeHandle,
    owner: AttachmentOwner,
    specification: &VolumeSpec,
    record: VolumeRecord,
) -> (r: Result<(VolumeRecord, VolumeAttachment), VolumeError>)
    ensures
        match r {
            Ok(attached) => {
                &&& attach_failure(handle@, owner@, *specification, record@) is None
                &&& attached.1@ == model::attachment_of(
                    handle@,
                    attachment_id_of(handle@.key, owner@, specification.destination@),
                    owner@,
                    *specification,
                )
                &&& attached.0@ == (RecordText {
                    attachments: record@.attachments.insert(
                        attached.1@.attachment_id,
                        told_of(attached.1@),
                    ),
                    ..record@
                })
            },
            Err(error) => attach_failure(handle@, owner@, *specification, record@) == Some(error@),
        },
{
    match validate_record(handle, &record) {
        Ok(()) => {},
        Err(error) => return Err(error),
    }
    if record.frozen {
        return Err(VolumeError::Invalid("cannot attach a frozen volume".to_owned()));
    }
    let ghost before = record@;
    let ghost held = record.attachments@;
    proof {
        lemma_attachment_count(held);
    }
    if record.attachments.len() >= MAXIMUM_ATTACHMENTS {
        return Err(VolumeError::Invalid("volume attachment limit exceeded".to_owned()));
    }
    let id = attachment_key(handle, &owner, specification.destination.as_str());
    let wanted = AttachmentRecord {
        sandbox_id: owner.sandbox_id.clone(),
        container_id: owner.container_id.clone(),
        destination: specification.destination.clone(),
        read_only: specification.read_only,
        snapshot_policy: specification.snapshot_policy,
    };
    let collides = match record.attachments.get(id.as_str()) {
        Some(existing) => !existing.same(&wanted),
        None => false,
    };
    if collides {
        return Err(VolumeError::AccessDenied("volume attachment identity collision".to_owned()));
    }
    let attachment = VolumeAttachment::new(handle, id.clone(), owner, specification);
    let ghost told = wanted@;
    let mut record = record;
    record.attachments.insert(id, wanted);
    proof {
        assert(attachment_texts(record.attachments@) =~= before.attachments.insert(
            attachment@.attachment_id,
            told,
        ));
    }
    Ok((record, attachment))
}

/// Where the contents of an attached volume lie.
#[derive(Debug, PartialEq, Eq)]
pub enum Storage {
    /// In the file system of the volume, which is mounted first.
    Named,
    /// In a published artifact of this digest and name.
    Artifact { digest: String, name: String },
    /// In the file system that holds the secret files.
    Secret,
}

/// Why an attached volume is not mounted.
pub open spec fn mount_failure(attachment: AttachedText, record: RecordText) -> Option<
    VolumeFailure,
> {
    checks::or(
        attachment_failure(attachment, record),
        checks::or(
            checks::when(
                record.frozen,
                VolumeFailure::Invalid("cannot mount a frozen volume"@),
            ),
            if attachment.handle.persistence_class is Artifact {
                match attachment.handle.content_digest {
                    None => Some(
                        VolumeFailure::Integrity("artifact handle omitted its digest"@),
                    ),
                    Some(digest) => checks::when(
                        !artifacts::is_artifact_digest(digest),
                        VolumeFailure::Integrity("artifact handle digest is malformed"@),
                    ),
                }
            } else {
                None
            },
        ),
    )
}

/// Begins to mount an attached volume, given its record: says where its contents lie.
pub fn begin_mount(attachment: &VolumeAttachment, record: &VolumeRecord) -> (r: Result<
    Storage,
    VolumeError,
>)
    ensures
        match r {
            Ok(storage) => {
                &&& mount_failure(attachment@, record@) is None
                &&& match attachment@.handle.persistence_class {
                    VolumePersistenceClass::Ephemeral | VolumePersistenceClass::Persistent =>
                    storage is Named,
                    VolumePersistenceClass::Artifact => storage matches Storage::Artifact {
                        digest,
                        name,
                    } && Some(digest@) == attachment@.handle.content_digest && text::utf8(name@)
                        == artifacts::artifact_hash(digest@),
                    VolumePersistenceClass::Secret => storage is Secret,
                }
            },
            Err(error) => mount_failure(attachment@, record@) == Some(error@),
        },
{
    match validate_attachment(attachment, record) {
        Ok(()) => {},
        Err(error) => return Err(error),
    }
    if record.frozen {
        return Err(VolumeError::Invalid("cannot mount a frozen volume".to_owned()));
    }
    match attachment.handle().persistence_class() {
        VolumePersistenceClass::Ephemeral | VolumePersistenceClass::Persistent => Ok(
            Storage::Named,
        ),
        VolumePersistenceClass::Artifact => match attachment.handle().content_digest() {
            None => Err(VolumeError::Integrity("artifact handle omitted its digest".to_owned())),
            Some(digest) => match artifact_name(digest.as_str()) {
                Some(name) => Ok(Storage::Artifact { digest: digest.clone(), name }),
                None => Err(
                    VolumeError::Integrity("artifact handle digest is malformed".to_owned()),
                ),
            },
        },
        VolumePersistenceClass::Secret => Ok(Storage::Secret),
    }
}

/// Accepts the file system that holds the secret files.
pub fn check_secret_storage(mounted: bool) -> (r: Result<(), VolumeError>)
    ensures
        error::outcome(r) == checks::verdict(
            checks::when(
                !mounted,
                VolumeFailure::Integrity("secret tmpfs is no longer mounted"@),
            ),
        ),
{
    if !mounted {
        return Err(VolumeError::Integrity("secret tmpfs is no longer mounted".to_owned()));
    }
    Ok(())
}

/// An attached volume whose contents were found at `source`.
pub fn finish_mount(attachment: &VolumeAttachment, source: String) -> (r: MountedVolume)
    ensures
        r@ == (MountedText { attachment: attachment@, source: source@ }),
{
    MountedVolume::new(attachment, source)
}

/// A step that the host takes on a volume; where one fails, those behind it are left out.
#[derive(Clone, Copy, Debug, PartialEq, Eq, Structural)]
pub enum VolumeStep {
    /// Thaw the file system, and write the record.
    Thaw,
    /// Thaw and unmount what an earlier run left mounted.
    Recover,
    /// Unmount the file system and detach its loop devices.
    Unmount,
    /// Remove the staging file of an unfinished restoration.
    DropStaging,
    /// Write the record.
    Write,
    /// Unmount, detach and remove the directory of the volume.
    Remove,
}

/// The steps behind the release of an attachment.
pub open spec fn release_steps(record: RecordText) -> Seq<VolumeStep> {
    if record.attachments != Map::<Seq<char>, AttachmentText>::empty() {
        seq![VolumeStep::Write]
    } else {
        (if record.frozen {
            seq![VolumeStep::Thaw]
        } else {
            Seq::empty()
        }) + (if record.volume.persistence_class is Persistent {
            seq![VolumeStep::Unmount, VolumeStep::Write]
        } else {
            seq![VolumeStep::Remove]
        })
    }
}

/// Releases an attachment: the record without it, and the steps to take.
pub fn release(attachment: &VolumeAttachment, record: VolumeRecord) -> (r: Result<
    (VolumeRecord, Vec<VolumeStep>),
    VolumeError,
>)
    ensures
        match r {
            Ok(released) => {
                &&& attachment_failure(attachment@, record@) is None
                &&& released.0@ == (RecordText {
                    attachments: record@.attachments.remove(attachment@.attachment_id),
                    ..record@
                })
                &&& released.1@ == release_steps(released.0@)
            },
            Err(error) => attachment_failure(attachment@, record@) == Some(error@),
        },
{
    match validate_attachment(attachment, &record) {
        Ok(()) => {},
        Err(error) => return Err(error),
    }
    let ghost before = record@;
    let mut record = record;
    record.attachments.remove(attachment.attachment_id());
    proof {
        assert(attachment_texts(record.attachments@) =~= before.attachments.remove(
            attachment@.attachment_id,
        ));
        lemma_no_attachments(record.attachments@);
    }
    let mut steps: Vec<VolumeStep> = Vec::new();
    if !record.attachments.is_empty() {
        steps.push(VolumeStep::Write);
    } else {
        if record.frozen {
            steps.push(VolumeStep::Thaw);
        }
        match record.persistence_class {
            VolumePersistenceClass::Persistent => {
                steps.push(VolumeStep::Unmount);
                steps.push(VolumeStep::Write);
            },
            _ => {
                steps.push(VolumeStep::Remove);
            },
        }
    }
    proof {
        assert(steps@ =~= release_steps(record@));
    }
    Ok((record, steps))
}

/// There are no attachments if and only if there are no identities.
pub proof fn lemma_no_attachments(attachments: Map<Seq<char>, AttachmentRecord>)
    ensures
        (attachment_texts(attachments) == Map::<Seq<char>, AttachmentText>::empty()) == (attachments
            == Map::<Seq<char>, AttachmentRecord>::empty()),
{
    if attachments == Map::<Seq<char>, AttachmentRecord>::empty() {
        assert(attachment_texts(attachments) =~= Map::<Seq<char>, AttachmentText>::empty());
    }
    if attachment_texts(attachments) == Map::<Seq<char>, AttachmentText>::empty() {
        assert forall|id: Seq<char>| !attachments.contains_key(id) by {
            assert(!attachment_texts(attachments).contains_key(id));
        }
        assert(attachments =~= Map::<Seq<char>, AttachmentRecord>::empty());
    }
}

/// Why a volume is not deleted.
pub open spec fn delete_failure(handle: HandleText, record: RecordText) -> Option<VolumeFailure> {
    checks::or(
        record_failure(handle, record),
        checks::when(
            record.attachments != Map::<Seq<char>, AttachmentText>::empty(),
            VolumeFailure::Invalid("cannot delete an attached volume"@),
        ),
    )
}

/// Begins to delete a volume: the steps to take.
pub fn delete_steps(handle: &VolumeHandle, record: &VolumeRecord) -> (r: Result<
    Vec<VolumeStep>,
    VolumeError,
>)
    ensures
        match r {
            Ok(steps) => {
                &&& delete_failure(handle@, record@) is None
                &&& steps@ == if record@.frozen {
                    seq![VolumeStep::Thaw, VolumeStep::Remove]
                } else {
                    seq![VolumeStep::Remove]
                }
            },
            Err(error) => delete_failure(handle@, record@) == Some(error@),
        },
{
    match validate_record(handle, record) {
        Ok(()) => {},
        Err(error) => return Err(error),
    }
    proof {
        lemma_no_attachments(record.attachments@);
    }
    if !record.attachments.is_empty() {
        return Err(VolumeError::Invalid("cannot delete an attached volume".to_owned()));
    }
    let mut steps: Vec<VolumeStep> = Vec::new();
    if record.frozen {
        steps.push(VolumeStep::Thaw);
    }
    steps.push(VolumeStep::Remove);
    proof {
        assert(steps@ =~= if record@.frozen {
            seq![VolumeStep::Thaw, VolumeStep::Remove]
        } else {
            seq![VolumeStep::Remove]
        });
    }
    Ok(steps)
}

/// A new volume is one of this provider, and its record is accepted.
pub proof fn law_created_volumes_are_accepted(scope: ScopeText, specification: VolumeSpec)
    ensures
        handle_failure(local_handle(scope, specification)) is None,
        record_failure(
            local_handle(scope, specification),
            record_of(local_handle(scope, specification)),
        ) is None,
{
}

/// An attachment is known to the record that it left, and no other attachment is lost by it.
pub proof fn law_attachments_are_known(
    handle: HandleText,
    owner: OwnerText,
    specification: VolumeSpec,
    record: RecordText,
    other: Seq<char>,
)
    requires
        attach_failure(handle, owner, specification, record) is None,
    ensures
        ({
            let id = attachment_id_of(handle.key, owner, specification.destination@);
            let attachment = model::attachment_of(handle, id, owner, specification);
            let after = RecordText {
                attachments: record.attachments.insert(id, told_of(attachment)),
                ..record
            };
            &&& attachment_failure(attachment, after) is None
            &&& record.attachments.contains_key(other) ==> after.attachments.contains_key(other)
                && after.attachments[other] == record.attachments[other]
        }),
{
}

/// A new attachment can be released, and its release leaves the record as it was.
pub proof fn law_release_undoes_attach(
    handle: HandleText,
    owner: OwnerText,
    specification: VolumeSpec,
    record: RecordText,
)
    requires
        attach_failure(handle, owner, specification, record) is None,
        !record.attachments.contains_key(
            attachment_id_of(handle.key, owner, specification.destination@),
        ),
    ensures
        ({
            let id = attachment_id_of(handle.key, owner, specification.destination@);
            let attachment = model::attachment_of(handle, id, owner, specification);
            let after = RecordText {
                attachments: record.attachments.insert(id, told_of(attachment)),
                ..record
            };
            &&& attachment_failure(attachment, after) is None
            &&& (RecordText {
                attachments: after.attachments.remove(attachment.attachment_id),
                ..after
            }) == record
        }),
{
    let id = attachment_id_of(handle.key, owner, specification.destination@);
    let attachment = model::attachment_of(handle, id, owner, specification);
    assert(record.attachments.insert(id, told_of(attachment)).remove(id) =~= record.attachments);
}

/// The record of a volume is refused to another tenant and to another workspace.
pub proof fn law_volumes_are_scoped(
    scope: ScopeText,
    other: ScopeText,
    specification: VolumeSpec,
    requested: VolumeSpec,
)
    requires
        scope != other,
    ensures
        record_failure(
            local_handle(other, requested),
            record_of(local_handle(scope, specification)),
        ) == Some(
            VolumeFailure::AccessDenied(
                "volume identity or tenant scope does not match provider state"@,
            ),
        ),
{
}

/// A persistent volume keeps its contents when its last attachment is released, and every
/// other volume is removed.
pub proof fn law_only_persistent_volumes_outlive_their_attachments(record: RecordText)
    requires
        record.attachments == Map::<Seq<char>, AttachmentText>::empty(),
    ensures
        release_steps(record).contains(VolumeStep::Remove) <==> !(
        record.volume.persistence_class is Persistent),
{
    let steps = release_steps(record);
    if !(record.volume.persistence_class is Persistent) {
        assert(steps[steps.len() - 1] == VolumeStep::Remove);
    }
}

/// A configuration is accepted exactly where its paths are absolute, its quotas are in order, an
/// operation takes at most an hour, and output is of at most sixteen mebibytes.
pub proof fn law_accepted_volume_configurations_are_bounded(
    config: LocalVolumeConfig,
    minimum_named_bytes: u64,
)
    ensures
        config.failure(minimum_named_bytes) is None <==> {
            &&& config::is_absolute(config.root@)
            &&& config::is_absolute(config.mkfs_ext4_program@)
            &&& config::is_absolute(config.losetup_program@)
            &&& config::is_absolute(config.fsfreeze_program@)
            &&& config::is_absolute(config.copy_program@)
            &&& minimum_named_bytes <= config.minimum_quota_bytes
            &&& config.minimum_quota_bytes <= config.maximum_quota_bytes
            &&& config.operation_timeout.within(3_600)
            &&& 1 <= config.maximum_output_bytes <= 16 * 1024 * 1024
        },
{
}

/// What a volume is keyed by: tenant, workspace and volume, with a zero between.
pub proof fn law_keys_are_hashes_of_tenant_workspace_and_volume(
    scope: ScopeText,
    volume_id: Seq<char>,
)
    ensures
        key_of(scope, volume_id) == digest::hash_text(
            text::utf8(scope.tenant_id) + seq![0u8] + text::utf8(scope.workspace_id) + seq![0u8]
                + text::utf8(volume_id),
        ),
{
    assert(key_preimage(scope, volume_id) =~= text::utf8(scope.tenant_id) + seq![0u8] + text::utf8(
        scope.workspace_id,
    ) + seq![0u8] + text::utf8(volume_id));
}

/// What an attachment is keyed by: volume key, sandbox, container and destination, with a zero
/// between.
pub proof fn law_attachment_keys_are_hashes_of_volume_owner_and_destination(
    key: Seq<char>,
    owner: OwnerText,
    destination: Seq<char>,
)
    ensures
        attachment_id_of(key, owner, destination) == digest::hash_text(
            text::utf8(key) + seq![0u8] + text::utf8(owner.sandbox_id) + seq![0u8] + text::utf8(
                owner.container_id,
            ) + seq![0u8] + text::utf8(destination),
        ),
{
    assert(attachment_preimage(key, owner, destination) =~= text::utf8(key) + seq![0u8]
        + text::utf8(owner.sandbox_id) + seq![0u8] + text::utf8(owner.container_id) + seq![0u8]
        + text::utf8(destination));
}

/// A new record is of the first version, thawed and without attachments.
pub proof fn law_new_records_are_thawed_and_free(volume: HandleText)
    ensures
        record_of(volume).schema_version == 1,
        record_of(volume).volume == volume,
        !record_of(volume).frozen,
        forall|id: Seq<char>| !#[trigger] record_of(volume).attachments.contains_key(id),
{
}

/// A handle is accepted exactly where it is of the local provider and has the key of its volume.
pub proof fn law_accepted_handles_are_local(
    handle: HandleText,
    scope: ScopeText,
    specification: VolumeSpec,
)
    ensures
        handle_failure(handle) is None <==> handle.provider_id == "local-loopback-v1"@ && handle.key
            == key_of(handle.scope, handle.volume_id),
        local_handle(scope, specification).provider_id == "local-loopback-v1"@,
        local_handle(scope, specification).scope == scope,
        local_handle(scope, specification).volume_id == specification.volume_id@,
        local_handle(scope, specification).key == key_of(scope, specification.volume_id@),
{
}

/// A record is of a handle exactly where it is of the first version and tells of the same volume.
pub proof fn law_records_are_of_their_handle(volume: HandleText, record: RecordText)
    ensures
        record_failure(volume, record) is None <==> {
            &&& record.schema_version == 1
            &&& record.volume.provider_id == "local-loopback-v1"@
            &&& record.volume.key == volume.key
            &&& record.volume.scope == volume.scope
            &&& record.volume.volume_id == volume.volume_id
            &&& record.volume.persistence_class == volume.persistence_class
            &&& record.volume.quota_bytes == volume.quota_bytes
            &&& record.volume.content_digest == volume.content_digest
        },
{
}

/// An attachment is accepted exactly where the record is of its volume and tells the same of it.
pub proof fn law_accepted_attachments_are_recorded(attachment: AttachedText, record: RecordText)
    ensures
        attachment_failure(attachment, record) is None <==> {
            &&& record_failure(attachment.handle, record) is None
            &&& record.attachments.contains_key(attachment.attachment_id)
            &&& record.attachments[attachment.attachment_id].owner == attachment.owner
            &&& record.attachments[attachment.attachment_id].destination == attachment.destination
            &&& record.attachments[attachment.attachment_id].read_only == attachment.read_only
            &&& record.attachments[attachment.attachment_id].snapshot_policy
                == attachment.snapshot_policy
        },
{
}

/// A volume is created exactly where its specification passed its own check, a named volume has a
/// quota between the limits, and a secret one no more than the upper one.
pub proof fn law_created_volumes_are_within_their_quota(
    config: LocalVolumeConfig,
    specification: VolumeSpec,
    check: Result<(), String>,
)
    ensures
        create_failure(config, specification, check) is None <==> {
            &&& check is Ok
            &&& specification.persistence_class is Ephemeral
                || specification.persistence_class is Persistent ==> config.minimum_quota_bytes
                <= specification.quota_bytes <= config.maximum_quota_bytes
            &&& specification.persistence_class is Secret ==> specification.quota_bytes
                <= config.maximum_quota_bytes
        },
{
}

/// A volume is attached exactly where the record is of it, it is not frozen, there is room, and no
/// other attachment has the identity.
pub proof fn law_attached_volumes_have_room(
    handle: HandleText,
    owner: OwnerText,
    specification: VolumeSpec,
    record: RecordText,
    id: Seq<char>,
)
    requires
        id == attachment_id_of(handle.key, owner, specification.destination@),
    ensures
        attach_failure(handle, owner, specification, record) is None <==> {
            &&& record_failure(handle, record) is None
            &&& !record.frozen
            &&& record.attachments.len() <= 1_023
            &&& record.attachments.contains_key(id) ==> {
                &&& record.attachments[id].owner == owner
                &&& record.attachments[id].destination == specification.destination@
                &&& record.attachments[id].read_only == specification.read_only
                &&& record.attachments[id].snapshot_policy == specification.snapshot_policy
            }
        },
{
}

/// An attachment begins where the specification fits the handle and the handle is local.
pub proof fn law_attachments_begin_with_a_fitting_handle(
    handle: HandleText,
    specification: VolumeSpec,
    check: Result<(), String>,
)
    ensures
        begin_attach_failure(handle, specification, check) is None
            <==> model::handle_spec_failure(handle, specification, check) is None
            && handle_failure(handle) is None,
{
}

/// A volume is mounted exactly where its attachment is accepted, it is not frozen, and an artifact
/// has a digest.
pub proof fn law_mounted_volumes_are_attached(attachment: AttachedText, record: RecordText)
    ensures
        mount_failure(attachment, record) is None <==> {
            &&& attachment_failure(attachment, record) is None
            &&& !record.frozen
            &&& attachment.handle.persistence_class is Artifact ==> (
            attachment.handle.content_digest matches Some(digest) && artifacts::is_artifact_digest(
                digest,
            ))
        },
{
}

/// A volume with attachments is written. Any other is thawed where it is frozen, and removed,
/// unless it is persistent: such a one is unmounted and written.
pub proof fn law_released_volumes_are_removed_unless_persistent(record: RecordText)
    ensures
        (exists|id: Seq<char>| #[trigger] record.attachments.contains_key(id)) ==> release_steps(
            record,
        ) == seq![VolumeStep::Write],
        record.attachments == Map::<Seq<char>, AttachmentText>::empty() ==> {
            &&& !record.frozen && !(record.volume.persistence_class is Persistent)
                ==> release_steps(record) == seq![VolumeStep::Remove]
            &&& record.frozen && !(record.volume.persistence_class is Persistent)
                ==> release_steps(record) == seq![VolumeStep::Thaw, VolumeStep::Remove]
            &&& !record.frozen && record.volume.persistence_class is Persistent ==> release_steps(
                record,
            ) == seq![VolumeStep::Unmount, VolumeStep::Write]
            &&& record.frozen && record.volume.persistence_class is Persistent ==> release_steps(
                record,
            ) == seq![VolumeStep::Thaw, VolumeStep::Unmount, VolumeStep::Write]
        },
{
    assert(seq![VolumeStep::Thaw] + seq![VolumeStep::Remove] =~= seq![
        VolumeStep::Thaw,
        VolumeStep::Remove,
    ]);
    assert(seq![VolumeStep::Thaw] + seq![VolumeStep::Unmount, VolumeStep::Write] =~= seq![
        VolumeStep::Thaw,
        VolumeStep::Unmount,
        VolumeStep::Write,
    ]);
    assert(Seq::<VolumeStep>::empty() + seq![VolumeStep::Remove] =~= seq![VolumeStep::Remove]);
    assert(Seq::<VolumeStep>::empty() + seq![VolumeStep::Unmount, VolumeStep::Write] =~= seq![
        VolumeStep::Unmount,
        VolumeStep::Write,
    ]);
    if exists|id: Seq<char>| #[trigger] record.attachments.contains_key(id) {
        let id = choose|id: Seq<char>| #[trigger] record.attachments.contains_key(id);
        assert(record.attachments != Map::<Seq<char>, AttachmentText>::empty());
    }
}

/// A volume is deleted exactly where the record is of it and it is attached nowhere.
pub proof fn law_deleted_volumes_are_attached_nowhere(handle: HandleText, record: RecordText)
    ensures
        delete_failure(handle, record) is None <==> record_failure(handle, record) is None && (
        forall|id: Seq<char>| !#[trigger] record.attachments.contains_key(id)),
{
    if forall|id: Seq<char>| !#[trigger] record.attachments.contains_key(id) {
        assert(record.attachments =~= Map::<Seq<char>, AttachmentText>::empty());
    }
}

/// The provider has one name, and its records and snapshots one version and format.
pub proof fn law_local_volumes_are_limited()
    ensures
        LOCAL_VOLUME_PROVIDER_ID@ == "local-loopback-v1"@,
        RECORD_VERSION == 1,
        VOLUME_SNAPSHOT_VERSION == 1,
        SNAPSHOT_FORMAT@ == "application/vnd.runtrue.volume.ext4.v1"@,
        MAXIMUM_ATTACHMENTS == 1_024,
        MAXIMUM_RECORD_BYTES == 1024 * 1024,
{
}

/// Each refusal of a local volume is of its kind: what is another's is denied, and what is malformed
/// or out of bounds is invalid.
pub proof fn law_refused_local_volumes_say_why(
    config: LocalVolumeConfig,
    minimum_named_bytes: u64,
    handle: HandleText,
    attachment: AttachedText,
    record: RecordText,
    owner: OwnerText,
    specification: VolumeSpec,
    check: Result<(), String>,
)
    ensures
        config.failure(minimum_named_bytes) matches Some(failure) ==> failure
            == VolumeFailure::Invalid("local volume provider configuration is invalid"@),
        handle_failure(handle) matches Some(failure) ==> failure == VolumeFailure::AccessDenied(
            "volume handle belongs to another provider"@,
        ),
        record_failure(handle, record) matches Some(failure) ==> failure
            == VolumeFailure::AccessDenied(
            "volume identity or tenant scope does not match provider state"@,
        ),
        record_failure(attachment.handle, record) is None ==> (attachment_failure(
            attachment,
            record,
        ) matches Some(failure) ==> failure == VolumeFailure::AccessDenied(
            "volume attachment ownership does not match provider state"@,
        )),
        record_failure(attachment.handle, record) is Some ==> attachment_failure(attachment, record)
            == record_failure(attachment.handle, record),
        check matches Err(reason) ==> create_failure(config, specification, check) == Some(
            VolumeFailure::Invalid(reason@),
        ),
        check is Ok && specification.persistence_class.named() ==> (create_failure(
            config,
            specification,
            check,
        ) matches Some(failure) ==> failure == VolumeFailure::Invalid(
            "named volume quota is outside provider limits"@,
        )),
        check is Ok && specification.persistence_class is Secret ==> (create_failure(
            config,
            specification,
            check,
        ) matches Some(failure) ==> failure == VolumeFailure::Invalid(
            "secret tmpfs quota exceeds the provider limit"@,
        )),
        record_failure(handle, record) is Some ==> attach_failure(
            handle,
            owner,
            specification,
            record,
        ) == record_failure(handle, record),
        record_failure(handle, record) is None && record.frozen ==> attach_failure(
            handle,
            owner,
            specification,
            record,
        ) == Some(VolumeFailure::Invalid("cannot attach a frozen volume"@)),
        record_failure(handle, record) is None && !record.frozen && record.attachments.len()
            >= 1_024 ==> attach_failure(handle, owner, specification, record) == Some(
            VolumeFailure::Invalid("volume attachment limit exceeded"@),
        ),
        record_failure(handle, record) is None && !record.frozen && record.attachments.len()
            < 1_024 ==> (attach_failure(handle, owner, specification, record) matches Some(failure)
            ==> failure == VolumeFailure::AccessDenied("volume attachment identity collision"@)),
        attachment_failure(attachment, record) is Some ==> mount_failure(attachment, record)
            == attachment_failure(attachment, record),
        attachment_failure(attachment, record) is None && record.frozen ==> mount_failure(
            attachment,
            record,
        ) == Some(VolumeFailure::Invalid("cannot mount a frozen volume"@)),
        record_failure(handle, record) is None ==> (delete_failure(handle, record) matches Some(
            failure,
        ) ==> failure == VolumeFailure::Invalid("cannot delete an attached volume"@)),
{
}

/// The attachments of a record are viewed one by one, under their identities.
pub proof fn law_local_attachments_are_viewed_by_identity(
    attachments: Map<Seq<char>, AttachmentRecord>,
    id: Seq<char>,
)
    ensures
        attachment_texts(attachments).contains_key(id) <==> attachments.contains_key(id),
        attachments.contains_key(id) ==> attachment_texts(attachments)[id] == attachments[id]@,
{
}

} // verus!

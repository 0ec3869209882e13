//! Named volumes that are plain directories of a shared file system.

use crate::bytes;
use crate::checks;
use crate::digest;
use crate::oci::error;
use crate::oci::model::{VolumePersistenceClass, VolumeSpec};
use crate::oci::provider::config;
use crate::oci::provider::config::absolute;
use crate::paths;
use crate::paths::component_list;
use crate::table::Table;
use crate::text;
use crate::text::{join3, Alphabet};
use crate::time::Duration;
use crate::volume::archive;
use crate::volume::archive::archive_limit;
use crate::volume::error::{VolumeError, VolumeFailure};
use crate::volume::meter::FileDigest;
use crate::volume::model;
use crate::volume::model::{
    AttachedText, AttachmentOwner, HandleText, MountedText, MountedVolume, OwnerText,
    PersistenceClasses, ScopeText, SnapshotPortability, SnapshotText, VolumeAttachment,
    VolumeCleanupReport, VolumeHandle, VolumeProviderCapabilities, VolumeScope, VolumeSnapshot,
};
use crate::volume::recovery;
use vstd::prelude::*;

verus! {

pub const DIRECTORY_VOLUME_PROVIDER_ID: &'static str = "directory-pvc-v1";

pub const RECORD_VERSION: u32 = 1;

pub const SNAPSHOT_VERSION: u32 = 2;

pub const SNAPSHOT_FORMAT: &'static str = "application/vnd.runtrue.volume.directory.tar.v1";

pub const MAXIMUM_RECORD_BYTES: u64 = 262_144;

pub const MAXIMUM_ATTACHMENTS: usize = 32;

/// How directory volumes are kept.
#[derive(Debug, Clone)]
pub struct DirectoryVolumeConfig {
    pub root: String,
    pub minimum_quota_bytes: u64,
    pub maximum_quota_bytes: u64,
    pub operation_timeout: Duration,
}

impl DirectoryVolumeConfig {
    /// The usual configuration, where named volumes hold at least `minimum_named_bytes`.
    pub fn new(root: String, minimum_named_bytes: u64) -> (r: Self)
        ensures
            r.root == root,
            r.minimum_quota_bytes == minimum_named_bytes,
            r.maximum_quota_bytes == 1_099_511_627_776,
            r.operation_timeout.nanoseconds == 300_000_000_000,
    {
        DirectoryVolumeConfig {
            root,
            minimum_quota_bytes: minimum_named_bytes,
            maximum_quota_bytes: 1_099_511_627_776,
            operation_timeout: Duration::from_secs(300),
        }
    }

    /// Why the configuration is refused.
    pub open spec fn failure(self, minimum_named_bytes: u64) -> Option<VolumeFailure> {
        checks::when(
            !(config::is_absolute(self.root@) && minimum_named_bytes <= self.minimum_quota_bytes
                <= self.maximum_quota_bytes && self.operation_timeout.within(3_600)),
            VolumeFailure::Invalid("directory volume provider configuration is invalid"@),
        )
    }

    /// Accepts a configuration.
    pub fn validate(&self, minimum_named_bytes: u64) -> (r: Result<(), VolumeError>)
        ensures
            error::outcome(r) == checks::verdict(self.failure(minimum_named_bytes)),
    {
        if !absolute(self.root.as_str()) || self.minimum_quota_bytes < minimum_named_bytes
            || self.maximum_quota_bytes < self.minimum_quota_bytes
            || !self.operation_timeout.is_within(3_600) {
            return Err(
                VolumeError::Invalid(
                    "directory volume provider configuration is invalid".to_owned(),
                ),
            );
        }
        Ok(())
    }
}

/// Accepts the root directory of the provider.
pub fn check_root(is_directory: bool, owned: bool) -> (r: Result<(), VolumeError>)
    ensures
        error::outcome(r) == checks::verdict(
            checks::when(
                !(is_directory && owned),
                VolumeFailure::AccessDenied(
                    "directory volume root must be owned by the worker identity"@,
                ),
            ),
        ),
{
    if !is_directory || !owned {
        return Err(
            VolumeError::AccessDenied(
                "directory volume root must be owned by the worker identity".to_owned(),
            ),
        );
    }
    Ok(())
}

/// What the worker may do to files of other owners.
#[derive(Clone, Copy, Debug, PartialEq, Eq, Structural)]
pub struct DirectoryAuthority {
    /// It may read and write them.
    pub gofer_access: bool,
    /// It may give files to other owners.
    pub ownership_restore: bool,
}

/// What the provider can do.
pub fn capabilities(authority: DirectoryAuthority) -> (r: VolumeProviderCapabilities)
    ensures
        ({
            let full = authority.gofer_access && authority.ownership_restore;
            &&& forall|class: VolumePersistenceClass|
                r.persistence_classes.has(class) <==> (!class.named() || full)
            &&& r.snapshot == full
            &&& !r.clone
            &&& r.snapshot_portability == SnapshotPortability::CrossWorkerSameBackend
        }),
{
    let full = authority.gofer_access && authority.ownership_restore;
    VolumeProviderCapabilities {
        persistence_classes: PersistenceClasses {
            ephemeral: full,
            persistent: full,
            artifact: true,
            secret: true,
        },
        snapshot: full,
        clone: false,
        snapshot_portability: SnapshotPortability::CrossWorkerSameBackend,
    }
}

/// Whether a handle is for this provider to serve; every other one is for the worker's own.
pub fn serves(handle: &VolumeHandle) -> (r: bool)
    ensures
        r == (handle@.provider_id == DIRECTORY_VOLUME_PROVIDER_ID@),
{
    text::same(handle.provider_id(), DIRECTORY_VOLUME_PROVIDER_ID)
}

/// What the key of a volume is the hash of.
pub open spec fn key_preimage(scope: ScopeText, volume_id: Seq<char>) -> Seq<u8> {
    text::utf8("runtrue-sandboxd/directory-volume/v1"@) + seq![0u8] + (bytes::sized(
        text::utf8(scope.tenant_id),
    ) + (bytes::sized(text::utf8(scope.workspace_id)) + (bytes::sized(text::utf8(volume_id))
        + Seq::empty())))
}

/// The key of a volume.
pub open spec fn key_of(scope: ScopeText, volume_id: Seq<char>) -> Seq<char> {
    digest::hash_text(key_preimage(scope, volume_id))
}

/// The key of a volume, from its tenant, its workspace and its name.
pub fn volume_key_values(tenant: &str, workspace: &str, volume: &str) -> (r: String)
    ensures
        r@ == key_of(ScopeText { tenant_id: tenant@, workspace_id: workspace@ }, volume@),
        digest::is_hash(r@),
{
    let mut preimage: Vec<u8> = text::copy_bytes(
        "runtrue-sandboxd/directory-volume/v1".as_bytes(),
    );
    preimage.push(0);
    bytes::push_sized(&mut preimage, tenant.as_bytes());
    bytes::push_sized(&mut preimage, workspace.as_bytes());
    bytes::push_sized(&mut preimage, volume.as_bytes());
    proof {
        assert(preimage@ =~= key_preimage(
            ScopeText { tenant_id: tenant@, workspace_id: workspace@ },
            volume@,
        ));
    }
    digest::hash(preimage.as_slice())
}

/// The key of a volume.
pub fn volume_key(scope: &VolumeScope, volume: &str) -> (r: String)
    ensures
        r@ == key_of(scope@, volume@),
        digest::is_hash(r@),
{
    let key = volume_key_values(scope.tenant_id(), scope.workspace_id(), volume);
    proof {
        assert(scope@ =~= (ScopeText {
            tenant_id: scope@.tenant_id,
            workspace_id: scope@.workspace_id,
        }));
    }
    key
}

/// Volumes of different tenants, workspaces or names have different key preimages.
pub proof fn law_keys_bind_tenant_workspace_and_volume(
    left: ScopeText,
    volume: Seq<char>,
    right: ScopeText,
    other: Seq<char>,
)
    requires
        text::utf8(left.tenant_id).len() <= u64::MAX,
        text::utf8(left.workspace_id).len() <= u64::MAX,
        text::utf8(volume).len() <= u64::MAX,
        text::utf8(right.tenant_id).len() <= u64::MAX,
        text::utf8(right.workspace_id).len() <= u64::MAX,
        text::utf8(other).len() <= u64::MAX,
        key_preimage(left, volume) == key_preimage(right, other),
    ensures
        left == right,
        volume == other,
{
    let head = text::utf8("runtrue-sandboxd/directory-volume/v1"@) + seq![0u8];
    let l3 = bytes::sized(text::utf8(volume)) + Seq::<u8>::empty();
    let r3 = bytes::sized(text::utf8(other)) + Seq::<u8>::empty();
    let l2 = bytes::sized(text::utf8(left.workspace_id)) + l3;
    let r2 = bytes::sized(text::utf8(right.workspace_id)) + r3;
    let l1 = bytes::sized(text::utf8(left.tenant_id)) + l2;
    let r1 = bytes::sized(text::utf8(right.tenant_id)) + r2;
    assert(key_preimage(left, volume) == head + l1);
    assert(key_preimage(right, other) == head + r1);
    assert((head + l1).skip(head.len() as int) =~= l1);
    assert((head + r1).skip(head.len() as int) =~= r1);
    bytes::lemma_sized_prefix(text::utf8(left.tenant_id), text::utf8(right.tenant_id), l2, r2);
    bytes::lemma_sized_prefix(
        text::utf8(left.workspace_id),
        text::utf8(right.workspace_id),
        l3,
        r3,
    );
    bytes::lemma_sized_prefix(
        text::utf8(volume),
        text::utf8(other),
        Seq::<u8>::empty(),
        Seq::<u8>::empty(),
    );
    text::lemma_utf8_injective(left.tenant_id, right.tenant_id);
    text::lemma_utf8_injective(left.workspace_id, right.workspace_id);
    text::lemma_utf8_injective(volume, other);
}

/// What the identity of an attachment is the hash of.
pub open spec fn attachment_preimage(
    key: Seq<char>,
    owner: OwnerText,
    destination: Seq<char>,
) -> Seq<u8> {
    text::utf8("runtrue-sandboxd/directory-attachment/v1"@) + seq![0u8] + (bytes::sized(
        text::utf8(key),
    ) + (bytes::sized(text::utf8(owner.sandbox_id)) + (bytes::sized(text::utf8(owner.container_id))
        + (bytes::sized(text::utf8(destination)) + Seq::empty()))))
}

/// The identity of an attachment.
pub open spec fn attachment_id_of(
    key: Seq<char>,
    owner: OwnerText,
    destination: Seq<char>,
) -> Seq<char> {
    digest::hash_text(attachment_preimage(key, owner, destination))
}

/// The identity of an attachment.
pub fn attachment_key(handle: &VolumeHandle, owner: &AttachmentOwner, destination: &str) -> (r:
    String)
    ensures
        r@ == attachment_id_of(handle@.key, owner@, destination@),
        digest::is_hash(r@),
{
    let mut preimage: Vec<u8> = text::copy_bytes(
        "runtrue-sandboxd/directory-attachment/v1".as_bytes(),
    );
    preimage.push(0);
    bytes::push_sized(&mut preimage, handle.key().as_bytes());
    bytes::push_sized(&mut preimage, owner.sandbox_id.as_str().as_bytes());
    bytes::push_sized(&mut preimage, owner.container_id.as_str().as_bytes());
    bytes::push_sized(&mut preimage, destination.as_bytes());
    proof {
        assert(preimage@ =~= attachment_preimage(handle@.key, owner@, destination@));
    }
    digest::hash(preimage.as_slice())
}

/// Attachments of different volumes, sandboxes, containers or destinations have different
/// identity preimages.
pub proof fn law_attachments_bind_volume_owner_and_destination(
    left_key: Seq<char>,
    left: OwnerText,
    destination: Seq<char>,
    right_key: Seq<char>,
    right: OwnerText,
    other: Seq<char>,
)
    requires
        text::utf8(left_key).len() <= u64::MAX,
        text::utf8(left.sandbox_id).len() <= u64::MAX,
        text::utf8(left.container_id).len() <= u64::MAX,
        text::utf8(destination).len() <= u64::MAX,
        text::utf8(right_key).len() <= u64::MAX,
        text::utf8(right.sandbox_id).len() <= u64::MAX,
        text::utf8(right.container_id).len() <= u64::MAX,
        text::utf8(other).len() <= u64::MAX,
        attachment_preimage(left_key, left, destination) == attachment_preimage(
            right_key,
            right,
            other,
        ),
    ensures
        left_key == right_key,
        left == right,
        destination == other,
{
    let head = text::utf8("runtrue-sandboxd/directory-attachment/v1"@) + seq![0u8];
    let l4 = bytes::sized(text::utf8(destination)) + Seq::<u8>::empty();
    let r4 = bytes::sized(text::utf8(other)) + Seq::<u8>::empty();
    let l3 = bytes::sized(text::utf8(left.container_id)) + l4;
    let r3 = bytes::sized(text::utf8(right.container_id)) + r4;
    let l2 = bytes::sized(text::utf8(left.sandbox_id)) + l3;
    let r2 = bytes::sized(text::utf8(right.sandbox_id)) + r3;
    let l1 = bytes::sized(text::utf8(left_key)) + l2;
    let r1 = bytes::sized(text::utf8(right_key)) + r2;
    assert(attachment_preimage(left_key, left, destination) == head + l1);
    assert(attachment_preimage(right_key, right, other) == head + r1);
    assert((head + l1).skip(head.len() as int) =~= l1);
    assert((head + r1).skip(head.len() as int) =~= r1);
    bytes::lemma_sized_prefix(text::utf8(left_key), text::utf8(right_key), l2, r2);
    bytes::lemma_sized_prefix(text::utf8(left.sandbox_id), text::utf8(right.sandbox_id), l3, r3);
    bytes::lemma_sized_prefix(
        text::utf8(left.container_id),
        text::utf8(right.container_id),
        l4,
        r4,
    );
    bytes::lemma_sized_prefix(
        text::utf8(destination),
        text::utf8(other),
        Seq::<u8>::empty(),
        Seq::<u8>::empty(),
    );
    text::lemma_utf8_injective(left_key, right_key);
    text::lemma_utf8_injective(left.sandbox_id, right.sandbox_id);
    text::lemma_utf8_injective(left.container_id, right.container_id);
    text::lemma_utf8_injective(destination, other);
}

/// What is kept of an attachment.
#[derive(Debug, PartialEq, Eq)]
pub struct AttachmentRecord {
    pub sandbox: String,
    pub container: String,
    pub destination: String,
    pub read_only: bool,
}

/// An `AttachmentRecord` with its texts read as character sequences.
#[verifier::ext_equal]
pub struct AttachmentText {
    pub owner: OwnerText,
    pub destination: Seq<char>,
    pub read_only: bool,
}

impl View for AttachmentRecord {
    type V = AttachmentText;

    open spec fn view(&self) -> AttachmentText {
        AttachmentText {
            owner: OwnerText { sandbox_id: self.sandbox@, container_id: self.container@ },
            destination: self.destination@,
            read_only: self.read_only,
        }
    }
}

impl AttachmentRecord {
    /// Whether two records tell the same.
    fn same(&self, other: &AttachmentRecord) -> (r: bool)
        ensures
            r == (self@ == other@),
    {
        text::same(self.sandbox.as_str(), other.sandbox.as_str()) && text::same(
            self.container.as_str(),
            other.container.as_str(),
        ) && text::same(self.destination.as_str(), other.destination.as_str()) && self.read_only
            == other.read_only
    }
}

/// Attachments with their texts read as character sequences.
pub open spec fn attachment_texts(attachments: Map<Seq<char>, AttachmentRecord>) -> Map<
    Seq<char>,
    AttachmentText,
> {
    Map::new(|id: Seq<char>| attachments.contains_key(id), |id: Seq<char>| attachments[id]@)
}

/// The number of attachments is that of the identities, and there are none of either or some
/// of both.
proof fn lemma_attachments(attachments: Map<Seq<char>, AttachmentRecord>)
    ensures
        attachment_texts(attachments).len() == attachments.len(),
        (attachment_texts(attachments) == Map::<Seq<char>, AttachmentText>::empty()) == (attachments
            == Map::<Seq<char>, AttachmentRecord>::empty()),
{
    assert(attachment_texts(attachments).dom() =~= attachments.dom());
    if attachments == Map::<Seq<char>, AttachmentRecord>::empty() {
        assert(attachment_texts(attachments) =~= Map::<Seq<char>, AttachmentText>::empty());
    }
    if attachment_texts(attachments) == Map::<Seq<char>, AttachmentText>::empty() {
        assert forall|id: Seq<char>| !attachments.contains_key(id) by {
            assert(!attachment_texts(attachments).contains_key(id));
        }
        assert(attachments =~= Map::<Seq<char>, AttachmentRecord>::empty());
    }
}

/// What is kept of a volume.
#[derive(Debug)]
pub struct VolumeRecord {
    pub schema_version: u32,
    pub provider_id: String,
    pub key: String,
    pub tenant: String,
    pub workspace: String,
    pub volume_id: String,
    pub persistence_class: VolumePersistenceClass,
    pub quota_bytes: u64,
    pub frozen: bool,
    pub attachments: Table<AttachmentRecord>,
}

/// What identifies a volume.
#[verifier::ext_equal]
pub struct VolumeText {
    pub provider_id: Seq<char>,
    pub key: Seq<char>,
    pub scope: ScopeText,
    pub volume_id: Seq<char>,
    pub persistence_class: VolumePersistenceClass,
    pub quota_bytes: u64,
}

/// What identifies the volume of a handle.
pub open spec fn volume_of(handle: HandleText) -> VolumeText {
    VolumeText {
        provider_id: handle.provider_id,
        key: handle.key,
        scope: handle.scope,
        volume_id: handle.volume_id,
        persistence_class: handle.persistence_class,
        quota_bytes: handle.quota_bytes,
    }
}

/// A `VolumeRecord` with its texts read as character sequences.
#[verifier::ext_equal]
pub struct RecordText {
    pub schema_version: u32,
    pub volume: VolumeText,
    pub frozen: bool,
    pub attachments: Map<Seq<char>, AttachmentText>,
}

impl View for VolumeRecord {
    type V = RecordText;

    open spec fn view(&self) -> RecordText {
        RecordText {
            schema_version: self.schema_version,
            volume: VolumeText {
                provider_id: self.provider_id@,
                key: self.key@,
                scope: ScopeText { tenant_id: self.tenant@, workspace_id: self.workspace@ },
                volume_id: self.volume_id@,
                persistence_class: self.persistence_class,
                quota_bytes: self.quota_bytes,
            },
            frozen: self.frozen,
            attachments: attachment_texts(self.attachments@),
        }
    }
}

/// The handle of a volume of this provider.
pub open spec fn directory_handle(scope: ScopeText, specification: VolumeSpec) -> HandleText {
    model::handle_of(
        DIRECTORY_VOLUME_PROVIDER_ID@,
        key_of(scope, specification.volume_id@),
        scope,
        specification,
    )
}

/// Why a volume is not created. `check` is what the specification's own rules say of it.
pub open spec fn create_failure(
    config: DirectoryVolumeConfig,
    authority: DirectoryAuthority,
    specification: VolumeSpec,
    check: Result<(), String>,
) -> Option<VolumeFailure> {
    checks::or(
        checks::when(
            !(authority.gofer_access && authority.ownership_restore),
            VolumeFailure::Unsupported(
                "named writable volumes require CHOWN and DAC_OVERRIDE or an idmapped storage backend"@,
            ),
        ),
        match check {
            Err(reason) => Some(VolumeFailure::Invalid(reason@)),
            Ok(()) => checks::when(
                !(specification.persistence_class.named() && config.minimum_quota_bytes
                    <= specification.quota_bytes <= config.maximum_quota_bytes),
                VolumeFailure::Unsupported(
                    "directory provider accepts bounded ephemeral or persistent volumes"@,
                ),
            ),
        },
    )
}

/// Begins to create a volume: returns its handle, before anything is looked up.
pub fn begin_create(
    config: &DirectoryVolumeConfig,
    authority: DirectoryAuthority,
    scope: &VolumeScope,
    specification: &VolumeSpec,
    check: Result<(), String>,
) -> (r: Result<VolumeHandle, VolumeError>)
    ensures
        match r {
            Ok(handle) => create_failure(*config, authority, *specification, check) is None
                && handle@ == directory_handle(scope@, *specification) && digest::is_hash(
                handle@.key,
            ),
            Err(error) => create_failure(*config, authority, *specification, check) == Some(
                error@,
            ),
        },
{
    if !authority.gofer_access || !authority.ownership_restore {
        return Err(
            VolumeError::Unsupported(
                "named writable volumes require CHOWN and DAC_OVERRIDE or an idmapped storage backend".to_owned(),
            ),
        );
    }
    match check {
        Ok(()) => {},
        Err(reason) => return Err(VolumeError::Invalid(reason)),
    }
    if !specification.persistence_class.is_named() || specification.quota_bytes
        < config.minimum_quota_bytes || specification.quota_bytes > config.maximum_quota_bytes {
        return Err(
            VolumeError::Unsupported(
                "directory provider accepts bounded ephemeral or persistent volumes".to_owned(),
            ),
        );
    }
    let key = volume_key(scope, specification.volume_id.as_str());
    Ok(VolumeHandle::new(DIRECTORY_VOLUME_PROVIDER_ID, key, scope, specification))
}

/// The record of a new volume.
pub open spec fn record_of(volume: VolumeText) -> RecordText {
    RecordText {
        schema_version: RECORD_VERSION,
        volume,
        frozen: false,
        attachments: Map::empty(),
    }
}

/// The record of a new volume.
pub fn new_record(handle: &VolumeHandle) -> (r: VolumeRecord)
    ensures
        r@ == record_of(volume_of(handle@)),
{
    let attachments: Table<AttachmentRecord> = Table::new();
    proof {
        assert(attachment_texts(attachments@) =~= Map::<Seq<char>, AttachmentText>::empty());
    }
    VolumeRecord {
        schema_version: RECORD_VERSION,
        provider_id: handle.provider_id().to_owned(),
        key: handle.key().to_owned(),
        tenant: handle.scope().tenant_id().to_owned(),
        workspace: handle.scope().workspace_id().to_owned(),
        volume_id: handle.volume_id().to_owned(),
        persistence_class: handle.persistence_class(),
        quota_bytes: handle.quota_bytes(),
        frozen: false,
        attachments,
    }
}

/// Why a record is not that of a volume of this provider.
pub open spec fn record_failure(handle: HandleText, record: RecordText) -> Option<VolumeFailure> {
    checks::when(
        record.schema_version != RECORD_VERSION || record.volume != (VolumeText {
            provider_id: DIRECTORY_VOLUME_PROVIDER_ID@,
            ..volume_of(handle)
        }) || record.attachments.len() > MAXIMUM_ATTACHMENTS,
        VolumeFailure::Integrity("directory volume metadata does not match its identity"@),
    )
}

/// Accepts the record of a volume.
pub fn validate_record(handle: &VolumeHandle, record: &VolumeRecord) -> (r: Result<
    (),
    VolumeError,
>)
    ensures
        error::outcome(r) == checks::verdict(record_failure(handle@, record@)),
{
    proof {
        lemma_attachments(record.attachments@);
    }
    if record.schema_version != RECORD_VERSION || !text::same(
        record.provider_id.as_str(),
        DIRECTORY_VOLUME_PROVIDER_ID,
    ) || !text::same(record.key.as_str(), handle.key()) || !text::same(
        record.tenant.as_str(),
        handle.scope().tenant_id(),
    ) || !text::same(record.workspace.as_str(), handle.scope().workspace_id()) || !text::same(
        record.volume_id.as_str(),
        handle.volume_id(),
    ) || record.persistence_class != handle.persistence_class() || record.quota_bytes
        != handle.quota_bytes() || record.attachments.len() > MAXIMUM_ATTACHMENTS {
        return Err(
            VolumeError::Integrity(
                "directory volume metadata does not match its identity".to_owned(),
            ),
        );
    }
    Ok(())
}

/// Why a volume that is there is not used again.
pub open spec fn reuse_failure(handle: HandleText, record: RecordText) -> Option<VolumeFailure> {
    checks::or(
        record_failure(handle, record),
        checks::when(
            !(handle.persistence_class is Persistent) || record.frozen || record.attachments
                != Map::<Seq<char>, AttachmentText>::empty(),
            VolumeFailure::AlreadyExists(handle.volume_id),
        ),
    )
}

/// Accepts a volume that is there, to be used again.
pub fn check_reuse(handle: &VolumeHandle, record: &VolumeRecord) -> (r: Result<(), VolumeError>)
    ensures
        error::outcome(r) == checks::verdict(reuse_failure(handle@, record@)),
{
    match validate_record(handle, record) {
        Ok(()) => {},
        Err(error) => return Err(error),
    }
    proof {
        lemma_attachments(record.attachments@);
    }
    let persistent = match handle.persistence_class() {
        VolumePersistenceClass::Persistent => true,
        _ => false,
    };
    if !persistent || record.frozen || !record.attachments.is_empty() {
        return Err(VolumeError::AlreadyExists(handle.volume_id().to_owned()));
    }
    Ok(())
}

/// Why a handle is not one of this provider.
pub open spec fn handle_failure(handle: HandleText) -> Option<VolumeFailure> {
    checks::when(
        handle.provider_id != DIRECTORY_VOLUME_PROVIDER_ID@ || handle.key != key_of(
            handle.scope,
            handle.volume_id,
        ),
        VolumeFailure::AccessDenied("volume handle belongs to another provider"@),
    )
}

/// Accepts a handle of this provider, before its record is read.
pub fn check_handle(handle: &VolumeHandle) -> (r: Result<(), VolumeError>)
    ensures
        error::outcome(r) == checks::verdict(handle_failure(handle@)),
{
    let key = volume_key(handle.scope(), handle.volume_id());
    if !text::same(handle.provider_id(), DIRECTORY_VOLUME_PROVIDER_ID) || !text::same(
        handle.key(),
        key.as_str(),
    ) {
        return Err(
            VolumeError::AccessDenied("volume handle belongs to another provider".to_owned()),
        );
    }
    Ok(())
}

/// What the record of an attachment tells.
pub open spec fn told_of(attachment: AttachedText) -> AttachmentText {
    AttachmentText {
        owner: attachment.owner,
        destination: attachment.destination,
        read_only: attachment.read_only,
    }
}

/// Why a record does not know an attachment.
pub open spec fn attachment_failure(attachment: AttachedText, record: RecordText) -> Option<
    VolumeFailure,
> {
    checks::or(
        record_failure(attachment.handle, record),
        checks::when(
            !record.attachments.contains_key(attachment.attachment_id)
                || record.attachments[attachment.attachment_id] != told_of(attachment),
            VolumeFailure::AccessDenied("volume attachment does not match its provider record"@),
        ),
    )
}

/// Accepts an attachment that the record of its volume knows.
pub fn validate_attachment(attachment: &VolumeAttachment, record: &VolumeRecord) -> (r: Result<
    (),
    VolumeError,
>)
    ensures
        error::outcome(r) == checks::verdict(attachment_failure(attachment@, record@)),
{
    match validate_record(attachment.handle(), record) {
        Ok(()) => {},
        Err(error) => return Err(error),
    }
    let known = match record.attachments.get(attachment.attachment_id()) {
        Some(held) => text::same(
            held.sandbox.as_str(),
            attachment.owner().sandbox_id.as_str(),
        ) && text::same(
            held.container.as_str(),
            attachment.owner().container_id.as_str(),
        ) && text::same(held.destination.as_str(), attachment.destination()) && held.read_only
            == attachment.read_only(),
        None => false,
    };
    if !known {
        return Err(
            VolumeError::AccessDenied(
                "volume attachment does not match its provider record".to_owned(),
            ),
        );
    }
    Ok(())
}

/// Why an attachment is not begun.
pub open spec fn begin_attach_failure(
    handle: HandleText,
    specification: VolumeSpec,
    check: Result<(), String>,
) -> Option<VolumeFailure> {
    checks::or(
        model::handle_spec_failure(handle, specification, check),
        handle_failure(handle),
    )
}

/// Begins to attach a volume, before its record is read.
pub fn begin_attach(
    handle: &VolumeHandle,
    specification: &VolumeSpec,
    check: Result<(), String>,
) -> (r: Result<(), VolumeError>)
    ensures
        error::outcome(r) == checks::verdict(begin_attach_failure(handle@, *specification, check)),
{
    match model::validate_handle_spec(handle, specification, check) {
        Ok(()) => {},
        Err(error) => return Err(error),
    }
    check_handle(handle)
}

/// Why a volume is not attached.
pub open spec fn attach_failure(
    handle: HandleText,
    owner: OwnerText,
    specification: VolumeSpec,
    record: RecordText,
) -> Option<VolumeFailure> {
    let id = attachment_id_of(handle.key, owner, specification.destination@);
    checks::or(
        record_failure(handle, record),
        checks::or(
            checks::when(
                record.frozen || record.attachments.len() >= MAXIMUM_ATTACHMENTS,
                VolumeFailure::Invalid("directory volume is frozen or at its attachment limit"@),
            ),
            checks::when(
                record.attachments.contains_key(id) && record.attachments[id] != told_of(
                    model::attachment_of(handle, id, owner, specification),
                ),
                VolumeFailure::AccessDenied("volume attachment identity collision"@),
            ),
        ),
    )
}

/// Attaches a volume: the record with the attachment, and the attachment.
pub fn attach(
    handle: &VolumeHandle,
    owner: AttachmentOwner,
    specification: &VolumeSpec,
    record: VolumeRecord,
) -> (r: Result<(VolumeRecord, VolumeAttachment), VolumeError>)
    ensures
        match r {
            Ok(attached) => {
                &&& attach_failure(handle@, owner@, *specification, record@) is None
                &&& attached.1@ == model::attachment_of(
                    handle@,
                    attachment_id_of(handle@.key, owner@, specification.destination@),
                    owner@,
                    *specification,
                )
                &&& attached.0@ == (RecordText {
                    attachments: record@.attachments.insert(
                        attached.1@.attachment_id,
                        told_of(attached.1@),
                    ),
                    ..record@
                })
            },
            Err(error) => attach_failure(handle@, owner@, *specification, record@) == Some(error@),
        },
{
    match validate_record(handle, &record) {
        Ok(()) => {},
        Err(error) => return Err(error),
    }
    let ghost before = record@;
    proof {
        lemma_attachments(record.attachments@);
    }
    if record.frozen || record.attachments.len() >= MAXIMUM_ATTACHMENTS {
        return Err(
            VolumeError::Invalid(
                "directory volume is frozen or at its attachment limit".to_owned(),
            ),
        );
    }
    let id = attachment_key(handle, &owner, specification.destination.as_str());
    let wanted = AttachmentRecord {
        sandbox: owner.sandbox_id.clone(),
        container: owner.container_id.clone(),
        destination: specification.destination.clone(),
        read_only: specification.read_only,
    };
    let collides = match record.attachments.get(id.as_str()) {
        Some(existing) => !existing.same(&wanted),
        None => false,
    };
    if collides {
        return Err(VolumeError::AccessDenied("volume attachment identity collision".to_owned()));
    }
    let attachment = VolumeAttachment::new(handle, id.clone(), owner, specification);
    let ghost told = wanted@;
    let mut record = record;
    record.attachments.insert(id, wanted);
    proof {
        assert(attachment_texts(record.attachments@) =~= before.attachments.insert(
            attachment@.attachment_id,
            told,
        ));
    }
    Ok((record, attachment))
}

/// Why an attached volume is not mounted.
pub open spec fn mount_failure(attachment: AttachedText, record: RecordText) -> Option<
    VolumeFailure,
> {
    checks::or(
        attachment_failure(attachment, record),
        checks::when(
            record.frozen,
            VolumeFailure::Invalid("cannot mount a frozen directory volume"@),
        ),
    )
}

/// Begins to mount an attached volume, before its directory is resolved.
pub fn begin_mount(attachment: &VolumeAttachment, record: &VolumeRecord) -> (r: Result<
    (),
    VolumeError,
>)
    ensures
        error::outcome(r) == checks::verdict(mount_failure(attachment@, record@)),
{
    match validate_attachment(attachment, record) {
        Ok(()) => {},
        Err(error) => return Err(error),
    }
    if record.frozen {
        return Err(VolumeError::Invalid("cannot mount a frozen directory volume".to_owned()));
    }
    Ok(())
}

/// The path starts at the root.
pub open spec fn is_rooted(path: Seq<u8>) -> bool {
    path.len() > 0 && path[0] == 47
}

/// `path` is `root` or lies below it.
pub open spec fn is_within(path: Seq<u8>, root: Seq<u8>) -> bool {
    let parts = paths::components(path);
    let above = paths::components(root);
    is_rooted(path) == is_rooted(root) && above.len() <= parts.len() && parts.take(
        above.len() as int,
    ) == above
}

/// Whether `path` is `root` or lies below it.
pub fn within(path: &[u8], root: &[u8]) -> (r: bool)
    ensures
        r == is_within(path@, root@),
{
    let parts = component_list(path);
    let above = component_list(root);
    let ghost all = paths::components(path@);
    let ghost upper = paths::components(root@);
    proof {
        assert(paths::strings(parts@).len() == parts@.len());
        assert(paths::strings(above@).len() == above@.len());
    }
    let rooted = path.len() > 0 && path[0] == 47;
    let root_rooted = root.len() > 0 && root[0] == 47;
    if rooted != root_rooted || above.len() > parts.len() {
        return false;
    }
    let mut i: usize = 0;
    while i < above.len()
        invariant
            i <= above@.len() == upper.len(),
            upper.len() <= all.len() == parts@.len(),
            paths::strings(parts@) == all,
            paths::strings(above@) == upper,
            all == paths::components(path@),
            upper == paths::components(root@),
            forall|j: int| 0 <= j < i ==> #[trigger] all[j] == upper[j],
        decreases above@.len() - i,
    {
        proof {
            assert(paths::strings(parts@)[i as int] == parts@[i as int]@);
            assert(paths::strings(above@)[i as int] == above@[i as int]@);
        }
        if !text::same_bytes(parts[i].as_slice(), above[i].as_slice()) {
            proof {
                assert(all.take(upper.len() as int)[i as int] != upper[i as int]);
            }
            return false;
        }
        i += 1;
    }
    proof {
        assert(all.take(upper.len() as int) =~= upper);
    }
    true
}

/// Mounts an attached volume whose directory resolves to `source`.
pub fn finish_mount(attachment: &VolumeAttachment, root: &str, source: String) -> (r: Result<
    MountedVolume,
    VolumeError,
>)
    ensures
        match r {
            Ok(mounted) => is_within(text::utf8(source@), text::utf8(root@)) && mounted@ == (
            MountedText { attachment: attachment@, source: source@ }),
            Err(error) => !is_within(text::utf8(source@), text::utf8(root@)) && error@
                == VolumeFailure::AccessDenied("directory volume escaped its provider root"@),
        },
{
    if !within(source.as_str().as_bytes(), root.as_bytes()) {
        return Err(
            VolumeError::AccessDenied("directory volume escaped its provider root".to_owned()),
        );
    }
    Ok(MountedVolume::new(attachment, source))
}

/// Releases an attachment: the record without it.
pub fn release(attachment: &VolumeAttachment, record: VolumeRecord) -> (r: Result<
    VolumeRecord,
    VolumeError,
>)
    ensures
        match r {
            Ok(released) => {
                &&& attachment_failure(attachment@, record@) is None
                &&& released@ == (RecordText {
                    attachments: record@.attachments.remove(attachment@.attachment_id),
                    ..record@
                })
            },
            Err(error) => attachment_failure(attachment@, record@) == Some(error@),
        },
{
    match validate_attachment(attachment, &record) {
        Ok(()) => {},
        Err(error) => return Err(error),
    }
    let ghost before = record@;
    let mut record = record;
    record.attachments.remove(attachment.attachment_id());
    proof {
        assert(attachment_texts(record.attachments@) =~= before.attachments.remove(
            attachment@.attachment_id,
        ));
    }
    Ok(record)
}

/// Begins to freeze a volume, before its record is read.
pub fn begin_freeze(authority: DirectoryAuthority) -> (r: Result<(), VolumeError>)
    ensures
        error::outcome(r) == checks::verdict(
            checks::when(
                !authority.ownership_restore,
                VolumeFailure::Unsupported(
                    "directory snapshots require CHOWN or an idmapped storage backend"@,
                ),
            ),
        ),
{
    if !authority.ownership_restore {
        return Err(
            VolumeError::Unsupported(
                "directory snapshots require CHOWN or an idmapped storage backend".to_owned(),
            ),
        );
    }
    Ok(())
}

/// Freezes an attached volume, or thaws it: the record of it.
pub fn mark(attachment: &VolumeAttachment, record: VolumeRecord, frozen: bool) -> (r: Result<
    VolumeRecord,
    VolumeError,
>)
    ensures
        match r {
            Ok(marked) => attachment_failure(attachment@, record@) is None && marked@ == (
            RecordText { frozen, ..record@ }),
            Err(error) => attachment_failure(attachment@, record@) == Some(error@),
        },
{
    match validate_attachment(attachment, &record) {
        Ok(()) => {},
        Err(error) => return Err(error),
    }
    let mut record = record;
    record.frozen = frozen;
    Ok(record)
}

/// Why no snapshot is taken of an attached volume.
pub open spec fn snapshot_failure(
    authority: DirectoryAuthority,
    attachment: AttachedText,
    record: RecordText,
) -> Option<VolumeFailure> {
    checks::or(
        attachment_failure(attachment, record),
        checks::when(
            !record.frozen || !authority.ownership_restore,
            VolumeFailure::Unsupported("directory volume snapshot ownership is unavailable"@),
        ),
    )
}

/// Begins to take a snapshot of an attached volume.
pub fn begin_snapshot(
    authority: DirectoryAuthority,
    attachment: &VolumeAttachment,
    record: &VolumeRecord,
) -> (r: Result<(), VolumeError>)
    ensures
        error::outcome(r) == checks::verdict(
            snapshot_failure(authority, attachment@, record@),
        ),
{
    match validate_attachment(attachment, record) {
        Ok(()) => {},
        Err(error) => return Err(error),
    }
    if !record.frozen || !authority.ownership_restore {
        return Err(
            VolumeError::Unsupported(
                "directory volume snapshot ownership is unavailable".to_owned(),
            ),
        );
    }
    Ok(())
}

/// What is told of a snapshot whose archive has the digest and the size.
pub open spec fn snapshot_of(
    volume_id: Seq<char>,
    volume: VolumeText,
    digest: Seq<char>,
    size_bytes: u64,
) -> SnapshotText {
    SnapshotText {
        schema_version: SNAPSHOT_VERSION,
        provider_id: DIRECTORY_VOLUME_PROVIDER_ID@,
        volume_id,
        persistence_class: volume.persistence_class,
        digest,
        size_bytes,
        quota_bytes: volume.quota_bytes,
        format: SNAPSHOT_FORMAT@,
        portability: SnapshotPortability::CrossWorkerSameBackend,
    }
}

/// Describes the snapshot of a volume.
pub fn new_snapshot(attachment: &VolumeAttachment, record: &VolumeRecord, file: FileDigest) -> (r:
    VolumeSnapshot)
    ensures
        r@ == snapshot_of(
            attachment@.handle.volume_id,
            record@.volume,
            file.digest@,
            file.size_bytes,
        ),
{
    VolumeSnapshot {
        schema_version: SNAPSHOT_VERSION,
        provider_id: DIRECTORY_VOLUME_PROVIDER_ID.to_owned(),
        volume_id: attachment.handle().volume_id().to_owned(),
        persistence_class: record.persistence_class,
        digest: file.digest,
        size_bytes: file.size_bytes,
        quota_bytes: record.quota_bytes,
        format: SNAPSHOT_FORMAT.to_owned(),
        portability: SnapshotPortability::CrossWorkerSameBackend,
    }
}

/// A snapshot that fits the volume that is asked for, on a worker that may restore it.
pub open spec fn is_compatible(
    authority: DirectoryAuthority,
    specification: VolumeSpec,
    snapshot: SnapshotText,
) -> bool {
    &&& authority.gofer_access
    &&& authority.ownership_restore
    &&& snapshot.schema_version == SNAPSHOT_VERSION
    &&& snapshot.provider_id == DIRECTORY_VOLUME_PROVIDER_ID@
    &&& snapshot.volume_id == specification.volume_id@
    &&& snapshot.persistence_class == specification.persistence_class
    &&& snapshot.quota_bytes == specification.quota_bytes
    &&& snapshot.format == SNAPSHOT_FORMAT@
    &&& snapshot.portability.crosses()
}

/// Begins to restore a volume.
pub fn begin_restore(
    authority: DirectoryAuthority,
    specification: &VolumeSpec,
    snapshot: &VolumeSnapshot,
) -> (r: Result<(), VolumeError>)
    ensures
        error::outcome(r) == checks::verdict(
            checks::when(
                !is_compatible(authority, *specification, snapshot@),
                VolumeFailure::Unsupported(
                    "directory volume snapshot is incompatible or ownership restore is unavailable"@,
                ),
            ),
        ),
{
    if !authority.gofer_access || !authority.ownership_restore || snapshot.schema_version
        != SNAPSHOT_VERSION || !text::same(
        snapshot.provider_id.as_str(),
        DIRECTORY_VOLUME_PROVIDER_ID,
    ) || !text::same(snapshot.volume_id.as_str(), specification.volume_id.as_str())
        || snapshot.persistence_class != specification.persistence_class || snapshot.quota_bytes
        != specification.quota_bytes || !text::same(snapshot.format.as_str(), SNAPSHOT_FORMAT)
        || !snapshot.portability.permits_cross_worker() {
        return Err(
            VolumeError::Unsupported(
                "directory volume snapshot is incompatible or ownership restore is unavailable".to_owned(),
            ),
        );
    }
    Ok(())
}

/// Accepts the archive of a snapshot.
pub fn check_content(specification: &VolumeSpec, snapshot: &VolumeSnapshot, file: &FileDigest) -> (r:
    Result<(), VolumeError>)
    ensures
        error::outcome(r) == checks::verdict(
            checks::when(
                file.digest@ != snapshot@.digest || file.size_bytes != snapshot@.size_bytes
                    || file.size_bytes > archive::doubled(specification.quota_bytes),
                VolumeFailure::Integrity("directory volume snapshot content changed"@),
            ),
        ),
{
    if !text::same(file.digest.as_str(), snapshot.digest.as_str()) || file.size_bytes
        != snapshot.size_bytes || file.size_bytes > archive_limit(specification.quota_bytes) {
        return Err(
            VolumeError::Integrity("directory volume snapshot content changed".to_owned()),
        );
    }
    Ok(())
}

/// Why a volume is not deleted.
pub open spec fn delete_failure(handle: HandleText, record: RecordText) -> Option<VolumeFailure> {
    checks::or(
        record_failure(handle, record),
        checks::when(
            record.frozen || record.attachments != Map::<Seq<char>, AttachmentText>::empty(),
            VolumeFailure::Invalid("cannot delete an attached or frozen volume"@),
        ),
    )
}

/// Begins to delete a volume: whether its directory is removed. A persistent one stays.
pub fn begin_delete(handle: &VolumeHandle, record: &VolumeRecord) -> (r: Result<bool, VolumeError>)
    ensures
        match r {
            Ok(removed) => delete_failure(handle@, record@) is None && removed == !(
            record@.volume.persistence_class is Persistent),
            Err(error) => delete_failure(handle@, record@) == Some(error@),
        },
{
    match validate_record(handle, record) {
        Ok(()) => {},
        Err(error) => return Err(error),
    }
    proof {
        lemma_attachments(record.attachments@);
    }
    if !record.attachments.is_empty() || record.frozen {
        return Err(VolumeError::Invalid("cannot delete an attached or frozen volume".to_owned()));
    }
    Ok(
        match record.persistence_class {
            VolumePersistenceClass::Persistent => false,
            _ => true,
        },
    )
}

/// Accepts the file of a record before it is read.
pub fn check_record_file(is_file: bool, length: u64) -> (r: Result<(), VolumeError>)
    ensures
        error::outcome(r) == checks::verdict(
            checks::when(
                !(is_file && 0 < length <= MAXIMUM_RECORD_BYTES),
                VolumeFailure::Integrity("directory volume record is not a bounded regular file"@),
            ),
        ),
{
    if !is_file || length == 0 || length > MAXIMUM_RECORD_BYTES {
        return Err(
            VolumeError::Integrity(
                "directory volume record is not a bounded regular file".to_owned(),
            ),
        );
    }
    Ok(())
}

/// Accepts an entry of the volume directory, whose path reads `path`.
pub fn check_entry(is_directory: bool, name: &[u8], path: &str) -> (r: Result<(), VolumeError>)
    ensures
        error::outcome(r) == checks::verdict(
            checks::when(
                !(is_directory && name@.len() == 64 && text::drawn_from(name@, Alphabet::LowerHex)),
                VolumeFailure::Integrity("unexpected directory volume entry `"@ + path@ + "`"@),
            ),
        ),
{
    if !is_directory || name.len() != 64 || !text::bytes_drawn_from(name, Alphabet::LowerHex) {
        return Err(
            VolumeError::Integrity(join3("unexpected directory volume entry `", path, "`")),
        );
    }
    Ok(())
}

/// Why the record in the directory `name` stops the recovery.
pub open spec fn stored_failure(
    record: RecordText,
    name: Seq<u8>,
    minimum_named_bytes: u64,
) -> Option<VolumeFailure> {
    checks::when(
        record.schema_version != RECORD_VERSION || record.volume.provider_id
            != DIRECTORY_VOLUME_PROVIDER_ID@ || text::utf8(record.volume.key) != name || text::utf8(
            key_of(record.volume.scope, record.volume.volume_id),
        ) != name || !record.volume.persistence_class.named() || record.volume.quota_bytes
            < minimum_named_bytes || record.attachments.len() > MAXIMUM_ATTACHMENTS,
        VolumeFailure::Integrity("stored directory volume record is inconsistent"@),
    )
}

/// Accepts the record in the directory `name`.
pub fn validate_stored_record(record: &VolumeRecord, name: &[u8], minimum_named_bytes: u64) -> (r:
    Result<(), VolumeError>)
    ensures
        error::outcome(r) == checks::verdict(
            stored_failure(record@, name@, minimum_named_bytes),
        ),
{
    let expected = volume_key_values(
        record.tenant.as_str(),
        record.workspace.as_str(),
        record.volume_id.as_str(),
    );
    proof {
        lemma_attachments(record.attachments@);
    }
    if record.schema_version != RECORD_VERSION || !text::same(
        record.provider_id.as_str(),
        DIRECTORY_VOLUME_PROVIDER_ID,
    ) || !text::same_bytes(record.key.as_str().as_bytes(), name) || !text::same_bytes(
        expected.as_str().as_bytes(),
        name,
    ) || !record.persistence_class.is_named() || record.quota_bytes < minimum_named_bytes
        || record.attachments.len() > MAXIMUM_ATTACHMENTS {
        return Err(
            VolumeError::Integrity("stored directory volume record is inconsistent".to_owned()),
        );
    }
    Ok(())
}

/// Recovers a volume that an earlier run left: the report with it, its record, and whether its
/// directory is removed.
pub fn recover(report: VolumeCleanupReport, record: VolumeRecord) -> (r: (
    VolumeCleanupReport,
    VolumeRecord,
    bool,
))
    requires
        report.cleared_attachments + record@.attachments.len() <= usize::MAX,
        report.removed_ephemeral_volumes < usize::MAX,
        report.retained_persistent_volumes < usize::MAX,
    ensures
        r.2 == (record@.volume.persistence_class is Ephemeral),
        r.0.cleared_attachments == report.cleared_attachments + record@.attachments.len(),
        r.0.removed_ephemeral_volumes == recovery::plus(report.removed_ephemeral_volumes, r.2),
        r.0.retained_persistent_volumes == recovery::plus(
            report.retained_persistent_volumes,
            !r.2,
        ),
        r.0.removed_secret_volumes == report.removed_secret_volumes,
        r.1@ == (RecordText { frozen: false, attachments: Map::empty(), ..record@ }),
{
    let mut report = report;
    let mut record = record;
    proof {
        lemma_attachments(record.attachments@);
    }
    let count: usize = record.attachments.len();
    report.cleared_attachments = report.cleared_attachments + count;
    record.attachments.clear();
    record.frozen = false;
    proof {
        assert(attachment_texts(record.attachments@) =~= Map::<Seq<char>, AttachmentText>::empty());
    }
    let removed = match record.persistence_class {
        VolumePersistenceClass::Ephemeral => true,
        _ => false,
    };
    if removed {
        report.removed_ephemeral_volumes = report.removed_ephemeral_volumes + 1;
    } else {
        report.retained_persistent_volumes = report.retained_persistent_volumes + 1;
    }
    (report, record, removed)
}

/// A new volume is one of this provider, its record is accepted, and where it is persistent it
/// can be used again.
pub proof fn law_created_volumes_are_accepted(scope: ScopeText, specification: VolumeSpec)
    ensures
        handle_failure(directory_handle(scope, specification)) is None,
        record_failure(
            directory_handle(scope, specification),
            record_of(volume_of(directory_handle(scope, specification))),
        ) is None,
        specification.persistence_class is Persistent ==> reuse_failure(
            directory_handle(scope, specification),
            record_of(volume_of(directory_handle(scope, specification))),
        ) is None,
{
}

/// An attachment is known to the record that it left.
pub proof fn law_attachments_are_known(
    handle: HandleText,
    owner: OwnerText,
    specification: VolumeSpec,
    record: RecordText,
)
    requires
        record.attachments.dom().finite(),
        attach_failure(handle, owner, specification, record) is None,
    ensures
        ({
            let id = attachment_id_of(handle.key, owner, specification.destination@);
            let attachment = model::attachment_of(handle, id, owner, specification);
            attachment_failure(
                attachment,
                RecordText {
                    attachments: record.attachments.insert(id, told_of(attachment)),
                    ..record
                },
            ) is None
        }),
{
    let id = attachment_id_of(handle.key, owner, specification.destination@);
    let attachment = model::attachment_of(handle, id, owner, specification);
    let after = record.attachments.insert(id, told_of(attachment));
    assert(after.dom() =~= record.attachments.dom().insert(id));
}

/// A new attachment can be released, and its release leaves the record as it was.
pub proof fn law_release_undoes_attach(
    handle: HandleText,
    owner: OwnerText,
    specification: VolumeSpec,
    record: RecordText,
)
    requires
        record.attachments.dom().finite(),
        attach_failure(handle, owner, specification, record) is None,
        !record.attachments.contains_key(
            attachment_id_of(handle.key, owner, specification.destination@),
        ),
    ensures
        ({
            let id = attachment_id_of(handle.key, owner, specification.destination@);
            let attachment = model::attachment_of(handle, id, owner, specification);
            let after = RecordText {
                attachments: record.attachments.insert(id, told_of(attachment)),
                ..record
            };
            &&& attachment_failure(attachment, after) is None
            &&& (RecordText {
                attachments: after.attachments.remove(attachment.attachment_id),
                ..after
            }) == record
        }),
{
    law_attachments_are_known(handle, owner, specification, record);
    let id = attachment_id_of(handle.key, owner, specification.destination@);
    let attachment = model::attachment_of(handle, id, owner, specification);
    assert(record.attachments.insert(id, told_of(attachment)).remove(id) =~= record.attachments);
}

/// The record of a volume is refused to another tenant and to another workspace.
pub proof fn law_volumes_are_scoped(
    scope: ScopeText,
    other: ScopeText,
    specification: VolumeSpec,
    requested: VolumeSpec,
)
    requires
        scope != other,
    ensures
        record_failure(
            directory_handle(other, requested),
            record_of(volume_of(directory_handle(scope, specification))),
        ) == Some(
            VolumeFailure::Integrity("directory volume metadata does not match its identity"@),
        ),
{
}

/// A snapshot that a provider took of a volume fits the restoration of that volume by a worker
/// with full authority.
pub proof fn law_own_snapshots_are_compatible(
    authority: DirectoryAuthority,
    volume: VolumeText,
    specification: VolumeSpec,
    digest: Seq<char>,
    size_bytes: u64,
)
    requires
        authority.gofer_access && authority.ownership_restore,
        volume.persistence_class == specification.persistence_class,
        volume.quota_bytes == specification.quota_bytes,
    ensures
        is_compatible(
            authority,
            specification,
            snapshot_of(specification.volume_id@, volume, digest, size_bytes),
        ),
{
}

/// A configuration is accepted exactly where its root is absolute, its quotas are in order and an
/// operation takes at most an hour.
pub proof fn law_accepted_directory_configurations_are_bounded(
    config: DirectoryVolumeConfig,
    minimum_named_bytes: u64,
)
    ensures
        config.failure(minimum_named_bytes) is None <==> {
            &&& config::is_absolute(config.root@)
            &&& minimum_named_bytes <= config.minimum_quota_bytes
            &&& config.minimum_quota_bytes <= config.maximum_quota_bytes
            &&& config.operation_timeout.within(3_600)
        },
{
}

/// What a directory volume is keyed by: a domain, and tenant, workspace and volume led by their
/// lengths.
pub proof fn law_directory_keys_are_hashes_of_sized_parts(scope: ScopeText, volume_id: Seq<char>)
    ensures
        key_of(scope, volume_id) == digest::hash_text(
            text::utf8("runtrue-sandboxd/directory-volume/v1"@) + seq![0u8] + bytes::sized(
                text::utf8(scope.tenant_id),
            ) + bytes::sized(text::utf8(scope.workspace_id)) + bytes::sized(text::utf8(volume_id)),
        ),
{
    assert(key_preimage(scope, volume_id) =~= text::utf8("runtrue-sandboxd/directory-volume/v1"@)
        + seq![0u8] + bytes::sized(text::utf8(scope.tenant_id)) + bytes::sized(
        text::utf8(scope.workspace_id),
    ) + bytes::sized(text::utf8(volume_id)));
}

/// What an attachment of a directory volume is keyed by.
pub proof fn law_directory_attachment_keys_are_hashes_of_sized_parts(
    key: Seq<char>,
    owner: OwnerText,
    destination: Seq<char>,
)
    ensures
        attachment_id_of(key, owner, destination) == digest::hash_text(
            text::utf8("runtrue-sandboxd/directory-attachment/v1"@) + seq![0u8] + bytes::sized(
                text::utf8(key),
            ) + bytes::sized(text::utf8(owner.sandbox_id)) + bytes::sized(
                text::utf8(owner.container_id),
            ) + bytes::sized(text::utf8(destination)),
        ),
{
    assert(attachment_preimage(key, owner, destination) =~= text::utf8(
        "runtrue-sandboxd/directory-attachment/v1"@,
    ) + seq![0u8] + bytes::sized(text::utf8(key)) + bytes::sized(text::utf8(owner.sandbox_id))
        + bytes::sized(text::utf8(owner.container_id)) + bytes::sized(text::utf8(destination)));
}

/// A handle of a directory volume says what it is for, and a volume says what its handle says.
pub proof fn law_directory_handles_say_what_they_are_for(
    scope: ScopeText,
    specification: VolumeSpec,
    handle: HandleText,
)
    ensures
        directory_handle(scope, specification).provider_id == "directory-pvc-v1"@,
        directory_handle(scope, specification).scope == scope,
        directory_handle(scope, specification).volume_id == specification.volume_id@,
        directory_handle(scope, specification).key == key_of(scope, specification.volume_id@),
        directory_handle(scope, specification).persistence_class
            == specification.persistence_class,
        directory_handle(scope, specification).quota_bytes == specification.quota_bytes,
        volume_of(handle).provider_id == handle.provider_id,
        volume_of(handle).key == handle.key,
        volume_of(handle).scope == handle.scope,
        volume_of(handle).volume_id == handle.volume_id,
        volume_of(handle).persistence_class == handle.persistence_class,
        volume_of(handle).quota_bytes == handle.quota_bytes,
{
}

/// A directory volume is created exactly where the provider may own and reach it, its specification
/// passed its own check, and it is named and within the quotas.
pub proof fn law_created_directory_volumes_are_named(
    config: DirectoryVolumeConfig,
    authority: DirectoryAuthority,
    specification: VolumeSpec,
    check: Result<(), String>,
)
    ensures
        create_failure(config, authority, specification, check) is None <==> {
            &&& authority.gofer_access
            &&& authority.ownership_restore
            &&& check is Ok
            &&& specification.persistence_class is Ephemeral
                || specification.persistence_class is Persistent
            &&& config.minimum_quota_bytes <= specification.quota_bytes
            &&& specification.quota_bytes <= config.maximum_quota_bytes
        },
{
}

/// A new record is of the first version, thawed and without attachments.
pub proof fn law_new_directory_records_are_thawed_and_free(volume: VolumeText)
    ensures
        record_of(volume).schema_version == 1,
        record_of(volume).volume == volume,
        !record_of(volume).frozen,
        forall|id: Seq<char>| !#[trigger] record_of(volume).attachments.contains_key(id),
{
}

/// A record is of a handle exactly where it is of the first version, tells of the same volume, and
/// has no more than thirty-two attachments.
pub proof fn law_directory_records_are_of_their_handle(handle: HandleText, record: RecordText)
    ensures
        record_failure(handle, record) is None <==> {
            &&& record.schema_version == 1
            &&& record.volume.provider_id == "directory-pvc-v1"@
            &&& record.volume.key == handle.key
            &&& record.volume.scope == handle.scope
            &&& record.volume.volume_id == handle.volume_id
            &&& record.volume.persistence_class == handle.persistence_class
            &&& record.volume.quota_bytes == handle.quota_bytes
            &&& record.attachments.len() <= 32
        },
{
}

/// A directory volume is used again exactly where the record is of it, it is persistent, thawed
/// and attached nowhere.
pub proof fn law_reused_directory_volumes_are_persistent_and_free(
    handle: HandleText,
    record: RecordText,
)
    ensures
        reuse_failure(handle, record) is None <==> {
            &&& record_failure(handle, record) is None
            &&& handle.persistence_class is Persistent
            &&& !record.frozen
            &&& record.attachments == Map::<Seq<char>, AttachmentText>::empty()
        },
{
}

/// A handle is accepted exactly where it is of this provider and has the key of its volume.
pub proof fn law_accepted_directory_handles_are_own(handle: HandleText)
    ensures
        handle_failure(handle) is None <==> handle.provider_id == "directory-pvc-v1"@ && handle.key
            == key_of(handle.scope, handle.volume_id),
{
}

/// An attachment is accepted exactly where the record is of its volume and tells the same of it.
pub proof fn law_accepted_directory_attachments_are_recorded(
    attachment: AttachedText,
    record: RecordText,
)
    ensures
        attachment_failure(attachment, record) is None <==> {
            &&& record_failure(attachment.handle, record) is None
            &&& record.attachments.contains_key(attachment.attachment_id)
            &&& record.attachments[attachment.attachment_id].owner == attachment.owner
            &&& record.attachments[attachment.attachment_id].destination == attachment.destination
            &&& record.attachments[attachment.attachment_id].read_only == attachment.read_only
        },
{
}

/// A directory volume is attached exactly where the record is of it, it is thawed, there is room,
/// and no other attachment has the identity.
pub proof fn law_attached_directory_volumes_have_room(
    handle: HandleText,
    owner: OwnerText,
    specification: VolumeSpec,
    record: RecordText,
    id: Seq<char>,
    check: Result<(), String>,
)
    requires
        id == attachment_id_of(handle.key, owner, specification.destination@),
    ensures
        attach_failure(handle, owner, specification, record) is None <==> {
            &&& record_failure(handle, record) is None
            &&& !record.frozen
            &&& record.attachments.len() <= 31
            &&& record.attachments.contains_key(id) ==> {
                &&& record.attachments[id].owner == owner
                &&& record.attachments[id].destination == specification.destination@
                &&& record.attachments[id].read_only == specification.read_only
            }
        },
        begin_attach_failure(handle, specification, check) is None <==> model::handle_spec_failure(
            handle,
            specification,
            check,
        ) is None && handle_failure(handle) is None,
{
}

/// A directory volume is mounted exactly where its attachment is accepted and it is thawed.
pub proof fn law_mounted_directory_volumes_are_thawed(attachment: AttachedText, record: RecordText)
    ensures
        mount_failure(attachment, record) is None <==> attachment_failure(attachment, record)
            is None && !record.frozen,
{
}

/// A path lies within a root exactly where both or neither are absolute and its components begin
/// with those of the root.
pub proof fn law_paths_within_a_root(path: Seq<u8>, root: Seq<u8>)
    ensures
        is_within(path, root) <==> {
            &&& (path.len() > 0 && path[0] == 47) == (root.len() > 0 && root[0] == 47)
            &&& paths::components(root).len() <= paths::components(path).len()
            &&& forall|i: int|
                0 <= i < paths::components(root).len() ==> #[trigger] paths::components(path)[i]
                    == paths::components(root)[i]
        },
        is_within(root, root),
{
    let parts = paths::components(path);
    let above = paths::components(root);
    if above.len() <= parts.len() {
        if forall|i: int| 0 <= i < above.len() ==> #[trigger] parts[i] == above[i] {
            assert(parts.take(above.len() as int) =~= above);
        }
        if parts.take(above.len() as int) == above {
            assert forall|i: int| 0 <= i < above.len() implies #[trigger] parts[i] == above[i] by {
                assert(parts.take(above.len() as int)[i] == parts[i]);
            }
        }
    }
    assert(above.take(above.len() as int) =~= above);
}

/// A snapshot of a directory volume is taken exactly where its attachment is accepted, it is
/// frozen, and ownership can be kept.
pub proof fn law_directory_snapshots_begin_with_a_frozen_volume(
    authority: DirectoryAuthority,
    attachment: AttachedText,
    record: RecordText,
)
    ensures
        snapshot_failure(authority, attachment, record) is None <==> attachment_failure(
            attachment,
            record,
        ) is None && record.frozen && authority.ownership_restore,
{
}

/// A snapshot of a directory volume says what it is of.
pub proof fn law_directory_snapshots_say_what_they_are_of(
    volume_id: Seq<char>,
    volume: VolumeText,
    digest: Seq<char>,
    size_bytes: u64,
)
    ensures
        snapshot_of(volume_id, volume, digest, size_bytes).schema_version == 2,
        snapshot_of(volume_id, volume, digest, size_bytes).provider_id == "directory-pvc-v1"@,
        snapshot_of(volume_id, volume, digest, size_bytes).volume_id == volume_id,
        snapshot_of(volume_id, volume, digest, size_bytes).persistence_class
            == volume.persistence_class,
        snapshot_of(volume_id, volume, digest, size_bytes).digest == digest,
        snapshot_of(volume_id, volume, digest, size_bytes).size_bytes == size_bytes,
        snapshot_of(volume_id, volume, digest, size_bytes).quota_bytes == volume.quota_bytes,
        snapshot_of(volume_id, volume, digest, size_bytes).format
            == "application/vnd.runtrue.volume.directory.tar.v1"@,
        snapshot_of(volume_id, volume, digest, size_bytes).portability.crosses(),
{
}

/// A snapshot fits a specification exactly where the provider may own and reach the volume, and the
/// snapshot is of the second version, of this provider and its format, tells of the same volume and
/// may cross workers.
pub proof fn law_fitting_directory_snapshots_tell_of_the_volume(
    authority: DirectoryAuthority,
    specification: VolumeSpec,
    snapshot: SnapshotText,
)
    ensures
        is_compatible(authority, specification, snapshot) <==> {
            &&& authority.gofer_access
            &&& authority.ownership_restore
            &&& snapshot.schema_version == 2
            &&& snapshot.provider_id == "directory-pvc-v1"@
            &&& snapshot.format == "application/vnd.runtrue.volume.directory.tar.v1"@
            &&& snapshot.volume_id == specification.volume_id@
            &&& snapshot.persistence_class == specification.persistence_class
            &&& snapshot.quota_bytes == specification.quota_bytes
            &&& snapshot.portability.crosses()
        },
{
}

/// A directory volume is deleted exactly where the record is of it, it is thawed and attached
/// nowhere.
pub proof fn law_deleted_directory_volumes_are_free(handle: HandleText, record: RecordText)
    ensures
        delete_failure(handle, record) is None <==> {
            &&& record_failure(handle, record) is None
            &&& !record.frozen
            &&& forall|id: Seq<char>| !#[trigger] record.attachments.contains_key(id)
        },
{
    if forall|id: Seq<char>| !#[trigger] record.attachments.contains_key(id) {
        assert(record.attachments =~= Map::<Seq<char>, AttachmentText>::empty());
    }
}

/// A stored record is of the first version and of this provider, stands under its own key, and
/// tells of a named volume of at least the least quota with no more than thirty-two attachments.
pub proof fn law_stored_directory_records_are_under_their_key(
    record: RecordText,
    name: Seq<u8>,
    minimum_named_bytes: u64,
)
    ensures
        stored_failure(record, name, minimum_named_bytes) is None <==> {
            &&& record.schema_version == 1
            &&& record.volume.provider_id == "directory-pvc-v1"@
            &&& text::utf8(record.volume.key) == name
            &&& text::utf8(key_of(record.volume.scope, record.volume.volume_id)) == name
            &&& record.volume.persistence_class is Ephemeral
                || record.volume.persistence_class is Persistent
            &&& record.volume.quota_bytes >= minimum_named_bytes
            &&& record.attachments.len() <= 32
        },
{
}

/// The provider has one name, and its records and snapshots one version and format.
pub proof fn law_directory_volumes_are_limited()
    ensures
        DIRECTORY_VOLUME_PROVIDER_ID@ == "directory-pvc-v1"@,
        RECORD_VERSION == 1,
        SNAPSHOT_VERSION == 2,
        SNAPSHOT_FORMAT@ == "application/vnd.runtrue.volume.directory.tar.v1"@,
        MAXIMUM_ATTACHMENTS == 32,
        MAXIMUM_RECORD_BYTES == 256 * 1024,
{
}

/// Each refusal of a directory volume is of its kind.
pub proof fn law_refused_directory_volumes_say_why(
    config: DirectoryVolumeConfig,
    minimum_named_bytes: u64,
    authority: DirectoryAuthority,
    handle: HandleText,
    attachment: AttachedText,
    record: RecordText,
    owner: OwnerText,
    specification: VolumeSpec,
    check: Result<(), String>,
    name: Seq<u8>,
)
    ensures
        config.failure(minimum_named_bytes) matches Some(failure) ==> failure
            == VolumeFailure::Invalid("directory volume provider configuration is invalid"@),
        !(authority.gofer_access && authority.ownership_restore) ==> create_failure(
            config,
            authority,
            specification,
            check,
        ) == Some(
            VolumeFailure::Unsupported(
                "named writable volumes require CHOWN and DAC_OVERRIDE or an idmapped storage backend"@,
            ),
        ),
        authority.gofer_access && authority.ownership_restore ==> (check matches Err(reason)
            ==> create_failure(config, authority, specification, check) == Some(
            VolumeFailure::Invalid(reason@),
        )),
        authority.gofer_access && authority.ownership_restore && check is Ok ==> (create_failure(
            config,
            authority,
            specification,
            check,
        ) matches Some(failure) ==> failure == VolumeFailure::Unsupported(
            "directory provider accepts bounded ephemeral or persistent volumes"@,
        )),
        record_failure(handle, record) matches Some(failure) ==> failure
            == VolumeFailure::Integrity("directory volume metadata does not match its identity"@),
        record_failure(handle, record) is None ==> (reuse_failure(handle, record) matches Some(
            failure,
        ) ==> failure == VolumeFailure::AlreadyExists(handle.volume_id)),
        handle_failure(handle) matches Some(failure) ==> failure == VolumeFailure::AccessDenied(
            "volume handle belongs to another provider"@,
        ),
        record_failure(attachment.handle, record) is None ==> (attachment_failure(
            attachment,
            record,
        ) matches Some(failure) ==> failure == VolumeFailure::AccessDenied(
            "volume attachment does not match its provider record"@,
        )),
        record_failure(handle, record) is None && (record.frozen || record.attachments.len() >= 32)
            ==> attach_failure(handle, owner, specification, record) == Some(
            VolumeFailure::Invalid("directory volume is frozen or at its attachment limit"@),
        ),
        record_failure(handle, record) is None && !record.frozen && record.attachments.len() < 32
            ==> (attach_failure(handle, owner, specification, record) matches Some(failure)
            ==> failure == VolumeFailure::AccessDenied("volume attachment identity collision"@)),
        attachment_failure(attachment, record) is None ==> (mount_failure(attachment, record)
            matches Some(failure) ==> failure == VolumeFailure::Invalid(
            "cannot mount a frozen directory volume"@,
        )),
        attachment_failure(attachment, record) is None ==> (snapshot_failure(
            authority,
            attachment,
            record,
        ) matches Some(failure) ==> failure == VolumeFailure::Unsupported(
            "directory volume snapshot ownership is unavailable"@,
        )),
        record_failure(handle, record) is None ==> (delete_failure(handle, record) matches Some(
            failure,
        ) ==> failure == VolumeFailure::Invalid("cannot delete an attached or frozen volume"@)),
        stored_failure(record, name, minimum_named_bytes) matches Some(failure) ==> failure
            == VolumeFailure::Integrity("stored directory volume record is inconsistent"@),
{
}

/// The attachments of a record are viewed one by one, under their identities.
pub proof fn law_directory_attachments_are_viewed_by_identity(
    attachments: Map<Seq<char>, AttachmentRecord>,
    id: Seq<char>,
)
    ensures
        attachment_texts(attachments).contains_key(id) <==> attachments.contains_key(id),
        attachments.contains_key(id) ==> attachment_texts(attachments)[id] == attachments[id]@,
{
}

} // verus!

//! Writable roots that the sandbox runtime keeps itself: the provider holds a record.

use crate::bytes;
use crate::checks;
use crate::digest;
use crate::digest::valid_hash;
use crate::oci::error;
use crate::oci::error::{SandboxError, SandboxFailure};
use crate::oci::provider::handle::{ImmutableRootfs, RootfsText};
use crate::oci::writable::config::WritableRootfsConfig;
use crate::oci::writable::handle::{
    WritableRootfs, WritableText, GVISOR_WRITABLE_ROOTFS_PROVIDER_ID,
};
use crate::oci::writable::identity::{IdentityText, WritableRootfsIdentity};
use crate::text;
use crate::text::join3;
use vstd::prelude::*;

verus! {

pub const RECORD_VERSION: u32 = 1;

pub const MAXIMUM_RECORD_BYTES: u64 = 65536;

/// What is kept of a writable root.
#[derive(Debug, PartialEq, Eq)]
pub struct WritableRootfsRecord {
    pub schema_version: u32,
    pub provider: String,
    pub key: String,
    pub project: String,
    pub service: String,
    pub image_id: String,
    pub exact_reference: String,
    pub immutable_rootfs: String,
    pub quota_bytes: u64,
}

/// A `WritableRootfsRecord` with its texts read as character sequences.
#[verifier::ext_equal]
pub struct RecordText {
    pub schema_version: u32,
    pub provider: Seq<char>,
    pub key: Seq<char>,
    pub project: Seq<char>,
    pub service: Seq<char>,
    pub image_id: Seq<char>,
    pub exact_reference: Seq<char>,
    pub immutable_rootfs: Seq<char>,
    pub quota_bytes: u64,
}

impl View for WritableRootfsRecord {
    type V = RecordText;

    open spec fn view(&self) -> RecordText {
        RecordText {
            schema_version: self.schema_version,
            provider: self.provider@,
            key: self.key@,
            project: self.project@,
            service: self.service@,
            image_id: self.image_id@,
            exact_reference: self.exact_reference@,
            immutable_rootfs: self.immutable_rootfs@,
            quota_bytes: self.quota_bytes,
        }
    }
}

/// What the key of a writable root is the hash of.
pub open spec fn key_preimage(identity: IdentityText, image_id: Seq<char>) -> Seq<u8> {
    text::utf8("runtrue-sandboxd/gvisor-writable-rootfs/v1"@) + seq![0u8] + (bytes::sized(
        text::utf8(identity.project),
    ) + (bytes::sized(text::utf8(identity.service)) + (bytes::sized(text::utf8(image_id))
        + Seq::empty())))
}

/// The key of a writable root.
pub fn rootfs_key(identity: &WritableRootfsIdentity, image_id: &str) -> (r: String)
    ensures
        r@ == digest::hash_text(key_preimage(identity@, image_id@)),
        digest::is_hash(r@),
{
    let mut preimage: Vec<u8> = text::copy_bytes(
        "runtrue-sandboxd/gvisor-writable-rootfs/v1".as_bytes(),
    );
    preimage.push(0);
    bytes::push_sized(&mut preimage, identity.project().as_bytes());
    bytes::push_sized(&mut preimage, identity.service().as_bytes());
    bytes::push_sized(&mut preimage, image_id.as_bytes());
    proof {
        assert(preimage@ =~= key_preimage(identity@, image_id@));
    }
    digest::hash(preimage.as_slice())
}

/// Different projects, services or images have different key preimages.
pub proof fn law_key_preimage_is_injective(
    left: IdentityText,
    image: Seq<char>,
    right: IdentityText,
    other: Seq<char>,
)
    requires
        text::utf8(left.project).len() <= u64::MAX,
        text::utf8(left.service).len() <= u64::MAX,
        text::utf8(image).len() <= u64::MAX,
        text::utf8(right.project).len() <= u64::MAX,
        text::utf8(right.service).len() <= u64::MAX,
        text::utf8(other).len() <= u64::MAX,
        key_preimage(left, image) == key_preimage(right, other),
    ensures
        left == right,
        image == other,
{
    let head = text::utf8("runtrue-sandboxd/gvisor-writable-rootfs/v1"@) + seq![0u8];
    let l3 = bytes::sized(text::utf8(image)) + Seq::<u8>::empty();
    let r3 = bytes::sized(text::utf8(other)) + Seq::<u8>::empty();
    let l2 = bytes::sized(text::utf8(left.service)) + l3;
    let r2 = bytes::sized(text::utf8(right.service)) + r3;
    let l1 = bytes::sized(text::utf8(left.project)) + l2;
    let r1 = bytes::sized(text::utf8(right.project)) + r2;
    assert(key_preimage(left, image) == head + l1);
    assert(key_preimage(right, other) == head + r1);
    assert((head + l1).skip(head.len() as int) =~= l1);
    assert((head + r1).skip(head.len() as int) =~= r1);
    bytes::lemma_sized_prefix(text::utf8(left.project), text::utf8(right.project), l2, r2);
    bytes::lemma_sized_prefix(text::utf8(left.service), text::utf8(right.service), l3, r3);
    bytes::lemma_sized_prefix(
        text::utf8(image),
        text::utf8(other),
        Seq::<u8>::empty(),
        Seq::<u8>::empty(),
    );
    text::lemma_utf8_injective(left.project, right.project);
    text::lemma_utf8_injective(left.service, right.service);
    text::lemma_utf8_injective(image, other);
}

/// The record of a writable root.
pub open spec fn record_of(rootfs: WritableText) -> RecordText {
    RecordText {
        schema_version: RECORD_VERSION,
        provider: rootfs.provider,
        key: rootfs.key,
        project: rootfs.identity.project,
        service: rootfs.identity.service,
        image_id: rootfs.image.image_id,
        exact_reference: rootfs.image.exact_reference,
        immutable_rootfs: rootfs.rootfs,
        quota_bytes: rootfs.quota_bytes,
    }
}

/// A writable root over an immutable one, whose resolved path is `rootfs`.
pub fn create(
    config: &WritableRootfsConfig,
    immutable: &ImmutableRootfs,
    identity: WritableRootfsIdentity,
    quota_bytes: u64,
    rootfs: String,
) -> (r: Result<(WritableRootfs, WritableRootfsRecord), SandboxError>)
    ensures
        match r {
            Ok(made) => {
                &&& config.quota_failure(quota_bytes) is None
                &&& made.0@ == (WritableText {
                    provider: GVISOR_WRITABLE_ROOTFS_PROVIDER_ID@,
                    key: digest::hash_text(key_preimage(identity@, immutable@.image.image_id)),
                    identity: identity@,
                    image: immutable@.image,
                    rootfs: rootfs@,
                    quota_bytes,
                })
                &&& made.1@ == record_of(made.0@)
            },
            Err(error) => config.quota_failure(quota_bytes) == Some(error@),
        },
{
    match config.validate_quota(quota_bytes) {
        Ok(()) => {},
        Err(error) => return Err(error),
    }
    let key = rootfs_key(&identity, immutable.image().image_id.as_str());
    let record = WritableRootfsRecord {
        schema_version: RECORD_VERSION,
        provider: GVISOR_WRITABLE_ROOTFS_PROVIDER_ID.to_owned(),
        key: key.clone(),
        project: identity.project().to_owned(),
        service: identity.service().to_owned(),
        image_id: immutable.image().image_id.clone(),
        exact_reference: immutable.image().exact_reference.clone(),
        immutable_rootfs: rootfs.clone(),
        quota_bytes,
    };
    let made = WritableRootfs::new(
        GVISOR_WRITABLE_ROOTFS_PROVIDER_ID.to_owned(),
        key,
        identity,
        immutable.image().clone(),
        rootfs,
        quota_bytes,
    );
    Ok((made, record))
}

/// Why a handle is not one of this provider.
pub open spec fn handle_failure(rootfs: WritableText) -> Option<SandboxFailure> {
    checks::when(
        rootfs.provider != GVISOR_WRITABLE_ROOTFS_PROVIDER_ID@ || rootfs.key != digest::hash_text(
            key_preimage(rootfs.identity, rootfs.image.image_id),
        ),
        SandboxFailure::ImageProvider("writable rootfs handle belongs to another provider"@),
    )
}

/// Accepts a handle of this provider, before its record is read.
pub fn check_handle(rootfs: &WritableRootfs) -> (r: Result<(), SandboxError>)
    ensures
        error::outcome(r) == checks::verdict(handle_failure(rootfs@)),
{
    let key = rootfs_key(rootfs.identity(), rootfs.image().image_id.as_str());
    if !text::same(rootfs.provider_id(), GVISOR_WRITABLE_ROOTFS_PROVIDER_ID) || !text::same(
        rootfs.key(),
        key.as_str(),
    ) {
        return Err(
            SandboxError::ImageProvider(
                "writable rootfs handle belongs to another provider".to_owned(),
            ),
        );
    }
    Ok(())
}

/// Accepts the record of a handle.
pub fn check_record(rootfs: &WritableRootfs, record: &WritableRootfsRecord) -> (r: Result<
    (),
    SandboxError,
>)
    ensures
        error::outcome(r) == checks::verdict(
            checks::when(
                record@ != record_of(rootfs@),
                SandboxFailure::ImageProvider(
                    "writable rootfs metadata does not match its handle"@,
                ),
            ),
        ),
{
    if record.schema_version != RECORD_VERSION || !text::same(
        record.provider.as_str(),
        rootfs.provider_id(),
    ) || !text::same(record.key.as_str(), rootfs.key()) || !text::same(
        record.project.as_str(),
        rootfs.identity().project(),
    ) || !text::same(record.service.as_str(), rootfs.identity().service()) || !text::same(
        record.image_id.as_str(),
        rootfs.image().image_id.as_str(),
    ) || !text::same(
        record.exact_reference.as_str(),
        rootfs.image().exact_reference.as_str(),
    ) || !text::same(record.immutable_rootfs.as_str(), rootfs.rootfs()) || record.quota_bytes
        != rootfs.quota_bytes() {
        return Err(
            SandboxError::ImageProvider(
                "writable rootfs metadata does not match its handle".to_owned(),
            ),
        );
    }
    Ok(())
}

/// Accepts the file of a record before it is read.
pub fn check_record_file(is_file: bool, length: u64) -> (r: Result<(), SandboxError>)
    ensures
        error::outcome(r) == checks::verdict(
            checks::when(
                !(is_file && 0 < length <= MAXIMUM_RECORD_BYTES),
                SandboxFailure::ImageProvider(
                    "writable rootfs record is not a bounded regular file"@,
                ),
            ),
        ),
{
    if !is_file || length == 0 || length > MAXIMUM_RECORD_BYTES {
        return Err(
            SandboxError::ImageProvider(
                "writable rootfs record is not a bounded regular file".to_owned(),
            ),
        );
    }
    Ok(())
}

/// Accepts a directory that a garbage collection removes. `name` is the name of the entry,
/// where it is UTF-8, and `path` its path.
pub fn check_stale_entry(is_directory: bool, name: Option<&str>, path: &str) -> (r: Result<
    (),
    SandboxError,
>)
    ensures
        error::outcome(r) == checks::verdict(
            checks::when(
                !(is_directory && name is Some && digest::is_hash(name->0@)),
                SandboxFailure::ImageProvider(
                    "unexpected writable rootfs entry `"@ + path@ + "`"@,
                ),
            ),
        ),
{
    let expected = match name {
        Some(name) => is_directory && valid_hash(name),
        None => false,
    };
    if !expected {
        return Err(
            SandboxError::ImageProvider(
                join3("unexpected writable rootfs entry `", path, "`"),
            ),
        );
    }
    Ok(())
}

/// A writable root that was created is one of this provider, and its record is accepted.
pub proof fn law_created_root_is_accepted(
    immutable: RootfsText,
    identity: IdentityText,
    quota_bytes: u64,
    rootfs: Seq<char>,
)
    ensures
        handle_failure(
            WritableText {
                provider: GVISOR_WRITABLE_ROOTFS_PROVIDER_ID@,
                key: digest::hash_text(key_preimage(identity, immutable.image.image_id)),
                identity,
                image: immutable.image,
                rootfs,
                quota_bytes,
            },
        ) is None,
{
}

/// What a root is keyed by: a domain, and project, service and image led by their lengths.
pub proof fn law_gvisor_keys_are_of_sized_parts(identity: IdentityText, image_id: Seq<char>)
    ensures
        key_preimage(identity, image_id) == text::utf8(
            "runtrue-sandboxd/gvisor-writable-rootfs/v1"@,
        ) + seq![0u8] + bytes::sized(text::utf8(identity.project)) + bytes::sized(
            text::utf8(identity.service),
        ) + bytes::sized(text::utf8(image_id)),
{
    assert(key_preimage(identity, image_id) =~= text::utf8(
        "runtrue-sandboxd/gvisor-writable-rootfs/v1"@,
    ) + seq![0u8] + bytes::sized(text::utf8(identity.project)) + bytes::sized(
        text::utf8(identity.service),
    ) + bytes::sized(text::utf8(image_id)));
}

/// A record says what the root says, and a root is accepted exactly where it is of this provider
/// and has the key of its identity and image.
pub proof fn law_gvisor_records_say_what_the_root_says(rootfs: WritableText)
    ensures
        record_of(rootfs).schema_version == 1,
        record_of(rootfs).provider == rootfs.provider,
        record_of(rootfs).key == rootfs.key,
        record_of(rootfs).project == rootfs.identity.project,
        record_of(rootfs).service == rootfs.identity.service,
        record_of(rootfs).image_id == rootfs.image.image_id,
        record_of(rootfs).exact_reference == rootfs.image.exact_reference,
        record_of(rootfs).immutable_rootfs == rootfs.rootfs,
        record_of(rootfs).quota_bytes == rootfs.quota_bytes,
        handle_failure(rootfs) is None <==> rootfs.provider == "gvisor-overlay-v1"@ && rootfs.key
            == digest::hash_text(key_preimage(rootfs.identity, rootfs.image.image_id)),
{
}

/// Records are of the first version and small.
pub proof fn law_gvisor_records_are_small()
    ensures
        RECORD_VERSION == 1,
        MAXIMUM_RECORD_BYTES == 64 * 1024,
{
}

} // verus!

//! Handles of writable root filesystems.

use crate::oci::model::{ImageText, LockedImage};
use crate::oci::writable::identity::{IdentityText, WritableRootfsIdentity};
use vstd::prelude::*;

verus! {

pub const LOOPBACK_WRITABLE_ROOTFS_PROVIDER_ID: &'static str = "loopback-overlay-v1";

pub const GVISOR_WRITABLE_ROOTFS_PROVIDER_ID: &'static str = "gvisor-overlay-v1";

/// A writable root file system over an image.
#[derive(Debug, Clone, PartialEq, Eq)]
pub struct WritableRootfs {
    provider: String,
    key: String,
    identity: WritableRootfsIdentity,
    image: LockedImage,
    rootfs: String,
    quota_bytes: u64,
}

/// A `WritableRootfs` with its texts read as character sequences.
#[verifier::ext_equal]
pub struct WritableText {
    pub provider: Seq<char>,
    pub key: Seq<char>,
    pub identity: IdentityText,
    pub image: ImageText,
    pub rootfs: Seq<char>,
    pub quota_bytes: u64,
}

impl View for WritableRootfs {
    type V = WritableText;

    closed spec fn view(&self) -> WritableText {
        WritableText {
            provider: self.provider@,
            key: self.key@,
            identity: self.identity@,
            image: self.image@,
            rootfs: self.rootfs@,
            quota_bytes: self.quota_bytes,
        }
    }
}

/// What an export wrote.
#[derive(Clone, Copy, Debug, PartialEq, Eq, Structural)]
pub struct WritableRootfsExport {
    pub entries: usize,
    pub logical_bytes: u64,
    pub archive_bytes: u64,
}

impl WritableRootfs {
    pub(crate) fn new(
        provider: String,
        key: String,
        identity: WritableRootfsIdentity,
        image: LockedImage,
        rootfs: String,
        quota_bytes: u64,
    ) -> (r: Self)
        ensures
            r@ == (WritableText {
                provider: provider@,
                key: key@,
                identity: identity@,
                image: image@,
                rootfs: rootfs@,
                quota_bytes,
            }),
    {
        WritableRootfs { provider, key, identity, image, rootfs, quota_bytes }
    }

    pub fn provider_id(&self) -> (r: &str)
        ensures
            r@ == self@.provider,
    {
        self.provider.as_str()
    }

    pub fn key(&self) -> (r: &str)
        ensures
            r@ == self@.key,
    {
        self.key.as_str()
    }

    pub fn identity(&self) -> (r: &WritableRootfsIdentity)
        ensures
            r@ == self@.identity,
    {
        &self.identity
    }

    pub fn image(&self) -> (r: &LockedImage)
        ensures
            r@ == self@.image,
    {
        &self.image
    }

    pub fn rootfs(&self) -> (r: &str)
        ensures
            r@ == self@.rootfs,
    {
        self.rootfs.as_str()
    }

    pub fn quota_bytes(&self) -> (r: u64)
        ensures
            r == self@.quota_bytes,
    {
        self.quota_bytes
    }
}

/// The providers of writable roots have each its name.
pub proof fn law_writable_providers_have_names()
    ensures
        LOOPBACK_WRITABLE_ROOTFS_PROVIDER_ID@ == "loopback-overlay-v1"@,
        GVISOR_WRITABLE_ROOTFS_PROVIDER_ID@ == "gvisor-overlay-v1"@,
{
}

} // verus!

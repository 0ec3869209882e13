//! Pinned images: resolution, verification and activation.

pub mod config;
pub mod containerd;
pub mod content;
pub mod credentials;
pub mod handle;
pub mod layer;
pub mod manifest;
pub mod mount;
pub mod mounts;
pub mod pull;
pub mod reference;
pub mod resolve;
pub mod rootfs;
pub mod validation;

use crate::oci::error::{SandboxError, SandboxFailure};
use crate::oci::model::LockedImage;
use crate::oci::provider::credentials::RegistryCredential;
use crate::oci::provider::handle::{ImmutableRootfs, PreparedImageHandle};
use crate::oci::writable::handle::{WritableRootfs, WritableRootfsExport};
use crate::oci::writable::identity::WritableRootfsIdentity;
use vstd::prelude::*;

verus! {

/// Whether an image was made ready, or was ready before.
#[derive(Clone, Copy, Debug, PartialEq, Eq, Structural)]
pub enum PreparationStatus {
    Prepared,
    Reused,
}

/// What a garbage collection has removed.
#[derive(Clone, Copy, Debug, PartialEq, Eq, Structural)]
pub struct GarbageCollectionReport {
    pub stale_staging_directories: usize,
    pub stale_mounts: usize,
    pub stale_writable_roots: usize,
}

impl GarbageCollectionReport {
    /// The report before anything but writable roots was looked at.
    pub fn new(stale_writable_roots: usize) -> (r: Self)
        ensures
            r.stale_staging_directories == 0,
            r.stale_mounts == 0,
            r.stale_writable_roots == stale_writable_roots,
    {
        GarbageCollectionReport {
            stale_staging_directories: 0,
            stale_mounts: 0,
            stale_writable_roots,
        }
    }

    /// Counts a directory that was removed, and its mount where it had one.
    pub fn removed(self, was_mounted: bool) -> (r: Self)
        requires
            self.stale_staging_directories < usize::MAX,
            self.stale_mounts < usize::MAX,
        ensures
            r.stale_staging_directories == self.stale_staging_directories + 1,
            r.stale_mounts == self.stale_mounts + (if was_mounted {
                1int
            } else {
                0
            }),
            r.stale_writable_roots == self.stale_writable_roots,
    {
        let mounts: usize = if was_mounted {
            1
        } else {
            0
        };
        GarbageCollectionReport {
            stale_staging_directories: self.stale_staging_directories + 1,
            stale_mounts: self.stale_mounts + mounts,
            stale_writable_roots: self.stale_writable_roots,
        }
    }
}

/// A source of root file systems for locked images.
pub trait ImageProvider: Send + Sync {
    fn resolve(&self, source: &str, credential: Option<&RegistryCredential>) -> Result<
        LockedImage,
        SandboxError,
    >;

    fn pull(&self, image: &LockedImage, credential: Option<&RegistryCredential>) -> Result<
        PreparationStatus,
        SandboxError,
    >;

    fn verify(&self, image: &LockedImage) -> Result<(), SandboxError>;

    fn unpack(&self, image: &LockedImage) -> Result<(), SandboxError>;

    fn activate(&self, image: &LockedImage) -> Result<PreparedImageHandle, SandboxError>;

    fn mount(&self, image: &PreparedImageHandle) -> Result<ImmutableRootfs, SandboxError>;

    fn release(&self, rootfs: &ImmutableRootfs) -> Result<(), SandboxError>;

    fn create_writable_rootfs(
        &self,
        immutable: &ImmutableRootfs,
        identity: WritableRootfsIdentity,
        quota_bytes: u64,
    ) -> (r: Result<WritableRootfs, SandboxError>)
        default_ensures
            r matches Err(error) && error@ == SandboxFailure::Unsupported(
                "image provider does not support quota-backed writable roots"@,
            ),
    {
        Err(
            SandboxError::Unsupported(
                "image provider does not support quota-backed writable roots".to_owned(),
            ),
        )
    }

    fn release_writable_rootfs(&self, rootfs: &WritableRootfs) -> (r: Result<(), SandboxError>)
        default_ensures
            r matches Err(error) && error@ == SandboxFailure::Unsupported(
                "image provider does not support quota-backed writable roots"@,
            ),
    {
        Err(
            SandboxError::Unsupported(
                "image provider does not support quota-backed writable roots".to_owned(),
            ),
        )
    }

    fn export_writable_rootfs(&self, rootfs: &WritableRootfs, destination: &str) -> (r: Result<
        WritableRootfsExport,
        SandboxError,
    >)
        default_ensures
            r matches Err(error) && error@ == SandboxFailure::Unsupported(
                "image provider does not support writable-root export"@,
            ),
    {
        Err(
            SandboxError::Unsupported(
                "image provider does not support writable-root export".to_owned(),
            ),
        )
    }

    fn restore_writable_rootfs(
        &self,
        immutable: &ImmutableRootfs,
        identity: WritableRootfsIdentity,
        quota_bytes: u64,
        diff: &str,
    ) -> (r: Result<WritableRootfs, SandboxError>)
        default_ensures
            r matches Err(error) && error@ == SandboxFailure::Unsupported(
                "image provider does not support writable-root restore"@,
            ),
    {
        Err(
            SandboxError::Unsupported(
                "image provider does not support writable-root restore".to_owned(),
            ),
        )
    }

    fn garbage_collect(&self) -> Result<GarbageCollectionReport, SandboxError>;

    /// Pulls, verifies, unpacks, activates and mounts an image, and stops at the first
    /// failure.
    fn prepare(&self, image: &LockedImage, credential: Option<&RegistryCredential>) -> (r: Result<
        (PreparationStatus, ImmutableRootfs),
        SandboxError,
    >)
        default_ensures
            match r {
                Ok((status, rootfs)) => {
                    &&& call_ensures(
                        Self::pull,
                        (self, image, credential),
                        Ok::<PreparationStatus, SandboxError>(status),
                    )
                    &&& exists|done: Result<(), SandboxError>| #[trigger]
                        call_ensures(Self::verify, (self, image), done) && done is Ok
                    &&& exists|done: Result<(), SandboxError>| #[trigger]
                        call_ensures(Self::unpack, (self, image), done) && done is Ok
                    &&& exists|handle: PreparedImageHandle|
                        {
                            &&& #[trigger] call_ensures(
                                Self::activate,
                                (self, image),
                                Ok::<PreparedImageHandle, SandboxError>(handle),
                            )
                            &&& call_ensures(
                                Self::mount,
                                (self, &handle),
                                Ok::<ImmutableRootfs, SandboxError>(rootfs),
                            )
                        }
                },
                Err(error) => {
                    ||| call_ensures(
                        Self::pull,
                        (self, image, credential),
                        Err::<PreparationStatus, SandboxError>(error),
                    )
                    ||| {
                        &&& exists|status: Result<PreparationStatus, SandboxError>| #[trigger]
                            call_ensures(Self::pull, (self, image, credential), status)
                                && status is Ok
                        &&& {
                            ||| call_ensures(Self::verify, (self, image), Err::<(), SandboxError>(error))
                            ||| {
                                &&& exists|done: Result<(), SandboxError>| #[trigger]
                                    call_ensures(Self::verify, (self, image), done) && done is Ok
                                &&& {
                                    ||| call_ensures(
                                        Self::unpack,
                                        (self, image),
                                        Err::<(), SandboxError>(error),
                                    )
                                    ||| {
                                        &&& exists|done: Result<(), SandboxError>| #[trigger]
                                            call_ensures(Self::unpack, (self, image), done) && done is Ok
                                        &&& {
                                            ||| call_ensures(
                                                Self::activate,
                                                (self, image),
                                                Err::<PreparedImageHandle, SandboxError>(error),
                                            )
                                            ||| exists|handle: PreparedImageHandle|
                                                {
                                                    &&& #[trigger] call_ensures(
                                                        Self::activate,
                                                        (self, image),
                                                        Ok::<PreparedImageHandle, SandboxError>(handle),
                                                    )
                                                    &&& call_ensures(
                                                        Self::mount,
                                                        (self, &handle),
                                                        Err::<ImmutableRootfs, SandboxError>(error),
                                                    )
                                                }
                                        }
                                    }
                                }
                            }
                        }
                    }
                },
            },
    {
        let status = match self.pull(image, credential) {
            Ok(status) => status,
            Err(error) => return Err(error),
        };
        match self.verify(image) {
            Ok(()) => {},
            Err(error) => return Err(error),
        }
        match self.unpack(image) {
            Ok(()) => {},
            Err(error) => return Err(error),
        }
        let activated = match self.activate(image) {
            Ok(activated) => activated,
            Err(error) => return Err(error),
        };
        match self.mount(&activated) {
            Ok(rootfs) => Ok((status, rootfs)),
            Err(error) => Err(error),
        }
    }

    /// Verifies, activates and mounts an image that was pulled before, and stops at the first
    /// failure.
    fn admit_image(&self, image: &LockedImage) -> (r: Result<ImmutableRootfs, SandboxError>)
        default_ensures
            match r {
                Ok(rootfs) => {
                    &&& exists|done: Result<(), SandboxError>| #[trigger]
                        call_ensures(Self::verify, (self, image), done) && done is Ok
                    &&& exists|done: Result<(), SandboxError>| #[trigger]
                        call_ensures(Self::unpack, (self, image), done) && done is Ok
                    &&& exists|handle: PreparedImageHandle|
                        {
                            &&& #[trigger] call_ensures(
                                Self::activate,
                                (self, image),
                                Ok::<PreparedImageHandle, SandboxError>(handle),
                            )
                            &&& call_ensures(
                                Self::mount,
                                (self, &handle),
                                Ok::<ImmutableRootfs, SandboxError>(rootfs),
                            )
                        }
                },
                Err(error) => {
                    ||| call_ensures(Self::verify, (self, image), Err::<(), SandboxError>(error))
                    ||| {
                        &&& exists|done: Result<(), SandboxError>| #[trigger]
                            call_ensures(Self::verify, (self, image), done) && done is Ok
                        &&& {
                            ||| call_ensures(
                                Self::unpack,
                                (self, image),
                                Err::<(), SandboxError>(error),
                            )
                            ||| {
                                &&& exists|done: Result<(), SandboxError>| #[trigger]
                                    call_ensures(Self::unpack, (self, image), done) && done is Ok
                                &&& {
                                    ||| call_ensures(
                                        Self::activate,
                                        (self, image),
                                        Err::<PreparedImageHandle, SandboxError>(error),
                                    )
                                    ||| exists|handle: PreparedImageHandle|
                                        {
                                            &&& #[trigger] call_ensures(
                                                Self::activate,
                                                (self, image),
                                                Ok::<PreparedImageHandle, SandboxError>(handle),
                                            )
                                            &&& call_ensures(
                                                Self::mount,
                                                (self, &handle),
                                                Err::<ImmutableRootfs, SandboxError>(error),
                                            )
                                        }
                                }
                            }
                        }
                    }
                },
            },
    {
        match self.verify(image) {
            Ok(()) => {},
            Err(error) => return Err(error),
        }
        match self.unpack(image) {
            Ok(()) => {},
            Err(error) => return Err(error),
        }
        let activated = match self.activate(image) {
            Ok(activated) => activated,
            Err(error) => return Err(error),
        };
        self.mount(&activated)
    }
}

} // verus!

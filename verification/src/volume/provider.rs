//! What a volume provider offers.

use crate::oci::model::VolumeSpec;
use crate::time::Duration;
use crate::volume::artifacts::{ArtifactGarbageCollectionReport, ArtifactPublication};
use crate::volume::error::VolumeError;
use crate::volume::model::{
    AttachmentOwner, MountedVolume, VolumeAttachment, VolumeCleanupReport, VolumeHandle,
    VolumeProviderCapabilities, VolumeScope, VolumeSnapshot,
};
use vstd::prelude::*;

verus! {

/// A keeper of volumes.
pub trait VolumeProvider: Send + Sync {
    fn provider_id(&self) -> &str;

    fn capabilities(&self) -> VolumeProviderCapabilities;

    fn create(&self, scope: &VolumeScope, specification: &VolumeSpec) -> Result<
        VolumeHandle,
        VolumeError,
    >;

    fn attach(
        &self,
        handle: &VolumeHandle,
        owner: AttachmentOwner,
        specification: &VolumeSpec,
    ) -> Result<VolumeAttachment, VolumeError>;

    fn mount(&self, attachment: &VolumeAttachment) -> Result<MountedVolume, VolumeError>;

    fn detach(&self, attachment: &VolumeAttachment) -> Result<(), VolumeError>;

    fn freeze(&self, attachment: &VolumeAttachment) -> Result<(), VolumeError>;

    fn thaw(&self, attachment: &VolumeAttachment) -> Result<(), VolumeError>;

    fn snapshot(&self, attachment: &VolumeAttachment, destination: &str) -> Result<
        VolumeSnapshot,
        VolumeError,
    >;

    fn restore(
        &self,
        scope: &VolumeScope,
        specification: &VolumeSpec,
        snapshot: &VolumeSnapshot,
        source: &str,
    ) -> Result<VolumeHandle, VolumeError>;

    fn unmount(&self, mounted: &MountedVolume) -> Result<(), VolumeError>;

    fn delete(&self, handle: &VolumeHandle) -> Result<(), VolumeError>;

    fn cleanup(&self) -> Result<VolumeCleanupReport, VolumeError>;
}

/// A keeper of published artifacts.
pub trait ArtifactVolumeStore: Send + Sync {
    fn publish_artifact(&self, source: &str, expected_digest: &str) -> Result<
        ArtifactPublication,
        VolumeError,
    >;

    fn garbage_collect_artifacts(&self, minimum_age: Duration) -> Result<
        ArtifactGarbageCollectionReport,
        VolumeError,
    >;
}

} // verus!

//! Handles of prepared images and the metadata kept beside them.

use crate::oci::model;
use crate::oci::model::{DescriptorText, ImageText, LockedDescriptor, LockedImage};
use crate::text;
use vstd::prelude::*;

verus! {

pub const PROVIDER_METADATA_SCHEMA_VERSION: u32 = 1;

/// An image that is ready to be mounted.
#[derive(Debug, Clone, PartialEq, Eq)]
pub struct PreparedImageHandle {
    provider: String,
    activation_key: String,
    image: LockedImage,
}

/// A `PreparedImageHandle` with its texts read as character sequences.
#[verifier::ext_equal]
pub struct HandleText {
    pub provider: Seq<char>,
    pub activation_key: Seq<char>,
    pub image: ImageText,
}

impl View for PreparedImageHandle {
    type V = HandleText;

    closed spec fn view(&self) -> HandleText {
        HandleText {
            provider: self.provider@,
            activation_key: self.activation_key@,
            image: self.image@,
        }
    }
}

impl PreparedImageHandle {
    pub(crate) fn new(provider: String, activation_key: String, image: LockedImage) -> (r: Self)
        ensures
            r@ == (HandleText {
                provider: provider@,
                activation_key: activation_key@,
                image: image@,
            }),
    {
        PreparedImageHandle { provider, activation_key, image }
    }

    pub fn image(&self) -> (r: &LockedImage)
        ensures
            r@ == self@.image,
    {
        &self.image
    }

    pub fn provider(&self) -> (r: &str)
        ensures
            r@ == self@.provider,
    {
        self.provider.as_str()
    }

    pub fn activation_key(&self) -> (r: &str)
        ensures
            r@ == self@.activation_key,
    {
        self.activation_key.as_str()
    }
}

/// A read-only root file system of an image.
#[derive(Debug, Clone, PartialEq, Eq)]
pub struct ImmutableRootfs {
    provider: String,
    activation_key: String,
    image: LockedImage,
    rootfs: String,
    rootfs_digest: String,
    rootfs_entries: usize,
    rootfs_bytes: u64,
}

/// An `ImmutableRootfs` with its texts read as character sequences.
#[verifier::ext_equal]
pub struct RootfsText {
    pub provider: Seq<char>,
    pub activation_key: Seq<char>,
    pub image: ImageText,
    pub rootfs: Seq<char>,
    pub rootfs_digest: Seq<char>,
    pub rootfs_entries: usize,
    pub rootfs_bytes: u64,
}

impl View for ImmutableRootfs {
    type V = RootfsText;

    closed spec fn view(&self) -> RootfsText {
        RootfsText {
            provider: self.provider@,
            activation_key: self.activation_key@,
            image: self.image@,
            rootfs: self.rootfs@,
            rootfs_digest: self.rootfs_digest@,
            rootfs_entries: self.rootfs_entries,
            rootfs_bytes: self.rootfs_bytes,
        }
    }
}

impl ImmutableRootfs {
    pub(crate) fn new(
        handle: &PreparedImageHandle,
        rootfs: String,
        rootfs_digest: String,
        rootfs_entries: usize,
        rootfs_bytes: u64,
    ) -> (r: Self)
        ensures
            r@ == (RootfsText {
                provider: handle@.provider,
                activation_key: handle@.activation_key,
                image: handle@.image,
                rootfs: rootfs@,
                rootfs_digest: rootfs_digest@,
                rootfs_entries,
                rootfs_bytes,
            }),
    {
        ImmutableRootfs {
            provider: handle.provider.clone(),
            activation_key: handle.activation_key.clone(),
            image: handle.image.clone(),
            rootfs,
            rootfs_digest,
            rootfs_entries,
            rootfs_bytes,
        }
    }

    pub fn image(&self) -> (r: &LockedImage)
        ensures
            r@ == self@.image,
    {
        &self.image
    }

    pub fn rootfs(&self) -> (r: &str)
        ensures
            r@ == self@.rootfs,
    {
        self.rootfs.as_str()
    }

    pub fn rootfs_digest(&self) -> (r: &str)
        ensures
            r@ == self@.rootfs_digest,
    {
        self.rootfs_digest.as_str()
    }

    pub fn rootfs_entries(&self) -> (r: usize)
        ensures
            r == self@.rootfs_entries,
    {
        self.rootfs_entries
    }

    pub fn rootfs_bytes(&self) -> (r: u64)
        ensures
            r == self@.rootfs_bytes,
    {
        self.rootfs_bytes
    }

    pub fn provider(&self) -> (r: &str)
        ensures
            r@ == self@.provider,
    {
        self.provider.as_str()
    }

    pub fn activation_key(&self) -> (r: &str)
        ensures
            r@ == self@.activation_key,
    {
        self.activation_key.as_str()
    }
}

/// What the provider keeps of a measured root file system.
#[derive(Debug, PartialEq, Eq)]
pub struct ProviderMetadata {
    pub schema_version: u32,
    pub provider: String,
    pub activation_key: String,
    pub exact_reference: String,
    pub image_id: String,
    pub index: Option<LockedDescriptor>,
    pub manifest: LockedDescriptor,
    pub config: LockedDescriptor,
    pub layers: Vec<LockedDescriptor>,
    pub operating_system: String,
    pub architecture: String,
    pub variant: Option<String>,
    pub rootfs_digest: String,
    pub rootfs_entries: usize,
    pub rootfs_bytes: u64,
}

/// A `ProviderMetadata` with its texts read as character sequences.
#[verifier::ext_equal]
pub struct MetadataText {
    pub schema_version: u32,
    pub provider: Seq<char>,
    pub activation_key: Seq<char>,
    pub exact_reference: Seq<char>,
    pub image_id: Seq<char>,
    pub index: Option<DescriptorText>,
    pub manifest: DescriptorText,
    pub config: DescriptorText,
    pub layers: Seq<DescriptorText>,
    pub operating_system: Seq<char>,
    pub architecture: Seq<char>,
    pub variant: Option<Seq<char>>,
    pub rootfs_digest: Seq<char>,
    pub rootfs_entries: usize,
    pub rootfs_bytes: u64,
}

impl View for ProviderMetadata {
    type V = MetadataText;

    open spec fn view(&self) -> MetadataText {
        MetadataText {
            schema_version: self.schema_version,
            provider: self.provider@,
            activation_key: self.activation_key@,
            exact_reference: self.exact_reference@,
            image_id: self.image_id@,
            index: model::optional_descriptor(self.index),
            manifest: self.manifest@,
            config: self.config@,
            layers: model::descriptor_texts(self.layers@),
            operating_system: self.operating_system@,
            architecture: self.architecture@,
            variant: text::optional(self.variant),
            rootfs_digest: self.rootfs_digest@,
            rootfs_entries: self.rootfs_entries,
            rootfs_bytes: self.rootfs_bytes,
        }
    }
}

/// The metadata of a root file system.
pub open spec fn metadata_of(rootfs: RootfsText) -> MetadataText {
    MetadataText {
        schema_version: PROVIDER_METADATA_SCHEMA_VERSION,
        provider: rootfs.provider,
        activation_key: rootfs.activation_key,
        exact_reference: rootfs.image.exact_reference,
        image_id: rootfs.image.image_id,
        index: rootfs.image.index,
        manifest: rootfs.image.manifest,
        config: rootfs.image.config,
        layers: rootfs.image.layers,
        operating_system: rootfs.image.operating_system,
        architecture: rootfs.image.architecture,
        variant: rootfs.image.variant,
        rootfs_digest: rootfs.rootfs_digest,
        rootfs_entries: rootfs.rootfs_entries,
        rootfs_bytes: rootfs.rootfs_bytes,
    }
}

impl MetadataText {
    /// The metadata is of this image, prepared by this provider under this key.
    pub open spec fn is_of(
        self,
        provider: Seq<char>,
        activation_key: Seq<char>,
        image: ImageText,
    ) -> bool {
        &&& self.schema_version == PROVIDER_METADATA_SCHEMA_VERSION
        &&& self.provider == provider
        &&& self.activation_key == activation_key
        &&& self.exact_reference == image.exact_reference
        &&& self.image_id == image.image_id
        &&& self.index == image.index
        &&& self.manifest == image.manifest
        &&& self.config == image.config
        &&& self.layers == image.layers
        &&& self.operating_system == image.operating_system
        &&& self.architecture == image.architecture
        &&& self.variant == image.variant
    }
}

impl ProviderMetadata {
    pub fn from_rootfs(rootfs: &ImmutableRootfs) -> (r: Self)
        ensures
            r@ == metadata_of(rootfs@),
    {
        let image = rootfs.image.clone();
        ProviderMetadata {
            schema_version: PROVIDER_METADATA_SCHEMA_VERSION,
            provider: rootfs.provider.clone(),
            activation_key: rootfs.activation_key.clone(),
            exact_reference: image.exact_reference,
            image_id: image.image_id,
            index: image.index,
            manifest: image.manifest,
            config: image.config,
            layers: image.layers,
            operating_system: image.operating_system,
            architecture: image.architecture,
            variant: image.variant,
            rootfs_digest: rootfs.rootfs_digest.clone(),
            rootfs_entries: rootfs.rootfs_entries,
            rootfs_bytes: rootfs.rootfs_bytes,
        }
    }

    /// Whether the metadata is of this image, prepared by this provider under this key.
    pub fn matches(&self, provider: &str, activation_key: &str, image: &LockedImage) -> (r: bool)
        ensures
            r == self@.is_of(provider@, activation_key@, image@),
    {
        self.schema_version == PROVIDER_METADATA_SCHEMA_VERSION && text::same(
            self.provider.as_str(),
            provider,
        ) && text::same(self.activation_key.as_str(), activation_key) && text::same(
            self.exact_reference.as_str(),
            image.exact_reference.as_str(),
        ) && text::same(self.image_id.as_str(), image.image_id.as_str())
            && model::same_optional_descriptor(&self.index, &image.index) && self.manifest.same(
            &image.manifest,
        ) && self.config.same(&image.config) && model::same_descriptors(&self.layers, &image.layers)
            && text::same(
            self.operating_system.as_str(),
            image.operating_system.as_str(),
        ) && text::same(self.architecture.as_str(), image.architecture.as_str())
            && text::same_optional(&self.variant, &image.variant)
    }
}

/// The metadata of a root file system is of its image, provider and key, and of no other
/// provider or key.
pub proof fn law_metadata_binds_its_rootfs(
    rootfs: RootfsText,
    provider: Seq<char>,
    activation_key: Seq<char>,
    image: ImageText,
)
    ensures
        metadata_of(rootfs).is_of(rootfs.provider, rootfs.activation_key, rootfs.image),
        metadata_of(rootfs).is_of(provider, activation_key, image) ==> {
            &&& provider == rootfs.provider
            &&& activation_key == rootfs.activation_key
            &&& image == (ImageText { source: image.source, ..rootfs.image })
        },
{
}

/// The metadata of a root file system is of the first schema and says of image and measurement
/// what the root file system says.
pub proof fn law_metadata_says_what_the_rootfs_says(rootfs: RootfsText)
    ensures
        metadata_of(rootfs).schema_version == 1,
        metadata_of(rootfs).provider == rootfs.provider,
        metadata_of(rootfs).activation_key == rootfs.activation_key,
        metadata_of(rootfs).exact_reference == rootfs.image.exact_reference,
        metadata_of(rootfs).image_id == rootfs.image.image_id,
        metadata_of(rootfs).index == rootfs.image.index,
        metadata_of(rootfs).manifest == rootfs.image.manifest,
        metadata_of(rootfs).config == rootfs.image.config,
        metadata_of(rootfs).layers == rootfs.image.layers,
        metadata_of(rootfs).operating_system == rootfs.image.operating_system,
        metadata_of(rootfs).architecture == rootfs.image.architecture,
        metadata_of(rootfs).variant == rootfs.image.variant,
        metadata_of(rootfs).rootfs_digest == rootfs.rootfs_digest,
        metadata_of(rootfs).rootfs_entries == rootfs.rootfs_entries,
        metadata_of(rootfs).rootfs_bytes == rootfs.rootfs_bytes,
{
}

/// Metadata is of an image exactly where provider, key and every part of the image agree.
pub proof fn law_metadata_is_of_one_image(
    metadata: MetadataText,
    provider: Seq<char>,
    activation_key: Seq<char>,
    image: ImageText,
)
    ensures
        metadata.is_of(provider, activation_key, image) <==> {
            &&& metadata.schema_version == 1
            &&& metadata.provider == provider
            &&& metadata.activation_key == activation_key
            &&& metadata.exact_reference == image.exact_reference
            &&& metadata.image_id == image.image_id
            &&& metadata.index == image.index
            &&& metadata.manifest == image.manifest
            &&& metadata.config == image.config
            &&& metadata.layers == image.layers
            &&& metadata.operating_system == image.operating_system
            &&& metadata.architecture == image.architecture
            &&& metadata.variant == image.variant
        },
{
}

} // verus!

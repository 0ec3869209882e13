//! Compose requests and the locked topologies they become.

use crate::oci::network::NetworkPolicy;
use crate::table::Table;
use crate::text;
use vstd::prelude::*;

verus! {

pub const LOCK_SCHEMA_VERSION: u32 = 6;

pub const MAX_SERVICES: usize = 32;

pub const MAX_NETWORKS: usize = 8;

pub const MAX_VOLUMES: usize = 128;

pub const MAX_ENVIRONMENT: usize = 128;

pub const MAX_ARGUMENTS: usize = 256;

pub const MAX_VALUE_BYTES: usize = 16384;

pub const MAX_SERVICE_VOLUMES: usize = 64;

pub const MAX_COMPOSE_BYTES: usize = 1_048_576;

/// How long the contents of a volume live.
#[derive(Clone, Copy, Debug, PartialEq, Eq, Structural)]
pub enum VolumePersistenceClass {
    Ephemeral,
    Persistent,
    Artifact,
    Secret,
}

impl VolumePersistenceClass {
    /// Ephemeral and persistent volumes are the named, writable ones.
    pub open spec fn named(self) -> bool {
        self is Ephemeral || self is Persistent
    }

    pub fn is_named(self) -> (r: bool)
        ensures
            r == self.named(),
    {
        match self {
            VolumePersistenceClass::Ephemeral | VolumePersistenceClass::Persistent => true,
            VolumePersistenceClass::Artifact | VolumePersistenceClass::Secret => false,
        }
    }
}

/// Whether a snapshot of the sandbox covers a volume.
#[derive(Clone, Copy, Debug, PartialEq, Eq, Structural)]
pub enum VolumeSnapshotPolicy {
    Required,
    BestEffort,
    Excluded,
}

/// One volume as a container mounts it.
#[derive(Clone, Debug, PartialEq, Eq)]
pub struct VolumeSpec {
    pub schema_version: u32,
    pub volume_id: String,
    pub destination: String,
    pub read_only: bool,
    pub persistence_class: VolumePersistenceClass,
    pub snapshot_policy: VolumeSnapshotPolicy,
    pub quota_bytes: u64,
    pub content_digest: Option<String>,
}

/// The identity of a reviewed guest profile.
#[derive(Clone, Debug, PartialEq, Eq)]
pub struct GuestProfileIdentity {
    pub name: String,
}

/// A restricted Compose file.
#[derive(Debug)]
pub struct ComposeInput {
    pub name: Option<String>,
    pub services: Table<ServiceInput>,
    pub networks: Table<NetworkInput>,
    pub volumes: Table<VolumeInput>,
    pub guest_profile: Option<String>,
    pub network_policy: NetworkPolicy,
}

/// A volume that a Compose file declares.
#[derive(Debug)]
pub struct VolumeInput {
    pub persistence_class: VolumePersistenceClass,
    pub snapshot_policy: Option<VolumeSnapshotPolicy>,
    pub quota_bytes: Option<u64>,
    pub content_digest: Option<String>,
}

/// A mount that a service asks for.
#[derive(Debug)]
pub struct ServiceVolumeInput {
    pub source: String,
    pub target: String,
    pub read_only: Option<bool>,
}

/// A network that a Compose file declares.
#[derive(Debug)]
pub struct NetworkInput {
    pub internal: Option<bool>,
    pub driver: Option<String>,
}

impl Default for NetworkInput {
    fn default() -> (r: Self)
        ensures
            r == (NetworkInput { internal: None, driver: None }),
    {
        NetworkInput { internal: None, driver: None }
    }
}

/// A service that a Compose file declares.
#[derive(Debug)]
pub struct ServiceInput {
    pub image: String,
    pub command: Vec<String>,
    pub entrypoint: Vec<String>,
    pub environment: Table<String>,
    pub depends_on: Table<DependencyInput>,
    pub healthcheck: Option<HealthcheckInput>,
    pub networks: Vec<String>,
    pub user: Option<String>,
    pub working_dir: Option<String>,
    pub read_only: Option<bool>,
    pub volumes: Vec<ServiceVolumeInput>,
}

/// What a service waits for in another.
#[derive(Clone, Copy, Debug, PartialEq, Eq, Structural)]
pub struct DependencyInput {
    pub condition: DependencyCondition,
}

#[derive(Clone, Copy, Debug, PartialEq, Eq, Structural)]
pub enum DependencyCondition {
    Started,
    Healthy,
    CompletedSuccessfully,
}

/// A health probe that a service asks for.
#[derive(Debug)]
pub struct HealthcheckInput {
    pub test: Vec<String>,
    pub interval_ms: u64,
    pub timeout_ms: u64,
    pub retries: u32,
}

/// The probe interval where none is given.
pub fn default_interval_ms() -> (r: u64)
    ensures
        r == 100,
{
    100
}

/// The probe timeout where none is given.
pub fn default_timeout_ms() -> (r: u64)
    ensures
        r == 1000,
{
    1_000
}

/// The probe attempts where none are given.
pub fn default_retries() -> (r: u32)
    ensures
        r == 30,
{
    30
}

/// A topology with every choice made and every image pinned.
#[derive(Clone, Debug, PartialEq, Eq)]
pub struct TopologyLock {
    pub schema_version: u32,
    pub topology_digest: String,
    pub name: String,
    pub services: Table<LockedService>,
    pub networks: Table<LockedNetwork>,
    pub volumes: Table<LockedVolume>,
    pub startup_order: Vec<String>,
    pub policy: SandboxPolicy,
}

#[derive(Clone, Debug, PartialEq, Eq)]
pub struct LockedService {
    pub image: LockedImage,
    pub command: Vec<String>,
    pub entrypoint: Vec<String>,
    pub environment: Table<String>,
    pub depends_on: Table<DependencyCondition>,
    pub healthcheck: Option<LockedHealthcheck>,
    pub networks: Vec<String>,
    pub user: String,
    pub working_dir: String,
    pub root_filesystem: RootFilesystemMode,
    pub volumes: Vec<VolumeSpec>,
}

#[derive(Clone, Debug, PartialEq, Eq)]
pub struct LockedVolume {
    pub persistence_class: VolumePersistenceClass,
    pub snapshot_policy: VolumeSnapshotPolicy,
    pub quota_bytes: u64,
    pub content_digest: Option<String>,
}

#[derive(Clone, Copy, Debug, PartialEq, Eq, Structural)]
pub enum RootFilesystemMode {
    ReadOnly,
    Writable,
}

/// A `LockedDescriptor` with its texts read as character sequences.
pub struct DescriptorText {
    pub media_type: Seq<char>,
    pub digest: Seq<char>,
    pub size: u64,
}

impl View for LockedDescriptor {
    type V = DescriptorText;

    open spec fn view(&self) -> DescriptorText {
        DescriptorText {
            media_type: self.media_type@,
            digest: self.digest@,
            size: self.size,
        }
    }
}

impl Clone for LockedDescriptor {
    fn clone(&self) -> (r: Self)
        ensures
            r == *self,
    {
        LockedDescriptor {
            media_type: self.media_type.clone(),
            digest: self.digest.clone(),
            size: self.size,
        }
    }
}

impl LockedDescriptor {
    /// Whether two descriptors pin the same blob.
    pub fn same(&self, other: &Self) -> (r: bool)
        ensures
            r == (self@ == other@),
    {
        self.size == other.size && text::same(self.media_type.as_str(), other.media_type.as_str())
            && text::same(self.digest.as_str(), other.digest.as_str())
    }
}

/// A row of descriptors read through their views.
pub open spec fn descriptor_texts(descriptors: Seq<LockedDescriptor>) -> Seq<DescriptorText> {
    Seq::new(descriptors.len(), |i: int| descriptors[i]@)
}

/// Whether two rows of descriptors pin the same blobs.
pub fn same_descriptors(left: &Vec<LockedDescriptor>, right: &Vec<LockedDescriptor>) -> (r: bool)
    ensures
        r == (descriptor_texts(left@) == descriptor_texts(right@)),
{
    let ghost l = descriptor_texts(left@);
    let ghost r = descriptor_texts(right@);
    if left.len() != right.len() {
        proof {
            assert(l.len() != r.len());
        }
        return false;
    }
    let mut i: usize = 0;
    while i < left.len()
        invariant
            i <= left@.len(),
            left@.len() == right@.len(),
            l == descriptor_texts(left@),
            r == descriptor_texts(right@),
            forall|j: int| 0 <= j < i ==> #[trigger] l[j] == r[j],
        decreases left@.len() - i,
    {
        if !left[i].same(&right[i]) {
            proof {
                assert(l[i as int] != r[i as int]);
            }
            return false;
        }
        i += 1;
    }
    proof {
        assert(l =~= r);
    }
    true
}

fn copy_descriptors(descriptors: &Vec<LockedDescriptor>) -> (r: Vec<LockedDescriptor>)
    ensures
        r@ == descriptors@,
{
    let mut copy: Vec<LockedDescriptor> = Vec::new();
    let mut i: usize = 0;
    while i < descriptors.len()
        invariant
            i <= descriptors@.len(),
            copy@ == descriptors@.take(i as int),
        decreases descriptors@.len() - i,
    {
        copy.push(descriptors[i].clone());
        i += 1;
        proof {
            assert(descriptors@.take(i as int) =~= descriptors@.take(i - 1).push(
                descriptors@[i - 1],
            ));
        }
    }
    proof {
        assert(descriptors@.take(descriptors@.len() as int) =~= descriptors@);
    }
    copy
}

/// A `LockedImage` with its texts read as character sequences.
#[verifier::ext_equal]
pub struct ImageText {
    pub source: Seq<char>,
    pub exact_reference: Seq<char>,
    pub image_id: Seq<char>,
    pub index: Option<DescriptorText>,
    pub manifest: DescriptorText,
    pub config: DescriptorText,
    pub layers: Seq<DescriptorText>,
    pub operating_system: Seq<char>,
    pub architecture: Seq<char>,
    pub variant: Option<Seq<char>>,
}

/// An optional descriptor read through its view.
pub open spec fn optional_descriptor(value: Option<LockedDescriptor>) -> Option<DescriptorText> {
    match value {
        Some(descriptor) => Some(descriptor@),
        None => None,
    }
}

/// Whether two optional descriptors agree.
pub fn same_optional_descriptor(
    left: &Option<LockedDescriptor>,
    right: &Option<LockedDescriptor>,
) -> (r: bool)
    ensures
        r == (optional_descriptor(*left) == optional_descriptor(*right)),
{
    match (left, right) {
        (Some(a), Some(b)) => a.same(b),
        (None, None) => true,
        _ => false,
    }
}

impl View for LockedImage {
    type V = ImageText;

    open spec fn view(&self) -> ImageText {
        ImageText {
            source: self.source@,
            exact_reference: self.exact_reference@,
            image_id: self.image_id@,
            index: optional_descriptor(self.index),
            manifest: self.manifest@,
            config: self.config@,
            layers: descriptor_texts(self.layers@),
            operating_system: self.operating_system@,
            architecture: self.architecture@,
            variant: text::optional(self.variant),
        }
    }
}

impl Clone for LockedImage {
    fn clone(&self) -> (r: Self)
        ensures
            r@ == self@,
    {
        LockedImage {
            source: self.source.clone(),
            exact_reference: self.exact_reference.clone(),
            image_id: self.image_id.clone(),
            index: self.index.clone(),
            manifest: self.manifest.clone(),
            config: self.config.clone(),
            layers: copy_descriptors(&self.layers),
            operating_system: self.operating_system.clone(),
            architecture: self.architecture.clone(),
            variant: self.variant.clone(),
        }
    }
}

impl LockedImage {
    /// Whether two locks are of the same image.
    pub fn same(&self, other: &Self) -> (r: bool)
        ensures
            r == (self@ == other@),
    {
        text::same(self.source.as_str(), other.source.as_str()) && text::same(
            self.exact_reference.as_str(),
            other.exact_reference.as_str(),
        ) && text::same(self.image_id.as_str(), other.image_id.as_str())
            && same_optional_descriptor(&self.index, &other.index) && self.manifest.same(
            &other.manifest,
        ) && self.config.same(&other.config) && same_descriptors(&self.layers, &other.layers)
            && text::same(
            self.operating_system.as_str(),
            other.operating_system.as_str(),
        ) && text::same(self.architecture.as_str(), other.architecture.as_str())
            && text::same_optional(&self.variant, &other.variant)
    }
}

/// An image pinned by its digests.
#[derive(Debug, PartialEq, Eq)]
pub struct LockedImage {
    pub source: String,
    pub exact_reference: String,
    pub image_id: String,
    pub index: Option<LockedDescriptor>,
    pub manifest: LockedDescriptor,
    pub config: LockedDescriptor,
    pub layers: Vec<LockedDescriptor>,
    pub operating_system: String,
    pub architecture: String,
    pub variant: Option<String>,
}

/// A blob pinned by its digest.
#[derive(Debug, PartialEq, Eq)]
pub struct LockedDescriptor {
    pub media_type: String,
    pub digest: String,
    pub size: u64,
}

#[derive(Clone, Debug, PartialEq, Eq)]
pub struct LockedNetwork {
    pub internal: bool,
    pub driver: String,
}

#[derive(Clone, Debug, PartialEq, Eq)]
pub struct LockedHealthcheck {
    pub command: Vec<String>,
    pub interval_ms: u64,
    pub timeout_ms: u64,
    pub retries: u32,
}

/// The resources and the network that every service of a topology gets.
#[derive(Clone, Debug, PartialEq, Eq)]
pub struct SandboxPolicy {
    pub guest_profile: GuestProfileIdentity,
    pub runtime: String,
    pub memory_bytes_per_service: u64,
    pub cpu_per_service_millis: u32,
    pub pids_per_service: u32,
    pub tmpfs_bytes: u64,
    pub writable_root_bytes_per_service: u64,
    pub maximum_output_bytes: usize,
    pub network: NetworkPolicy,
}

impl SandboxPolicy {
    /// The policy that a topology is locked with.
    pub open spec fn is_standard(self, guest_profile: GuestProfileIdentity) -> bool {
        &&& self.guest_profile == guest_profile
        &&& self.runtime@ == "runsc"@
        &&& self.memory_bytes_per_service == 128 * 1024 * 1024
        &&& self.cpu_per_service_millis == 500
        &&& self.pids_per_service == 96
        &&& self.tmpfs_bytes == 16 * 1024 * 1024
        &&& self.writable_root_bytes_per_service == 64 * 1024 * 1024
        &&& self.maximum_output_bytes == 1024 * 1024
        &&& self.network.is_closed()
    }

    /// The policy that a topology is locked with, under `guest_profile`.
    pub fn standard(guest_profile: GuestProfileIdentity) -> (r: Self)
        ensures
            r.is_standard(guest_profile),
    {
        SandboxPolicy {
            guest_profile,
            runtime: "runsc".to_owned(),
            memory_bytes_per_service: 128 * 1024 * 1024,
            cpu_per_service_millis: 500,
            pids_per_service: 96,
            tmpfs_bytes: 16 * 1024 * 1024,
            writable_root_bytes_per_service: 64 * 1024 * 1024,
            maximum_output_bytes: 1024 * 1024,
            network: NetworkPolicy::default(),
        }
    }
}

/// Named volumes are the ephemeral and the persistent ones.
pub proof fn law_named_volumes_are_ephemeral_or_persistent(class: VolumePersistenceClass)
    ensures
        class.named() <==> class == VolumePersistenceClass::Ephemeral || class
            == VolumePersistenceClass::Persistent,
{
}

/// A lock is of the sixth schema, and these are the limits of a topology.
pub proof fn law_topologies_are_limited()
    ensures
        LOCK_SCHEMA_VERSION == 6,
        MAX_SERVICES == 32,
        MAX_NETWORKS == 8,
        MAX_VOLUMES == 128,
        MAX_ENVIRONMENT == 128,
        MAX_ARGUMENTS == 256,
        MAX_VALUE_BYTES == 16 * 1024,
        MAX_SERVICE_VOLUMES == 64,
        MAX_COMPOSE_BYTES == 1024 * 1024,
{
}

/// A standard policy runs in gVisor with these limits and a closed network.
pub proof fn law_standard_policies_are_limited(
    policy: SandboxPolicy,
    guest_profile: GuestProfileIdentity,
)
    ensures
        policy.is_standard(guest_profile) <==> {
            &&& policy.guest_profile == guest_profile
            &&& policy.runtime@ == "runsc"@
            &&& policy.memory_bytes_per_service == 134_217_728
            &&& policy.cpu_per_service_millis == 500
            &&& policy.pids_per_service == 96
            &&& policy.tmpfs_bytes == 16_777_216
            &&& policy.writable_root_bytes_per_service == 67_108_864
            &&& policy.maximum_output_bytes == 1_048_576
            &&& policy.network.is_closed()
        },
{
}

/// Descriptors are viewed one by one, in their order.
pub proof fn law_descriptors_are_viewed_in_order(
    descriptors: Seq<LockedDescriptor>,
    descriptor: LockedDescriptor,
    i: int,
)
    requires
        0 <= i < descriptors.len(),
    ensures
        descriptor_texts(descriptors).len() == descriptors.len(),
        descriptor_texts(descriptors)[i] == descriptors[i]@,
        optional_descriptor(Some(descriptor)) == Some(descriptor@),
        optional_descriptor(None) is None,
{
}

} // verus!

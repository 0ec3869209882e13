//! Resolution of a reference to a locked image, and the check of a locked image against the
//! content store. The client is run between the steps.

use crate::checks;
use crate::digest;
use crate::lines;
use crate::oci::error;
use crate::oci::error::{SandboxError, SandboxFailure};
use crate::oci::model;
use crate::oci::model::{DescriptorText, ImageText, LockedDescriptor, LockedImage};
use crate::oci::provider::config::ImageLimits;
use crate::oci::provider::containerd::ContainerdImageProvider;
use crate::oci::provider::content;
use crate::oci::provider::content::{check_announced, check_content, verified_content};
use crate::oci::provider::credentials::RegistryCredential;
use crate::oci::provider::manifest;
use crate::oci::provider::manifest::{
    config_value, has_artifact_type, metadata_value, platform_manifests, read_config_platform,
    read_manifest, select_manifest, string_field,
};
use crate::oci::provider::reference;
use crate::oci::provider::reference::{image_record, parse_reference};
use crate::text;
use crate::text::join3;
use crate::time::Duration;
use vstd::prelude::*;

verus! {

/// How far a resolution has come: what is to be asked of the client next.
#[derive(Debug)]
pub enum ResolutionStage {
    /// Fetch the metadata of the source.
    Fetch,
    /// List the record of the source.
    List,
    /// Read the object that the record names.
    Top { media_type: String, digest: String },
    /// Read the manifest.
    Manifest { index: Option<LockedDescriptor>, manifest: LockedDescriptor },
    /// Read the configuration.
    Config {
        index: Option<LockedDescriptor>,
        manifest: LockedDescriptor,
        config: LockedDescriptor,
        layers: Vec<LockedDescriptor>,
    },
}

/// A `ResolutionStage` with its texts read as character sequences.
#[verifier::ext_equal]
pub enum StageText {
    Fetch,
    List,
    Top { media_type: Seq<char>, digest: Seq<char> },
    Manifest { index: Option<DescriptorText>, manifest: DescriptorText },
    Config {
        index: Option<DescriptorText>,
        manifest: DescriptorText,
        config: DescriptorText,
        layers: Seq<DescriptorText>,
    },
}

impl View for ResolutionStage {
    type V = StageText;

    open spec fn view(&self) -> StageText {
        match *self {
            ResolutionStage::Fetch => StageText::Fetch,
            ResolutionStage::List => StageText::List,
            ResolutionStage::Top { media_type, digest } => StageText::Top {
                media_type: media_type@,
                digest: digest@,
            },
            ResolutionStage::Manifest { index, manifest } => StageText::Manifest {
                index: model::optional_descriptor(index),
                manifest: manifest@,
            },
            ResolutionStage::Config { index, manifest, config, layers } => StageText::Config {
                index: model::optional_descriptor(index),
                manifest: manifest@,
                config: config@,
                layers: model::descriptor_texts(layers@),
            },
        }
    }
}

/// A resolution under way.
#[derive(Debug)]
pub struct Resolution {
    pub source: String,
    pub repository: String,
    pub stage: ResolutionStage,
}

/// What comes of a reply: the next stage, or the image.
#[derive(Debug)]
pub enum ResolutionProgress {
    Next(Resolution),
    Done(LockedImage),
}

/// A `ResolutionProgress` with its texts read as character sequences.
#[verifier::ext_equal]
pub enum ProgressText {
    Next(StageText),
    Done(ImageText),
}

/// What is asked of the client.
#[derive(Debug)]
pub enum ClientRequest {
    Run { arguments: Vec<String>, timeout: Duration, operation: String },
    Read { digest: String, maximum: u64, timeout: Duration },
}

/// The progress that a result holds, for a resolution of `source` in `repository`.
pub open spec fn progress_of(
    source: Seq<char>,
    repository: Seq<char>,
    result: Result<ResolutionProgress, SandboxError>,
    owed: Result<ProgressText, SandboxFailure>,
) -> bool {
    match result {
        Err(error) => owed == Err::<ProgressText, SandboxFailure>(error@),
        Ok(ResolutionProgress::Done(image)) => owed == Ok::<ProgressText, SandboxFailure>(
            ProgressText::Done(image@),
        ),
        Ok(ResolutionProgress::Next(next)) => {
            &&& next.source@ == source
            &&& next.repository@ == repository
            &&& owed == Ok::<ProgressText, SandboxFailure>(ProgressText::Next(next.stage@))
        },
    }
}

/// A next stage, unless something stands against it.
pub open spec fn unless(failure: Option<SandboxFailure>, next: ProgressText) -> Result<
    ProgressText,
    SandboxFailure,
> {
    match failure {
        Some(failure) => Err(failure),
        None => Ok(next),
    }
}

/// Behind the object that the record named.
pub open spec fn behind_top(
    provider: ContainerdImageProvider,
    media_type: Seq<char>,
    digest: Seq<char>,
    bytes: Seq<u8>,
) -> Result<ProgressText, SandboxFailure> {
    let limits = provider.settings().limits;
    match content::digest_failure(digest, bytes) {
        Some(failure) => Err(failure),
        None => match manifest::metadata_of("image metadata"@, bytes, media_type) {
            Err(failure) => Err(failure),
            Ok(value) => match manifest::selected(
                DescriptorText { media_type, digest, size: bytes.len() as u64 },
                value,
                provider.settings().platform,
            ) {
                Err(failure) => Err(failure),
                Ok(found) => unless(
                    content::oversize_failure(
                        found.1.digest,
                        found.1.size,
                        limits.maximum_manifest_bytes,
                    ),
                    ProgressText::Next(StageText::Manifest { index: found.0, manifest: found.1 }),
                ),
            },
        },
    }
}

/// Behind the manifest.
pub open spec fn behind_manifest(
    provider: ContainerdImageProvider,
    index: Option<DescriptorText>,
    manifest: DescriptorText,
    bytes: Seq<u8>,
) -> Result<ProgressText, SandboxFailure> {
    let limits = provider.settings().limits;
    match content::content_failure(manifest.digest, manifest.size, bytes) {
        Some(failure) => Err(failure),
        None => match manifest::metadata_of("manifest"@, bytes, manifest.media_type) {
            Err(failure) => Err(failure),
            Ok(value) => if manifest::is_artifact(value) {
                Err(
                    SandboxFailure::ImageProvider(
                        "OCI artifacts are not admitted as container images"@,
                    ),
                )
            } else {
                match manifest::manifest_parts(value) {
                    Err(failure) => Err(failure),
                    Ok(parts) => unless(
                        content::oversize_failure(
                            parts.0.digest,
                            parts.0.size,
                            limits.maximum_config_bytes,
                        ),
                        ProgressText::Next(
                            StageText::Config {
                                index,
                                manifest,
                                config: parts.0,
                                layers: parts.1,
                            },
                        ),
                    ),
                }
            },
        },
    }
}

/// The image that a resolution ends in.
pub open spec fn resolved_image(
    provider: ContainerdImageProvider,
    source: Seq<char>,
    repository: Seq<char>,
    index: Option<DescriptorText>,
    manifest: DescriptorText,
    config: DescriptorText,
    layers: Seq<DescriptorText>,
    platform: (Seq<char>, Seq<char>),
) -> ImageText {
    ImageText {
        source,
        exact_reference: repository + "@"@ + manifest.digest,
        image_id: config.digest,
        index,
        manifest,
        config,
        layers,
        operating_system: platform.0,
        architecture: platform.1,
        variant: text::optional(provider.settings().platform.variant),
    }
}

/// Behind the configuration.
pub open spec fn behind_config(
    provider: ContainerdImageProvider,
    source: Seq<char>,
    repository: Seq<char>,
    index: Option<DescriptorText>,
    manifest: DescriptorText,
    config: DescriptorText,
    layers: Seq<DescriptorText>,
    bytes: Seq<u8>,
) -> Result<ProgressText, SandboxFailure> {
    match content::content_failure(config.digest, config.size, bytes) {
        Some(failure) => Err(failure),
        None => match manifest::config_document(bytes) {
            Err(failure) => Err(failure),
            Ok(value) => match manifest::config_platform(value) {
                Err(failure) => Err(failure),
                Ok(platform) => {
                    let image = resolved_image(
                        provider,
                        source,
                        repository,
                        index,
                        manifest,
                        config,
                        layers,
                        platform,
                    );
                    unless(provider.image_refusal(image), ProgressText::Done(image))
                },
            },
        },
    }
}

/// What comes of the reply to a stage.
pub open spec fn resolution_step(
    provider: ContainerdImageProvider,
    source: Seq<char>,
    repository: Seq<char>,
    stage: StageText,
    reply: Result<Seq<u8>, SandboxFailure>,
) -> Result<ProgressText, SandboxFailure> {
    match reply {
        Err(failure) => Err(failure),
        Ok(bytes) => match stage {
            StageText::Fetch => Ok(ProgressText::Next(StageText::List)),
            StageText::List => match reference::sole_record(source, lines::lossy(bytes)) {
                Some(record) => Ok(
                    ProgressText::Next(StageText::Top { media_type: record.0, digest: record.1 }),
                ),
                None => Err(
                    SandboxFailure::ImageProvider(
                        "containerd did not publish one resolved image record"@,
                    ),
                ),
            },
            StageText::Top { media_type, digest } => behind_top(
                provider,
                media_type,
                digest,
                bytes,
            ),
            StageText::Manifest { index, manifest } => behind_manifest(
                provider,
                index,
                manifest,
                bytes,
            ),
            StageText::Config { index, manifest, config, layers } => behind_config(
                provider,
                source,
                repository,
                index,
                manifest,
                config,
                layers,
                bytes,
            ),
        },
    }
}

fn advance_top(
    provider: &ContainerdImageProvider,
    media_type: String,
    digest: String,
    bytes: &[u8],
) -> (r: Result<ResolutionStage, SandboxError>)
    ensures
        match r {
            Ok(stage) => behind_top(*provider, media_type@, digest@, bytes@) == Ok::<
                ProgressText,
                SandboxFailure,
            >(ProgressText::Next(stage@)),
            Err(error) => behind_top(*provider, media_type@, digest@, bytes@) == Err::<
                ProgressText,
                SandboxFailure,
            >(error@),
        },
{
    match check_content(digest.as_str(), bytes) {
        Ok(()) => {},
        Err(error) => return Err(error),
    }
    let value = match metadata_value("image metadata", bytes, media_type.as_str()) {
        Ok(value) => value,
        Err(error) => return Err(error),
    };
    let top = LockedDescriptor { media_type, digest, size: bytes.len() as u64 };
    let (index, manifest) = match select_manifest(top, &value, &provider.config().platform) {
        Ok(found) => found,
        Err(error) => return Err(error),
    };
    match check_announced(
        manifest.digest.as_str(),
        manifest.size,
        provider.config().limits.maximum_manifest_bytes,
    ) {
        Ok(()) => {},
        Err(error) => return Err(error),
    }
    Ok(ResolutionStage::Manifest { index, manifest })
}

fn advance_manifest(
    provider: &ContainerdImageProvider,
    index: Option<LockedDescriptor>,
    manifest: LockedDescriptor,
    bytes: &[u8],
) -> (r: Result<ResolutionStage, SandboxError>)
    ensures
        match r {
            Ok(stage) => behind_manifest(
                *provider,
                model::optional_descriptor(index),
                manifest@,
                bytes@,
            ) == Ok::<ProgressText, SandboxFailure>(ProgressText::Next(stage@)),
            Err(error) => behind_manifest(
                *provider,
                model::optional_descriptor(index),
                manifest@,
                bytes@,
            ) == Err::<ProgressText, SandboxFailure>(error@),
        },
{
    match verified_content(manifest.digest.as_str(), manifest.size, bytes) {
        Ok(()) => {},
        Err(error) => return Err(error),
    }
    let value = match metadata_value("manifest", bytes, manifest.media_type.as_str()) {
        Ok(value) => value,
        Err(error) => return Err(error),
    };
    if has_artifact_type(&value) {
        return Err(
            SandboxError::ImageProvider(
                "OCI artifacts are not admitted as container images".to_owned(),
            ),
        );
    }
    let (config, layers) = match read_manifest(&value) {
        Ok(parts) => parts,
        Err(error) => return Err(error),
    };
    match check_announced(
        config.digest.as_str(),
        config.size,
        provider.config().limits.maximum_config_bytes,
    ) {
        Ok(()) => {},
        Err(error) => return Err(error),
    }
    Ok(ResolutionStage::Config { index, manifest, config, layers })
}

fn advance_config(
    provider: &ContainerdImageProvider,
    source: String,
    repository: &str,
    index: Option<LockedDescriptor>,
    manifest: LockedDescriptor,
    config: LockedDescriptor,
    layers: Vec<LockedDescriptor>,
    bytes: &[u8],
) -> (r: Result<LockedImage, SandboxError>)
    ensures
        match r {
            Ok(image) => behind_config(
                *provider,
                source@,
                repository@,
                model::optional_descriptor(index),
                manifest@,
                config@,
                model::descriptor_texts(layers@),
                bytes@,
            ) == Ok::<ProgressText, SandboxFailure>(ProgressText::Done(image@)),
            Err(error) => behind_config(
                *provider,
                source@,
                repository@,
                model::optional_descriptor(index),
                manifest@,
                config@,
                model::descriptor_texts(layers@),
                bytes@,
            ) == Err::<ProgressText, SandboxFailure>(error@),
        },
{
    match verified_content(config.digest.as_str(), config.size, bytes) {
        Ok(()) => {},
        Err(error) => return Err(error),
    }
    let value = match config_value(bytes) {
        Ok(value) => value,
        Err(error) => return Err(error),
    };
    let (operating_system, architecture) = match read_config_platform(&value) {
        Ok(platform) => platform,
        Err(error) => return Err(error),
    };
    let image = LockedImage {
        source,
        exact_reference: join3(repository, "@", manifest.digest.as_str()),
        image_id: config.digest.clone(),
        index,
        manifest,
        config,
        layers,
        operating_system,
        architecture,
        variant: provider.config().platform.variant.clone(),
    };
    match provider.validate_image(&image) {
        Ok(()) => Ok(image),
        Err(error) => Err(error),
    }
}

/// Why a resolution is not begun.
pub open spec fn start_failure(
    source: Seq<char>,
    credential: Option<RegistryCredential>,
) -> Option<SandboxFailure> {
    match credential {
        Some(credential) => crate::oci::provider::containerd::credential_failure(
            source,
            credential@,
        ),
        None => reference::reference_failure(source),
    }
}

impl Resolution {
    /// Begins to resolve `source`, with the credential where there is one.
    pub fn start(source: &str, credential: Option<&RegistryCredential>) -> (r: Result<
        Self,
        SandboxError,
    >)
        ensures
            match r {
                Ok(resolution) => {
                    &&& start_failure(
                        source@,
                        match credential {
                            Some(credential) => Some(*credential),
                            None => None,
                        },
                    ) is None
                    &&& resolution.source@ == source@
                    &&& exists|registry: Seq<char>|
                        reference::refers(source@, registry, resolution.repository@)
                    &&& resolution.stage@ == StageText::Fetch
                },
                Err(error) => start_failure(
                    source@,
                    match credential {
                        Some(credential) => Some(*credential),
                        None => None,
                    },
                ) == Some(error@),
            },
    {
        let parsed = match parse_reference(source) {
            Ok(parsed) => parsed,
            Err(error) => return Err(error),
        };
        let ghost registry = parsed.registry@;
        let ghost repository = parsed.repository@;
        match credential {
            Some(credential) => match credential.ensure_registry(parsed.registry) {
                Ok(()) => {
                    proof {
                        assert(reference::refers(source@, registry, repository)
                            && credential@.serves(registry));
                    }
                },
                Err(error) => {
                    proof {
                        assert forall|other: Seq<char>, behind: Seq<char>|
                            reference::refers(source@, other, behind) implies !credential@.serves(
                            other,
                        ) by {
                            text::lemma_utf8_injective(other, registry);
                        }
                    }
                    return Err(error);
                },
            },
            None => {},
        }
        let resolution = Resolution {
            source: source.to_owned(),
            repository: parsed.repository.to_owned(),
            stage: ResolutionStage::Fetch,
        };
        proof {
            assert(reference::refers(source@, registry, resolution.repository@));
        }
        Ok(resolution)
    }

    /// What is to be asked of the client. `hosts` is the directory that holds the credential.
    pub fn request(&self, provider: &ContainerdImageProvider, hosts: Option<&str>) -> (r:
        ClientRequest)
        ensures
            match self.stage@ {
                StageText::Fetch => {
                    &&& r matches ClientRequest::Run { arguments, timeout, operation }
                    &&& text::texts(arguments@) == ContainerdImageProvider::with_hosts(
                        seq![
                            "content"@,
                            "fetch"@,
                            "--metadata-only"@,
                            "--platform"@,
                            provider.settings().platform.notation(),
                            "--label"@,
                            "runtrue.io/managed=true"@,
                        ],
                        hosts,
                        seq![self.source@, self.source@],
                    )
                    &&& timeout == provider.settings().limits.operation_timeout
                    &&& operation@ == "resolve OCI metadata through containerd"@
                },
                StageText::List => {
                    &&& r matches ClientRequest::Run { arguments, timeout, operation }
                    &&& text::texts(arguments@) == seq![
                        "images"@,
                        "list"@,
                        "name=="@ + self.source@,
                    ]
                    &&& timeout.nanoseconds == 10_000_000_000
                    &&& operation@ == "read resolved containerd image"@
                },
                StageText::Top { digest, .. } => {
                    &&& r matches ClientRequest::Read { digest: named, maximum, timeout }
                    &&& named@ == digest
                    &&& maximum == provider.settings().limits.maximum_manifest_bytes
                    &&& timeout == provider.settings().limits.operation_timeout
                },
                StageText::Manifest { manifest, .. } => {
                    &&& r matches ClientRequest::Read { digest: named, maximum, timeout }
                    &&& named@ == manifest.digest
                    &&& maximum == provider.settings().limits.maximum_manifest_bytes
                    &&& timeout == provider.settings().limits.operation_timeout
                },
                StageText::Config { config, .. } => {
                    &&& r matches ClientRequest::Read { digest: named, maximum, timeout }
                    &&& named@ == config.digest
                    &&& maximum == provider.settings().limits.maximum_config_bytes
                    &&& timeout == provider.settings().limits.operation_timeout
                },
            },
    {
        let limits = &provider.config().limits;
        match &self.stage {
            ResolutionStage::Fetch => ClientRequest::Run {
                arguments: provider.resolve_arguments(self.source.as_str(), hosts),
                timeout: limits.operation_timeout,
                operation: "resolve OCI metadata through containerd".to_owned(),
            },
            ResolutionStage::List => ClientRequest::Run {
                arguments: provider.record_arguments(self.source.as_str()),
                timeout: Duration::from_secs(10),
                operation: "read resolved containerd image".to_owned(),
            },
            ResolutionStage::Top { digest, .. } => ClientRequest::Read {
                digest: digest.clone(),
                maximum: limits.maximum_manifest_bytes,
                timeout: limits.operation_timeout,
            },
            ResolutionStage::Manifest { manifest, .. } => ClientRequest::Read {
                digest: manifest.digest.clone(),
                maximum: limits.maximum_manifest_bytes,
                timeout: limits.operation_timeout,
            },
            ResolutionStage::Config { config, .. } => ClientRequest::Read {
                digest: config.digest.clone(),
                maximum: limits.maximum_config_bytes,
                timeout: limits.operation_timeout,
            },
        }
    }

    /// Takes the reply of the client: its output, or the content that it read.
    pub fn advance(
        self,
        provider: &ContainerdImageProvider,
        reply: Result<Vec<u8>, SandboxError>,
    ) -> (r: Result<ResolutionProgress, SandboxError>)
        ensures
            progress_of(
                self.source@,
                self.repository@,
                r,
                resolution_step(
                    *provider,
                    self.source@,
                    self.repository@,
                    self.stage@,
                    error::seen(reply),
                ),
            ),
    {
        let bytes = match reply {
            Ok(bytes) => bytes,
            Err(error) => return Err(error),
        };
        let Resolution { source, repository, stage } = self;
        let next = match stage {
            ResolutionStage::Fetch => ResolutionStage::List,
            ResolutionStage::List => match image_record(source.as_str(), bytes.as_slice()) {
                Ok((media_type, digest)) => ResolutionStage::Top { media_type, digest },
                Err(error) => return Err(error),
            },
            ResolutionStage::Top { media_type, digest } => match advance_top(
                provider,
                media_type,
                digest,
                bytes.as_slice(),
            ) {
                Ok(next) => next,
                Err(error) => return Err(error),
            },
            ResolutionStage::Manifest { index, manifest } => match advance_manifest(
                provider,
                index,
                manifest,
                bytes.as_slice(),
            ) {
                Ok(next) => next,
                Err(error) => return Err(error),
            },
            ResolutionStage::Config { index, manifest, config, layers } => {
                return match advance_config(
                    provider,
                    source,
                    repository.as_str(),
                    index,
                    manifest,
                    config,
                    layers,
                    bytes.as_slice(),
                ) {
                    Ok(image) => Ok(ResolutionProgress::Done(image)),
                    Err(error) => Err(error),
                };
            },
        };
        Ok(ResolutionProgress::Next(Resolution { source, repository, stage: next }))
    }
}

/// The replies of a resolution that went through.
pub open spec fn resolves(
    provider: ContainerdImageProvider,
    source: Seq<char>,
    repository: Seq<char>,
    listing: Seq<u8>,
    top: Seq<u8>,
    manifest: Seq<u8>,
    config: Seq<u8>,
    image: ImageText,
) -> bool {
    exists|first: StageText, second: StageText, third: StageText|
        {
            &&& #[trigger] leads(
                provider,
                source,
                repository,
                StageText::List,
                listing,
                ProgressText::Next(first),
            )
            &&& #[trigger] leads(
                provider,
                source,
                repository,
                first,
                top,
                ProgressText::Next(second),
            )
            &&& #[trigger] leads(
                provider,
                source,
                repository,
                second,
                manifest,
                ProgressText::Next(third),
            )
            &&& leads(provider, source, repository, third, config, ProgressText::Done(image))
        }
}

/// A reply leads from a stage to what comes next.
pub open spec fn leads(
    provider: ContainerdImageProvider,
    source: Seq<char>,
    repository: Seq<char>,
    stage: StageText,
    bytes: Seq<u8>,
    next: ProgressText,
) -> bool {
    resolution_step(
        provider,
        source,
        repository,
        stage,
        Ok::<Seq<u8>, SandboxFailure>(bytes),
    ) == Ok::<ProgressText, SandboxFailure>(next)
}

/// A resolved image is bound to the content that was read: its manifest and configuration
/// digests are those of the manifest and the configuration, its reference names that
/// manifest in the repository of the source, and the provider accepts it.
pub proof fn law_resolved_image_is_bound_to_content(
    provider: ContainerdImageProvider,
    source: Seq<char>,
    repository: Seq<char>,
    listing: Seq<u8>,
    top: Seq<u8>,
    manifest: Seq<u8>,
    config: Seq<u8>,
    image: ImageText,
)
    requires
        resolves(provider, source, repository, listing, top, manifest, config, image),
    ensures
        image.source == source,
        image.exact_reference == repository + "@"@ + image.manifest.digest,
        image.manifest.digest == digest::identity_text(manifest),
        image.manifest.size == manifest.len(),
        image.config.digest == digest::identity_text(config),
        image.config.size == config.len(),
        image.image_id == image.config.digest,
        image.index matches Some(index) ==> index.digest == digest::identity_text(top),
        image.index is None ==> image.manifest.digest == digest::identity_text(top),
        provider.image_refusal(image) is None,
{
}

/// How far the check of a locked image has come: which of its documents is read next.
#[derive(Clone, Copy, Debug, PartialEq, Eq, Structural)]
pub enum GraphStage {
    Manifest,
    Config,
    Index,
}

/// What comes of a document: another one to read, or the end.
#[derive(Clone, Copy, Debug, PartialEq, Eq, Structural)]
pub enum GraphProgress {
    Next(GraphStage),
    Done,
}

/// The descriptor that a stage reads.
pub open spec fn stage_descriptor(image: ImageText, stage: GraphStage) -> Option<DescriptorText> {
    match stage {
        GraphStage::Manifest => Some(image.manifest),
        GraphStage::Config => Some(image.config),
        GraphStage::Index => image.index,
    }
}

/// The largest document that a stage reads.
pub open spec fn stage_maximum(limits: ImageLimits, stage: GraphStage) -> u64 {
    match stage {
        GraphStage::Config => limits.maximum_config_bytes,
        _ => limits.maximum_manifest_bytes,
    }
}

/// Why the manifest is not the one that was locked.
pub open spec fn manifest_graph_failure(image: ImageText, bytes: Seq<u8>) -> Option<
    SandboxFailure,
> {
    match manifest::metadata_of("manifest"@, bytes, image.manifest.media_type) {
        Err(failure) => Some(failure),
        Ok(value) => match manifest::manifest_parts(value) {
            Err(failure) => Some(failure),
            Ok(parts) => checks::when(
                parts.0 != image.config || parts.1 != image.layers,
                SandboxFailure::ImageProvider(
                    "OCI manifest descriptor graph does not match the topology lock"@,
                ),
            ),
        },
    }
}

/// Why the configuration is not for the platform that was locked.
pub open spec fn config_graph_failure(image: ImageText, bytes: Seq<u8>) -> Option<
    SandboxFailure,
> {
    let mismatch = SandboxFailure::ImageProvider(
        "OCI config platform does not match the topology lock"@,
    );
    match manifest::config_document(bytes) {
        Err(failure) => Some(failure),
        Ok(value) => match manifest::text_at(value, "os"@) {
            Err(failure) => Some(failure),
            Ok(system) => if system != image.operating_system {
                Some(mismatch)
            } else {
                match manifest::text_at(value, "architecture"@) {
                    Err(failure) => Some(failure),
                    Ok(architecture) => checks::when(architecture != image.architecture, mismatch),
                }
            },
        },
    }
}

/// Why the index does not lead to the manifest that was locked.
pub open spec fn index_graph_failure(
    provider: ContainerdImageProvider,
    image: ImageText,
    index: DescriptorText,
    bytes: Seq<u8>,
) -> Option<SandboxFailure> {
    match manifest::metadata_of("index"@, bytes, index.media_type) {
        Err(failure) => Some(failure),
        Ok(value) => match manifest::index_manifests(value, provider.settings().platform) {
            Err(failure) => Some(failure),
            Ok(manifests) => checks::when(
                manifests.len() != 1 || manifests[0] != image.manifest,
                SandboxFailure::ImageProvider(
                    "OCI index does not select exactly the locked platform manifest"@,
                ),
            ),
        },
    }
}

/// What comes of the document of a stage.
pub open spec fn graph_step(
    provider: ContainerdImageProvider,
    image: ImageText,
    stage: GraphStage,
    reply: Result<Seq<u8>, SandboxFailure>,
) -> Result<GraphProgress, SandboxFailure> {
    match (reply, stage_descriptor(image, stage)) {
        (Err(failure), _) => Err(failure),
        (_, None) => Ok(GraphProgress::Done),
        (Ok(bytes), Some(descriptor)) => {
            let failure = checks::or(
                content::content_failure(descriptor.digest, descriptor.size, bytes),
                match stage {
                    GraphStage::Manifest => manifest_graph_failure(image, bytes),
                    GraphStage::Config => config_graph_failure(image, bytes),
                    GraphStage::Index => index_graph_failure(provider, image, descriptor, bytes),
                },
            );
            match failure {
                Some(failure) => Err(failure),
                None => Ok(
                    match stage {
                        GraphStage::Manifest => GraphProgress::Next(GraphStage::Config),
                        GraphStage::Config => if image.index is Some {
                            GraphProgress::Next(GraphStage::Index)
                        } else {
                            GraphProgress::Done
                        },
                        GraphStage::Index => GraphProgress::Done,
                    },
                ),
            }
        },
    }
}

fn check_manifest_graph(image: &LockedImage, bytes: &[u8]) -> (r: Result<(), SandboxError>)
    ensures
        error::outcome(r) == checks::verdict(manifest_graph_failure(image@, bytes@)),
{
    let value = match metadata_value("manifest", bytes, image.manifest.media_type.as_str()) {
        Ok(value) => value,
        Err(error) => return Err(error),
    };
    let (config, layers) = match read_manifest(&value) {
        Ok(parts) => parts,
        Err(error) => return Err(error),
    };
    if !config.same(&image.config) || !model::same_descriptors(&layers, &image.layers) {
        return Err(
            SandboxError::ImageProvider(
                "OCI manifest descriptor graph does not match the topology lock".to_owned(),
            ),
        );
    }
    Ok(())
}

fn check_config_graph(image: &LockedImage, bytes: &[u8]) -> (r: Result<(), SandboxError>)
    ensures
        error::outcome(r) == checks::verdict(config_graph_failure(image@, bytes@)),
{
    let value = match config_value(bytes) {
        Ok(value) => value,
        Err(error) => return Err(error),
    };
    let system = match string_field(&value, "os") {
        Ok(system) => system,
        Err(error) => return Err(error),
    };
    if !text::same(system.as_str(), image.operating_system.as_str()) {
        return Err(
            SandboxError::ImageProvider(
                "OCI config platform does not match the topology lock".to_owned(),
            ),
        );
    }
    let architecture = match string_field(&value, "architecture") {
        Ok(architecture) => architecture,
        Err(error) => return Err(error),
    };
    if !text::same(architecture.as_str(), image.architecture.as_str()) {
        return Err(
            SandboxError::ImageProvider(
                "OCI config platform does not match the topology lock".to_owned(),
            ),
        );
    }
    Ok(())
}

fn check_index_graph(
    provider: &ContainerdImageProvider,
    image: &LockedImage,
    index: &LockedDescriptor,
    bytes: &[u8],
) -> (r: Result<(), SandboxError>)
    ensures
        error::outcome(r) == checks::verdict(
            index_graph_failure(*provider, image@, index@, bytes@),
        ),
{
    let value = match metadata_value("index", bytes, index.media_type.as_str()) {
        Ok(value) => value,
        Err(error) => return Err(error),
    };
    let manifests = match platform_manifests(&value, &provider.config().platform) {
        Ok(manifests) => manifests,
        Err(error) => return Err(error),
    };
    proof {
        if manifests@.len() > 0 {
            assert(model::descriptor_texts(manifests@)[0] == manifests@[0]@);
        }
    }
    if manifests.len() != 1 || !manifests[0].same(&image.manifest) {
        return Err(
            SandboxError::ImageProvider(
                "OCI index does not select exactly the locked platform manifest".to_owned(),
            ),
        );
    }
    Ok(())
}

/// The content that a stage of the check reads: its digest and the largest size allowed.
pub fn graph_request(provider: &ContainerdImageProvider, image: &LockedImage, stage: GraphStage) -> (r:
    Result<Option<(String, u64)>, SandboxError>)
    ensures
        match stage_descriptor(image@, stage) {
            None => r == Ok::<Option<(String, u64)>, SandboxError>(None),
            Some(descriptor) => {
                let maximum = stage_maximum(provider.settings().limits, stage);
                match content::oversize_failure(descriptor.digest, descriptor.size, maximum) {
                    Some(failure) => r matches Err(error) && error@ == failure,
                    None => r matches Ok(Some(request)) && request.0@ == descriptor.digest
                        && request.1 == maximum,
                }
            },
        },
{
    let limits = &provider.config().limits;
    let (descriptor, maximum): (&LockedDescriptor, u64) = match stage {
        GraphStage::Manifest => (&image.manifest, limits.maximum_manifest_bytes),
        GraphStage::Config => (&image.config, limits.maximum_config_bytes),
        GraphStage::Index => match &image.index {
            Some(index) => (index, limits.maximum_manifest_bytes),
            None => return Ok(None),
        },
    };
    match check_announced(descriptor.digest.as_str(), descriptor.size, maximum) {
        Ok(()) => Ok(Some((descriptor.digest.clone(), maximum))),
        Err(error) => Err(error),
    }
}

/// Checks the document of a stage against the locked image.
pub fn verify_descriptor_graph(
    provider: &ContainerdImageProvider,
    image: &LockedImage,
    stage: GraphStage,
    reply: Result<Vec<u8>, SandboxError>,
) -> (r: Result<GraphProgress, SandboxError>)
    ensures
        error::outcome(r) == graph_step(*provider, image@, stage, error::seen(reply)),
{
    let bytes = match reply {
        Ok(bytes) => bytes,
        Err(error) => return Err(error),
    };
    let descriptor = match stage {
        GraphStage::Manifest => &image.manifest,
        GraphStage::Config => &image.config,
        GraphStage::Index => match &image.index {
            Some(index) => index,
            None => return Ok(GraphProgress::Done),
        },
    };
    match verified_content(descriptor.digest.as_str(), descriptor.size, bytes.as_slice()) {
        Ok(()) => {},
        Err(error) => return Err(error),
    }
    match stage {
        GraphStage::Manifest => match check_manifest_graph(image, bytes.as_slice()) {
            Ok(()) => Ok(GraphProgress::Next(GraphStage::Config)),
            Err(error) => Err(error),
        },
        GraphStage::Config => match check_config_graph(image, bytes.as_slice()) {
            Ok(()) => match &image.index {
                Some(_) => Ok(GraphProgress::Next(GraphStage::Index)),
                None => Ok(GraphProgress::Done),
            },
            Err(error) => Err(error),
        },
        GraphStage::Index => match check_index_graph(provider, image, descriptor, bytes.as_slice()) {
            Ok(()) => Ok(GraphProgress::Done),
            Err(error) => Err(error),
        },
    }
}

/// A stage of the check accepts content only if it is what the lock names.
pub proof fn law_graph_check_binds_content(
    provider: ContainerdImageProvider,
    image: ImageText,
    stage: GraphStage,
    bytes: Seq<u8>,
    descriptor: DescriptorText,
)
    requires
        stage_descriptor(image, stage) == Some(descriptor),
        graph_step(provider, image, stage, Ok::<Seq<u8>, SandboxFailure>(bytes)) is Ok,
    ensures
        descriptor.digest == digest::identity_text(bytes),
        descriptor.size == bytes.len(),
{
}

/// A resolution goes from the fetch to the listing, from there to the object of the one record, and
/// from there to a manifest. A failed reply ends it.
pub proof fn law_resolutions_take_their_course(
    provider: ContainerdImageProvider,
    source: Seq<char>,
    repository: Seq<char>,
    stage: StageText,
    bytes: Seq<u8>,
    failure: SandboxFailure,
)
    ensures
        resolution_step(provider, source, repository, stage, Err(failure)) == Err::<
            ProgressText,
            SandboxFailure,
        >(failure),
        resolution_step(provider, source, repository, StageText::Fetch, Ok(bytes)) == Ok::<
            ProgressText,
            SandboxFailure,
        >(ProgressText::Next(StageText::List)),
        match reference::sole_record(source, lines::lossy(bytes)) {
            Some(record) => resolution_step(
                provider,
                source,
                repository,
                StageText::List,
                Ok(bytes),
            ) == Ok::<ProgressText, SandboxFailure>(
                ProgressText::Next(StageText::Top { media_type: record.0, digest: record.1 }),
            ),
            None => resolution_step(provider, source, repository, StageText::List, Ok(bytes))
                == Err::<ProgressText, SandboxFailure>(
                SandboxFailure::ImageProvider(
                    "containerd did not publish one resolved image record"@,
                ),
            ),
        },
{
}

/// The object of a record leads to a manifest exactly where it has the digest of the record, is
/// metadata of its type that selects one manifest, and that manifest is not too large.
pub proof fn law_records_lead_to_a_manifest(
    provider: ContainerdImageProvider,
    media_type: Seq<char>,
    digest: Seq<char>,
    bytes: Seq<u8>,
)
    ensures
        behind_top(provider, media_type, digest, bytes) is Ok ==> {
            &&& content::digest_failure(digest, bytes) is None
            &&& manifest::metadata_of("image metadata"@, bytes, media_type) matches Ok(value)
                && manifest::selected(
                (DescriptorText { media_type, digest, size: bytes.len() as u64 }),
                value,
                provider.settings().platform,
            ) matches Ok(found) && content::oversize_failure(
                found.1.digest,
                found.1.size,
                provider.settings().limits.maximum_manifest_bytes,
            ) is None && behind_top(provider, media_type, digest, bytes) == Ok::<
                ProgressText,
                SandboxFailure,
            >(ProgressText::Next(StageText::Manifest { index: found.0, manifest: found.1 }))
        },
        behind_top(provider, media_type, digest, bytes) is Err ==> {
            ||| content::digest_failure(digest, bytes) is Some
            ||| manifest::metadata_of("image metadata"@, bytes, media_type) is Err
            ||| manifest::metadata_of("image metadata"@, bytes, media_type) matches Ok(value) && (
            match manifest::selected(
                (DescriptorText { media_type, digest, size: bytes.len() as u64 }),
                value,
                provider.settings().platform,
            ) {
                Err(_) => true,
                Ok(found) => content::oversize_failure(
                    found.1.digest,
                    found.1.size,
                    provider.settings().limits.maximum_manifest_bytes,
                ) is Some,
            })
        },
{
}

/// A manifest leads to its configuration exactly where it is the one announced, is a container
/// image, lists its parts, and its configuration is not too large.
pub proof fn law_manifests_lead_to_their_configuration(
    provider: ContainerdImageProvider,
    index: Option<DescriptorText>,
    manifest: DescriptorText,
    bytes: Seq<u8>,
)
    ensures
        behind_manifest(provider, index, manifest, bytes) is Ok <==> {
            &&& content::content_failure(manifest.digest, manifest.size, bytes) is None
            &&& manifest::metadata_of("manifest"@, bytes, manifest.media_type) matches Ok(value)
            &&& !manifest::is_artifact(value)
            &&& manifest::manifest_parts(value) matches Ok(parts)
            &&& content::oversize_failure(
                parts.0.digest,
                parts.0.size,
                provider.settings().limits.maximum_config_bytes,
            ) is None
        },
        behind_manifest(provider, index, manifest, bytes) matches Ok(progress)
            ==> manifest::metadata_of("manifest"@, bytes, manifest.media_type) matches Ok(value)
            && manifest::manifest_parts(value) matches Ok(parts) && progress == ProgressText::Next(
            (StageText::Config { index, manifest, config: parts.0, layers: parts.1 }),
        ),
{
}

/// A configuration ends the resolution exactly where it is the one announced, says its platform,
/// and the provider accepts the image.
pub proof fn law_configurations_end_the_resolution(
    provider: ContainerdImageProvider,
    source: Seq<char>,
    repository: Seq<char>,
    index: Option<DescriptorText>,
    manifest: DescriptorText,
    config: DescriptorText,
    layers: Seq<DescriptorText>,
    bytes: Seq<u8>,
)
    ensures
        behind_config(provider, source, repository, index, manifest, config, layers, bytes)
            matches Ok(progress) ==> {
            &&& content::content_failure(config.digest, config.size, bytes) is None
            &&& progress matches ProgressText::Done(image)
            &&& provider.image_refusal(image) is None
            &&& image.source == source
            &&& image.exact_reference == repository + "@"@ + manifest.digest
            &&& image.image_id == config.digest
            &&& image.index == index
            &&& image.manifest == manifest
            &&& image.config == config
            &&& image.layers == layers
            &&& image.variant == text::optional(provider.settings().platform.variant)
            &&& manifest::config_document(bytes) matches Ok(value)
            &&& manifest::config_platform(value) == Ok::<(Seq<char>, Seq<char>), SandboxFailure>(
                (image.operating_system, image.architecture),
            )
        },
        content::content_failure(config.digest, config.size, bytes) is Some ==> behind_config(
            provider,
            source,
            repository,
            index,
            manifest,
            config,
            layers,
            bytes,
        ) is Err,
{
}

/// The check of a locked image reads the manifest, the configuration and, where there is one, the
/// index.
pub proof fn law_graph_stages_read_their_document(
    provider: ContainerdImageProvider,
    image: ImageText,
    limits: ImageLimits,
    bytes: Seq<u8>,
    failure: SandboxFailure,
    stage: GraphStage,
)
    ensures
        stage_descriptor(image, GraphStage::Manifest) == Some(image.manifest),
        stage_descriptor(image, GraphStage::Config) == Some(image.config),
        stage_descriptor(image, GraphStage::Index) == image.index,
        stage_maximum(limits, GraphStage::Manifest) == limits.maximum_manifest_bytes,
        stage_maximum(limits, GraphStage::Config) == limits.maximum_config_bytes,
        stage_maximum(limits, GraphStage::Index) == limits.maximum_manifest_bytes,
        graph_step(provider, image, stage, Err(failure)) == Err::<GraphProgress, SandboxFailure>(
            failure,
        ),
        graph_step(provider, image, GraphStage::Manifest, Ok(bytes)) matches Ok(progress)
            ==> progress == GraphProgress::Next(GraphStage::Config) && content::content_failure(
            image.manifest.digest,
            image.manifest.size,
            bytes,
        ) is None && manifest_graph_failure(image, bytes) is None,
        graph_step(provider, image, GraphStage::Config, Ok(bytes)) matches Ok(progress) ==> {
            &&& progress == GraphProgress::Next(GraphStage::Index) <==> image.index is Some
            &&& progress == GraphProgress::Done <==> image.index is None
            &&& content::content_failure(image.config.digest, image.config.size, bytes) is None
            &&& config_graph_failure(image, bytes) is None
        },
        image.index matches Some(index) ==> (graph_step(
            provider,
            image,
            GraphStage::Index,
            Ok(bytes),
        ) matches Ok(progress) ==> progress == GraphProgress::Done && content::content_failure(
            index.digest,
            index.size,
            bytes,
        ) is None && index_graph_failure(provider, image, index, bytes) is None),
        content::content_failure(image.manifest.digest, image.manifest.size, bytes) is None
            && manifest_graph_failure(image, bytes) is None ==> graph_step(
            provider,
            image,
            GraphStage::Manifest,
            Ok(bytes),
        ) is Ok,
        content::content_failure(image.config.digest, image.config.size, bytes) is None
            && config_graph_failure(image, bytes) is None ==> graph_step(
            provider,
            image,
            GraphStage::Config,
            Ok(bytes),
        ) is Ok,
{
}

/// The documents of a locked image are the locked ones: the manifest lists the configuration and
/// the layers, the configuration is for the system and architecture, and the index selects the
/// manifest and no other.
pub proof fn law_locked_documents_agree(
    provider: ContainerdImageProvider,
    image: ImageText,
    index: DescriptorText,
    bytes: Seq<u8>,
)
    ensures
        manifest_graph_failure(image, bytes) is None <==> {
            &&& manifest::metadata_of("manifest"@, bytes, image.manifest.media_type) matches Ok(
                value,
            ) && manifest::manifest_parts(value) matches Ok(parts) && parts.0 == image.config
                && parts.1 == image.layers
        },
        config_graph_failure(image, bytes) is None <==> {
            &&& manifest::config_document(bytes) matches Ok(value)
            &&& manifest::text_at(value, "os"@) matches Ok(system)
            &&& system == image.operating_system
            &&& manifest::text_at(value, "architecture"@) matches Ok(architecture)
            &&& architecture == image.architecture
        },
        index_graph_failure(provider, image, index, bytes) is None <==> {
            &&& manifest::metadata_of("index"@, bytes, index.media_type) matches Ok(value)
                && manifest::index_manifests(value, provider.settings().platform) matches Ok(
                manifests,
            ) && manifests.len() == 1 && manifests[0] == image.manifest
        },
{
}

/// A resolution begins where the reference is accepted and, with a credential, where that may be
/// shown.
pub proof fn law_resolutions_begin_with_a_proper_reference(
    source: Seq<char>,
    credential: Option<RegistryCredential>,
)
    ensures
        credential is None ==> start_failure(source, credential) == reference::reference_failure(
            source,
        ),
        credential matches Some(own) ==> start_failure(source, credential)
            == crate::oci::provider::containerd::credential_failure(source, own@),
{
}

} // verus!

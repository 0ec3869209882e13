//! The containerd image provider: what it asks of the client and what it accepts.

use crate::checks;
use crate::digest;
use crate::digest::valid_digest;
use crate::lines;
use crate::lines::{chars_of, lines_of, lossy_text};
use crate::oci::compiler;
use crate::oci::compiler::verify_lock;
use crate::oci::error;
use crate::oci::error::{SandboxError, SandboxFailure};
use crate::oci::model::{ImageText, LockedImage, LockedService, TopologyLock};
use crate::oci::provider::config;
use crate::oci::provider::config::{ContainerdProviderConfig, ImageLimits, ProviderHost};
use crate::oci::provider::credentials::RegistryCredential;
use crate::oci::provider::handle::{HandleText, PreparedImageHandle, ProviderMetadata};
use crate::oci::provider::handle::{ImmutableRootfs, MetadataText, RootfsText};
use crate::oci::provider::reference;
use crate::oci::provider::reference::{containerd_reference, digest_key, parse_reference};
use crate::oci::provider::validation;
use crate::oci::provider::validation::{validate_locked_image, validate_platform};
use crate::paths;
use crate::text;
use crate::text::{join2, join3};
use vstd::prelude::*;

verus! {

pub const PROVIDER_ID: &'static str = "containerd-v1";

/// Prepares images through containerd, or serves one fixed root file system.
pub struct ContainerdImageProvider {
    config: ContainerdProviderConfig,
    fixed_image: Option<LockedImage>,
}

/// Whether all services of a topology run one image.
pub open spec fn sole_image(services: Seq<(String, LockedService)>) -> Result<
    ImageText,
    SandboxFailure,
> {
    if services.len() == 0 {
        Err(
            SandboxFailure::ImageProvider(
                "fixed-rootfs topology lock must contain at least one service"@,
            ),
        )
    } else if forall|i: int|
        0 <= i < services.len() ==> (#[trigger] services[i]).1.image@ == services[0].1.image@ {
        Ok(services[0].1.image@)
    } else {
        Err(
            SandboxFailure::ImageProvider(
                "fixed-rootfs topology lock must bind exactly one image"@,
            ),
        )
    }
}

/// The image that a topology lock binds a fixed root file system to. `encoding` holds the
/// canonical bytes of the lock.
pub fn fixed_image(lock: &TopologyLock, encoding: Result<Vec<u8>, String>) -> (r: Result<
    LockedImage,
    SandboxError,
>)
    ensures
        match compiler::lock_failure(*lock, error::seen(encoding)) {
            Some(failure) => r matches Err(error) && error@ == failure,
            None => error::seen(r) == sole_image(lock.services.rows()),
        },
{
    match verify_lock(lock, encoding) {
        Ok(()) => {},
        Err(error) => return Err(error),
    }
    let length: usize = lock.services.len();
    if length == 0 {
        return Err(
            SandboxError::ImageProvider(
                "fixed-rootfs topology lock must contain at least one service".to_owned(),
            ),
        );
    }
    let first = &lock.services.value(0).image;
    let mut i: usize = 1;
    while i < length
        invariant
            1 <= i <= length,
            length == lock.services.rows().len(),
            first@ == lock.services.rows()[0].1.image@,
            compiler::lock_failure(*lock, error::seen(encoding)) is None,
            forall|j: int|
                0 <= j < i ==> (#[trigger] lock.services.rows()[j]).1.image@ == first@,
        decreases length - i,
    {
        if !lock.services.value(i).image.same(first) {
            proof {
                assert(lock.services.rows()[i as int].1.image@ != lock.services.rows()[0].1.image@);
            }
            return Err(
                SandboxError::ImageProvider(
                    "fixed-rootfs topology lock must bind exactly one image".to_owned(),
                ),
            );
        }
        i += 1;
    }
    Ok(first.clone())
}

/// What was measured of a root file system.
#[derive(Debug, PartialEq, Eq)]
pub struct RootfsMeasurement {
    pub digest: String,
    pub entries: usize,
    pub bytes: u64,
}

/// A line of command output.
pub open spec fn has_line(chars: Seq<char>, line: Seq<char>) -> bool {
    exists|i: int| 0 <= i < lines::lines(chars).len() && #[trigger] lines::lines(chars)[i] == line
}

/// Whether a decoded output holds `line`.
pub fn holds_line(output: &str, line: &str) -> (r: bool)
    ensures
        r == has_line(output@, line@),
{
    let chars = chars_of(output);
    let all = lines_of(chars.as_slice());
    let ghost rows = lines::lines(output@);
    let mut i: usize = 0;
    while i < all.len()
        invariant
            i <= all@.len(),
            lines::slices(all@) == rows,
            rows == lines::lines(output@),
            forall|j: int| 0 <= j < i ==> #[trigger] rows[j] != line@,
        decreases all@.len() - i,
    {
        proof {
            assert(lines::slices(all@)[i as int] == all@[i as int]@);
            assert(rows[i as int] == all@[i as int]@);
        }
        if lines::spells(all[i], line) {
            return true;
        }
        i += 1;
    }
    false
}

/// Whether a command printed `line`.
pub fn printed_line(output: &[u8], line: &str) -> (r: bool)
    ensures
        r == has_line(lines::lossy(output@), line@),
{
    let decoded = lossy_text(output);
    holds_line(decoded.as_str(), line)
}

/// A string in JSON notation, or why it has none.
pub uninterp spec fn json_string(value: Seq<char>) -> Result<Seq<char>, Seq<char>>;

/// Calls `serde_json::to_string` on a string. The result is named `json_string`.
#[verifier::external_body]
fn quote_json(value: &str) -> (r: Result<String, String>)
    ensures
        match r {
            Ok(quoted) => json_string(value@) == Ok::<Seq<char>, Seq<char>>(quoted@),
            Err(reason) => json_string(value@) == Err::<Seq<char>, Seq<char>>(reason@),
        },
{
    serde_json::to_string(value).map_err(|error| error.to_string())
}

/// The host that serves a registry.
pub open spec fn endpoint_of(registry: Seq<char>) -> Seq<char> {
    if registry == "docker.io"@ {
        "registry-1.docker.io"@
    } else {
        registry
    }
}

/// A host configuration that sends `header` to the host of `registry` and to no other.
pub open spec fn hosts_text(registry: Seq<char>, header: Seq<char>) -> Seq<char> {
    let endpoint = endpoint_of(registry);
    "server = \"https://"@ + endpoint + "\"\n\n[host.\"https://"@ + endpoint
        + "\"]\n  capabilities = [\"pull\", \"resolve\"]\n  [host.\"https://"@ + endpoint
        + "\".header]\n    authorization = "@ + header + "\n"@
}

/// Writes the host configuration for a header in JSON notation.
pub fn hosts_file(registry: &str, header: &str) -> (r: String)
    ensures
        r@ == hosts_text(registry@, header@),
{
    let endpoint = if text::same(registry, "docker.io") {
        "registry-1.docker.io"
    } else {
        registry
    };
    let mut contents = "server = \"https://".to_owned();
    contents.append(endpoint);
    contents.append("\"\n\n[host.\"https://");
    contents.append(endpoint);
    contents.append("\"]\n  capabilities = [\"pull\", \"resolve\"]\n  [host.\"https://");
    contents.append(endpoint);
    contents.append("\".header]\n    authorization = ");
    contents.append(header);
    contents.append("\n");
    contents
}

/// Why a credential is not shown to the registry of `source`.
pub open spec fn credential_failure(
    source: Seq<char>,
    credential: crate::oci::provider::credentials::Credential,
) -> Option<SandboxFailure> {
    checks::or(
        reference::reference_failure(source),
        checks::when(
            !exists|registry: Seq<char>, repository: Seq<char>|
                reference::refers(source, registry, repository) && credential.serves(registry),
            SandboxFailure::ImageProvider(
                "registry credential does not match the image registry"@,
            ),
        ),
    )
}

/// The registry of `source` and the host configuration that shows it the credential.
pub fn credential_files(source: &str, credential: &RegistryCredential) -> (r: Result<
    (String, String),
    SandboxError,
>)
    ensures
        match r {
            Ok(files) => {
                &&& credential_failure(source@, credential@) is None
                &&& exists|repository: Seq<char>|
                    reference::refers(source@, files.0@, repository)
                &&& credential@.serves(files.0@)
                &&& json_string(credential@.header()) matches Ok(quoted)
                &&& files.1@ == hosts_text(files.0@, quoted)
            },
            Err(error) => match credential_failure(source@, credential@) {
                Some(failure) => error@ == failure,
                None => {
                    &&& json_string(credential@.header()) matches Err(reason)
                    &&& error@ == SandboxFailure::ImageProvider(
                        "encode registry authorization header: "@ + reason,
                    )
                },
            },
        },
{
    let parsed = match parse_reference(source) {
        Ok(parsed) => parsed,
        Err(error) => return Err(error),
    };
    let ghost registry = parsed.registry@;
    let ghost repository = parsed.repository@;
    match credential.ensure_registry(parsed.registry) {
        Ok(()) => {},
        Err(error) => {
            proof {
                assert forall|other: Seq<char>, behind: Seq<char>|
                    reference::refers(source@, other, behind) implies !credential@.serves(
                    other,
                ) by {
                    text::lemma_utf8_injective(other, registry);
                }
            }
            return Err(error);
        },
    }
    proof {
        assert(reference::refers(source@, registry, repository) && credential@.serves(registry));
    }
    let header = credential.authorization_header();
    match quote_json(header.as_str()) {
        Ok(quoted) => Ok((parsed.registry.to_owned(), hosts_file(parsed.registry, quoted.as_str()))),
        Err(reason) => Err(
            SandboxError::ImageProvider(
                join2("encode registry authorization header: ", reason.as_str()),
            ),
        ),
    }
}

/// Whether the metadata of a measured root file system is within the limits.
pub open spec fn measurement_allowed(metadata: MetadataText, limits: ImageLimits) -> bool {
    &&& digest::is_identity(metadata.rootfs_digest)
    &&& metadata.rootfs_entries <= limits.maximum_entries
    &&& metadata.rootfs_bytes <= limits.maximum_expanded_bytes
}

fn within_limits(metadata: &ProviderMetadata, limits: &ImageLimits) -> (r: bool)
    ensures
        r == measurement_allowed(metadata@, *limits),
{
    valid_digest(metadata.rootfs_digest.as_str()) && metadata.rootfs_entries
        <= limits.maximum_entries && metadata.rootfs_bytes <= limits.maximum_expanded_bytes
}

/// What is asked of a writable root.
#[derive(Clone, Copy, Debug, PartialEq, Eq, Structural)]
pub enum WritableRequest {
    Create,
    Release,
    Export,
    Restore,
}

/// What stands at a path.
#[derive(Clone, Copy, Debug, PartialEq, Eq, Structural)]
pub enum Standing {
    Directory,
    File,
    Other,
    Nothing,
}

/// Whether `/etc` of a root file system has to be made.
pub fn needs_etc(found: Standing) -> (r: Result<bool, SandboxError>)
    ensures
        match found {
            Standing::Directory => r == Ok::<bool, SandboxError>(false),
            Standing::Nothing => r == Ok::<bool, SandboxError>(true),
            _ => r matches Err(error) && error@ == SandboxFailure::ImageProvider(
                "image rootfs `/etc` is not a directory"@,
            ),
        },
{
    match found {
        Standing::Directory => Ok(false),
        Standing::Nothing => Ok(true),
        _ => Err(
            SandboxError::ImageProvider("image rootfs `/etc` is not a directory".to_owned()),
        ),
    }
}

/// Whether the file `name` below `/etc` of a root file system has to be made.
pub fn needs_runtime_file(name: &str, found: Standing) -> (r: Result<bool, SandboxError>)
    ensures
        match found {
            Standing::File => r == Ok::<bool, SandboxError>(false),
            Standing::Nothing => r == Ok::<bool, SandboxError>(true),
            _ => r matches Err(error) && error@ == SandboxFailure::ImageProvider(
                "image rootfs `/etc/"@ + name@ + "` is not a regular file"@,
            ),
        },
{
    match found {
        Standing::File => Ok(false),
        Standing::Nothing => Ok(true),
        _ => Err(
            SandboxError::ImageProvider(
                join3("image rootfs `/etc/", name, "` is not a regular file"),
            ),
        ),
    }
}

/// A directory of the provider that holds credentials of an operation that ended.
pub open spec fn is_stale_staging(name: Seq<u8>) -> bool {
    text::begins_with(name, text::utf8(".credentials-"@))
}

/// Whether a directory of the provider holds credentials of an operation that ended.
pub fn stale_staging(name: &[u8]) -> (r: bool)
    ensures
        r == is_stale_staging(name@),
{
    text::bytes_begin_with(name, ".credentials-".as_bytes())
}

impl ContainerdImageProvider {
    /// The configuration in force.
    pub closed spec fn settings(self) -> ContainerdProviderConfig {
        self.config
    }

    /// The image that a fixed root file system is bound to.
    pub closed spec fn pinned(self) -> Option<ImageText> {
        match self.fixed_image {
            Some(image) => Some(image@),
            None => None,
        }
    }

    /// A provider for a configuration that `host` bears out. `load` reads the image that a
    /// fixed root file system is bound to.
    pub fn new<F: FnOnce(&str) -> Result<LockedImage, SandboxError>>(
        config: ContainerdProviderConfig,
        ctr_program: String,
        mount_root: String,
        host: ProviderHost,
        load: F,
    ) -> (r: Result<Self, SandboxError>)
        requires
            forall|path: &str| #[trigger] call_requires(load, (path,)),
        ensures
            match config.failure(host) {
                Some(failure) => r matches Err(error) && error@ == failure,
                None => match config.fixed_rootfs {
                    None => r matches Ok(provider) && provider.pinned() is None,
                    Some(fixed) => exists|path: &str, loaded: Result<LockedImage, SandboxError>|
                        {
                            &&& path@ == fixed.topology_lock@
                            &&& #[trigger] call_ensures(load, (path,), loaded)
                            &&& match loaded {
                                Ok(image) => r matches Ok(provider) && provider.pinned() == Some(
                                    image@,
                                ),
                                Err(error) => r == Err::<Self, SandboxError>(error),
                            }
                        },
                },
            },
            r matches Ok(provider) ==> provider.settings() == (ContainerdProviderConfig {
                ctr_program,
                mount_root,
                ..config
            }),
    {
        let config = match config.validated(ctr_program, mount_root, host) {
            Ok(config) => config,
            Err(error) => return Err(error),
        };
        let fixed_image = match &config.fixed_rootfs {
            None => None,
            Some(fixed) => match load(fixed.topology_lock.as_str()) {
                Ok(image) => Some(image),
                Err(error) => return Err(error),
            },
        };
        Ok(ContainerdImageProvider { config, fixed_image })
    }

    pub fn config(&self) -> (r: &ContainerdProviderConfig)
        ensures
            *r == self.settings(),
    {
        &self.config
    }

    /// Whether the provider serves one fixed root file system.
    pub open spec fn is_fixed(self) -> bool {
        self.settings().fixed_rootfs is Some
    }

    /// Why an image is refused.
    pub open spec fn image_refusal(self, image: ImageText) -> Option<SandboxFailure> {
        checks::or(
            validation::image_failure(image, self.settings().limits),
            checks::or(
                validation::platform_failure(image, self.settings().platform),
                checks::when(
                    self.pinned() is Some && self.pinned() != Some(image),
                    SandboxFailure::ImageProvider(
                        "locked image does not match the image bound to the fixed rootfs"@,
                    ),
                ),
            ),
        )
    }

    pub fn validate_image(&self, image: &LockedImage) -> (r: Result<(), SandboxError>)
        ensures
            error::outcome(r) == checks::verdict(self.image_refusal(image@)),
    {
        match validate_locked_image(image, &self.config.limits) {
            Ok(()) => {},
            Err(error) => return Err(error),
        }
        match validate_platform(image, &self.config.platform) {
            Ok(()) => {},
            Err(error) => return Err(error),
        }
        match &self.fixed_image {
            Some(expected) => {
                if !image.same(expected) {
                    return Err(
                        SandboxError::ImageProvider(
                            "locked image does not match the image bound to the fixed rootfs".to_owned(),
                        ),
                    );
                }
            },
            None => {},
        }
        Ok(())
    }

    /// What was measured of the fixed root file system in advance.
    pub fn fixed_measurement(&self) -> (r: Option<RootfsMeasurement>)
        ensures
            match self.settings().fixed_rootfs {
                Some(fixed) => match fixed.measurement {
                    Some(measurement) => r matches Some(own) && {
                        &&& own.digest == measurement.digest
                        &&& own.entries == measurement.entries
                        &&& own.bytes == measurement.bytes
                    },
                    None => r is None,
                },
                None => r is None,
            },
    {
        match &self.config.fixed_rootfs {
            Some(fixed) => match &fixed.measurement {
                Some(measurement) => Some(
                    RootfsMeasurement {
                        digest: measurement.digest.clone(),
                        entries: measurement.entries,
                        bytes: measurement.bytes,
                    },
                ),
                None => None,
            },
            None => None,
        }
    }

    /// Refuses writable roots where one image is fixed.
    pub fn ensure_writable_roots(&self, request: WritableRequest) -> (r: Result<(), SandboxError>)
        ensures
            error::outcome(r) == checks::verdict(
                checks::when(
                    self.is_fixed(),
                    SandboxFailure::Unsupported(
                        match request {
                            WritableRequest::Create =>
                            "fixed-rootfs image provider supports read-only roots only"@,
                            WritableRequest::Release | WritableRequest::Export =>
                            "fixed-rootfs image provider has no writable roots"@,
                            WritableRequest::Restore =>
                            "fixed-rootfs image provider cannot restore writable roots"@,
                        },
                    ),
                ),
            ),
    {
        if self.config.fixed_rootfs.is_some() {
            let reason = match request {
                WritableRequest::Create =>
                "fixed-rootfs image provider supports read-only roots only",
                WritableRequest::Release | WritableRequest::Export =>
                "fixed-rootfs image provider has no writable roots",
                WritableRequest::Restore =>
                "fixed-rootfs image provider cannot restore writable roots",
            };
            return Err(SandboxError::Unsupported(reason.to_owned()));
        }
        Ok(())
    }

    /// Refuses to resolve where one image is fixed.
    pub fn ensure_resolvable(&self, source: &str) -> (r: Result<(), SandboxError>)
        ensures
            error::outcome(r) == checks::verdict(
                checks::when(
                    self.is_fixed(),
                    SandboxFailure::Unsupported(
                        "fixed-rootfs image provider cannot resolve `"@ + source@ + "`"@,
                    ),
                ),
            ),
    {
        if self.config.fixed_rootfs.is_some() {
            return Err(
                SandboxError::Unsupported(
                    join3("fixed-rootfs image provider cannot resolve `", source, "`"),
                ),
            );
        }
        Ok(())
    }

    /// The arguments that list the namespaces.
    pub fn list_namespaces_arguments(&self) -> (r: Vec<String>)
        ensures
            text::texts(r@) == seq!["namespaces"@, "list"@, "--quiet"@],
    {
        let parts = vec!["namespaces", "list", "--quiet"];
        proof {
            assert(text::borrowed(parts@) =~= seq!["namespaces"@, "list"@, "--quiet"@]);
        }
        text::owned(parts)
    }

    /// The arguments that create the namespace, unless it was listed.
    pub fn create_namespace_arguments(&self, listed: &[u8]) -> (r: Option<Vec<String>>)
        ensures
            match r {
                None => has_line(lines::lossy(listed@), self.settings().namespace@),
                Some(arguments) => {
                    &&& !has_line(lines::lossy(listed@), self.settings().namespace@)
                    &&& text::texts(arguments@) == seq![
                        "namespaces"@,
                        "create"@,
                        self.settings().namespace@,
                    ]
                },
            },
    {
        if printed_line(listed, self.config.namespace.as_str()) {
            return None;
        }
        let parts = vec!["namespaces", "create", self.config.namespace.as_str()];
        proof {
            assert(text::borrowed(parts@) =~= seq![
                "namespaces"@,
                "create"@,
                self.settings().namespace@,
            ]);
        }
        Some(text::owned(parts))
    }

    /// The arguments of a command with the directory that holds its credentials.
    pub open spec fn with_hosts(
        front: Seq<Seq<char>>,
        hosts: Option<&str>,
        back: Seq<Seq<char>>,
    ) -> Seq<Seq<char>> {
        match hosts {
            Some(directory) => front + seq!["--hosts-dir"@, directory@] + back,
            None => front + back,
        }
    }

    /// The arguments that fetch the metadata of `source`.
    pub fn resolve_arguments(&self, source: &str, hosts: Option<&str>) -> (r: Vec<String>)
        ensures
            text::texts(r@) == Self::with_hosts(
                seq![
                    "content"@,
                    "fetch"@,
                    "--metadata-only"@,
                    "--platform"@,
                    self.settings().platform.notation(),
                    "--label"@,
                    "runtrue.io/managed=true"@,
                ],
                hosts,
                seq![source@, source@],
            ),
    {
        let platform = self.config.platform.as_containerd_platform();
        let mut parts = vec![
            "content",
            "fetch",
            "--metadata-only",
            "--platform",
            platform.as_str(),
            "--label",
            "runtrue.io/managed=true",
        ];
        if let Some(directory) = hosts {
            parts.push("--hosts-dir");
            parts.push(directory);
        }
        parts.push(source);
        parts.push(source);
        proof {
            assert(text::borrowed(parts@) =~= Self::with_hosts(
                seq![
                    "content"@,
                    "fetch"@,
                    "--metadata-only"@,
                    "--platform"@,
                    self.settings().platform.notation(),
                    "--label"@,
                    "runtrue.io/managed=true"@,
                ],
                hosts,
                seq![source@, source@],
            ));
        }
        text::owned(parts)
    }

    /// The arguments that read the record of `source`.
    pub fn record_arguments(&self, source: &str) -> (r: Vec<String>)
        ensures
            text::texts(r@) == seq!["images"@, "list"@, "name=="@ + source@],
    {
        let filter = join2("name==", source);
        let parts = vec!["images", "list", filter.as_str()];
        proof {
            assert(text::borrowed(parts@) =~= seq!["images"@, "list"@, "name=="@ + source@]);
        }
        text::owned(parts)
    }

    /// The arguments that fetch the content of an image.
    pub fn fetch_arguments(&self, image: &LockedImage, hosts: Option<&str>) -> (r: Result<
        Vec<String>,
        SandboxError,
    >)
        ensures
            match r {
                Ok(arguments) => {
                    &&& text::has_byte(text::utf8(image.exact_reference@), 64)
                    &&& text::texts(arguments@) == Self::with_hosts(
                        seq![
                            "content"@,
                            "fetch"@,
                            "--platform"@,
                            self.settings().platform.notation(),
                            "--label"@,
                            "runtrue.io/managed=true"@,
                        ],
                        hosts,
                        seq![image.exact_reference@, image.exact_reference@],
                    )
                },
                Err(error) => !text::has_byte(text::utf8(image.exact_reference@), 64) && error@
                    == SandboxFailure::ImageProvider("locked image reference is not pinned"@),
            },
    {
        let reference = match containerd_reference(image) {
            Ok(reference) => reference,
            Err(error) => return Err(error),
        };
        let platform = self.config.platform.as_containerd_platform();
        let mut parts = vec![
            "content",
            "fetch",
            "--platform",
            platform.as_str(),
            "--label",
            "runtrue.io/managed=true",
        ];
        if let Some(directory) = hosts {
            parts.push("--hosts-dir");
            parts.push(directory);
        }
        parts.push(reference.as_str());
        parts.push(reference.as_str());
        proof {
            assert(text::borrowed(parts@) =~= Self::with_hosts(
                seq![
                    "content"@,
                    "fetch"@,
                    "--platform"@,
                    self.settings().platform.notation(),
                    "--label"@,
                    "runtrue.io/managed=true"@,
                ],
                hosts,
                seq![image.exact_reference@, image.exact_reference@],
            ));
        }
        Ok(text::owned(parts))
    }

    /// The arguments that unpack an image.
    pub fn pull_arguments(&self, image: &LockedImage, hosts: Option<&str>) -> (r: Result<
        Vec<String>,
        SandboxError,
    >)
        ensures
            match r {
                Ok(arguments) => {
                    &&& text::has_byte(text::utf8(image.exact_reference@), 64)
                    &&& text::texts(arguments@) == Self::with_hosts(
                        seq![
                            "images"@,
                            "pull"@,
                            "--local"@,
                            "--sync-fs"@,
                            "--max-concurrent-downloads"@,
                            "3"@,
                            "--platform"@,
                            self.settings().platform.notation(),
                            "--snapshotter"@,
                            self.settings().snapshotter@,
                            "--label"@,
                            "runtrue.io/managed=true"@,
                        ],
                        hosts,
                        seq![image.exact_reference@],
                    )
                },
                Err(error) => !text::has_byte(text::utf8(image.exact_reference@), 64) && error@
                    == SandboxFailure::ImageProvider("locked image reference is not pinned"@),
            },
    {
        let platform = self.config.platform.as_containerd_platform();
        let mut parts = vec![
            "images",
            "pull",
            "--local",
            "--sync-fs",
            "--max-concurrent-downloads",
            "3",
            "--platform",
            platform.as_str(),
            "--snapshotter",
            self.config.snapshotter.as_str(),
            "--label",
            "runtrue.io/managed=true",
        ];
        if let Some(directory) = hosts {
            parts.push("--hosts-dir");
            parts.push(directory);
        }
        let reference = match containerd_reference(image) {
            Ok(reference) => reference,
            Err(error) => return Err(error),
        };
        parts.push(reference.as_str());
        proof {
            assert(text::borrowed(parts@) =~= Self::with_hosts(
                seq![
                    "images"@,
                    "pull"@,
                    "--local"@,
                    "--sync-fs"@,
                    "--max-concurrent-downloads"@,
                    "3"@,
                    "--platform"@,
                    self.settings().platform.notation(),
                    "--snapshotter"@,
                    self.settings().snapshotter@,
                    "--label"@,
                    "runtrue.io/managed=true"@,
                ],
                hosts,
                seq![image.exact_reference@],
            ));
        }
        Ok(text::owned(parts))
    }

    /// The arguments that ask whether an image is unpacked.
    pub fn check_arguments(&self, image: &LockedImage) -> (r: Result<Vec<String>, SandboxError>)
        ensures
            match r {
                Ok(arguments) => {
                    &&& text::has_byte(text::utf8(image.exact_reference@), 64)
                    &&& text::texts(arguments@) == seq![
                        "images"@,
                        "check"@,
                        "--quiet"@,
                        "--snapshotter"@,
                        self.settings().snapshotter@,
                        "name=="@ + image.exact_reference@,
                    ]
                },
                Err(error) => !text::has_byte(text::utf8(image.exact_reference@), 64) && error@
                    == SandboxFailure::ImageProvider("locked image reference is not pinned"@),
            },
    {
        let reference = match containerd_reference(image) {
            Ok(reference) => reference,
            Err(error) => return Err(error),
        };
        let filter = join2("name==", reference.as_str());
        let parts = vec![
            "images",
            "check",
            "--quiet",
            "--snapshotter",
            self.config.snapshotter.as_str(),
            filter.as_str(),
        ];
        proof {
            assert(text::borrowed(parts@) =~= seq![
                "images"@,
                "check"@,
                "--quiet"@,
                "--snapshotter"@,
                self.settings().snapshotter@,
                "name=="@ + image.exact_reference@,
            ]);
        }
        Ok(text::owned(parts))
    }

    /// Accepts the answer that an image is unpacked.
    pub fn check_unpacked(&self, image: &LockedImage, output: &[u8]) -> (r: Result<
        (),
        SandboxError,
    >)
        ensures
            error::outcome(r) == checks::verdict(
                checks::when(
                    !has_line(lines::lossy(output@), image.exact_reference@),
                    SandboxFailure::ImageProvider(
                        "containerd image is not completely downloaded and unpacked"@,
                    ),
                ),
            ),
    {
        if !printed_line(output, image.exact_reference.as_str()) {
            return Err(
                SandboxError::ImageProvider(
                    "containerd image is not completely downloaded and unpacked".to_owned(),
                ),
            );
        }
        Ok(())
    }

    /// The arguments that mount an image at `rootfs`.
    pub fn mount_arguments(&self, image: &LockedImage, rootfs: &str) -> (r: Result<
        Vec<String>,
        SandboxError,
    >)
        ensures
            match r {
                Ok(arguments) => {
                    &&& text::has_byte(text::utf8(image.exact_reference@), 64)
                    &&& text::texts(arguments@) == seq![
                        "images"@,
                        "mount"@,
                        "--rw"@,
                        "--snapshotter"@,
                        self.settings().snapshotter@,
                        "--platform"@,
                        self.settings().platform.notation(),
                        image.exact_reference@,
                        rootfs@,
                    ]
                },
                Err(error) => !text::has_byte(text::utf8(image.exact_reference@), 64) && error@
                    == SandboxFailure::ImageProvider("locked image reference is not pinned"@),
            },
    {
        let reference = match containerd_reference(image) {
            Ok(reference) => reference,
            Err(error) => return Err(error),
        };
        let platform = self.config.platform.as_containerd_platform();
        let parts = vec![
            "images",
            "mount",
            "--rw",
            "--snapshotter",
            self.config.snapshotter.as_str(),
            "--platform",
            platform.as_str(),
            reference.as_str(),
            rootfs,
        ];
        proof {
            assert(text::borrowed(parts@) =~= seq![
                "images"@,
                "mount"@,
                "--rw"@,
                "--snapshotter"@,
                self.settings().snapshotter@,
                "--platform"@,
                self.settings().platform.notation(),
                image.exact_reference@,
                rootfs@,
            ]);
        }
        Ok(text::owned(parts))
    }

    /// The arguments that unmount `rootfs`.
    pub fn unmount_arguments(&self, rootfs: &str) -> (r: Vec<String>)
        ensures
            text::texts(r@) == seq![
                "images"@,
                "unmount"@,
                "--snapshotter"@,
                self.settings().snapshotter@,
                "--rm"@,
                rootfs@,
            ],
    {
        let parts = vec![
            "images",
            "unmount",
            "--snapshotter",
            self.config.snapshotter.as_str(),
            "--rm",
            rootfs,
        ];
        proof {
            assert(text::borrowed(parts@) =~= seq![
                "images"@,
                "unmount"@,
                "--snapshotter"@,
                self.settings().snapshotter@,
                "--rm"@,
                rootfs@,
            ]);
        }
        text::owned(parts)
    }

    /// Where an activation lives.
    pub open spec fn activation_place(self, key: Seq<char>) -> Seq<char> {
        paths::joined(paths::joined(self.settings().mount_root@, "activations"@), key)
    }

    pub fn activation_directory(&self, activation_key: &str) -> (r: String)
        ensures
            r@ == self.activation_place(activation_key@),
    {
        let activations = paths::join(self.config.mount_root.as_str(), "activations");
        paths::join(activations.as_str(), activation_key)
    }

    /// Where the measurement of an activation is kept.
    pub fn measurement_path(&self, activation_key: &str) -> (r: String)
        ensures
            r@ == paths::joined(
                paths::joined(self.settings().mount_root@, "measurements"@),
                activation_key@ + ".json"@,
            ),
    {
        let measurements = paths::join(self.config.mount_root.as_str(), "measurements");
        let name = join2(activation_key, ".json");
        paths::join(measurements.as_str(), name.as_str())
    }

    /// Why a cached measurement is refused.
    pub open spec fn cache_failure(
        self,
        image: ImageText,
        activation_key: Seq<char>,
        metadata: MetadataText,
    ) -> Option<SandboxFailure> {
        checks::when(
            !metadata.is_of(PROVIDER_ID@, activation_key, image) || !measurement_allowed(
                metadata,
                self.settings().limits,
            ),
            SandboxFailure::ImageProvider(
                "cached rootfs measurement does not match the locked image"@,
            ),
        )
    }

    /// Accepts a cached measurement of an image.
    pub fn check_cached(
        &self,
        image: &LockedImage,
        activation_key: &str,
        metadata: &ProviderMetadata,
    ) -> (r: Result<(), SandboxError>)
        ensures
            error::outcome(r) == checks::verdict(
                self.cache_failure(image@, activation_key@, metadata@),
            ),
    {
        if !metadata.matches(PROVIDER_ID, activation_key, image) || !within_limits(
            metadata,
            &self.config.limits,
        ) {
            return Err(
                SandboxError::ImageProvider(
                    "cached rootfs measurement does not match the locked image".to_owned(),
                ),
            );
        }
        Ok(())
    }

    /// Why the metadata of an activation does not vouch for it.
    pub open spec fn activation_failure(
        self,
        handle: HandleText,
        metadata: MetadataText,
        canonical: Seq<char>,
        read_only: bool,
    ) -> Option<SandboxFailure> {
        checks::or(
            checks::when(
                !metadata.is_of(PROVIDER_ID@, handle.activation_key, handle.image),
                SandboxFailure::ImageProvider(
                    "provider metadata does not match the locked image"@,
                ),
            ),
            checks::or(
                checks::when(
                    !config::lies_below(
                        text::utf8(self.settings().mount_root@),
                        text::utf8(canonical),
                    ),
                    SandboxFailure::ImageProvider("provider path escaped its configured root"@),
                ),
                checks::or(
                    checks::when(
                        !read_only,
                        SandboxFailure::ImageProvider(
                            "provider rootfs is not an active read-only mount"@,
                        ),
                    ),
                    checks::when(
                        !measurement_allowed(metadata, self.settings().limits),
                        SandboxFailure::ImageProvider("provider rootfs metadata exceeds policy"@),
                    ),
                ),
            ),
        )
    }

    /// What the metadata of an activation says of the root file system at `canonical`.
    pub open spec fn vouched_rootfs(
        self,
        handle: HandleText,
        metadata: MetadataText,
        canonical: Seq<char>,
    ) -> RootfsText {
        RootfsText {
            provider: PROVIDER_ID@,
            activation_key: handle.activation_key,
            image: handle.image,
            rootfs: canonical,
            rootfs_digest: metadata.rootfs_digest,
            rootfs_entries: metadata.rootfs_entries,
            rootfs_bytes: metadata.rootfs_bytes,
        }
    }

    /// The root file system that the metadata of an activation vouches for. `canonical` is
    /// its resolved path and `read_only` what the mount table says of it.
    pub fn rootfs_from_metadata(
        &self,
        handle: &PreparedImageHandle,
        metadata: &ProviderMetadata,
        canonical: String,
        read_only: bool,
    ) -> (r: Result<ImmutableRootfs, SandboxError>)
        ensures
            match r {
                Ok(rootfs) => {
                    &&& self.activation_failure(handle@, metadata@, canonical@, read_only) is None
                    &&& rootfs@ == self.vouched_rootfs(handle@, metadata@, canonical@)
                },
                Err(error) => self.activation_failure(handle@, metadata@, canonical@, read_only)
                    == Some(error@),
            },
    {
        if !metadata.matches(PROVIDER_ID, handle.activation_key(), handle.image()) {
            return Err(
                SandboxError::ImageProvider(
                    "provider metadata does not match the locked image".to_owned(),
                ),
            );
        }
        let rootfs = match config::canonical_child(self.config.mount_root.as_str(), canonical) {
            Ok(rootfs) => rootfs,
            Err(error) => return Err(error),
        };
        if !read_only {
            return Err(
                SandboxError::ImageProvider(
                    "provider rootfs is not an active read-only mount".to_owned(),
                ),
            );
        }
        if !within_limits(metadata, &self.config.limits) {
            return Err(
                SandboxError::ImageProvider("provider rootfs metadata exceeds policy".to_owned()),
            );
        }
        let own = PreparedImageHandle::new(
            PROVIDER_ID.to_owned(),
            handle.activation_key().to_owned(),
            handle.image().clone(),
        );
        Ok(
            ImmutableRootfs::new(
                &own,
                rootfs,
                metadata.rootfs_digest.clone(),
                metadata.rootfs_entries,
                metadata.rootfs_bytes,
            ),
        )
    }

    /// The handle of an image that is ready to be mounted.
    pub fn activate(&self, image: &LockedImage) -> (r: Result<PreparedImageHandle, SandboxError>)
        ensures
            match r {
                Ok(handle) => {
                    &&& self.image_refusal(image@) is None
                    &&& handle@.provider == PROVIDER_ID@
                    &&& image.manifest.digest@ == "sha256:"@ + handle@.activation_key
                    &&& digest::is_hash(handle@.activation_key)
                    &&& handle@.image == image@
                },
                Err(error) => self.image_refusal(image@) == Some(error@),
            },
    {
        match self.validate_image(image) {
            Ok(()) => {},
            Err(error) => return Err(error),
        }
        proof {
            validation::law_accepted_image_is_pinned(image@, self.settings().limits);
        }
        let key = match digest_key(image.manifest.digest.as_str()) {
            Ok(key) => key,
            Err(error) => return Err(error),
        };
        Ok(PreparedImageHandle::new(PROVIDER_ID.to_owned(), key, image.clone()))
    }

    /// Why a root file system is not released by this provider.
    pub open spec fn release_failure(self, rootfs: RootfsText, expected: Seq<char>) -> Option<
        SandboxFailure,
    > {
        if rootfs.provider != PROVIDER_ID@ {
            Some(
                SandboxFailure::ImageProvider(
                    "immutable rootfs handle belongs to another provider"@,
                ),
            )
        } else {
            checks::or(
                reference::digest_key_failure(rootfs.image.manifest.digest),
                checks::or(
                    checks::when(
                        rootfs.image.manifest.digest != "sha256:"@ + rootfs.activation_key,
                        SandboxFailure::ImageProvider(
                            "immutable rootfs handle belongs to another provider"@,
                        ),
                    ),
                    match self.settings().fixed_rootfs {
                        Some(fixed) => checks::when(
                            rootfs.rootfs != fixed.rootfs@,
                            SandboxFailure::ImageProvider(
                                "fixed rootfs path does not match its provider handle"@,
                            ),
                        ),
                        None => checks::when(
                            rootfs.rootfs != expected,
                            SandboxFailure::ImageProvider(
                                "immutable rootfs path does not match its provider handle"@,
                            ),
                        ),
                    },
                ),
            )
        }
    }

    /// Accepts the release of a root file system that stands at `expected`. Says whether
    /// there is an activation to clean up.
    pub fn check_release(&self, rootfs: &ImmutableRootfs, expected: &str) -> (r: Result<
        bool,
        SandboxError,
    >)
        ensures
            match r {
                Ok(cleanup) => self.release_failure(rootfs@, expected@) is None && cleanup
                    == !self.is_fixed(),
                Err(error) => self.release_failure(rootfs@, expected@) == Some(error@),
            },
    {
        if !text::same(rootfs.provider(), PROVIDER_ID) {
            return Err(
                SandboxError::ImageProvider(
                    "immutable rootfs handle belongs to another provider".to_owned(),
                ),
            );
        }
        let digest = &rootfs.image().manifest.digest;
        let key = match digest_key(digest.as_str()) {
            Ok(key) => key,
            Err(error) => return Err(error),
        };
        proof {
            let prefix = "sha256:"@;
            let own = rootfs@.activation_key;
            if prefix + key@ == prefix + own {
                assert(key@ =~= (prefix + key@).skip(prefix.len() as int));
                assert(own =~= (prefix + own).skip(prefix.len() as int));
            }
        }
        if !text::same(rootfs.activation_key(), key.as_str()) {
            return Err(
                SandboxError::ImageProvider(
                    "immutable rootfs handle belongs to another provider".to_owned(),
                ),
            );
        }
        match &self.config.fixed_rootfs {
            Some(fixed) => {
                if !text::same(rootfs.rootfs(), fixed.rootfs.as_str()) {
                    return Err(
                        SandboxError::ImageProvider(
                            "fixed rootfs path does not match its provider handle".to_owned(),
                        ),
                    );
                }
                Ok(false)
            },
            None => {
                if !text::same(rootfs.rootfs(), expected) {
                    return Err(
                        SandboxError::ImageProvider(
                            "immutable rootfs path does not match its provider handle".to_owned(),
                        ),
                    );
                }
                Ok(true)
            },
        }
    }
}

/// One image is bound exactly where there is a service and all services have that image.
pub proof fn law_fixed_locks_bind_one_image(services: Seq<(String, LockedService)>)
    ensures
        sole_image(services) is Ok <==> services.len() >= 1 && (forall|i: int, j: int|
            0 <= i < j < services.len() ==> (#[trigger] services[i]).1.image@ == (
            #[trigger] services[j]).1.image@),
        sole_image(services) matches Ok(image) ==> forall|i: int|
            0 <= i < services.len() ==> (#[trigger] services[i]).1.image@ == image,
{
    if services.len() >= 1 && (forall|i: int, j: int|
        0 <= i < j < services.len() ==> (#[trigger] services[i]).1.image@ == (
        #[trigger] services[j]).1.image@) {
        assert forall|i: int| 0 <= i < services.len() implies (#[trigger] services[i]).1.image@
            == services[0].1.image@ by {
            if i > 0 {
                assert(services[0].1.image@ == services[i].1.image@);
            }
        }
    }
}

/// Docker Hub answers under another name. Every other registry answers under its own.
pub proof fn law_registries_answer_under_their_name(registry: Seq<char>)
    ensures
        registry == "docker.io"@ ==> endpoint_of(registry) == "registry-1.docker.io"@,
        registry != "docker.io"@ ==> endpoint_of(registry) == registry,
{
}

/// A host configuration names one host, three times, and ends with the header.
pub proof fn law_host_configurations_name_one_host(
    registry: Seq<char>,
    header: Seq<char>,
    host: Seq<char>,
)
    requires
        host == endpoint_of(registry),
    ensures
        hosts_text(registry, header) == "server = \"https://"@ + host + "\"\n\n[host.\"https://"@
            + host + "\"]\n  capabilities = [\"pull\", \"resolve\"]\n  [host.\"https://"@ + host
            + "\".header]\n    authorization = "@ + header + "\n"@,
{
}

/// A credential is shown exactly where the reference is accepted and the credential serves its
/// registry.
pub proof fn law_credentials_are_shown_to_their_registry(
    source: Seq<char>,
    credential: crate::oci::provider::credentials::Credential,
)
    ensures
        credential_failure(source, credential) is None <==> reference::reference_failure(source)
            is None && exists|registry: Seq<char>, repository: Seq<char>|
            #[trigger] reference::refers(source, registry, repository) && credential.serves(
                registry,
            ),
        reference::reference_failure(source) is Some ==> credential_failure(source, credential)
            == reference::reference_failure(source),
{
}

/// A directory is stale exactly where its name starts with `.credentials-`.
pub proof fn law_stale_directories_hold_credentials(name: Seq<u8>, rest: Seq<u8>)
    ensures
        is_stale_staging(text::utf8(".credentials-"@) + rest),
        is_stale_staging(name) ==> name.take(text::utf8(".credentials-"@).len() as int)
            == text::utf8(".credentials-"@),
{
    let prefix = text::utf8(".credentials-"@);
    assert((prefix + rest).subrange(0, prefix.len() as int) =~= prefix);
    if is_stale_staging(name) {
        assert(name.take(prefix.len() as int) =~= prefix);
    }
}

/// A text holds a line exactly where one of its lines is that line.
pub proof fn law_lines_are_found_whole(chars: Seq<char>, line: Seq<char>)
    ensures
        has_line(chars, line) <==> lines::lines(chars).contains(line),
{
}

/// An image is accepted exactly where it is proper, of the platform, and the one that is pinned
/// where one is.
pub proof fn law_providers_accept_their_images(provider: ContainerdImageProvider, image: ImageText)
    ensures
        provider.image_refusal(image) is None <==> {
            &&& validation::image_failure(image, provider.settings().limits) is None
            &&& validation::platform_failure(image, provider.settings().platform) is None
            &&& provider.pinned() is None || provider.pinned() == Some(image)
        },
{
}

/// A cached measurement is taken exactly where it is of the image, of this provider, and within
/// the limits.
pub proof fn law_cached_measurements_are_of_the_image(
    provider: ContainerdImageProvider,
    image: ImageText,
    activation_key: Seq<char>,
    metadata: MetadataText,
)
    ensures
        provider.cache_failure(image, activation_key, metadata) is None <==> {
            &&& metadata.is_of("containerd-v1"@, activation_key, image)
            &&& digest::is_identity(metadata.rootfs_digest)
            &&& metadata.rootfs_entries <= provider.settings().limits.maximum_entries
            &&& metadata.rootfs_bytes <= provider.settings().limits.maximum_expanded_bytes
        },
{
}

/// An activation is taken over exactly where its metadata is of the image, it lies below the mount
/// root, is mounted read-only, and was measured within the limits.
pub proof fn law_activations_are_vouched_for(
    provider: ContainerdImageProvider,
    handle: HandleText,
    metadata: MetadataText,
    canonical: Seq<char>,
    read_only: bool,
)
    ensures
        provider.activation_failure(handle, metadata, canonical, read_only) is None <==> {
            &&& metadata.is_of("containerd-v1"@, handle.activation_key, handle.image)
            &&& config::lies_below(
                text::utf8(provider.settings().mount_root@),
                text::utf8(canonical),
            )
            &&& read_only
            &&& digest::is_identity(metadata.rootfs_digest)
            &&& metadata.rootfs_entries <= provider.settings().limits.maximum_entries
            &&& metadata.rootfs_bytes <= provider.settings().limits.maximum_expanded_bytes
        },
        provider.vouched_rootfs(handle, metadata, canonical).provider == "containerd-v1"@,
        provider.vouched_rootfs(handle, metadata, canonical).activation_key
            == handle.activation_key,
        provider.vouched_rootfs(handle, metadata, canonical).image == handle.image,
        provider.vouched_rootfs(handle, metadata, canonical).rootfs == canonical,
        provider.vouched_rootfs(handle, metadata, canonical).rootfs_digest
            == metadata.rootfs_digest,
        provider.vouched_rootfs(handle, metadata, canonical).rootfs_entries
            == metadata.rootfs_entries,
        provider.vouched_rootfs(handle, metadata, canonical).rootfs_bytes == metadata.rootfs_bytes,
{
}

/// An activation stands below the mount root, in a directory named by its key.
pub proof fn law_activations_stand_below_the_mount_root(
    provider: ContainerdImageProvider,
    key: Seq<char>,
)
    ensures
        provider.activation_place(key) == paths::joined(
            paths::joined(provider.settings().mount_root@, "activations"@),
            key,
        ),
{
}

/// A root file system is released exactly where it is of this provider, its key is the one of its
/// manifest, and it stands where it is expected.
pub proof fn law_released_rootfs_is_the_one_mounted(
    provider: ContainerdImageProvider,
    rootfs: RootfsText,
    expected: Seq<char>,
)
    ensures
        provider.release_failure(rootfs, expected) is None <==> {
            &&& rootfs.provider == "containerd-v1"@
            &&& reference::digest_key_failure(rootfs.image.manifest.digest) is None
            &&& rootfs.image.manifest.digest == "sha256:"@ + rootfs.activation_key
            &&& match provider.settings().fixed_rootfs {
                Some(fixed) => rootfs.rootfs == fixed.rootfs@,
                None => rootfs.rootfs == expected,
            }
        },
{
}

/// The directory of host configurations stands behind its option, between the other arguments.
pub proof fn law_hosts_stand_behind_their_option(
    front: Seq<Seq<char>>,
    directory: &str,
    back: Seq<Seq<char>>,
)
    ensures
        ContainerdImageProvider::with_hosts(front, None, back) == front + back,
        ContainerdImageProvider::with_hosts(front, Some(directory), back).len() == front.len() + 2
            + back.len(),
        ContainerdImageProvider::with_hosts(front, Some(directory), back).take(front.len() as int)
            == front,
        ContainerdImageProvider::with_hosts(front, Some(directory), back)[front.len() as int]
            == "--hosts-dir"@,
        ContainerdImageProvider::with_hosts(front, Some(directory), back)[front.len() as int + 1]
            == directory@,
        ContainerdImageProvider::with_hosts(front, Some(directory), back).skip(
            front.len() as int + 2,
        ) == back,
{
    let whole = ContainerdImageProvider::with_hosts(front, Some(directory), back);
    assert(whole.take(front.len() as int) =~= front);
    assert(whole.skip(front.len() as int + 2) =~= back);
}

/// The provider and its metadata have one name and one schema.
pub proof fn law_the_provider_has_one_name()
    ensures
        PROVIDER_ID@ == "containerd-v1"@,
        crate::oci::provider::handle::PROVIDER_METADATA_SCHEMA_VERSION == 1,
{
}

/// Each refusal of the provider is of its kind.
pub proof fn law_refused_images_and_roots_say_why(
    provider: ContainerdImageProvider,
    image: ImageText,
    activation_key: Seq<char>,
    handle: HandleText,
    metadata: MetadataText,
    canonical: Seq<char>,
    read_only: bool,
    rootfs: RootfsText,
    expected: Seq<char>,
)
    ensures
        validation::image_failure(image, provider.settings().limits) is Some
            ==> provider.image_refusal(image) == validation::image_failure(
            image,
            provider.settings().limits,
        ),
        validation::image_failure(image, provider.settings().limits) is None
            && validation::platform_failure(image, provider.settings().platform) is Some
            ==> provider.image_refusal(image) == validation::platform_failure(
            image,
            provider.settings().platform,
        ),
        validation::image_failure(image, provider.settings().limits) is None
            && validation::platform_failure(image, provider.settings().platform) is None ==> (
        provider.image_refusal(image) matches Some(failure) ==> failure
            == SandboxFailure::ImageProvider(
            "locked image does not match the image bound to the fixed rootfs"@,
        )),
        provider.cache_failure(image, activation_key, metadata) matches Some(failure) ==> failure
            == SandboxFailure::ImageProvider(
            "cached rootfs measurement does not match the locked image"@,
        ),
        !metadata.is_of("containerd-v1"@, handle.activation_key, handle.image)
            ==> provider.activation_failure(handle, metadata, canonical, read_only) == Some(
            SandboxFailure::ImageProvider("provider metadata does not match the locked image"@),
        ),
        metadata.is_of("containerd-v1"@, handle.activation_key, handle.image)
            && !config::lies_below(
            text::utf8(provider.settings().mount_root@),
            text::utf8(canonical),
        ) ==> provider.activation_failure(handle, metadata, canonical, read_only) == Some(
            SandboxFailure::ImageProvider("provider path escaped its configured root"@),
        ),
        metadata.is_of("containerd-v1"@, handle.activation_key, handle.image) && config::lies_below(
            text::utf8(provider.settings().mount_root@),
            text::utf8(canonical),
        ) && !read_only ==> provider.activation_failure(handle, metadata, canonical, read_only)
            == Some(
            SandboxFailure::ImageProvider("provider rootfs is not an active read-only mount"@),
        ),
        rootfs.provider != "containerd-v1"@ ==> provider.release_failure(rootfs, expected) == Some(
            SandboxFailure::ImageProvider("immutable rootfs handle belongs to another provider"@),
        ),
{
}

} // verus!

//! Platforms, limits and the configuration of the image provider.

use crate::checks;
use crate::oci::error;
use crate::oci::error::{SandboxError, SandboxFailure};
use crate::oci::writable::config::WritableRootfsConfig;
use crate::text;
use crate::text::{join2, join3, join5, Alphabet};
use crate::time::Duration;
use vstd::prelude::*;

verus! {

/// The platform that images are prepared for.
#[derive(Clone, Debug, PartialEq, Eq)]
pub struct ImagePlatform {
    pub operating_system: String,
    pub architecture: String,
    pub variant: Option<String>,
}

/// A part of a platform: at most 32 letters, digits, `_`, `-` and `.`.
pub open spec fn is_platform_part(bytes: Seq<u8>) -> bool {
    0 < bytes.len() <= 32 && text::drawn_from(bytes, Alphabet::DottedToken)
}

/// `linux`, a supported architecture, and perhaps a variant.
pub open spec fn is_platform(parts: Seq<Seq<u8>>) -> bool {
    &&& 2 <= parts.len() <= 3
    &&& forall|i: int| 0 <= i < parts.len() ==> is_platform_part(#[trigger] parts[i])
    &&& parts[0] == text::utf8("linux"@)
    &&& parts[1] == text::utf8("amd64"@) || parts[1] == text::utf8("arm64"@)
}

fn valid_component(bytes: &[u8]) -> (r: bool)
    ensures
        r == is_platform_part(bytes@),
{
    bytes.len() > 0 && bytes.len() <= 32 && text::bytes_drawn_from(bytes, Alphabet::DottedToken)
}

impl ImagePlatform {
    /// The platform in the notation `os/architecture` or `os/architecture/variant`.
    pub open spec fn notation(self) -> Seq<char> {
        match self.variant {
            None => self.operating_system@ + "/"@ + self.architecture@,
            Some(variant) => self.operating_system@ + "/"@ + self.architecture@ + "/"@ + variant@,
        }
    }

    /// The text writes the platform: each part stands between slashes.
    pub open spec fn is_written(self, value: Seq<char>) -> bool {
        let parts = text::split(text::utf8(value), 47);
        &&& is_platform(parts)
        &&& text::utf8(self.operating_system@) == parts[0]
        &&& text::utf8(self.architecture@) == parts[1]
        &&& parts.len() == 2 ==> self.variant is None
        &&& parts.len() == 3 ==> self.variant is Some && text::utf8(self.variant->0@) == parts[2]
        &&& self.notation() == value
    }

    pub fn linux_amd64() -> (r: Self)
        ensures
            r.operating_system@ == "linux"@,
            r.architecture@ == "amd64"@,
            r.variant is None,
    {
        ImagePlatform {
            operating_system: "linux".to_owned(),
            architecture: "amd64".to_owned(),
            variant: None,
        }
    }

    pub fn as_containerd_platform(&self) -> (r: String)
        ensures
            r@ == self.notation(),
    {
        match &self.variant {
            None => join3(self.operating_system.as_str(), "/", self.architecture.as_str()),
            Some(variant) => join5(
                self.operating_system.as_str(),
                "/",
                self.architecture.as_str(),
                "/",
                variant.as_str(),
            ),
        }
    }

    /// Reads a platform in its notation: the operating system, the architecture and the variant
    /// stand between slashes.
    pub fn parse(value: &str) -> (r: Result<Self, SandboxError>)
        ensures
            match r {
                Ok(platform) => platform.is_written(value@),
                Err(error) => !is_platform(text::split(text::utf8(value@), 47)) && error@
                    == SandboxFailure::ImageProvider(
                    "unsupported image platform `"@ + value@ + "`"@,
                ),
            },
    {
        let parts = text::pieces(value.as_bytes(), 47);
        let ghost all = text::slices(parts@);
        let mut valid = parts.len() >= 2 && parts.len() <= 3;
        let mut i: usize = 0;
        while i < parts.len()
            invariant
                i <= parts.len(),
                all == text::slices(parts@),
                valid == (2 <= all.len() <= 3 && forall|j: int|
                    0 <= j < i ==> is_platform_part(#[trigger] all[j])),
            decreases parts.len() - i,
        {
            proof {
                assert(all[i as int] == parts@[i as int]@);
            }
            valid = valid && valid_component(parts[i]);
            i += 1;
        }
        if valid {
            proof {
                assert(all[0] == parts@[0]@);
                assert(all[1] == parts@[1]@);
            }
        }
        if !valid || !text::same_bytes(parts[0], "linux".as_bytes()) || !(text::same_bytes(
            parts[1],
            "amd64".as_bytes(),
        ) || text::same_bytes(parts[1], "arm64".as_bytes())) {
            return Err(
                SandboxError::ImageProvider(
                    join3("unsupported image platform `", value, "`"),
                ),
            );
        }
        let first: usize = parts[0].len();
        let second: usize = parts[1].len();
        let count: usize = parts.len();
        proof {
            lemma_platform_text(text::utf8(value@));
        }
        let (operating_system, rest) = text::split_text(value, first);
        let (_, rest) = text::split_text(rest, 1);
        if count == 2 {
            proof {
                let whole = text::utf8(value@);
                lemma_slash();
                assert(whole =~= text::utf8(operating_system@) + text::utf8("/"@) + text::utf8(rest@));
                text::lemma_utf8_concat(operating_system@, "/"@);
                text::lemma_utf8_concat(operating_system@ + "/"@, rest@);
                text::lemma_utf8_injective(value@, operating_system@ + "/"@ + rest@);
                assert(text::utf8(operating_system@) == all[0]);
                assert(text::utf8(rest@) == all[1]);
            }
            return Ok(
                ImagePlatform {
                    operating_system: operating_system.to_owned(),
                    architecture: rest.to_owned(),
                    variant: None,
                },
            );
        }
        let (architecture, tail) = text::split_text(rest, second);
        let (_, variant) = text::split_text(tail, 1);
        proof {
            let whole = text::utf8(value@);
            lemma_slash();
            assert(whole =~= text::utf8(operating_system@) + text::utf8("/"@) + text::utf8(
                architecture@,
            ) + text::utf8("/"@) + text::utf8(variant@));
            text::lemma_utf8_concat(operating_system@, "/"@);
            text::lemma_utf8_concat(operating_system@ + "/"@, architecture@);
            text::lemma_utf8_concat(operating_system@ + "/"@ + architecture@, "/"@);
            text::lemma_utf8_concat(operating_system@ + "/"@ + architecture@ + "/"@, variant@);
            text::lemma_utf8_injective(
                value@,
                operating_system@ + "/"@ + architecture@ + "/"@ + variant@,
            );
            assert(text::utf8(operating_system@) == all[0]);
            assert(text::utf8(architecture@) == all[1]);
            assert(text::utf8(variant@) == all[2]);
        }
        Ok(
            ImagePlatform {
                operating_system: operating_system.to_owned(),
                architecture: architecture.to_owned(),
                variant: Some(variant.to_owned()),
            },
        )
    }
}

/// The notation of a platform that was read reads back as that platform, and a text is read as at
/// most one platform.
pub proof fn law_notation_reads_back(value: Seq<char>, read: ImagePlatform, again: ImagePlatform)
    requires
        read.is_written(value),
        again.is_written(read.notation()),
    ensures
        read.notation() == value,
        again.operating_system@ == read.operating_system@,
        again.architecture@ == read.architecture@,
        text::optional(again.variant) == text::optional(read.variant),
{
    text::lemma_utf8_injective(again.operating_system@, read.operating_system@);
    text::lemma_utf8_injective(again.architecture@, read.architecture@);
    if read.variant is Some {
        text::lemma_utf8_injective(again.variant->0@, read.variant->0@);
    }
}

proof fn lemma_slash()
    ensures
        text::utf8("/"@) == seq![47u8],
{
    reveal_strlit("/");
    vstd::utf8::is_ascii_chars_encode_utf8("/"@);
    assert(text::utf8("/"@) =~= seq![47u8]);
}

/// Where the separators of two or three parts stand.
proof fn lemma_platform_text(whole: Seq<u8>)
    requires
        2 <= text::split(whole, 47).len() <= 3,
    ensures
        ({
            let parts = text::split(whole, 47);
            let first = parts[0].len() as int;
            let second = parts[1].len() as int;
            &&& first < whole.len()
            &&& whole[first] == 47
            &&& whole.subrange(0, first) == parts[0]
            &&& parts.len() == 2 ==> whole.subrange(first + 1, whole.len() as int) == parts[1]
            &&& parts.len() == 3 ==> {
                &&& first + 1 + second < whole.len()
                &&& whole[first + 1 + second] == 47
                &&& whole.subrange(first + 1, first + 1 + second) == parts[1]
                &&& whole.subrange(first + second + 2, whole.len() as int) == parts[2]
            }
        }),
{
    reveal_with_fuel(text::split, 4);
    text::lemma_find(whole, 47);
    let at = text::find(whole, 47);
    let rest = whole.skip(at + 1);
    text::lemma_find(rest, 47);
    let next = text::find(rest, 47);
    assert(whole.take(at) =~= whole.subrange(0, at));
    if next < rest.len() {
        let tail = rest.skip(next + 1);
        text::lemma_find(tail, 47);
        assert(tail =~= whole.subrange(at + next + 2, whole.len() as int));
        assert(rest.take(next) =~= whole.subrange(at + 1, at + 1 + next));
    } else {
        assert(rest =~= whole.subrange(at + 1, whole.len() as int));
    }
}

/// How large an image may be, and how long an operation on it may take.
#[derive(Clone, Copy, Debug, PartialEq, Eq, Structural)]
pub struct ImageLimits {
    pub maximum_manifest_bytes: u64,
    pub maximum_config_bytes: u64,
    pub maximum_compressed_bytes: u64,
    pub maximum_expanded_bytes: u64,
    pub maximum_layers: usize,
    pub maximum_entries: usize,
    pub maximum_path_bytes: usize,
    pub maximum_command_output_bytes: usize,
    pub operation_timeout: Duration,
}

impl Default for ImageLimits {
    fn default() -> (r: Self)
        ensures
            r.maximum_manifest_bytes == 4 * 1024 * 1024,
            r.maximum_config_bytes == 4 * 1024 * 1024,
            r.maximum_compressed_bytes == 4 * 1024 * 1024 * 1024,
            r.maximum_expanded_bytes == 16 * 1024 * 1024 * 1024,
            r.maximum_layers == 128,
            r.maximum_entries == 500_000,
            r.maximum_path_bytes == 4_096,
            r.maximum_command_output_bytes == 1024 * 1024,
            r.operation_timeout.nanoseconds == 300 * 1_000_000_000,
    {
        ImageLimits {
            maximum_manifest_bytes: 4 * 1024 * 1024,
            maximum_config_bytes: 4 * 1024 * 1024,
            maximum_compressed_bytes: 4 * 1024 * 1024 * 1024,
            maximum_expanded_bytes: 16 * 1024 * 1024 * 1024,
            maximum_layers: 128,
            maximum_entries: 500_000,
            maximum_path_bytes: 4_096,
            maximum_command_output_bytes: 1024 * 1024,
            operation_timeout: Duration::from_secs(300),
        }
    }
}

impl ImageLimits {
    /// The limits that a provider can be run with.
    pub open spec fn accepted(self) -> bool {
        &&& 0 < self.maximum_manifest_bytes <= 64 * 1024 * 1024
        &&& 0 < self.maximum_config_bytes <= 64 * 1024 * 1024
        &&& 0 < self.maximum_compressed_bytes
        &&& 0 < self.maximum_expanded_bytes
        &&& 0 < self.maximum_layers <= 1_024
        &&& 0 < self.maximum_entries
        &&& 0 < self.maximum_path_bytes
        &&& 0 < self.maximum_command_output_bytes
        &&& self.operation_timeout.within(3_600)
    }

    pub open spec fn failure(self) -> Option<SandboxFailure> {
        checks::when(
            !self.accepted(),
            SandboxFailure::ImageProvider("image provider limits are invalid"@),
        )
    }

    pub fn validate(&self) -> (r: Result<(), SandboxError>)
        ensures
            error::outcome(r) == checks::verdict(self.failure()),
    {
        if self.maximum_manifest_bytes == 0 || self.maximum_manifest_bytes > 64 * 1024 * 1024
            || self.maximum_config_bytes == 0 || self.maximum_config_bytes > 64 * 1024 * 1024
            || self.maximum_compressed_bytes == 0 || self.maximum_expanded_bytes == 0
            || self.maximum_layers == 0 || self.maximum_layers > 1_024 || self.maximum_entries == 0
            || self.maximum_path_bytes == 0 || self.maximum_command_output_bytes == 0
            || !self.operation_timeout.is_within(3_600) {
            return Err(
                SandboxError::ImageProvider("image provider limits are invalid".to_owned()),
            );
        }
        Ok(())
    }
}

/// What was measured of a fixed root filesystem in advance.
#[derive(Clone, Debug, PartialEq, Eq)]
pub struct FixedRootfsMeasurement {
    pub digest: String,
    pub entries: usize,
    pub bytes: u64,
}

/// A root filesystem that replaces image preparation.
#[derive(Clone, Debug, PartialEq, Eq)]
pub struct FixedRootfsConfig {
    pub rootfs: String,
    pub topology_lock: String,
    pub measurement: Option<FixedRootfsMeasurement>,
}

/// Where the provider finds containerd and keeps its mounts.
#[derive(Clone, Debug, PartialEq, Eq)]
pub struct ContainerdProviderConfig {
    pub ctr_program: String,
    pub address: String,
    pub namespace: String,
    pub snapshotter: String,
    pub mount_root: String,
    pub writable_rootfs: WritableRootfsConfig,
    pub platform: ImagePlatform,
    pub limits: ImageLimits,
    pub fixed_rootfs: Option<FixedRootfsConfig>,
}

/// A path from the root directory.
pub open spec fn is_absolute(path: Seq<char>) -> bool {
    text::utf8(path).len() > 0 && text::utf8(path)[0] == 47
}

pub fn absolute(path: &str) -> (r: bool)
    ensures
        r == is_absolute(path@),
{
    let bytes = path.as_bytes();
    bytes.len() > 0 && bytes[0] == 47
}

/// A bounded identifier for containerd.
pub open spec fn bounded_identifier_failure(
    kind: Seq<char>,
    value: Seq<char>,
) -> Option<SandboxFailure> {
    let bytes = text::utf8(value);
    checks::when(
        !(0 < bytes.len() <= 64 && text::drawn_from(bytes, Alphabet::DottedToken)),
        SandboxFailure::ImageProvider(kind + " is not a bounded identifier"@),
    )
}

fn validate_identifier(kind: &str, value: &str) -> (r: Result<(), SandboxError>)
    ensures
        error::outcome(r) == checks::verdict(bounded_identifier_failure(kind@, value@)),
{
    let bytes = value.as_bytes();
    if bytes.len() == 0 || bytes.len() > 64 || !text::all_bytes(value, Alphabet::DottedToken) {
        return Err(SandboxError::ImageProvider(join2(kind, " is not a bounded identifier")));
    }
    Ok(())
}

/// What the host says about the paths of a configuration.
#[derive(Clone, Copy, Debug, PartialEq, Eq, Structural)]
pub struct ProviderHost {
    pub client_is_file: bool,
    pub address_is_socket: bool,
    pub store_is_directory: bool,
    pub store_owner: u32,
    pub worker: u32,
}

impl ContainerdProviderConfig {
    /// Why the paths are refused before the host is asked about them.
    pub open spec fn path_failure(self) -> Option<SandboxFailure> {
        checks::when(
            !(is_absolute(self.ctr_program@) && is_absolute(self.address@) && is_absolute(
                self.mount_root@,
            )),
            SandboxFailure::ImageProvider(
                "containerd executable, socket, and mount root must be absolute"@,
            ),
        )
    }

    pub fn validate_paths(&self) -> (r: Result<(), SandboxError>)
        ensures
            error::outcome(r) == checks::verdict(self.path_failure()),
    {
        if !absolute(self.ctr_program.as_str()) || !absolute(self.address.as_str()) || !absolute(
            self.mount_root.as_str(),
        ) {
            return Err(
                SandboxError::ImageProvider(
                    "containerd executable, socket, and mount root must be absolute".to_owned(),
                ),
            );
        }
        Ok(())
    }

    /// Why the client, the socket, the names or the limits are refused.
    pub open spec fn endpoint_failure(
        self,
        client_is_file: bool,
        address_is_socket: bool,
    ) -> Option<SandboxFailure> {
        checks::or(
            checks::when(
                !client_is_file,
                SandboxFailure::ImageProvider("containerd client is not a regular file"@),
            ),
            checks::or(
                checks::when(
                    !address_is_socket,
                    SandboxFailure::ImageProvider("containerd address is not a Unix socket"@),
                ),
                checks::or(
                    bounded_identifier_failure("containerd namespace"@, self.namespace@),
                    checks::or(
                        bounded_identifier_failure("snapshotter"@, self.snapshotter@),
                        self.limits.failure(),
                    ),
                ),
            ),
        )
    }

    pub fn validate_endpoints(&self, client_is_file: bool, address_is_socket: bool) -> (r: Result<
        (),
        SandboxError,
    >)
        ensures
            error::outcome(r) == checks::verdict(
                self.endpoint_failure(client_is_file, address_is_socket),
            ),
    {
        if !client_is_file {
            return Err(
                SandboxError::ImageProvider("containerd client is not a regular file".to_owned()),
            );
        }
        if !address_is_socket {
            return Err(
                SandboxError::ImageProvider("containerd address is not a Unix socket".to_owned()),
            );
        }
        match validate_identifier("containerd namespace", self.namespace.as_str()) {
            Ok(()) => {},
            Err(error) => return Err(error),
        }
        match validate_identifier("snapshotter", self.snapshotter.as_str()) {
            Ok(()) => {},
            Err(error) => return Err(error),
        }
        self.limits.validate()
    }

    /// Why the configuration is refused on `host`.
    pub open spec fn failure(self, host: ProviderHost) -> Option<SandboxFailure> {
        checks::or(
            self.path_failure(),
            checks::or(
                self.endpoint_failure(host.client_is_file, host.address_is_socket),
                checks::when(
                    !host.store_is_directory || host.store_owner != host.worker,
                    SandboxFailure::ImageProvider(
                        "image-provider store must be owned by the worker UID"@,
                    ),
                ),
            ),
        )
    }

    /// The configuration with its resolved paths, if `host` bears it out.
    pub fn validated(self, ctr_program: String, mount_root: String, host: ProviderHost) -> (r:
        Result<Self, SandboxError>)
        ensures
            match r {
                Ok(config) => self.failure(host) is None && config == (ContainerdProviderConfig {
                    ctr_program,
                    mount_root,
                    ..self
                }),
                Err(error) => self.failure(host) == Some(error@),
            },
    {
        match self.validate_paths() {
            Ok(()) => {},
            Err(error) => return Err(error),
        }
        match self.validate_endpoints(host.client_is_file, host.address_is_socket) {
            Ok(()) => {},
            Err(error) => return Err(error),
        }
        if !host.store_is_directory || host.store_owner != host.worker {
            return Err(
                SandboxError::ImageProvider(
                    "image-provider store must be owned by the worker UID".to_owned(),
                ),
            );
        }
        Ok(ContainerdProviderConfig { ctr_program, mount_root, ..self })
    }
}

/// `child` lies below `root`, component by component.
pub open spec fn lies_below(root: Seq<u8>, child: Seq<u8>) -> bool {
    if root.len() > 0 && root.last() == 47 {
        child.len() > root.len() && text::begins_with(child, root)
    } else {
        child.len() > root.len() && text::begins_with(child, root) && child[root.len() as int] == 47
    }
}

/// Accepts a resolved path below a resolved root.
pub fn canonical_child(root: &str, canonical: String) -> (r: Result<String, SandboxError>)
    ensures
        match r {
            Ok(path) => path == canonical && lies_below(
                text::utf8(root@),
                text::utf8(canonical@),
            ),
            Err(error) => !lies_below(text::utf8(root@), text::utf8(canonical@)) && error@
                == SandboxFailure::ImageProvider("provider path escaped its configured root"@),
        },
{
    if below(root, canonical.as_str()) {
        Ok(canonical)
    } else {
        Err(SandboxError::ImageProvider("provider path escaped its configured root".to_owned()))
    }
}

/// Whether `child` lies below `root`.
pub fn below(root: &str, child: &str) -> (r: bool)
    ensures
        r == lies_below(text::utf8(root@), text::utf8(child@)),
{
    let root_bytes = root.as_bytes();
    let child_bytes = child.as_bytes();
    let length: usize = root_bytes.len();
    if child_bytes.len() <= length || !text::bytes_begin_with(child_bytes, root_bytes) {
        return false;
    }
    if length > 0 && root_bytes[length - 1] == 47 {
        true
    } else {
        child_bytes[length] == 47
    }
}

/// Limits are accepted exactly where none is zero, metadata is limited to 64 MiB each, layers to
/// 1024, and operations to an hour.
pub proof fn law_accepted_limits_are_bounded(limits: ImageLimits)
    ensures
        limits.failure() is None <==> {
            &&& 1 <= limits.maximum_manifest_bytes <= 67_108_864
            &&& 1 <= limits.maximum_config_bytes <= 67_108_864
            &&& 1 <= limits.maximum_compressed_bytes
            &&& 1 <= limits.maximum_expanded_bytes
            &&& 1 <= limits.maximum_layers <= 1_024
            &&& 1 <= limits.maximum_entries
            &&& 1 <= limits.maximum_path_bytes
            &&& 1 <= limits.maximum_command_output_bytes
            &&& 0 < limits.operation_timeout.nanoseconds <= 3_600_000_000_000
        },
{
}

/// A provider is run exactly where its paths are absolute, its client is a file and its address a
/// socket, its names are 1 to 64 letters, digits, `-`, `_` and `.`, its limits are accepted, and its
/// store is a directory of the worker.
pub proof fn law_accepted_providers_own_their_store(
    config: ContainerdProviderConfig,
    host: ProviderHost,
)
    ensures
        config.failure(host) is None <==> {
            &&& is_absolute(config.ctr_program@) && is_absolute(config.address@) && is_absolute(
                config.mount_root@,
            )
            &&& host.client_is_file
            &&& host.address_is_socket
            &&& 1 <= text::utf8(config.namespace@).len() <= 64
            &&& text::drawn_from(text::utf8(config.namespace@), Alphabet::DottedToken)
            &&& 1 <= text::utf8(config.snapshotter@).len() <= 64
            &&& text::drawn_from(text::utf8(config.snapshotter@), Alphabet::DottedToken)
            &&& config.limits.failure() is None
            &&& host.store_is_directory
            &&& host.store_owner == host.worker
        },
{
}

/// A path is absolute exactly where it starts with a slash, and lies below another exactly where it
/// is that one, a slash unless it ends with one, and something more.
pub proof fn law_paths_below_a_root(root: Seq<u8>, child: Seq<u8>, rest: Seq<u8>, path: Seq<char>)
    ensures
        is_absolute(path) <==> text::utf8(path).len() > 0 && text::utf8(path)[0] == '/' as u8,
        root.len() > 0 && root.last() == '/' as u8 && rest.len() > 0 ==> lies_below(
            root,
            root + rest,
        ),
        root.len() == 0 || root.last() != '/' as u8 ==> lies_below(
            root,
            root + seq!['/' as u8] + rest,
        ),
        lies_below(root, child) ==> child.take(root.len() as int) == root && child.len()
            > root.len() && (root.len() > 0 && root.last() == '/' as u8 || child[root.len() as int]
            == '/' as u8),
        !lies_below(root, root),
{
    assert((root + rest).subrange(0, root.len() as int) =~= root);
    assert((root + seq!['/' as u8] + rest).subrange(0, root.len() as int) =~= root);
    if lies_below(root, child) {
        assert(child.subrange(0, root.len() as int) =~= child.take(root.len() as int));
    }
}

/// Platforms are `linux` on `amd64` or `arm64`, perhaps with a variant; each part has 1 to 32
/// letters, digits, `-`, `_` and `.`.
pub proof fn law_platforms_are_supported(parts: Seq<Seq<u8>>)
    ensures
        is_platform(parts) <==> {
            &&& parts.len() == 2 || parts.len() == 3
            &&& parts[0] == text::utf8("linux"@)
            &&& parts[1] == text::utf8("amd64"@) || parts[1] == text::utf8("arm64"@)
            &&& forall|i: int|
                0 <= i < parts.len() ==> 1 <= (#[trigger] parts[i]).len() <= 32 && text::drawn_from(
                    parts[i],
                    Alphabet::DottedToken,
                )
        },
{
}

/// A platform is written as its parts with slashes between them.
pub proof fn law_platforms_are_written_with_slashes(platform: ImagePlatform)
    ensures
        platform.variant is None ==> platform.notation() == platform.operating_system@ + "/"@
            + platform.architecture@,
        platform.variant matches Some(variant) ==> platform.notation() == platform.operating_system@
            + "/"@ + platform.architecture@ + "/"@ + variant@,
{
}

/// Each refusal of a configuration is of its kind.
pub proof fn law_refused_providers_say_why(
    config: ContainerdProviderConfig,
    host: ProviderHost,
    limits: ImageLimits,
    kind: Seq<char>,
    value: Seq<char>,
)
    ensures
        limits.failure() matches Some(failure) ==> failure == SandboxFailure::ImageProvider(
            "image provider limits are invalid"@,
        ),
        bounded_identifier_failure(kind, value) matches Some(failure) ==> failure
            == SandboxFailure::ImageProvider(kind + " is not a bounded identifier"@),
        config.path_failure() matches Some(failure) ==> failure == SandboxFailure::ImageProvider(
            "containerd executable, socket, and mount root must be absolute"@,
        ),
        config.path_failure() is Some ==> config.failure(host) == config.path_failure(),
        config.path_failure() is None && !host.client_is_file ==> config.failure(host) == Some(
            SandboxFailure::ImageProvider("containerd client is not a regular file"@),
        ),
        config.path_failure() is None && host.client_is_file && !host.address_is_socket
            ==> config.failure(host) == Some(
            SandboxFailure::ImageProvider("containerd address is not a Unix socket"@),
        ),
        config.path_failure() is None && config.endpoint_failure(
            host.client_is_file,
            host.address_is_socket,
        ) is None ==> (config.failure(host) matches Some(failure) ==> failure
            == SandboxFailure::ImageProvider(
            "image-provider store must be owned by the worker UID"@,
        )),
{
}

} // verus!

//! Locked images: identity, platform and descriptors.

use crate::checks;
use crate::digest;
use crate::digest::valid_digest;
use crate::oci::error;
use crate::oci::error::{SandboxError, SandboxFailure};
use crate::oci::model;
use crate::oci::model::{DescriptorText, ImageText, LockedDescriptor, LockedImage};
use crate::oci::provider::config::{ImageLimits, ImagePlatform};
use crate::text;
use crate::text::{join2, join3, join5};
use vstd::prelude::*;

verus! {

pub open spec fn is_manifest_type(media_type: Seq<char>) -> bool {
    media_type == "application/vnd.oci.image.manifest.v1+json"@ || media_type
        == "application/vnd.docker.distribution.manifest.v2+json"@
}

pub open spec fn is_index_type(media_type: Seq<char>) -> bool {
    media_type == "application/vnd.oci.image.index.v1+json"@ || media_type
        == "application/vnd.docker.distribution.manifest.list.v2+json"@
}

pub open spec fn is_config_type(media_type: Seq<char>) -> bool {
    media_type == "application/vnd.oci.image.config.v1+json"@ || media_type
        == "application/vnd.docker.container.image.v1+json"@
}

pub open spec fn is_layer_type(media_type: Seq<char>) -> bool {
    media_type == "application/vnd.oci.image.layer.v1.tar"@ || media_type
        == "application/vnd.oci.image.layer.v1.tar+gzip"@ || media_type
        == "application/vnd.oci.image.layer.v1.tar+zstd"@ || media_type
        == "application/vnd.docker.image.rootfs.diff.tar"@ || media_type
        == "application/vnd.docker.image.rootfs.diff.tar.gzip"@
}

/// Whether a media type is that of an image manifest.
pub fn is_manifest_media_type(value: &str) -> (r: bool)
    ensures
        r == is_manifest_type(value@),
{
    text::same(value, "application/vnd.oci.image.manifest.v1+json") || text::same(
        value,
        "application/vnd.docker.distribution.manifest.v2+json",
    )
}

/// Whether a media type is that of an image index.
pub fn is_index_media_type(value: &str) -> (r: bool)
    ensures
        r == is_index_type(value@),
{
    text::same(value, "application/vnd.oci.image.index.v1+json") || text::same(
        value,
        "application/vnd.docker.distribution.manifest.list.v2+json",
    )
}

fn is_config_media_type(value: &str) -> (r: bool)
    ensures
        r == is_config_type(value@),
{
    text::same(value, "application/vnd.oci.image.config.v1+json") || text::same(
        value,
        "application/vnd.docker.container.image.v1+json",
    )
}

fn is_layer_media_type(value: &str) -> (r: bool)
    ensures
        r == is_layer_type(value@),
{
    text::same(value, "application/vnd.oci.image.layer.v1.tar") || text::same(
        value,
        "application/vnd.oci.image.layer.v1.tar+gzip",
    ) || text::same(value, "application/vnd.oci.image.layer.v1.tar+zstd") || text::same(
        value,
        "application/vnd.docker.image.rootfs.diff.tar",
    ) || text::same(value, "application/vnd.docker.image.rootfs.diff.tar.gzip")
}

/// Why a descriptor is refused, given whether its media type is allowed there.
pub open spec fn descriptor_failure(
    kind: Seq<char>,
    descriptor: DescriptorText,
    maximum_bytes: u64,
    allowed: bool,
) -> Option<SandboxFailure> {
    checks::when(
        !(digest::is_identity(descriptor.digest) && 0 < descriptor.size <= maximum_bytes
            && allowed),
        SandboxFailure::ImageProvider(kind + " descriptor is invalid or exceeds policy"@),
    )
}

fn validate_descriptor(
    kind: &str,
    descriptor: &LockedDescriptor,
    maximum_bytes: u64,
    allowed: bool,
) -> (r: Result<(), SandboxError>)
    ensures
        error::outcome(r) == checks::verdict(
            descriptor_failure(kind@, descriptor@, maximum_bytes, allowed),
        ),
{
    if !valid_digest(descriptor.digest.as_str()) || descriptor.size == 0 || descriptor.size
        > maximum_bytes || !allowed {
        return Err(
            SandboxError::ImageProvider(
                join2(kind, " descriptor is invalid or exceeds policy"),
            ),
        );
    }
    Ok(())
}

/// The repository part of a pinned reference: everything before the last `@`.
pub open spec fn pinned_repository(reference: Seq<char>) -> Seq<u8> {
    text::utf8(reference).take(text::find_last(text::utf8(reference), 64))
}

/// Why a reference is not pinned to a repository.
pub open spec fn pinning_failure(reference: Seq<char>) -> Option<SandboxFailure> {
    checks::or(
        checks::when(
            text::find_last(text::utf8(reference), 64) < 0,
            SandboxFailure::ImageProvider("image reference is not pinned"@),
        ),
        checks::when(
            pinned_repository(reference).len() == 0 || pinned_repository(reference)[0] == 45,
            SandboxFailure::ImageProvider("image repository is invalid"@),
        ),
    )
}

/// The reference names its repository and the manifest digest.
pub open spec fn names_manifest(image: ImageText) -> bool {
    text::utf8(image.exact_reference) == pinned_repository(image.exact_reference) + seq![64u8]
        + text::utf8(image.manifest.digest)
}

/// Whether the reference of an image is that of its repository and manifest.
pub fn exact_reference(image: &LockedImage) -> (r: Result<bool, SandboxError>)
    ensures
        match r {
            Ok(exact) => pinning_failure(image.exact_reference@) is None && exact
                == names_manifest(image@),
            Err(error) => pinning_failure(image.exact_reference@) == Some(error@),
        },
{
    let bytes = image.exact_reference.as_str().as_bytes();
    let length: usize = bytes.len();
    let at: usize = match text::find_last_byte(bytes, 64) {
        Some(at) => at,
        None => {
            return Err(
                SandboxError::ImageProvider("image reference is not pinned".to_owned()),
            );
        },
    };
    if at == 0 || bytes[0] == 45 {
        return Err(SandboxError::ImageProvider("image repository is invalid".to_owned()));
    }
    let behind = vstd::slice::slice_subrange(bytes, at + 1, length);
    let digest = image.manifest.digest.as_str().as_bytes();
    proof {
        let whole = bytes@;
        let front = whole.take(at as int);
        assert(whole =~= front + seq![64u8] + behind@);
        if front + seq![64u8] + digest@ == whole {
            assert(behind@ =~= (front + seq![64u8] + digest@).subrange(at + 1, length as int));
            assert(behind@ =~= digest@);
        }
    }
    Ok(text::same_bytes(behind, digest))
}

/// The sizes of layers in sum.
pub open spec fn layers_size(layers: Seq<DescriptorText>) -> nat
    decreases layers.len(),
{
    if layers.len() == 0 {
        0
    } else {
        layers_size(layers.drop_last()) + layers.last().size as nat
    }
}

/// Why layer `i` is refused.
pub open spec fn layer_failure(
    layers: Seq<DescriptorText>,
    i: int,
    maximum_bytes: u64,
) -> Option<SandboxFailure> {
    checks::or(
        descriptor_failure(
            "layer"@,
            layers[i],
            maximum_bytes,
            is_layer_type(layers[i].media_type),
        ),
        checks::or(
            checks::when(
                exists|j: int| 0 <= j < i && (#[trigger] layers[j]).digest == layers[i].digest,
                SandboxFailure::ImageProvider("image repeats a layer descriptor"@),
            ),
            checks::when(
                layers_size(layers.take(i + 1)) > u64::MAX,
                SandboxFailure::ImageProvider("layer size overflow"@),
            ),
        ),
    )
}

pub open spec fn layer_failures(
    layers: Seq<DescriptorText>,
    maximum_bytes: u64,
) -> Seq<Option<SandboxFailure>> {
    Seq::new(layers.len(), |i: int| layer_failure(layers, i, maximum_bytes))
}

/// Why the layers of an image are refused.
pub open spec fn layering_failure(
    layers: Seq<DescriptorText>,
    maximum_bytes: u64,
) -> Option<SandboxFailure> {
    checks::or(
        checks::first(layer_failures(layers, maximum_bytes)),
        checks::when(
            layers_size(layers) > maximum_bytes,
            SandboxFailure::ImageProvider("image exceeds the compressed byte limit"@),
        ),
    )
}

/// Why the identity of an image is refused.
pub open spec fn identity_failure(image: ImageText, limits: ImageLimits) -> Option<
    SandboxFailure,
> {
    let mismatch = SandboxFailure::ImageProvider("locked image identity or platform is invalid"@);
    if image.operating_system != "linux"@ || !(image.architecture == "amd64"@ || image.architecture
        == "arm64"@) || image.image_id != image.config.digest {
        Some(mismatch)
    } else {
        checks::or(
            pinning_failure(image.exact_reference),
            checks::when(
                !names_manifest(image) || image.layers.len() == 0 || image.layers.len()
                    > limits.maximum_layers,
                mismatch,
            ),
        )
    }
}

/// Why a locked image is refused.
pub open spec fn image_failure(image: ImageText, limits: ImageLimits) -> Option<SandboxFailure> {
    checks::or(
        identity_failure(image, limits),
        checks::or(
            descriptor_failure(
                "manifest"@,
                image.manifest,
                limits.maximum_manifest_bytes,
                is_manifest_type(image.manifest.media_type),
            ),
            checks::or(
                descriptor_failure(
                    "config"@,
                    image.config,
                    limits.maximum_config_bytes,
                    is_config_type(image.config.media_type),
                ),
                checks::or(
                    match image.index {
                        Some(index) => descriptor_failure(
                            "index"@,
                            index,
                            limits.maximum_manifest_bytes,
                            is_index_type(index.media_type),
                        ),
                        None => None,
                    },
                    layering_failure(image.layers, limits.maximum_compressed_bytes),
                ),
            ),
        ),
    )
}

fn validate_identity(image: &LockedImage, limits: &ImageLimits) -> (r: Result<(), SandboxError>)
    ensures
        error::outcome(r) == checks::verdict(identity_failure(image@, *limits)),
{
    let architecture = image.architecture.as_str();
    if !text::same(image.operating_system.as_str(), "linux") || !(text::same(architecture, "amd64")
        || text::same(architecture, "arm64")) || !text::same(
        image.image_id.as_str(),
        image.config.digest.as_str(),
    ) {
        return Err(
            SandboxError::ImageProvider("locked image identity or platform is invalid".to_owned()),
        );
    }
    let exact = match exact_reference(image) {
        Ok(exact) => exact,
        Err(error) => return Err(error),
    };
    if !exact || image.layers.len() == 0 || image.layers.len() > limits.maximum_layers {
        return Err(
            SandboxError::ImageProvider("locked image identity or platform is invalid".to_owned()),
        );
    }
    Ok(())
}

fn validate_layering(layers: &Vec<LockedDescriptor>, maximum_bytes: u64) -> (r: Result<
    (),
    SandboxError,
>)
    ensures
        error::outcome(r) == checks::verdict(
            layering_failure(model::descriptor_texts(layers@), maximum_bytes),
        ),
{
    let ghost all = model::descriptor_texts(layers@);
    let ghost failures = layer_failures(all, maximum_bytes);
    let mut compressed: u64 = 0;
    let mut i: usize = 0;
    while i < layers.len()
        invariant
            i <= layers@.len(),
            all == model::descriptor_texts(layers@),
            failures == layer_failures(all, maximum_bytes),
            compressed == layers_size(all.take(i as int)),
            forall|j: int| 0 <= j < i ==> #[trigger] failures[j] is None,
        decreases layers@.len() - i,
    {
        proof {
            assert(all.take(i + 1).drop_last() =~= all.take(i as int));
            assert(all[i as int] == layers@[i as int]@);
        }
        match validate_descriptor(
            "layer",
            &layers[i],
            maximum_bytes,
            is_layer_media_type(layers[i].media_type.as_str()),
        ) {
            Ok(()) => {},
            Err(error) => {
                proof {
                    checks::lemma_first_at(failures, i as int);
                }
                return Err(error);
            },
        }
        let mut j: usize = 0;
        while j < i
            invariant
                j <= i < layers@.len(),
                all == model::descriptor_texts(layers@),
                failures == layer_failures(all, maximum_bytes),
                descriptor_failure(
                    "layer"@,
                    all[i as int],
                    maximum_bytes,
                    is_layer_type(all[i as int].media_type),
                ) is None,
                forall|k: int| 0 <= k < i ==> #[trigger] failures[k] is None,
                forall|k: int| 0 <= k < j ==> (#[trigger] all[k]).digest != all[i as int].digest,
            decreases i - j,
        {
            proof {
                assert(all[j as int] == layers@[j as int]@);
                assert(all[i as int] == layers@[i as int]@);
            }
            if text::same(layers[j].digest.as_str(), layers[i].digest.as_str()) {
                proof {
                    assert(all[j as int].digest == all[i as int].digest);
                    checks::lemma_first_at(failures, i as int);
                }
                return Err(
                    SandboxError::ImageProvider("image repeats a layer descriptor".to_owned()),
                );
            }
            j += 1;
        }
        compressed = match compressed.checked_add(layers[i].size) {
            Some(sum) => sum,
            None => {
                proof {
                    checks::lemma_first_at(failures, i as int);
                }
                return Err(SandboxError::ImageProvider("layer size overflow".to_owned()));
            },
        };
        i += 1;
    }
    proof {
        checks::lemma_first_none(failures);
        assert(all.take(all.len() as int) =~= all);
    }
    if compressed > maximum_bytes {
        return Err(
            SandboxError::ImageProvider("image exceeds the compressed byte limit".to_owned()),
        );
    }
    Ok(())
}

/// Accepts an image whose parts are pinned, bounded and of one another.
pub fn validate_locked_image(image: &LockedImage, limits: &ImageLimits) -> (r: Result<
    (),
    SandboxError,
>)
    ensures
        error::outcome(r) == checks::verdict(image_failure(image@, *limits)),
{
    match validate_identity(image, limits) {
        Ok(()) => {},
        Err(error) => return Err(error),
    }
    match validate_descriptor(
        "manifest",
        &image.manifest,
        limits.maximum_manifest_bytes,
        is_manifest_media_type(image.manifest.media_type.as_str()),
    ) {
        Ok(()) => {},
        Err(error) => return Err(error),
    }
    match validate_descriptor(
        "config",
        &image.config,
        limits.maximum_config_bytes,
        is_config_media_type(image.config.media_type.as_str()),
    ) {
        Ok(()) => {},
        Err(error) => return Err(error),
    }
    match &image.index {
        Some(index) => match validate_descriptor(
            "index",
            index,
            limits.maximum_manifest_bytes,
            is_index_media_type(index.media_type.as_str()),
        ) {
            Ok(()) => {},
            Err(error) => return Err(error),
        },
        None => {},
    }
    validate_layering(&image.layers, limits.maximum_compressed_bytes)
}

/// `/variant`, or nothing.
pub open spec fn variant_suffix(variant: Option<Seq<char>>) -> Seq<char> {
    match variant {
        Some(text) => "/"@ + text,
        None => ""@,
    }
}

/// Why an image is refused on a platform.
pub open spec fn platform_failure(
    image: ImageText,
    platform: ImagePlatform,
) -> Option<SandboxFailure> {
    checks::when(
        image.operating_system != platform.operating_system@ || image.architecture
            != platform.architecture@ || image.variant != text::optional(platform.variant),
        SandboxFailure::ImageProvider(
            ("locked image platform "@ + image.operating_system + "/"@ + image.architecture
                + variant_suffix(image.variant)) + " does not match provider platform "@
                + platform.notation(),
        ),
    )
}

/// Accepts an image of the given platform.
pub fn validate_platform(image: &LockedImage, platform: &ImagePlatform) -> (r: Result<
    (),
    SandboxError,
>)
    ensures
        error::outcome(r) == checks::verdict(platform_failure(image@, *platform)),
{
    if !text::same(
        image.operating_system.as_str(),
        platform.operating_system.as_str(),
    ) || !text::same(image.architecture.as_str(), platform.architecture.as_str())
        || !text::same_optional(&image.variant, &platform.variant) {
        let suffix = match &image.variant {
            Some(variant) => join2("/", variant.as_str()),
            None => "".to_owned(),
        };
        let own = join5(
            "locked image platform ",
            image.operating_system.as_str(),
            "/",
            image.architecture.as_str(),
            suffix.as_str(),
        );
        let expected = platform.as_containerd_platform();
        return Err(
            SandboxError::ImageProvider(
                join3(own.as_str(), " does not match provider platform ", expected.as_str()),
            ),
        );
    }
    Ok(())
}

/// An accepted image is pinned to its manifest, and its layers fit the limit together.
pub proof fn law_accepted_image_is_pinned(image: ImageText, limits: ImageLimits)
    requires
        image_failure(image, limits) is None,
    ensures
        names_manifest(image),
        image.image_id == image.config.digest,
        digest::is_identity(image.manifest.digest),
        digest::is_identity(image.config.digest),
        0 < image.layers.len() <= limits.maximum_layers,
        layers_size(image.layers) <= limits.maximum_compressed_bytes,
        forall|i: int, j: int|
            0 <= i < j < image.layers.len() ==> (#[trigger] image.layers[i]).digest != (
            #[trigger] image.layers[j]).digest,
{
    let failures = layer_failures(image.layers, limits.maximum_compressed_bytes);
    assert forall|i: int, j: int| 0 <= i < j < image.layers.len() implies (
    #[trigger] image.layers[i]).digest != (#[trigger] image.layers[j]).digest by {
        checks::lemma_first_passes(failures, j);
        assert(failures[j] == layer_failure(
            image.layers,
            j,
            limits.maximum_compressed_bytes,
        ));
    }
}

/// The media types that are known, each of one kind of object.
pub proof fn law_media_types_are_of_one_kind(media_type: Seq<char>)
    ensures
        is_manifest_type(media_type) <==> media_type
            == "application/vnd.oci.image.manifest.v1+json"@ || media_type
            == "application/vnd.docker.distribution.manifest.v2+json"@,
        is_index_type(media_type) <==> media_type == "application/vnd.oci.image.index.v1+json"@
            || media_type == "application/vnd.docker.distribution.manifest.list.v2+json"@,
        is_config_type(media_type) <==> media_type == "application/vnd.oci.image.config.v1+json"@
            || media_type == "application/vnd.docker.container.image.v1+json"@,
        is_layer_type(media_type) <==> media_type == "application/vnd.oci.image.layer.v1.tar"@
            || media_type == "application/vnd.oci.image.layer.v1.tar+gzip"@ || media_type
            == "application/vnd.oci.image.layer.v1.tar+zstd"@ || media_type
            == "application/vnd.docker.image.rootfs.diff.tar"@ || media_type
            == "application/vnd.docker.image.rootfs.diff.tar.gzip"@,
{
}

/// A descriptor is accepted exactly where its digest is an identity, its size is from one to the
/// limit, and its media type is allowed.
pub proof fn law_accepted_descriptors_are_bounded(
    kind: Seq<char>,
    descriptor: DescriptorText,
    maximum_bytes: u64,
    allowed: bool,
)
    ensures
        descriptor_failure(kind, descriptor, maximum_bytes, allowed) is None <==> {
            &&& digest::is_identity(descriptor.digest)
            &&& descriptor.size >= 1
            &&& descriptor.size <= maximum_bytes
            &&& allowed
        },
        descriptor_failure(kind, descriptor, maximum_bytes, allowed) matches Some(failure)
            ==> failure == SandboxFailure::ImageProvider(
            kind + " descriptor is invalid or exceeds policy"@,
        ),
{
}

/// A pinned reference is a repository, `@` and a digest without `@`. It names the manifest
/// exactly where that digest is the one of the manifest.
pub proof fn law_pinned_references_name_one_manifest(
    image: ImageText,
    repository: Seq<u8>,
    behind: Seq<u8>,
)
    requires
        text::utf8(image.exact_reference) == repository + seq![64u8] + behind,
        forall|i: int| 0 <= i < behind.len() ==> #[trigger] behind[i] != 64,
    ensures
        pinned_repository(image.exact_reference) == repository,
        pinning_failure(image.exact_reference) is None <==> repository.len() > 0 && repository[0]
            != 45,
        names_manifest(image) <==> behind == text::utf8(image.manifest.digest),
{
    let whole = text::utf8(image.exact_reference);
    let at = repository.len() as int;
    assert forall|i: int| at < i < whole.len() implies #[trigger] whole[i] != 64 by {
        assert(whole[i] == behind[i - at - 1]);
    }
    assert(whole[at] == 64);
    text::lemma_find_last_at(whole, 64, at);
    assert(whole.take(at) =~= repository);
    if repository + seq![64u8] + behind == repository + seq![64u8] + text::utf8(
        image.manifest.digest,
    ) {
        let other = repository + seq![64u8] + text::utf8(image.manifest.digest);
        assert(behind =~= whole.skip(at + 1));
        assert(text::utf8(image.manifest.digest) =~= other.skip(at + 1));
    }
}

/// A reference without `@` is not pinned.
pub proof fn law_references_without_digest_are_not_pinned(reference: Seq<char>)
    requires
        forall|i: int|
            0 <= i < text::utf8(reference).len() ==> #[trigger] text::utf8(reference)[i] != 64,
    ensures
        pinning_failure(reference) == Some(
            SandboxFailure::ImageProvider("image reference is not pinned"@),
        ),
{
    text::lemma_find_last_at(text::utf8(reference), 64, -1);
}

/// The layers are accepted exactly where each is a layer of at most the limit, no two have one
/// digest, and their sizes in sum are within the limit.
pub proof fn law_accepted_layers_are_distinct_and_bounded(
    layers: Seq<DescriptorText>,
    maximum_bytes: u64,
)
    ensures
        layers_size(Seq::<DescriptorText>::empty()) == 0,
        layers.len() > 0 ==> layers_size(layers) == layers_size(layers.drop_last())
            + layers.last().size,
        layering_failure(layers, maximum_bytes) is None ==> {
            &&& forall|i: int|
                0 <= i < layers.len() ==> {
                    &&& digest::is_identity((#[trigger] layers[i]).digest)
                    &&& 1 <= layers[i].size <= maximum_bytes
                    &&& is_layer_type(layers[i].media_type)
                }
            &&& forall|i: int, j: int|
                0 <= i < j < layers.len() ==> (#[trigger] layers[i]).digest != (
                #[trigger] layers[j]).digest
            &&& layers_size(layers) <= maximum_bytes
        },
{
    if layering_failure(layers, maximum_bytes) is None {
        let failures = layer_failures(layers, maximum_bytes);
        checks::lemma_first(failures);
        assert forall|i: int| 0 <= i < layers.len() implies {
            &&& digest::is_identity((#[trigger] layers[i]).digest)
            &&& 1 <= layers[i].size <= maximum_bytes
            &&& is_layer_type(layers[i].media_type)
        } by {
            assert(failures[i] is None);
        }
        assert forall|i: int, j: int| 0 <= i < j < layers.len() implies (
        #[trigger] layers[i]).digest != (#[trigger] layers[j]).digest by {
            assert(failures[j] is None);
        }
    }
}

proof fn lemma_layers_size_grows(layers: Seq<DescriptorText>, count: int)
    requires
        0 <= count <= layers.len(),
    ensures
        layers_size(layers.take(count)) <= layers_size(layers),
    decreases layers.len() - count,
{
    if count < layers.len() {
        lemma_layers_size_grows(layers, count + 1);
        assert(layers.take(count + 1).drop_last() =~= layers.take(count));
    } else {
        assert(layers.take(count) =~= layers);
    }
}

/// Distinct layers of allowed sizes and types are not refused.
pub proof fn law_proper_layers_are_accepted(layers: Seq<DescriptorText>, maximum_bytes: u64)
    requires
        forall|i: int|
            0 <= i < layers.len() ==> {
                &&& digest::is_identity((#[trigger] layers[i]).digest)
                &&& 1 <= layers[i].size <= maximum_bytes
                &&& is_layer_type(layers[i].media_type)
            },
        forall|i: int, j: int|
            0 <= i < j < layers.len() ==> (#[trigger] layers[i]).digest != (
            #[trigger] layers[j]).digest,
        layers_size(layers) <= maximum_bytes,
    ensures
        layering_failure(layers, maximum_bytes) is None,
{
    let failures = layer_failures(layers, maximum_bytes);
    assert forall|i: int| 0 <= i < failures.len() implies #[trigger] failures[i] is None by {
        lemma_layers_size_grows(layers, i + 1);
        assert(digest::is_identity(layers[i].digest));
    }
    checks::lemma_first_none(failures);
}

/// An image is accepted exactly where it is for linux on amd64 or arm64, is identified by its
/// configuration, is pinned to its manifest, has at least one layer and no more than allowed, and
/// where all it is made of is accepted.
pub proof fn law_accepted_images_are_proper(image: ImageText, limits: ImageLimits)
    ensures
        image_failure(image, limits) is None <==> {
            &&& image.operating_system == "linux"@
            &&& image.architecture == "amd64"@ || image.architecture == "arm64"@
            &&& image.image_id == image.config.digest
            &&& pinning_failure(image.exact_reference) is None
            &&& names_manifest(image)
            &&& 1 <= image.layers.len() <= limits.maximum_layers
            &&& digest::is_identity(image.manifest.digest)
            &&& 1 <= image.manifest.size <= limits.maximum_manifest_bytes
            &&& is_manifest_type(image.manifest.media_type)
            &&& digest::is_identity(image.config.digest)
            &&& 1 <= image.config.size <= limits.maximum_config_bytes
            &&& is_config_type(image.config.media_type)
            &&& image.index matches Some(index) ==> {
                &&& digest::is_identity(index.digest)
                &&& 1 <= index.size <= limits.maximum_manifest_bytes
                &&& is_index_type(index.media_type)
            }
            &&& layering_failure(image.layers, limits.maximum_compressed_bytes) is None
        },
{
}

/// An image is of a platform exactly where system, architecture and variant are the same.
pub proof fn law_images_are_of_one_platform(image: ImageText, platform: ImagePlatform)
    ensures
        platform_failure(image, platform) is None <==> {
            &&& image.operating_system == platform.operating_system@
            &&& image.architecture == platform.architecture@
            &&& match (image.variant, platform.variant) {
                (None, None) => true,
                (Some(own), Some(other)) => own == other@,
                _ => false,
            }
        },
{
}

/// Each refusal of an image is of its kind.
pub proof fn law_refused_images_say_why(
    image: ImageText,
    limits: ImageLimits,
    platform: ImagePlatform,
)
    ensures
        image.operating_system != "linux"@ || !(image.architecture == "amd64"@
            || image.architecture == "arm64"@) || image.image_id != image.config.digest
            ==> image_failure(image, limits) == Some(
            SandboxFailure::ImageProvider("locked image identity or platform is invalid"@),
        ),
        pinning_failure(image.exact_reference) is None ==> (identity_failure(image, limits)
            matches Some(failure) ==> failure == SandboxFailure::ImageProvider(
            "locked image identity or platform is invalid"@,
        )),
        identity_failure(image, limits) is Some ==> image_failure(image, limits)
            == identity_failure(image, limits),
        platform_failure(image, platform) matches Some(failure) ==> failure
            == SandboxFailure::ImageProvider(
            "locked image platform "@ + image.operating_system + "/"@ + image.architecture + (
            match image.variant {
                Some(variant) => "/"@ + variant,
                None => ""@,
            }) + " does not match provider platform "@ + platform.notation(),
        ),
{
}

} // verus!

//! OCI manifests, indexes and configurations.

use crate::checks;
use crate::oci::error;
use crate::oci::error::{SandboxError, SandboxFailure};
use crate::oci::model;
use crate::oci::model::{DescriptorText, LockedDescriptor};
use crate::oci::provider::config::ImagePlatform;
use crate::json;
use crate::json::{Json, JsonText};
use crate::oci::provider::validation;
use crate::oci::provider::validation::{is_index_media_type, is_manifest_media_type};
use crate::text;
use crate::text::{join2, join3, join5};
use vstd::prelude::*;

verus! {

/// The text of a field, bounded and not empty.
pub open spec fn text_at(value: JsonText, name: Seq<char>) -> Result<Seq<char>, SandboxFailure> {
    match value.field_words(name) {
        Some(words) if 0 < text::utf8(words).len() <= 4_096 => Ok(words),
        _ => Err(SandboxFailure::ImageProvider("OCI metadata omits valid `"@ + name + "`"@)),
    }
}

/// A field that has to be there.
pub open spec fn present(value: JsonText, name: Seq<char>) -> Result<JsonText, SandboxFailure> {
    match value.field(name) {
        Some(found) => Ok(found),
        None => Err(SandboxFailure::ImageProvider("OCI metadata omits `"@ + name + "`"@)),
    }
}

/// Reads a bounded text field.
pub fn string_field(value: &Json, name: &str) -> (r: Result<String, SandboxError>)
    ensures
        error::seen(r) == text_at(value@, name@),
{
    match value.get_str(name) {
        Some(words) if words.as_bytes().len() > 0 && words.as_bytes().len() <= 4_096 => Ok(
            words.to_owned(),
        ),
        _ => Err(SandboxError::ImageProvider(join3("OCI metadata omits valid `", name, "`"))),
    }
}

/// Reads a field that has to be there.
pub fn required_field<'a>(value: &'a Json, name: &str) -> (r: Result<&'a Json, SandboxError>)
    ensures
        match r {
            Ok(found) => present(value@, name@) == Ok::<JsonText, SandboxFailure>(found@),
            Err(error) => present(value@, name@) == Err::<JsonText, SandboxFailure>(error@),
        },
{
    match value.get(name) {
        Some(found) => Ok(found),
        None => Err(SandboxError::ImageProvider(join3("OCI metadata omits `", name, "`"))),
    }
}

/// Why a document is not the metadata that its descriptor announced.
pub open spec fn metadata_failure(
    kind: Seq<char>,
    value: JsonText,
    expected: Seq<char>,
) -> Option<SandboxFailure> {
    let mismatch = SandboxFailure::ImageProvider(
        "OCI "@ + kind + " schema or media type is invalid"@,
    );
    match value.field("schemaVersion"@) {
        Some(version) if version.natural() == Some(2u64) => match text_at(value, "mediaType"@) {
            Ok(media_type) => checks::when(media_type != expected, mismatch),
            Err(failure) => Some(failure),
        },
        _ => Some(mismatch),
    }
}

/// Accepts a document that its descriptor announced.
pub fn check_metadata(kind: &str, value: &Json, expected: &str) -> (r: Result<(), SandboxError>)
    ensures
        error::outcome(r) == checks::verdict(metadata_failure(kind@, value@, expected@)),
{
    let version = match value.get("schemaVersion") {
        Some(version) => version.as_u64(),
        None => None,
    };
    match version {
        Some(2) => {},
        _ => {
            return Err(
                SandboxError::ImageProvider(
                    join3("OCI ", kind, " schema or media type is invalid"),
                ),
            );
        },
    }
    let media_type = match string_field(value, "mediaType") {
        Ok(media_type) => media_type,
        Err(error) => return Err(error),
    };
    if !text::same(media_type.as_str(), expected) {
        return Err(
            SandboxError::ImageProvider(join3("OCI ", kind, " schema or media type is invalid")),
        );
    }
    Ok(())
}

/// The metadata that `bytes` hold, as their descriptor announced it.
pub open spec fn metadata_of(
    kind: Seq<char>,
    bytes: Seq<u8>,
    expected: Seq<char>,
) -> Result<JsonText, SandboxFailure> {
    match json::document_of(bytes) {
        Ok(value) => match metadata_failure(kind, value, expected) {
            Some(failure) => Err(failure),
            None => Ok(value),
        },
        Err(reason) => Err(
            SandboxFailure::ImageProvider(
                "decode verified OCI "@ + kind + ": "@ + reason + ""@,
            ),
        ),
    }
}

/// Decodes metadata that its descriptor announced.
pub fn metadata_value(kind: &str, bytes: &[u8], expected: &str) -> (r: Result<Json, SandboxError>)
    ensures
        error::seen(r) == metadata_of(kind@, bytes@, expected@),
{
    match json::decode(bytes) {
        Ok(value) => match check_metadata(kind, &value, expected) {
            Ok(()) => Ok(value),
            Err(error) => Err(error),
        },
        Err(reason) => Err(
            SandboxError::ImageProvider(
                join5("decode verified OCI ", kind, ": ", reason.as_str(), ""),
            ),
        ),
    }
}

/// The descriptor that a value spells.
pub open spec fn descriptor_of(value: JsonText) -> Result<DescriptorText, SandboxFailure> {
    let elsewhere = match value.field("urls"@) {
        Some(urls) => match urls.items() {
            Some(items) => items.len() > 0,
            None => false,
        },
        None => false,
    };
    if elsewhere {
        Err(SandboxFailure::ImageProvider("OCI descriptor contains external URLs"@))
    } else {
        match (text_at(value, "mediaType"@), text_at(value, "digest"@), present(value, "size"@)) {
            (Err(failure), _, _) => Err(failure),
            (_, Err(failure), _) => Err(failure),
            (_, _, Err(failure)) => Err(failure),
            (Ok(media_type), Ok(digest), Ok(size)) => match size.natural() {
                Some(size) => Ok(DescriptorText { media_type, digest, size }),
                None => Err(SandboxFailure::ImageProvider("OCI descriptor size is invalid"@)),
            },
        }
    }
}

/// Reads a descriptor.
pub fn json_descriptor(value: &Json) -> (r: Result<LockedDescriptor, SandboxError>)
    ensures
        error::seen(r) == descriptor_of(value@),
{
    let elsewhere = match value.get("urls") {
        Some(urls) => match urls.as_array() {
            Some(items) => items.len() > 0,
            None => false,
        },
        None => false,
    };
    if elsewhere {
        return Err(
            SandboxError::ImageProvider("OCI descriptor contains external URLs".to_owned()),
        );
    }
    let media_type = match string_field(value, "mediaType") {
        Ok(media_type) => media_type,
        Err(error) => return Err(error),
    };
    let digest = match string_field(value, "digest") {
        Ok(digest) => digest,
        Err(error) => return Err(error),
    };
    let size = match required_field(value, "size") {
        Ok(size) => size,
        Err(error) => return Err(error),
    };
    match size.as_u64() {
        Some(size) => Ok(LockedDescriptor { media_type, digest, size }),
        None => Err(SandboxError::ImageProvider("OCI descriptor size is invalid".to_owned())),
    }
}

/// An optional variant read as an optional character sequence.
pub open spec fn is_platform_of(value: JsonText, expected: ImagePlatform) -> bool {
    match value.field("platform"@) {
        Some(platform) => {
            &&& platform.field_words("os"@) == Some(expected.operating_system@)
            &&& platform.field_words("architecture"@) == Some(expected.architecture@)
            &&& platform.field_words("variant"@) == text::optional(expected.variant)
        },
        None => false,
    }
}

/// Whether an entry of an index is for the expected platform.
pub fn platform_matches(value: &Json, expected: &ImagePlatform) -> (r: bool)
    ensures
        r == is_platform_of(value@, *expected),
{
    let platform = match value.get("platform") {
        Some(platform) => platform,
        None => return false,
    };
    let system = match platform.get_str("os") {
        Some(system) => text::same(system, expected.operating_system.as_str()),
        None => false,
    };
    let architecture = match platform.get_str("architecture") {
        Some(architecture) => text::same(architecture, expected.architecture.as_str()),
        None => false,
    };
    let variant = match (platform.get_str("variant"), &expected.variant) {
        (Some(variant), Some(own)) => text::same(variant, own.as_str()),
        (None, None) => true,
        _ => false,
    };
    system && architecture && variant
}

/// The descriptors that the chosen values spell, in their order.
pub open spec fn descriptors_of(
    values: Seq<JsonText>,
    chosen: spec_fn(JsonText) -> bool,
) -> Result<Seq<DescriptorText>, SandboxFailure>
    decreases values.len(),
{
    if values.len() == 0 {
        Ok(Seq::empty())
    } else {
        match descriptors_of(values.drop_last(), chosen) {
            Err(failure) => Err(failure),
            Ok(earlier) => if !chosen(values.last()) {
                Ok(earlier)
            } else {
                match descriptor_of(values.last()) {
                    Err(failure) => Err(failure),
                    Ok(descriptor) => Ok(earlier.push(descriptor)),
                }
            },
        }
    }
}

/// A failure among the first values is the failure of all.
proof fn lemma_descriptors_fail(
    values: Seq<JsonText>,
    chosen: spec_fn(JsonText) -> bool,
    at: int,
)
    requires
        0 <= at <= values.len(),
        descriptors_of(values.take(at), chosen) is Err,
    ensures
        descriptors_of(values, chosen) == descriptors_of(values.take(at), chosen),
    decreases values.len() - at,
{
    if at < values.len() {
        assert(values.take(at + 1).drop_last() =~= values.take(at));
        lemma_descriptors_fail(values, chosen, at + 1);
    } else {
        assert(values.take(at) =~= values);
    }
}

/// The result of a row of descriptors.
pub open spec fn seen_descriptors(result: Result<Vec<LockedDescriptor>, SandboxError>) -> Result<
    Seq<DescriptorText>,
    SandboxFailure,
> {
    match result {
        Ok(descriptors) => Ok(model::descriptor_texts(descriptors@)),
        Err(error) => Err(error@),
    }
}

/// Every value.
pub open spec fn every() -> spec_fn(JsonText) -> bool {
    |value: JsonText| true
}

/// The values for a platform.
pub open spec fn for_platform(platform: ImagePlatform) -> spec_fn(JsonText) -> bool {
    |value: JsonText| is_platform_of(value, platform)
}

/// The values that `platform` chooses; all of them where there is none.
pub open spec fn choice(platform: Option<ImagePlatform>) -> spec_fn(JsonText) -> bool {
    match platform {
        Some(platform) => for_platform(platform),
        None => every(),
    }
}

fn read_descriptors(values: &Vec<Json>, platform: Option<&ImagePlatform>) -> (r: Result<
    Vec<LockedDescriptor>,
    SandboxError,
>)
    ensures
        seen_descriptors(r) == descriptors_of(
            json::trees(values@),
            choice(
                match platform {
                    Some(platform) => Some(*platform),
                    None => None,
                },
            ),
        ),
{
    let ghost all = json::trees(values@);
    let ghost chosen = choice(
        match platform {
            Some(platform) => Some(*platform),
            None => None,
        },
    );
    let mut descriptors: Vec<LockedDescriptor> = Vec::new();
    let mut i: usize = 0;
    proof {
        assert(all.take(0) =~= Seq::<JsonText>::empty());
        assert(model::descriptor_texts(descriptors@) =~= Seq::<DescriptorText>::empty());
    }
    while i < values.len()
        invariant
            i <= values@.len(),
            all == json::trees(values@),
            chosen == choice(
                match platform {
                    Some(platform) => Some(*platform),
                    None => None,
                },
            ),
            descriptors_of(all.take(i as int), chosen) == Ok::<Seq<DescriptorText>, SandboxFailure>(
                model::descriptor_texts(descriptors@),
            ),
        decreases values@.len() - i,
    {
        proof {
            assert(all.take(i + 1).drop_last() =~= all.take(i as int));
            assert(all.take(i + 1).last() == values@[i as int]@);
        }
        let wanted = match platform {
            Some(platform) => platform_matches(&values[i], platform),
            None => true,
        };
        if wanted {
            match json_descriptor(&values[i]) {
                Ok(descriptor) => {
                    let ghost before = descriptors@;
                    descriptors.push(descriptor);
                    proof {
                        assert(model::descriptor_texts(descriptors@) =~= model::descriptor_texts(
                            before,
                        ).push(descriptor@));
                    }
                },
                Err(error) => {
                    proof {
                        lemma_descriptors_fail(all, chosen, i + 1);
                    }
                    return Err(error);
                },
            }
        }
        i += 1;
    }
    proof {
        assert(all.take(all.len() as int) =~= all);
    }
    Ok(descriptors)
}

/// The descriptors that an array field of a document spells.
pub open spec fn listed(
    value: JsonText,
    name: Seq<char>,
    shape: Seq<char>,
    chosen: spec_fn(JsonText) -> bool,
) -> Result<Seq<DescriptorText>, SandboxFailure> {
    match present(value, name) {
        Err(failure) => Err(failure),
        Ok(found) => match found.items() {
            None => Err(SandboxFailure::ImageProvider(shape)),
            Some(items) => descriptors_of(items, chosen),
        },
    }
}

fn read_list(value: &Json, name: &str, shape: &str, platform: Option<&ImagePlatform>) -> (r: Result<
    Vec<LockedDescriptor>,
    SandboxError,
>)
    ensures
        seen_descriptors(r) == listed(
            value@,
            name@,
            shape@,
            choice(
                match platform {
                    Some(platform) => Some(*platform),
                    None => None,
                },
            ),
        ),
{
    let found = match required_field(value, name) {
        Ok(found) => found,
        Err(error) => return Err(error),
    };
    match found.as_array() {
        Some(items) => read_descriptors(items, platform),
        None => Err(SandboxError::ImageProvider(shape.to_owned())),
    }
}

/// The manifests that an index lists for a platform.
pub open spec fn index_manifests(value: JsonText, platform: ImagePlatform) -> Result<
    Seq<DescriptorText>,
    SandboxFailure,
> {
    listed(
        value,
        "manifests"@,
        "OCI index manifests are not an array"@,
        for_platform(platform),
    )
}

/// Reads the manifests that an index lists for a platform.
pub fn platform_manifests(value: &Json, platform: &ImagePlatform) -> (r: Result<
    Vec<LockedDescriptor>,
    SandboxError,
>)
    ensures
        seen_descriptors(r) == index_manifests(value@, *platform),
{
    read_list(value, "manifests", "OCI index manifests are not an array", Some(platform))
}

/// The configuration and the layers that a manifest lists.
pub open spec fn manifest_parts(value: JsonText) -> Result<
    (DescriptorText, Seq<DescriptorText>),
    SandboxFailure,
> {
    match present(value, "config"@) {
        Err(failure) => Err(failure),
        Ok(config) => match descriptor_of(config) {
            Err(failure) => Err(failure),
            Ok(config) => match listed(
                value,
                "layers"@,
                "OCI manifest layers are not an array"@,
                every(),
            ) {
                Err(failure) => Err(failure),
                Ok(layers) => Ok((config, layers)),
            },
        },
    }
}

/// The result of reading a manifest.
pub open spec fn seen_parts(
    result: Result<(LockedDescriptor, Vec<LockedDescriptor>), SandboxError>,
) -> Result<(DescriptorText, Seq<DescriptorText>), SandboxFailure> {
    match result {
        Ok(parts) => Ok((parts.0@, model::descriptor_texts(parts.1@))),
        Err(error) => Err(error@),
    }
}

/// Reads the configuration and the layers that a manifest lists.
pub fn read_manifest(value: &Json) -> (r: Result<
    (LockedDescriptor, Vec<LockedDescriptor>),
    SandboxError,
>)
    ensures
        seen_parts(r) == manifest_parts(value@),
{
    let config = match required_field(value, "config") {
        Ok(config) => config,
        Err(error) => return Err(error),
    };
    let config = match json_descriptor(config) {
        Ok(config) => config,
        Err(error) => return Err(error),
    };
    match read_list(value, "layers", "OCI manifest layers are not an array", None) {
        Ok(layers) => Ok((config, layers)),
        Err(error) => Err(error),
    }
}

/// A manifest that announces another kind of artifact.
pub open spec fn is_artifact(value: JsonText) -> bool {
    match value.field("artifactType"@) {
        Some(kind) => !(kind is Null),
        None => false,
    }
}

/// Whether a manifest announces another kind of artifact.
pub fn has_artifact_type(value: &Json) -> (r: bool)
    ensures
        r == is_artifact(value@),
{
    match value.get("artifactType") {
        Some(kind) => !kind.is_null(),
        None => false,
    }
}

/// The index and the manifest that a resolved object leads to.
pub open spec fn selected(
    top: DescriptorText,
    value: JsonText,
    platform: ImagePlatform,
) -> Result<(Option<DescriptorText>, DescriptorText), SandboxFailure> {
    if validation::is_index_type(top.media_type) {
        match index_manifests(value, platform) {
            Err(failure) => Err(failure),
            Ok(manifests) => if manifests.len() == 1 {
                Ok((Some(top), manifests[0]))
            } else {
                Err(
                    SandboxFailure::ImageProvider(
                        "OCI index does not contain exactly one "@ + platform.notation()
                            + " manifest"@,
                    ),
                )
            },
        }
    } else if validation::is_manifest_type(top.media_type) {
        Ok((None, top))
    } else {
        Err(
            SandboxFailure::ImageProvider(
                "resolved OCI object is not an image manifest or index"@,
            ),
        )
    }
}

/// The result of a selection.
pub open spec fn seen_selection(
    result: Result<(Option<LockedDescriptor>, LockedDescriptor), SandboxError>,
) -> Result<(Option<DescriptorText>, DescriptorText), SandboxFailure> {
    match result {
        Ok(found) => Ok((model::optional_descriptor(found.0), found.1@)),
        Err(error) => Err(error@),
    }
}

/// Finds the manifest for the platform that a resolved object leads to.
pub fn select_manifest(top: LockedDescriptor, value: &Json, platform: &ImagePlatform) -> (r: Result<
    (Option<LockedDescriptor>, LockedDescriptor),
    SandboxError,
>)
    ensures
        seen_selection(r) == selected(top@, value@, *platform),
{
    if is_index_media_type(top.media_type.as_str()) {
        let manifests = match platform_manifests(value, platform) {
            Ok(manifests) => manifests,
            Err(error) => return Err(error),
        };
        if manifests.len() != 1 {
            let notation = platform.as_containerd_platform();
            return Err(
                SandboxError::ImageProvider(
                    join3(
                        "OCI index does not contain exactly one ",
                        notation.as_str(),
                        " manifest",
                    ),
                ),
            );
        }
        proof {
            assert(model::descriptor_texts(manifests@)[0] == manifests@[0]@);
        }
        Ok((Some(top), manifests[0].clone()))
    } else if is_manifest_media_type(top.media_type.as_str()) {
        Ok((None, top))
    } else {
        Err(
            SandboxError::ImageProvider(
                "resolved OCI object is not an image manifest or index".to_owned(),
            ),
        )
    }
}

/// The configuration document that `bytes` hold.
pub open spec fn config_document(bytes: Seq<u8>) -> Result<JsonText, SandboxFailure> {
    match json::document_of(bytes) {
        Ok(value) => Ok(value),
        Err(reason) => Err(
            SandboxFailure::ImageProvider("decode verified OCI config: "@ + reason),
        ),
    }
}

/// Decodes an image configuration.
pub fn config_value(bytes: &[u8]) -> (r: Result<Json, SandboxError>)
    ensures
        error::seen(r) == config_document(bytes@),
{
    match json::decode(bytes) {
        Ok(value) => Ok(value),
        Err(reason) => Err(
            SandboxError::ImageProvider(join2("decode verified OCI config: ", reason.as_str())),
        ),
    }
}

/// The operating system and the architecture of a configuration.
pub open spec fn config_platform(value: JsonText) -> Result<
    (Seq<char>, Seq<char>),
    SandboxFailure,
> {
    match text_at(value, "os"@) {
        Err(failure) => Err(failure),
        Ok(system) => match text_at(value, "architecture"@) {
            Err(failure) => Err(failure),
            Ok(architecture) => Ok((system, architecture)),
        },
    }
}

/// Reads the operating system and the architecture of a configuration.
pub fn read_config_platform(value: &Json) -> (r: Result<(String, String), SandboxError>)
    ensures
        match r {
            Ok(found) => config_platform(value@) == Ok::<(Seq<char>, Seq<char>), SandboxFailure>(
                (found.0@, found.1@),
            ),
            Err(error) => config_platform(value@) == Err::<
                (Seq<char>, Seq<char>),
                SandboxFailure,
            >(error@),
        },
{
    let system = match string_field(value, "os") {
        Ok(system) => system,
        Err(error) => return Err(error),
    };
    match string_field(value, "architecture") {
        Ok(architecture) => Ok((system, architecture)),
        Err(error) => Err(error),
    }
}

/// A bounded text is read exactly where the field is there, is a text, and has 1 to 4096 bytes.
pub proof fn law_read_texts_are_bounded(value: JsonText, name: Seq<char>)
    ensures
        text_at(value, name) matches Ok(words) ==> value.field(name) == Some(JsonText::Text(words))
            && 1 <= text::utf8(words).len() <= 4_096,
        value.field(name) matches Some(JsonText::Text(words)) ==> (1 <= text::utf8(words).len()
            <= 4_096 ==> text_at(value, name) == Ok::<Seq<char>, SandboxFailure>(words)),
        present(value, name) matches Ok(found) ==> value.field(name) == Some(found),
        present(value, name) is Err <==> value.field(name) is None,
{
}

/// Metadata is accepted exactly where it is of the second schema and of the type that was announced.
pub proof fn law_metadata_is_of_its_type(
    kind: Seq<char>,
    bytes: Seq<u8>,
    value: JsonText,
    expected: Seq<char>,
)
    ensures
        metadata_failure(kind, value, expected) is None <==> {
            &&& value.field("schemaVersion"@) == Some(JsonText::Number(Some(2u64)))
            &&& value.field("mediaType"@) == Some(JsonText::Text(expected))
            &&& 1 <= text::utf8(expected).len() <= 4_096
        },
        metadata_of(kind, bytes, expected) matches Ok(found) ==> json::document_of(bytes) == Ok::<
            JsonText,
            Seq<char>,
        >(found) && metadata_failure(kind, found, expected) is None,
        metadata_of(kind, bytes, expected) is Err <==> (json::document_of(bytes) is Err
            || metadata_failure(kind, json::document_of(bytes)->Ok_0, expected) is Some),
{
}

/// A descriptor is read exactly where it does not point elsewhere and has a type, a digest and a
/// size; it then says just these.
pub proof fn law_descriptors_say_type_digest_and_size(value: JsonText)
    ensures
        descriptor_of(value) matches Ok(descriptor) ==> {
            &&& value.field("mediaType"@) == Some(JsonText::Text(descriptor.media_type))
            &&& value.field("digest"@) == Some(JsonText::Text(descriptor.digest))
            &&& value.field("size"@) == Some(JsonText::Number(Some(descriptor.size)))
            &&& !(value.field("urls"@) matches Some(JsonText::Array(urls)) && urls.len() > 0)
        },
        descriptor_of(value) is Ok <==> {
            &&& text_at(value, "mediaType"@) is Ok
            &&& text_at(value, "digest"@) is Ok
            &&& value.field("size"@) matches Some(JsonText::Number(Some(_)))
            &&& !(value.field("urls"@) matches Some(JsonText::Array(urls)) && urls.len() > 0)
        },
{
}

/// An entry of an index is for a platform exactly where it names its system, its architecture and
/// its variant, or no variant where it has none.
pub proof fn law_entries_name_their_platform(value: JsonText, expected: ImagePlatform)
    ensures
        is_platform_of(value, expected) <==> (value.field("platform"@) matches Some(platform) && {
            &&& platform.field("os"@) == Some(JsonText::Text(expected.operating_system@))
            &&& platform.field("architecture"@) == Some(JsonText::Text(expected.architecture@))
            &&& expected.variant matches Some(variant) ==> platform.field("variant"@) == Some(
                JsonText::Text(variant@),
            )
            &&& expected.variant is None ==> !(platform.field("variant"@) matches Some(
                JsonText::Text(_),
            ))
        }),
{
}

/// Of values in a row the chosen ones are read, each in its turn, and all have to be descriptors.
pub proof fn law_chosen_descriptors_are_read_in_turn(
    values: Seq<JsonText>,
    chosen: spec_fn(JsonText) -> bool,
    value: JsonText,
)
    ensures
        descriptors_of(Seq::empty(), chosen) == Ok::<Seq<DescriptorText>, SandboxFailure>(
            Seq::empty(),
        ),
        descriptors_of(values, chosen) matches Ok(earlier) ==> {
            &&& !chosen(value) ==> descriptors_of(values.push(value), chosen) == Ok::<
                Seq<DescriptorText>,
                SandboxFailure,
            >(earlier)
            &&& chosen(value) ==> (descriptor_of(value) matches Ok(descriptor) ==> descriptors_of(
                values.push(value),
                chosen,
            ) == Ok::<Seq<DescriptorText>, SandboxFailure>(earlier.push(descriptor)))
            &&& chosen(value) && descriptor_of(value) is Err ==> descriptors_of(
                values.push(value),
                chosen,
            ) is Err
        },
        descriptors_of(values, chosen) is Err ==> descriptors_of(values.push(value), chosen)
            == descriptors_of(values, chosen),
{
    assert(values.push(value).drop_last() =~= values);
}

/// The manifests of an index are the descriptors in its `manifests` for the platform, and the parts
/// of a manifest are its `config` and all of its `layers`.
pub proof fn law_indexes_and_manifests_list_their_parts(value: JsonText, platform: ImagePlatform)
    ensures
        index_manifests(value, platform) is Ok ==> (value.field("manifests"@) matches Some(
            JsonText::Array(items),
        ) && index_manifests(value, platform) == descriptors_of(
            items,
            |item: JsonText| is_platform_of(item, platform),
        )),
        manifest_parts(value) matches Ok(parts) ==> {
            &&& value.field("config"@) is Some
            &&& descriptor_of(value.field("config"@)->0) == Ok::<DescriptorText, SandboxFailure>(
                parts.0,
            )
            &&& value.field("layers"@) matches Some(JsonText::Array(items)) && descriptors_of(
                items,
                |item: JsonText| true,
            ) == Ok::<Seq<DescriptorText>, SandboxFailure>(parts.1)
        },
        manifest_parts(value) is Ok <==> {
            &&& value.field("config"@) is Some
            &&& descriptor_of(value.field("config"@)->0) is Ok
            &&& value.field("layers"@) matches Some(JsonText::Array(items)) && descriptors_of(
                items,
                |item: JsonText| true,
            ) is Ok
        },
{
    assert(for_platform(platform) =~= |item: JsonText| is_platform_of(item, platform));
    assert(every() =~= |item: JsonText| true);
}

/// A resolved manifest is selected as it is; of a resolved index the one manifest for the platform
/// is, and none where there is not just one.
pub proof fn law_one_manifest_is_selected(
    top: DescriptorText,
    value: JsonText,
    platform: ImagePlatform,
)
    ensures
        selected(top, value, platform) matches Ok((index, manifest)) ==> {
            &&& index is None ==> manifest == top && (top.media_type
                == "application/vnd.oci.image.manifest.v1+json"@ || top.media_type
                == "application/vnd.docker.distribution.manifest.v2+json"@)
            &&& index matches Some(own) ==> own == top && (top.media_type
                == "application/vnd.oci.image.index.v1+json"@ || top.media_type
                == "application/vnd.docker.distribution.manifest.list.v2+json"@)
                && index_manifests(value, platform) == Ok::<Seq<DescriptorText>, SandboxFailure>(
                seq![manifest],
            )
        },
        top.media_type == "application/vnd.oci.image.index.v1+json"@ || top.media_type
            == "application/vnd.docker.distribution.manifest.list.v2+json"@ ==> (selected(
            top,
            value,
            platform,
        ) is Ok <==> (index_manifests(value, platform) matches Ok(manifests) && manifests.len()
            == 1)),
{
    match index_manifests(value, platform) {
        Ok(manifests) => {
            if manifests.len() == 1 {
                assert(manifests =~= seq![manifests[0]]);
            }
        },
        Err(_) => {},
    }
}

/// A configuration says its system and its architecture.
pub proof fn law_configurations_say_their_platform(value: JsonText)
    ensures
        config_platform(value) matches Ok(found) ==> value.field("os"@) == Some(
            JsonText::Text(found.0),
        ) && value.field("architecture"@) == Some(JsonText::Text(found.1)),
        config_platform(value) is Ok <==> text_at(value, "os"@) is Ok && text_at(
            value,
            "architecture"@,
        ) is Ok,
        is_artifact(value) <==> (value.field("artifactType"@) matches Some(kind) && !(kind is Null)),
{
}

/// Where a platform is asked for its entries are chosen, and else all are.
pub proof fn law_entries_are_chosen_by_platform(platform: ImagePlatform, value: JsonText)
    ensures
        choice(Some(platform))(value) == is_platform_of(value, platform),
        for_platform(platform)(value) == is_platform_of(value, platform),
        choice(None)(value),
{
}

} // verus!

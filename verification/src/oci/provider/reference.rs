//! Image references and the records of the image store.

use crate::checks;
use crate::digest;
use crate::digest::valid_digest;
use crate::lines;
use crate::lines::{chars_of, lines_of, lossy_text, text_of, words_of};
use crate::oci::error::{SandboxError, SandboxFailure};
use crate::oci::model::LockedImage;
use crate::text;
use crate::text::Alphabet;
use vstd::prelude::*;

verus! {

/// The registry of a reference, and its repository with the registry before it.
#[derive(Debug)]
pub struct ImageReference<'a> {
    pub registry: &'a str,
    pub repository: &'a str,
}

/// ASCII white space, or NUL.
pub open spec fn is_blank(byte: u8) -> bool {
    byte == 32 || byte == 9 || byte == 10 || byte == 12 || byte == 13 || byte == 0
}

/// Not empty, bounded, no option, and without blanks.
pub open spec fn is_reference_text(bytes: Seq<u8>) -> bool {
    &&& 0 < bytes.len() <= 4_096
    &&& bytes[0] != 45
    &&& forall|i: int| 0 <= i < bytes.len() ==> !is_blank(#[trigger] bytes[i])
}

/// A reference without its digest.
pub open spec fn reference_name(bytes: Seq<u8>) -> Seq<u8> {
    bytes.take(text::find(bytes, 64))
}

/// The digest of a reference is well formed, where it has one.
pub open spec fn digest_allowed(bytes: Seq<u8>) -> bool {
    let at = text::find(bytes, 64);
    at < bytes.len() ==> digest::is_identity_encoding(bytes.skip(at + 1))
}

/// The registry of a name.
pub open spec fn registry_of(name: Seq<u8>) -> Seq<u8> {
    name.take(text::find(name, 47))
}

/// The repository of a name with the tag behind it.
pub open spec fn tagged_repository(name: Seq<u8>) -> Seq<u8> {
    name.skip(text::find(name, 47) + 1)
}

/// The repository of a name.
pub open spec fn repository_of(name: Seq<u8>) -> Seq<u8> {
    let tagged = tagged_repository(name);
    let colon = text::find_last(tagged, 58);
    if colon < 0 {
        tagged
    } else {
        tagged.take(colon)
    }
}

/// A registry is a host with a dot or a port, or `localhost`.
pub open spec fn is_registry(bytes: Seq<u8>) -> bool {
    &&& bytes.len() > 0
    &&& text::has_byte(bytes, 46) || text::has_byte(bytes, 58) || bytes == text::utf8(
        "localhost"@,
    )
    &&& text::drawn_from(bytes, Alphabet::Registry)
}

/// A part of a repository that no path lookup gives a meaning.
pub open spec fn is_repository_part(bytes: Seq<u8>) -> bool {
    &&& bytes.len() > 0
    &&& bytes != seq![46u8]
    &&& bytes != seq![46u8, 46u8]
    &&& text::drawn_from(bytes, Alphabet::DottedToken)
}

pub open spec fn is_repository(bytes: Seq<u8>) -> bool {
    let parts = text::split(bytes, 47);
    &&& bytes.len() > 0
    &&& forall|i: int| 0 <= i < parts.len() ==> is_repository_part(#[trigger] parts[i])
}

/// Why a reference is refused.
pub open spec fn reference_failure(value: Seq<char>) -> Option<SandboxFailure> {
    let bytes = text::utf8(value);
    let name = reference_name(bytes);
    checks::or(
        checks::when(
            !is_reference_text(bytes),
            SandboxFailure::ImageProvider("OCI image reference is invalid"@),
        ),
        checks::or(
            checks::when(
                !digest_allowed(bytes),
                SandboxFailure::ImageProvider("OCI image reference digest is invalid"@),
            ),
            checks::or(
                checks::when(
                    text::find(name, 47) >= name.len(),
                    SandboxFailure::ImageProvider(
                        "OCI image reference must include an explicit registry"@,
                    ),
                ),
                checks::when(
                    !is_registry(registry_of(name)) || !is_repository(repository_of(name)),
                    SandboxFailure::ImageProvider("OCI registry or repository is invalid"@),
                ),
            ),
        ),
    )
}

/// `reference` names the registry and the repository of `value`.
pub open spec fn refers(value: Seq<char>, registry: Seq<char>, repository: Seq<char>) -> bool {
    let name = reference_name(text::utf8(value));
    &&& text::utf8(registry) == registry_of(name)
    &&& text::utf8(repository) == registry_of(name) + seq![47u8] + repository_of(name)
}

fn valid_reference_text(bytes: &[u8]) -> (r: bool)
    ensures
        r == is_reference_text(bytes@),
{
    if bytes.len() == 0 || bytes.len() > 4_096 || bytes[0] == 45 {
        return false;
    }
    let mut i: usize = 0;
    while i < bytes.len()
        invariant
            i <= bytes@.len(),
            forall|j: int| 0 <= j < i ==> !is_blank(#[trigger] bytes@[j]),
        decreases bytes@.len() - i,
    {
        let byte: u8 = bytes[i];
        if byte == 32 || byte == 9 || byte == 10 || byte == 12 || byte == 13 || byte == 0 {
            return false;
        }
        i += 1;
    }
    true
}

fn valid_registry(bytes: &[u8]) -> (r: bool)
    ensures
        r == is_registry(bytes@),
{
    bytes.len() > 0 && (text::bytes_contain(bytes, 46) || text::bytes_contain(bytes, 58)
        || text::same_bytes(bytes, "localhost".as_bytes())) && text::bytes_drawn_from(
        bytes,
        Alphabet::Registry,
    )
}

fn valid_repository_part(bytes: &[u8]) -> (r: bool)
    ensures
        r == is_repository_part(bytes@),
{
    let length: usize = bytes.len();
    proof {
        assert(bytes@ == seq![46u8] <==> length == 1 && bytes@[0] == 46) by {
            if length == 1 && bytes@[0] == 46 {
                assert(bytes@ =~= seq![46u8]);
            }
        }
        assert(bytes@ == seq![46u8, 46u8] <==> length == 2 && bytes@[0] == 46 && bytes@[1] == 46)
            by {
            if length == 2 && bytes@[0] == 46 && bytes@[1] == 46 {
                assert(bytes@ =~= seq![46u8, 46u8]);
            }
        }
    }
    length > 0 && !(length == 1 && bytes[0] == 46) && !(length == 2 && bytes[0] == 46 && bytes[1]
        == 46) && text::bytes_drawn_from(bytes, Alphabet::DottedToken)
}

fn valid_repository(bytes: &[u8]) -> (r: bool)
    ensures
        r == is_repository(bytes@),
{
    if bytes.len() == 0 {
        return false;
    }
    let parts = text::pieces(bytes, 47);
    let ghost all = text::slices(parts@);
    let mut i: usize = 0;
    while i < parts.len()
        invariant
            i <= parts@.len(),
            all == text::slices(parts@),
            all == text::split(bytes@, 47),
            forall|j: int| 0 <= j < i ==> is_repository_part(#[trigger] all[j]),
        decreases parts@.len() - i,
    {
        proof {
            assert(all[i as int] == parts@[i as int]@);
        }
        if !valid_repository_part(parts[i]) {
            return false;
        }
        i += 1;
    }
    true
}

/// Splits a fully qualified reference into registry and repository.
pub fn parse_reference(value: &str) -> (r: Result<ImageReference<'_>, SandboxError>)
    ensures
        match r {
            Ok(reference) => reference_failure(value@) is None && refers(
                value@,
                reference.registry@,
                reference.repository@,
            ),
            Err(error) => reference_failure(value@) == Some(error@),
        },
{
    let bytes = value.as_bytes();
    if !valid_reference_text(bytes) {
        return Err(SandboxError::ImageProvider("OCI image reference is invalid".to_owned()));
    }
    let at: usize = text::find_byte(bytes, 64);
    let (name, behind) = text::split_text(value, at);
    proof {
        assert(text::utf8(name@) =~= reference_name(bytes@));
    }
    if at < bytes.len() {
        let (_, digest) = text::split_text(value, at + 1);
        proof {
            assert(text::utf8(digest@) =~= bytes@.skip(at + 1));
        }
        if !valid_digest(digest) {
            return Err(
                SandboxError::ImageProvider("OCI image reference digest is invalid".to_owned()),
            );
        }
    }
    let name_bytes = name.as_bytes();
    let slash: usize = text::find_byte(name_bytes, 47);
    if slash >= name_bytes.len() {
        return Err(
            SandboxError::ImageProvider(
                "OCI image reference must include an explicit registry".to_owned(),
            ),
        );
    }
    let (registry, _) = text::split_text(name, slash);
    let tagged = vstd::slice::slice_subrange(name_bytes, slash + 1, name_bytes.len());
    let length: usize = match text::find_last_byte(tagged, 58) {
        Some(colon) => colon,
        None => tagged.len(),
    };
    let bare = vstd::slice::slice_subrange(tagged, 0, length);
    proof {
        assert(text::utf8(registry@) =~= registry_of(name_bytes@));
        assert(tagged@ =~= tagged_repository(name_bytes@));
        assert(bare@ =~= repository_of(name_bytes@));
    }
    if !valid_registry(registry.as_bytes()) || !valid_repository(bare) {
        return Err(
            SandboxError::ImageProvider("OCI registry or repository is invalid".to_owned()),
        );
    }
    proof {
        let end = slash + 1 + length;
        if end < name_bytes@.len() {
            assert(name_bytes@[end] == tagged@[length as int]);
        }
        assert(text::beside_ascii(text::utf8(name@), end));
    }
    let (repository, _) = text::split_text(name, slash + 1 + length);
    proof {
        assert(text::utf8(repository@) =~= registry_of(name_bytes@) + seq![47u8] + repository_of(
            name_bytes@,
        ));
    }
    Ok(ImageReference { registry, repository })
}

/// The media type and the digest that a line of an image list records for `source`.
pub open spec fn recorded(source: Seq<char>, line: Seq<char>) -> Option<(Seq<char>, Seq<char>)> {
    let fields = lines::words(line);
    if fields.len() >= 3 && fields[0] == source {
        Some((fields[1], fields[2]))
    } else {
        None
    }
}

/// The records of `source` in an image list.
pub open spec fn records(source: Seq<char>, listed: Seq<Seq<char>>) -> Seq<(Seq<char>, Seq<char>)>
    decreases listed.len(),
{
    if listed.len() == 0 {
        Seq::empty()
    } else {
        let earlier = records(source, listed.drop_last());
        match recorded(source, listed.last()) {
            Some(record) => earlier.push(record),
            None => earlier,
        }
    }
}

/// The lines of an image list behind its head line.
pub open spec fn listed_lines(chars: Seq<char>) -> Seq<Seq<char>> {
    let all = lines::lines(chars);
    if all.len() > 0 {
        all.drop_first()
    } else {
        all
    }
}

/// The one record of `source` in a list, which names a content identity.
pub open spec fn sole_record(source: Seq<char>, chars: Seq<char>) -> Option<
    (Seq<char>, Seq<char>),
> {
    let found = records(source, listed_lines(chars));
    if found.len() == 1 && digest::is_identity(found[0].1) {
        Some(found[0])
    } else {
        None
    }
}

/// Finds the record of `source` in a list that has been decoded.
pub fn find_record(source: &str, listing: &str) -> (r: Result<(String, String), SandboxError>)
    ensures
        match r {
            Ok(record) => sole_record(source@, listing@) == Some((record.0@, record.1@)),
            Err(error) => sole_record(source@, listing@) is None && error@
                == SandboxFailure::ImageProvider(
                "containerd did not publish one resolved image record"@,
            ),
        },
{
    let chars = chars_of(listing);
    let all = lines_of(chars.as_slice());
    let ghost listed = listed_lines(listing@);
    let mut found: Option<(String, String)> = None;
    let mut count: usize = 0;
    let mut i: usize = 1;
    proof {
        assert(listed.take(0) =~= Seq::<Seq<char>>::empty());
    }
    while i < all.len()
        invariant
            1 <= i,
            i <= all@.len() || i == 1,
            lines::slices(all@) == lines::lines(listing@),
            listed == listed_lines(listing@),
            count < i,
            count == records(source@, listed.take(i - 1)).len(),
            count > 0 <==> found is Some,
            found matches Some(record) ==> records(source@, listed.take(i - 1)).last() == (
                record.0@,
                record.1@,
            ),
        decreases all@.len() - i,
    {
        let fields = words_of(all[i]);
        let ghost line = listed[i - 1];
        let ghost own = lines::words(line);
        proof {
            assert(lines::slices(all@)[i as int] == all@[i as int]@);
            assert(line == all@[i as int]@);
            assert(listed.take(i as int).drop_last() =~= listed.take(i - 1));
            assert(listed.take(i as int).last() == line);
            assert forall|j: int| 0 <= j < own.len() implies #[trigger] own[j] == fields@[j]@ by {
                assert(lines::slices(fields@)[j] == fields@[j]@);
            }
        }
        if fields.len() >= 3 && lines::spells(fields[0], source) {
            found = Some((text_of(fields[1]), text_of(fields[2])));
            count += 1;
        }
        i += 1;
    }
    proof {
        assert(listed.take(i - 1) =~= listed);
    }
    match found {
        Some(record) if count == 1 && valid_digest(record.1.as_str()) => Ok(record),
        _ => Err(
            SandboxError::ImageProvider(
                "containerd did not publish one resolved image record".to_owned(),
            ),
        ),
    }
}

/// Reads the media type and the digest of `source` out of an image list.
pub fn image_record(source: &str, output: &[u8]) -> (r: Result<(String, String), SandboxError>)
    ensures
        match r {
            Ok(record) => sole_record(source@, lines::lossy(output@)) == Some(
                (record.0@, record.1@),
            ),
            Err(error) => sole_record(source@, lines::lossy(output@)) is None && error@
                == SandboxFailure::ImageProvider(
                "containerd did not publish one resolved image record"@,
            ),
        },
{
    let listing = lossy_text(output);
    find_record(source, listing.as_str())
}

/// Why a digest makes no activation key.
pub open spec fn digest_key_failure(value: Seq<char>) -> Option<SandboxFailure> {
    checks::or(
        checks::when(
            !text::begins_with(text::utf8(value), text::utf8("sha256:"@)),
            SandboxFailure::ImageProvider("activation digest is not sha256"@),
        ),
        checks::when(
            !digest::is_identity(value),
            SandboxFailure::ImageProvider("activation digest is malformed"@),
        ),
    )
}

/// The hash of a content identity, by which its activation is kept.
pub fn digest_key(value: &str) -> (r: Result<String, SandboxError>)
    ensures
        match r {
            Ok(key) => digest_key_failure(value@) is None && value@ == "sha256:"@ + key@
                && digest::is_hash(key@),
            Err(error) => digest_key_failure(value@) == Some(error@),
        },
{
    if !text::starts_with(value, "sha256:") {
        return Err(SandboxError::ImageProvider("activation digest is not sha256".to_owned()));
    }
    if !valid_digest(value) {
        return Err(SandboxError::ImageProvider("activation digest is malformed".to_owned()));
    }
    proof {
        digest::lemma_prefix();
        assert(text::utf8(value@)[6] == text::utf8(value@).subrange(0, 7)[6]);
        assert(text::beside_ascii(text::utf8(value@), 7));
    }
    let (prefix, key) = text::split_text(value, 7);
    proof {
        text::lemma_utf8_injective(prefix@, "sha256:"@);
        assert(text::utf8(value@).subrange(7, 71) == text::utf8(key@));
    }
    Ok(key.to_owned())
}

/// The reference by which the image store knows a locked image.
pub fn containerd_reference(image: &LockedImage) -> (r: Result<String, SandboxError>)
    ensures
        match r {
            Ok(reference) => text::has_byte(text::utf8(image.exact_reference@), 64) && reference@
                == image.exact_reference@,
            Err(error) => !text::has_byte(text::utf8(image.exact_reference@), 64) && error@
                == SandboxFailure::ImageProvider("locked image reference is not pinned"@),
        },
{
    if !text::contains_byte(image.exact_reference.as_str(), 64) {
        return Err(
            SandboxError::ImageProvider("locked image reference is not pinned".to_owned()),
        );
    }
    Ok(image.exact_reference.clone())
}

/// A reference that is written as a registry, a repository and perhaps a tag and a digest refers to
/// that registry, and to that repository of it, without the tag and the digest.
pub proof fn law_references_are_taken_apart(
    registry: Seq<u8>,
    repository: Seq<u8>,
    tag: Option<Seq<u8>>,
    digest: Option<Seq<u8>>,
)
    requires
        !text::has_byte(registry, '/' as u8),
        !text::has_byte(registry, '@' as u8),
        !text::has_byte(repository, ':' as u8),
        !text::has_byte(repository, '@' as u8),
        tag matches Some(tag) ==> !text::has_byte(tag, ':' as u8) && !text::has_byte(tag, '@' as u8),
    ensures
        ({
            let tagged = if tag is Some {
                repository + seq![':' as u8] + tag->0
            } else {
                repository
            };
            let name = registry + seq!['/' as u8] + tagged;
            let whole = if digest is Some {
                name + seq!['@' as u8] + digest->0
            } else {
                name
            };
            &&& reference_name(whole) == name
            &&& registry_of(name) == registry
            &&& tagged_repository(name) == tagged
            &&& repository_of(name) == repository
            &&& digest_allowed(whole) <==> (digest is Some ==> digest::is_identity_encoding(
                digest->0,
            ))
        }),
{
    let tagged = if tag is Some {
        repository + seq![':' as u8] + tag->0
    } else {
        repository
    };
    let name = registry + seq!['/' as u8] + tagged;
    let whole = if digest is Some {
        name + seq!['@' as u8] + digest->0
    } else {
        name
    };
    assert(!text::has_byte(name, '@' as u8)) by {
        assert forall|i: int| 0 <= i < name.len() implies #[trigger] name[i] != '@' as u8 by {
            if i < registry.len() {
                assert(name[i] == registry[i]);
            } else if i > registry.len() {
                let j = i - registry.len() - 1;
                assert(name[i] == tagged[j]);
                if j < repository.len() {
                    assert(tagged[j] == repository[j]);
                } else if j > repository.len() {
                    assert(tagged[j] == (tag->0)[j - repository.len() - 1]);
                }
            }
        }
    }
    match digest {
        Some(digest) => text::law_pieces_end_at_separators(name, digest, '@' as u8),
        None => text::law_pieces_end_at_separators(name, Seq::empty(), '@' as u8),
    }
    assert(whole.take(name.len() as int) =~= name);
    match digest {
        Some(digest) => assert(whole.skip(name.len() as int + 1) =~= digest),
        None => {},
    }
    text::law_pieces_end_at_separators(registry, tagged, '/' as u8);
    assert(name.take(registry.len() as int) =~= registry);
    assert(name.skip(registry.len() as int + 1) =~= tagged);
    match tag {
        Some(tag) => {
            let at = repository.len() as int;
            assert forall|j: int| at < j < tagged.len() implies #[trigger] tagged[j] != ':' as u8 by {
                assert(tagged[j] == tag[j - at - 1]);
            }
            text::lemma_find_last_at(tagged, ':' as u8, at);
            assert(tagged.take(at) =~= repository);
        },
        None => {
            assert forall|j: int| -1 < j < tagged.len() implies #[trigger] tagged[j] != ':' as u8 by {
                assert(tagged[j] == repository[j]);
            }
            text::lemma_find_last_at(tagged, ':' as u8, -1);
        },
    }
}

/// A reference is accepted exactly where it is 1 to 4096 bytes without blanks and reads as no
/// option, its digest is one, it names a registry with a dot, a colon or as `localhost`, and every
/// part of its repository is a token that leads nowhere else.
pub proof fn law_accepted_references_are_explicit(value: Seq<char>)
    ensures
        reference_failure(value) is None <==> {
            let bytes = text::utf8(value);
            let name = reference_name(bytes);
            let registry = registry_of(name);
            let parts = text::split(repository_of(name), '/' as u8);
            &&& 1 <= bytes.len() <= 4_096
            &&& bytes[0] != '-' as u8
            &&& forall|i: int|
                0 <= i < bytes.len() ==> {
                    let byte = #[trigger] bytes[i];
                    byte != ' ' as u8 && byte != 9 && byte != 10 && byte != 12 && byte != 13 && byte
                        != 0
                }
            &&& digest_allowed(bytes)
            &&& text::has_byte(name, '/' as u8)
            &&& registry.len() > 0
            &&& text::has_byte(registry, '.' as u8) || text::has_byte(registry, ':' as u8)
                || registry == text::utf8("localhost"@)
            &&& forall|i: int|
                0 <= i < registry.len() ==> 'a' as u8 <= (#[trigger] registry[i]) <= 'z' as u8
                    || 'A' as u8 <= registry[i] <= 'Z' as u8 || '0' as u8 <= registry[i] <= '9' as u8
                    || registry[i] == '.' as u8 || registry[i] == '-' as u8 || registry[i]
                    == ':' as u8 || registry[i] == '_' as u8
            &&& repository_of(name).len() > 0
            &&& forall|i: int|
                0 <= i < parts.len() ==> {
                    &&& (#[trigger] parts[i]).len() > 0
                    &&& parts[i] != seq!['.' as u8]
                    &&& parts[i] != seq!['.' as u8, '.' as u8]
                    &&& text::drawn_from(parts[i], Alphabet::DottedToken)
                }
        },
{
    let bytes = text::utf8(value);
    let name = reference_name(bytes);
    text::lemma_find(name, 47);
    assert(text::find(name, 47) >= name.len() <==> !text::has_byte(name, 47)) by {
        if text::has_byte(name, 47) {
            let i = choose|i: int| 0 <= i < name.len() && #[trigger] name[i] == 47;
            if text::find(name, 47) >= name.len() {
                assert(name[i] != 47);
            }
        }
    }
    let registry = registry_of(name);
    assert forall|i: int| 0 <= i < registry.len() implies (Alphabet::Registry.admits(
        #[trigger] registry[i],
    ) <==> 'a' as u8 <= registry[i] <= 'z' as u8 || 'A' as u8 <= registry[i] <= 'Z' as u8
        || '0' as u8 <= registry[i] <= '9' as u8 || registry[i] == '.' as u8 || registry[i]
        == '-' as u8 || registry[i] == ':' as u8 || registry[i] == '_' as u8) by {}
}

/// The record of a source in an image list is the one line behind the head that starts with it: its
/// second and third words, of which the third is a content identity. More than one is none.
pub proof fn law_records_are_lines_of_their_source(
    source: Seq<char>,
    line: Seq<char>,
    listed: Seq<Seq<char>>,
    chars: Seq<char>,
)
    ensures
        recorded(source, line) is Some <==> lines::words(line).len() >= 3 && lines::words(line)[0]
            == source,
        recorded(source, line) matches Some(record) ==> record == (
            lines::words(line)[1],
            lines::words(line)[2],
        ),
        recorded(source, line) is Some ==> records(source, listed.push(line)) == records(
            source,
            listed,
        ).push(recorded(source, line)->0),
        recorded(source, line) is None ==> records(source, listed.push(line)) == records(
            source,
            listed,
        ),
        records(source, Seq::<Seq<char>>::empty()).len() == 0,
        lines::lines(chars).len() > 0 ==> listed_lines(chars) == lines::lines(chars).skip(1),
        sole_record(source, chars) is Some <==> records(source, listed_lines(chars)).len() == 1
            && digest::is_identity(records(source, listed_lines(chars))[0].1),
        sole_record(source, chars) matches Some(record) ==> record == records(
            source,
            listed_lines(chars),
        )[0],
{
    assert(listed.push(line).drop_last() =~= listed);
    assert(lines::lines(chars).len() > 0 ==> lines::lines(chars).drop_first() =~= lines::lines(
        chars,
    ).skip(1));
}

/// An activation is kept by its digest exactly where that is a content identity.
pub proof fn law_activation_keys_are_identities(value: Seq<char>)
    ensures
        digest_key_failure(value) is None <==> digest::is_identity(value),
{
}

/// Each refusal of a reference is of its kind.
pub proof fn law_refused_references_say_why(value: Seq<char>, name: Seq<u8>)
    requires
        name == reference_name(text::utf8(value)),
    ensures
        !is_reference_text(text::utf8(value)) ==> reference_failure(value) == Some(
            SandboxFailure::ImageProvider("OCI image reference is invalid"@),
        ),
        is_reference_text(text::utf8(value)) && !digest_allowed(text::utf8(value))
            ==> reference_failure(value) == Some(
            SandboxFailure::ImageProvider("OCI image reference digest is invalid"@),
        ),
        is_reference_text(text::utf8(value)) && digest_allowed(text::utf8(value)) && text::find(
            name,
            47,
        ) >= name.len() ==> reference_failure(value) == Some(
            SandboxFailure::ImageProvider("OCI image reference must include an explicit registry"@),
        ),
        is_reference_text(text::utf8(value)) && digest_allowed(text::utf8(value)) && text::find(
            name,
            47,
        ) < name.len() ==> (reference_failure(value) matches Some(failure) ==> failure
            == SandboxFailure::ImageProvider("OCI registry or repository is invalid"@)),
        !text::begins_with(text::utf8(value), text::utf8("sha256:"@)) ==> digest_key_failure(value)
            == Some(SandboxFailure::ImageProvider("activation digest is not sha256"@)),
        text::begins_with(text::utf8(value), text::utf8("sha256:"@)) ==> (digest_key_failure(value)
            matches Some(failure) ==> failure == SandboxFailure::ImageProvider(
            "activation digest is malformed"@,
        )),
{
}

} // verus!

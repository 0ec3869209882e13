//! The texts that a Compose file may hold.

use crate::checks;
use crate::oci::error;
use crate::oci::error::{SandboxError, SandboxFailure};
use crate::oci::model::MAX_VALUE_BYTES;
use crate::text;
use crate::text::{join2, join3, join5, Alphabet};
use vstd::prelude::*;

verus! {

/// A lower-case identifier of at most 32 bytes that starts with a letter.
pub open spec fn is_identifier(value: Seq<char>) -> bool {
    let bytes = text::utf8(value);
    &&& 0 < bytes.len() <= 32
    &&& text::drawn_from(bytes, Alphabet::Identifier)
    &&& text::is_lower(bytes[0])
}

pub open spec fn identifier_failure(kind: Seq<char>, value: Seq<char>) -> Option<SandboxFailure> {
    checks::when(
        !is_identifier(value),
        SandboxFailure::Compose(
            kind + " `"@ + value + "` is not a bounded lowercase identifier"@ + ""@,
        ),
    )
}

/// Accepts the bounded lower-case identifiers.
pub fn validate_identifier(kind: &str, value: &str) -> (r: Result<(), SandboxError>)
    ensures
        error::outcome(r) == checks::verdict(identifier_failure(kind@, value@)),
{
    let bytes = value.as_bytes();
    if bytes.len() == 0 || bytes.len() > 32 || !text::all_bytes(value, Alphabet::Identifier) || !(97
        <= bytes[0] && bytes[0] <= 122) {
        return Err(
            SandboxError::Compose(
                join5(kind, " `", value, "` is not a bounded lowercase identifier", ""),
            ),
        );
    }
    Ok(())
}

/// A value is not empty, bounded, and free of NUL.
pub open spec fn is_value(value: Seq<char>) -> bool {
    let bytes = text::utf8(value);
    0 < bytes.len() <= MAX_VALUE_BYTES && !text::has_byte(bytes, 0)
}

pub open spec fn value_failure(kind: Seq<char>, value: Seq<char>) -> Option<SandboxFailure> {
    checks::when(!is_value(value), SandboxFailure::Compose("invalid "@ + kind))
}

/// Accepts the bounded values.
pub fn validate_value(kind: &str, value: &str) -> (r: Result<(), SandboxError>)
    ensures
        error::outcome(r) == checks::verdict(value_failure(kind@, value@)),
{
    let bytes = value.as_bytes();
    if bytes.len() == 0 || bytes.len() > MAX_VALUE_BYTES || text::bytes_contain(bytes, 0) {
        return Err(SandboxError::Compose(join2("invalid ", kind)));
    }
    Ok(())
}

pub open spec fn values_failure(
    kind: Seq<char>,
    values: Seq<String>,
    maximum: usize,
) -> Option<SandboxFailure> {
    checks::or(
        checks::when(
            values.len() > maximum,
            SandboxFailure::Compose("too many "@ + kind + " values"@),
        ),
        checks::first(Seq::new(values.len(), |i: int| value_failure(kind, values[i]@))),
    )
}

/// Accepts at most `maximum` bounded values.
pub fn validate_values(kind: &str, values: &[String], maximum: usize) -> (r: Result<
    (),
    SandboxError,
>)
    ensures
        error::outcome(r) == checks::verdict(values_failure(kind@, values@, maximum)),
{
    if values.len() > maximum {
        return Err(SandboxError::Compose(join3("too many ", kind, " values")));
    }
    let ghost failures = Seq::new(values@.len(), |i: int| value_failure(kind@, values@[i]@));
    let mut i: usize = 0;
    while i < values.len()
        invariant
            i <= values.len(),
            failures == Seq::new(values@.len(), |i: int| value_failure(kind@, values@[i]@)),
            forall|j: int| 0 <= j < i ==> #[trigger] failures[j] is None,
            values.len() <= maximum,
        decreases values.len() - i,
    {
        match validate_value(kind, values[i].as_str()) {
            Ok(()) => {},
            Err(error) => {
                proof {
                    checks::lemma_first_at(failures, i as int);
                }
                return Err(error);
            },
        }
        i += 1;
    }
    proof {
        checks::lemma_first_none(failures);
    }
    Ok(())
}

/// A variable name: letters, digits and `_`, not led by a digit, at most 256 bytes.
pub open spec fn is_environment_name(name: Seq<char>) -> bool {
    let bytes = text::utf8(name);
    &&& 0 < bytes.len() <= 256
    &&& text::drawn_from(bytes, Alphabet::EnvironmentName)
    &&& !text::is_digit(bytes[0])
}

pub open spec fn environment_failure(name: Seq<char>, value: Seq<char>) -> Option<SandboxFailure> {
    checks::or(
        checks::when(
            !is_environment_name(name),
            SandboxFailure::Compose("environment name `"@ + name + "` is invalid"@),
        ),
        checks::or(
            value_failure("environment value"@, value),
            checks::when(
                text::has_byte(text::utf8(value), 10) || text::has_byte(text::utf8(value), 13),
                SandboxFailure::Compose(
                    "environment value for `"@ + name + "` contains a line break"@,
                ),
            ),
        ),
    )
}

/// Accepts a variable whose value is one bounded line.
pub fn validate_environment(name: &str, value: &str) -> (r: Result<(), SandboxError>)
    ensures
        error::outcome(r) == checks::verdict(environment_failure(name@, value@)),
{
    let bytes = name.as_bytes();
    if bytes.len() == 0 || bytes.len() > 256 || !text::all_bytes(name, Alphabet::EnvironmentName)
        || (48 <= bytes[0] && bytes[0] <= 57) {
        return Err(SandboxError::Compose(join3("environment name `", name, "` is invalid")));
    }
    match validate_value("environment value", value) {
        Ok(()) => {},
        Err(error) => return Err(error),
    }
    if text::contains_byte(value, 10) || text::contains_byte(value, 13) {
        return Err(
            SandboxError::Compose(
                join3("environment value for `", name, "` contains a line break"),
            ),
        );
    }
    Ok(())
}

/// The syntax of an image reference.
pub open spec fn is_image_reference(value: Seq<char>) -> bool {
    let bytes = text::utf8(value);
    bytes[0] != 45 && text::drawn_from(bytes, Alphabet::ImageReference)
}

pub open spec fn image_reference_failure(value: Seq<char>) -> Option<SandboxFailure> {
    checks::or(
        value_failure("image reference"@, value),
        checks::when(
            !is_image_reference(value),
            SandboxFailure::Compose("image reference `"@ + value + "` has unsupported syntax"@),
        ),
    )
}

/// Accepts image references, none of which reads as an option.
pub fn validate_image_reference(value: &str) -> (r: Result<(), SandboxError>)
    ensures
        error::outcome(r) == checks::verdict(image_reference_failure(value@)),
{
    match validate_value("image reference", value) {
        Ok(()) => {},
        Err(error) => return Err(error),
    }
    if value.as_bytes()[0] == 45 || !text::all_bytes(value, Alphabet::ImageReference) {
        return Err(
            SandboxError::Compose(join3("image reference `", value, "` has unsupported syntax")),
        );
    }
    Ok(())
}

/// Whether `name` is one of `names`.
pub fn is_listed(names: &Vec<String>, name: &str) -> (r: bool)
    ensures
        r == (exists|i: int| 0 <= i < names@.len() && #[trigger] names@[i]@ == name@),
{
    let mut i: usize = 0;
    while i < names.len()
        invariant
            i <= names.len(),
            forall|j: int| 0 <= j < i ==> #[trigger] names@[j]@ != name@,
        decreases names.len() - i,
    {
        if text::same(names[i].as_str(), name) {
            return true;
        }
        i += 1;
    }
    false
}

/// An identifier is accepted exactly where it is one to 32 lower-case letters, digits, `-` and `_`
/// and starts with a letter.
pub proof fn law_identifiers_are_bounded_lower_case(kind: Seq<char>, value: Seq<char>)
    ensures
        identifier_failure(kind, value) is None <==> {
            let bytes = text::utf8(value);
            &&& 1 <= bytes.len() <= 32
            &&& 'a' as u8 <= bytes[0] <= 'z' as u8
            &&& forall|i: int|
                0 <= i < bytes.len() ==> 'a' as u8 <= (#[trigger] bytes[i]) <= 'z' as u8 || '0' as u8
                    <= bytes[i] <= '9' as u8 || bytes[i] == '-' as u8 || bytes[i] == '_' as u8
        },
{
}

/// Values are accepted exactly where there are not too many, and each holds 1 to 16384 bytes and no
/// NUL.
pub proof fn law_values_are_bounded(kind: Seq<char>, values: Seq<String>, maximum: usize)
    ensures
        values_failure(kind, values, maximum) is None <==> values.len() <= maximum && forall|
            i: int,
        |
            0 <= i < values.len() ==> {
                let bytes = text::utf8((#[trigger] values[i])@);
                &&& 1 <= bytes.len() <= 16_384
                &&& forall|j: int| 0 <= j < bytes.len() ==> #[trigger] bytes[j] != 0
            },
{
    let failures = Seq::new(values.len(), |i: int| value_failure(kind, values[i]@));
    checks::lemma_first(failures);
    assert forall|i: int| 0 <= i < values.len() implies (failures[i] is None <==> {
        let bytes = text::utf8((#[trigger] values[i])@);
        &&& 1 <= bytes.len() <= 16_384
        &&& forall|j: int| 0 <= j < bytes.len() ==> #[trigger] bytes[j] != 0
    }) by {
        law_one_value_is_bounded(kind, values[i]@);
    }
    if values_failure(kind, values, maximum) is None {
        assert forall|i: int| 0 <= i < values.len() implies {
            let bytes = text::utf8((#[trigger] values[i])@);
            &&& 1 <= bytes.len() <= 16_384
            &&& forall|j: int| 0 <= j < bytes.len() ==> #[trigger] bytes[j] != 0
        } by {
            assert(failures[i] is None);
        }
    }
}

/// A value is accepted exactly where it holds 1 to 16384 bytes and no NUL.
pub proof fn law_one_value_is_bounded(kind: Seq<char>, value: Seq<char>)
    ensures
        value_failure(kind, value) is None <==> {
            let bytes = text::utf8(value);
            &&& 1 <= bytes.len() <= 16_384
            &&& forall|j: int| 0 <= j < bytes.len() ==> #[trigger] bytes[j] != 0
        },
{
}

/// A variable is accepted exactly where its name is one to 256 letters, digits and `_` that do not
/// start with a digit, and its value holds 1 to 16384 bytes, no NUL and no line break.
pub proof fn law_variables_are_single_lines(name: Seq<char>, value: Seq<char>)
    ensures
        environment_failure(name, value) is None <==> {
            let own = text::utf8(name);
            let bytes = text::utf8(value);
            &&& 1 <= own.len() <= 256
            &&& !('0' as u8 <= own[0] <= '9' as u8)
            &&& forall|i: int|
                0 <= i < own.len() ==> 'a' as u8 <= (#[trigger] own[i]) <= 'z' as u8 || 'A' as u8
                    <= own[i] <= 'Z' as u8 || '0' as u8 <= own[i] <= '9' as u8 || own[i] == '_' as u8
            &&& 1 <= bytes.len() <= 16_384
            &&& forall|j: int|
                0 <= j < bytes.len() ==> #[trigger] bytes[j] != 0 && bytes[j] != 10 && bytes[j] != 13
        },
{
}

/// An image reference is accepted exactly where it holds 1 to 16384 letters, digits, `/`, `.`, `_`,
/// `-`, `:` and `@` and does not start with `-`.
pub proof fn law_image_references_read_as_no_option(value: Seq<char>)
    ensures
        image_reference_failure(value) is None <==> {
            let bytes = text::utf8(value);
            &&& 1 <= bytes.len() <= 16_384
            &&& bytes[0] != '-' as u8
            &&& forall|i: int|
                0 <= i < bytes.len() ==> 'a' as u8 <= (#[trigger] bytes[i]) <= 'z' as u8 || 'A' as u8
                    <= bytes[i] <= 'Z' as u8 || '0' as u8 <= bytes[i] <= '9' as u8 || bytes[i]
                    == '/' as u8 || bytes[i] == '.' as u8 || bytes[i] == '_' as u8 || bytes[i]
                    == '-' as u8 || bytes[i] == ':' as u8 || bytes[i] == '@' as u8
        },
{
}

/// Each refusal of a value is of its kind.
pub proof fn law_refused_values_say_why(
    kind: Seq<char>,
    value: Seq<char>,
    values: Seq<String>,
    maximum: usize,
    name: Seq<char>,
)
    ensures
        identifier_failure(kind, value) matches Some(failure) ==> failure
            == SandboxFailure::Compose(
            kind + " `"@ + value + "` is not a bounded lowercase identifier"@,
        ),
        value_failure(kind, value) matches Some(failure) ==> failure == SandboxFailure::Compose(
            "invalid "@ + kind,
        ),
        values.len() > maximum ==> values_failure(kind, values, maximum) == Some(
            SandboxFailure::Compose("too many "@ + kind + " values"@),
        ),
        !is_environment_name(name) ==> environment_failure(name, value) == Some(
            SandboxFailure::Compose("environment name `"@ + name + "` is invalid"@),
        ),
        is_environment_name(name) && is_value(value) ==> (environment_failure(name, value)
            matches Some(failure) ==> failure == SandboxFailure::Compose(
            "environment value for `"@ + name + "` contains a line break"@,
        )),
        is_value(value) ==> (image_reference_failure(value) matches Some(failure) ==> failure
            == SandboxFailure::Compose("image reference `"@ + value + "` has unsupported syntax"@)),
{
    reveal_strlit("");
    let whole = kind + " `"@ + value + "` is not a bounded lowercase identifier"@;
    assert(whole + ""@ =~= whole);
}

} // verus!

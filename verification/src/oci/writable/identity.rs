//! Whose writable root filesystem it is.

use crate::checks;
use crate::oci::error;
use crate::oci::error::{SandboxError, SandboxFailure};
use crate::oci::values;
use crate::text;
use crate::text::{join3, Alphabet};
use vstd::prelude::*;

verus! {

/// The project and the service that a writable root belongs to.
#[derive(Debug, PartialEq, Eq)]
pub struct WritableRootfsIdentity {
    project: String,
    service: String,
}

/// A `WritableRootfsIdentity` with its texts read as character sequences.
pub struct IdentityText {
    pub project: Seq<char>,
    pub service: Seq<char>,
}

impl View for WritableRootfsIdentity {
    type V = IdentityText;

    closed spec fn view(&self) -> IdentityText {
        IdentityText { project: self.project@, service: self.service@ }
    }
}

impl Clone for WritableRootfsIdentity {
    fn clone(&self) -> (r: Self)
        ensures
            r@ == self@,
    {
        proof {
            use_type_invariant(self);
        }
        WritableRootfsIdentity { project: self.project.clone(), service: self.service.clone() }
    }
}

impl IdentityText {
    /// Both parts are bounded lower-case identifiers.
    pub open spec fn is_valid(self) -> bool {
        values::is_identifier(self.project) && values::is_identifier(self.service)
    }
}

/// Why a part of an identity is refused.
pub open spec fn component_failure(kind: Seq<char>, value: Seq<char>) -> Option<SandboxFailure> {
    checks::when(
        !values::is_identifier(value),
        SandboxFailure::ImageProvider("writable rootfs "@ + kind + " identity is invalid"@),
    )
}

fn validate_component(kind: &str, value: &str) -> (r: Result<(), SandboxError>)
    ensures
        error::outcome(r) == checks::verdict(component_failure(kind@, value@)),
{
    let bytes = value.as_bytes();
    if bytes.len() == 0 || bytes.len() > 32 || !text::all_bytes(value, Alphabet::Identifier) || !(97
        <= bytes[0] && bytes[0] <= 122) {
        return Err(
            SandboxError::ImageProvider(join3("writable rootfs ", kind, " identity is invalid")),
        );
    }
    Ok(())
}

impl WritableRootfsIdentity {
    #[verifier::type_invariant]
    closed spec fn well_formed(self) -> bool {
        values::is_identifier(self.project@) && values::is_identifier(self.service@)
    }

    pub fn new(project: String, service: String) -> (r: Result<Self, SandboxError>)
        ensures
            match r {
                Ok(identity) => {
                    &&& component_failure("project"@, project@) is None
                    &&& component_failure("service"@, service@) is None
                    &&& identity@ == (IdentityText { project: project@, service: service@ })
                },
                Err(error) => checks::or(
                    component_failure("project"@, project@),
                    component_failure("service"@, service@),
                ) == Some(error@),
            },
    {
        match validate_component("project", project.as_str()) {
            Ok(()) => {},
            Err(error) => return Err(error),
        }
        match validate_component("service", service.as_str()) {
            Ok(()) => {},
            Err(error) => return Err(error),
        }
        Ok(WritableRootfsIdentity { project, service })
    }

    pub fn project(&self) -> (r: &str)
        ensures
            r@ == self@.project,
            self@.is_valid(),
    {
        proof {
            use_type_invariant(self);
        }
        self.project.as_str()
    }

    pub fn service(&self) -> (r: &str)
        ensures
            r@ == self@.service,
            self@.is_valid(),
    {
        proof {
            use_type_invariant(self);
        }
        self.service.as_str()
    }

    /// Whether two identities are one.
    pub fn same(&self, other: &Self) -> (r: bool)
        ensures
            r == (self@ == other@),
    {
        text::same(self.project.as_str(), other.project.as_str()) && text::same(
            self.service.as_str(),
            other.service.as_str(),
        )
    }
}

/// The encodings of identifiers hold no NUL.
pub proof fn lemma_identifier_has_no_nul(value: Seq<char>)
    requires
        values::is_identifier(value),
    ensures
        !text::has_byte(text::utf8(value), 0),
{
    let bytes = text::utf8(value);
    assert forall|i: int| 0 <= i < bytes.len() implies #[trigger] bytes[i] != 0 by {
        assert(Alphabet::Identifier.admits(bytes[i]));
    }
}

/// An identity is of two identifiers.
pub proof fn law_identities_are_of_identifiers(
    identity: IdentityText,
    kind: Seq<char>,
    value: Seq<char>,
)
    ensures
        identity.is_valid() <==> values::is_identifier(identity.project) && values::is_identifier(
            identity.service,
        ),
        component_failure(kind, value) is None <==> values::is_identifier(value),
        component_failure(kind, value) matches Some(failure) ==> failure
            == SandboxFailure::ImageProvider("writable rootfs "@ + kind + " identity is invalid"@),
{
}

} // verus!

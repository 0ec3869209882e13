//! Registry credentials, each bound to a tenant and a registry.

use crate::checks;
use crate::oci::error;
use crate::oci::error::{SandboxError, SandboxFailure};
use crate::text;
use crate::text::{join2, join3, join5, Alphabet};
use base64::Engine;
use vstd::prelude::*;

verus! {

#[derive(Clone)]
enum RegistrySecret {
    Basic { username: String, password: String },
    Bearer(String),
}

/// What a registry credential proves.
pub enum Secret {
    Basic { username: Seq<char>, password: Seq<char> },
    Bearer(Seq<char>),
}

/// A credential for one registry, held for one tenant.
#[derive(Clone)]
pub struct RegistryCredential {
    tenant: String,
    registry: String,
    secret: RegistrySecret,
}

/// A `RegistryCredential` with its texts read as character sequences.
pub struct Credential {
    pub tenant: Seq<char>,
    pub registry: Seq<char>,
    pub secret: Secret,
}

impl View for RegistryCredential {
    type V = Credential;

    closed spec fn view(&self) -> Credential {
        Credential {
            tenant: self.tenant@,
            registry: self.registry@,
            secret: match self.secret {
                RegistrySecret::Basic { username, password } => Secret::Basic {
                    username: username@,
                    password: password@,
                },
                RegistrySecret::Bearer(token) => Secret::Bearer(token@),
            },
        }
    }
}

/// The digit for six bits in the standard base64 alphabet.
pub open spec fn base64_digit(bits: int) -> char {
    if bits < 26 {
        (65 + bits) as char
    } else if bits < 52 {
        (71 + bits) as char
    } else if bits < 62 {
        (bits - 4) as char
    } else if bits == 62 {
        '+'
    } else {
        '/'
    }
}

/// The digit for six bits of a 24-bit group, the highest at place 0.
pub open spec fn base64_place(group: int, place: int) -> char {
    if place == 0 {
        base64_digit(group / 262_144)
    } else if place == 1 {
        base64_digit(group / 4_096 % 64)
    } else if place == 2 {
        base64_digit(group / 64 % 64)
    } else {
        base64_digit(group % 64)
    }
}

/// Padded standard base64: three bytes to four digits.
pub open spec fn base64_text(bytes: Seq<u8>) -> Seq<char>
    decreases bytes.len(),
{
    if bytes.len() == 0 {
        Seq::empty()
    } else if bytes.len() == 1 {
        let group = bytes[0] * 65_536;
        seq![base64_place(group, 0), base64_place(group, 1), '=', '=']
    } else if bytes.len() == 2 {
        let group = bytes[0] * 65_536 + bytes[1] * 256;
        seq![base64_place(group, 0), base64_place(group, 1), base64_place(group, 2), '=']
    } else {
        let group = bytes[0] * 65_536 + bytes[1] * 256 + bytes[2];
        seq![
            base64_place(group, 0),
            base64_place(group, 1),
            base64_place(group, 2),
            base64_place(group, 3),
        ] + base64_text(bytes.skip(3))
    }
}

/// Calls `base64::engine::general_purpose::STANDARD.encode`: the standard alphabet, with
/// padding.
#[verifier::external_body]
fn encode_base64(bytes: &[u8]) -> (r: String)
    ensures
        r@ == base64_text(bytes@),
{
    base64::engine::general_purpose::STANDARD.encode(bytes)
}

/// A text as Rust's debug notation quotes it.
pub uninterp spec fn quoted(value: Seq<char>) -> Seq<char>;

/// Calls `format!` with the `Debug` notation of `str`. The result is named `quoted`.
#[verifier::external_body]
pub(crate) fn quote(value: &str) -> (r: String)
    ensures
        r@ == quoted(value@),
{
    format!("{value:?}")
}

/// The size of an encoded text lies between one and `maximum` bytes.
pub open spec fn sized(value: Seq<char>, maximum: int) -> bool {
    0 < text::utf8(value).len() <= maximum
}

fn is_sized(value: &str, maximum: usize) -> (r: bool)
    ensures
        r == sized(value@, maximum as int),
{
    let length: usize = value.as_bytes().len();
    0 < length && length <= maximum
}

impl Credential {
    pub open spec fn scope_valid(self) -> bool {
        &&& sized(self.tenant, 128)
        &&& sized(self.registry, 255)
        &&& text::drawn_from(text::utf8(self.registry), Alphabet::Registry)
    }

    pub open spec fn secret_valid(self) -> bool {
        match self.secret {
            Secret::Basic { username, password } => sized(username, 1_024) && sized(
                password,
                16_384,
            ),
            Secret::Bearer(token) => sized(token, 65_536),
        }
    }

    /// Why a credential is refused.
    pub open spec fn failure(self) -> Option<SandboxFailure> {
        checks::or(
            checks::when(
                !self.scope_valid(),
                SandboxFailure::ImageProvider("registry credential scope is invalid"@),
            ),
            checks::when(
                !self.secret_valid(),
                SandboxFailure::ImageProvider("registry credential secret is invalid"@),
            ),
        )
    }

    /// Docker Hub answers under two names; every other registry has one.
    pub open spec fn serves(self, registry: Seq<char>) -> bool {
        self.registry == registry || (self.registry == "docker.io"@ && registry
            == "index.docker.io"@)
    }

    /// The value of the `Authorization` header.
    pub open spec fn header(self) -> Seq<char> {
        match self.secret {
            Secret::Basic { username, password } => "Basic "@ + base64_text(
                text::utf8(username + ":"@ + password),
            ),
            Secret::Bearer(token) => "Bearer "@ + token,
        }
    }

    /// The credential in words.
    pub open spec fn description(self) -> Seq<char> {
        "RegistryCredential { tenant: "@ + quoted(self.tenant) + ", registry: "@ + quoted(
            self.registry,
        ) + ", secret: \"[redacted]\" }"@
    }
}

impl RegistryCredential {
    /// A credential with a user name and a password.
    pub fn basic(tenant: String, registry: String, username: String, password: String) -> (r:
        Result<Self, SandboxError>)
        ensures
            ({
                let asked = Credential {
                    tenant: tenant@,
                    registry: registry@,
                    secret: Secret::Basic { username: username@, password: password@ },
                };
                match r {
                    Ok(credential) => asked.failure() is None && credential@ == asked,
                    Err(error) => asked.failure() == Some(error@),
                }
            }),
    {
        let credential = RegistryCredential {
            tenant,
            registry,
            secret: RegistrySecret::Basic { username, password },
        };
        match credential.validate() {
            Ok(()) => Ok(credential),
            Err(error) => Err(error),
        }
    }

    /// A credential with a bearer token.
    pub fn bearer(tenant: String, registry: String, token: String) -> (r: Result<
        Self,
        SandboxError,
    >)
        ensures
            ({
                let asked = Credential {
                    tenant: tenant@,
                    registry: registry@,
                    secret: Secret::Bearer(token@),
                };
                match r {
                    Ok(credential) => asked.failure() is None && credential@ == asked,
                    Err(error) => asked.failure() == Some(error@),
                }
            }),
    {
        let credential = RegistryCredential {
            tenant,
            registry,
            secret: RegistrySecret::Bearer(token),
        };
        match credential.validate() {
            Ok(()) => Ok(credential),
            Err(error) => Err(error),
        }
    }

    fn validate(&self) -> (r: Result<(), SandboxError>)
        ensures
            error::outcome(r) == checks::verdict(self@.failure()),
    {
        if !is_sized(self.tenant.as_str(), 128) || !is_sized(self.registry.as_str(), 255)
            || !text::all_bytes(self.registry.as_str(), Alphabet::Registry) {
            return Err(
                SandboxError::ImageProvider("registry credential scope is invalid".to_owned()),
            );
        }
        let valid = match &self.secret {
            RegistrySecret::Basic { username, password } => is_sized(username.as_str(), 1_024)
                && is_sized(password.as_str(), 16_384),
            RegistrySecret::Bearer(token) => is_sized(token.as_str(), 65_536),
        };
        if !valid {
            return Err(
                SandboxError::ImageProvider("registry credential secret is invalid".to_owned()),
            );
        }
        Ok(())
    }

    /// Refuses to show the credential to another registry than its own.
    pub fn ensure_registry(&self, registry: &str) -> (r: Result<(), SandboxError>)
        ensures
            error::outcome(r) == checks::verdict(
                checks::when(
                    !self@.serves(registry@),
                    SandboxFailure::ImageProvider(
                        "registry credential does not match the image registry"@,
                    ),
                ),
            ),
    {
        if !text::same(self.registry.as_str(), registry) && !(text::same(
            self.registry.as_str(),
            "docker.io",
        ) && text::same(registry, "index.docker.io")) {
            return Err(
                SandboxError::ImageProvider(
                    "registry credential does not match the image registry".to_owned(),
                ),
            );
        }
        Ok(())
    }

    /// The value of the `Authorization` header.
    pub fn authorization_header(&self) -> (r: String)
        ensures
            r@ == self@.header(),
    {
        match &self.secret {
            RegistrySecret::Basic { username, password } => {
                let pair = join3(username.as_str(), ":", password.as_str());
                let encoded = encode_base64(pair.as_str().as_bytes());
                join2("Basic ", encoded.as_str())
            },
            RegistrySecret::Bearer(token) => join2("Bearer ", token.as_str()),
        }
    }

    /// The credential in words, without its secret.
    pub fn describe(&self) -> (r: String)
        ensures
            r@ == self@.description(),
    {
        let tenant = quote(self.tenant.as_str());
        let registry = quote(self.registry.as_str());
        join5(
            "RegistryCredential { tenant: ",
            tenant.as_str(),
            ", registry: ",
            registry.as_str(),
            ", secret: \"[redacted]\" }",
        )
    }
}

/// A description tells nothing of the secret: credentials of one scope read alike.
pub proof fn law_description_hides_the_secret(left: Credential, right: Credential)
    requires
        left.tenant == right.tenant,
        left.registry == right.registry,
    ensures
        left.description() == right.description(),
{
}

/// A credential serves its own registry, and one that serves two registries is that of
/// Docker Hub.
pub proof fn law_credentials_are_scoped(credential: Credential, left: Seq<char>, right: Seq<char>)
    ensures
        credential.serves(credential.registry),
        credential.serves(left) && credential.serves(right) && left != right
            ==> credential.registry == "docker.io"@,
{
}

/// A credential is accepted exactly where its tenant has 1 to 128 bytes, its registry 1 to 255
/// letters, digits, `.`, `-`, `:` and `_`, and its secret is neither empty nor too long.
pub proof fn law_accepted_credentials_are_bounded(credential: Credential)
    ensures
        credential.failure() is None <==> {
            let registry = text::utf8(credential.registry);
            &&& 1 <= text::utf8(credential.tenant).len() <= 128
            &&& 1 <= registry.len() <= 255
            &&& forall|i: int|
                0 <= i < registry.len() ==> 'a' as u8 <= (#[trigger] registry[i]) <= 'z' as u8
                    || 'A' as u8 <= registry[i] <= 'Z' as u8 || '0' as u8 <= registry[i] <= '9' as u8
                    || registry[i] == '.' as u8 || registry[i] == '-' as u8 || registry[i]
                    == ':' as u8 || registry[i] == '_' as u8
            &&& match credential.secret {
                Secret::Basic { username, password } => 1 <= text::utf8(username).len() <= 1_024 && 1
                    <= text::utf8(password).len() <= 16_384,
                Secret::Bearer(token) => 1 <= text::utf8(token).len() <= 65_536,
            }
        },
{
    let registry = text::utf8(credential.registry);
    assert forall|i: int| 0 <= i < registry.len() implies (Alphabet::Registry.admits(
        #[trigger] registry[i],
    ) <==> 'a' as u8 <= registry[i] <= 'z' as u8 || 'A' as u8 <= registry[i] <= 'Z' as u8
        || '0' as u8 <= registry[i] <= '9' as u8 || registry[i] == '.' as u8 || registry[i]
        == '-' as u8 || registry[i] == ':' as u8 || registry[i] == '_' as u8) by {}
}

/// A credential serves the registry that it is for and no other, but that Docker Hub has two names.
pub proof fn law_credentials_serve_their_registry(credential: Credential, registry: Seq<char>)
    ensures
        credential.serves(credential.registry),
        credential.registry == "docker.io"@ ==> credential.serves("index.docker.io"@),
        credential.serves(registry) && registry != credential.registry ==> credential.registry
            == "docker.io"@ && registry == "index.docker.io"@,
{
}

/// The header of a token is the token behind `Bearer`, and that of a user the encoded name and
/// password behind `Basic`, with a colon between them.
pub proof fn law_headers_carry_their_secret(credential: Credential)
    ensures
        credential.secret matches Secret::Bearer(token) ==> credential.header() == "Bearer "@ + token,
        credential.secret matches Secret::Basic { username, password } ==> credential.header()
            == "Basic "@ + base64_text(text::utf8(username + ":"@ + password)),
{
}

/// A credential is refused for its scope first, and else for its secret.
pub proof fn law_refused_credentials_say_why(credential: Credential)
    ensures
        !credential.scope_valid() ==> credential.failure() == Some(
            SandboxFailure::ImageProvider("registry credential scope is invalid"@),
        ),
        credential.scope_valid() && !credential.secret_valid() ==> credential.failure() == Some(
            SandboxFailure::ImageProvider("registry credential secret is invalid"@),
        ),
{
}

} // verus!

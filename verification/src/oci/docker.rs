//! The local Docker client: how it is called and how its answers are read.

use crate::checks;
use crate::lines;
use crate::lines::{chars_of, lossy_text, text_of, trim};
use crate::oci::error;
use crate::oci::error::{SandboxError, SandboxFailure};
use crate::oci::provider::config;
use crate::oci::provider::config::absolute;
use crate::oci::provider::content;
use crate::oci::provider::content::exit_text;
use crate::text;
use crate::text::{decimal_text, join2, join5};
use vstd::prelude::*;

verus! {

/// The Docker client.
#[derive(Debug, Clone)]
pub struct Docker {
    program: String,
}

/// What the client says of an image.
#[derive(Debug, PartialEq, Eq)]
pub struct ImageInspect {
    pub id: String,
    pub repo_digests: Vec<String>,
    pub os: String,
    pub architecture: String,
}

/// Words with a space between each two.
pub open spec fn spaced(words: Seq<Seq<char>>) -> Seq<char>
    decreases words.len(),
{
    if words.len() == 0 {
        Seq::empty()
    } else if words.len() == 1 {
        words[0]
    } else {
        spaced(words.drop_last()) + " "@ + words.last()
    }
}

/// Joins words with spaces.
pub fn join_words(words: &Vec<String>) -> (r: String)
    ensures
        r@ == spaced(text::texts(words@)),
{
    let ghost all = text::texts(words@);
    let mut line = String::new();
    let mut i: usize = 0;
    proof {
        assert(all.take(0) =~= Seq::<Seq<char>>::empty());
    }
    while i < words.len()
        invariant
            i <= words@.len(),
            all == text::texts(words@),
            line@ == spaced(all.take(i as int)),
        decreases words@.len() - i,
    {
        proof {
            assert(all.take(i + 1).drop_last() =~= all.take(i as int));
            assert(all.take(i + 1).last() == words@[i as int]@);
        }
        if i > 0 {
            line.append(" ");
            line.append(words[i].as_str());
        } else {
            line.append(words[i].as_str());
            proof {
                assert(line@ =~= all[0]);
            }
        }
        i += 1;
    }
    proof {
        assert(all.take(all.len() as int) =~= all);
    }
    line
}

/// Why a command of the client failed, from its decoded diagnostics.
pub open spec fn command_failure(
    arguments: Seq<Seq<char>>,
    code: Option<i32>,
    diagnostics: Seq<char>,
) -> Option<SandboxFailure> {
    checks::when(
        code != Some(0i32),
        SandboxFailure::Docker(
            ("`docker "@ + spaced(arguments) + "` exited "@ + content::status_text(code) + ": "@)
                + lines::trimmed(diagnostics),
        ),
    )
}

/// Accepts a command that exited with success, given its decoded diagnostics.
pub fn judge_command(arguments: &Vec<String>, code: Option<i32>, diagnostics: &str) -> (r: Result<
    (),
    SandboxError,
>)
    ensures
        error::outcome(r) == checks::verdict(
            command_failure(text::texts(arguments@), code, diagnostics@),
        ),
{
    match code {
        Some(0) => Ok(()),
        _ => {
            let line = join_words(arguments);
            let status = exit_text(code);
            let chars = chars_of(diagnostics);
            let detail = text_of(trim(chars.as_slice()));
            let mut message = join5("`docker ", line.as_str(), "` exited ", status.as_str(), ": ");
            message.append(detail.as_str());
            Err(SandboxError::Docker(message))
        },
    }
}

/// Why the client is refused.
pub open spec fn client_failure(program: Seq<char>, is_file: bool) -> Option<SandboxFailure> {
    checks::or(
        checks::when(
            !config::is_absolute(program),
            SandboxFailure::Docker("Docker program must be an absolute path"@),
        ),
        checks::when(!is_file, SandboxFailure::Docker("Docker program is not a file"@)),
    )
}

impl Docker {
    /// The resolved path of the client.
    pub closed spec fn path(self) -> Seq<char> {
        self.program@
    }

    /// The client at `program`, which resolves to `canonical`.
    pub fn new(program: &str, canonical: String, is_file: bool) -> (r: Result<Self, SandboxError>)
        ensures
            match r {
                Ok(docker) => client_failure(program@, is_file) is None && docker.path()
                    == canonical@,
                Err(error) => client_failure(program@, is_file) == Some(error@),
            },
    {
        if !absolute(program) {
            return Err(SandboxError::Docker("Docker program must be an absolute path".to_owned()));
        }
        if !is_file {
            return Err(SandboxError::Docker("Docker program is not a file".to_owned()));
        }
        Ok(Docker { program: canonical })
    }

    pub fn program(&self) -> (r: &str)
        ensures
            r@ == self.path(),
    {
        self.program.as_str()
    }

    /// The arguments that ask for the version of the server.
    pub fn version_arguments(&self) -> (r: Vec<String>)
        ensures
            text::texts(r@) == seq!["version"@, "--format"@, "{{.Server.Version}}"@],
    {
        let parts = vec!["version", "--format", "{{.Server.Version}}"];
        proof {
            assert(text::borrowed(parts@) =~= seq![
                "version"@,
                "--format"@,
                "{{.Server.Version}}"@,
            ]);
        }
        text::owned(parts)
    }

    /// The arguments that ask about an image.
    pub fn inspect_arguments(&self, reference: &str) -> (r: Vec<String>)
        ensures
            text::texts(r@) == seq!["image"@, "inspect"@, reference@],
    {
        let parts = vec!["image", "inspect", reference];
        proof {
            assert(text::borrowed(parts@) =~= seq!["image"@, "inspect"@, reference@]);
        }
        text::owned(parts)
    }

    /// Accepts a command that exited with success.
    pub fn checked(&self, arguments: &Vec<String>, code: Option<i32>, stderr: &[u8]) -> (r: Result<
        (),
        SandboxError,
    >)
        ensures
            error::outcome(r) == checks::verdict(
                command_failure(text::texts(arguments@), code, lines::lossy(stderr@)),
            ),
    {
        let diagnostics = lossy_text(stderr);
        judge_command(arguments, code, diagnostics.as_str())
    }

    /// The one record that the client has of an image.
    pub fn image_inspect(&self, reference: &str, images: Vec<ImageInspect>) -> (r: Result<
        ImageInspect,
        SandboxError,
    >)
        ensures
            match r {
                Ok(image) => images@.len() == 1 && image == images@[0],
                Err(error) => images@.len() != 1 && error@ == SandboxFailure::Docker(
                    "image `"@ + reference@ + "` resolved to "@ + text::decimal(images@.len())
                        + " records"@,
                ),
            },
    {
        let mut images = images;
        if images.len() != 1 {
            let count = decimal_text(images.len() as u64);
            return Err(
                SandboxError::Docker(
                    join5("image `", reference, "` resolved to ", count.as_str(), " records"),
                ),
            );
        }
        Ok(images.remove(0))
    }

    /// A command that took too long.
    pub fn timeout_error(&self, arguments: &Vec<String>) -> (r: SandboxError)
        ensures
            r@ == SandboxFailure::Timeout("docker "@ + spaced(text::texts(arguments@))),
    {
        let line = join_words(arguments);
        SandboxError::Timeout(join2("docker ", line.as_str()))
    }
}

/// A command succeeds exactly where it exits with zero, and a client is used exactly where its path
/// is absolute and leads to a file.
pub proof fn law_docker_commands_exit_with_zero(
    arguments: Seq<Seq<char>>,
    code: Option<i32>,
    diagnostics: Seq<char>,
    program: Seq<char>,
    is_file: bool,
)
    ensures
        command_failure(arguments, code, diagnostics) is None <==> code == Some(0i32),
        client_failure(program, is_file) is None <==> is_file && text::utf8(program).len() > 0
            && text::utf8(program)[0] == '/' as u8,
{
}

/// Words are written with one space between.
pub proof fn law_words_have_one_space_between(words: Seq<Seq<char>>, word: Seq<char>)
    ensures
        spaced(Seq::<Seq<char>>::empty()).len() == 0,
        spaced(seq![word]) == word,
        words.len() > 0 ==> spaced(words.push(word)) == spaced(words) + seq![' '] + word,
{
    reveal_strlit(" ");
    assert(words.push(word).drop_last() =~= words);
    assert(" "@ =~= seq![' ']);
}

/// A command that failed is told with its words, how it exited, and what it printed.
pub proof fn law_failed_docker_commands_tell_why(
    arguments: Seq<Seq<char>>,
    code: Option<i32>,
    diagnostics: Seq<char>,
    program: Seq<char>,
    is_file: bool,
)
    ensures
        code != Some(0i32) ==> command_failure(arguments, code, diagnostics) == Some(
            SandboxFailure::Docker(
                "`docker "@ + spaced(arguments) + "` exited "@ + content::status_text(code) + ": "@
                    + lines::trimmed(diagnostics),
            ),
        ),
        !config::is_absolute(program) ==> client_failure(program, is_file) == Some(
            SandboxFailure::Docker("Docker program must be an absolute path"@),
        ),
        config::is_absolute(program) && !is_file ==> client_failure(program, is_file) == Some(
            SandboxFailure::Docker("Docker program is not a file"@),
        ),
{
}

} // verus!

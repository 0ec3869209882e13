//! Bounded, verified reading of command output and image content.

use crate::checks;
use crate::digest;
use crate::digest::Hasher;
use crate::lines;
use crate::lines::{chars_of, lossy_text, text_of, trim};
use crate::oci::error;
use crate::oci::error::{SandboxError, SandboxFailure};
use crate::text;
use crate::text::{decimal_text, join3, join5};
use vstd::prelude::*;

verus! {

/// The smaller of two lengths.
pub open spec fn least(left: nat, right: nat) -> nat {
    if left <= right {
        left
    } else {
        right
    }
}

/// Output of which no more than `maximum` bytes are kept. The view is all that came.
pub struct BoundedCapture {
    captured: Vec<u8>,
    truncated: bool,
    maximum: usize,
    stream: Ghost<Seq<u8>>,
}

impl View for BoundedCapture {
    type V = Seq<u8>;

    closed spec fn view(&self) -> Seq<u8> {
        self.stream@
    }
}

impl BoundedCapture {
    #[verifier::type_invariant]
    closed spec fn well_formed(self) -> bool {
        &&& self.captured@ == self.stream@.take(least(self.maximum as nat, self.stream@.len()) as int)
        &&& self.truncated == (self.stream@.len() > self.maximum)
    }

    pub closed spec fn limit(self) -> nat {
        self.maximum as nat
    }

    pub fn new(maximum: usize) -> (r: Self)
        ensures
            r@ == Seq::<u8>::empty(),
            r.limit() == maximum,
    {
        proof {
            assert(Seq::<u8>::empty().take(0) =~= Seq::<u8>::empty());
        }
        BoundedCapture {
            captured: Vec::new(),
            truncated: false,
            maximum,
            stream: Ghost(Seq::empty()),
        }
    }

    /// Takes what was read, and keeps what still fits.
    pub fn push(self, chunk: &[u8]) -> (r: Self)
        ensures
            r@ == self@ + chunk@,
            r.limit() == self.limit(),
    {
        proof {
            use_type_invariant(&self);
        }
        let BoundedCapture { mut captured, truncated, maximum, stream } = self;
        let ghost all = stream@ + chunk@;
        let ghost kept = captured@;
        let remaining: usize = maximum - captured.len();
        let retained: usize = if remaining < chunk.len() {
            remaining
        } else {
            chunk.len()
        };
        let fitting = vstd::slice::slice_subrange(chunk, 0, retained);
        captured.extend_from_slice(fitting);
        proof {
            assert(captured@ =~= kept + chunk@.take(retained as int));
            assert(captured@ =~= all.take(least(maximum as nat, all.len()) as int));
        }
        BoundedCapture {
            captured,
            truncated: truncated || retained != chunk.len(),
            maximum,
            stream: Ghost(all),
        }
    }

    /// What was kept, and whether more had come.
    pub fn finish(self) -> (r: (Vec<u8>, bool))
        ensures
            r.0@ == self@.take(least(self.limit(), self@.len()) as int),
            r.1 == (self@.len() > self.limit()),
    {
        proof {
            use_type_invariant(&self);
        }
        (self.captured, self.truncated)
    }
}

/// The identity and the size of content that was read.
#[derive(Debug, PartialEq, Eq)]
pub struct BlobDigest {
    pub digest: String,
    pub bytes: u64,
}

/// Content that is counted and hashed as it passes. The view is all that passed.
pub struct ContentMeter {
    hasher: Hasher,
    bytes: u64,
    maximum: u64,
}

impl View for ContentMeter {
    type V = Seq<u8>;

    closed spec fn view(&self) -> Seq<u8> {
        digest::absorbed(self.hasher)
    }
}

/// Why content that has grown to `length` bytes is refused.
pub open spec fn stream_failure(length: nat, maximum: u64) -> Option<Seq<char>> {
    checks::or(
        checks::when(length > u64::MAX, "content size overflow"@),
        checks::when(length > maximum, "content stream exceeded its byte limit"@),
    )
}

impl ContentMeter {
    #[verifier::type_invariant]
    closed spec fn well_formed(self) -> bool {
        &&& self.bytes == digest::absorbed(self.hasher).len()
        &&& self.bytes <= self.maximum
    }

    pub closed spec fn limit(self) -> u64 {
        self.maximum
    }

    pub fn new(maximum: u64) -> (r: Self)
        ensures
            r@ == Seq::<u8>::empty(),
            r.limit() == maximum,
    {
        ContentMeter { hasher: Hasher::new(), bytes: 0, maximum }
    }

    /// Lets what was read pass, or says why it does not fit.
    pub fn push(self, chunk: &[u8]) -> (r: Result<Self, String>)
        ensures
            match r {
                Ok(meter) => {
                    &&& stream_failure((self@ + chunk@).len(), self.limit()) is None
                    &&& meter@ == self@ + chunk@
                    &&& meter.limit() == self.limit()
                },
                Err(reason) => stream_failure((self@ + chunk@).len(), self.limit()) == Some(
                    reason@,
                ),
            },
    {
        proof {
            use_type_invariant(&self);
        }
        let ContentMeter { mut hasher, bytes, maximum } = self;
        let next: u64 = match bytes.checked_add(chunk.len() as u64) {
            Some(next) => next,
            None => return Err("content size overflow".to_owned()),
        };
        if next > maximum {
            return Err("content stream exceeded its byte limit".to_owned());
        }
        hasher.update(chunk);
        Ok(ContentMeter { hasher, bytes: next, maximum })
    }

    /// The identity and the size of what passed.
    pub fn finish(self) -> (r: BlobDigest)
        ensures
            r.digest@ == digest::identity_text(self@),
            r.bytes == self@.len(),
            r.bytes <= self.limit(),
    {
        proof {
            use_type_invariant(&self);
        }
        BlobDigest { digest: self.hasher.identity(), bytes: self.bytes }
    }
}

/// Metadata that is kept while it is read, up to a limit.
pub struct MetadataBuffer {
    retained: Vec<u8>,
    maximum: u64,
}

impl View for MetadataBuffer {
    type V = Seq<u8>;

    closed spec fn view(&self) -> Seq<u8> {
        self.retained@
    }
}

/// Why metadata that has grown to `length` bytes is refused.
pub open spec fn metadata_stream_failure(length: nat, maximum: u64) -> Option<SandboxFailure> {
    checks::or(
        checks::when(
            length > usize::MAX,
            SandboxFailure::ImageProvider("metadata size overflow"@),
        ),
        checks::when(
            length > maximum,
            SandboxFailure::ImageProvider("metadata stream exceeded its byte limit"@),
        ),
    )
}

impl MetadataBuffer {
    pub closed spec fn limit(self) -> u64 {
        self.maximum
    }

    pub fn new(maximum: u64) -> (r: Self)
        ensures
            r@ == Seq::<u8>::empty(),
            r.limit() == maximum,
    {
        MetadataBuffer { retained: Vec::new(), maximum }
    }

    /// Keeps what was read, or refuses it.
    pub fn push(&mut self, chunk: &[u8]) -> (r: Result<(), SandboxError>)
        ensures
            error::outcome(r) == checks::verdict(
                metadata_stream_failure((old(self)@ + chunk@).len(), old(self).limit()),
            ),
            final(self).limit() == old(self).limit(),
            r is Ok ==> final(self)@ == old(self)@ + chunk@,
            r is Err ==> final(self)@ == old(self)@,
    {
        let next: usize = match self.retained.len().checked_add(chunk.len()) {
            Some(next) => next,
            None => {
                return Err(SandboxError::ImageProvider("metadata size overflow".to_owned()));
            },
        };
        if next as u64 > self.maximum {
            return Err(
                SandboxError::ImageProvider("metadata stream exceeded its byte limit".to_owned()),
            );
        }
        let ghost before = self.retained@;
        self.retained.extend_from_slice(chunk);
        proof {
            assert(self.retained@ =~= before + chunk@);
        }
        Ok(())
    }

    /// What was kept.
    pub fn finish(self) -> (r: Vec<u8>)
        ensures
            r@ == self@,
    {
        self.retained
    }
}

/// Why content is refused before it is read.
pub open spec fn oversize_failure(digest: Seq<char>, expected: u64, maximum: u64) -> Option<
    SandboxFailure,
> {
    checks::when(
        expected > maximum,
        SandboxFailure::ImageProvider("content `"@ + digest + "` exceeds its byte limit"@),
    )
}

/// Refuses content that is announced larger than its limit.
pub fn check_announced(digest: &str, expected: u64, maximum: u64) -> (r: Result<(), SandboxError>)
    ensures
        error::outcome(r) == checks::verdict(oversize_failure(digest@, expected, maximum)),
{
    if expected > maximum {
        return Err(
            SandboxError::ImageProvider(join3("content `", digest, "` exceeds its byte limit")),
        );
    }
    Ok(())
}

/// Why content is not what its digest names.
pub open spec fn digest_failure(digest: Seq<char>, bytes: Seq<u8>) -> Option<SandboxFailure> {
    checks::when(
        digest::identity_text(bytes) != digest,
        SandboxFailure::ImageProvider("content `"@ + digest + "` failed digest verification"@),
    )
}

/// Accepts the content that its digest names.
pub fn check_content(digest: &str, bytes: &[u8]) -> (r: Result<(), SandboxError>)
    ensures
        error::outcome(r) == checks::verdict(digest_failure(digest@, bytes@)),
{
    let observed = digest::identity(bytes);
    if !text::same(observed.as_str(), digest) {
        return Err(
            SandboxError::ImageProvider(
                join3("content `", digest, "` failed digest verification"),
            ),
        );
    }
    Ok(())
}

/// Why content is not what its descriptor announced.
pub open spec fn content_failure(digest: Seq<char>, expected: u64, bytes: Seq<u8>) -> Option<
    SandboxFailure,
> {
    checks::or(
        digest_failure(digest, bytes),
        checks::when(
            bytes.len() != expected,
            SandboxFailure::ImageProvider("content `"@ + digest + "` failed size verification"@),
        ),
    )
}

/// Accepts the content that a descriptor announced.
pub fn verified_content(digest: &str, expected: u64, bytes: &[u8]) -> (r: Result<(), SandboxError>)
    ensures
        error::outcome(r) == checks::verdict(content_failure(digest@, expected, bytes@)),
{
    match check_content(digest, bytes) {
        Ok(()) => {},
        Err(error) => return Err(error),
    }
    if bytes.len() as u64 != expected {
        return Err(
            SandboxError::ImageProvider(join3("content `", digest, "` failed size verification")),
        );
    }
    Ok(())
}

/// Why inspected content is not what its descriptor announced.
pub open spec fn inspection_failure(
    digest: Seq<char>,
    expected: u64,
    observed: Seq<char>,
    bytes: u64,
) -> Option<SandboxFailure> {
    checks::when(
        bytes != expected || observed != digest,
        SandboxFailure::ImageProvider(
            "content `"@ + digest + "` failed digest or size verification"@,
        ),
    )
}

/// Accepts content that was inspected as it passed.
pub fn check_inspected(digest: &str, expected: u64, observed: &BlobDigest) -> (r: Result<
    (),
    SandboxError,
>)
    ensures
        error::outcome(r) == checks::verdict(
            inspection_failure(digest@, expected, observed.digest@, observed.bytes),
        ),
{
    if observed.bytes != expected || !text::same(observed.digest.as_str(), digest) {
        return Err(
            SandboxError::ImageProvider(
                join3("content `", digest, "` failed digest or size verification"),
            ),
        );
    }
    Ok(())
}

/// An exit status in debug notation: `None` for a signal.
pub open spec fn status_text(code: Option<i32>) -> Seq<char> {
    match code {
        None => "None"@,
        Some(value) => if value < 0 {
            "Some(-"@ + text::decimal((-value) as nat) + ")"@
        } else {
            "Some("@ + text::decimal(value as nat) + ")"@
        },
    }
}

/// Writes an exit status in debug notation.
pub fn exit_text(code: Option<i32>) -> (r: String)
    ensures
        r@ == status_text(code),
{
    match code {
        None => "None".to_owned(),
        Some(value) => {
            let wide: i64 = value as i64;
            if wide < 0 {
                let digits = decimal_text((-wide) as u64);
                join3("Some(-", digits.as_str(), ")")
            } else {
                let digits = decimal_text(wide as u64);
                join3("Some(", digits.as_str(), ")")
            }
        },
    }
}

/// Why a command failed, from its decoded diagnostics.
pub open spec fn command_failure(
    code: Option<i32>,
    operation: Seq<char>,
    diagnostics: Seq<char>,
    truncated: bool,
) -> Option<SandboxFailure> {
    checks::when(
        code != Some(0i32),
        SandboxFailure::ImageProvider(
            operation + " exited "@ + status_text(code) + ": "@ + (lines::trimmed(diagnostics) + (
            if truncated {
                " [truncated]"@
            } else {
                ""@
            })),
        ),
    )
}

/// Accepts a command that exited with success, given its decoded diagnostics.
pub fn judge_command(code: Option<i32>, operation: &str, diagnostics: &str, truncated: bool) -> (r:
    Result<(), SandboxError>)
    ensures
        error::outcome(r) == checks::verdict(
            command_failure(code, operation@, diagnostics@, truncated),
        ),
{
    match code {
        Some(0) => Ok(()),
        _ => {
            let chars = chars_of(diagnostics);
            let mut detail = text_of(trim(chars.as_slice()));
            if truncated {
                detail.append(" [truncated]");
            } else {
                detail.append("");
            }
            let status = exit_text(code);
            Err(
                SandboxError::ImageProvider(
                    join5(operation, " exited ", status.as_str(), ": ", detail.as_str()),
                ),
            )
        },
    }
}

/// Accepts a command that exited with success.
pub fn ensure_success(code: Option<i32>, operation: &str, stderr: &[u8], truncated: bool) -> (r:
    Result<(), SandboxError>)
    ensures
        error::outcome(r) == checks::verdict(
            command_failure(code, operation@, lines::lossy(stderr@), truncated),
        ),
{
    let diagnostics = lossy_text(stderr);
    judge_command(code, operation, diagnostics.as_str(), truncated)
}

/// A capture keeps a prefix of what came, of at most its limit, and says whether it is all.
pub proof fn law_capture_is_a_bounded_prefix(stream: Seq<u8>, limit: nat)
    ensures
        stream.take(least(limit, stream.len()) as int).len() <= limit,
        !(stream.len() > limit) ==> stream.take(least(limit, stream.len()) as int) == stream,
{
}

/// Content that a descriptor vouches for hashes to the descriptor's digest.
pub proof fn law_verified_content_is_named_by_its_digest(
    digest: Seq<char>,
    expected: u64,
    bytes: Seq<u8>,
)
    requires
        content_failure(digest, expected, bytes) is None,
    ensures
        digest == digest::identity_text(bytes),
        bytes.len() == expected,
{
}

/// Content passes exactly up to its limit.
pub proof fn law_streams_are_bounded(length: nat, maximum: u64)
    ensures
        stream_failure(length, maximum) is None <==> length <= maximum,
        metadata_stream_failure(length, maximum) is None <==> length <= maximum && length
            <= usize::MAX,
{
}

/// Content is announced, verified and inspected exactly where it fits its limit, hashes to its
/// digest and has its size.
pub proof fn law_content_is_what_was_announced(
    digest: Seq<char>,
    expected: u64,
    maximum: u64,
    bytes: Seq<u8>,
    observed: Seq<char>,
    counted: u64,
)
    ensures
        oversize_failure(digest, expected, maximum) is None <==> expected <= maximum,
        digest_failure(digest, bytes) is None <==> digest == "sha256:"@ + digest::hex_text(
            digest::sha256_of(bytes),
        ),
        content_failure(digest, expected, bytes) is None <==> digest == "sha256:"@ + digest::hex_text(
            digest::sha256_of(bytes),
        ) && bytes.len() == expected,
        inspection_failure(digest, expected, observed, counted) is None <==> observed == digest
            && counted == expected,
{
}

/// A command succeeds exactly where it exits with zero.
pub proof fn law_commands_exit_with_zero(
    code: Option<i32>,
    operation: Seq<char>,
    diagnostics: Seq<char>,
    truncated: bool,
)
    ensures
        command_failure(code, operation, diagnostics, truncated) is None <==> code == Some(0i32),
{
}

/// An exit code is written as a number with its sign, and its absence as such.
pub proof fn law_exit_codes_are_written_with_their_sign(value: i32)
    ensures
        status_text(None) == "None"@,
        value >= 0 ==> status_text(Some(value)) == "Some("@ + text::decimal(value as nat) + ")"@,
        value < 0 ==> status_text(Some(value)) == "Some(-"@ + text::decimal((0 - value) as nat)
            + ")"@,
{
}

/// Each refusal of content is of its kind.
pub proof fn law_refused_content_says_why(
    length: nat,
    maximum: u64,
    digest: Seq<char>,
    expected: u64,
    bytes: Seq<u8>,
    observed: Seq<char>,
    count: u64,
    code: Option<i32>,
    operation: Seq<char>,
    diagnostics: Seq<char>,
)
    ensures
        maximum < length <= 0xffff_ffff_ffff_ffff ==> stream_failure(length, maximum) == Some(
            "content stream exceeded its byte limit"@,
        ),
        maximum < length <= usize::MAX ==> metadata_stream_failure(length, maximum) == Some(
            SandboxFailure::ImageProvider("metadata stream exceeded its byte limit"@),
        ),
        oversize_failure(digest, expected, maximum) matches Some(failure) ==> failure
            == SandboxFailure::ImageProvider("content `"@ + digest + "` exceeds its byte limit"@),
        digest_failure(digest, bytes) matches Some(failure) ==> failure
            == SandboxFailure::ImageProvider(
            "content `"@ + digest + "` failed digest verification"@,
        ),
        digest_failure(digest, bytes) is Some ==> content_failure(digest, expected, bytes)
            == digest_failure(digest, bytes),
        digest_failure(digest, bytes) is None ==> (content_failure(digest, expected, bytes)
            matches Some(failure) ==> failure == SandboxFailure::ImageProvider(
            "content `"@ + digest + "` failed size verification"@,
        )),
        inspection_failure(digest, expected, observed, count) matches Some(failure) ==> failure
            == SandboxFailure::ImageProvider(
            "content `"@ + digest + "` failed digest or size verification"@,
        ),
        command_failure(code, operation, diagnostics, true) matches Some(failure) ==> failure
            == SandboxFailure::ImageProvider(
            operation + " exited "@ + status_text(code) + ": "@ + (lines::trimmed(diagnostics)
                + " [truncated]"@),
        ),
        command_failure(code, operation, diagnostics, false) matches Some(failure) ==> failure
            == SandboxFailure::ImageProvider(
            operation + " exited "@ + status_text(code) + ": "@ + lines::trimmed(diagnostics),
        ),
{
    reveal_strlit("");
    assert(lines::trimmed(diagnostics) + ""@ =~= lines::trimmed(diagnostics));
}

} // verus!

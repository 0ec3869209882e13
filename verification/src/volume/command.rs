//! Commands that work on volumes, and what is made of their output.

use crate::checks;
use crate::lines;
use crate::lines::{chars_of, lines_of, lossy_text, text_of, trim};
use crate::oci::error;
use crate::oci::provider::content;
use crate::oci::provider::content::BoundedCapture;
use crate::oci::writable::loopback;
use crate::oci::writable::loopback::filled_lines;
use crate::text;
use crate::text::{join2, join3, join5, Alphabet};
use crate::volume::error::{VolumeError, VolumeFailure};
use vstd::prelude::*;

verus! {

/// Output of which a bounded part was kept.
#[derive(Debug)]
pub struct BoundedOutput {
    pub bytes: Vec<u8>,
    pub observed_bytes: usize,
    pub truncated: bool,
}

/// How much of an output is told apart: all up to the limit, and one byte more.
pub open spec fn observed(length: nat, maximum: nat) -> int {
    if length <= maximum {
        length as int
    } else if maximum < usize::MAX {
        maximum as int + 1
    } else {
        usize::MAX as int
    }
}

/// What was read of an output.
pub fn bounded_output(capture: BoundedCapture) -> (r: BoundedOutput)
    requires
        capture.limit() <= usize::MAX,
    ensures
        r.bytes@ == capture@.take(content::least(capture.limit(), capture@.len()) as int),
        r.observed_bytes == observed(capture@.len(), capture.limit()),
        r.truncated == (capture@.len() > capture.limit()),
{
    let ghost stream = capture@;
    let ghost limit = capture.limit();
    let (bytes, truncated) = capture.finish();
    let length: usize = bytes.len();
    let observed_bytes: usize = if truncated && length < usize::MAX {
        length + 1
    } else {
        length
    };
    BoundedOutput { bytes, observed_bytes, truncated }
}

/// What came of reading an output.
#[derive(Debug)]
pub enum Reading {
    Panicked,
    Failed(VolumeError),
    Complete(BoundedOutput),
}

/// What a command that ended printed.
#[derive(Debug)]
pub struct CommandOutput {
    pub code: Option<i32>,
    pub status: String,
    pub stdout: Vec<u8>,
    pub stderr: Vec<u8>,
}

/// How a command ended: its exit code, and its status in words.
#[derive(Debug)]
pub struct Ended {
    pub code: Option<i32>,
    pub status: String,
}

/// Diagnostics as they are shown.
pub open spec fn shown(diagnostics: Seq<char>, truncated: bool) -> Seq<char> {
    lines::trimmed(diagnostics) + (if truncated {
        " [truncated]"@
    } else {
        ""@
    })
}

/// Shows decoded diagnostics.
pub fn show_diagnostics(diagnostics: &str, truncated: bool) -> (r: String)
    ensures
        r@ == shown(diagnostics@, truncated),
{
    let chars = chars_of(diagnostics);
    let mut detail = text_of(trim(chars.as_slice()));
    if truncated {
        detail.append(" [truncated]");
    } else {
        detail.append("");
    }
    detail
}

/// Shows diagnostics.
pub fn format_stderr(stderr: &[u8], truncated: bool) -> (r: String)
    ensures
        r@ == shown(lines::lossy(stderr@), truncated),
{
    let diagnostics = lossy_text(stderr);
    show_diagnostics(diagnostics.as_str(), truncated)
}

/// What a command is refused with whose output outgrew the limit.
pub open spec fn excess(operation: Seq<char>, detail: Seq<char>) -> VolumeFailure {
    VolumeFailure::Invalid(
        operation + " output exceeded its byte limit"@ + (if detail.len() == 0 {
            Seq::empty()
        } else {
            ": "@ + detail
        }),
    )
}

/// Refuses a command whose output outgrew the limit.
pub fn excess_error(operation: &str, detail: &str) -> (r: VolumeError)
    ensures
        r@ == excess(operation@, detail@),
{
    let suffix = if detail.as_bytes().len() == 0 {
        proof {
            lemma_empty(detail@);
        }
        String::new()
    } else {
        proof {
            lemma_empty(detail@);
        }
        join2(": ", detail)
    };
    VolumeError::Invalid(join3(operation, " output exceeded its byte limit", suffix.as_str()))
}

/// A text is empty if and only if its encoding is.
pub proof fn lemma_empty(value: Seq<char>)
    ensures
        (value.len() == 0) == (text::utf8(value).len() == 0),
{
    if value.len() > 0 {
        text::lemma_utf8_injective(value, Seq::empty());
        assert(text::utf8(Seq::<char>::empty()) =~= Seq::<u8>::empty()) by {
            vstd::utf8::is_ascii_chars_encode_utf8(Seq::<char>::empty());
        }
        if text::utf8(value).len() == 0 {
            assert(text::utf8(value) =~= Seq::<u8>::empty());
        }
    } else {
        vstd::utf8::is_ascii_chars_encode_utf8(value);
    }
}

/// Two outputs that together outgrew the limit.
pub open spec fn outgrew(stdout: BoundedOutput, stderr: BoundedOutput, limit: usize) -> bool {
    stdout.observed_bytes + stderr.observed_bytes > limit && limit < usize::MAX
}

/// Why nothing came of a command that was started.
pub open spec fn collection_failure(
    operation: Seq<char>,
    stdout: Reading,
    stderr: Reading,
    ended: Result<Ended, VolumeError>,
    limit: usize,
) -> Option<VolumeFailure> {
    if stdout is Panicked {
        Some(VolumeFailure::Invalid(operation + " stdout reader panicked"@))
    } else if stderr is Panicked {
        Some(VolumeFailure::Invalid(operation + " stderr reader panicked"@))
    } else {
        match (ended, stdout, stderr) {
            (Err(error), _, _) => Some(error@),
            (_, Reading::Failed(error), _) => Some(error@),
            (_, _, Reading::Failed(error)) => Some(error@),
            (Ok(_), Reading::Complete(printed), Reading::Complete(complaint)) => checks::when(
                outgrew(printed, complaint, limit),
                excess(operation, shown(lines::lossy(complaint.bytes@), complaint.truncated)),
            ),
            _ => None,
        }
    }
}

/// Puts together what came of a command that was started.
pub fn collect_output(
    operation: &str,
    stdout: Reading,
    stderr: Reading,
    ended: Result<Ended, VolumeError>,
    limit: usize,
) -> (r: Result<CommandOutput, VolumeError>)
    ensures
        match r {
            Ok(output) => {
                &&& collection_failure(operation@, stdout, stderr, ended, limit) is None
                &&& ended matches Ok(ended) && output.code == ended.code && output.status
                    == ended.status
                &&& stdout matches Reading::Complete(printed) && output.stdout == printed.bytes
                &&& stderr matches Reading::Complete(complaint) && output.stderr == complaint.bytes
            },
            Err(error) => collection_failure(operation@, stdout, stderr, ended, limit) == Some(
                error@,
            ),
        },
{
    let stdout = match stdout {
        Reading::Panicked => {
            return Err(VolumeError::Invalid(join2(operation, " stdout reader panicked")));
        },
        Reading::Failed(error) => Err(error),
        Reading::Complete(printed) => Ok(printed),
    };
    let stderr = match stderr {
        Reading::Panicked => {
            return Err(VolumeError::Invalid(join2(operation, " stderr reader panicked")));
        },
        Reading::Failed(error) => Err(error),
        Reading::Complete(complaint) => Ok(complaint),
    };
    let ended = match ended {
        Ok(ended) => ended,
        Err(error) => return Err(error),
    };
    let stdout = match stdout {
        Ok(printed) => printed,
        Err(error) => return Err(error),
    };
    let stderr = match stderr {
        Ok(complaint) => complaint,
        Err(error) => return Err(error),
    };
    let exceeded = match stdout.observed_bytes.checked_add(stderr.observed_bytes) {
        Some(sum) => sum > limit,
        None => limit < usize::MAX,
    };
    if exceeded {
        let detail = format_stderr(stderr.bytes.as_slice(), stderr.truncated);
        return Err(excess_error(operation, detail.as_str()));
    }
    Ok(
        CommandOutput {
            code: ended.code,
            status: ended.status,
            stdout: stdout.bytes,
            stderr: stderr.bytes,
        },
    )
}

/// What is done next while a command runs.
#[derive(Debug)]
pub enum Wait {
    /// The command has ended.
    Ended,
    /// Look again after a while.
    Pause,
    /// Kill the command and give up.
    Kill(VolumeError),
}

/// What a look at a running command shows.
#[derive(Debug)]
pub enum Polled {
    Ended,
    Running,
    Failed(VolumeError),
}

/// Judges a look at a running command, whose time may be over.
pub fn judge_wait(operation: &str, polled: Polled, expired: bool) -> (r: Wait)
    ensures
        match polled {
            Polled::Ended => r is Ended,
            Polled::Running => if expired {
                r matches Wait::Kill(error) && error@ == VolumeFailure::Timeout(operation@)
            } else {
                r is Pause
            },
            Polled::Failed(cause) => r == Wait::Kill(cause),
        },
{
    match polled {
        Polled::Ended => Wait::Ended,
        Polled::Running => if expired {
            Wait::Kill(VolumeError::Timeout(operation.to_owned()))
        } else {
            Wait::Pause
        },
        Polled::Failed(cause) => Wait::Kill(cause),
    }
}

/// Why a command that ended without success failed.
pub open spec fn status_failure(operation: Seq<char>, status: Seq<char>, stderr: Seq<u8>) ->
    VolumeFailure {
    VolumeFailure::Mount(
        operation + " exited "@ + status + ": "@ + shown(lines::lossy(stderr), false),
    )
}

/// Says why a command that ended without success failed.
pub fn external_status_error(operation: &str, output: &CommandOutput) -> (r: VolumeError)
    ensures
        r@ == status_failure(operation@, output.status@, output.stderr@),
{
    let detail = format_stderr(output.stderr.as_slice(), false);
    VolumeError::Mount(
        join5(operation, " exited ", output.status.as_str(), ": ", detail.as_str()),
    )
}

/// Accepts a command that ended with success.
pub fn judge_command(operation: &str, output: CommandOutput) -> (r: Result<
    CommandOutput,
    VolumeError,
>)
    ensures
        match r {
            Ok(accepted) => accepted == output && output.code == Some(0i32),
            Err(error) => output.code != Some(0i32) && error@ == status_failure(
                operation@,
                output.status@,
                output.stderr@,
            ),
        },
{
    match output.code {
        Some(0) => Ok(output),
        _ => Err(external_status_error(operation, &output)),
    }
}

/// Diagnostics of a file system that was not frozen: the last line names an invalid argument.
pub open spec fn names_invalid_argument(diagnostics: Seq<char>) -> bool {
    let rows = lines::lines(diagnostics);
    rows.len() > 0 && text::finishes_with(
        text::utf8(rows.last()),
        text::utf8(": Invalid argument"@),
    )
}

/// Whether decoded diagnostics are those of a file system that was not frozen.
pub fn reports_thawed(diagnostics: &str) -> (r: bool)
    ensures
        r == names_invalid_argument(diagnostics@),
{
    let chars = chars_of(diagnostics);
    let rows = lines_of(chars.as_slice());
    if rows.len() == 0 {
        proof {
            assert(lines::slices(rows@).len() == 0);
        }
        return false;
    }
    let last = text_of(rows[rows.len() - 1]);
    proof {
        assert(lines::slices(rows@).last() == rows@.last()@);
    }
    text::ends_with(last.as_str(), ": Invalid argument")
}

/// Whether a command to thaw found that there was nothing to thaw.
pub fn is_already_thawed(code: Option<i32>, stderr: &[u8]) -> (r: bool)
    ensures
        r == (code == Some(1i32) && names_invalid_argument(lines::lossy(stderr@))),
{
    match code {
        Some(1) => {
            let diagnostics = lossy_text(stderr);
            reports_thawed(diagnostics.as_str())
        },
        _ => false,
    }
}

/// Accepts a command to thaw that ended with success or had nothing to thaw.
pub fn judge_unfreeze(operation: &str, output: &CommandOutput) -> (r: Result<(), VolumeError>)
    ensures
        error::outcome(r) == checks::verdict(
            checks::when(
                output.code != Some(0i32) && !(output.code == Some(1i32) && names_invalid_argument(
                    lines::lossy(output.stderr@),
                )),
                status_failure(operation@, output.status@, output.stderr@),
            ),
        ),
{
    let success = match output.code {
        Some(0) => true,
        _ => false,
    };
    if success || is_already_thawed(output.code, output.stderr.as_slice()) {
        Ok(())
    } else {
        Err(external_status_error(operation, output))
    }
}

/// `/dev/loop` and a number, in at most 64 bytes.
pub open spec fn is_loop_device(value: Seq<char>) -> bool {
    let bytes = text::utf8(value);
    let prefix = text::utf8("/dev/loop"@);
    &&& text::begins_with(bytes, prefix)
    &&& prefix.len() < bytes.len() <= 64
    &&& text::drawn_from(bytes.skip(prefix.len() as int), Alphabet::Digit)
}

/// Accepts the name of a loop device.
pub fn check_loop_device(value: String) -> (r: Result<String, VolumeError>)
    ensures
        match r {
            Ok(device) => is_loop_device(value@) && device == value,
            Err(error) => !is_loop_device(value@) && error@ == VolumeFailure::Integrity(
                "losetup returned an invalid loop device"@,
            ),
        },
{
    let bytes = value.as_str().as_bytes();
    let prefix = "/dev/loop".as_bytes();
    let length: usize = prefix.len();
    if !text::bytes_begin_with(bytes, prefix) || bytes.len() == length || bytes.len() > 64 {
        return Err(VolumeError::Integrity("losetup returned an invalid loop device".to_owned()));
    }
    let number = vstd::slice::slice_subrange(bytes, length, bytes.len());
    proof {
        assert(number@ =~= bytes@.skip(length as int));
    }
    if !text::bytes_drawn_from(number, Alphabet::Digit) {
        return Err(VolumeError::Integrity("losetup returned an invalid loop device".to_owned()));
    }
    Ok(value)
}

/// Reads the loop device that was printed.
pub fn parse_loop_device(output: &[u8]) -> (r: Result<String, VolumeError>)
    ensures
        match r {
            Ok(device) => device@ == lines::trimmed(lines::lossy(output@)) && is_loop_device(
                device@,
            ),
            Err(error) => !is_loop_device(lines::trimmed(lines::lossy(output@))) && error@
                == VolumeFailure::Integrity("losetup returned an invalid loop device"@),
        },
{
    let decoded = lossy_text(output);
    let chars = chars_of(decoded.as_str());
    check_loop_device(text_of(trim(chars.as_slice())))
}

/// The names of the devices in the lines of a listing.
pub open spec fn device_names(rows: Seq<Seq<char>>) -> Seq<Seq<char>> {
    Seq::new(rows.len(), |i: int| lines::trimmed(rows[i]))
}

/// Reads the loop devices that were listed, one to the line.
pub fn read_devices(listing: &str) -> (r: Result<Vec<String>, VolumeError>)
    ensures
        ({
            let names = device_names(loopback::filled(lines::lines(listing@)));
            match r {
                Ok(devices) => text::texts(devices@) == names && forall|i: int|
                    0 <= i < names.len() ==> is_loop_device(#[trigger] names[i]),
                Err(error) => error@ == VolumeFailure::Integrity(
                    "losetup returned an invalid loop device"@,
                ) && exists|i: int| 0 <= i < names.len() && !is_loop_device(#[trigger] names[i]),
            }
        }),
{
    let rows = filled_lines(listing);
    let ghost names = device_names(loopback::filled(lines::lines(listing@)));
    let mut devices: Vec<String> = Vec::new();
    let mut i: usize = 0;
    while i < rows.len()
        invariant
            i <= rows@.len(),
            text::texts(rows@) == loopback::filled(lines::lines(listing@)),
            names == device_names(loopback::filled(lines::lines(listing@))),
            devices@.len() == i,
            forall|j: int| 0 <= j < i ==> (#[trigger] devices@[j])@ == names[j],
            forall|j: int| 0 <= j < i ==> is_loop_device(#[trigger] names[j]),
        decreases rows@.len() - i,
    {
        let chars = chars_of(rows[i].as_str());
        proof {
            assert(text::texts(rows@)[i as int] == rows@[i as int]@);
            assert(names[i as int] == lines::trimmed(rows@[i as int]@));
        }
        match check_loop_device(text_of(trim(chars.as_slice()))) {
            Ok(device) => devices.push(device),
            Err(error) => return Err(error),
        }
        i += 1;
    }
    proof {
        assert(text::texts(rows@).len() == rows@.len());
        assert(text::texts(devices@) =~= names);
    }
    Ok(devices)
}

/// Reads the loop devices that were listed for the file of a volume.
pub fn associated_loop_devices(output: &[u8]) -> (r: Result<Vec<String>, VolumeError>)
    ensures
        ({
            let names = device_names(loopback::filled(lines::lines(lines::lossy(output@))));
            match r {
                Ok(devices) => text::texts(devices@) == names && forall|i: int|
                    0 <= i < names.len() ==> is_loop_device(#[trigger] names[i]),
                Err(error) => error@ == VolumeFailure::Integrity(
                    "losetup returned an invalid loop device"@,
                ) && exists|i: int| 0 <= i < names.len() && !is_loop_device(#[trigger] names[i]),
            }
        }),
{
    let listing = lossy_text(output);
    read_devices(listing.as_str())
}

/// The arguments that copy a backing file, holes and all.
pub fn copy_arguments(source: &str, destination: &str) -> (r: Vec<String>)
    ensures
        text::texts(r@) == seq![
            "--sparse=always"@,
            "--reflink=auto"@,
            source@,
            destination@,
        ],
{
    let parts = vec!["--sparse=always", "--reflink=auto", source, destination];
    proof {
        assert(text::borrowed(parts@) =~= seq![
            "--sparse=always"@,
            "--reflink=auto"@,
            source@,
            destination@,
        ]);
    }
    text::owned(parts)
}

/// The arguments that freeze the file system at `data`.
pub fn freeze_arguments(data: &str) -> (r: Vec<String>)
    ensures
        text::texts(r@) == seq!["--freeze"@, data@],
{
    let parts = vec!["--freeze", data];
    proof {
        assert(text::borrowed(parts@) =~= seq!["--freeze"@, data@]);
    }
    text::owned(parts)
}

/// The arguments that thaw the file system at `data`.
pub fn unfreeze_arguments(data: &str) -> (r: Vec<String>)
    ensures
        text::texts(r@) == seq!["--unfreeze"@, data@],
{
    let parts = vec!["--unfreeze", data];
    proof {
        assert(text::borrowed(parts@) =~= seq!["--unfreeze"@, data@]);
    }
    text::owned(parts)
}

/// What was seen of a stream is all of it, or one byte more than may be kept.
pub proof fn law_longer_streams_are_noticed(length: nat, maximum: nat)
    requires
        maximum < usize::MAX,
    ensures
        length <= maximum ==> observed(length, maximum) == length,
        length > maximum ==> observed(length, maximum) == maximum + 1,
{
}

/// Diagnostics are shown without the white space around them, and marked where they were cut.
pub proof fn law_shown_diagnostics_tell_of_a_cut(diagnostics: Seq<char>)
    ensures
        shown(diagnostics, false) == lines::trimmed(diagnostics),
        shown(diagnostics, true) == lines::trimmed(diagnostics) + " [truncated]"@,
{
    reveal_strlit("");
    assert(lines::trimmed(diagnostics) + ""@ =~= lines::trimmed(diagnostics));
}

/// A command that prints more than it may is refused with what it complained of, if anything.
pub proof fn law_excess_tells_the_complaint(operation: Seq<char>, detail: Seq<char>)
    ensures
        detail.len() == 0 ==> excess(operation, detail) == VolumeFailure::Invalid(
            operation + " output exceeded its byte limit"@,
        ),
        detail.len() > 0 ==> excess(operation, detail) == VolumeFailure::Invalid(
            operation + " output exceeded its byte limit"@ + (": "@ + detail),
        ),
{
    let text = operation + " output exceeded its byte limit"@;
    assert(text + Seq::<char>::empty() =~= text);
}

/// Both streams count against one limit.
pub proof fn law_both_streams_count(stdout: BoundedOutput, stderr: BoundedOutput, limit: usize)
    requires
        limit < usize::MAX,
    ensures
        outgrew(stdout, stderr, limit) <==> stdout.observed_bytes + stderr.observed_bytes > limit,
{
}

/// A command is taken exactly where both streams were read, it ended, and it printed no more than
/// it may.
pub proof fn law_collected_commands_ended(
    operation: Seq<char>,
    stdout: Reading,
    stderr: Reading,
    ended: Result<Ended, VolumeError>,
    limit: usize,
)
    ensures
        collection_failure(operation, stdout, stderr, ended, limit) is None <==> {
            &&& ended is Ok
            &&& stdout matches Reading::Complete(printed)
            &&& stderr matches Reading::Complete(complaint)
            &&& !outgrew(printed, complaint, limit)
        },
        stdout is Panicked ==> collection_failure(operation, stdout, stderr, ended, limit) == Some(
            VolumeFailure::Invalid(operation + " stdout reader panicked"@),
        ),
        !(stdout is Panicked) && stderr is Panicked ==> collection_failure(
            operation,
            stdout,
            stderr,
            ended,
            limit,
        ) == Some(VolumeFailure::Invalid(operation + " stderr reader panicked"@)),
        !(stdout is Panicked) && !(stderr is Panicked) ==> (ended matches Err(error)
            ==> collection_failure(operation, stdout, stderr, ended, limit) == Some(error@)),
{
}

/// The last line of diagnostics names an invalid argument exactly where it ends so.
pub proof fn law_invalid_arguments_are_named_last(diagnostics: Seq<char>)
    ensures
        lines::lines(diagnostics).len() == 0 ==> !names_invalid_argument(diagnostics),
        lines::lines(diagnostics).len() > 0 ==> {
            let last = text::utf8(lines::lines(diagnostics).last());
            let end = text::utf8(": Invalid argument"@);
            names_invalid_argument(diagnostics) <==> exists|front: Seq<u8>|
                last == #[trigger] (front + end)
        },
{
    if lines::lines(diagnostics).len() > 0 {
        let last = text::utf8(lines::lines(diagnostics).last());
        let end = text::utf8(": Invalid argument"@);
        if names_invalid_argument(diagnostics) {
            let front = last.take(last.len() - end.len());
            assert(last =~= front + end);
        }
        if exists|front: Seq<u8>| last == #[trigger] (front + end) {
            let front = choose|front: Seq<u8>| last == #[trigger] (front + end);
            assert(last.subrange(last.len() - end.len(), last.len() as int) =~= end);
        }
    }
}

/// A loop device is `/dev/loop` and its number, in no more than sixty-four bytes.
pub proof fn law_loop_devices_are_numbered(value: Seq<char>, number: Seq<u8>)
    requires
        text::utf8(value) == text::utf8("/dev/loop"@) + number,
    ensures
        is_loop_device(value) <==> {
            &&& 1 <= number.len()
            &&& text::utf8(value).len() <= 64
            &&& forall|i: int| 0 <= i < number.len() ==> 48 <= #[trigger] number[i] <= 57
        },
{
    let bytes = text::utf8(value);
    let prefix = text::utf8("/dev/loop"@);
    assert(bytes.subrange(0, prefix.len() as int) =~= prefix);
    assert(bytes.skip(prefix.len() as int) =~= number);
    if text::drawn_from(number, Alphabet::Digit) {
        assert forall|i: int| 0 <= i < number.len() implies 48 <= #[trigger] number[i] <= 57 by {
            text::law_alphabets_hold_their_bytes(number[i]);
        }
    }
    if forall|i: int| 0 <= i < number.len() ==> 48 <= #[trigger] number[i] <= 57 {
        assert forall|i: int| 0 <= i < number.len() implies Alphabet::Digit.admits(#[trigger] number[i]) by {
            text::law_alphabets_hold_their_bytes(number[i]);
        }
    }
}

/// A failed command tells how it ended and what it complained of.
pub proof fn law_failed_commands_tell_their_status(
    operation: Seq<char>,
    status: Seq<char>,
    stderr: Seq<u8>,
)
    ensures
        status_failure(operation, status, stderr) == VolumeFailure::Mount(
            operation + " exited "@ + status + ": "@ + lines::trimmed(lines::lossy(stderr)),
        ),
{
    law_shown_diagnostics_tell_of_a_cut(lines::lossy(stderr));
}

/// Devices are named without the white space around them, in their order.
pub proof fn law_devices_are_named_in_their_order(rows: Seq<Seq<char>>, i: int)
    requires
        0 <= i < rows.len(),
    ensures
        device_names(rows).len() == rows.len(),
        device_names(rows)[i] == lines::trimmed(rows[i]),
{
}

} // verus!

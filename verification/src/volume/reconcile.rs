//! The directory of a directory volume: how it is made, restored, and put right after an
//! interruption.

use crate::checks;
use crate::lines;
use crate::lines::{chars_of, lines_of, trim};
use crate::oci::error;
use crate::text::join5;
use crate::volume::error::{VolumeError, VolumeFailure};
use vstd::prelude::*;

verus! {

/// What a lookup of a file found.
#[derive(Clone, Copy, Debug, PartialEq, Eq, Structural)]
pub enum Lookup {
    /// A regular file.
    File,
    /// Something else.
    Other,
    /// Nothing.
    Missing,
    /// It could not be looked up.
    Failed,
}

/// What is done about the record and the record that was to replace it.
#[derive(Clone, Copy, Debug, PartialEq, Eq, Structural)]
pub enum MetadataStep {
    /// Remove the new one.
    DropPending,
    /// Nothing.
    Keep,
    /// Put the new one in its place.
    Promote,
}

/// Puts the record of a volume right.
pub fn reconcile_volume_metadata(record: Lookup, pending: Lookup) -> (r: Result<
    MetadataStep,
    VolumeError,
>)
    ensures
        error::outcome(r) == match (record, pending) {
            (Lookup::File, Lookup::File) => Ok(MetadataStep::DropPending),
            (Lookup::File, Lookup::Missing) => Ok(MetadataStep::Keep),
            (Lookup::Missing, Lookup::File) => Ok(MetadataStep::Promote),
            (Lookup::Missing, Lookup::Missing) => Err(
                VolumeFailure::Integrity("directory volume metadata is missing"@),
            ),
            _ => Err(
                VolumeFailure::Integrity("directory volume metadata is not a regular file"@),
            ),
        },
{
    match (record, pending) {
        (Lookup::File, Lookup::File) => Ok(MetadataStep::DropPending),
        (Lookup::File, Lookup::Missing) => Ok(MetadataStep::Keep),
        (Lookup::Missing, Lookup::File) => Ok(MetadataStep::Promote),
        (Lookup::Missing, Lookup::Missing) => Err(
            VolumeError::Integrity("directory volume metadata is missing".to_owned()),
        ),
        _ => Err(
            VolumeError::Integrity("directory volume metadata is not a regular file".to_owned()),
        ),
    }
}

/// The directories of a volume that are there.
#[derive(Clone, Copy, Debug, PartialEq, Eq, Structural)]
pub struct DataDirectories {
    /// The contents.
    pub data: bool,
    /// What an unfinished restoration unpacked.
    pub restoring: bool,
    /// What a restoration put aside.
    pub replaced: bool,
}

/// A step that puts the contents of a volume right.
#[derive(Clone, Copy, Debug, PartialEq, Eq, Structural)]
pub enum DataStep {
    /// Remove what an unfinished restoration unpacked.
    DropRestoring,
    /// Remove what a restoration put aside.
    DropReplaced,
    /// Take back what a restoration put aside.
    TakeBack,
}

/// The steps that put the contents of a volume right.
pub open spec fn data_steps(found: DataDirectories) -> Seq<DataStep> {
    (if found.restoring {
        seq![DataStep::DropRestoring]
    } else {
        Seq::empty()
    }) + (if found.data && found.replaced {
        seq![DataStep::DropReplaced]
    } else if !found.data && found.replaced {
        seq![DataStep::TakeBack]
    } else {
        Seq::empty()
    })
}

/// Why the contents of a volume cannot be put right.
pub open spec fn data_failure(found: DataDirectories) -> Option<VolumeFailure> {
    checks::when(
        !found.data && !found.replaced,
        VolumeFailure::Integrity("directory volume has no recoverable data root"@),
    )
}

/// Puts the contents of a volume right: the steps to take, and what comes of them.
pub fn reconcile_data_directory(found: DataDirectories) -> (r: (
    Vec<DataStep>,
    Result<(), VolumeError>,
))
    ensures
        r.0@ == data_steps(found),
        error::outcome(r.1) == checks::verdict(data_failure(found)),
{
    let mut steps: Vec<DataStep> = Vec::new();
    if found.restoring {
        steps.push(DataStep::DropRestoring);
    }
    let outcome = if found.data {
        if found.replaced {
            steps.push(DataStep::DropReplaced);
        }
        Ok(())
    } else if found.replaced {
        steps.push(DataStep::TakeBack);
        Ok(())
    } else {
        Err(VolumeError::Integrity("directory volume has no recoverable data root".to_owned()))
    };
    proof {
        assert(steps@ =~= data_steps(found));
    }
    (steps, outcome)
}

/// Accepts the directory that holds the contents.
pub fn check_data_root(is_directory: bool, is_symlink: bool) -> (r: Result<(), VolumeError>)
    ensures
        error::outcome(r) == checks::verdict(
            checks::when(
                !is_directory || is_symlink,
                VolumeFailure::Integrity("directory volume data root is not a directory"@),
            ),
        ),
{
    if !is_directory || is_symlink {
        return Err(
            VolumeError::Integrity("directory volume data root is not a directory".to_owned()),
        );
    }
    Ok(())
}

/// What a step leaves of the directories.
pub open spec fn after_step(found: DataDirectories, step: DataStep) -> DataDirectories {
    match step {
        DataStep::DropRestoring => DataDirectories { restoring: false, ..found },
        DataStep::DropReplaced => DataDirectories { replaced: false, ..found },
        DataStep::TakeBack => DataDirectories { data: found.replaced, replaced: false, ..found },
    }
}

/// What steps leave of the directories.
pub open spec fn after_steps(found: DataDirectories, steps: Seq<DataStep>) -> DataDirectories
    decreases steps.len(),
{
    if steps.len() == 0 {
        found
    } else {
        after_step(after_steps(found, steps.drop_last()), steps.last())
    }
}

/// Where contents are there or were put aside, the steps leave contents, and nothing of a
/// restoration beside them.
pub proof fn law_interrupted_swaps_recover(found: DataDirectories)
    requires
        data_failure(found) is None,
    ensures
        after_steps(found, data_steps(found)) == (DataDirectories {
            data: true,
            restoring: false,
            replaced: false,
        }),
        data_steps(found).contains(DataStep::DropReplaced) ==> found.data,
{
    reveal_with_fuel(after_steps, 3);
    let first: Seq<DataStep> = if found.restoring {
        seq![DataStep::DropRestoring]
    } else {
        Seq::empty()
    };
    let second: Seq<DataStep> = if found.data && found.replaced {
        seq![DataStep::DropReplaced]
    } else if !found.data && found.replaced {
        seq![DataStep::TakeBack]
    } else {
        Seq::empty()
    };
    assert(data_steps(found) == first + second);
    if second.len() > 0 {
        assert((first + second).drop_last() =~= first);
        assert((first + second).last() == second[0]);
    } else {
        assert(first + second =~= first);
    }
    if first.len() > 0 {
        assert(first.drop_last() =~= Seq::<DataStep>::empty());
    }
}

/// The value of a hexadecimal digit.
pub open spec fn digit_value(c: char) -> Option<nat> {
    if '0' <= c && c <= '9' {
        Some((c as int - 48) as nat)
    } else if 'a' <= c && c <= 'f' {
        Some((c as int - 87) as nat)
    } else if 'A' <= c && c <= 'F' {
        Some((c as int - 55) as nat)
    } else {
        None
    }
}

/// The number that hexadecimal digits stand for.
pub open spec fn hexadecimal(digits: Seq<char>) -> Option<nat>
    decreases digits.len(),
{
    if digits.len() == 0 {
        Some(0)
    } else {
        match (hexadecimal(digits.drop_last()), digit_value(digits.last())) {
            (Some(front), Some(value)) => Some(16 * front + value),
            _ => None,
        }
    }
}

/// A 64-bit number in hexadecimal notation, with or without a sign before it.
pub open spec fn hexadecimal_number(number: Seq<char>) -> Option<u64> {
    let digits = if number.len() > 0 && number[0] == '+' {
        number.skip(1)
    } else {
        number
    };
    match hexadecimal(digits) {
        Some(value) => if digits.len() > 0 && value <= u64::MAX {
            Some(value as u64)
        } else {
            None
        },
        None => None,
    }
}

fn digit(c: char) -> (r: Option<u64>)
    ensures
        match digit_value(c) {
            Some(value) => r == Some(value as u64) && value < 16,
            None => r is None,
        },
{
    let code: u32 = c as u32;
    if 48 <= code && code <= 57 {
        Some((code - 48) as u64)
    } else if 97 <= code && code <= 102 {
        Some((code - 87) as u64)
    } else if 65 <= code && code <= 70 {
        Some((code - 55) as u64)
    } else {
        None
    }
}

/// A number that grew too large stays too large.
proof fn lemma_hexadecimal_grows(digits: Seq<char>, at: int)
    requires
        0 <= at <= digits.len(),
        hexadecimal(digits) is Some,
    ensures
        hexadecimal(digits.take(at)) is Some,
        hexadecimal(digits.take(at))->0 <= hexadecimal(digits)->0,
    decreases digits.len() - at,
{
    if at < digits.len() {
        lemma_hexadecimal_grows(digits, at + 1);
        assert(digits.take(at + 1).drop_last() =~= digits.take(at));
    } else {
        assert(digits.take(at) =~= digits);
    }
}

/// Reads a 64-bit number in hexadecimal notation.
pub fn parse_hexadecimal(number: &[char]) -> (r: Option<u64>)
    ensures
        r == hexadecimal_number(number@),
{
    let length: usize = number.len();
    let start: usize = if length > 0 && number[0] == '+' {
        1
    } else {
        0
    };
    let digits = vstd::slice::slice_subrange(number, start, length);
    let ghost all = digits@;
    proof {
        if start == 1 {
            assert(all =~= number@.skip(1));
        } else {
            assert(all =~= number@);
        }
        assert(all.take(0) =~= Seq::<char>::empty());
    }
    if digits.len() == 0 {
        return None;
    }
    let mut value: u64 = 0;
    let mut i: usize = 0;
    while i < digits.len()
        invariant
            i <= digits@.len(),
            all == digits@,
            all.len() > 0,
            hexadecimal_number(number@) == match hexadecimal(all) {
                Some(value) => if value <= u64::MAX {
                    Some(value as u64)
                } else {
                    None
                },
                None => None::<u64>,
            },
            hexadecimal(all.take(i as int)) == Some(value as nat),
        decreases digits@.len() - i,
    {
        proof {
            assert(all.take(i + 1).drop_last() =~= all.take(i as int));
            assert(all.take(i + 1).last() == all[i as int]);
            if hexadecimal(all) is Some {
                lemma_hexadecimal_grows(all, i + 1);
            }
        }
        let next: u64 = match digit(digits[i]) {
            Some(next) => next,
            None => return None,
        };
        let wide: u128 = value as u128 * 16 + next as u128;
        if wide > u64::MAX as u128 {
            return None;
        }
        value = wide as u64;
        i += 1;
    }
    proof {
        assert(all.take(all.len() as int) =~= all);
    }
    Some(value)
}

/// The first line that begins with `prefix`, without it.
pub open spec fn field_behind(rows: Seq<Seq<char>>, prefix: Seq<char>) -> Option<Seq<char>>
    decreases rows.len(),
{
    if rows.len() == 0 {
        None
    } else if prefix.len() <= rows[0].len() && rows[0].take(prefix.len() as int) == prefix {
        Some(rows[0].skip(prefix.len() as int))
    } else {
        field_behind(rows.drop_first(), prefix)
    }
}

/// The capabilities in effect that the status of a process tells.
pub open spec fn effective_mask(status: Seq<char>) -> Option<u64> {
    match field_behind(lines::lines(status), "CapEff:\t"@) {
        Some(field) => hexadecimal_number(lines::trimmed(field)),
        None => None,
    }
}

/// Whether `row` begins with `prefix`.
fn begins_with(row: &[char], prefix: &[char]) -> (r: bool)
    ensures
        r == (prefix@.len() <= row@.len() && row@.take(prefix@.len() as int) == prefix@),
{
    let length: usize = prefix.len();
    if length > row.len() {
        return false;
    }
    let mut i: usize = 0;
    while i < length
        invariant
            i <= length == prefix@.len(),
            length <= row@.len(),
            forall|j: int| 0 <= j < i ==> #[trigger] row@[j] == prefix@[j],
        decreases length - i,
    {
        if row[i] != prefix[i] {
            proof {
                assert(row@.take(length as int)[i as int] != prefix@[i as int]);
            }
            return false;
        }
        i += 1;
    }
    proof {
        assert(row@.take(length as int) =~= prefix@);
    }
    true
}

/// Whether the status of a process says that it has a capability in effect.
pub fn effective_capability(status: &str, capability: u32) -> (r: bool)
    requires
        capability < 64,
    ensures
        r == match effective_mask(status@) {
            Some(mask) => mask & (1u64 << capability) != 0,
            None => false,
        },
{
    let chars = chars_of(status);
    let rows = lines_of(chars.as_slice());
    let prefix = chars_of("CapEff:\t");
    let ghost all = lines::lines(status@);
    let mut i: usize = 0;
    proof {
        assert(all.skip(0) =~= all);
        assert(lines::slices(rows@).len() == rows@.len());
    }
    while i < rows.len()
        invariant
            i <= rows@.len(),
            capability < 64,
            lines::slices(rows@) == all,
            rows@.len() == all.len(),
            all == lines::lines(status@),
            prefix@ == "CapEff:\t"@,
            field_behind(all.skip(i as int), prefix@) == field_behind(all, prefix@),
        decreases rows@.len() - i,
    {
        let row = rows[i];
        proof {
            assert(lines::slices(rows@)[i as int] == row@);
            assert(all.skip(i as int)[0] == row@);
            assert(all.skip(i as int).drop_first() =~= all.skip(i + 1));
        }
        if begins_with(row, prefix.as_slice()) {
            let length: usize = row.len();
            let field = vstd::slice::slice_subrange(row, prefix.len(), length);
            proof {
                assert(field@ =~= row@.skip(prefix@.len() as int));
            }
            return match parse_hexadecimal(trim(field)) {
                Some(mask) => mask & (1u64 << capability) != 0,
                None => false,
            };
        }
        i += 1;
    }
    proof {
        assert(all.skip(all.len() as int) =~= Seq::<Seq<char>>::empty());
    }
    false
}

/// What is done next to make the directory of a new volume.
#[derive(Debug)]
pub enum MakeState {
    /// Close the directory to others.
    Protect,
    /// Make the directory of the contents and open it to all.
    Data,
    /// Write the record.
    Record,
    /// Write the directories to disk.
    Sync,
    /// Remove the directory.
    Undo { error: VolumeError },
    /// Nothing more.
    Done(Result<(), VolumeError>),
}

/// A `MakeState` with its texts read as character sequences.
pub enum MakeText {
    Protect,
    Data,
    Record,
    Sync,
    Undo { error: VolumeFailure },
    Done(Result<(), VolumeFailure>),
}

impl View for MakeState {
    type V = MakeText;

    open spec fn view(&self) -> MakeText {
        match *self {
            MakeState::Protect => MakeText::Protect,
            MakeState::Data => MakeText::Data,
            MakeState::Record => MakeText::Record,
            MakeState::Sync => MakeText::Sync,
            MakeState::Undo { error } => MakeText::Undo { error: error@ },
            MakeState::Done(result) => MakeText::Done(
                match result {
                    Ok(()) => Ok(()),
                    Err(error) => Err(error@),
                },
            ),
        }
    }
}

/// Where the outcome of a step leads.
pub open spec fn make_step(state: MakeText, result: Result<(), VolumeFailure>) -> MakeText {
    match (state, result) {
        (MakeText::Protect, Ok(())) => MakeText::Data,
        (MakeText::Protect, Err(error)) => MakeText::Done(Err(error)),
        (MakeText::Data, Ok(())) => MakeText::Record,
        (MakeText::Record, Ok(())) => MakeText::Sync,
        (MakeText::Sync, Ok(())) => MakeText::Done(Ok(())),
        (MakeText::Undo { error }, _) => MakeText::Done(Err(error)),
        (MakeText::Done(result), _) => MakeText::Done(result),
        (_, Err(error)) => MakeText::Undo { error },
    }
}

/// Takes the outcome of a step.
pub fn advance_make(state: MakeState, result: Result<(), VolumeError>) -> (r: MakeState)
    ensures
        r@ == make_step(state@, error::outcome(result)),
{
    match (state, result) {
        (MakeState::Protect, Ok(())) => MakeState::Data,
        (MakeState::Protect, Err(error)) => MakeState::Done(Err(error)),
        (MakeState::Data, Ok(())) => MakeState::Record,
        (MakeState::Record, Ok(())) => MakeState::Sync,
        (MakeState::Sync, Ok(())) => MakeState::Done(Ok(())),
        (MakeState::Undo { error }, _) => MakeState::Done(Err(error)),
        (MakeState::Done(result), _) => MakeState::Done(result),
        (_, Err(error)) => MakeState::Undo { error },
    }
}

/// What is done next to replace the contents of a volume.
#[derive(Debug)]
pub enum SwapState {
    /// Make the directory for the new contents.
    Prepare,
    /// Unpack the archive into it.
    Unpack,
    /// Open it to all.
    Open,
    /// Put the old contents aside.
    PutAside,
    /// Put the new contents in their place.
    Install,
    /// Take the old contents back.
    TakeBack { cause: String },
    /// Write the directory to disk.
    Sync,
    /// Remove the old contents and write the directory to disk.
    DropOld,
    /// Remove the new contents.
    Discard { error: VolumeError },
    /// Nothing more.
    Done(Result<(), VolumeError>),
}

/// A `SwapState` with its texts read as character sequences.
pub enum SwapText {
    Prepare,
    Unpack,
    Open,
    PutAside,
    Install,
    TakeBack { cause: Seq<char> },
    Sync,
    DropOld,
    Discard { error: VolumeFailure },
    Done(Result<(), VolumeFailure>),
}

impl View for SwapState {
    type V = SwapText;

    open spec fn view(&self) -> SwapText {
        match *self {
            SwapState::Prepare => SwapText::Prepare,
            SwapState::Unpack => SwapText::Unpack,
            SwapState::Open => SwapText::Open,
            SwapState::PutAside => SwapText::PutAside,
            SwapState::Install => SwapText::Install,
            SwapState::TakeBack { cause } => SwapText::TakeBack { cause: cause@ },
            SwapState::Sync => SwapText::Sync,
            SwapState::DropOld => SwapText::DropOld,
            SwapState::Discard { error } => SwapText::Discard { error: error@ },
            SwapState::Done(result) => SwapText::Done(
                match result {
                    Ok(()) => Ok(()),
                    Err(error) => Err(error@),
                },
            ),
        }
    }
}

/// What the host has done.
#[derive(Debug)]
pub enum SwapEvent {
    Completed(Result<(), VolumeError>),
    /// A directory was renamed, or why not.
    Renamed(Result<(), String>),
}

/// A `SwapEvent` with its texts read as character sequences.
pub enum SwapEventText {
    Completed(Result<(), VolumeFailure>),
    Renamed(Result<(), Seq<char>>),
}

impl View for SwapEvent {
    type V = SwapEventText;

    open spec fn view(&self) -> SwapEventText {
        match *self {
            SwapEvent::Completed(result) => SwapEventText::Completed(
                match result {
                    Ok(()) => Ok(()),
                    Err(error) => Err(error@),
                },
            ),
            SwapEvent::Renamed(result) => SwapEventText::Renamed(
                match result {
                    Ok(()) => Ok(()),
                    Err(reason) => Err(reason@),
                },
            ),
        }
    }
}

/// The next state, or the new contents are given up.
pub open spec fn proceed(next: SwapText, result: Result<(), VolumeFailure>) -> SwapText {
    match result {
        Ok(()) => next,
        Err(error) => SwapText::Discard { error },
    }
}

/// Where an event leads the replacement of the contents at `data`.
pub open spec fn swap_step(data: Seq<char>, state: SwapText, event: SwapEventText) -> SwapText {
    match (state, event) {
        (SwapText::Prepare, SwapEventText::Completed(result)) => proceed(SwapText::Unpack, result),
        (SwapText::Unpack, SwapEventText::Completed(result)) => proceed(SwapText::Open, result),
        (SwapText::Open, SwapEventText::Completed(result)) => proceed(SwapText::PutAside, result),
        (SwapText::PutAside, SwapEventText::Renamed(Ok(()))) => SwapText::Install,
        (SwapText::PutAside, SwapEventText::Renamed(Err(source))) => SwapText::Discard {
            error: VolumeFailure::Io { path: data, source },
        },
        (SwapText::Install, SwapEventText::Renamed(Ok(()))) => SwapText::Sync,
        (SwapText::Install, SwapEventText::Renamed(Err(cause))) => SwapText::TakeBack { cause },
        (SwapText::TakeBack { cause }, SwapEventText::Renamed(Ok(()))) => SwapText::Discard {
            error: VolumeFailure::Io { path: data, source: cause },
        },
        (SwapText::TakeBack { cause }, SwapEventText::Renamed(Err(second))) => SwapText::Discard {
            error: VolumeFailure::Integrity(
                "volume restore failed and rollback failed: "@ + cause + "; "@ + second + ""@,
            ),
        },
        (SwapText::Sync, SwapEventText::Completed(result)) => proceed(SwapText::DropOld, result),
        (SwapText::DropOld, SwapEventText::Completed(result)) => proceed(
            SwapText::Done(Ok(())),
            result,
        ),
        (SwapText::Discard { error }, SwapEventText::Completed(_)) => SwapText::Done(Err(error)),
        (state, _) => state,
    }
}

fn carry_on(next: SwapState, result: Result<(), VolumeError>) -> (r: SwapState)
    ensures
        r@ == proceed(next@, error::outcome(result)),
{
    match result {
        Ok(()) => next,
        Err(error) => SwapState::Discard { error },
    }
}

/// Takes what the host has done.
pub fn advance_swap(data: &str, state: SwapState, event: SwapEvent) -> (r: SwapState)
    ensures
        r@ == swap_step(data@, state@, event@),
{
    match (state, event) {
        (SwapState::Prepare, SwapEvent::Completed(result)) => carry_on(SwapState::Unpack, result),
        (SwapState::Unpack, SwapEvent::Completed(result)) => carry_on(SwapState::Open, result),
        (SwapState::Open, SwapEvent::Completed(result)) => carry_on(SwapState::PutAside, result),
        (SwapState::PutAside, SwapEvent::Renamed(Ok(()))) => SwapState::Install,
        (SwapState::PutAside, SwapEvent::Renamed(Err(source))) => SwapState::Discard {
            error: VolumeError::Io { path: data.to_owned(), source },
        },
        (SwapState::Install, SwapEvent::Renamed(Ok(()))) => SwapState::Sync,
        (SwapState::Install, SwapEvent::Renamed(Err(cause))) => SwapState::TakeBack { cause },
        (SwapState::TakeBack { cause }, SwapEvent::Renamed(Ok(()))) => SwapState::Discard {
            error: VolumeError::Io { path: data.to_owned(), source: cause },
        },
        (SwapState::TakeBack { cause }, SwapEvent::Renamed(Err(second))) => SwapState::Discard {
            error: VolumeError::Integrity(
                join5(
                    "volume restore failed and rollback failed: ",
                    cause.as_str(),
                    "; ",
                    second.as_str(),
                    "",
                ),
            ),
        },
        (SwapState::Sync, SwapEvent::Completed(result)) => carry_on(SwapState::DropOld, result),
        (SwapState::DropOld, SwapEvent::Completed(result)) => carry_on(
            SwapState::Done(Ok(())),
            result,
        ),
        (SwapState::Discard { error }, SwapEvent::Completed(_)) => SwapState::Done(Err(error)),
        (state, _) => state,
    }
}

/// The directories that a row of events leaves, where every rename that is told did happen and
/// nothing else moves the contents.
pub open spec fn swapped(data: Seq<char>, events: Seq<SwapEventText>) -> (SwapText, bool)
    decreases events.len(),
{
    if events.len() == 0 {
        (SwapText::Prepare, true)
    } else {
        let (state, present) = swapped(data, events.drop_last());
        let next = swap_step(data, state, events.last());
        (
            next,
            match (state, events.last()) {
                (SwapText::PutAside, SwapEventText::Renamed(Ok(()))) => false,
                (SwapText::Install, SwapEventText::Renamed(Ok(()))) => true,
                (SwapText::TakeBack { .. }, SwapEventText::Renamed(Ok(()))) => true,
                _ => present,
            },
        )
    }
}

/// Taking the old contents back failed.
pub open spec fn lost(events: Seq<SwapEventText>, data: Seq<char>) -> bool {
    exists|n: int|
        0 <= n < events.len() && #[trigger] swapped(data, events.take(n)).0 is TakeBack && (
        events[n] matches SwapEventText::Renamed(Err(_)))
}

/// When the replacement of the contents of a volume is over, the volume has contents, old or
/// new, unless the old ones could not be taken back.
pub proof fn law_swaps_leave_contents(data: Seq<char>, events: Seq<SwapEventText>)
    ensures
        swapped(data, events).0 is Done && !lost(events, data) ==> swapped(data, events).1,
{
    lemma_swapped(data, events);
}

proof fn lemma_swapped(data: Seq<char>, events: Seq<SwapEventText>)
    ensures
        !lost(events, data) ==> (swapped(data, events).1 <==> !(swapped(data, events).0 is Install
            || swapped(data, events).0 is TakeBack)),
    decreases events.len(),
{
    if events.len() > 0 {
        let before = events.drop_last();
        let last = events.len() - 1;
        lemma_swapped(data, before);
        assert(events.take(last) =~= before);
        if lost(before, data) {
            let n = choose|n: int|
                0 <= n < before.len() && #[trigger] swapped(data, before.take(n)).0 is TakeBack && (
                before[n] matches SwapEventText::Renamed(Err(_)));
            assert(events.take(n) =~= before.take(n));
            assert(swapped(data, events.take(n)).0 is TakeBack);
            assert(events[n] == before[n]);
        }
        if !lost(events, data) {
            assert(swapped(data, events.take(last)).0 is TakeBack ==> !(
            events[last] matches SwapEventText::Renamed(Err(_))));
        }
    }
}

/// What was being restored is dropped. What was put aside is dropped where there are contents, and
/// taken back where there are none.
pub proof fn law_interrupted_restores_are_cleared(found: DataDirectories)
    ensures
        data_steps(found).contains(DataStep::DropRestoring) <==> found.restoring,
        data_steps(found).contains(DataStep::DropReplaced) <==> found.data && found.replaced,
        data_steps(found).contains(DataStep::TakeBack) <==> !found.data && found.replaced,
        data_failure(found) is None <==> found.data || found.replaced,
{
    let steps = data_steps(found);
    let front: Seq<DataStep> = if found.restoring {
        seq![DataStep::DropRestoring]
    } else {
        Seq::empty()
    };
    if found.restoring {
        assert(steps[0] == DataStep::DropRestoring);
    }
    if found.data && found.replaced {
        assert(steps[front.len() as int] == DataStep::DropReplaced);
    }
    if !found.data && found.replaced {
        assert(steps[front.len() as int] == DataStep::TakeBack);
    }
}

/// What each step leaves behind.
pub proof fn law_steps_change_one_directory(found: DataDirectories)
    ensures
        !after_step(found, DataStep::DropRestoring).restoring,
        after_step(found, DataStep::DropRestoring).data == found.data,
        after_step(found, DataStep::DropRestoring).replaced == found.replaced,
        !after_step(found, DataStep::DropReplaced).replaced,
        after_step(found, DataStep::DropReplaced).data == found.data,
        after_step(found, DataStep::DropReplaced).restoring == found.restoring,
        !after_step(found, DataStep::TakeBack).replaced,
        after_step(found, DataStep::TakeBack).data == found.replaced,
        after_step(found, DataStep::TakeBack).restoring == found.restoring,
{
}

/// A hexadecimal number reads digit by digit, in either case, with one plus sign at most before it.
pub proof fn law_hexadecimal_numbers_are_read(digits: Seq<char>, front: nat, value: nat, c: char)
    ensures
        digit_value('0') == Some(0nat) && digit_value('9') == Some(9nat),
        digit_value('a') == Some(10nat) && digit_value('f') == Some(15nat),
        digit_value('A') == Some(10nat) && digit_value('F') == Some(15nat),
        digit_value(c) is Some <==> ('0' <= c && c <= '9') || ('a' <= c && c <= 'f') || ('A' <= c
            && c <= 'F'),
        hexadecimal(Seq::<char>::empty()) == Some(0nat),
        hexadecimal(digits) == Some(front) && digit_value(c) == Some(value) ==> hexadecimal(
            digits.push(c),
        ) == Some((front * 16 + value) as nat),
        hexadecimal(digits) is None || digit_value(c) is None ==> hexadecimal(digits.push(c))
            is None,
        digits.len() > 0 && digits[0] != '+' && hexadecimal(digits) == Some(front) && front
            <= 0xffff_ffff_ffff_ffff ==> hexadecimal_number(digits) == Some(front as u64)
            && hexadecimal_number(seq!['+'] + digits) == Some(front as u64),
        hexadecimal_number(Seq::<char>::empty()) is None,
{
    assert(digits.push(c).drop_last() =~= digits);
    assert((seq!['+'] + digits).skip(1) =~= digits);
}

/// Digits of consecutive letters are consecutive numbers.
pub proof fn law_hexadecimal_digits_count_up(c: char, next: char)
    requires
        next as u32 == c as u32 + 1,
        digit_value(c) is Some,
        digit_value(next) is Some,
    ensures
        digit_value(next)->Some_0 == digit_value(c)->Some_0 + 1,
{
}

/// A field is what stands behind its prefix in the first row that starts with it.
pub proof fn law_fields_stand_behind_their_prefix(
    rest: Seq<char>,
    row: Seq<char>,
    rows: Seq<Seq<char>>,
    prefix: Seq<char>,
)
    ensures
        field_behind(Seq::<Seq<char>>::empty(), prefix) is None,
        field_behind(seq![prefix + rest] + rows, prefix) == Some(rest),
        !(row.len() >= prefix.len() && row.take(prefix.len() as int) == prefix) ==> field_behind(
            seq![row] + rows,
            prefix,
        ) == field_behind(rows, prefix),
{
    let first = seq![prefix + rest] + rows;
    assert(first[0] == prefix + rest);
    assert((prefix + rest).take(prefix.len() as int) =~= prefix);
    assert((prefix + rest).skip(prefix.len() as int) =~= rest);
    let other = seq![row] + rows;
    assert(other[0] == row);
    assert(other.drop_first() =~= rows);
}

/// The effective capabilities are the number behind `CapEff:` and a tab.
pub proof fn law_capabilities_stand_behind_their_name(status: Seq<char>)
    ensures
        match field_behind(lines::lines(status), "CapEff:\t"@) {
            Some(field) => effective_mask(status) == hexadecimal_number(lines::trimmed(field)),
            None => effective_mask(status) is None,
        },
{
}

/// A directory volume is made in this order: protected, with its data, with its record, and made to
/// last. A failure behind the first step undoes it.
pub proof fn law_makings_take_their_course(
    failure: VolumeFailure,
    done: Result<(), VolumeFailure>,
)
    ensures
        make_step(MakeText::Protect, Ok(())) is Data,
        make_step(MakeText::Data, Ok(())) is Record,
        make_step(MakeText::Record, Ok(())) is Sync,
        make_step(MakeText::Sync, Ok(())) == MakeText::Done(Ok(())),
        make_step(MakeText::Protect, Err(failure)) == MakeText::Done(Err(failure)),
        make_step(MakeText::Data, Err(failure)) == (MakeText::Undo { error: failure }),
        make_step(MakeText::Record, Err(failure)) == (MakeText::Undo { error: failure }),
        make_step(MakeText::Sync, Err(failure)) == (MakeText::Undo { error: failure }),
        make_step((MakeText::Undo { error: failure }), done) == MakeText::Done(Err(failure)),
{
}

/// Restored contents are swapped in this order: prepared, unpacked, opened, the old ones put aside,
/// the new ones installed and made to last, and the old ones dropped. A failure discards the new
/// ones, and the old ones are taken back where they were put aside.
pub proof fn law_swaps_take_their_course(
    data: Seq<char>,
    cause: Seq<char>,
    second: Seq<char>,
    failure: VolumeFailure,
    done: Result<(), VolumeFailure>,
)
    ensures
        swap_step(data, SwapText::Prepare, SwapEventText::Completed(Ok(()))) is Unpack,
        swap_step(data, SwapText::Unpack, SwapEventText::Completed(Ok(()))) is Open,
        swap_step(data, SwapText::Open, SwapEventText::Completed(Ok(()))) is PutAside,
        swap_step(data, SwapText::PutAside, SwapEventText::Renamed(Ok(()))) is Install,
        swap_step(data, SwapText::Install, SwapEventText::Renamed(Ok(()))) is Sync,
        swap_step(data, SwapText::Sync, SwapEventText::Completed(Ok(()))) is DropOld,
        swap_step(data, SwapText::DropOld, SwapEventText::Completed(Ok(()))) == SwapText::Done(
            Ok(()),
        ),
        swap_step(data, SwapText::PutAside, SwapEventText::Renamed(Err(cause))) == (
        SwapText::Discard { error: VolumeFailure::Io { path: data, source: cause } }),
        swap_step(data, SwapText::Install, SwapEventText::Renamed(Err(cause))) == (
        SwapText::TakeBack { cause }),
        swap_step(data, (SwapText::TakeBack { cause }), SwapEventText::Renamed(Ok(()))) == (
        SwapText::Discard { error: VolumeFailure::Io { path: data, source: cause } }),
        swap_step(data, (SwapText::TakeBack { cause }), SwapEventText::Renamed(Err(second)))
            == (SwapText::Discard {
            error: VolumeFailure::Integrity(
                "volume restore failed and rollback failed: "@ + cause + "; "@ + second,
            ),
        }),
        forall|state: SwapText|
            (state is Prepare || state is Unpack || state is Open || state is Sync
                || state is DropOld) ==> #[trigger] swap_step(
                data,
                state,
                SwapEventText::Completed(Err(failure)),
            ) == (SwapText::Discard { error: failure }),
        swap_step(data, (SwapText::Discard { error: failure }), SwapEventText::Completed(done))
            == SwapText::Done(Err(failure)),
{
    reveal_strlit("");
    let whole = "volume restore failed and rollback failed: "@ + cause + "; "@ + second;
    assert(whole + ""@ =~= whole);
}

} // verus!

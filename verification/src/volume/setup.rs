//! Setting up a new volume, and mounting a named one.

use crate::oci::model::VolumePersistenceClass;
use crate::text;
use crate::text::join2;
use crate::volume::command;
use crate::volume::command::parse_loop_device;
use crate::volume::error::{VolumeError, VolumeFailure};
use crate::volume::secrets;
use crate::volume::secrets::check_resolved;
use crate::lines;
use vstd::prelude::*;

verus! {

/// What is done next in the directory of a new volume.
#[derive(Debug)]
pub enum SetupState {
    /// Make the backing file of a named volume.
    Backing,
    /// Format the backing file.
    Format,
    /// Make the directory that it is mounted at.
    Data,
    /// Verify the artifact.
    Artifact,
    /// Make the directory of the secret files.
    SecretDirectory,
    /// Mount the file system of the secret files.
    SecretMount,
    /// Resolve the secret files.
    Resolve,
    /// Write the secret files and close the directory.
    SecretFiles,
    /// Write the record.
    Record,
    /// Remove what there is of the volume.
    Undo { error: VolumeError },
    /// Nothing more.
    Done(Result<(), VolumeError>),
}

/// A `SetupState` with its texts read as character sequences.
pub enum SetupText {
    Backing,
    Format,
    Data,
    Artifact,
    SecretDirectory,
    SecretMount,
    Resolve,
    SecretFiles,
    Record,
    Undo { error: VolumeFailure },
    Done(Result<(), VolumeFailure>),
}

impl View for SetupState {
    type V = SetupText;

    open spec fn view(&self) -> SetupText {
        match *self {
            SetupState::Backing => SetupText::Backing,
            SetupState::Format => SetupText::Format,
            SetupState::Data => SetupText::Data,
            SetupState::Artifact => SetupText::Artifact,
            SetupState::SecretDirectory => SetupText::SecretDirectory,
            SetupState::SecretMount => SetupText::SecretMount,
            SetupState::Resolve => SetupText::Resolve,
            SetupState::SecretFiles => SetupText::SecretFiles,
            SetupState::Record => SetupText::Record,
            SetupState::Undo { error } => SetupText::Undo { error: error@ },
            SetupState::Done(result) => SetupText::Done(
                match result {
                    Ok(()) => Ok(()),
                    Err(error) => Err(error@),
                },
            ),
        }
    }
}

/// What the host has done.
#[derive(Debug)]
pub enum SetupEvent {
    Completed(Result<(), VolumeError>),
    /// The names of the files that a resolver returned.
    Resolved(Result<Vec<String>, VolumeError>),
}

/// A `SetupEvent` with its texts read as character sequences.
pub enum SetupEventText {
    Completed(Result<(), VolumeFailure>),
    Resolved(Result<Seq<Seq<char>>, VolumeFailure>),
}

impl View for SetupEvent {
    type V = SetupEventText;

    open spec fn view(&self) -> SetupEventText {
        match *self {
            SetupEvent::Completed(result) => SetupEventText::Completed(
                match result {
                    Ok(()) => Ok(()),
                    Err(error) => Err(error@),
                },
            ),
            SetupEvent::Resolved(result) => SetupEventText::Resolved(
                match result {
                    Ok(names) => Ok(text::texts(names@)),
                    Err(error) => Err(error@),
                },
            ),
        }
    }
}

/// How the setup of a volume begins.
pub open spec fn setup_start(class: VolumePersistenceClass, has_resolver: bool) -> SetupText {
    match class {
        VolumePersistenceClass::Ephemeral | VolumePersistenceClass::Persistent =>
        SetupText::Backing,
        VolumePersistenceClass::Artifact => SetupText::Artifact,
        VolumePersistenceClass::Secret => if has_resolver {
            SetupText::SecretDirectory
        } else {
            SetupText::Undo {
                error: VolumeFailure::Unsupported("secret resolver is not configured"@),
            }
        },
    }
}

/// Begins to set up a volume.
pub fn begin_setup(class: VolumePersistenceClass, has_resolver: bool) -> (r: SetupState)
    ensures
        r@ == setup_start(class, has_resolver),
{
    match class {
        VolumePersistenceClass::Ephemeral | VolumePersistenceClass::Persistent =>
        SetupState::Backing,
        VolumePersistenceClass::Artifact => SetupState::Artifact,
        VolumePersistenceClass::Secret => if has_resolver {
            SetupState::SecretDirectory
        } else {
            SetupState::Undo {
                error: VolumeError::Unsupported("secret resolver is not configured".to_owned()),
            }
        },
    }
}

/// The next state, or the way back.
pub open spec fn onward(next: SetupText, result: Result<(), VolumeFailure>) -> SetupText {
    match result {
        Ok(()) => next,
        Err(error) => SetupText::Undo { error },
    }
}

/// Where an event leads the setup of a volume.
pub open spec fn setup_step(state: SetupText, event: SetupEventText) -> SetupText {
    match (state, event) {
        (SetupText::Backing, SetupEventText::Completed(result)) => onward(
            SetupText::Format,
            result,
        ),
        (SetupText::Format, SetupEventText::Completed(result)) => onward(SetupText::Data, result),
        (SetupText::Data, SetupEventText::Completed(result)) => onward(SetupText::Record, result),
        (SetupText::Artifact, SetupEventText::Completed(result)) => onward(
            SetupText::Record,
            result,
        ),
        (SetupText::SecretDirectory, SetupEventText::Completed(result)) => onward(
            SetupText::SecretMount,
            result,
        ),
        (SetupText::SecretMount, SetupEventText::Completed(result)) => onward(
            SetupText::Resolve,
            result,
        ),
        (SetupText::Resolve, SetupEventText::Resolved(result)) => match result {
            Err(error) => SetupText::Undo { error },
            Ok(names) => match secrets::resolution_failure(names) {
                Some(error) => SetupText::Undo { error },
                None => SetupText::SecretFiles,
            },
        },
        (SetupText::SecretFiles, SetupEventText::Completed(result)) => onward(
            SetupText::Record,
            result,
        ),
        (SetupText::Record, SetupEventText::Completed(result)) => onward(
            SetupText::Done(Ok(())),
            result,
        ),
        (SetupText::Undo { error }, SetupEventText::Completed(_)) => SetupText::Done(Err(error)),
        (state, _) => state,
    }
}

fn forward(next: SetupState, result: Result<(), VolumeError>) -> (r: SetupState)
    ensures
        r@ == onward(
            next@,
            match result {
                Ok(()) => Ok(()),
                Err(error) => Err(error@),
            },
        ),
{
    match result {
        Ok(()) => next,
        Err(error) => SetupState::Undo { error },
    }
}

/// Takes what the host has done.
pub fn advance_setup(state: SetupState, event: SetupEvent) -> (r: SetupState)
    ensures
        r@ == setup_step(state@, event@),
{
    match (state, event) {
        (SetupState::Backing, SetupEvent::Completed(result)) => forward(
            SetupState::Format,
            result,
        ),
        (SetupState::Format, SetupEvent::Completed(result)) => forward(SetupState::Data, result),
        (SetupState::Data, SetupEvent::Completed(result)) => forward(SetupState::Record, result),
        (SetupState::Artifact, SetupEvent::Completed(result)) => forward(
            SetupState::Record,
            result,
        ),
        (SetupState::SecretDirectory, SetupEvent::Completed(result)) => forward(
            SetupState::SecretMount,
            result,
        ),
        (SetupState::SecretMount, SetupEvent::Completed(result)) => forward(
            SetupState::Resolve,
            result,
        ),
        (SetupState::Resolve, SetupEvent::Resolved(result)) => match result {
            Err(error) => SetupState::Undo { error },
            Ok(names) => match check_resolved(&names) {
                Err(error) => SetupState::Undo { error },
                Ok(()) => SetupState::SecretFiles,
            },
        },
        (SetupState::SecretFiles, SetupEvent::Completed(result)) => forward(
            SetupState::Record,
            result,
        ),
        (SetupState::Record, SetupEvent::Completed(result)) => forward(
            SetupState::Done(Ok(())),
            result,
        ),
        (SetupState::Undo { error }, SetupEvent::Completed(_)) => SetupState::Done(Err(error)),
        (state, _) => state,
    }
}

/// Where a row of events leads the setup of a volume.
pub open spec fn set_up(
    class: VolumePersistenceClass,
    has_resolver: bool,
    events: Seq<SetupEventText>,
) -> SetupText
    decreases events.len(),
{
    if events.len() == 0 {
        setup_start(class, has_resolver)
    } else {
        setup_step(set_up(class, has_resolver, events.drop_last()), events.last())
    }
}

/// At some point of a row of events the volume was being removed.
pub open spec fn was_undone(
    class: VolumePersistenceClass,
    has_resolver: bool,
    events: Seq<SetupEventText>,
) -> bool {
    exists|n: int|
        0 <= n < events.len() && #[trigger] set_up(class, has_resolver, events.take(n)) is Undo
            && events[n] is Completed
}

/// At some point of a row of events the record was written.
pub open spec fn was_recorded(
    class: VolumePersistenceClass,
    has_resolver: bool,
    events: Seq<SetupEventText>,
) -> bool {
    exists|n: int|
        0 <= n < events.len() && #[trigger] set_up(class, has_resolver, events.take(n)) is Record
            && (events[n] matches SetupEventText::Completed(Ok(_)))
}

/// A setup that fails has removed what there was of the volume, and one that succeeds has
/// written the record last.
pub proof fn law_failed_setups_leave_nothing(
    class: VolumePersistenceClass,
    has_resolver: bool,
    events: Seq<SetupEventText>,
)
    ensures
        set_up(class, has_resolver, events) matches SetupText::Done(Err(_)) ==> was_undone(
            class,
            has_resolver,
            events,
        ),
        set_up(class, has_resolver, events) matches SetupText::Done(Ok(_)) ==> was_recorded(
            class,
            has_resolver,
            events,
        ),
    decreases events.len(),
{
    if events.len() > 0 {
        let before = events.drop_last();
        law_failed_setups_leave_nothing(class, has_resolver, before);
        let last = events.len() - 1;
        assert(events.take(last) =~= before);
        assert(events[last] == events.last());
        assert forall|n: int| 0 <= n < before.len() implies events.take(n) =~= #[trigger] before.take(
            n,
        ) && events[n] == before[n] by {}
        if was_undone(class, has_resolver, before) {
            let n = choose|n: int|
                0 <= n < before.len() && #[trigger] set_up(
                    class,
                    has_resolver,
                    before.take(n),
                ) is Undo && before[n] is Completed;
            assert(events.take(n) =~= before.take(n));
            assert(set_up(class, has_resolver, events.take(n)) is Undo);
        }
        if was_recorded(class, has_resolver, before) {
            let n = choose|n: int|
                0 <= n < before.len() && #[trigger] set_up(
                    class,
                    has_resolver,
                    before.take(n),
                ) is Record && (before[n] matches SetupEventText::Completed(Ok(_)));
            assert(events.take(n) =~= before.take(n));
            assert(set_up(class, has_resolver, events.take(n)) is Record);
        }
    }
}

/// What is done next to mount a named volume.
#[derive(Debug)]
pub enum NamedMount {
    /// Look whether it is mounted.
    Look,
    /// Attach the backing file to a loop device.
    Attach,
    /// Mount the loop device.
    Mount { device: String },
    /// Detach the loop device.
    Detach { device: String, error: VolumeError },
    /// Resolve the path that it is mounted at.
    Resolve,
    /// Nothing more.
    Done(Result<String, VolumeError>),
}

/// A `NamedMount` with its texts read as character sequences.
pub enum NamedMountText {
    Look,
    Attach,
    Mount { device: Seq<char> },
    Detach { device: Seq<char>, error: VolumeFailure },
    Resolve,
    Done(Result<Seq<char>, VolumeFailure>),
}

impl View for NamedMount {
    type V = NamedMountText;

    open spec fn view(&self) -> NamedMountText {
        match *self {
            NamedMount::Look => NamedMountText::Look,
            NamedMount::Attach => NamedMountText::Attach,
            NamedMount::Mount { device } => NamedMountText::Mount { device: device@ },
            NamedMount::Detach { device, error } => NamedMountText::Detach {
                device: device@,
                error: error@,
            },
            NamedMount::Resolve => NamedMountText::Resolve,
            NamedMount::Done(result) => NamedMountText::Done(
                match result {
                    Ok(path) => Ok(path@),
                    Err(error) => Err(error@),
                },
            ),
        }
    }
}

/// What the host has done or found.
#[derive(Debug)]
pub enum NamedMountEvent {
    /// Whether the volume is mounted.
    Mounted(Result<bool, VolumeError>),
    /// What the command that attaches the file printed.
    Printed(Result<Vec<u8>, VolumeError>),
    /// Whether the loop device was mounted, or why not.
    Tried(Result<(), String>),
    /// The loop device was detached, or was not.
    Detached,
    /// The path.
    Resolved(Result<String, VolumeError>),
}

/// A `NamedMountEvent` with its texts read as character sequences.
pub enum NamedMountEventText {
    Mounted(Result<bool, VolumeFailure>),
    Printed(Result<Seq<u8>, VolumeFailure>),
    Tried(Result<(), Seq<char>>),
    Detached,
    Resolved(Result<Seq<char>, VolumeFailure>),
}

impl View for NamedMountEvent {
    type V = NamedMountEventText;

    open spec fn view(&self) -> NamedMountEventText {
        match *self {
            NamedMountEvent::Mounted(result) => NamedMountEventText::Mounted(
                match result {
                    Ok(mounted) => Ok(mounted),
                    Err(error) => Err(error@),
                },
            ),
            NamedMountEvent::Printed(result) => NamedMountEventText::Printed(
                match result {
                    Ok(output) => Ok(output@),
                    Err(error) => Err(error@),
                },
            ),
            NamedMountEvent::Tried(result) => NamedMountEventText::Tried(
                match result {
                    Ok(()) => Ok(()),
                    Err(reason) => Err(reason@),
                },
            ),
            NamedMountEvent::Detached => NamedMountEventText::Detached,
            NamedMountEvent::Resolved(result) => NamedMountEventText::Resolved(
                match result {
                    Ok(path) => Ok(path@),
                    Err(error) => Err(error@),
                },
            ),
        }
    }
}

/// Where an event leads the mounting of a named volume.
pub open spec fn named_mount_step(
    state: NamedMountText,
    event: NamedMountEventText,
) -> NamedMountText {
    match (state, event) {
        (NamedMountText::Look, NamedMountEventText::Mounted(Ok(mounted))) => if mounted {
            NamedMountText::Resolve
        } else {
            NamedMountText::Attach
        },
        (NamedMountText::Look, NamedMountEventText::Mounted(Err(error))) => NamedMountText::Done(
            Err(error),
        ),
        (NamedMountText::Attach, NamedMountEventText::Printed(Ok(output))) => {
            let device = lines::trimmed(lines::lossy(output));
            if command::is_loop_device(device) {
                NamedMountText::Mount { device }
            } else {
                NamedMountText::Done(
                    Err(VolumeFailure::Integrity("losetup returned an invalid loop device"@)),
                )
            }
        },
        (NamedMountText::Attach, NamedMountEventText::Printed(Err(error))) => NamedMountText::Done(
            Err(error),
        ),
        (NamedMountText::Mount { device }, NamedMountEventText::Tried(Ok(()))) =>
        NamedMountText::Resolve,
        (NamedMountText::Mount { device }, NamedMountEventText::Tried(Err(reason))) =>
        NamedMountText::Detach {
            device,
            error: VolumeFailure::Mount("mount named volume: "@ + reason),
        },
        (NamedMountText::Detach { error, .. }, NamedMountEventText::Detached) =>
        NamedMountText::Done(Err(error)),
        (NamedMountText::Resolve, NamedMountEventText::Resolved(result)) => NamedMountText::Done(
            result,
        ),
        (state, _) => state,
    }
}

/// Takes what the host has done or found.
pub fn advance_named_mount(state: NamedMount, event: NamedMountEvent) -> (r: NamedMount)
    ensures
        r@ == named_mount_step(state@, event@),
{
    match (state, event) {
        (NamedMount::Look, NamedMountEvent::Mounted(Ok(mounted))) => if mounted {
            NamedMount::Resolve
        } else {
            NamedMount::Attach
        },
        (NamedMount::Look, NamedMountEvent::Mounted(Err(error))) => NamedMount::Done(Err(error)),
        (NamedMount::Attach, NamedMountEvent::Printed(Ok(output))) => match parse_loop_device(
            output.as_slice(),
        ) {
            Ok(device) => NamedMount::Mount { device },
            Err(error) => NamedMount::Done(Err(error)),
        },
        (NamedMount::Attach, NamedMountEvent::Printed(Err(error))) => NamedMount::Done(Err(error)),
        (NamedMount::Mount { device: _ }, NamedMountEvent::Tried(Ok(()))) => NamedMount::Resolve,
        (NamedMount::Mount { device }, NamedMountEvent::Tried(Err(reason))) => NamedMount::Detach {
            device,
            error: VolumeError::Mount(join2("mount named volume: ", reason.as_str())),
        },
        (NamedMount::Detach { device: _, error }, NamedMountEvent::Detached) => NamedMount::Done(
            Err(error),
        ),
        (NamedMount::Resolve, NamedMountEvent::Resolved(result)) => NamedMount::Done(result),
        (state, _) => state,
    }
}

/// A loop device is mounted only under a proper name, and one that could not be mounted is
/// detached before the failure is returned.
pub proof fn law_failed_mounts_detach_their_device(
    state: NamedMountText,
    event: NamedMountEventText,
)
    ensures
        ({
            let next = named_mount_step(state, event);
            &&& !(state is Mount) && next is Mount ==> command::is_loop_device(next->Mount_device)
            &&& state is Mount ==> !(next is Done)
            &&& state is Mount && event is Tried ==> next is Resolve || (next is Detach
                && next->Detach_device == state->Mount_device)
        }),
{
}

/// A setup begins by the class: a named volume with its backing, an artifact with its content, and
/// a secret one with its directory where there is a resolver.
pub proof fn law_setups_begin_by_class(class: VolumePersistenceClass, has_resolver: bool)
    ensures
        setup_start(class, has_resolver) is Backing <==> class is Ephemeral || class is Persistent,
        setup_start(class, has_resolver) is Artifact <==> class is Artifact,
        setup_start(class, has_resolver) is SecretDirectory <==> class is Secret && has_resolver,
        class is Secret && !has_resolver ==> setup_start(class, has_resolver) == (SetupText::Undo {
            error: VolumeFailure::Unsupported("secret resolver is not configured"@),
        }),
{
}

/// A setup goes on with what was done, to the record in any case, and any failure undoes it.
pub proof fn law_setups_take_their_course(
    state: SetupText,
    names: Seq<Seq<char>>,
    failure: VolumeFailure,
    done: Result<(), VolumeFailure>,
)
    ensures
        setup_step(SetupText::Backing, SetupEventText::Completed(Ok(()))) is Format,
        setup_step(SetupText::Format, SetupEventText::Completed(Ok(()))) is Data,
        setup_step(SetupText::Data, SetupEventText::Completed(Ok(()))) is Record,
        setup_step(SetupText::Artifact, SetupEventText::Completed(Ok(()))) is Record,
        setup_step(SetupText::SecretDirectory, SetupEventText::Completed(Ok(()))) is SecretMount,
        setup_step(SetupText::SecretMount, SetupEventText::Completed(Ok(()))) is Resolve,
        setup_step(SetupText::SecretFiles, SetupEventText::Completed(Ok(()))) is Record,
        setup_step(SetupText::Record, SetupEventText::Completed(Ok(()))) == SetupText::Done(Ok(())),
        setup_step(SetupText::Resolve, SetupEventText::Resolved(Ok(names))) is SecretFiles
            <==> secrets::resolution_failure(names) is None,
        secrets::resolution_failure(names) matches Some(error) ==> setup_step(
            SetupText::Resolve,
            SetupEventText::Resolved(Ok(names)),
        ) == (SetupText::Undo { error }),
        setup_step(SetupText::Resolve, SetupEventText::Resolved(Err(failure))) == (SetupText::Undo {
            error: failure,
        }),
        !(state is Resolve || state is Undo || state is Done) ==> setup_step(
            state,
            SetupEventText::Completed(Err(failure)),
        ) == (SetupText::Undo { error: failure }),
        setup_step((SetupText::Undo { error: failure }), SetupEventText::Completed(done))
            == SetupText::Done(Err(failure)),
{
}

/// A named volume that is mounted is used as it is. Any other gets a loop device and is mounted,
/// and the device is detached where that fails.
pub proof fn law_named_mounts_take_their_course(
    output: Seq<u8>,
    device: Seq<char>,
    reason: Seq<char>,
    failure: VolumeFailure,
    resolved: Result<Seq<char>, VolumeFailure>,
)
    ensures
        named_mount_step(NamedMountText::Look, NamedMountEventText::Mounted(Ok(true))) is Resolve,
        named_mount_step(NamedMountText::Look, NamedMountEventText::Mounted(Ok(false))) is Attach,
        named_mount_step(NamedMountText::Look, NamedMountEventText::Mounted(Err(failure)))
            == NamedMountText::Done(Err(failure)),
        named_mount_step(NamedMountText::Attach, NamedMountEventText::Printed(Ok(output))) == (
        if command::is_loop_device(lines::trimmed(lines::lossy(output))) {
            NamedMountText::Mount { device: lines::trimmed(lines::lossy(output)) }
        } else {
            NamedMountText::Done(
                Err(VolumeFailure::Integrity("losetup returned an invalid loop device"@)),
            )
        }),
        named_mount_step(NamedMountText::Attach, NamedMountEventText::Printed(Err(failure)))
            == NamedMountText::Done(Err(failure)),
        named_mount_step((NamedMountText::Mount { device }), NamedMountEventText::Tried(Ok(())))
            is Resolve,
        named_mount_step((NamedMountText::Mount { device }), NamedMountEventText::Tried(Err(reason)))
            == (NamedMountText::Detach {
            device,
            error: VolumeFailure::Mount("mount named volume: "@ + reason),
        }),
        named_mount_step(
            (NamedMountText::Detach { device, error: failure }),
            NamedMountEventText::Detached,
        ) == NamedMountText::Done(Err(failure)),
        named_mount_step(NamedMountText::Resolve, NamedMountEventText::Resolved(resolved))
            == NamedMountText::Done(resolved),
{
}

} // verus!

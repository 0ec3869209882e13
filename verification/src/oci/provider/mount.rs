//! The steps of mounting an image, as a state machine. The host acts between the steps.

#[allow(unused_imports)]
use crate::digest;
use crate::oci::error::{SandboxError, SandboxFailure};
use crate::oci::provider::config;
use crate::oci::provider::config::below;
use crate::oci::provider::containerd::{
    ContainerdImageProvider, RootfsMeasurement, PROVIDER_ID,
};
use crate::oci::provider::handle::{HandleText, ImmutableRootfs, MetadataText};
use crate::oci::provider::handle::{PreparedImageHandle, ProviderMetadata, RootfsText};
#[allow(unused_imports)]
use crate::oci::provider::rootfs;
use crate::text;
use crate::time::Duration;
use vstd::prelude::*;

verus! {

/// What the host is to do next.
#[allow(inconsistent_fields)]
#[derive(Debug)]
pub enum MountState {
    /// Make the directory of the activations.
    Store,
    /// Look whether the activation is there.
    Inspect,
    /// Read the metadata of the activation that is there.
    Load,
    /// Clean up the activation that is there.
    Clear,
    /// Make the directories of the activation.
    Create,
    /// Ask the client to mount the image.
    Attempt,
    /// Wait before the next attempt.
    Pause,
    /// Resolve the path of the root file system.
    Resolve,
    /// Make the files that the runtime binds over, and remount read-only.
    Files { rootfs: String },
    /// Look up the mount in the mount table.
    Check { rootfs: String },
    /// Read the cached measurement.
    Cached { rootfs: String },
    /// Measure the root file system.
    Measure { rootfs: String },
    /// Keep the measurement.
    KeepMeasurement { rootfs: ImmutableRootfs },
    /// Write the metadata of the activation.
    KeepMetadata { rootfs: ImmutableRootfs },
    /// Remove the directories of the activation.
    Abandon { error: SandboxError },
    /// Clean up the activation.
    Undo { error: SandboxError },
    /// Measure the fixed root file system.
    MeasureFixed,
    /// Nothing more.
    Done(Result<ImmutableRootfs, SandboxError>),
}

/// A `MountState` with its texts read as character sequences.
#[allow(inconsistent_fields)]
pub enum MountText {
    Store,
    Inspect,
    Load,
    Clear,
    Create,
    Attempt,
    Pause,
    Resolve,
    Files { rootfs: Seq<char> },
    Check { rootfs: Seq<char> },
    Cached { rootfs: Seq<char> },
    Measure { rootfs: Seq<char> },
    KeepMeasurement { rootfs: RootfsText },
    KeepMetadata { rootfs: RootfsText },
    Abandon { error: SandboxFailure },
    Undo { error: SandboxFailure },
    MeasureFixed,
    Done(Result<RootfsText, SandboxFailure>),
}

impl View for MountState {
    type V = MountText;

    open spec fn view(&self) -> MountText {
        match *self {
            MountState::Store => MountText::Store,
            MountState::Inspect => MountText::Inspect,
            MountState::Load => MountText::Load,
            MountState::Clear => MountText::Clear,
            MountState::Create => MountText::Create,
            MountState::Attempt => MountText::Attempt,
            MountState::Pause => MountText::Pause,
            MountState::Resolve => MountText::Resolve,
            MountState::Files { rootfs } => MountText::Files { rootfs: rootfs@ },
            MountState::Check { rootfs } => MountText::Check { rootfs: rootfs@ },
            MountState::Cached { rootfs } => MountText::Cached { rootfs: rootfs@ },
            MountState::Measure { rootfs } => MountText::Measure { rootfs: rootfs@ },
            MountState::KeepMeasurement { rootfs } => MountText::KeepMeasurement {
                rootfs: rootfs@,
            },
            MountState::KeepMetadata { rootfs } => MountText::KeepMetadata { rootfs: rootfs@ },
            MountState::Abandon { error } => MountText::Abandon { error: error@ },
            MountState::Undo { error } => MountText::Undo { error: error@ },
            MountState::MeasureFixed => MountText::MeasureFixed,
            MountState::Done(result) => MountText::Done(
                match result {
                    Ok(rootfs) => Ok(rootfs@),
                    Err(error) => Err(error@),
                },
            ),
        }
    }
}

/// What the host has done or found.
#[derive(Debug)]
pub enum MountEvent {
    Completed(Result<(), SandboxError>),
    Present(bool),
    Loaded(Result<Option<ImmutableRootfs>, SandboxError>),
    Expired,
    Resumed,
    Resolved(Result<String, SandboxError>),
    ReadOnly(Result<bool, SandboxError>),
    Recorded(Result<Option<ProviderMetadata>, SandboxError>),
    Measured(Result<RootfsMeasurement, SandboxError>),
}

/// A `RootfsMeasurement` with its texts read as character sequences.
pub struct MeasurementText {
    pub digest: Seq<char>,
    pub entries: usize,
    pub bytes: u64,
}

impl View for RootfsMeasurement {
    type V = MeasurementText;

    open spec fn view(&self) -> MeasurementText {
        MeasurementText { digest: self.digest@, entries: self.entries, bytes: self.bytes }
    }
}

/// A `MountEvent` with its texts read as character sequences.
pub enum EventText {
    Completed(Result<(), SandboxFailure>),
    Present(bool),
    Loaded(Result<Option<RootfsText>, SandboxFailure>),
    Expired,
    Resumed,
    Resolved(Result<Seq<char>, SandboxFailure>),
    ReadOnly(Result<bool, SandboxFailure>),
    Recorded(Result<Option<MetadataText>, SandboxFailure>),
    Measured(Result<MeasurementText, SandboxFailure>),
}

impl View for MountEvent {
    type V = EventText;

    open spec fn view(&self) -> EventText {
        match *self {
            MountEvent::Completed(result) => EventText::Completed(
                match result {
                    Ok(()) => Ok(()),
                    Err(error) => Err(error@),
                },
            ),
            MountEvent::Present(present) => EventText::Present(present),
            MountEvent::Loaded(result) => EventText::Loaded(
                match result {
                    Ok(Some(rootfs)) => Ok(Some(rootfs@)),
                    Ok(None) => Ok(None),
                    Err(error) => Err(error@),
                },
            ),
            MountEvent::Expired => EventText::Expired,
            MountEvent::Resumed => EventText::Resumed,
            MountEvent::Resolved(result) => EventText::Resolved(
                match result {
                    Ok(path) => Ok(path@),
                    Err(error) => Err(error@),
                },
            ),
            MountEvent::ReadOnly(result) => EventText::ReadOnly(
                match result {
                    Ok(flag) => Ok(flag),
                    Err(error) => Err(error@),
                },
            ),
            MountEvent::Recorded(result) => EventText::Recorded(
                match result {
                    Ok(Some(metadata)) => Ok(Some(metadata@)),
                    Ok(None) => Ok(None),
                    Err(error) => Err(error@),
                },
            ),
            MountEvent::Measured(result) => EventText::Measured(
                match result {
                    Ok(measured) => Ok(measured@),
                    Err(error) => Err(error@),
                },
            ),
        }
    }
}

/// The root file system of `handle` at `rootfs`, as it was measured.
pub open spec fn measured_rootfs(
    handle: HandleText,
    rootfs: Seq<char>,
    measured: MeasurementText,
) -> RootfsText {
    RootfsText {
        provider: handle.provider,
        activation_key: handle.activation_key,
        image: handle.image,
        rootfs,
        rootfs_digest: measured.digest,
        rootfs_entries: measured.entries,
        rootfs_bytes: measured.bytes,
    }
}

/// The client works on the image already.
pub open spec fn is_contention(failure: SandboxFailure) -> bool {
    text::has_part(text::utf8(failure.text()), text::utf8("bucket already exists"@))
}

/// What the host is to do first.
pub open spec fn mount_start(provider: ContainerdImageProvider, handle: HandleText) -> MountText {
    if handle.provider != PROVIDER_ID@ {
        MountText::Done(
            Err(
                SandboxFailure::ImageProvider("prepared image handle belongs to another provider"@),
            ),
        )
    } else {
        match provider.image_refusal(handle.image) {
            Some(failure) => MountText::Done(Err(failure)),
            None => match provider.settings().fixed_rootfs {
                None => MountText::Store,
                Some(fixed) => match fixed.measurement {
                    None => MountText::MeasureFixed,
                    Some(measurement) => MountText::Done(
                        Ok(
                            measured_rootfs(
                                handle,
                                fixed.rootfs@,
                                MeasurementText {
                                    digest: measurement.digest@,
                                    entries: measurement.entries,
                                    bytes: measurement.bytes,
                                },
                            ),
                        ),
                    ),
                },
            },
        }
    }
}

/// What the host is to do after an event. An event that the state does not wait for changes
/// nothing.
pub open spec fn mount_step(
    provider: ContainerdImageProvider,
    handle: HandleText,
    state: MountText,
    event: EventText,
) -> MountText {
    match (state, event) {
        (MountText::Store, EventText::Completed(Ok(()))) => MountText::Inspect,
        (MountText::Store, EventText::Completed(Err(error))) => MountText::Done(Err(error)),
        (MountText::Inspect, EventText::Present(true)) => MountText::Load,
        (MountText::Inspect, EventText::Present(false)) => MountText::Create,
        (MountText::Load, EventText::Loaded(Ok(Some(rootfs)))) => MountText::Done(Ok(rootfs)),
        (MountText::Load, EventText::Loaded(_)) => MountText::Clear,
        (MountText::Clear, EventText::Completed(Ok(()))) => MountText::Create,
        (MountText::Clear, EventText::Completed(Err(error))) => MountText::Done(Err(error)),
        (MountText::Create, EventText::Completed(Ok(()))) => MountText::Attempt,
        (MountText::Create, EventText::Completed(Err(error))) => MountText::Done(Err(error)),
        (MountText::Attempt, EventText::Expired) => MountText::Abandon {
            error: SandboxFailure::Timeout("mount immutable containerd image"@),
        },
        (MountText::Attempt, EventText::Completed(Ok(()))) => MountText::Resolve,
        (MountText::Attempt, EventText::Completed(Err(error))) => if is_contention(error) {
            MountText::Pause
        } else {
            MountText::Abandon { error }
        },
        (MountText::Pause, EventText::Resumed) => MountText::Attempt,
        (MountText::Resolve, EventText::Resolved(Ok(rootfs))) => if config::lies_below(
            text::utf8(provider.settings().mount_root@),
            text::utf8(rootfs),
        ) {
            MountText::Files { rootfs }
        } else {
            MountText::Undo {
                error: SandboxFailure::ImageProvider("provider path escaped its configured root"@),
            }
        },
        (MountText::Resolve, EventText::Resolved(Err(error))) => MountText::Undo { error },
        (MountText::Files { rootfs }, EventText::Completed(Ok(()))) => MountText::Check { rootfs },
        (MountText::Files { .. }, EventText::Completed(Err(error))) => MountText::Undo { error },
        (MountText::Check { rootfs }, EventText::ReadOnly(Ok(true))) => MountText::Cached {
            rootfs,
        },
        (MountText::Check { .. }, EventText::ReadOnly(Ok(false))) => MountText::Undo {
            error: SandboxFailure::ImageProvider(
                "containerd mounted an image without read-only enforcement"@,
            ),
        },
        (MountText::Check { .. }, EventText::ReadOnly(Err(error))) => MountText::Undo { error },
        (MountText::Cached { rootfs }, EventText::Recorded(Ok(None))) => MountText::Measure {
            rootfs,
        },
        (MountText::Cached { rootfs }, EventText::Recorded(Ok(Some(metadata)))) => {
            match provider.cache_failure(handle.image, handle.activation_key, metadata) {
                Some(error) => MountText::Undo { error },
                None => MountText::KeepMetadata {
                    rootfs: measured_rootfs(
                        handle,
                        rootfs,
                        MeasurementText {
                            digest: metadata.rootfs_digest,
                            entries: metadata.rootfs_entries,
                            bytes: metadata.rootfs_bytes,
                        },
                    ),
                },
            }
        },
        (MountText::Cached { .. }, EventText::Recorded(Err(error))) => MountText::Undo { error },
        (MountText::Measure { rootfs }, EventText::Measured(Ok(measured))) => {
            MountText::KeepMeasurement { rootfs: measured_rootfs(handle, rootfs, measured) }
        },
        (MountText::Measure { .. }, EventText::Measured(Err(error))) => MountText::Undo { error },
        (MountText::KeepMeasurement { rootfs }, EventText::Completed(Ok(()))) => {
            MountText::KeepMetadata { rootfs }
        },
        (MountText::KeepMeasurement { .. }, EventText::Completed(Err(error))) => MountText::Undo {
            error,
        },
        (MountText::KeepMetadata { rootfs }, EventText::Completed(Ok(()))) => MountText::Done(
            Ok(rootfs),
        ),
        (MountText::KeepMetadata { .. }, EventText::Completed(Err(error))) => MountText::Undo {
            error,
        },
        (MountText::Abandon { error }, EventText::Completed(_)) => MountText::Done(Err(error)),
        (MountText::Undo { error }, EventText::Completed(_)) => MountText::Done(Err(error)),
        (MountText::MeasureFixed, EventText::Measured(Ok(measured))) => {
            match provider.settings().fixed_rootfs {
                Some(fixed) => MountText::Done(
                    Ok(measured_rootfs(handle, fixed.rootfs@, measured)),
                ),
                None => MountText::MeasureFixed,
            }
        },
        (MountText::MeasureFixed, EventText::Measured(Err(error))) => MountText::Done(Err(error)),
        (state, _) => state,
    }
}

fn with_measurement(handle: &PreparedImageHandle, rootfs: String, measured: RootfsMeasurement) -> (r:
    ImmutableRootfs)
    ensures
        r@ == measured_rootfs(handle@, rootfs@, measured@),
{
    ImmutableRootfs::new(handle, rootfs, measured.digest, measured.entries, measured.bytes)
}

/// Begins to mount an image.
pub fn begin_mount(provider: &ContainerdImageProvider, handle: &PreparedImageHandle) -> (r:
    MountState)
    ensures
        r@ == mount_start(*provider, handle@),
{
    if !text::same(handle.provider(), PROVIDER_ID) {
        return MountState::Done(
            Err(
                SandboxError::ImageProvider(
                    "prepared image handle belongs to another provider".to_owned(),
                ),
            ),
        );
    }
    match provider.validate_image(handle.image()) {
        Ok(()) => {},
        Err(error) => return MountState::Done(Err(error)),
    }
    match &provider.config().fixed_rootfs {
        None => MountState::Store,
        Some(fixed) => match provider.fixed_measurement() {
            None => MountState::MeasureFixed,
            Some(measured) => MountState::Done(
                Ok(with_measurement(handle, fixed.rootfs.clone(), measured)),
            ),
        },
    }
}

/// How long to wait before the next attempt.
pub fn pause_length(remaining: Duration) -> (r: Duration)
    ensures
        r.nanoseconds == (if remaining.nanoseconds < 100_000_000 {
            remaining.nanoseconds
        } else {
            100_000_000
        }),
{
    if remaining.nanoseconds < 100_000_000 {
        remaining
    } else {
        Duration::from_millis(100)
    }
}

fn attempted(result: Result<(), SandboxError>) -> (r: MountState)
    ensures
        r@ == (match result {
            Ok(()) => MountText::Resolve,
            Err(error) => if is_contention(error@) {
                MountText::Pause
            } else {
                MountText::Abandon { error: error@ }
            },
        }),
{
    match result {
        Ok(()) => MountState::Resolve,
        Err(error) => {
            let message = error.message();
            if text::contains_text(message.as_str(), "bucket already exists") {
                MountState::Pause
            } else {
                MountState::Abandon { error }
            }
        },
    }
}

fn recorded(
    provider: &ContainerdImageProvider,
    handle: &PreparedImageHandle,
    rootfs: String,
    metadata: ProviderMetadata,
) -> (r: MountState)
    ensures
        r@ == mount_step(
            *provider,
            handle@,
            MountText::Cached { rootfs: rootfs@ },
            EventText::Recorded(Ok(Some(metadata@))),
        ),
{
    match provider.check_cached(handle.image(), handle.activation_key(), &metadata) {
        Err(error) => MountState::Undo { error },
        Ok(()) => MountState::KeepMetadata {
            rootfs: ImmutableRootfs::new(
                handle,
                rootfs,
                metadata.rootfs_digest,
                metadata.rootfs_entries,
                metadata.rootfs_bytes,
            ),
        },
    }
}

/// Takes what the host has done or found.
pub fn advance_mount(
    provider: &ContainerdImageProvider,
    handle: &PreparedImageHandle,
    state: MountState,
    event: MountEvent,
) -> (r: MountState)
    ensures
        r@ == mount_step(*provider, handle@, state@, event@),
{
    match (state, event) {
        (MountState::Store, MountEvent::Completed(result)) => match result {
            Ok(()) => MountState::Inspect,
            Err(error) => MountState::Done(Err(error)),
        },
        (MountState::Inspect, MountEvent::Present(present)) => if present {
            MountState::Load
        } else {
            MountState::Create
        },
        (MountState::Load, MountEvent::Loaded(result)) => match result {
            Ok(Some(rootfs)) => MountState::Done(Ok(rootfs)),
            _ => MountState::Clear,
        },
        (MountState::Clear, MountEvent::Completed(result)) => match result {
            Ok(()) => MountState::Create,
            Err(error) => MountState::Done(Err(error)),
        },
        (MountState::Create, MountEvent::Completed(result)) => match result {
            Ok(()) => MountState::Attempt,
            Err(error) => MountState::Done(Err(error)),
        },
        (MountState::Attempt, MountEvent::Expired) => MountState::Abandon {
            error: SandboxError::Timeout("mount immutable containerd image".to_owned()),
        },
        (MountState::Attempt, MountEvent::Completed(result)) => attempted(result),
        (MountState::Pause, MountEvent::Resumed) => MountState::Attempt,
        (MountState::Resolve, MountEvent::Resolved(result)) => match result {
            Ok(rootfs) => if below(provider.config().mount_root.as_str(), rootfs.as_str()) {
                MountState::Files { rootfs }
            } else {
                MountState::Undo {
                    error: SandboxError::ImageProvider(
                        "provider path escaped its configured root".to_owned(),
                    ),
                }
            },
            Err(error) => MountState::Undo { error },
        },
        (MountState::Files { rootfs }, MountEvent::Completed(result)) => match result {
            Ok(()) => MountState::Check { rootfs },
            Err(error) => MountState::Undo { error },
        },
        (MountState::Check { rootfs }, MountEvent::ReadOnly(result)) => match result {
            Ok(true) => MountState::Cached { rootfs },
            Ok(false) => MountState::Undo {
                error: SandboxError::ImageProvider(
                    "containerd mounted an image without read-only enforcement".to_owned(),
                ),
            },
            Err(error) => MountState::Undo { error },
        },
        (MountState::Cached { rootfs }, MountEvent::Recorded(result)) => match result {
            Ok(None) => MountState::Measure { rootfs },
            Ok(Some(metadata)) => recorded(provider, handle, rootfs, metadata),
            Err(error) => MountState::Undo { error },
        },
        (MountState::Measure { rootfs }, MountEvent::Measured(result)) => match result {
            Ok(measured) => MountState::KeepMeasurement {
                rootfs: with_measurement(handle, rootfs, measured),
            },
            Err(error) => MountState::Undo { error },
        },
        (MountState::KeepMeasurement { rootfs }, MountEvent::Completed(result)) => match result {
            Ok(()) => MountState::KeepMetadata { rootfs },
            Err(error) => MountState::Undo { error },
        },
        (MountState::KeepMetadata { rootfs }, MountEvent::Completed(result)) => match result {
            Ok(()) => MountState::Done(Ok(rootfs)),
            Err(error) => MountState::Undo { error },
        },
        (MountState::Abandon { error }, MountEvent::Completed(_)) => MountState::Done(Err(error)),
        (MountState::Undo { error }, MountEvent::Completed(_)) => MountState::Done(Err(error)),
        (MountState::MeasureFixed, MountEvent::Measured(result)) => match result {
            Ok(measured) => match &provider.config().fixed_rootfs {
                Some(fixed) => MountState::Done(
                    Ok(with_measurement(handle, fixed.rootfs.clone(), measured)),
                ),
                None => MountState::MeasureFixed,
            },
            Err(error) => MountState::Done(Err(error)),
        },
        (state, _) => state,
    }
}

/// Where a row of events leads.
pub open spec fn mounted(
    provider: ContainerdImageProvider,
    handle: HandleText,
    events: Seq<EventText>,
) -> MountText
    decreases events.len(),
{
    if events.len() == 0 {
        mount_start(provider, handle)
    } else {
        mount_step(
            provider,
            handle,
            mounted(provider, handle, events.drop_last()),
            events.last(),
        )
    }
}

/// An event is among others.
pub open spec fn happened(events: Seq<EventText>, event: EventText) -> bool {
    exists|i: int| 0 <= i < events.len() && #[trigger] events[i] == event
}

/// What is true of a root file system on its way to be handed out.
pub open spec fn is_sound(
    provider: ContainerdImageProvider,
    handle: HandleText,
    events: Seq<EventText>,
    rootfs: RootfsText,
) -> bool {
    &&& happened(events, EventText::ReadOnly(Ok(true)))
    &&& rootfs.provider == PROVIDER_ID@
    &&& rootfs.activation_key == handle.activation_key
    &&& rootfs.image == handle.image
    &&& config::lies_below(
        text::utf8(provider.settings().mount_root@),
        text::utf8(rootfs.rootfs),
    )
}

/// What the state says about the events that led to it.
pub open spec fn mount_invariant(
    provider: ContainerdImageProvider,
    handle: HandleText,
    events: Seq<EventText>,
    state: MountText,
) -> bool {
    let root = text::utf8(provider.settings().mount_root@);
    &&& !(state is MeasureFixed)
    &&& !(state is Done) ==> handle.provider == PROVIDER_ID@ && provider.image_refusal(
        handle.image,
    ) is None
    &&& match state {
        MountText::Files { rootfs } => config::lies_below(root, text::utf8(rootfs)),
        MountText::Check { rootfs } => config::lies_below(root, text::utf8(rootfs)),
        MountText::Cached { rootfs } => config::lies_below(root, text::utf8(rootfs)) && happened(
            events,
            EventText::ReadOnly(Ok(true)),
        ),
        MountText::Measure { rootfs } => config::lies_below(root, text::utf8(rootfs)) && happened(
            events,
            EventText::ReadOnly(Ok(true)),
        ),
        MountText::KeepMeasurement { rootfs } => is_sound(provider, handle, events, rootfs),
        MountText::KeepMetadata { rootfs } => is_sound(provider, handle, events, rootfs),
        MountText::Done(Ok(rootfs)) => is_sound(provider, handle, events, rootfs) || happened(
            events,
            EventText::Loaded(Ok(Some(rootfs))),
        ),
        _ => true,
    }
}

proof fn lemma_mount_invariant(
    provider: ContainerdImageProvider,
    handle: HandleText,
    events: Seq<EventText>,
)
    requires
        !provider.is_fixed(),
    ensures
        mount_invariant(provider, handle, events, mounted(provider, handle, events)),
    decreases events.len(),
{
    if events.len() > 0 {
        let earlier = events.drop_last();
        let last = events.last();
        lemma_mount_invariant(provider, handle, earlier);
        assert(events[events.len() - 1] == last);
        assert forall|event: EventText| happened(earlier, event) implies happened(events, event) by {
            let i = choose|i: int| 0 <= i < earlier.len() && #[trigger] earlier[i] == event;
            assert(events[i] == event);
        }
        if last == EventText::ReadOnly(Ok(true)) {
            assert(happened(events, EventText::ReadOnly(Ok(true))));
        }
        match last {
            EventText::Loaded(Ok(Some(rootfs))) => {
                assert(happened(events, EventText::Loaded(Ok(Some(rootfs)))));
            },
            _ => {},
        }
    }
}

/// A root file system that is handed out was found mounted read-only below the mount root
/// and is of the image that was asked for, unless an earlier activation vouched for it.
pub proof fn law_mounted_rootfs_is_read_only(
    provider: ContainerdImageProvider,
    handle: HandleText,
    events: Seq<EventText>,
    rootfs: RootfsText,
)
    requires
        !provider.is_fixed(),
        mounted(provider, handle, events) == MountText::Done(
            Ok::<RootfsText, SandboxFailure>(rootfs),
        ),
    ensures
        is_sound(provider, handle, events, rootfs) || happened(
            events,
            EventText::Loaded(Ok(Some(rootfs))),
        ),
{
    lemma_mount_invariant(provider, handle, events);
}

/// What the metadata of an earlier activation may vouch for.
pub open spec fn is_vouched(
    provider: ContainerdImageProvider,
    handle: HandleText,
    found: RootfsText,
) -> bool {
    exists|metadata: MetadataText, read_only: bool|
        #[trigger] provider.activation_failure(handle, metadata, found.rootfs, read_only) is None
            && found == provider.vouched_rootfs(handle, metadata, found.rootfs)
}

/// The host says what the library told it: a measurement is one that a meter finished under the
/// limits of the provider, and a root file system that was loaded is one that its metadata
/// vouches for.
pub open spec fn is_truthful(
    provider: ContainerdImageProvider,
    handle: HandleText,
    events: Seq<EventText>,
) -> bool {
    forall|i: int|
        0 <= i < events.len() ==> match #[trigger] events[i] {
            EventText::Measured(Ok(measured)) => rootfs::is_allowed(
                measured,
                provider.settings().limits,
            ),
            EventText::Loaded(Ok(Some(found))) => is_vouched(provider, handle, found),
            _ => true,
        }
}

/// What was measured of a root file system is within the limits.
pub open spec fn is_bounded(provider: ContainerdImageProvider, rootfs: RootfsText) -> bool {
    rootfs::is_allowed(
        MeasurementText {
            digest: rootfs.rootfs_digest,
            entries: rootfs.rootfs_entries,
            bytes: rootfs.rootfs_bytes,
        },
        provider.settings().limits,
    )
}

proof fn lemma_mount_is_bounded(
    provider: ContainerdImageProvider,
    handle: HandleText,
    events: Seq<EventText>,
)
    requires
        !provider.is_fixed(),
        is_truthful(provider, handle, events),
    ensures
        match mounted(provider, handle, events) {
            MountText::KeepMeasurement { rootfs } => is_bounded(provider, rootfs),
            MountText::KeepMetadata { rootfs } => is_bounded(provider, rootfs),
            MountText::Done(Ok(rootfs)) => is_bounded(provider, rootfs),
            MountText::MeasureFixed => false,
            _ => true,
        },
    decreases events.len(),
{
    if events.len() > 0 {
        let earlier = events.drop_last();
        assert forall|i: int| 0 <= i < earlier.len() implies match #[trigger] earlier[i] {
            EventText::Measured(Ok(measured)) => rootfs::is_allowed(
                measured,
                provider.settings().limits,
            ),
            EventText::Loaded(Ok(Some(found))) => is_vouched(provider, handle, found),
            _ => true,
        } by {
            assert(earlier[i] == events[i]);
        }
        lemma_mount_is_bounded(provider, handle, earlier);
        assert(events[events.len() - 1] == events.last());
    }
}

/// A root file system that is handed out is within the limits of the provider and has a digest,
/// whether it was measured just now or is used again.
pub proof fn law_mounted_rootfs_is_within_limits(
    provider: ContainerdImageProvider,
    handle: HandleText,
    events: Seq<EventText>,
    rootfs: RootfsText,
)
    requires
        !provider.is_fixed(),
        is_truthful(provider, handle, events),
        mounted(provider, handle, events) == MountText::Done(
            Ok::<RootfsText, SandboxFailure>(rootfs),
        ),
    ensures
        rootfs.rootfs_bytes <= provider.settings().limits.maximum_expanded_bytes,
        rootfs.rootfs_entries <= provider.settings().limits.maximum_entries,
        digest::is_identity(rootfs.rootfs_digest),
{
    lemma_mount_is_bounded(provider, handle, events);
}

/// Whether directories or a mount of this activation may be left behind in a state.
pub open spec fn is_under_way(state: MountText) -> bool {
    match state {
        MountText::Attempt => true,
        MountText::Pause => true,
        MountText::Resolve => true,
        MountText::Files { .. } => true,
        MountText::Check { .. } => true,
        MountText::Cached { .. } => true,
        MountText::Measure { .. } => true,
        MountText::KeepMeasurement { .. } => true,
        MountText::KeepMetadata { .. } => true,
        _ => false,
    }
}

/// A mount that is under way never fails without being taken back first: the failure is
/// handed out only behind the state that removes what was made.
pub proof fn law_failed_mount_is_taken_back(
    provider: ContainerdImageProvider,
    handle: HandleText,
    state: MountText,
    event: EventText,
)
    requires
        is_under_way(state),
    ensures
        match mount_step(provider, handle, state, event) {
            MountText::Done(result) => result is Ok && state is KeepMetadata,
            next => is_under_way(next) || next is Abandon || next is Undo,
        },
{
}

/// A root file system says of image and measurement what the handle and the measurement say.
pub proof fn law_measured_rootfs_is_of_its_handle(
    handle: HandleText,
    rootfs: Seq<char>,
    measured: MeasurementText,
)
    ensures
        measured_rootfs(handle, rootfs, measured).provider == handle.provider,
        measured_rootfs(handle, rootfs, measured).activation_key == handle.activation_key,
        measured_rootfs(handle, rootfs, measured).image == handle.image,
        measured_rootfs(handle, rootfs, measured).rootfs == rootfs,
        measured_rootfs(handle, rootfs, measured).rootfs_digest == measured.digest,
        measured_rootfs(handle, rootfs, measured).rootfs_entries == measured.entries,
        measured_rootfs(handle, rootfs, measured).rootfs_bytes == measured.bytes,
{
}

/// The client works on the image already exactly where its failure says, anywhere in its text,
/// that the bucket exists.
pub proof fn law_contention_is_told_by_the_text(
    failure: SandboxFailure,
    front: Seq<u8>,
    back: Seq<u8>,
)
    ensures
        text::utf8(failure.text()) == front + text::utf8("bucket already exists"@) + back
            ==> is_contention(failure),
        is_contention(failure) ==> exists|at: int|
            0 <= at && at + text::utf8("bucket already exists"@).len() <= text::utf8(
                failure.text(),
            ).len() && #[trigger] text::utf8(failure.text()).subrange(
                at,
                at + text::utf8("bucket already exists"@).len(),
            ) == text::utf8("bucket already exists"@),
{
    let whole = text::utf8(failure.text());
    let part = text::utf8("bucket already exists"@);
    if whole == front + part + back {
        assert(whole.subrange(front.len() as int, front.len() as int + part.len()) =~= part);
        assert(text::stands_at(whole, part, front.len() as int));
    }
    if is_contention(failure) {
        let at = choose|at: int| #[trigger] text::stands_at(whole, part, at);
        assert(whole.subrange(at, at + part.len()) == part);
    }
}

/// A mount begins with the store, unless the handle is of another provider, the image is refused
/// or one root file system is fixed.
pub proof fn law_mounts_begin_with_the_store(provider: ContainerdImageProvider, handle: HandleText)
    ensures
        mount_start(provider, handle) is Store <==> handle.provider == "containerd-v1"@
            && provider.image_refusal(handle.image) is None && provider.settings().fixed_rootfs
            is None,
        handle.provider != "containerd-v1"@ ==> mount_start(provider, handle) == MountText::Done(
            Err(
                SandboxFailure::ImageProvider("prepared image handle belongs to another provider"@),
            ),
        ),
        handle.provider == "containerd-v1"@ ==> (provider.image_refusal(handle.image) matches Some(
            failure,
        ) ==> mount_start(provider, handle) == MountText::Done(Err(failure))),
        handle.provider == "containerd-v1"@ && provider.image_refusal(handle.image) is None
            ==> (provider.settings().fixed_rootfs matches Some(fixed) ==> match fixed.measurement {
            None => mount_start(provider, handle) is MeasureFixed,
            Some(measurement) => mount_start(provider, handle) matches MountText::Done(Ok(rootfs))
                && {
                &&& rootfs.image == handle.image
                &&& rootfs.activation_key == handle.activation_key
                &&& rootfs.rootfs == fixed.rootfs@
                &&& rootfs.rootfs_digest == measurement.digest@
                &&& rootfs.rootfs_entries == measurement.entries
                &&& rootfs.rootfs_bytes == measurement.bytes
            },
        }),
{
}

/// A mount goes on with what the host has done: what is there is loaded, what cannot be loaded is
/// cleared and made anew, and an attempt that met another is made again after a pause.
pub proof fn law_mounts_take_their_course(
    provider: ContainerdImageProvider,
    handle: HandleText,
    rootfs: RootfsText,
    failure: SandboxFailure,
    loaded: Result<Option<RootfsText>, SandboxFailure>,
)
    ensures
        mount_step(provider, handle, MountText::Store, EventText::Completed(Ok(()))) is Inspect,
        mount_step(provider, handle, MountText::Inspect, EventText::Present(true)) is Load,
        mount_step(provider, handle, MountText::Inspect, EventText::Present(false)) is Create,
        loaded == Ok::<Option<RootfsText>, SandboxFailure>(Some(rootfs)) ==> mount_step(
            provider,
            handle,
            MountText::Load,
            EventText::Loaded(loaded),
        ) == MountText::Done(Ok(rootfs)),
        !(loaded matches Ok(Some(_))) ==> mount_step(
            provider,
            handle,
            MountText::Load,
            EventText::Loaded(loaded),
        ) is Clear,
        mount_step(provider, handle, MountText::Clear, EventText::Completed(Ok(()))) is Create,
        mount_step(provider, handle, MountText::Create, EventText::Completed(Ok(()))) is Attempt,
        mount_step(provider, handle, MountText::Attempt, EventText::Completed(Ok(()))) is Resolve,
        mount_step(provider, handle, MountText::Attempt, EventText::Completed(Err(failure))) == (
        if is_contention(failure) {
            MountText::Pause
        } else {
            MountText::Abandon { error: failure }
        }),
        mount_step(provider, handle, MountText::Attempt, EventText::Expired) == (
        MountText::Abandon { error: SandboxFailure::Timeout("mount immutable containerd image"@) }),
        mount_step(provider, handle, MountText::Pause, EventText::Resumed) is Attempt,
        forall|state: MountText|
            (state is Store || state is Clear || state is Create) ==> #[trigger] mount_step(
                provider,
                handle,
                state,
                EventText::Completed(Err(failure)),
            ) == MountText::Done(Err(failure)),
        forall|state: MountText|
            (state is Files || state is KeepMeasurement || state is KeepMetadata)
                ==> #[trigger] mount_step(
                provider,
                handle,
                state,
                EventText::Completed(Err(failure)),
            ) == (MountText::Undo { error: failure }),
        mount_step(
            provider,
            handle,
            (MountText::Undo { error: failure }),
            EventText::Completed(Ok(())),
        ) == MountText::Done(Err(failure)),
        mount_step(
            provider,
            handle,
            (MountText::Abandon { error: failure }),
            EventText::Completed(Ok(())),
        ) == MountText::Done(Err(failure)),
        mount_step(
            provider,
            handle,
            (MountText::KeepMeasurement { rootfs }),
            EventText::Completed(Ok(())),
        ) == (MountText::KeepMetadata { rootfs }),
        mount_step(
            provider,
            handle,
            (MountText::KeepMetadata { rootfs }),
            EventText::Completed(Ok(())),
        ) == MountText::Done(Ok(rootfs)),
{
}

/// What was mounted is looked at before it is measured: it lies below the mount root and is
/// read-only, and what is known of it already is taken over only where it is of the image.
pub proof fn law_mounted_paths_are_looked_at(
    provider: ContainerdImageProvider,
    handle: HandleText,
    path: Seq<char>,
    metadata: MetadataText,
    measured: MeasurementText,
    failure: SandboxFailure,
)
    ensures
        mount_step(provider, handle, MountText::Resolve, EventText::Resolved(Ok(path))) == (
        if config::lies_below(text::utf8(provider.settings().mount_root@), text::utf8(path)) {
            MountText::Files { rootfs: path }
        } else {
            MountText::Undo {
                error: SandboxFailure::ImageProvider("provider path escaped its configured root"@),
            }
        }),
        mount_step(provider, handle, MountText::Resolve, EventText::Resolved(Err(failure))) == (
        MountText::Undo { error: failure }),
        mount_step(
            provider,
            handle,
            (MountText::Files { rootfs: path }),
            EventText::Completed(Ok(())),
        ) == (MountText::Check { rootfs: path }),
        mount_step(
            provider,
            handle,
            (MountText::Check { rootfs: path }),
            EventText::ReadOnly(Ok(true)),
        ) == (MountText::Cached { rootfs: path }),
        mount_step(
            provider,
            handle,
            (MountText::Check { rootfs: path }),
            EventText::ReadOnly(Ok(false)),
        ) is Undo,
        mount_step(
            provider,
            handle,
            (MountText::Check { rootfs: path }),
            EventText::ReadOnly(Err(failure)),
        ) == (MountText::Undo { error: failure }),
        mount_step(
            provider,
            handle,
            (MountText::Cached { rootfs: path }),
            EventText::Recorded(Ok(None)),
        ) == (MountText::Measure { rootfs: path }),
        mount_step(
            provider,
            handle,
            (MountText::Cached { rootfs: path }),
            EventText::Recorded(Err(failure)),
        ) == (MountText::Undo { error: failure }),
        mount_step(
            provider,
            handle,
            (MountText::Cached { rootfs: path }),
            EventText::Recorded(Ok(Some(metadata))),
        ) is KeepMetadata <==> provider.cache_failure(
            handle.image,
            handle.activation_key,
            metadata,
        ) is None,
        mount_step(
            provider,
            handle,
            (MountText::Cached { rootfs: path }),
            EventText::Recorded(Ok(Some(metadata))),
        ) matches MountText::KeepMetadata { rootfs } ==> rootfs.rootfs == path
            && rootfs.rootfs_digest == metadata.rootfs_digest && rootfs.rootfs_entries
            == metadata.rootfs_entries && rootfs.rootfs_bytes == metadata.rootfs_bytes,
        mount_step(
            provider,
            handle,
            (MountText::Measure { rootfs: path }),
            EventText::Measured(Ok(measured)),
        ) == (MountText::KeepMeasurement { rootfs: measured_rootfs(handle, path, measured) }),
        mount_step(
            provider,
            handle,
            (MountText::Measure { rootfs: path }),
            EventText::Measured(Err(failure)),
        ) == (MountText::Undo { error: failure }),
{
}

} // verus!

//! From a restricted Compose file to a locked topology.

use crate::checks;
use crate::digest;
#[allow(unused_imports)]
use crate::oci::address::IpAddress;
use crate::oci::error;
use crate::oci::error::{SandboxError, SandboxFailure};
#[allow(unused_imports)]
use crate::oci::network::HttpScheme;
use crate::oci::startup;
use crate::oci::startup::startup_order;
use crate::oci::values;
use crate::oci::values::{
    is_listed, validate_environment, validate_identifier, validate_image_reference, validate_value,
    validate_values,
};
use crate::oci::model::{
    ComposeInput, DependencyCondition, DependencyInput, GuestProfileIdentity, HealthcheckInput,
    LockedHealthcheck, LockedImage, LockedNetwork, LockedService, LockedVolume, NetworkInput,
    RootFilesystemMode, SandboxPolicy, ServiceInput, ServiceVolumeInput, TopologyLock, VolumeInput,
    VolumePersistenceClass, VolumeSnapshotPolicy, VolumeSpec, LOCK_SCHEMA_VERSION, MAX_ARGUMENTS,
    MAX_COMPOSE_BYTES, MAX_ENVIRONMENT, MAX_NETWORKS, MAX_SERVICES, MAX_SERVICE_VOLUMES,
    MAX_VOLUMES,
};
use crate::table;
use crate::table::Table;
use crate::text;
use crate::text::{join2, join3, join5};
use vstd::prelude::*;

verus! {

/// `answer` is an answer of `ask` to `question`.
pub open spec fn told<R, F: Fn(&str) -> R>(ask: F, question: Seq<char>, answer: R) -> bool {
    exists|text: &str| text@ == question && #[trigger] call_ensures(ask, (text,), answer)
}

/// The snapshot policy of a volume that names none.
pub open spec fn snapshot_default(class: VolumePersistenceClass) -> VolumeSnapshotPolicy {
    match class {
        VolumePersistenceClass::Persistent => VolumeSnapshotPolicy::Required,
        VolumePersistenceClass::Ephemeral => VolumeSnapshotPolicy::BestEffort,
        VolumePersistenceClass::Artifact => VolumeSnapshotPolicy::Excluded,
        VolumePersistenceClass::Secret => VolumeSnapshotPolicy::Excluded,
    }
}

/// `locked` is the volume that `input` declares.
pub open spec fn locks_volume(input: VolumeInput, locked: LockedVolume) -> bool {
    &&& locked.persistence_class == input.persistence_class
    &&& locked.snapshot_policy == match input.snapshot_policy {
        Some(policy) => policy,
        None => snapshot_default(input.persistence_class),
    }
    &&& locked.quota_bytes == match input.quota_bytes {
        Some(quota) => quota,
        None => 0,
    }
    &&& locked.content_digest == input.content_digest
}

/// Why a declared volume is refused, given whether its name identifies a volume.
pub open spec fn volume_failure(
    name: Seq<char>,
    input: VolumeInput,
    identity: Result<(), String>,
) -> Option<SandboxFailure> {
    checks::or(
        values::identifier_failure("volume"@, name),
        match identity {
            Err(reason) => Some(SandboxFailure::Compose(reason@)),
            Ok(()) => checks::when(
                input.quota_bytes is None && !(input.persistence_class is Artifact),
                SandboxFailure::Compose(
                    "volume `"@ + name + "` requires an explicit quota_bytes"@,
                ),
            ),
        },
    )
}

pub open spec fn volume_failures(
    rows: Seq<(String, VolumeInput)>,
    identities: Seq<Result<(), String>>,
) -> Seq<Option<SandboxFailure>> {
    Seq::new(rows.len(), |i: int| volume_failure(rows[i].0@, rows[i].1, identities[i]))
}

/// `locked` holds the volumes that `rows` declare, in their order.
pub open spec fn locks_volumes(
    rows: Seq<(String, VolumeInput)>,
    locked: Seq<(String, LockedVolume)>,
) -> bool {
    &&& locked.len() == rows.len()
    &&& forall|i: int|
        0 <= i < rows.len() ==> {
            &&& (#[trigger] locked[i]).0 == rows[i].0
            &&& locks_volume(rows[i].1, locked[i].1)
        }
}

/// Each of `answers` is an answer of `ask` about the key of its row.
pub open spec fn told_of_keys<T, R, F: Fn(&str) -> R>(
    ask: F,
    rows: Seq<(String, T)>,
    answers: Seq<R>,
) -> bool {
    &&& answers.len() <= rows.len()
    &&& forall|i: int| 0 <= i < answers.len() ==> told(ask, rows[i].0@, #[trigger] answers[i])
}

fn lock_volume(name: &str, input: VolumeInput, identity: Result<(), String>) -> (r: Result<
    LockedVolume,
    SandboxError,
>)
    ensures
        match r {
            Err(error) => volume_failure(name@, input, identity) == Some(error@),
            Ok(locked) => volume_failure(name@, input, identity) is None && locks_volume(
                input,
                locked,
            ),
        },
{
    match validate_identifier("volume", name) {
        Ok(()) => {},
        Err(error) => return Err(error),
    }
    match identity {
        Ok(()) => {},
        Err(reason) => return Err(SandboxError::Compose(reason)),
    }
    let snapshot_policy = match input.snapshot_policy {
        Some(policy) => policy,
        None => match input.persistence_class {
            VolumePersistenceClass::Persistent => VolumeSnapshotPolicy::Required,
            VolumePersistenceClass::Ephemeral => VolumeSnapshotPolicy::BestEffort,
            VolumePersistenceClass::Artifact => VolumeSnapshotPolicy::Excluded,
            VolumePersistenceClass::Secret => VolumeSnapshotPolicy::Excluded,
        },
    };
    let quota_bytes: u64 = match (input.persistence_class, input.quota_bytes) {
        (VolumePersistenceClass::Artifact, None) => 0,
        (_, Some(quota)) => quota,
        _ => {
            return Err(
                SandboxError::Compose(
                    join3("volume `", name, "` requires an explicit quota_bytes"),
                ),
            );
        },
    };
    Ok(
        LockedVolume {
            persistence_class: input.persistence_class,
            snapshot_policy,
            quota_bytes,
            content_digest: input.content_digest,
        },
    )
}

fn lock_volumes<I: Fn(&str) -> Result<(), String>>(
    volumes: Table<VolumeInput>,
    identify: &I,
) -> (r: (Result<Table<LockedVolume>, SandboxError>, Ghost<Seq<Result<(), String>>>))
    requires
        forall|name: &str| #[trigger] call_requires(*identify, (name,)),
    ensures
        told_of_keys(*identify, volumes.rows(), r.1@),
        match r.0 {
            Err(error) => checks::first(volume_failures(volumes.rows(), r.1@)) == Some(error@),
            Ok(locked) => {
                &&& r.1@.len() == volumes.rows().len()
                &&& checks::first(volume_failures(volumes.rows(), r.1@)) is None
                &&& locks_volumes(volumes.rows(), locked.rows())
            },
        },
{
    let ghost all = volumes.rows();
    let rows = volumes.into_rows();
    let mut locked: Table<LockedVolume> = Table::new();
    let ghost mut answers: Seq<Result<(), String>> = Seq::empty();
    for row in walk: rows
        invariant
            walk.seq() == all,
            all == volumes.rows(),
            table::ordered(all),
            forall|name: &str| #[trigger] call_requires(*identify, (name,)),
            answers.len() == walk.index(),
            told_of_keys(*identify, all, answers),
            locks_volumes(all.take(walk.index() as int), locked.rows()),
            forall|j: int|
                0 <= j < walk.index() ==> #[trigger] volume_failures(all, answers)[j] is None,
    {
        let ghost i = walk.index();
        let (name, input) = row;
        let question = name.as_str();
        let answer = identify(question);
        let ghost grown = answers.push(answer);
        proof {
            assert(told(*identify, all[i].0@, answer));
            assert(told_of_keys(*identify, all, grown));
            assert forall|j: int| 0 <= j < i implies #[trigger] volume_failures(all, grown)[j] is None by {
                assert(volume_failures(all, answers)[j] is None);
            }
            answers = grown;
        }
        match lock_volume(name.as_str(), input, answer) {
            Err(error) => {
                proof {
                    checks::lemma_first_at(volume_failures(all, grown), i as int);
                }
                return (Err(error), Ghost(grown));
            },
            Ok(volume) => {
                proof {
                    let before = locked.rows();
                    let after = before.push((name, volume));
                    assert forall|a: int, b: int| 0 <= a < b < after.len() implies table::precedes(
                        text::utf8(#[trigger] after[a].0@),
                        text::utf8(#[trigger] after[b].0@),
                    ) by {
                        assert(after[a].0 == all[a].0);
                        assert(after[b].0 == all[b].0);
                    }
                }
                locked.append(name, volume);
            },
        }
    }
    proof {
        assert(all.take(all.len() as int) =~= all);
        checks::lemma_first_none(volume_failures(all, answers));
    }
    (Ok(locked), Ghost(answers))
}

/// Why a declared network is refused.
pub open spec fn network_failure(name: Seq<char>, input: NetworkInput) -> Option<SandboxFailure> {
    checks::or(
        values::identifier_failure("network"@, name),
        checks::or(
            checks::when(
                input.internal == Some(false),
                SandboxFailure::Unsupported(
                    "network `"@ + name + "` requests external connectivity"@,
                ),
            ),
            checks::when(
                input.driver is Some && input.driver->0@ != "bridge"@,
                SandboxFailure::Unsupported(
                    "network `"@ + name + "` does not use the bridge driver"@,
                ),
            ),
        ),
    )
}

pub open spec fn networks_failure(rows: Seq<(String, NetworkInput)>) -> Option<SandboxFailure> {
    checks::or(
        checks::when(
            rows.len() > MAX_NETWORKS,
            SandboxFailure::Compose("network count exceeds 8"@),
        ),
        checks::first(Seq::new(rows.len(), |i: int| network_failure(rows[i].0@, rows[i].1))),
    )
}

/// Every locked network is an internal bridge.
pub open spec fn is_bridge(network: LockedNetwork) -> bool {
    network.internal && network.driver@ == "bridge"@
}

/// `locked` holds an internal bridge for each declared network, or one named `default`.
pub open spec fn locks_networks(
    rows: Seq<(String, NetworkInput)>,
    locked: Seq<(String, LockedNetwork)>,
) -> bool {
    &&& forall|i: int| 0 <= i < locked.len() ==> is_bridge((#[trigger] locked[i]).1)
    &&& if rows.len() == 0 {
        locked.len() == 1 && locked[0].0@ == "default"@
    } else {
        locked.len() == rows.len() && forall|i: int|
            0 <= i < rows.len() ==> (#[trigger] locked[i]).0 == rows[i].0
    }
}

fn bridge() -> (r: LockedNetwork)
    ensures
        is_bridge(r),
{
    LockedNetwork { internal: true, driver: "bridge".to_owned() }
}

fn validate_network(name: &str, input: &NetworkInput) -> (r: Result<(), SandboxError>)
    ensures
        error::outcome(r) == checks::verdict(network_failure(name@, *input)),
{
    match validate_identifier("network", name) {
        Ok(()) => {},
        Err(error) => return Err(error),
    }
    match input.internal {
        Some(false) => {
            return Err(
                SandboxError::Unsupported(
                    join3("network `", name, "` requests external connectivity"),
                ),
            );
        },
        _ => {},
    }
    match &input.driver {
        Some(driver) => {
            if !text::same(driver.as_str(), "bridge") {
                return Err(
                    SandboxError::Unsupported(
                        join3("network `", name, "` does not use the bridge driver"),
                    ),
                );
            }
        },
        None => {},
    }
    Ok(())
}

fn lock_networks(networks: Table<NetworkInput>) -> (r: Result<Table<LockedNetwork>, SandboxError>)
    ensures
        match r {
            Err(error) => networks_failure(networks.rows()) == Some(error@),
            Ok(locked) => {
                &&& networks_failure(networks.rows()) is None
                &&& locks_networks(networks.rows(), locked.rows())
            },
        },
{
    let ghost all = networks.rows();
    let mut locked: Table<LockedNetwork> = Table::new();
    if networks.len() == 0 {
        locked.append("default".to_owned(), bridge());
        proof {
            checks::lemma_first_none(
                Seq::new(all.len(), |i: int| network_failure(all[i].0@, all[i].1)),
            );
        }
        return Ok(locked);
    }
    if networks.len() > MAX_NETWORKS {
        return Err(SandboxError::Compose("network count exceeds 8".to_owned()));
    }
    let rows = networks.into_rows();
    let ghost failures = Seq::new(all.len(), |i: int| network_failure(all[i].0@, all[i].1));
    for row in walk: rows
        invariant
            walk.seq() == all,
            all == networks.rows(),
            0 < all.len() <= MAX_NETWORKS,
            failures == Seq::new(all.len(), |i: int| network_failure(all[i].0@, all[i].1)),
            table::ordered(all),
            locked.rows().len() == walk.index(),
            forall|j: int|
                0 <= j < walk.index() ==> {
                    &&& (#[trigger] locked.rows()[j]).0 == all[j].0
                    &&& is_bridge(locked.rows()[j].1)
                },
            forall|j: int| 0 <= j < walk.index() ==> #[trigger] failures[j] is None,
    {
        let ghost i = walk.index();
        let (name, input) = row;
        match validate_network(name.as_str(), &input) {
            Err(error) => {
                proof {
                    checks::lemma_first_at(failures, i as int);
                }
                return Err(error);
            },
            Ok(()) => {
                let network = bridge();
                proof {
                    let after = locked.rows().push((name, network));
                    assert forall|a: int, b: int| 0 <= a < b < after.len() implies table::precedes(
                        text::utf8(#[trigger] after[a].0@),
                        text::utf8(#[trigger] after[b].0@),
                    ) by {
                        assert(after[a].0 == all[a].0);
                        assert(after[b].0 == all[b].0);
                    }
                }
                locked.append(name, network);
            },
        }
    }
    proof {
        checks::lemma_first_none(failures);
    }
    Ok(locked)
}

/// Whether a mount of `class` that asks for `read_only` is mounted read-only.
pub open spec fn mounts_read_only(
    class: VolumePersistenceClass,
    read_only: Option<bool>,
) -> bool {
    if class.named() {
        read_only == Some(true)
    } else {
        true
    }
}

/// `spec` mounts the volume that `definition` locks as `mount` asks.
pub open spec fn mounts(
    mount: ServiceVolumeInput,
    definition: LockedVolume,
    version: u32,
    spec: VolumeSpec,
) -> bool {
    &&& spec.schema_version == version
    &&& spec.volume_id@ == mount.source@
    &&& spec.destination@ == mount.target@
    &&& spec.read_only == mounts_read_only(definition.persistence_class, mount.read_only)
    &&& spec.persistence_class == definition.persistence_class
    &&& spec.snapshot_policy == definition.snapshot_policy
    &&& spec.quota_bytes == definition.quota_bytes
    &&& spec.content_digest == definition.content_digest
}

/// Why mount `i` of a service is refused, given what the volume check said of it.
pub open spec fn mount_failure(
    service: Seq<char>,
    mounted: Seq<ServiceVolumeInput>,
    i: int,
    volumes: Map<Seq<char>, LockedVolume>,
    answer: Result<(), String>,
) -> Option<SandboxFailure> {
    let mount = mounted[i];
    if !volumes.contains_key(mount.source@) {
        Some(
            SandboxFailure::Compose(
                "service `"@ + service + "` references unknown volume `"@ + mount.source@ + "`"@,
            ),
        )
    } else if !volumes[mount.source@].persistence_class.named() && mount.read_only == Some(false) {
        Some(
            SandboxFailure::Compose(
                "service `"@ + service + "` requests a writable immutable volume"@,
            ),
        )
    } else {
        match answer {
            Err(reason) => Some(SandboxFailure::Compose(reason@)),
            Ok(()) => checks::when(
                exists|j: int| 0 <= j < i && #[trigger] mounted[j].target@ == mount.target@,
                SandboxFailure::Compose(
                    "service `"@ + service + "` repeats volume destination `"@ + mount.target@
                        + "`"@,
                ),
            ),
        }
    }
}

pub open spec fn mount_failures(
    service: Seq<char>,
    mounted: Seq<ServiceVolumeInput>,
    volumes: Map<Seq<char>, LockedVolume>,
    answers: Seq<Result<(), String>>,
) -> Seq<Option<SandboxFailure>> {
    Seq::new(
        mounted.len(),
        |i: int| mount_failure(service, mounted, i, volumes, answers[i]),
    )
}

/// `answer` is what `check` said of the volume that `mount` asks for.
pub open spec fn told_of_mount<C: Fn(&VolumeSpec) -> Result<(), String>>(
    check: C,
    mount: ServiceVolumeInput,
    volumes: Map<Seq<char>, LockedVolume>,
    version: u32,
    answer: Result<(), String>,
) -> bool {
    exists|spec: VolumeSpec|
        mounts(mount, volumes[mount.source@], version, spec) && #[trigger] call_ensures(
            check,
            (&spec,),
            answer,
        )
}

/// Each of `answers` is what `check` said of its mount, wherever the check was reached.
pub open spec fn told_of_mounts<C: Fn(&VolumeSpec) -> Result<(), String>>(
    check: C,
    mounted: Seq<ServiceVolumeInput>,
    volumes: Map<Seq<char>, LockedVolume>,
    version: u32,
    answers: Seq<Result<(), String>>,
) -> bool {
    &&& answers.len() <= mounted.len()
    &&& forall|i: int|
        0 <= i < answers.len() ==> told_of_mount(
            check,
            mounted[i],
            volumes,
            version,
            #[trigger] answers[i],
        )
}

fn lock_mounts<C: Fn(&VolumeSpec) -> Result<(), String>>(
    service: &str,
    mounted: Vec<ServiceVolumeInput>,
    volumes: &Table<LockedVolume>,
    version: u32,
    check: &C,
) -> (r: (Result<Vec<VolumeSpec>, SandboxError>, Ghost<Seq<Result<(), String>>>))
    requires
        forall|spec: &VolumeSpec| #[trigger] call_requires(*check, (spec,)),
    ensures
        told_of_mounts(*check, mounted@, volumes@, version, r.1@),
        match r.0 {
            Err(error) => checks::first(mount_failures(service@, mounted@, volumes@, r.1@)) == Some(
                error@,
            ),
            Ok(specs) => {
                &&& r.1@.len() == mounted@.len()
                &&& checks::first(mount_failures(service@, mounted@, volumes@, r.1@)) is None
                &&& specs@.len() == mounted@.len()
                &&& forall|i: int|
                    0 <= i < specs@.len() ==> mounts(
                        mounted@[i],
                        volumes@[mounted@[i].source@],
                        version,
                        #[trigger] specs@[i],
                    )
            },
        },
{
    let ghost all = mounted@;
    let mut specs: Vec<VolumeSpec> = Vec::new();
    let ghost mut answers: Seq<Result<(), String>> = Seq::empty();
    for mount in walk: mounted
        invariant
            walk.seq() == all,
            all == mounted@,
            forall|spec: &VolumeSpec| #[trigger] call_requires(*check, (spec,)),
            answers.len() == walk.index(),
            told_of_mounts(*check, all, volumes@, version, answers),
            specs@.len() == walk.index(),
            forall|j: int|
                0 <= j < specs@.len() ==> mounts(
                    all[j],
                    volumes@[all[j].source@],
                    version,
                    #[trigger] specs@[j],
                ),
            forall|j: int|
                0 <= j < walk.index() ==> #[trigger] mount_failures(
                    service@,
                    all,
                    volumes@,
                    answers,
                )[j] is None,
    {
        let ghost i = walk.index() as int;
        let definition = match volumes.get(mount.source.as_str()) {
            Some(definition) => definition,
            None => {
                proof {
                    checks::lemma_first_at(mount_failures(service@, all, volumes@, answers), i);
                }
                return (
                    Err(
                        SandboxError::Compose(
                            join5(
                                "service `",
                                service,
                                "` references unknown volume `",
                                mount.source.as_str(),
                                "`",
                            ),
                        ),
                    ),
                    Ghost(answers),
                );
            },
        };
        let read_only = if definition.persistence_class.is_named() {
            match mount.read_only {
                Some(read_only) => read_only,
                None => false,
            }
        } else {
            match mount.read_only {
                Some(false) => {
                    proof {
                        checks::lemma_first_at(
                            mount_failures(service@, all, volumes@, answers),
                            i,
                        );
                    }
                    return (
                        Err(
                            SandboxError::Compose(
                                join3(
                                    "service `",
                                    service,
                                    "` requests a writable immutable volume",
                                ),
                            ),
                        ),
                        Ghost(answers),
                    );
                },
                _ => {},
            }
            true
        };
        let spec = VolumeSpec {
            schema_version: version,
            volume_id: mount.source.clone(),
            destination: mount.target.clone(),
            read_only,
            persistence_class: definition.persistence_class,
            snapshot_policy: definition.snapshot_policy,
            quota_bytes: definition.quota_bytes,
            content_digest: definition.content_digest.clone(),
        };
        let answer = check(&spec);
        let ghost grown = answers.push(answer);
        proof {
            assert(mounts(all[i], volumes@[all[i].source@], version, spec));
            assert(told_of_mount(*check, all[i], volumes@, version, answer));
            assert forall|j: int| 0 <= j < i implies #[trigger] mount_failures(
                service@,
                all,
                volumes@,
                grown,
            )[j] is None by {
                assert(mount_failures(service@, all, volumes@, answers)[j] is None);
            }
            answers = grown;
        }
        match answer {
            Ok(()) => {},
            Err(reason) => {
                proof {
                    checks::lemma_first_at(mount_failures(service@, all, volumes@, grown), i);
                }
                return (Err(SandboxError::Compose(reason)), Ghost(grown));
            },
        }
        let mut j: usize = 0;
        while j < specs.len()
            invariant
                j <= specs.len(),
                specs@.len() == i,
                0 <= i < all.len(),
                all == mounted@,
                all[i] == mount,
                spec.destination@ == mount.target@,
                answers == grown,
                grown.len() == i + 1,
                grown[i] is Ok,
                volumes@.contains_key(mount.source@),
                volumes@[mount.source@].persistence_class.named() || mount.read_only != Some(false),
                told_of_mounts(*check, all, volumes@, version, grown),
                forall|k: int|
                    0 <= k < specs@.len() ==> mounts(
                        all[k],
                        volumes@[all[k].source@],
                        version,
                        #[trigger] specs@[k],
                    ),
                forall|k: int|
                    0 <= k < i ==> #[trigger] mount_failures(
                        service@,
                        all,
                        volumes@,
                        grown,
                    )[k] is None,
                forall|k: int| 0 <= k < j ==> #[trigger] all[k].target@ != mount.target@,
            decreases specs.len() - j,
        {
            if text::same(specs[j].destination.as_str(), spec.destination.as_str()) {
                proof {
                    assert(all[j as int].target@ == mount.target@);
                    checks::lemma_first_at(mount_failures(service@, all, volumes@, grown), i);
                }
                return (
                    Err(
                        SandboxError::Compose(
                            join5(
                                "service `",
                                service,
                                "` repeats volume destination `",
                                spec.destination.as_str(),
                                "`",
                            ),
                        ),
                    ),
                    Ghost(grown),
                );
            }
            proof {
                assert(mounts(all[j as int], volumes@[all[j as int].source@], version, specs@[j as int]));
            }
            j += 1;
        }
        specs.push(spec);
    }
    proof {
        checks::lemma_first_none(mount_failures(service@, all, volumes@, answers));
    }
    (Ok(specs), Ghost(answers))
}

/// Why network `i` of a service is refused.
pub open spec fn selection_failure(
    service: Seq<char>,
    selected: Seq<String>,
    i: int,
    networks: Map<Seq<char>, LockedNetwork>,
) -> Option<SandboxFailure> {
    checks::or(
        checks::when(
            !networks.contains_key(selected[i]@),
            SandboxFailure::Compose(
                "service `"@ + service + "` references unknown network `"@ + selected[i]@ + "`"@,
            ),
        ),
        checks::when(
            exists|j: int| 0 <= j < i && #[trigger] selected[j]@ == selected[i]@,
            SandboxFailure::Compose(
                "service `"@ + service + "` repeats network `"@ + selected[i]@ + "`"@,
            ),
        ),
    )
}

pub open spec fn selection_failures(
    service: Seq<char>,
    selected: Seq<String>,
    networks: Map<Seq<char>, LockedNetwork>,
) -> Seq<Option<SandboxFailure>> {
    Seq::new(selected.len(), |i: int| selection_failure(service, selected, i, networks))
}

fn validate_selection(service: &str, selected: &Vec<String>, networks: &Table<LockedNetwork>) -> (r:
    Result<(), SandboxError>)
    ensures
        error::outcome(r) == checks::verdict(
            checks::first(selection_failures(service@, selected@, networks@)),
        ),
{
    let ghost failures = selection_failures(service@, selected@, networks@);
    let mut i: usize = 0;
    while i < selected.len()
        invariant
            i <= selected.len(),
            failures == selection_failures(service@, selected@, networks@),
            forall|j: int| 0 <= j < i ==> #[trigger] failures[j] is None,
        decreases selected.len() - i,
    {
        if !networks.contains(selected[i].as_str()) {
            proof {
                checks::lemma_first_at(failures, i as int);
            }
            return Err(
                SandboxError::Compose(
                    join5(
                        "service `",
                        service,
                        "` references unknown network `",
                        selected[i].as_str(),
                        "`",
                    ),
                ),
            );
        }
        let mut j: usize = 0;
        while j < i
            invariant
                j <= i < selected.len(),
                failures == selection_failures(service@, selected@, networks@),
                networks@.contains_key(selected@[i as int]@),
                forall|k: int| 0 <= k < i ==> #[trigger] failures[k] is None,
                forall|k: int| 0 <= k < j ==> #[trigger] selected@[k]@ != selected@[i as int]@,
            decreases i - j,
        {
            if text::same(selected[j].as_str(), selected[i].as_str()) {
                proof {
                    checks::lemma_first_at(failures, i as int);
                }
                return Err(
                    SandboxError::Compose(
                        join5(
                            "service `",
                            service,
                            "` repeats network `",
                            selected[i].as_str(),
                            "`",
                        ),
                    ),
                );
            }
            j += 1;
        }
        i += 1;
    }
    proof {
        checks::lemma_first_none(failures);
    }
    Ok(())
}

/// Why a dependency is refused: a service depends on other declared services only.
pub open spec fn dependency_failure(
    service: Seq<char>,
    dependency: Seq<char>,
    names: Seq<String>,
) -> Option<SandboxFailure> {
    checks::when(
        dependency == service || !(exists|i: int|
            0 <= i < names.len() && #[trigger] names[i]@ == dependency),
        SandboxFailure::Compose(
            "service `"@ + service + "` has invalid dependency `"@ + dependency + "`"@,
        ),
    )
}

pub open spec fn dependency_failures(
    service: Seq<char>,
    rows: Seq<(String, DependencyInput)>,
    names: Seq<String>,
) -> Seq<Option<SandboxFailure>> {
    Seq::new(rows.len(), |i: int| dependency_failure(service, rows[i].0@, names))
}

/// `locked` keeps each dependency with its condition.
pub open spec fn locks_dependencies(
    rows: Seq<(String, DependencyInput)>,
    locked: Seq<(String, DependencyCondition)>,
) -> bool {
    &&& locked.len() == rows.len()
    &&& forall|i: int|
        0 <= i < rows.len() ==> {
            &&& (#[trigger] locked[i]).0 == rows[i].0
            &&& locked[i].1 == rows[i].1.condition
        }
}

fn lock_dependencies(service: &str, depends_on: Table<DependencyInput>, names: &Vec<String>) -> (r:
    Result<Table<DependencyCondition>, SandboxError>)
    ensures
        match r {
            Err(error) => checks::first(dependency_failures(service@, depends_on.rows(), names@))
                == Some(error@),
            Ok(locked) => {
                &&& checks::first(dependency_failures(service@, depends_on.rows(), names@)) is None
                &&& locks_dependencies(depends_on.rows(), locked.rows())
            },
        },
{
    let ghost all = depends_on.rows();
    let ghost failures = dependency_failures(service@, all, names@);
    let rows = depends_on.into_rows();
    let mut locked: Table<DependencyCondition> = Table::new();
    for row in walk: rows
        invariant
            walk.seq() == all,
            all == depends_on.rows(),
            failures == dependency_failures(service@, all, names@),
            table::ordered(all),
            locks_dependencies(all.take(walk.index() as int), locked.rows()),
            forall|j: int| 0 <= j < walk.index() ==> #[trigger] failures[j] is None,
    {
        let ghost i = walk.index() as int;
        let (dependency, detail) = row;
        if text::same(dependency.as_str(), service) || !is_listed(names, dependency.as_str()) {
            proof {
                checks::lemma_first_at(failures, i);
            }
            return Err(
                SandboxError::Compose(
                    join5(
                        "service `",
                        service,
                        "` has invalid dependency `",
                        dependency.as_str(),
                        "`",
                    ),
                ),
            );
        }
        proof {
            let after = locked.rows().push((dependency, detail.condition));
            assert forall|a: int, b: int| 0 <= a < b < after.len() implies table::precedes(
                text::utf8(#[trigger] after[a].0@),
                text::utf8(#[trigger] after[b].0@),
            ) by {
                assert(after[a].0 == all[a].0);
                assert(after[b].0 == all[b].0);
            }
        }
        locked.append(dependency, detail.condition);
    }
    proof {
        assert(all.take(all.len() as int) =~= all);
        checks::lemma_first_none(failures);
    }
    Ok(locked)
}

/// Why a health probe is refused.
pub open spec fn healthcheck_failure(
    service: Seq<char>,
    probe: HealthcheckInput,
) -> Option<SandboxFailure> {
    if probe.test@.len() < 2 || probe.test@[0]@ != "CMD"@ {
        Some(
            SandboxFailure::Unsupported(
                "service `"@ + service + "` healthcheck must use exec-form `CMD`"@,
            ),
        )
    } else {
        checks::or(
            values::values_failure("healthcheck"@, probe.test@.drop_first(), MAX_ARGUMENTS),
            checks::when(
                !(0 < probe.interval_ms <= 60_000 && 0 < probe.timeout_ms <= 60_000 && 0
                    < probe.retries <= 100),
                SandboxFailure::Compose(
                    "service `"@ + service + "` healthcheck bounds are invalid"@,
                ),
            ),
        )
    }
}

/// `locked` probes as `probe` asks, without the leading `CMD`.
pub open spec fn locks_healthcheck(probe: HealthcheckInput, locked: LockedHealthcheck) -> bool {
    &&& locked.command@ == probe.test@.drop_first()
    &&& locked.interval_ms == probe.interval_ms
    &&& locked.timeout_ms == probe.timeout_ms
    &&& locked.retries == probe.retries
}

fn lock_healthcheck(service: &str, probe: HealthcheckInput) -> (r: Result<
    LockedHealthcheck,
    SandboxError,
>)
    ensures
        match r {
            Err(error) => healthcheck_failure(service@, probe) == Some(error@),
            Ok(locked) => healthcheck_failure(service@, probe) is None && locks_healthcheck(
                probe,
                locked,
            ),
        },
{
    let mut command = probe.test;
    if command.len() < 2 || !text::same(command[0].as_str(), "CMD") {
        return Err(
            SandboxError::Unsupported(
                join3("service `", service, "` healthcheck must use exec-form `CMD`"),
            ),
        );
    }
    command.remove(0);
    proof {
        assert(command@ =~= probe.test@.drop_first());
    }
    match validate_values("healthcheck", command.as_slice(), MAX_ARGUMENTS) {
        Ok(()) => {},
        Err(error) => return Err(error),
    }
    if probe.interval_ms == 0 || probe.interval_ms > 60_000 || probe.timeout_ms == 0
        || probe.timeout_ms > 60_000 || probe.retries == 0 || probe.retries > 100 {
        return Err(
            SandboxError::Compose(
                join3("service `", service, "` healthcheck bounds are invalid"),
            ),
        );
    }
    Ok(
        LockedHealthcheck {
            command,
            interval_ms: probe.interval_ms,
            timeout_ms: probe.timeout_ms,
            retries: probe.retries,
        },
    )
}

/// Two dots stand side by side.
pub open spec fn has_double_dot(bytes: Seq<u8>) -> bool {
    exists|i: int| 0 <= i < bytes.len() - 1 && #[trigger] bytes[i] == 46 && bytes[i + 1] == 46
}

/// An absolute path without `..`.
pub open spec fn is_working_directory(path: Seq<char>) -> bool {
    let bytes = text::utf8(path);
    bytes.len() > 0 && bytes[0] == 47 && !has_double_dot(bytes)
}

fn normalized_directory(path: &str) -> (r: bool)
    ensures
        r == is_working_directory(path@),
{
    let bytes = path.as_bytes();
    if bytes.len() == 0 || bytes[0] != 47 {
        return false;
    }
    let mut i: usize = 0;
    while i + 1 < bytes.len()
        invariant
            bytes@ == text::utf8(path@),
            0 <= i < bytes.len(),
            bytes@[0] == 47,
            forall|j: int|
                0 <= j < i ==> !(#[trigger] bytes@[j] == 46 && bytes@[j + 1] == 46),
        decreases bytes.len() - i,
    {
        if bytes[i] == 46 && bytes[i + 1] == 46 {
            return false;
        }
        i += 1;
    }
    true
}

/// What a service gets where it asks for nothing.
pub open spec fn given_or(value: Option<String>, default: Seq<char>) -> Seq<char> {
    match value {
        Some(text) => text@,
        None => default,
    }
}

/// Why the networks of a service are refused; a service that names none joins `default`.
pub open spec fn networking_failure(
    service: Seq<char>,
    requested: Seq<String>,
    networks: Map<Seq<char>, LockedNetwork>,
) -> Option<SandboxFailure> {
    if requested.len() == 0 {
        checks::when(
            !networks.contains_key("default"@),
            SandboxFailure::Compose(
                "service `"@ + service + "` references unknown network `"@ + "default"@ + "`"@,
            ),
        )
    } else {
        checks::first(selection_failures(service, requested, networks))
    }
}

/// Why a service is refused before its image is resolved.
pub open spec fn service_failure(
    name: Seq<char>,
    input: ServiceInput,
    names: Seq<String>,
    volumes: Map<Seq<char>, LockedVolume>,
    networks: Map<Seq<char>, LockedNetwork>,
    answers: Seq<Result<(), String>>,
) -> Option<SandboxFailure> {
    checks::or(
        process_failure(name, input),
        checks::or(
            storage_failure(name, input, volumes, answers),
            wiring_failure(name, input, names, networks),
        ),
    )
}

/// The checks on the process: its name, arguments and environment.
pub open spec fn process_failure(name: Seq<char>, input: ServiceInput) -> Option<SandboxFailure> {
    let environment = input.environment.rows();
    checks::or(
        values::identifier_failure("service"@, name),
        checks::or(
            values::values_failure("command"@, input.command@, MAX_ARGUMENTS),
            checks::or(
                values::values_failure("entrypoint"@, input.entrypoint@, MAX_ARGUMENTS),
                checks::or(
                    checks::when(
                        environment.len() > MAX_ENVIRONMENT,
                        SandboxFailure::Compose(
                            "service `"@ + name + "` has too many environment entries"@,
                        ),
                    ),
                    checks::first(
                        Seq::new(
                            environment.len(),
                            |i: int| values::environment_failure(environment[i].0@, environment[i].1@),
                        ),
                    ),
                ),
            ),
        ),
    )
}

/// The checks on the files: the mounts, the user and the working directory.
pub open spec fn storage_failure(
    name: Seq<char>,
    input: ServiceInput,
    volumes: Map<Seq<char>, LockedVolume>,
    answers: Seq<Result<(), String>>,
) -> Option<SandboxFailure> {
    let directory = given_or(input.working_dir, "/work"@);
    checks::or(
        checks::when(
            input.volumes@.len() > MAX_SERVICE_VOLUMES,
            SandboxFailure::Compose("service `"@ + name + "` has too many volume mounts"@),
        ),
        checks::or(
            checks::first(mount_failures(name, input.volumes@, volumes, answers)),
            checks::or(
                values::value_failure("user"@, given_or(input.user, "65534:65534"@)),
                checks::or(
                    checks::when(
                        !is_working_directory(directory),
                        SandboxFailure::Compose(
                            "service `"@ + name
                                + "` working directory must be an absolute normalized path"@,
                        ),
                    ),
                    values::value_failure("working directory"@, directory),
                ),
            ),
        ),
    )
}

/// The checks on what a service is connected to, and on its image reference.
pub open spec fn wiring_failure(
    name: Seq<char>,
    input: ServiceInput,
    names: Seq<String>,
    networks: Map<Seq<char>, LockedNetwork>,
) -> Option<SandboxFailure> {
    checks::or(
        networking_failure(name, input.networks@, networks),
        checks::or(
            checks::first(dependency_failures(name, input.depends_on.rows(), names)),
            checks::or(
                match input.healthcheck {
                    Some(probe) => healthcheck_failure(name, probe),
                    None => None,
                },
                values::image_reference_failure(input.image@),
            ),
        ),
    )
}

/// `locked` is the service that `input` declares, on `image`.
#[verifier::opaque]
pub open spec fn locks_service(
    input: ServiceInput,
    volumes: Map<Seq<char>, LockedVolume>,
    version: u32,
    image: LockedImage,
    locked: LockedService,
) -> bool {
    &&& locked.image == image
    &&& locked.command == input.command
    &&& locked.entrypoint == input.entrypoint
    &&& locked.environment == input.environment
    &&& locks_dependencies(input.depends_on.rows(), locked.depends_on.rows())
    &&& match input.healthcheck {
        Some(probe) => locked.healthcheck is Some && locks_healthcheck(
            probe,
            locked.healthcheck->0,
        ),
        None => locked.healthcheck is None,
    }
    &&& if input.networks@.len() == 0 {
        locked.networks@.len() == 1 && locked.networks@[0]@ == "default"@
    } else {
        locked.networks == input.networks
    }
    &&& locked.user@ == given_or(input.user, "65534:65534"@)
    &&& locked.working_dir@ == given_or(input.working_dir, "/work"@)
    &&& locked.root_filesystem == if input.read_only == Some(false) {
        RootFilesystemMode::Writable
    } else {
        RootFilesystemMode::ReadOnly
    }
    &&& locked.volumes@.len() == input.volumes@.len()
    &&& forall|i: int|
        0 <= i < locked.volumes@.len() ==> mounts(
            input.volumes@[i],
            volumes[input.volumes@[i].source@],
            version,
            #[trigger] locked.volumes@[i],
        )
}

fn validate_variables(environment: &Table<String>) -> (r: Result<(), SandboxError>)
    ensures
        error::outcome(r) == checks::verdict(
            checks::first(
                Seq::new(
                    environment.rows().len(),
                    |i: int|
                        values::environment_failure(environment.rows()[i].0@, environment.rows()[i].1@),
                ),
            ),
        ),
{
    let ghost failures = Seq::new(
        environment.rows().len(),
        |i: int| values::environment_failure(environment.rows()[i].0@, environment.rows()[i].1@),
    );
    let mut i: usize = 0;
    while i < environment.len()
        invariant
            i <= environment.rows().len(),
            failures == Seq::new(
                environment.rows().len(),
                |i: int| values::environment_failure(environment.rows()[i].0@, environment.rows()[i].1@),
            ),
            forall|j: int| 0 <= j < i ==> #[trigger] failures[j] is None,
        decreases environment.rows().len() - i,
    {
        match validate_environment(environment.key(i).as_str(), environment.value(i).as_str()) {
            Ok(()) => {},
            Err(error) => {
                proof {
                    checks::lemma_first_at(failures, i as int);
                }
                return Err(error);
            },
        }
        i += 1;
    }
    proof {
        checks::lemma_first_none(failures);
    }
    Ok(())
}

fn validate_process(name: &str, input: &ServiceInput) -> (r: Result<(), SandboxError>)
    ensures
        error::outcome(r) == checks::verdict(process_failure(name@, *input)),
{
    match validate_identifier("service", name) {
        Ok(()) => {},
        Err(error) => return Err(error),
    }
    match validate_values("command", input.command.as_slice(), MAX_ARGUMENTS) {
        Ok(()) => {},
        Err(error) => return Err(error),
    }
    match validate_values("entrypoint", input.entrypoint.as_slice(), MAX_ARGUMENTS) {
        Ok(()) => {},
        Err(error) => return Err(error),
    }
    if input.environment.len() > MAX_ENVIRONMENT {
        return Err(
            SandboxError::Compose(
                join3("service `", name, "` has too many environment entries"),
            ),
        );
    }
    validate_variables(&input.environment)
}

/// The answers that were given while one service was locked.
pub struct ServiceAnswers {
    pub mounts: Seq<Result<(), String>>,
    pub image: Option<Result<LockedImage, SandboxError>>,
}

/// The answers come from the checks and the resolver, for this service.
#[verifier::opaque]
pub open spec fn told_of_service<C, F>(
    check: C,
    resolve: F,
    input: ServiceInput,
    volumes: Map<Seq<char>, LockedVolume>,
    version: u32,
    answers: ServiceAnswers,
) -> bool where
    C: Fn(&VolumeSpec) -> Result<(), String>,
    F: Fn(&str) -> Result<LockedImage, SandboxError>,
 {
    &&& told_of_mounts(check, input.volumes@, volumes, version, answers.mounts)
    &&& answers.image matches Some(image) ==> told(resolve, input.image@, image)
}

/// Why a service is refused, its image resolution included.
#[verifier::opaque]
pub open spec fn full_service_failure(
    name: Seq<char>,
    input: ServiceInput,
    names: Seq<String>,
    volumes: Map<Seq<char>, LockedVolume>,
    networks: Map<Seq<char>, LockedNetwork>,
    answers: ServiceAnswers,
) -> Option<SandboxFailure> {
    checks::or(
        service_failure(name, input, names, volumes, networks, answers.mounts),
        match answers.image {
            Some(Err(error)) => Some(error@),
            _ => None,
        },
    )
}

fn lock_service<C, F>(
    name: &str,
    input: ServiceInput,
    names: &Vec<String>,
    volumes: &Table<LockedVolume>,
    networks: &Table<LockedNetwork>,
    version: u32,
    check: &C,
    resolve: &F,
) -> (r: (Result<LockedService, SandboxError>, Ghost<ServiceAnswers>)) where
    C: Fn(&VolumeSpec) -> Result<(), String>,
    F: Fn(&str) -> Result<LockedImage, SandboxError>,

    requires
        forall|spec: &VolumeSpec| #[trigger] call_requires(*check, (spec,)),
        forall|reference: &str| #[trigger] call_requires(*resolve, (reference,)),
    ensures
        told_of_service(*check, *resolve, input, volumes@, version, r.1@),
        match r.0 {
            Err(error) => full_service_failure(name@, input, names@, volumes@, networks@, r.1@)
                == Some(error@),
            Ok(locked) => {
                &&& full_service_failure(name@, input, names@, volumes@, networks@, r.1@) is None
                &&& r.1@.mounts.len() == input.volumes@.len()
                &&& r.1@.image is Some
                &&& r.1@.image->0 is Ok
                &&& locks_service(input, volumes@, version, r.1@.image->0->Ok_0, locked)
            },
        },
{
    proof {
        reveal(full_service_failure);
        reveal(locks_service);
        reveal(told_of_service);
    }
    let ghost mut answers = ServiceAnswers { mounts: Seq::empty(), image: None };
    match validate_process(name, &input) {
        Ok(()) => {},
        Err(error) => return (Err(error), Ghost(answers)),
    }
    let root_filesystem = match input.read_only {
        Some(false) => RootFilesystemMode::Writable,
        _ => RootFilesystemMode::ReadOnly,
    };
    if input.volumes.len() > MAX_SERVICE_VOLUMES {
        return (
            Err(
                SandboxError::Compose(join3("service `", name, "` has too many volume mounts")),
            ),
            Ghost(answers),
        );
    }
    let (mounted, told_mounts) = lock_mounts(name, input.volumes, volumes, version, check);
    proof {
        answers = ServiceAnswers { mounts: told_mounts@, image: None };
    }
    let service_volumes = match mounted {
        Ok(specs) => specs,
        Err(error) => return (Err(error), Ghost(answers)),
    };
    let user = match input.user {
        Some(user) => user,
        None => "65534:65534".to_owned(),
    };
    match validate_value("user", user.as_str()) {
        Ok(()) => {},
        Err(error) => return (Err(error), Ghost(answers)),
    }
    let working_dir = match input.working_dir {
        Some(directory) => directory,
        None => "/work".to_owned(),
    };
    if !normalized_directory(working_dir.as_str()) {
        return (
            Err(
                SandboxError::Compose(
                    join3(
                        "service `",
                        name,
                        "` working directory must be an absolute normalized path",
                    ),
                ),
            ),
            Ghost(answers),
        );
    }
    match validate_value("working directory", working_dir.as_str()) {
        Ok(()) => {},
        Err(error) => return (Err(error), Ghost(answers)),
    }
    let selected = if input.networks.len() == 0 {
        let mut only: Vec<String> = Vec::new();
        only.push("default".to_owned());
        only
    } else {
        input.networks
    };
    match validate_selection(name, &selected, networks) {
        Ok(()) => {
            proof {
                if input.networks@.len() == 0 {
                    lemma_default_selection(name@, selected@, networks@);
                }
            }
        },
        Err(error) => {
            proof {
                if input.networks@.len() == 0 {
                    lemma_default_selection(name@, selected@, networks@);
                }
            }
            return (Err(error), Ghost(answers));
        },
    }
    let dependencies = match lock_dependencies(name, input.depends_on, names) {
        Ok(dependencies) => dependencies,
        Err(error) => return (Err(error), Ghost(answers)),
    };
    let healthcheck = match input.healthcheck {
        Some(probe) => match lock_healthcheck(name, probe) {
            Ok(healthcheck) => Some(healthcheck),
            Err(error) => return (Err(error), Ghost(answers)),
        },
        None => None,
    };
    match validate_image_reference(input.image.as_str()) {
        Ok(()) => {},
        Err(error) => return (Err(error), Ghost(answers)),
    }
    let reference = input.image.as_str();
    let answer = resolve(reference);
    proof {
        assert(told(*resolve, input.image@, answer));
        answers = ServiceAnswers { mounts: told_mounts@, image: Some(answer) };
    }
    let image = match answer {
        Ok(image) => image,
        Err(error) => return (Err(error), Ghost(answers)),
    };
    (
        Ok(
            LockedService {
                image,
                command: input.command,
                entrypoint: input.entrypoint,
                environment: input.environment,
                depends_on: dependencies,
                healthcheck,
                networks: selected,
                user,
                working_dir,
                root_filesystem,
                volumes: service_volumes,
            },
        ),
        Ghost(answers),
    )
}

/// Joining `default` alone fails exactly where there is no such network.
proof fn lemma_default_selection(
    service: Seq<char>,
    selected: Seq<String>,
    networks: Map<Seq<char>, LockedNetwork>,
)
    requires
        selected.len() == 1,
        selected[0]@ == "default"@,
    ensures
        checks::first(selection_failures(service, selected, networks)) == networking_failure(
            service,
            Seq::<String>::empty(),
            networks,
        ),
{
    let failures = selection_failures(service, selected, networks);
    assert(failures.len() == 1);
    assert(failures[0] == selection_failure(service, selected, 0, networks));
    assert(failures.drop_first().len() == 0);
    if failures[0] is Some {
        checks::lemma_first_at(failures, 0);
    } else {
        checks::lemma_first_none(failures);
    }
}

pub open spec fn service_failures(
    rows: Seq<(String, ServiceInput)>,
    volumes: Map<Seq<char>, LockedVolume>,
    networks: Map<Seq<char>, LockedNetwork>,
    answers: Seq<ServiceAnswers>,
) -> Seq<Option<SandboxFailure>> {
    Seq::new(
        rows.len(),
        |i: int|
            full_service_failure(
                rows[i].0@,
                rows[i].1,
                keys(rows),
                volumes,
                networks,
                answers[i],
            ),
    )
}

/// The keys of the rows.
pub open spec fn keys<T>(rows: Seq<(String, T)>) -> Seq<String> {
    Seq::new(rows.len(), |i: int| rows[i].0)
}

/// The answers come from the checks and the resolver, service by service.
pub open spec fn told_of_services<C, F>(
    check: C,
    resolve: F,
    rows: Seq<(String, ServiceInput)>,
    volumes: Map<Seq<char>, LockedVolume>,
    version: u32,
    answers: Seq<ServiceAnswers>,
) -> bool where
    C: Fn(&VolumeSpec) -> Result<(), String>,
    F: Fn(&str) -> Result<LockedImage, SandboxError>,
 {
    &&& answers.len() <= rows.len()
    &&& forall|i: int|
        0 <= i < answers.len() ==> told_of_service(
            check,
            resolve,
            rows[i].1,
            volumes,
            version,
            #[trigger] answers[i],
        )
}

/// `locked` holds the services that `rows` declare, in their order.
pub open spec fn locks_services(
    rows: Seq<(String, ServiceInput)>,
    volumes: Map<Seq<char>, LockedVolume>,
    version: u32,
    answers: Seq<ServiceAnswers>,
    locked: Seq<(String, LockedService)>,
) -> bool {
    &&& locked.len() == rows.len()
    &&& answers.len() == rows.len()
    &&& forall|i: int|
        0 <= i < rows.len() ==> {
            &&& (#[trigger] locked[i]).0 == rows[i].0
            &&& answers[i].mounts.len() == rows[i].1.volumes@.len()
            &&& answers[i].image is Some
            &&& answers[i].image->0 is Ok
            &&& locks_service(
                rows[i].1,
                volumes,
                version,
                answers[i].image->0->Ok_0,
                locked[i].1,
            )
        }
}

fn copy_keys<T>(rows: &Vec<(String, T)>) -> (r: Vec<String>)
    ensures
        r@ == keys(rows@),
{
    let mut names: Vec<String> = Vec::new();
    let mut i: usize = 0;
    while i < rows.len()
        invariant
            i <= rows.len(),
            names@.len() == i,
            forall|j: int| 0 <= j < i ==> #[trigger] names@[j] == rows@[j].0,
        decreases rows.len() - i,
    {
        names.push(rows[i].0.clone());
        i += 1;
    }
    proof {
        assert(names@ =~= keys(rows@));
    }
    names
}

/// One more service is locked behind the others.
proof fn lemma_locks_one_more(
    rows: Seq<(String, ServiceInput)>,
    at: int,
    volumes: Map<Seq<char>, LockedVolume>,
    version: u32,
    answers: Seq<ServiceAnswers>,
    said: ServiceAnswers,
    locked: Seq<(String, LockedService)>,
    service: LockedService,
)
    requires
        0 <= at < rows.len(),
        locks_services(rows.take(at), volumes, version, answers, locked),
        said.mounts.len() == rows[at].1.volumes@.len(),
        said.image is Some,
        said.image->0 is Ok,
        locks_service(rows[at].1, volumes, version, said.image->0->Ok_0, service),
    ensures
        locks_services(
            rows.take(at + 1),
            volumes,
            version,
            answers.push(said),
            locked.push((rows[at].0, service)),
        ),
{
    let more = locked.push((rows[at].0, service));
    let told = answers.push(said);
    let taken = rows.take(at + 1);
    assert forall|i: int| 0 <= i < taken.len() implies {
        &&& (#[trigger] more[i]).0 == taken[i].0
        &&& told[i].mounts.len() == taken[i].1.volumes@.len()
        &&& told[i].image is Some
        &&& told[i].image->0 is Ok
        &&& locks_service(taken[i].1, volumes, version, told[i].image->0->Ok_0, more[i].1)
    } by {
        if i < at {
            assert(more[i] == locked[i]);
            assert(taken[i] == rows.take(at)[i]);
            assert(told[i] == answers[i]);
        }
    }
}

fn lock_services<C, F>(
    services: Table<ServiceInput>,
    volumes: &Table<LockedVolume>,
    networks: &Table<LockedNetwork>,
    version: u32,
    check: &C,
    resolve: &F,
) -> (r: (Result<Table<LockedService>, SandboxError>, Ghost<Seq<ServiceAnswers>>)) where
    C: Fn(&VolumeSpec) -> Result<(), String>,
    F: Fn(&str) -> Result<LockedImage, SandboxError>,

    requires
        forall|spec: &VolumeSpec| #[trigger] call_requires(*check, (spec,)),
        forall|reference: &str| #[trigger] call_requires(*resolve, (reference,)),
    ensures
        told_of_services(*check, *resolve, services.rows(), volumes@, version, r.1@),
        match r.0 {
            Err(error) => checks::first(
                service_failures(services.rows(), volumes@, networks@, r.1@),
            ) == Some(error@),
            Ok(locked) => {
                &&& checks::first(
                    service_failures(services.rows(), volumes@, networks@, r.1@),
                ) is None
                &&& locks_services(services.rows(), volumes@, version, r.1@, locked.rows())
                &&& table::ordered(locked.rows())
            },
        },
{
    let ghost all = services.rows();
    let rows = services.into_rows();
    let names = copy_keys(&rows);
    let mut locked: Table<LockedService> = Table::new();
    let ghost mut answers: Seq<ServiceAnswers> = Seq::empty();
    for row in walk: rows
        invariant
            walk.seq() == all,
            all == services.rows(),
            names@ == keys(all),
            table::ordered(all),
            forall|spec: &VolumeSpec| #[trigger] call_requires(*check, (spec,)),
            forall|reference: &str| #[trigger] call_requires(*resolve, (reference,)),
            answers.len() == walk.index(),
            told_of_services(*check, *resolve, all, volumes@, version, answers),
            locks_services(
                all.take(walk.index() as int),
                volumes@,
                version,
                answers,
                locked.rows(),
            ),
            forall|j: int|
                0 <= j < walk.index() ==> #[trigger] service_failures(
                    all,
                    volumes@,
                    networks@,
                    answers,
                )[j] is None,
    {
        let ghost i = walk.index() as int;
        let (name, input) = row;
        let (result, said) = lock_service(
            name.as_str(),
            input,
            &names,
            volumes,
            networks,
            version,
            check,
            resolve,
        );
        let ghost grown = answers.push(said@);
        proof {
            assert forall|j: int| 0 <= j < i implies #[trigger] service_failures(
                all,
                volumes@,
                networks@,
                grown,
            )[j] is None by {
                assert(service_failures(all, volumes@, networks@, answers)[j] is None);
            }
            assert(grown.drop_last() =~= answers);
            answers = grown;
        }
        match result {
            Err(error) => {
                proof {
                    checks::lemma_first_at(
                        service_failures(all, volumes@, networks@, grown),
                        i,
                    );
                }
                return (Err(error), Ghost(grown));
            },
            Ok(service) => {
                proof {
                    lemma_locks_one_more(
                        all,
                        i,
                        volumes@,
                        version,
                        grown.drop_last(),
                        said@,
                        locked.rows(),
                        service,
                    );
                    assert(grown.drop_last().push(said@) =~= grown);
                    let after = locked.rows().push((name, service));
                    assert forall|a: int, b: int| 0 <= a < b < after.len() implies table::precedes(
                        text::utf8(#[trigger] after[a].0@),
                        text::utf8(#[trigger] after[b].0@),
                    ) by {
                        assert(after[a].0 == all[a].0);
                        assert(after[b].0 == all[b].0);
                    }
                }
                locked.append(name, service);
            },
        }
    }
    proof {
        assert(all.take(all.len() as int) =~= all);
        checks::lemma_first_none(service_failures(all, volumes@, networks@, answers));
        assert forall|a: int, b: int| 0 <= a < b < locked.rows().len() implies table::precedes(
            text::utf8(#[trigger] locked.rows()[a].0@),
            text::utf8(#[trigger] locked.rows()[b].0@),
        ) by {
            assert(locked.rows()[a].0 == all[a].0);
            assert(locked.rows()[b].0 == all[b].0);
        }
    }
    (Ok(locked), Ghost(answers))
}

/// Why dependency `j` of service `i` cannot be waited for.
pub open spec fn health_failure(
    services: Seq<(String, LockedService)>,
    i: int,
    j: int,
) -> Option<SandboxFailure> {
    let dependency = services[i].1.depends_on.rows()[j];
    checks::when(
        dependency.1 is Healthy && table::as_map(services)[dependency.0@].healthcheck is None,
        SandboxFailure::Compose(
            "service `"@ + services[i].0@ + "` requires `"@ + dependency.0@
                + "` to be healthy, but it has no healthcheck"@,
        ),
    )
}

pub open spec fn health_failures(
    services: Seq<(String, LockedService)>,
    i: int,
) -> Seq<Option<SandboxFailure>> {
    Seq::new(
        services[i].1.depends_on.rows().len(),
        |j: int| health_failure(services, i, j),
    )
}

pub open spec fn readiness_failure(
    services: Seq<(String, LockedService)>,
) -> Option<SandboxFailure> {
    checks::first(
        Seq::new(services.len(), |i: int| checks::first(health_failures(services, i))),
    )
}

fn require_healthchecks(services: &Table<LockedService>) -> (r: Result<(), SandboxError>)
    requires
        startup::dependencies_known(services.rows()),
    ensures
        error::outcome(r) == checks::verdict(readiness_failure(services.rows())),
{
    let ghost rows = services.rows();
    let ghost failures = Seq::new(rows.len(), |i: int| checks::first(health_failures(rows, i)));
    let mut i: usize = 0;
    while i < services.len()
        invariant
            rows == services.rows(),
            i <= rows.len(),
            failures == Seq::new(rows.len(), |i: int| checks::first(health_failures(rows, i))),
            startup::dependencies_known(rows),
            forall|k: int| 0 <= k < i ==> #[trigger] failures[k] is None,
        decreases rows.len() - i,
    {
        let depends_on = &services.value(i).depends_on;
        let ghost own = health_failures(rows, i as int);
        let mut j: usize = 0;
        while j < depends_on.len()
            invariant
                rows == services.rows(),
                i < rows.len(),
                depends_on.rows() == rows[i as int].1.depends_on.rows(),
                j <= depends_on.rows().len(),
                own == health_failures(rows, i as int),
                failures == Seq::new(rows.len(), |i: int| checks::first(health_failures(rows, i))),
                startup::dependencies_known(rows),
                forall|k: int| 0 <= k < i ==> #[trigger] failures[k] is None,
                forall|k: int| 0 <= k < j ==> #[trigger] own[k] is None,
            decreases depends_on.rows().len() - j,
        {
            let dependency = depends_on.key(j);
            let condition = *depends_on.value(j);
            proof {
                assert(table::as_map(rows).contains_key(
                    rows[i as int].1.depends_on.rows()[j as int].0@,
                ));
            }
            let probed = match services.get(dependency.as_str()) {
                Some(target) => target.healthcheck.is_some(),
                None => true,
            };
            if condition == DependencyCondition::Healthy && !probed {
                proof {
                    checks::lemma_first_at(own, j as int);
                    checks::lemma_first_at(failures, i as int);
                }
                return Err(
                    SandboxError::Compose(
                        join5(
                            "service `",
                            services.key(i).as_str(),
                            "` requires `",
                            dependency.as_str(),
                            "` to be healthy, but it has no healthcheck",
                        ),
                    ),
                );
            }
            j += 1;
        }
        proof {
            checks::lemma_first_none(own);
        }
        i += 1;
    }
    proof {
        checks::lemma_first_none(failures);
    }
    Ok(())
}

/// What was asked and built while a topology was compiled.
pub struct Compilation {
    pub identities: Seq<Result<(), String>>,
    pub volumes: Seq<(String, LockedVolume)>,
    pub networks: Seq<(String, LockedNetwork)>,
    pub answers: Seq<ServiceAnswers>,
    pub services: Seq<(String, LockedService)>,
    pub encoding: Option<Result<Vec<u8>, String>>,
}

/// The checks before any volume is looked at.
pub open spec fn admission_failure(input: ComposeInput) -> Option<SandboxFailure> {
    match input.name {
        None => Some(SandboxFailure::Compose("top-level `name` is required"@)),
        Some(name) => checks::or(
            values::identifier_failure("topology name"@, name@),
            checks::or(
                checks::when(
                    input.services.rows().len() == 0 || input.services.rows().len() > MAX_SERVICES,
                    SandboxFailure::Compose("service count must be between 1 and 32"@),
                ),
                checks::when(
                    input.volumes.rows().len() > MAX_VOLUMES,
                    SandboxFailure::Compose("volume count exceeds 128"@),
                ),
            ),
        ),
    }
}

/// The failure of a compilation up to its volumes.
pub open spec fn volume_stage(input: ComposeInput, run: Compilation) -> Option<SandboxFailure> {
    checks::or(
        admission_failure(input),
        checks::first(volume_failures(input.volumes.rows(), run.identities)),
    )
}

/// The failure of a compilation up to its networks.
pub open spec fn network_stage(input: ComposeInput, run: Compilation) -> Option<SandboxFailure> {
    checks::or(volume_stage(input, run), networks_failure(input.networks.rows()))
}

/// The failure of a compilation up to its services.
pub open spec fn service_stage(input: ComposeInput, run: Compilation) -> Option<SandboxFailure> {
    checks::or(
        network_stage(input, run),
        checks::first(
            service_failures(
                input.services.rows(),
                table::as_map(run.volumes),
                table::as_map(run.networks),
                run.answers,
            ),
        ),
    )
}

/// The failure of a compilation up to its startup order.
pub open spec fn order_stage(input: ComposeInput, run: Compilation) -> Option<SandboxFailure> {
    checks::or(
        service_stage(input, run),
        checks::or(readiness_failure(run.services), startup::order_failure(run.services)),
    )
}

/// The failure of a compilation.
pub open spec fn compile_failure(input: ComposeInput, run: Compilation) -> Option<SandboxFailure> {
    checks::or(
        order_stage(input, run),
        match run.encoding {
            Some(Err(reason)) => Some(
                SandboxFailure::Lock("encode canonical topology: "@ + reason@),
            ),
            _ => None,
        },
    )
}

/// `lock` is the topology that a compilation arrives at, with `digest` for its identity.
pub open spec fn locks_topology(
    input: ComposeInput,
    guest_profile: GuestProfileIdentity,
    run: Compilation,
    digest: Seq<char>,
    lock: TopologyLock,
) -> bool {
    &&& lock.schema_version == LOCK_SCHEMA_VERSION
    &&& lock.topology_digest@ == digest
    &&& input.name == Some(lock.name)
    &&& lock.services.rows() == run.services
    &&& lock.networks.rows() == run.networks
    &&& lock.volumes.rows() == run.volumes
    &&& startup::startup(run.services, Seq::empty()) == Some(text::texts(lock.startup_order@))
    &&& lock.policy.is_standard(guest_profile)
}

/// The stages of a compilation follow from its input and from one another.
pub open spec fn builds(input: ComposeInput, version: u32, run: Compilation) -> bool {
    &&& volume_stage(input, run) is None ==> {
        &&& run.identities.len() == input.volumes.rows().len()
        &&& locks_volumes(input.volumes.rows(), run.volumes)
    }
    &&& network_stage(input, run) is None ==> locks_networks(input.networks.rows(), run.networks)
    &&& service_stage(input, run) is None ==> locks_services(
        input.services.rows(),
        table::as_map(run.volumes),
        version,
        run.answers,
        run.services,
    )
}

/// The answers of a compilation come from the functions it was given.
pub open spec fn asked<I, C, F, E>(
    input: ComposeInput,
    version: u32,
    guest_profile: GuestProfileIdentity,
    identify: I,
    check: C,
    resolve: F,
    encode: E,
    run: Compilation,
) -> bool where
    I: Fn(&str) -> Result<(), String>,
    C: Fn(&VolumeSpec) -> Result<(), String>,
    F: Fn(&str) -> Result<LockedImage, SandboxError>,
    E: Fn(&TopologyLock) -> Result<Vec<u8>, String>,
 {
    &&& told_of_keys(identify, input.volumes.rows(), run.identities)
    &&& told_of_services(
        check,
        resolve,
        input.services.rows(),
        table::as_map(run.volumes),
        version,
        run.answers,
    )
    &&& run.encoding matches Some(answer) ==> (exists|unsealed: TopologyLock|
        locks_topology(input, guest_profile, run, ""@, unsealed) && #[trigger] call_ensures(
            encode,
            (&unsealed,),
            answer,
        ))
}

/// The services that were locked depend on services only.
proof fn lemma_dependencies_known(
    rows: Seq<(String, ServiceInput)>,
    volumes: Map<Seq<char>, LockedVolume>,
    networks: Map<Seq<char>, LockedNetwork>,
    version: u32,
    answers: Seq<ServiceAnswers>,
    locked: Seq<(String, LockedService)>,
)
    requires
        checks::first(service_failures(rows, volumes, networks, answers)) is None,
        locks_services(rows, volumes, version, answers, locked),
        table::ordered(locked),
    ensures
        startup::dependencies_known(locked),
{
    reveal(full_service_failure);
    reveal(locks_service);
    let failures = service_failures(rows, volumes, networks, answers);
    assert forall|i: int, j: int|
        0 <= i < locked.len() && 0 <= j < locked[i].1.depends_on.rows().len() implies table::as_map(
        locked,
    ).contains_key((#[trigger] locked[i].1.depends_on.rows()[j]).0@) by {
        checks::lemma_first_passes(failures, i);
        assert(locks_service(rows[i].1, volumes, version, answers[i].image->0->Ok_0, locked[i].1));
        assert(failures[i] == full_service_failure(
            rows[i].0@,
            rows[i].1,
            keys(rows),
            volumes,
            networks,
            answers[i],
        ));
        let own = dependency_failures(rows[i].0@, rows[i].1.depends_on.rows(), keys(rows));
        checks::lemma_first_passes(own, j);
        assert(own[j] is None);
        let name = rows[i].1.depends_on.rows()[j].0@;
        assert(locked[i].1.depends_on.rows()[j].0 == rows[i].1.depends_on.rows()[j].0);
        let k = choose|k: int| 0 <= k < keys(rows).len() && #[trigger] keys(rows)[k]@ == name;
        assert(locked[k].0 == rows[k].0);
        table::lemma_position(locked, k);
    }
}

/// Refuses a Compose file that is too long to be read.
pub fn check_compose_size(length: usize) -> (r: Result<(), SandboxError>)
    ensures
        error::outcome(r) == checks::verdict(
            checks::when(
                length > MAX_COMPOSE_BYTES,
                SandboxFailure::Compose("Compose input exceeds 1 MiB"@),
            ),
        ),
{
    if length > MAX_COMPOSE_BYTES {
        return Err(SandboxError::Compose("Compose input exceeds 1 MiB".to_owned()));
    }
    Ok(())
}

/// The image of a reference: the one that was found for it before, or else what `resolve` finds,
/// which is kept in `seen`.
pub fn resolve_once<F>(seen: &mut Table<LockedImage>, reference: &str, resolve: F) -> (r: Result<
    LockedImage,
    SandboxError,
>) where F: FnOnce(&str) -> Result<LockedImage, SandboxError>
    requires
        call_requires(resolve, (reference,)),
    ensures
        old(seen)@.contains_key(reference@) ==> {
            &&& r matches Ok(image) && image@ == old(seen)@[reference@]@
            &&& final(seen)@ == old(seen)@
        },
        !old(seen)@.contains_key(reference@) ==> {
            &&& call_ensures(resolve, (reference,), r)
            &&& r is Err ==> final(seen)@ == old(seen)@
            &&& r matches Ok(image) ==> {
                &&& final(seen)@.contains_key(reference@)
                &&& final(seen)@[reference@]@ == image@
                &&& final(seen)@.remove(reference@) == old(seen)@
            }
        },
{
    match seen.get(reference) {
        Some(image) => return Ok(image.clone()),
        None => {},
    }
    let image = match resolve(reference) {
        Ok(image) => image,
        Err(error) => return Err(error),
    };
    let ghost before = seen@;
    let _ = seen.insert(reference.to_owned(), image.clone());
    proof {
        assert(seen@.remove(reference@) =~= before);
    }
    Ok(image)
}

/// Compiles a Compose file into a locked topology.
///
/// `identify` says whether a name identifies a volume, `check` whether a volume specification
/// is valid, `resolve` pins an image reference, and `encode` writes the canonical bytes of a
/// topology that has no digest yet.
pub fn compile<I, C, F, E>(
    input: ComposeInput,
    version: u32,
    guest_profile: GuestProfileIdentity,
    identify: I,
    check: C,
    resolve: F,
    encode: E,
) -> (r: Result<TopologyLock, SandboxError>) where
    I: Fn(&str) -> Result<(), String>,
    C: Fn(&VolumeSpec) -> Result<(), String>,
    F: Fn(&str) -> Result<LockedImage, SandboxError>,
    E: Fn(&TopologyLock) -> Result<Vec<u8>, String>,

    requires
        forall|name: &str| #[trigger] call_requires(identify, (name,)),
        forall|spec: &VolumeSpec| #[trigger] call_requires(check, (spec,)),
        forall|reference: &str| #[trigger] call_requires(resolve, (reference,)),
        forall|lock: &TopologyLock| #[trigger] call_requires(encode, (lock,)),
    ensures
        exists|run: Compilation|
            {
                &&& #[trigger] builds(input, version, run)
                &&& asked(input, version, guest_profile, identify, check, resolve, encode, run)
                &&& match r {
                    Err(error) => compile_failure(input, run) == Some(error@),
                    Ok(lock) => {
                        &&& compile_failure(input, run) is None
                        &&& run.encoding is Some
                        &&& locks_topology(
                            input,
                            guest_profile,
                            run,
                            digest::identity_text(run.encoding->0->Ok_0@),
                            lock,
                        )
                    },
                }
            },
{
    let ghost mut run = Compilation {
        identities: Seq::empty(),
        volumes: Seq::empty(),
        networks: Seq::empty(),
        answers: Seq::empty(),
        services: Seq::empty(),
        encoding: None,
    };
    let name = match input.name {
        Some(name) => name,
        None => {
            proof {
                assert(builds(input, version, run));
            }
            return Err(SandboxError::Compose("top-level `name` is required".to_owned()));
        },
    };
    match validate_identifier("topology name", name.as_str()) {
        Ok(()) => {},
        Err(error) => {
            proof {
                assert(builds(input, version, run));
            }
            return Err(error);
        },
    }
    if input.services.len() == 0 || input.services.len() > MAX_SERVICES {
        proof {
            assert(builds(input, version, run));
        }
        return Err(SandboxError::Compose("service count must be between 1 and 32".to_owned()));
    }
    if input.volumes.len() > MAX_VOLUMES {
        proof {
            assert(builds(input, version, run));
        }
        return Err(SandboxError::Compose("volume count exceeds 128".to_owned()));
    }
    let (locked_volumes, identities) = lock_volumes(input.volumes, &identify);
    proof {
        run.identities = identities@;
    }
    let volumes = match locked_volumes {
        Ok(volumes) => volumes,
        Err(error) => {
            proof {
                assert(builds(input, version, run));
            }
            return Err(error);
        },
    };
    proof {
        run.volumes = volumes.rows();
    }
    let networks = match lock_networks(input.networks) {
        Ok(networks) => networks,
        Err(error) => {
            proof {
                assert(builds(input, version, run));
            }
            return Err(error);
        },
    };
    proof {
        run.networks = networks.rows();
    }
    let (locked_services, answers) = lock_services(
        input.services,
        &volumes,
        &networks,
        version,
        &check,
        &resolve,
    );
    proof {
        run.answers = answers@;
    }
    let services = match locked_services {
        Ok(services) => services,
        Err(error) => {
            proof {
                assert(builds(input, version, run));
            }
            return Err(error);
        },
    };
    proof {
        run.services = services.rows();
        assert(builds(input, version, run));
        lemma_dependencies_known(
            input.services.rows(),
            volumes@,
            networks@,
            version,
            answers@,
            services.rows(),
        );
    }
    match require_healthchecks(&services) {
        Ok(()) => {},
        Err(error) => return Err(error),
    }
    let order = match startup_order(&services) {
        Ok(order) => order,
        Err(error) => return Err(error),
    };
    let mut lock = TopologyLock {
        schema_version: LOCK_SCHEMA_VERSION,
        topology_digest: "".to_owned(),
        name,
        services,
        networks,
        volumes,
        startup_order: order,
        policy: SandboxPolicy::standard(guest_profile),
    };
    let encoding = encode(&lock);
    let ghost unsealed = lock;
    proof {
        run.encoding = Some(encoding);
        assert(builds(input, version, run));
        assert(locks_topology(input, guest_profile, run, ""@, unsealed));
    }
    match encoding {
        Ok(bytes) => {
            lock.topology_digest = digest::identity(bytes.as_slice());
            Ok(lock)
        },
        Err(reason) => Err(
            SandboxError::Lock(join2("encode canonical topology: ", reason.as_str())),
        ),
    }
}

/// Why a lock is refused, given the canonical bytes of its topology.
pub open spec fn lock_failure(
    lock: TopologyLock,
    encoding: Result<Seq<u8>, Seq<char>>,
) -> Option<SandboxFailure> {
    if lock.schema_version != LOCK_SCHEMA_VERSION {
        Some(
            SandboxFailure::Lock(
                "unsupported schema version "@ + text::decimal(lock.schema_version as nat),
            ),
        )
    } else {
        match encoding {
            Err(reason) => Some(SandboxFailure::Lock("encode canonical topology: "@ + reason)),
            Ok(bytes) => checks::when(
                lock.topology_digest@ != digest::identity_text(bytes),
                SandboxFailure::Lock(
                    "topology digest mismatch: expected "@ + digest::identity_text(bytes)
                        + ", found "@ + lock.topology_digest@ + ""@,
                ),
            ),
        }
    }
}

/// Accepts a lock of the current schema whose digest is that of its canonical bytes.
///
/// `encoding` holds the canonical bytes of everything in the lock but its digest.
pub fn verify_lock(lock: &TopologyLock, encoding: Result<Vec<u8>, String>) -> (r: Result<
    (),
    SandboxError,
>)
    ensures
        error::outcome(r) == checks::verdict(lock_failure(*lock, error::seen(encoding))),
{
    if lock.schema_version != LOCK_SCHEMA_VERSION {
        let version = text::decimal_text(lock.schema_version as u64);
        return Err(SandboxError::Lock(join2("unsupported schema version ", version.as_str())));
    }
    let bytes = match encoding {
        Ok(bytes) => bytes,
        Err(reason) => {
            return Err(
                SandboxError::Lock(join2("encode canonical topology: ", reason.as_str())),
            );
        },
    };
    let expected = digest::identity(bytes.as_slice());
    if !text::same(lock.topology_digest.as_str(), expected.as_str()) {
        return Err(
            SandboxError::Lock(
                join5(
                    "topology digest mismatch: expected ",
                    expected.as_str(),
                    ", found ",
                    lock.topology_digest.as_str(),
                    "",
                ),
            ),
        );
    }
    Ok(())
}

/// A compiled topology verifies against the canonical bytes that it was sealed with, and a lock
/// that differs from it does not: one with another digest fails against those bytes, which the
/// digest is no part of, and one of another schema fails whatever its bytes are.
pub proof fn law_compiled_topology_verifies(
    input: ComposeInput,
    version: u32,
    guest_profile: GuestProfileIdentity,
    run: Compilation,
    lock: TopologyLock,
    other: TopologyLock,
    encoding: Result<Seq<u8>, Seq<char>>,
)
    requires
        builds(input, version, run),
        compile_failure(input, run) is None,
        run.encoding is Some,
        locks_topology(
            input,
            guest_profile,
            run,
            digest::identity_text(run.encoding->0->Ok_0@),
            lock,
        ),
    ensures
        run.encoding matches Some(Ok(bytes)) && {
            &&& lock_failure(lock, Ok(bytes@)) is None
            &&& other.schema_version == lock.schema_version && other.topology_digest@
                != lock.topology_digest@ ==> lock_failure(other, Ok(bytes@)) == Some(
                SandboxFailure::Lock(
                    "topology digest mismatch: expected "@ + lock.topology_digest@ + ", found "@
                        + other.topology_digest@ + ""@,
                ),
            )
        },
        other.schema_version != lock.schema_version ==> lock_failure(other, encoding) == Some(
            SandboxFailure::Lock(
                "unsupported schema version "@ + text::decimal(other.schema_version as nat),
            ),
        ),
{
}

/// A compiled service can write to its root only where its declaration asks for that.
pub proof fn law_roots_are_read_only_by_default(
    input: ComposeInput,
    version: u32,
    guest_profile: GuestProfileIdentity,
    run: Compilation,
    digest: Seq<char>,
    lock: TopologyLock,
    i: int,
)
    requires
        builds(input, version, run),
        compile_failure(input, run) is None,
        locks_topology(input, guest_profile, run, digest, lock),
        0 <= i < input.services.rows().len(),
    ensures
        lock.services.rows().len() == input.services.rows().len(),
        lock.services.rows()[i].0 == input.services.rows()[i].0,
        lock.services.rows()[i].1.root_filesystem is Writable
            <==> input.services.rows()[i].1.read_only == Some(false),
{
    reveal(locks_service);
    assert(locks_service(
        input.services.rows()[i].1,
        table::as_map(run.volumes),
        version,
        run.answers[i].image->0->Ok_0,
        run.services[i].1,
    ));
}

/// A compiled service mounts volumes that the topology declares, and nothing else of the host.
/// Artifacts and secrets are mounted read-only, and no two volumes at one place.
pub proof fn law_only_declared_volumes_are_mounted(
    input: ComposeInput,
    version: u32,
    guest_profile: GuestProfileIdentity,
    run: Compilation,
    digest: Seq<char>,
    lock: TopologyLock,
    i: int,
    j: int,
)
    requires
        builds(input, version, run),
        compile_failure(input, run) is None,
        locks_topology(input, guest_profile, run, digest, lock),
        0 <= i < lock.services.rows().len(),
        0 <= j < lock.services.rows()[i].1.volumes@.len(),
    ensures
        ({
            let mounted = lock.services.rows()[i].1.volumes@;
            let declared = table::as_map(lock.volumes.rows());
            &&& declared.contains_key(mounted[j].volume_id@)
            &&& mounted[j].persistence_class
                == declared[mounted[j].volume_id@].persistence_class
            &&& mounted[j].snapshot_policy == declared[mounted[j].volume_id@].snapshot_policy
            &&& mounted[j].quota_bytes == declared[mounted[j].volume_id@].quota_bytes
            &&& mounted[j].content_digest == declared[mounted[j].volume_id@].content_digest
            &&& mounted[j].persistence_class is Artifact || mounted[j].persistence_class is Secret
                ==> mounted[j].read_only
            &&& forall|k: int|
                0 <= k < j ==> (#[trigger] mounted[k]).destination@ != mounted[j].destination@
        }),
{
    reveal(full_service_failure);
    reveal(locks_service);
    let rows = input.services.rows();
    let volumes = table::as_map(run.volumes);
    let failures = service_failures(rows, volumes, table::as_map(run.networks), run.answers);
    checks::lemma_first_passes(failures, i);
    assert(failures[i] == full_service_failure(
        rows[i].0@,
        rows[i].1,
        keys(rows),
        volumes,
        table::as_map(run.networks),
        run.answers[i],
    ));
    assert(locks_service(
        rows[i].1,
        volumes,
        version,
        run.answers[i].image->0->Ok_0,
        run.services[i].1,
    ));
    let asked_for = rows[i].1.volumes@;
    let mounted = run.services[i].1.volumes@;
    let own = mount_failures(rows[i].0@, asked_for, volumes, run.answers[i].mounts);
    checks::lemma_first_passes(own, j);
    assert(own[j] == mount_failure(rows[i].0@, asked_for, j, volumes, run.answers[i].mounts[j]));
    assert(mounts(asked_for[j], volumes[asked_for[j].source@], version, mounted[j]));
    assert forall|k: int| 0 <= k < j implies (#[trigger] mounted[k]).destination@
        != mounted[j].destination@ by {
        assert(mounts(asked_for[k], volumes[asked_for[k].source@], version, mounted[k]));
        assert(asked_for[k].target@ != asked_for[j].target@);
    }
}

/// A compiled topology is closed: its networks are internal, and its policy opens nothing.
pub proof fn law_compiled_topology_is_closed(
    input: ComposeInput,
    version: u32,
    guest_profile: GuestProfileIdentity,
    run: Compilation,
    digest: Seq<char>,
    lock: TopologyLock,
    domain: Seq<char>,
    scheme: HttpScheme,
    destination: IpAddress,
    port: u16,
)
    requires
        builds(input, version, run),
        compile_failure(input, run) is None,
        locks_topology(input, guest_profile, run, digest, lock),
    ensures
        forall|i: int|
            0 <= i < lock.networks.rows().len() ==> is_bridge(
                (#[trigger] lock.networks.rows()[i]).1,
            ),
        !lock.policy.network.opens_http(domain, scheme, port),
        !lock.policy.network.resolves(domain),
        !lock.policy.network.opens_tcp(destination, port),
{
}

/// A compiled topology starts each service once, behind the services that it waits for.
pub proof fn law_compiled_topology_starts_in_order(
    input: ComposeInput,
    guest_profile: GuestProfileIdentity,
    run: Compilation,
    digest: Seq<char>,
    lock: TopologyLock,
    k: int,
    i: int,
    j: int,
)
    requires
        locks_topology(input, guest_profile, run, digest, lock),
        table::ordered(lock.services.rows()),
        0 <= k < lock.startup_order@.len(),
        0 <= i < lock.services.rows().len(),
        lock.services.rows()[i].0@ == lock.startup_order@[k]@,
        0 <= j < lock.services.rows()[i].1.depends_on.rows().len(),
    ensures
        lock.startup_order@.len() == lock.services.rows().len(),
        text::texts(lock.startup_order@).take(k).contains(
            lock.services.rows()[i].1.depends_on.rows()[j].0@,
        ),
{
    startup::law_startup_order_respects_dependencies(
        run.services,
        text::texts(lock.startup_order@),
    );
    assert(text::texts(lock.startup_order@)[k] == lock.startup_order@[k]@);
}

/// A lock verifies against at most one identity: that of the bytes it is checked with.
pub proof fn law_verified_lock_binds_its_bytes(lock: TopologyLock, bytes: Seq<u8>)
    requires
        lock_failure(lock, Ok(bytes)) is None,
    ensures
        lock.topology_digest@ == digest::identity_text(bytes),
        lock.schema_version == LOCK_SCHEMA_VERSION,
{
}

/// What is known of a service that was compiled.
proof fn lemma_compiled_service(
    input: ComposeInput,
    version: u32,
    guest_profile: GuestProfileIdentity,
    run: Compilation,
    digest: Seq<char>,
    lock: TopologyLock,
    i: int,
)
    requires
        builds(input, version, run),
        compile_failure(input, run) is None,
        locks_topology(input, guest_profile, run, digest, lock),
        0 <= i < input.services.rows().len(),
    ensures
        lock.services.rows().len() == input.services.rows().len(),
        lock.services.rows()[i].0 == input.services.rows()[i].0,
        full_service_failure(
            input.services.rows()[i].0@,
            input.services.rows()[i].1,
            keys(input.services.rows()),
            table::as_map(run.volumes),
            table::as_map(run.networks),
            run.answers[i],
        ) is None,
        locks_service(
            input.services.rows()[i].1,
            table::as_map(run.volumes),
            version,
            run.answers[i].image->0->Ok_0,
            lock.services.rows()[i].1,
        ),
        run.answers[i].image is Some,
        run.answers[i].image->0 is Ok,
{
    let rows = input.services.rows();
    let failures = service_failures(
        rows,
        table::as_map(run.volumes),
        table::as_map(run.networks),
        run.answers,
    );
    checks::lemma_first_passes(failures, i);
    assert(failures[i] == full_service_failure(
        rows[i].0@,
        rows[i].1,
        keys(rows),
        table::as_map(run.volumes),
        table::as_map(run.networks),
        run.answers[i],
    ));
    assert(run.services[i].0 == rows[i].0);
}

/// Each mount of a compiled service is the one that the Compose file asks for: of the volume that
/// it names, at the place that it names. A mount of an ephemeral or persistent volume is read-only
/// exactly where the file says so; one of an artifact or a secret always is, and the file does not
/// say otherwise.
pub proof fn law_mounts_are_as_asked(
    input: ComposeInput,
    version: u32,
    guest_profile: GuestProfileIdentity,
    run: Compilation,
    digest: Seq<char>,
    lock: TopologyLock,
    i: int,
    j: int,
)
    requires
        builds(input, version, run),
        compile_failure(input, run) is None,
        locks_topology(input, guest_profile, run, digest, lock),
        0 <= i < input.services.rows().len(),
        0 <= j < input.services.rows()[i].1.volumes@.len(),
    ensures
        lock.services.rows().len() == input.services.rows().len(),
        lock.services.rows()[i].1.volumes@.len() == input.services.rows()[i].1.volumes@.len(),
        ({
            let asked_for = input.services.rows()[i].1.volumes@[j];
            let mounted = lock.services.rows()[i].1.volumes@[j];
            &&& mounted.schema_version == version
            &&& mounted.volume_id@ == asked_for.source@
            &&& mounted.destination@ == asked_for.target@
            &&& mounted.persistence_class is Ephemeral || mounted.persistence_class is Persistent
                ==> (mounted.read_only <==> asked_for.read_only == Some(true))
            &&& mounted.persistence_class is Artifact || mounted.persistence_class is Secret
                ==> mounted.read_only && asked_for.read_only != Some(false)
            &&& exists|k: int|
                #![trigger input.volumes.rows()[k]]
                {
                    let declared = input.volumes.rows()[k];
                    &&& 0 <= k < input.volumes.rows().len()
                    &&& declared.0@ == asked_for.source@
                    &&& mounted.persistence_class == declared.1.persistence_class
                    &&& mounted.content_digest == declared.1.content_digest
                    &&& declared.1.quota_bytes is Some ==> mounted.quota_bytes
                        == declared.1.quota_bytes->0
                    &&& declared.1.quota_bytes is None ==> mounted.quota_bytes == 0
                        && declared.1.persistence_class is Artifact
                    &&& declared.1.snapshot_policy is Some ==> mounted.snapshot_policy
                        == declared.1.snapshot_policy->0
                }
        }),
{
    reveal(full_service_failure);
    reveal(locks_service);
    lemma_compiled_service(input, version, guest_profile, run, digest, lock, i);
    let rows = input.services.rows();
    let volumes = table::as_map(run.volumes);
    let asked_for = rows[i].1.volumes@;
    let own = mount_failures(rows[i].0@, asked_for, volumes, run.answers[i].mounts);
    checks::lemma_first_passes(own, j);
    assert(own[j] == mount_failure(rows[i].0@, asked_for, j, volumes, run.answers[i].mounts[j]));
    let mounted = lock.services.rows()[i].1.volumes@;
    assert(mounts(asked_for[j], volumes[asked_for[j].source@], version, mounted[j]));
    let k = table::position(run.volumes, asked_for[j].source@);
    assert(run.volumes[k].0@ == asked_for[j].source@);
    assert(run.volumes[k].0 == input.volumes.rows()[k].0);
    let declared = volume_failures(input.volumes.rows(), run.identities);
    checks::lemma_first_passes(declared, k);
    assert(declared[k] == volume_failure(
        input.volumes.rows()[k].0@,
        input.volumes.rows()[k].1,
        run.identities[k],
    ));
}

/// Each volume of a compiled topology is the one that the Compose file declares. Where the file
/// leaves its snapshots open, a persistent volume has to be in them, an ephemeral one is if that
/// can be done, and artifacts and secrets are not. Only an artifact may go without a quota.
pub proof fn law_volumes_are_as_declared(
    input: ComposeInput,
    version: u32,
    guest_profile: GuestProfileIdentity,
    run: Compilation,
    digest: Seq<char>,
    lock: TopologyLock,
    i: int,
)
    requires
        builds(input, version, run),
        compile_failure(input, run) is None,
        locks_topology(input, guest_profile, run, digest, lock),
        0 <= i < input.volumes.rows().len(),
    ensures
        lock.volumes.rows().len() == input.volumes.rows().len(),
        ({
            let declared = input.volumes.rows()[i].1;
            let locked = lock.volumes.rows()[i].1;
            &&& lock.volumes.rows()[i].0 == input.volumes.rows()[i].0
            &&& locked.persistence_class == declared.persistence_class
            &&& locked.content_digest == declared.content_digest
            &&& declared.quota_bytes matches Some(quota) ==> locked.quota_bytes == quota
            &&& declared.quota_bytes is None ==> declared.persistence_class is Artifact
                && locked.quota_bytes == 0
            &&& declared.snapshot_policy matches Some(policy) ==> locked.snapshot_policy == policy
            &&& declared.snapshot_policy is None ==> {
                &&& locked.snapshot_policy is Required <==> declared.persistence_class is Persistent
                &&& locked.snapshot_policy is BestEffort
                    <==> declared.persistence_class is Ephemeral
            }
        }),
{
    let failures = volume_failures(input.volumes.rows(), run.identities);
    checks::lemma_first_passes(failures, i);
    assert(failures[i] == volume_failure(
        input.volumes.rows()[i].0@,
        input.volumes.rows()[i].1,
        run.identities[i],
    ));
    assert(run.volumes[i].0 == input.volumes.rows()[i].0);
}

/// Each service of a compiled topology is the one that the Compose file declares, on the image that
/// its reference was resolved to. It runs as nobody in `/work` and joins the network `default`
/// where the file says nothing else, waits for what the file names, and is probed by the command
/// behind `CMD`.
pub proof fn law_services_are_as_declared(
    input: ComposeInput,
    version: u32,
    guest_profile: GuestProfileIdentity,
    run: Compilation,
    digest: Seq<char>,
    lock: TopologyLock,
    i: int,
)
    requires
        builds(input, version, run),
        compile_failure(input, run) is None,
        locks_topology(input, guest_profile, run, digest, lock),
        0 <= i < input.services.rows().len(),
    ensures
        lock.services.rows().len() == input.services.rows().len(),
        lock.services.rows()[i].0 == input.services.rows()[i].0,
        ({
            let declared = input.services.rows()[i].1;
            let locked = lock.services.rows()[i].1;
            &&& run.answers[i].image == Some(Ok::<LockedImage, SandboxError>(locked.image))
            &&& locked.command@ == declared.command@
            &&& locked.entrypoint@ == declared.entrypoint@
            &&& locked.environment.rows() == declared.environment.rows()
            &&& declared.user matches Some(user) ==> locked.user@ == user@
            &&& declared.user is None ==> locked.user@ == "65534:65534"@
            &&& declared.working_dir matches Some(path) ==> locked.working_dir@ == path@
            &&& declared.working_dir is None ==> locked.working_dir@ == "/work"@
            &&& declared.networks@.len() > 0 ==> locked.networks@ == declared.networks@
            &&& declared.networks@.len() == 0 ==> locked.networks@.len() == 1
                && locked.networks@[0]@ == "default"@
            &&& locked.depends_on.rows().len() == declared.depends_on.rows().len()
            &&& forall|j: int|
                0 <= j < declared.depends_on.rows().len() ==> {
                    &&& (#[trigger] locked.depends_on.rows()[j]).0
                        == declared.depends_on.rows()[j].0
                    &&& locked.depends_on.rows()[j].1 == declared.depends_on.rows()[j].1.condition
                }
            &&& locked.healthcheck is Some <==> declared.healthcheck is Some
            &&& declared.healthcheck matches Some(probe) ==> {
                &&& probe.test@.len() >= 2
                &&& probe.test@[0]@ == "CMD"@
                &&& locked.healthcheck->0.command@ == probe.test@.skip(1)
                &&& locked.healthcheck->0.interval_ms == probe.interval_ms
                &&& locked.healthcheck->0.timeout_ms == probe.timeout_ms
                &&& locked.healthcheck->0.retries == probe.retries
                &&& 1 <= probe.interval_ms <= 60_000
                &&& 1 <= probe.timeout_ms <= 60_000
                &&& 1 <= probe.retries <= 100
            }
            &&& locked.root_filesystem is ReadOnly <==> declared.read_only != Some(false)
        }),
{
    reveal(full_service_failure);
    reveal(locks_service);
    lemma_compiled_service(input, version, guest_profile, run, digest, lock, i);
    match input.services.rows()[i].1.healthcheck {
        Some(probe) => assert(probe.test@.drop_first() =~= probe.test@.skip(1)),
        None => {},
    }
}

/// A compiled service joins networks of the topology, each once, waits for other services of it,
/// and for the health of probed ones only; it runs in an absolute directory without `..`.
pub proof fn law_services_are_wired_within_the_topology(
    input: ComposeInput,
    version: u32,
    guest_profile: GuestProfileIdentity,
    run: Compilation,
    digest: Seq<char>,
    lock: TopologyLock,
    i: int,
)
    requires
        builds(input, version, run),
        compile_failure(input, run) is None,
        locks_topology(input, guest_profile, run, digest, lock),
        0 <= i < input.services.rows().len(),
    ensures
        ({
            let locked = lock.services.rows()[i].1;
            let directory = text::utf8(locked.working_dir@);
            &&& forall|j: int|
                0 <= j < locked.networks@.len() ==> table::keyed(
                    lock.networks.rows(),
                    (#[trigger] locked.networks@[j])@,
                )
            &&& forall|j: int, k: int|
                0 <= j < k < locked.networks@.len() ==> (#[trigger] locked.networks@[j])@ != (
                #[trigger] locked.networks@[k])@
            &&& forall|j: int|
                0 <= j < locked.depends_on.rows().len() ==> {
                    let dependency = (#[trigger] locked.depends_on.rows()[j]).0@;
                    &&& dependency != lock.services.rows()[i].0@
                    &&& table::keyed(lock.services.rows(), dependency)
                    &&& locked.depends_on.rows()[j].1 is Healthy ==> table::as_map(
                        lock.services.rows(),
                    )[dependency].healthcheck is Some
                }
            &&& directory.len() > 0
            &&& directory[0] == '/' as u8
            &&& forall|j: int|
                0 <= j < directory.len() - 1 ==> !(#[trigger] directory[j] == '.' as u8
                    && directory[j + 1] == '.' as u8)
            &&& locked.volumes@.len() <= 64
        }),
{
    reveal(full_service_failure);
    reveal(locks_service);
    lemma_compiled_service(input, version, guest_profile, run, digest, lock, i);
    let rows = input.services.rows();
    let networks = table::as_map(run.networks);
    let locked = lock.services.rows()[i].1;
    let requested = rows[i].1.networks@;
    if requested.len() > 0 {
        let own = selection_failures(rows[i].0@, requested, networks);
        checks::lemma_first(own);
        assert forall|j: int| 0 <= j < requested.len() implies table::keyed(
            lock.networks.rows(),
            (#[trigger] requested[j])@,
        ) by {
            assert(own[j] is None);
        }
        assert forall|j: int, k: int| 0 <= j < k < requested.len() implies (
        #[trigger] requested[j])@ != (#[trigger] requested[k])@ by {
            assert(own[k] is None);
        }
    }
    let waits = health_failures(run.services, i);
    let all = Seq::new(
        run.services.len(),
        |i: int| checks::first(health_failures(run.services, i)),
    );
    checks::lemma_first_passes(all, i);
    assert(all[i] == checks::first(waits));
    checks::lemma_first(waits);
    let own = dependency_failures(rows[i].0@, rows[i].1.depends_on.rows(), keys(rows));
    checks::lemma_first(own);
    assert forall|j: int| 0 <= j < locked.depends_on.rows().len() implies {
        let dependency = (#[trigger] locked.depends_on.rows()[j]).0@;
        &&& dependency != lock.services.rows()[i].0@
        &&& table::keyed(lock.services.rows(), dependency)
        &&& locked.depends_on.rows()[j].1 is Healthy ==> table::as_map(
            lock.services.rows(),
        )[dependency].healthcheck is Some
    } by {
        assert(own[j] is None);
        assert(waits[j] is None);
        let dependency = locked.depends_on.rows()[j].0@;
        let k = choose|k: int| 0 <= k < keys(rows).len() && #[trigger] keys(rows)[k]@ == dependency;
        assert(run.services[k].0 == rows[k].0);
        assert(run.services[k].0@ == dependency);
    }
}

/// The networks of a compiled topology are those of the Compose file, or `default` where it names
/// none; all are internal bridges, and none was asked to be anything else.
pub proof fn law_networks_are_internal_bridges(
    input: ComposeInput,
    version: u32,
    guest_profile: GuestProfileIdentity,
    run: Compilation,
    digest: Seq<char>,
    lock: TopologyLock,
    i: int,
)
    requires
        builds(input, version, run),
        compile_failure(input, run) is None,
        locks_topology(input, guest_profile, run, digest, lock),
        0 <= i < lock.networks.rows().len(),
    ensures
        1 <= lock.networks.rows().len() <= 8,
        lock.networks.rows()[i].1.internal,
        lock.networks.rows()[i].1.driver@ == "bridge"@,
        input.networks.rows().len() == 0 ==> lock.networks.rows().len() == 1
            && lock.networks.rows()[0].0@ == "default"@,
        input.networks.rows().len() > 0 ==> {
            let declared = input.networks.rows()[i].1;
            &&& lock.networks.rows().len() == input.networks.rows().len()
            &&& lock.networks.rows()[i].0 == input.networks.rows()[i].0
            &&& declared.internal != Some(false)
            &&& declared.driver matches Some(driver) ==> driver@ == "bridge"@
        },
{
    let rows = input.networks.rows();
    if rows.len() > 0 {
        let failures = Seq::new(rows.len(), |i: int| network_failure(rows[i].0@, rows[i].1));
        checks::lemma_first_passes(failures, i);
        assert(failures[i] == network_failure(rows[i].0@, rows[i].1));
        assert(run.networks[i].0 == rows[i].0);
    }
}

/// A compiled topology has the name of its Compose file and the standard policy: the runtime, what
/// each service may use, and a network that is closed.
pub proof fn law_policies_are_standard(
    input: ComposeInput,
    guest_profile: GuestProfileIdentity,
    run: Compilation,
    digest: Seq<char>,
    lock: TopologyLock,
)
    requires
        locks_topology(input, guest_profile, run, digest, lock),
    ensures
        input.name matches Some(name) && lock.name@ == name@,
        lock.schema_version == 6,
        lock.topology_digest@ == digest,
        lock.policy.guest_profile == guest_profile,
        lock.policy.runtime@ == "runsc"@,
        lock.policy.memory_bytes_per_service == 134_217_728,
        lock.policy.cpu_per_service_millis == 500,
        lock.policy.pids_per_service == 96,
        lock.policy.tmpfs_bytes == 16_777_216,
        lock.policy.writable_root_bytes_per_service == 67_108_864,
        lock.policy.maximum_output_bytes == 1_048_576,
        lock.policy.network.profile is Disabled,
        lock.policy.network.http_rules@.len() == 0,
        lock.policy.network.tcp_rules@.len() == 0,
        lock.policy.network.ingress@.len() == 0,
        lock.policy.network.dns.maximum_queries == 256,
        lock.policy.network.dns.maximum_response_bytes == 4_096,
        lock.policy.network.dns.maximum_total_bytes == 1_048_576,
        lock.policy.network.limits.maximum_connections == 32,
        lock.policy.network.limits.maximum_bytes == 67_108_864,
        lock.policy.network.limits.bandwidth_bytes_per_second == 8_388_608,
{
}

/// A Compose file is looked into exactly where it has an identifier for its name, 1 to 32 services
/// and up to 128 volumes.
pub proof fn law_admitted_files_are_bounded(input: ComposeInput)
    ensures
        admission_failure(input) is None <==> {
            &&& input.name is Some
            &&& values::identifier_failure("topology name"@, input.name->0@) is None
            &&& 1 <= input.services.rows().len() <= 32
            &&& input.volumes.rows().len() <= 128
        },
{
}

/// A volume is accepted exactly where its name is an identifier and identifies a volume, and it has
/// a quota or is an artifact.
pub proof fn law_accepted_volumes_are_bounded(
    name: Seq<char>,
    input: VolumeInput,
    identity: Result<(), String>,
)
    ensures
        volume_failure(name, input, identity) is None <==> {
            &&& values::identifier_failure("volume"@, name) is None
            &&& identity is Ok
            &&& input.quota_bytes is Some || input.persistence_class is Artifact
        },
        values::identifier_failure("volume"@, name) is None ==> (identity matches Err(reason)
            ==> volume_failure(name, input, identity) == Some(SandboxFailure::Compose(reason@))),
{
}

/// Networks are accepted exactly where there are up to 8, each with an identifier for its name, and
/// none is asked to be external or other than a bridge.
pub proof fn law_accepted_networks_are_internal(rows: Seq<(String, NetworkInput)>)
    ensures
        networks_failure(rows) is None <==> rows.len() <= 8 && forall|i: int|
            0 <= i < rows.len() ==> {
                &&& values::identifier_failure("network"@, (#[trigger] rows[i]).0@) is None
                &&& rows[i].1.internal != Some(false)
                &&& rows[i].1.driver is None || rows[i].1.driver->0@ == "bridge"@
            },
{
    let failures = Seq::new(rows.len(), |i: int| network_failure(rows[i].0@, rows[i].1));
    checks::lemma_first(failures);
    assert forall|i: int| 0 <= i < rows.len() implies (failures[i] is None <==> {
        &&& values::identifier_failure("network"@, (#[trigger] rows[i]).0@) is None
        &&& rows[i].1.internal != Some(false)
        &&& rows[i].1.driver is None || rows[i].1.driver->0@ == "bridge"@
    }) by {}
    if networks_failure(rows) is None {
        assert forall|i: int| 0 <= i < rows.len() implies {
            &&& values::identifier_failure("network"@, (#[trigger] rows[i]).0@) is None
            &&& rows[i].1.internal != Some(false)
            &&& rows[i].1.driver is None || rows[i].1.driver->0@ == "bridge"@
        } by {
            assert(failures[i] is None);
        }
    }
}

/// A mount is accepted exactly where its volume is declared, it does not ask to write to an artifact
/// or a secret, the volume check lets it pass, and no earlier mount is at its place.
pub proof fn law_accepted_mounts_are_of_declared_volumes(
    service: Seq<char>,
    mounted: Seq<ServiceVolumeInput>,
    i: int,
    volumes: Map<Seq<char>, LockedVolume>,
    answer: Result<(), String>,
)
    ensures
        mount_failure(service, mounted, i, volumes, answer) is None <==> {
            let mount = mounted[i];
            &&& volumes.contains_key(mount.source@)
            &&& volumes[mount.source@].persistence_class is Artifact || volumes[mount.source@].persistence_class is Secret
                ==> mount.read_only != Some(false)
            &&& answer is Ok
            &&& forall|j: int| 0 <= j < i ==> #[trigger] mounted[j].target@ != mount.target@
        },
{
}

/// A probe is accepted exactly where it is a command behind `CMD`, of up to 256 bounded values, with
/// times of up to a minute and up to 100 tries.
pub proof fn law_accepted_probes_are_bounded(service: Seq<char>, probe: HealthcheckInput)
    ensures
        healthcheck_failure(service, probe) is None <==> {
            &&& probe.test@.len() >= 2
            &&& probe.test@[0]@ == "CMD"@
            &&& values::values_failure("healthcheck"@, probe.test@.skip(1), 256) is None
            &&& 1 <= probe.interval_ms <= 60_000
            &&& 1 <= probe.timeout_ms <= 60_000
            &&& 1 <= probe.retries <= 100
        },
{
    assert(probe.test@.drop_first() =~= probe.test@.skip(1));
}

/// A process is accepted exactly where its name is an identifier, its command and entrypoint have up
/// to 256 bounded values each, and its environment up to 128 variables of one line.
pub proof fn law_accepted_processes_are_bounded(name: Seq<char>, input: ServiceInput)
    ensures
        process_failure(name, input) is None <==> {
            let environment = input.environment.rows();
            &&& values::identifier_failure("service"@, name) is None
            &&& values::values_failure("command"@, input.command@, 256) is None
            &&& values::values_failure("entrypoint"@, input.entrypoint@, 256) is None
            &&& environment.len() <= 128
            &&& forall|i: int|
                0 <= i < environment.len() ==> values::environment_failure(
                    (#[trigger] environment[i]).0@,
                    environment[i].1@,
                ) is None
        },
{
    let environment = input.environment.rows();
    let failures = Seq::new(
        environment.len(),
        |i: int| values::environment_failure(environment[i].0@, environment[i].1@),
    );
    checks::lemma_first(failures);
    if process_failure(name, input) is None {
        assert forall|i: int| 0 <= i < environment.len() implies values::environment_failure(
            (#[trigger] environment[i]).0@,
            environment[i].1@,
        ) is None by {
            assert(failures[i] is None);
        }
    }
}

/// The storage of a service is accepted exactly where it has up to 64 mounts, all accepted, its user
/// is a bounded value, and its directory is one, absolute and without `..`.
pub proof fn law_accepted_storage_is_bounded(
    name: Seq<char>,
    input: ServiceInput,
    volumes: Map<Seq<char>, LockedVolume>,
    answers: Seq<Result<(), String>>,
    user: Seq<char>,
    directory: Seq<char>,
)
    requires
        input.user is None ==> user == "65534:65534"@,
        input.user is Some ==> user == input.user->0@,
        input.working_dir is None ==> directory == "/work"@,
        input.working_dir is Some ==> directory == input.working_dir->0@,
    ensures
        storage_failure(name, input, volumes, answers) is None <==> {
            let bytes = text::utf8(directory);
            &&& input.volumes@.len() <= 64
            &&& forall|i: int|
                #![trigger input.volumes@[i]]
                0 <= i < input.volumes@.len() ==> mount_failure(
                    name,
                    input.volumes@,
                    i,
                    volumes,
                    answers[i],
                ) is None
            &&& values::value_failure("user"@, user) is None
            &&& bytes.len() > 0 && bytes[0] == 47
            &&& forall|j: int|
                0 <= j < bytes.len() - 1 ==> !(#[trigger] bytes[j] == 46 && bytes[j + 1] == 46)
            &&& values::value_failure("working directory"@, directory) is None
        },
{
    let failures = mount_failures(name, input.volumes@, volumes, answers);
    checks::lemma_first(failures);
    assert forall|i: int|
        #![trigger input.volumes@[i]]
        0 <= i < input.volumes@.len() implies failures[i] == mount_failure(
        name,
        input.volumes@,
        i,
        volumes,
        answers[i],
    ) by {}
    assert(checks::first(failures) is None <==> forall|i: int|
        #![trigger input.volumes@[i]]
        0 <= i < input.volumes@.len() ==> mount_failure(
            name,
            input.volumes@,
            i,
            volumes,
            answers[i],
        ) is None) by {
        if checks::first(failures) is None {
            assert forall|i: int|
                #![trigger input.volumes@[i]]
                0 <= i < input.volumes@.len() implies mount_failure(
                name,
                input.volumes@,
                i,
                volumes,
                answers[i],
            ) is None by {
                assert(failures[i] is None);
            }
        } else {
            let i = choose|i: int| 0 <= i < failures.len() && !(#[trigger] failures[i] is None);
            assert(input.volumes@[i] == input.volumes@[i]);
        }
    }
}

/// The wiring of a service is accepted exactly where it joins declared networks, each once, or
/// `default`, waits for other services of the file, its probe is accepted, and its image reference
/// has the syntax of one.
pub proof fn law_accepted_wiring_is_declared(
    name: Seq<char>,
    input: ServiceInput,
    names: Seq<String>,
    networks: Map<Seq<char>, LockedNetwork>,
)
    ensures
        wiring_failure(name, input, names, networks) is None <==> {
            let joined = input.networks@;
            let dependencies = input.depends_on.rows();
            &&& joined.len() == 0 ==> networks.contains_key("default"@)
            &&& forall|i: int|
                0 <= i < joined.len() ==> networks.contains_key((#[trigger] joined[i])@)
            &&& forall|i: int, j: int|
                0 <= i < j < joined.len() ==> (#[trigger] joined[i])@ != (#[trigger] joined[j])@
            &&& forall|i: int|
                0 <= i < dependencies.len() ==> (#[trigger] dependencies[i]).0@ != name && exists|
                    k: int,
                |
                    0 <= k < names.len() && #[trigger] names[k]@ == dependencies[i].0@
            &&& input.healthcheck matches Some(probe) ==> healthcheck_failure(name, probe) is None
            &&& values::image_reference_failure(input.image@) is None
        },
{
    let joined = input.networks@;
    let dependencies = input.depends_on.rows();
    let selected = selection_failures(name, joined, networks);
    checks::lemma_first(selected);
    let waits = dependency_failures(name, dependencies, names);
    checks::lemma_first(waits);
    if checks::first(selected) is None {
        assert forall|i: int| 0 <= i < joined.len() implies networks.contains_key(
            (#[trigger] joined[i])@,
        ) by {
            assert(selected[i] is None);
        }
        assert forall|i: int, j: int| 0 <= i < j < joined.len() implies (#[trigger] joined[i])@ != (
        #[trigger] joined[j])@ by {
            assert(selected[j] is None);
        }
    }
    if checks::first(waits) is None {
        assert forall|i: int| 0 <= i < dependencies.len() implies (#[trigger] dependencies[i]).0@
            != name && exists|k: int|
            0 <= k < names.len() && #[trigger] names[k]@ == dependencies[i].0@ by {
            assert(waits[i] is None);
        }
    }
}

/// A compilation succeeds exactly where each of its stages does: admission, volumes, networks,
/// services, what they wait for, their order, and the encoding.
pub proof fn law_compilations_succeed_by_stage(input: ComposeInput, run: Compilation)
    ensures
        compile_failure(input, run) is None <==> {
            &&& admission_failure(input) is None
            &&& checks::first(volume_failures(input.volumes.rows(), run.identities)) is None
            &&& networks_failure(input.networks.rows()) is None
            &&& checks::first(
                service_failures(
                    input.services.rows(),
                    table::as_map(run.volumes),
                    table::as_map(run.networks),
                    run.answers,
                ),
            ) is None
            &&& readiness_failure(run.services) is None
            &&& startup::startup(run.services, Seq::empty()) is Some
            &&& !(run.encoding matches Some(Err(_)))
        },
        forall|answers: ServiceAnswers, name: Seq<char>, service: ServiceInput|
            #![trigger full_service_failure(
                name,
                service,
                keys(input.services.rows()),
                table::as_map(run.volumes),
                table::as_map(run.networks),
                answers,
            )]
            full_service_failure(
                name,
                service,
                keys(input.services.rows()),
                table::as_map(run.volumes),
                table::as_map(run.networks),
                answers,
            ) is None <==> {
                &&& process_failure(name, service) is None
                &&& storage_failure(name, service, table::as_map(run.volumes), answers.mounts)
                    is None
                &&& wiring_failure(
                    name,
                    service,
                    keys(input.services.rows()),
                    table::as_map(run.networks),
                ) is None
                &&& !(answers.image matches Some(Err(_)))
            },
{
    reveal(full_service_failure);
}

/// The image of a compiled service is what the resolver answers for the reference that the Compose
/// file gives, and its digest that of what the encoder writes for the topology without one.
pub proof fn law_answers_come_from_what_was_asked<I, C, F, E>(
    input: ComposeInput,
    version: u32,
    guest_profile: GuestProfileIdentity,
    identify: I,
    check: C,
    resolve: F,
    encode: E,
    run: Compilation,
    lock: TopologyLock,
    i: int,
) where
    I: Fn(&str) -> Result<(), String>,
    C: Fn(&VolumeSpec) -> Result<(), String>,
    F: Fn(&str) -> Result<LockedImage, SandboxError>,
    E: Fn(&TopologyLock) -> Result<Vec<u8>, String>,

    requires
        builds(input, version, run),
        asked(input, version, guest_profile, identify, check, resolve, encode, run),
        compile_failure(input, run) is None,
        run.encoding is Some,
        locks_topology(
            input,
            guest_profile,
            run,
            digest::identity_text(run.encoding->0->Ok_0@),
            lock,
        ),
        0 <= i < input.services.rows().len(),
    ensures
        exists|reference: &str|
            reference@ == input.services.rows()[i].1.image@ && #[trigger] call_ensures(
                resolve,
                (reference,),
                Ok::<LockedImage, SandboxError>(lock.services.rows()[i].1.image),
            ),
        exists|unsealed: TopologyLock, bytes: Vec<u8>|
            {
                &&& #[trigger] call_ensures(encode, (&unsealed,), Ok::<Vec<u8>, String>(bytes))
                &&& lock.topology_digest@ == "sha256:"@ + digest::hex_text(
                    digest::sha256_of(bytes@),
                )
                &&& unsealed.topology_digest@ == ""@
                &&& unsealed.schema_version == lock.schema_version
                &&& unsealed.name == lock.name
                &&& unsealed.services.rows() == lock.services.rows()
                &&& unsealed.networks.rows() == lock.networks.rows()
                &&& unsealed.volumes.rows() == lock.volumes.rows()
                &&& text::texts(unsealed.startup_order@) == text::texts(lock.startup_order@)
            },
{
    reveal(locks_service);
    reveal(told_of_service);
    lemma_compiled_service(
        input,
        version,
        guest_profile,
        run,
        digest::identity_text(run.encoding->0->Ok_0@),
        lock,
        i,
    );
    assert(run.answers.len() == run.services.len());
    assert(told_of_service(
        check,
        resolve,
        input.services.rows()[i].1,
        table::as_map(run.volumes),
        version,
        run.answers[i],
    ));
    let image = run.answers[i].image->0;
    assert(image == Ok::<LockedImage, SandboxError>(lock.services.rows()[i].1.image));
    assert(told(resolve, input.services.rows()[i].1.image@, image));
    let answer = run.encoding->0;
    assert(answer == Ok::<Vec<u8>, String>(answer->Ok_0));
}

/// Services can wait exactly where each that is to be healthy first has a health check.
pub proof fn law_awaited_health_is_checked(services: Seq<(String, LockedService)>)
    ensures
        readiness_failure(services) is None <==> forall|i: int, j: int|
            0 <= i < services.len() && 0 <= j < services[i].1.depends_on.rows().len() && (
            #[trigger] services[i].1.depends_on.rows()[j]).1 == DependencyCondition::Healthy
                ==> table::as_map(services)[services[i].1.depends_on.rows()[j].0@].healthcheck
                is Some,
{
    let failures = Seq::new(
        services.len(),
        |i: int| checks::first(health_failures(services, i)),
    );
    checks::lemma_first(failures);
    assert forall|i: int| 0 <= i < services.len() implies (#[trigger] failures[i] is None
        <==> forall|j: int|
        0 <= j < services[i].1.depends_on.rows().len() && (
        #[trigger] services[i].1.depends_on.rows()[j]).1 == DependencyCondition::Healthy
            ==> table::as_map(services)[services[i].1.depends_on.rows()[j].0@].healthcheck
            is Some) by {
        let own = health_failures(services, i);
        checks::lemma_first(own);
        assert forall|j: int| 0 <= j < own.len() implies (#[trigger] own[j] is None <==> (
        services[i].1.depends_on.rows()[j].1 == DependencyCondition::Healthy ==> table::as_map(
            services,
        )[services[i].1.depends_on.rows()[j].0@].healthcheck is Some)) by {}
        if forall|j: int| 0 <= j < own.len() ==> #[trigger] own[j] is None {
            assert forall|j: int|
                0 <= j < services[i].1.depends_on.rows().len() && (
                #[trigger] services[i].1.depends_on.rows()[j]).1
                    == DependencyCondition::Healthy implies table::as_map(
                services,
            )[services[i].1.depends_on.rows()[j].0@].healthcheck is Some by {
                assert(own[j] is None);
            }
        }
        if forall|j: int|
            0 <= j < services[i].1.depends_on.rows().len() && (
            #[trigger] services[i].1.depends_on.rows()[j]).1 == DependencyCondition::Healthy
                ==> table::as_map(services)[services[i].1.depends_on.rows()[j].0@].healthcheck
                is Some {
            assert forall|j: int| 0 <= j < own.len() implies #[trigger] own[j] is None by {
                let row = services[i].1.depends_on.rows()[j];
            }
        }
    }
    if readiness_failure(services) is None {
        assert forall|i: int, j: int|
            0 <= i < services.len() && 0 <= j < services[i].1.depends_on.rows().len() && (
            #[trigger] services[i].1.depends_on.rows()[j]).1
                == DependencyCondition::Healthy implies table::as_map(
            services,
        )[services[i].1.depends_on.rows()[j].0@].healthcheck is Some by {
            assert(failures[i] is None);
        }
    }
}

/// A lock is accepted exactly where it is of the sixth schema, can be encoded, and its digest is
/// that of its bytes.
pub proof fn law_accepted_locks_have_the_digest_of_their_bytes(
    lock: TopologyLock,
    encoding: Result<Seq<u8>, Seq<char>>,
)
    ensures
        lock_failure(lock, encoding) is None <==> lock.schema_version == 6 && (encoding matches Ok(
            bytes,
        ) && lock.topology_digest@ == digest::identity_text(bytes)),
        lock.schema_version != 6 ==> lock_failure(lock, encoding) == Some(
            SandboxFailure::Lock(
                "unsupported schema version "@ + text::decimal(lock.schema_version as nat),
            ),
        ),
        lock.schema_version == 6 ==> (encoding matches Err(reason) ==> lock_failure(lock, encoding)
            == Some(SandboxFailure::Lock("encode canonical topology: "@ + reason))),
        lock.schema_version == 6 ==> (encoding matches Ok(bytes) ==> (lock_failure(lock, encoding)
            matches Some(failure) ==> failure == SandboxFailure::Lock(
            "topology digest mismatch: expected "@ + digest::identity_text(bytes) + ", found "@
                + lock.topology_digest@,
        ))),
{
    reveal_strlit("");
    match encoding {
        Ok(bytes) => {
            let whole = "topology digest mismatch: expected "@ + digest::identity_text(bytes)
                + ", found "@ + lock.topology_digest@;
            assert(whole + ""@ =~= whole);
        },
        Err(_) => {},
    }
}

/// Each refusal of a topology is of its kind: what is malformed is an invalid file, what is not
/// offered is unsupported.
pub proof fn law_refused_topologies_say_why(
    input: ComposeInput,
    name: Seq<char>,
    volume: VolumeInput,
    identity: Result<(), String>,
    networks: Seq<(String, NetworkInput)>,
    service: Seq<char>,
    mounted: Seq<ServiceVolumeInput>,
    i: int,
    volumes: Map<Seq<char>, LockedVolume>,
    answer: Result<(), String>,
    probe: HealthcheckInput,
    network: NetworkInput,
)
    ensures
        input.name is None ==> admission_failure(input) == Some(
            SandboxFailure::Compose("top-level `name` is required"@),
        ),
        input.name matches Some(own) ==> (values::is_identifier(own@) && (
        input.services.rows().len() == 0 || input.services.rows().len() > 32) ==> admission_failure(
            input,
        ) == Some(SandboxFailure::Compose("service count must be between 1 and 32"@))),
        input.name matches Some(own) ==> (values::is_identifier(own@) && 1
            <= input.services.rows().len() <= 32 && input.volumes.rows().len() > 128
            ==> admission_failure(input) == Some(
            SandboxFailure::Compose("volume count exceeds 128"@),
        )),
        values::is_identifier(name) ==> (identity matches Err(reason) ==> volume_failure(
            name,
            volume,
            identity,
        ) == Some(SandboxFailure::Compose(reason@))),
        values::is_identifier(name) && identity is Ok ==> (volume_failure(name, volume, identity)
            matches Some(failure) ==> failure == SandboxFailure::Compose(
            "volume `"@ + name + "` requires an explicit quota_bytes"@,
        )),
        networks.len() > 8 ==> networks_failure(networks) == Some(
            SandboxFailure::Compose("network count exceeds 8"@),
        ),
        values::is_identifier(name) && network.internal == Some(false) ==> network_failure(
            name,
            network,
        ) == Some(
            SandboxFailure::Unsupported("network `"@ + name + "` requests external connectivity"@),
        ),
        values::is_identifier(name) && network.internal != Some(false) ==> (network_failure(
            name,
            network,
        ) matches Some(failure) ==> failure == SandboxFailure::Unsupported(
            "network `"@ + name + "` does not use the bridge driver"@,
        )),
        !volumes.contains_key(mounted[i].source@) ==> mount_failure(
            service,
            mounted,
            i,
            volumes,
            answer,
        ) == Some(
            SandboxFailure::Compose(
                "service `"@ + service + "` references unknown volume `"@ + mounted[i].source@
                    + "`"@,
            ),
        ),
        volumes.contains_key(mounted[i].source@) && !(
        volumes[mounted[i].source@].persistence_class is Ephemeral
            || volumes[mounted[i].source@].persistence_class is Persistent) && mounted[i].read_only
            == Some(false) ==> mount_failure(service, mounted, i, volumes, answer) == Some(
            SandboxFailure::Compose(
                "service `"@ + service + "` requests a writable immutable volume"@,
            ),
        ),
        probe.test@.len() < 2 || probe.test@[0]@ != "CMD"@ ==> healthcheck_failure(service, probe)
            == Some(
            SandboxFailure::Unsupported(
                "service `"@ + service + "` healthcheck must use exec-form `CMD`"@,
            ),
        ),
{
}

/// A named volume is read-only exactly where that is asked for. Artifacts and secrets always are.
pub proof fn law_only_named_volumes_are_written(
    class: VolumePersistenceClass,
    read_only: Option<bool>,
)
    ensures
        class is Ephemeral || class is Persistent ==> (mounts_read_only(class, read_only)
            <==> read_only == Some(true)),
        class is Artifact || class is Secret ==> mounts_read_only(class, read_only),
        snapshot_default(VolumePersistenceClass::Persistent) is Required,
        snapshot_default(VolumePersistenceClass::Ephemeral) is BestEffort,
        snapshot_default(VolumePersistenceClass::Artifact) is Excluded,
        snapshot_default(VolumePersistenceClass::Secret) is Excluded,
{
}

} // verus!

//! Workers: how they offer themselves, and how each is used once.

use crate::checks;
use crate::oci::address::IpAddress;
use crate::oci::error;
use crate::placement::error::{PlacementFailure, PlacementStoreError};
use crate::placement::model;
use crate::placement::model::{
    bounded_label, valid_pool_name, PlacementWorkerState, WorkerRegistration, MAXIMUM_WORKERS,
};
use crate::table;
use crate::table::Table;
use crate::text;
use crate::text::join3;
use vstd::prelude::*;

verus! {

/// The address of no one.
pub open spec fn is_unspecified(address: IpAddress) -> bool {
    address == IpAddress::V4(0) || address == IpAddress::V6(0)
}

/// The address of a group.
pub open spec fn is_multicast(address: IpAddress) -> bool {
    match address {
        IpAddress::V4(value) => 0xe000_0000 <= value <= 0xefff_ffff,
        IpAddress::V6(value) => 0xff00_0000_0000_0000_0000_0000_0000_0000 <= value,
    }
}

fn reaches_one(address: IpAddress) -> (r: bool)
    ensures
        r == !(is_unspecified(address) || is_multicast(address)),
{
    match address {
        IpAddress::V4(value) => value != 0 && (value < 0xe000_0000 || value > 0xefff_ffff),
        IpAddress::V6(value) => value != 0 && value < 0xff00_0000_0000_0000_0000_0000_0000_0000,
    }
}

/// A worker that may register. `ceilings` says whether its ceilings are valid.
pub open spec fn is_valid_worker(
    registration: WorkerRegistration,
    broker_port: u16,
    ceilings: bool,
) -> bool {
    &&& model::is_pool_name(registration.pool_name@)
    &&& model::is_label(registration.topology@)
    &&& model::is_label(registration.resource_shape@)
    &&& model::is_label(registration.compatibility_cohort@)
    &&& registration.broker_address.port == broker_port
    &&& !is_unspecified(registration.broker_address.address)
    &&& !is_multicast(registration.broker_address.address)
    &&& ceilings
}

/// Accepts a worker that registers.
pub fn validate_worker(registration: &WorkerRegistration, broker_port: u16, ceilings: bool) -> (r:
    Result<(), PlacementStoreError>)
    ensures
        error::outcome(r) == checks::verdict(
            checks::when(
                !is_valid_worker(*registration, broker_port, ceilings),
                PlacementFailure::Invalid("worker registration is invalid"@),
            ),
        ),
{
    if !valid_pool_name(registration.pool_name.as_str()) || !bounded_label(
        registration.topology.as_str(),
    ) || !bounded_label(registration.resource_shape.as_str()) || !bounded_label(
        registration.compatibility_cohort.as_str(),
    ) || registration.broker_address.port != broker_port || !reaches_one(
        registration.broker_address.address,
    ) || !ceilings {
        return Err(PlacementStoreError::Invalid("worker registration is invalid".to_owned()));
    }
    Ok(())
}

/// What is kept of a worker.
#[derive(Debug, PartialEq, Eq)]
pub struct WorkerRow {
    pub pool_name: String,
    pub topology: String,
    pub resource_shape: String,
    pub compatibility_cohort: String,
    pub state: PlacementWorkerState,
    pub heartbeat_unix_ms: i64,
    /// Its broker and its ceilings are known.
    pub described: bool,
}

/// A `WorkerRow` with its texts read as character sequences.
#[verifier::ext_equal]
pub struct WorkerText {
    pub pool_name: Seq<char>,
    pub topology: Seq<char>,
    pub resource_shape: Seq<char>,
    pub compatibility_cohort: Seq<char>,
    pub state: PlacementWorkerState,
    pub heartbeat_unix_ms: i64,
    pub described: bool,
}

impl View for WorkerRow {
    type V = WorkerText;

    open spec fn view(&self) -> WorkerText {
        WorkerText {
            pool_name: self.pool_name@,
            topology: self.topology@,
            resource_shape: self.resource_shape@,
            compatibility_cohort: self.compatibility_cohort@,
            state: self.state,
            heartbeat_unix_ms: self.heartbeat_unix_ms,
            described: self.described,
        }
    }
}

/// A worker that registers for the first time.
pub open spec fn new_worker(registration: WorkerRegistration, now: i64) -> WorkerText {
    WorkerText {
        pool_name: registration.pool_name@,
        topology: registration.topology@,
        resource_shape: registration.resource_shape@,
        compatibility_cohort: registration.compatibility_cohort@,
        state: PlacementWorkerState::Clean,
        heartbeat_unix_ms: now,
        described: true,
    }
}

/// A worker offers again what it offered before.
pub open spec fn offers_again(row: WorkerText, registration: WorkerRegistration) -> bool {
    &&& row.state is Clean
    &&& row.pool_name == registration.pool_name@
    &&& row.topology == registration.topology@
    &&& row.resource_shape == registration.resource_shape@
    &&& row.compatibility_cohort == registration.compatibility_cohort@
}

/// Registers a worker, of which `row` is kept already, if anything is.
pub fn register(row: Option<WorkerRow>, registration: &WorkerRegistration, now: i64) -> (r: Result<
    WorkerRow,
    PlacementStoreError,
>)
    ensures
        match row {
            None => r matches Ok(worker) && worker@ == new_worker(*registration, now),
            Some(row) => if offers_again(row@, *registration) {
                r matches Ok(worker) && worker@ == (WorkerText {
                    heartbeat_unix_ms: now,
                    described: true,
                    ..row@
                })
            } else {
                r matches Err(error) && error@ == PlacementFailure::WorkerUnavailable
            },
        },
{
    match row {
        None => Ok(
            WorkerRow {
                pool_name: registration.pool_name.clone(),
                topology: registration.topology.clone(),
                resource_shape: registration.resource_shape.clone(),
                compatibility_cohort: registration.compatibility_cohort.clone(),
                state: PlacementWorkerState::Clean,
                heartbeat_unix_ms: now,
                described: true,
            },
        ),
        Some(row) => {
            let clean = match row.state {
                PlacementWorkerState::Clean => true,
                _ => false,
            };
            if !clean || !text::same(row.pool_name.as_str(), registration.pool_name.as_str())
                || !text::same(row.topology.as_str(), registration.topology.as_str())
                || !text::same(
                row.resource_shape.as_str(),
                registration.resource_shape.as_str(),
            ) || !text::same(
                row.compatibility_cohort.as_str(),
                registration.compatibility_cohort.as_str(),
            ) {
                return Err(PlacementStoreError::WorkerUnavailable);
            }
            let mut row = row;
            row.heartbeat_unix_ms = now;
            row.described = true;
            Ok(row)
        },
    }
}

/// What happens to a worker that is known.
#[derive(Clone, Copy, Debug, PartialEq, Eq, Structural)]
pub enum WorkerEvent {
    /// It was heard at this time.
    Heartbeat { now: i64 },
    /// It gets no more work.
    Drain,
    /// It is shut out.
    Quarantine,
    /// It takes work.
    Lease,
    /// Its work is done.
    Consume,
    /// Its work was cancelled.
    Cancelled,
    /// Its lease was over.
    Fenced,
}

/// A worker that is of use.
pub open spec fn is_active(state: PlacementWorkerState) -> bool {
    state is Clean || state is Leased || state is Draining
}

/// What an event makes of a worker, where it is possible.
pub open spec fn worker_step(row: WorkerText, event: WorkerEvent) -> Option<WorkerText> {
    match event {
        WorkerEvent::Heartbeat { now } => if is_active(row.state) {
            Some(WorkerText { heartbeat_unix_ms: now, ..row })
        } else {
            None
        },
        WorkerEvent::Drain => if is_active(row.state) {
            Some(WorkerText { state: PlacementWorkerState::Draining, ..row })
        } else {
            None
        },
        WorkerEvent::Quarantine => if row.state is Consumed {
            None
        } else {
            Some(WorkerText { state: PlacementWorkerState::Quarantined, ..row })
        },
        WorkerEvent::Lease => if row.state is Clean {
            Some(WorkerText { state: PlacementWorkerState::Leased, ..row })
        } else {
            None
        },
        WorkerEvent::Consume => Some(WorkerText { state: PlacementWorkerState::Consumed, ..row }),
        WorkerEvent::Cancelled => Some(
            if row.state is Leased {
                WorkerText { state: PlacementWorkerState::Quarantined, ..row }
            } else {
                row
            },
        ),
        WorkerEvent::Fenced => Some(
            WorkerText { state: PlacementWorkerState::Quarantined, ..row },
        ),
    }
}

/// Applies an event to a worker, if it is known.
pub fn apply(row: Option<WorkerRow>, event: WorkerEvent) -> (r: Result<
    WorkerRow,
    PlacementStoreError,
>)
    ensures
        match r {
            Ok(worker) => row is Some && worker_step(row->0@, event) == Some(worker@),
            Err(error) => error@ == PlacementFailure::WorkerUnavailable && (row is None
                || worker_step(row->0@, event) is None),
        },
{
    let mut row = match row {
        Some(row) => row,
        None => return Err(PlacementStoreError::WorkerUnavailable),
    };
    let active = match row.state {
        PlacementWorkerState::Clean => true,
        PlacementWorkerState::Leased => true,
        PlacementWorkerState::Draining => true,
        _ => false,
    };
    let clean = match row.state {
        PlacementWorkerState::Clean => true,
        _ => false,
    };
    let leased = match row.state {
        PlacementWorkerState::Leased => true,
        _ => false,
    };
    let consumed = match row.state {
        PlacementWorkerState::Consumed => true,
        _ => false,
    };
    match event {
        WorkerEvent::Heartbeat { now } => {
            if !active {
                return Err(PlacementStoreError::WorkerUnavailable);
            }
            row.heartbeat_unix_ms = now;
        },
        WorkerEvent::Drain => {
            if !active {
                return Err(PlacementStoreError::WorkerUnavailable);
            }
            row.state = PlacementWorkerState::Draining;
        },
        WorkerEvent::Quarantine => {
            if consumed {
                return Err(PlacementStoreError::WorkerUnavailable);
            }
            row.state = PlacementWorkerState::Quarantined;
        },
        WorkerEvent::Lease => {
            if !clean {
                return Err(PlacementStoreError::WorkerUnavailable);
            }
            row.state = PlacementWorkerState::Leased;
        },
        WorkerEvent::Consume => {
            row.state = PlacementWorkerState::Consumed;
        },
        WorkerEvent::Cancelled => {
            if leased {
                row.state = PlacementWorkerState::Quarantined;
            }
        },
        WorkerEvent::Fenced => {
            row.state = PlacementWorkerState::Quarantined;
        },
    }
    Ok(row)
}

/// A worker that may take work, if it was heard after `cutoff`.
pub open spec fn is_ready(row: WorkerText, cutoff: i64) -> bool {
    row.state is Clean && row.heartbeat_unix_ms > cutoff && row.described
}

/// Accepts a worker that asks for work, if it is known.
pub fn check_ready(row: Option<&WorkerRow>, cutoff: i64) -> (r: Result<(), PlacementStoreError>)
    ensures
        error::outcome(r) == checks::verdict(
            checks::when(
                row is None || !is_ready(row->0@, cutoff),
                PlacementFailure::WorkerUnavailable,
            ),
        ),
{
    let ready = match row {
        Some(row) => {
            let clean = match row.state {
                PlacementWorkerState::Clean => true,
                _ => false,
            };
            clean && row.heartbeat_unix_ms > cutoff && row.described
        },
        None => false,
    };
    if !ready {
        return Err(PlacementStoreError::WorkerUnavailable);
    }
    Ok(())
}

/// What a row of events makes of a worker; what is not possible changes nothing.
pub open spec fn worker_after(row: WorkerText, events: Seq<WorkerEvent>) -> WorkerText
    decreases events.len(),
{
    if events.len() == 0 {
        row
    } else {
        let before = worker_after(row, events.drop_last());
        match worker_step(before, events.last()) {
            Some(after) => after,
            None => before,
        }
    }
}

/// A worker is used once: one that has taken work, or is drained or shut out, is never clean
/// again, can take no more work, and cannot register again.
pub proof fn law_workers_are_used_once(
    row: WorkerText,
    events: Seq<WorkerEvent>,
    registration: WorkerRegistration,
    cutoff: i64,
)
    requires
        !(row.state is Clean),
    ensures
        !(worker_after(row, events).state is Clean),
        worker_step(worker_after(row, events), WorkerEvent::Lease) is None,
        !offers_again(worker_after(row, events), registration),
        !is_ready(worker_after(row, events), cutoff),
    decreases events.len(),
{
    if events.len() > 0 {
        law_workers_are_used_once(row, events.drop_last(), registration, cutoff);
    }
}

/// The state of a worker in words.
pub open spec fn state_name(state: PlacementWorkerState) -> Seq<char> {
    match state {
        PlacementWorkerState::Clean => "clean"@,
        PlacementWorkerState::Leased => "leased"@,
        PlacementWorkerState::Draining => "draining"@,
        PlacementWorkerState::Quarantined => "quarantined"@,
        PlacementWorkerState::Consumed => "consumed"@,
    }
}

/// Writes the state of a worker in words.
pub fn worker_state_name(state: PlacementWorkerState) -> (r: &'static str)
    ensures
        r@ == state_name(state),
{
    match state {
        PlacementWorkerState::Clean => "clean",
        PlacementWorkerState::Leased => "leased",
        PlacementWorkerState::Draining => "draining",
        PlacementWorkerState::Quarantined => "quarantined",
        PlacementWorkerState::Consumed => "consumed",
    }
}

/// Reads the state of a worker.
pub fn parse_worker_state(value: &str) -> (r: Result<PlacementWorkerState, PlacementStoreError>)
    ensures
        match r {
            Ok(state) => value@ == state_name(state),
            Err(error) => error@ == PlacementFailure::Invalid(
                "unknown worker state `"@ + value@ + "`"@,
            ) && forall|state: PlacementWorkerState| value@ != #[trigger] state_name(state),
        },
{
    if text::same(value, "clean") {
        Ok(PlacementWorkerState::Clean)
    } else if text::same(value, "leased") {
        Ok(PlacementWorkerState::Leased)
    } else if text::same(value, "draining") {
        Ok(PlacementWorkerState::Draining)
    } else if text::same(value, "quarantined") {
        Ok(PlacementWorkerState::Quarantined)
    } else if text::same(value, "consumed") {
        Ok(PlacementWorkerState::Consumed)
    } else {
        Err(PlacementStoreError::Invalid(join3("unknown worker state `", value, "`")))
    }
}

/// Some text occurs twice.
pub open spec fn has_duplicates(values: Seq<Seq<char>>) -> bool {
    exists|i: int, j: int| 0 <= i < j < values.len() && #[trigger] values[i] == #[trigger] values[j]
}

/// The texts stand in byte order.
pub open spec fn is_sorted(values: Seq<Seq<char>>) -> bool {
    forall|i: int, j: int|
        0 <= i < j < values.len() ==> table::precedes(
            text::utf8(#[trigger] values[i]),
            text::utf8(#[trigger] values[j]),
        )
}

/// The texts in byte order, if none occurs twice.
pub fn sorted_distinct(values: &Vec<String>) -> (r: Option<Vec<String>>)
    ensures
        match r {
            Some(sorted) => {
                &&& !has_duplicates(text::texts(values@))
                &&& is_sorted(text::texts(sorted@))
                &&& sorted@.len() == values@.len()
                &&& text::texts(sorted@).to_set() == text::texts(values@).to_set()
            },
            None => has_duplicates(text::texts(values@)),
        },
{
    let ghost all = text::texts(values@);
    let mut rows: Table<bool> = Table::new();
    let mut i: usize = 0;
    while i < values.len()
        invariant
            i <= values@.len(),
            all == text::texts(values@),
            all.len() == values@.len(),
            rows.rows().len() == i,
            forall|key: Seq<char>|
                rows@.contains_key(key) <==> exists|j: int| 0 <= j < i && #[trigger] all[j] == key,
            forall|a: int, b: int|
                0 <= a < b < i ==> #[trigger] all[a] != #[trigger] all[b],
        decreases values@.len() - i,
    {
        let ghost before = rows@;
        proof {
            assert(all[i as int] == values@[i as int]@);
        }
        if rows.insert(values[i].clone(), true).is_some() {
            proof {
                assert(before.contains_key(all[i as int]));
                let j = choose|j: int| 0 <= j < i && #[trigger] all[j] == all[i as int];
                assert(all[j] == all[i as int]);
            }
            return None;
        }
        proof {
            assert forall|a: int, b: int| 0 <= a < b < i + 1 implies #[trigger] all[a]
                != #[trigger] all[b] by {
                if b == i && all[a] == all[b] {
                    assert(before.contains_key(all[i as int]));
                }
            }
            assert forall|key: Seq<char>|
                rows@.contains_key(key) <==> exists|j: int|
                    0 <= j < i + 1 && #[trigger] all[j] == key by {
                if rows@.contains_key(key) {
                    if key == all[i as int] {
                        assert(all[i as int] == key);
                    } else {
                        assert(before.contains_key(key));
                    }
                }
                if exists|j: int| 0 <= j < i + 1 && #[trigger] all[j] == key {
                    let j = choose|j: int| 0 <= j < i + 1 && #[trigger] all[j] == key;
                    if j < i {
                        assert(before.contains_key(key));
                    }
                }
            }
        }
        i += 1;
    }
    let ghost held = rows@;
    let ghost table_rows = rows.rows();
    let pairs = rows.into_rows();
    let mut sorted: Vec<String> = Vec::new();
    let mut k: usize = 0;
    while k < pairs.len()
        invariant
            k <= pairs@.len(),
            table::ordered(pairs@),
            sorted@.len() == k,
            forall|j: int| 0 <= j < k ==> (#[trigger] sorted@[j])@ == pairs@[j].0@,
        decreases pairs@.len() - k,
    {
        sorted.push(pairs[k].0.clone());
        k += 1;
    }
    proof {
        let out = text::texts(sorted@);
        assert forall|key: Seq<char>| out.to_set().contains(key) <==> all.to_set().contains(key) by {
            if out.to_set().contains(key) {
                let j = choose|j: int| 0 <= j < out.len() && out[j] == key;
                assert(pairs@[j].0@ == key);
                table::lemma_position(pairs@, j);
                assert(held.contains_key(key));
                let n = choose|n: int| 0 <= n < values@.len() && #[trigger] all[n] == key;
                assert(all[n] == key);
            }
            if all.to_set().contains(key) {
                let n = choose|n: int| 0 <= n < all.len() && all[n] == key;
                assert(all[n] == key);
                assert(held.contains_key(key));
                let p = table::position(pairs@, key);
                assert(pairs@[p].0@ == key);
                assert(out[p] == key);
            }
        }
        assert(out.to_set() =~= all.to_set());
        assert forall|a: int, b: int| 0 <= a < b < out.len() implies table::precedes(
            text::utf8(#[trigger] out[a]),
            text::utf8(#[trigger] out[b]),
        ) by {
            assert(out[a] == pairs@[a].0@ && out[b] == pairs@[b].0@);
        }
    }
    Some(sorted)
}

/// Accepts a set of workers to drain: their identities in order.
pub fn check_drain_set(worker_ids: &Vec<String>) -> (r: Result<Vec<String>, PlacementStoreError>)
    ensures
        match r {
            Ok(identities) => {
                &&& 0 < worker_ids@.len() <= MAXIMUM_WORKERS
                &&& !has_duplicates(text::texts(worker_ids@))
                &&& is_sorted(text::texts(identities@))
                &&& identities@.len() == worker_ids@.len()
                &&& text::texts(identities@).to_set() == text::texts(worker_ids@).to_set()
            },
            Err(error) => error@ == PlacementFailure::Invalid(
                if 0 < worker_ids@.len() <= MAXIMUM_WORKERS {
                    "worker drain set contains duplicates"@
                } else {
                    "worker drain set is invalid"@
                },
            ) && (0 < worker_ids@.len() <= MAXIMUM_WORKERS ==> has_duplicates(
                text::texts(worker_ids@),
            )),
        },
{
    if worker_ids.len() == 0 || worker_ids.len() > MAXIMUM_WORKERS {
        return Err(PlacementStoreError::Invalid("worker drain set is invalid".to_owned()));
    }
    match sorted_distinct(worker_ids) {
        Some(identities) => Ok(identities),
        None => Err(
            PlacementStoreError::Invalid("worker drain set contains duplicates".to_owned()),
        ),
    }
}

/// Every worker of a set was found, and is clean.
pub open spec fn all_clean(expected: nat, states: Seq<PlacementWorkerState>) -> bool {
    states.len() == expected && forall|i: int|
        0 <= i < states.len() ==> #[trigger] states[i] is Clean
}

/// Whether a set of workers is drained: all of them, or none.
pub fn decide_drain(expected: usize, states: &Vec<PlacementWorkerState>) -> (r: bool)
    ensures
        r == all_clean(expected as nat, states@),
{
    if states.len() != expected {
        return false;
    }
    let mut i: usize = 0;
    while i < states.len()
        invariant
            i <= states@.len() == expected,
            forall|j: int| 0 <= j < i ==> #[trigger] states@[j] is Clean,
        decreases states@.len() - i,
    {
        let clean = match states[i] {
            PlacementWorkerState::Clean => true,
            _ => false,
        };
        if !clean {
            proof {
                assert(!(states@[i as int] is Clean));
            }
            return false;
        }
        i += 1;
    }
    true
}

/// Accepts the number of workers that were drained.
pub fn check_drained(updated: u64, expected: usize) -> (r: Result<(), PlacementStoreError>)
    ensures
        error::outcome(r) == checks::verdict(
            checks::when(
                updated != expected,
                PlacementFailure::Invalid("worker drain set changed concurrently"@),
            ),
        ),
{
    if updated != expected as u64 {
        return Err(
            PlacementStoreError::Invalid("worker drain set changed concurrently".to_owned()),
        );
    }
    Ok(())
}

/// Accepts a number of workers whose states are asked for.
pub fn check_state_query(count: usize) -> (r: Result<(), PlacementStoreError>)
    ensures
        error::outcome(r) == checks::verdict(
            checks::when(
                !(0 < count <= MAXIMUM_WORKERS),
                PlacementFailure::Invalid("worker state query is invalid"@),
            ),
        ),
{
    if count == 0 || count > MAXIMUM_WORKERS {
        return Err(PlacementStoreError::Invalid("worker state query is invalid".to_owned()));
    }
    Ok(())
}

/// Accepts a number of workers that are looked for.
pub fn check_scan_limit(limit: u16) -> (r: Result<(), PlacementStoreError>)
    ensures
        error::outcome(r) == checks::verdict(
            checks::when(
                !(0 < limit <= 1_024),
                PlacementFailure::Invalid("worker scan limit is invalid"@),
            ),
        ),
{
    if limit == 0 || limit > 1_024 {
        return Err(PlacementStoreError::Invalid("worker scan limit is invalid".to_owned()));
    }
    Ok(())
}

/// A worker may register exactly where its pool and its labels are well formed, its broker listens
/// at the port of brokers and at an address of one host, and its ceilings are valid.
pub proof fn law_registered_workers_can_be_reached(
    registration: WorkerRegistration,
    broker_port: u16,
    ceilings: bool,
)
    ensures
        is_valid_worker(registration, broker_port, ceilings) <==> {
            &&& model::is_pool_name(registration.pool_name@)
            &&& model::is_label(registration.topology@)
            &&& model::is_label(registration.resource_shape@)
            &&& model::is_label(registration.compatibility_cohort@)
            &&& registration.broker_address.port == broker_port
            &&& match registration.broker_address.address {
                IpAddress::V4(value) => value != 0 && !(224 <= value / 16_777_216 < 240),
                IpAddress::V6(value) => value != 0 && value
                    / 0x0100_0000_0000_0000_0000_0000_0000_0000 < 0xff,
            }
            &&& ceilings
        },
{
}

/// A worker that is new is kept as it registers, clean and heard just now. One that is known may
/// register again exactly where it is still clean and offers what it offered.
pub proof fn law_workers_are_kept_as_they_register(
    row: WorkerText,
    registration: WorkerRegistration,
    now: i64,
)
    ensures
        new_worker(registration, now).pool_name == registration.pool_name@,
        new_worker(registration, now).topology == registration.topology@,
        new_worker(registration, now).resource_shape == registration.resource_shape@,
        new_worker(registration, now).compatibility_cohort == registration.compatibility_cohort@,
        new_worker(registration, now).state is Clean,
        new_worker(registration, now).heartbeat_unix_ms == now,
        new_worker(registration, now).described,
        offers_again(row, registration) <==> row.state is Clean && row.pool_name
            == registration.pool_name@ && row.topology == registration.topology@
            && row.resource_shape == registration.resource_shape@ && row.compatibility_cohort
            == registration.compatibility_cohort@,
        offers_again(new_worker(registration, now), registration),
{
}

/// What events make of a worker: one that is clean, leased or draining is heard and drained, one
/// that is not used up is shut out, one that is clean is leased, work that is done uses its worker
/// up, work that is cancelled shuts out who has it, and a lease that is over shuts out its worker.
/// Nothing else about a worker changes.
pub proof fn law_events_move_workers(row: WorkerText, event: WorkerEvent)
    ensures
        worker_step(row, event) matches Some(after) ==> {
            &&& after.pool_name == row.pool_name
            &&& after.topology == row.topology
            &&& after.resource_shape == row.resource_shape
            &&& after.compatibility_cohort == row.compatibility_cohort
            &&& after.described == row.described
            &&& !(event is Heartbeat) ==> after.heartbeat_unix_ms == row.heartbeat_unix_ms
            &&& match event {
                WorkerEvent::Heartbeat { now } => after.heartbeat_unix_ms == now && after.state
                    == row.state,
                WorkerEvent::Drain => after.state is Draining,
                WorkerEvent::Quarantine => after.state is Quarantined,
                WorkerEvent::Lease => after.state is Leased,
                WorkerEvent::Consume => after.state is Consumed,
                WorkerEvent::Cancelled => if row.state is Leased {
                    after.state is Quarantined
                } else {
                    after.state == row.state
                },
                WorkerEvent::Fenced => after.state is Quarantined,
            }
        },
        worker_step(row, event) is None <==> match event {
            WorkerEvent::Heartbeat { .. } => row.state is Quarantined || row.state is Consumed,
            WorkerEvent::Drain => row.state is Quarantined || row.state is Consumed,
            WorkerEvent::Quarantine => row.state is Consumed,
            WorkerEvent::Lease => !(row.state is Clean),
            WorkerEvent::Consume => false,
            WorkerEvent::Cancelled => false,
            WorkerEvent::Fenced => false,
        },
{
}

/// A worker is given work exactly where it is clean, was heard after the cutoff, and its broker and
/// its ceilings are known.
pub proof fn law_ready_workers_were_heard(row: WorkerText, cutoff: i64)
    ensures
        is_ready(row, cutoff) <==> row.state is Clean && cutoff < row.heartbeat_unix_ms
            && row.described,
{
}

/// The states of workers have the names that the database knows.
pub proof fn law_worker_states_have_names(state: PlacementWorkerState)
    ensures
        state is Clean ==> state_name(state) == "clean"@,
        state is Leased ==> state_name(state) == "leased"@,
        state is Draining ==> state_name(state) == "draining"@,
        state is Quarantined ==> state_name(state) == "quarantined"@,
        state is Consumed ==> state_name(state) == "consumed"@,
{
}

/// A set of workers is drained exactly where as many were found as were named and all are clean.
pub proof fn law_drained_sets_are_clean(expected: nat, states: Seq<PlacementWorkerState>)
    ensures
        all_clean(expected, states) <==> states.len() == expected && !(exists|i: int|
            0 <= i < states.len() && !(#[trigger] states[i] is Clean)),
{
}

} // verus!

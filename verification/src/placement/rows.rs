//! Rows of the placement tables and what they say.

use crate::checks;
use crate::oci::address::SocketAddress;
use crate::placement::error::{PlacementFailure, PlacementStoreError};
use crate::placement::model::{
    to_i64, Assignment, PlacementIdentity, PlacementRecord, PlacementState,
};
use crate::protocol::{Operation, ResourceCeilings, WorkloadResponse};
use crate::text;
use crate::text::join3;
use vstd::prelude::*;

verus! {

/// The state of a placement in words.
pub open spec fn state_name(state: PlacementState) -> Seq<char> {
    match state {
        PlacementState::Queued => "queued"@,
        PlacementState::Assigned => "assigned"@,
        PlacementState::Serving => "serving"@,
        PlacementState::Completed => "completed"@,
        PlacementState::Cancelled => "cancelled"@,
        PlacementState::Expired => "expired"@,
    }
}

/// Writes the state of a placement in words.
pub fn placement_state_name(state: PlacementState) -> (r: &'static str)
    ensures
        r@ == state_name(state),
{
    match state {
        PlacementState::Queued => "queued",
        PlacementState::Assigned => "assigned",
        PlacementState::Serving => "serving",
        PlacementState::Completed => "completed",
        PlacementState::Cancelled => "cancelled",
        PlacementState::Expired => "expired",
    }
}

/// The words name a state.
pub open spec fn names_state(value: Seq<char>) -> bool {
    exists|state: PlacementState| value == #[trigger] state_name(state)
}

/// Reads the state of a placement.
pub fn parse_placement_state(value: &str) -> (r: Result<PlacementState, PlacementStoreError>)
    ensures
        match r {
            Ok(state) => value@ == state_name(state) && names_state(value@),
            Err(error) => !names_state(value@) && error@ == PlacementFailure::Invalid(
                "unknown placement state `"@ + value@ + "`"@,
            ),
        },
{
    let states = [
        PlacementState::Queued,
        PlacementState::Assigned,
        PlacementState::Serving,
        PlacementState::Completed,
        PlacementState::Cancelled,
        PlacementState::Expired,
    ];
    let mut i: usize = 0;
    while i < 6
        invariant
            i <= 6,
            states@ == seq![
                PlacementState::Queued,
                PlacementState::Assigned,
                PlacementState::Serving,
                PlacementState::Completed,
                PlacementState::Cancelled,
                PlacementState::Expired,
            ],
            forall|j: int| 0 <= j < i ==> value@ != #[trigger] state_name(states@[j]),
        decreases 6 - i,
    {
        if text::same(value, placement_state_name(states[i])) {
            proof {
                assert(value@ == state_name(states@[i as int]));
            }
            return Ok(states[i]);
        }
        i += 1;
    }
    proof {
        assert forall|state: PlacementState| value@ != #[trigger] state_name(state) by {
            let at: int = match state {
                PlacementState::Queued => 0,
                PlacementState::Assigned => 1,
                PlacementState::Serving => 2,
                PlacementState::Completed => 3,
                PlacementState::Cancelled => 4,
                PlacementState::Expired => 5,
            };
            assert(states@[at] == state);
        }
    }
    Err(PlacementStoreError::Invalid(join3("unknown placement state `", value, "`")))
}

/// The words of two states differ.
pub proof fn law_state_names_differ(first: PlacementState, second: PlacementState)
    ensures
        state_name(first) == state_name(second) ==> first == second,
{
    reveal_strlit("queued");
    reveal_strlit("assigned");
    reveal_strlit("serving");
    reveal_strlit("completed");
    reveal_strlit("cancelled");
    reveal_strlit("expired");
    if first != second && state_name(first) == state_name(second) {
        assert(state_name(first)[0] == state_name(second)[0]);
        assert(state_name(first)[1] == state_name(second)[1]);
    }
}

/// A row of the placement table.
#[derive(Clone, Debug)]
pub struct StoredPlacement {
    pub request_id: String,
    pub idempotency_key: String,
    pub tenant_id: String,
    pub workspace_id: String,
    pub sandbox_id: String,
    pub subject_id: String,
    pub pool_name: String,
    pub state: String,
    pub worker_id: Option<String>,
    pub assignment_epoch: Option<i64>,
    pub lease_expires_unix_ms: Option<i64>,
    pub result_digest: Option<String>,
}

/// What the rules of the identifiers say of those in a row.
#[derive(Debug)]
pub struct RowChecks {
    pub worker: Result<(), String>,
    pub epoch: Result<(), String>,
    pub tenant: Result<(), String>,
    pub workspace: Result<(), String>,
    pub sandbox: Result<(), String>,
    pub subject: Result<(), String>,
}

/// Why an identifier is refused.
pub open spec fn refused(check: Result<(), String>) -> Option<PlacementFailure> {
    match check {
        Ok(()) => None,
        Err(reason) => Some(PlacementFailure::Invalid(reason@)),
    }
}

/// Why a row is no placement.
pub open spec fn row_failure(
    row: StoredPlacement,
    rules: RowChecks,
    response: Result<Option<WorkloadResponse>, String>,
) -> Option<PlacementFailure> {
    checks::or(
        if row.worker_id is Some {
            refused(rules.worker)
        } else {
            None
        },
        checks::or(
            match row.assignment_epoch {
                Some(epoch) => if epoch < 0 {
                    Some(PlacementFailure::Invalid("negative assignment epoch"@))
                } else {
                    refused(rules.epoch)
                },
                None => None,
            },
            checks::or(
                checks::when(
                    row.lease_expires_unix_ms is Some && row.lease_expires_unix_ms->0 < 0,
                    PlacementFailure::Invalid("negative lease expiration"@),
                ),
                checks::or(
                    refused(rules.tenant),
                    checks::or(
                        refused(rules.workspace),
                        checks::or(
                            refused(rules.sandbox),
                            checks::or(
                                refused(rules.subject),
                                checks::or(
                                    checks::when(
                                        !names_state(row.state@),
                                        PlacementFailure::Invalid(
                                            "unknown placement state `"@ + row.state@ + "`"@,
                                        ),
                                    ),
                                    match response {
                                        Ok(_) => None,
                                        Err(reason) => Some(PlacementFailure::Invalid(reason@)),
                                    },
                                ),
                            ),
                        ),
                    ),
                ),
            ),
        ),
    )
}

/// The record of a row.
pub open spec fn is_record_of(
    record: PlacementRecord,
    row: StoredPlacement,
    response: Option<WorkloadResponse>,
) -> bool {
    &&& record.request_id == row.request_id
    &&& record.idempotency_key == row.idempotency_key
    &&& record.identity.tenant_id == row.tenant_id
    &&& record.identity.workspace_id == row.workspace_id
    &&& record.identity.sandbox_id == row.sandbox_id
    &&& record.subject_id == row.subject_id
    &&& record.pool_name == row.pool_name
    &&& state_name(record.state) == row.state@
    &&& record.worker_id == row.worker_id
    &&& match row.assignment_epoch {
        Some(epoch) => record.assignment_epoch is Some && record.assignment_epoch->0 == epoch,
        None => record.assignment_epoch is None,
    }
    &&& match row.lease_expires_unix_ms {
        Some(expires) => record.lease_expires_unix_ms is Some && record.lease_expires_unix_ms->0
            == expires,
        None => record.lease_expires_unix_ms is None,
    }
    &&& record.result_digest == row.result_digest
    &&& record.response == response
}

/// Refuses what the rules of an identifier refuse.
fn check_rule(check: Result<(), String>) -> (r: Result<(), PlacementStoreError>)
    ensures
        match r {
            Ok(()) => refused(check) is None,
            Err(error) => refused(check) == Some(error@),
        },
{
    match check {
        Ok(()) => Ok(()),
        Err(reason) => Err(PlacementStoreError::Invalid(reason)),
    }
}

/// Reads a row of the placement table. `rules` is what the rules of its identifiers say, and
/// `response` its decoded response.
pub fn record_from_row(
    row: StoredPlacement,
    rules: RowChecks,
    response: Result<Option<WorkloadResponse>, String>,
) -> (r: Result<PlacementRecord, PlacementStoreError>)
    ensures
        match r {
            Ok(record) => row_failure(row, rules, response) is None && is_record_of(
                record,
                row,
                response->Ok_0,
            ),
            Err(error) => row_failure(row, rules, response) == Some(error@),
        },
{
    match &row.worker_id {
        Some(_) => match check_rule(rules.worker) {
            Ok(()) => {},
            Err(error) => return Err(error),
        },
        None => {},
    }
    let assignment_epoch: Option<u64> = match row.assignment_epoch {
        Some(epoch) => {
            if epoch < 0 {
                return Err(PlacementStoreError::Invalid("negative assignment epoch".to_owned()));
            }
            match check_rule(rules.epoch) {
                Ok(()) => {},
                Err(error) => return Err(error),
            }
            Some(epoch as u64)
        },
        None => None,
    };
    let lease_expires_unix_ms: Option<u64> = match row.lease_expires_unix_ms {
        Some(expires) => {
            if expires < 0 {
                return Err(PlacementStoreError::Invalid("negative lease expiration".to_owned()));
            }
            Some(expires as u64)
        },
        None => None,
    };
    match check_rule(rules.tenant) {
        Ok(()) => {},
        Err(error) => return Err(error),
    }
    match check_rule(rules.workspace) {
        Ok(()) => {},
        Err(error) => return Err(error),
    }
    match check_rule(rules.sandbox) {
        Ok(()) => {},
        Err(error) => return Err(error),
    }
    match check_rule(rules.subject) {
        Ok(()) => {},
        Err(error) => return Err(error),
    }
    let state = match parse_placement_state(row.state.as_str()) {
        Ok(state) => state,
        Err(error) => return Err(error),
    };
    match response {
        Ok(response) => Ok(
            PlacementRecord {
                request_id: row.request_id,
                idempotency_key: row.idempotency_key,
                identity: PlacementIdentity {
                    tenant_id: row.tenant_id,
                    workspace_id: row.workspace_id,
                    sandbox_id: row.sandbox_id,
                },
                subject_id: row.subject_id,
                pool_name: row.pool_name,
                state,
                worker_id: row.worker_id,
                assignment_epoch,
                lease_expires_unix_ms,
                result_digest: row.result_digest,
                response,
            },
        ),
        Err(reason) => Err(PlacementStoreError::Invalid(reason)),
    }
}

/// Why a record is no assignment.
pub open spec fn assignment_failure(record: PlacementRecord) -> Option<PlacementFailure> {
    if record.worker_id is None {
        Some(PlacementFailure::Invalid("assignment has no worker"@))
    } else if record.assignment_epoch is None {
        Some(PlacementFailure::Invalid("assignment has no epoch"@))
    } else if record.lease_expires_unix_ms is None {
        Some(PlacementFailure::Invalid("assignment has no lease expiration"@))
    } else {
        None
    }
}

/// The assignment that a record describes.
pub fn assignment_from_record(
    record: PlacementRecord,
    broker_address: SocketAddress,
    resource_ceilings: ResourceCeilings,
    operation: Operation,
) -> (r: Result<Assignment, PlacementStoreError>)
    ensures
        match r {
            Ok(assignment) => {
                &&& assignment_failure(record) is None
                &&& assignment.request_id == record.request_id
                &&& assignment.idempotency_key == record.idempotency_key
                &&& assignment.identity == record.identity
                &&& assignment.subject_id == record.subject_id
                &&& Some(assignment.worker_id) == record.worker_id
                &&& Some(assignment.epoch) == record.assignment_epoch
                &&& Some(assignment.lease_expires_unix_ms) == record.lease_expires_unix_ms
                &&& assignment.broker_address == broker_address
                &&& assignment.resource_ceilings == resource_ceilings
                &&& assignment.operation == operation
            },
            Err(error) => assignment_failure(record) == Some(error@),
        },
{
    let worker_id = match record.worker_id {
        Some(worker_id) => worker_id,
        None => {
            return Err(PlacementStoreError::Invalid("assignment has no worker".to_owned()));
        },
    };
    let epoch: u64 = match record.assignment_epoch {
        Some(epoch) => epoch,
        None => {
            return Err(PlacementStoreError::Invalid("assignment has no epoch".to_owned()));
        },
    };
    let lease_expires_unix_ms: u64 = match record.lease_expires_unix_ms {
        Some(expires) => expires,
        None => {
            return Err(
                PlacementStoreError::Invalid("assignment has no lease expiration".to_owned()),
            );
        },
    };
    Ok(
        Assignment {
            request_id: record.request_id,
            idempotency_key: record.idempotency_key,
            identity: record.identity,
            subject_id: record.subject_id,
            worker_id,
            epoch,
            lease_expires_unix_ms,
            broker_address,
            resource_ceilings,
            operation,
        },
    )
}

/// What happens to a placement that is kept for good.
#[derive(Clone, Copy, Debug, PartialEq, Eq, Structural)]
pub enum AuditEvent {
    Queued,
    Assigned,
    Serving,
    Completed,
    Cancelled,
    DeadlineExpired,
    LeaseExpired,
    WorkerQuarantined,
}

/// An event in words.
pub open spec fn event_name(event: AuditEvent) -> Seq<char> {
    match event {
        AuditEvent::Queued => "queued"@,
        AuditEvent::Assigned => "assigned"@,
        AuditEvent::Serving => "serving"@,
        AuditEvent::Completed => "completed"@,
        AuditEvent::Cancelled => "cancelled"@,
        AuditEvent::DeadlineExpired => "deadline_expired"@,
        AuditEvent::LeaseExpired => "lease_expired"@,
        AuditEvent::WorkerQuarantined => "worker_quarantined"@,
    }
}

/// Writes an event in words.
pub fn audit_event_name(event: AuditEvent) -> (r: &'static str)
    ensures
        r@ == event_name(event),
{
    match event {
        AuditEvent::Queued => "queued",
        AuditEvent::Assigned => "assigned",
        AuditEvent::Serving => "serving",
        AuditEvent::Completed => "completed",
        AuditEvent::Cancelled => "cancelled",
        AuditEvent::DeadlineExpired => "deadline_expired",
        AuditEvent::LeaseExpired => "lease_expired",
        AuditEvent::WorkerQuarantined => "worker_quarantined",
    }
}

/// The epoch that is kept with an event, in the numbers of the database.
pub fn audit_epoch(record: &PlacementRecord) -> (r: Result<Option<i64>, PlacementStoreError>)
    ensures
        match r {
            Ok(epoch) => match record.assignment_epoch {
                Some(value) => value <= i64::MAX && epoch == Some(value as i64),
                None => epoch is None,
            },
            Err(error) => record.assignment_epoch is Some && record.assignment_epoch->0 > i64::MAX
                && error@ == PlacementFailure::Invalid("timestamp is too large"@),
        },
{
    match record.assignment_epoch {
        Some(epoch) => match to_i64(epoch) {
            Ok(epoch) => Ok(Some(epoch)),
            Err(error) => Err(error),
        },
        None => Ok(None),
    }
}

/// The states and events of placements have the names that the database knows.
pub proof fn law_states_and_events_have_names(state: PlacementState, event: AuditEvent)
    ensures
        state is Queued ==> state_name(state) == "queued"@,
        state is Assigned ==> state_name(state) == "assigned"@,
        state is Serving ==> state_name(state) == "serving"@,
        state is Completed ==> state_name(state) == "completed"@,
        state is Cancelled ==> state_name(state) == "cancelled"@,
        state is Expired ==> state_name(state) == "expired"@,
        event is Queued ==> event_name(event) == "queued"@,
        event is Assigned ==> event_name(event) == "assigned"@,
        event is Serving ==> event_name(event) == "serving"@,
        event is Completed ==> event_name(event) == "completed"@,
        event is Cancelled ==> event_name(event) == "cancelled"@,
        event is DeadlineExpired ==> event_name(event) == "deadline_expired"@,
        event is LeaseExpired ==> event_name(event) == "lease_expired"@,
        event is WorkerQuarantined ==> event_name(event) == "worker_quarantined"@,
{
}

/// A row is a placement exactly where its identifiers hold, none of its numbers is negative, its
/// state has a known name, and its response can be read.
pub proof fn law_rows_are_placements(
    row: StoredPlacement,
    rules: RowChecks,
    response: Result<Option<WorkloadResponse>, String>,
)
    ensures
        row_failure(row, rules, response) is None <==> {
            &&& row.worker_id is Some ==> rules.worker is Ok
            &&& row.assignment_epoch matches Some(epoch) ==> epoch >= 0 && rules.epoch is Ok
            &&& row.lease_expires_unix_ms matches Some(expires) ==> expires >= 0
            &&& rules.tenant is Ok
            &&& rules.workspace is Ok
            &&& rules.sandbox is Ok
            &&& rules.subject is Ok
            &&& {
                ||| row.state@ == "queued"@
                ||| row.state@ == "assigned"@
                ||| row.state@ == "serving"@
                ||| row.state@ == "completed"@
                ||| row.state@ == "cancelled"@
                ||| row.state@ == "expired"@
            }
            &&& response is Ok
        },
{
    assert(state_name(PlacementState::Queued) == "queued"@);
    assert(state_name(PlacementState::Assigned) == "assigned"@);
    assert(state_name(PlacementState::Serving) == "serving"@);
    assert(state_name(PlacementState::Completed) == "completed"@);
    assert(state_name(PlacementState::Cancelled) == "cancelled"@);
    assert(state_name(PlacementState::Expired) == "expired"@);
}

/// A record says what its row says, field by field.
pub proof fn law_records_say_what_rows_say(
    record: PlacementRecord,
    row: StoredPlacement,
    response: Option<WorkloadResponse>,
)
    requires
        is_record_of(record, row, response),
    ensures
        record.request_id@ == row.request_id@,
        record.idempotency_key@ == row.idempotency_key@,
        record.identity.tenant_id@ == row.tenant_id@,
        record.identity.workspace_id@ == row.workspace_id@,
        record.identity.sandbox_id@ == row.sandbox_id@,
        record.subject_id@ == row.subject_id@,
        record.pool_name@ == row.pool_name@,
        row.state@ == "queued"@ ==> record.state is Queued,
        row.state@ == "assigned"@ ==> record.state is Assigned,
        row.state@ == "serving"@ ==> record.state is Serving,
        row.state@ == "completed"@ ==> record.state is Completed,
        row.state@ == "cancelled"@ ==> record.state is Cancelled,
        row.state@ == "expired"@ ==> record.state is Expired,
        text::optional(record.worker_id) == text::optional(row.worker_id),
        record.assignment_epoch is Some <==> row.assignment_epoch is Some,
        row.assignment_epoch matches Some(epoch) ==> record.assignment_epoch->0 == epoch,
        record.lease_expires_unix_ms is Some <==> row.lease_expires_unix_ms is Some,
        row.lease_expires_unix_ms matches Some(expires) ==> record.lease_expires_unix_ms->0
            == expires,
        text::optional(record.result_digest) == text::optional(row.result_digest),
        record.response == response,
{
    law_state_names_differ(record.state, PlacementState::Queued);
    law_state_names_differ(record.state, PlacementState::Assigned);
    law_state_names_differ(record.state, PlacementState::Serving);
    law_state_names_differ(record.state, PlacementState::Completed);
    law_state_names_differ(record.state, PlacementState::Cancelled);
    law_state_names_differ(record.state, PlacementState::Expired);
}

/// A record is an assignment exactly where it has a worker, an epoch and the end of a lease.
pub proof fn law_assignments_have_a_lease(record: PlacementRecord)
    ensures
        assignment_failure(record) is None <==> record.worker_id is Some
            && record.assignment_epoch is Some && record.lease_expires_unix_ms is Some,
{
}

/// Each refusal of a record is of its kind.
pub proof fn law_refused_records_say_why(
    check: Result<(), String>,
    row: StoredPlacement,
    rules: RowChecks,
    response: Result<Option<WorkloadResponse>, String>,
    record: PlacementRecord,
)
    ensures
        check is Ok ==> refused(check) is None,
        check matches Err(reason) ==> refused(check) == Some(PlacementFailure::Invalid(reason@)),
        row.worker_id is None ==> (row.assignment_epoch matches Some(epoch) ==> (epoch < 0
            ==> row_failure(row, rules, response) == Some(
            PlacementFailure::Invalid("negative assignment epoch"@),
        ))),
        row.worker_id is None && row.assignment_epoch is None ==> (
        row.lease_expires_unix_ms matches Some(expires) ==> (expires < 0 ==> row_failure(
            row,
            rules,
            response,
        ) == Some(PlacementFailure::Invalid("negative lease expiration"@)))),
        record.worker_id is None ==> assignment_failure(record) == Some(
            PlacementFailure::Invalid("assignment has no worker"@),
        ),
        record.worker_id is Some && record.assignment_epoch is None ==> assignment_failure(record)
            == Some(PlacementFailure::Invalid("assignment has no epoch"@)),
        record.worker_id is Some && record.assignment_epoch is Some
            && record.lease_expires_unix_ms is None ==> assignment_failure(record) == Some(
            PlacementFailure::Invalid("assignment has no lease expiration"@),
        ),
{
}

} // verus!

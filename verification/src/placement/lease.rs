//! Leases: how work is given to a worker, taken back from it, and done.

use crate::checks;
use crate::digest;
use crate::digest::valid_digest;
use crate::oci::error;
use crate::placement::error::{PlacementFailure, PlacementStoreError};
use crate::placement::model::{
    to_i64, CompletionOutcome, PlacementState, PlacementStoreConfig, MAXIMUM_RESPONSE_BYTES,
};
use crate::placement::rows::AuditEvent;
use crate::placement::workers::WorkerEvent;
use crate::protocol::{Operation, WorkloadResponse};
use crate::text;
use vstd::prelude::*;

verus! {

/// What changes about work while it is placed.
#[derive(Debug, PartialEq, Eq)]
pub struct PlacementRow {
    pub state: PlacementState,
    pub worker_id: Option<String>,
    pub assignment_epoch: Option<i64>,
    pub lease_expires_unix_ms: Option<i64>,
    pub deadline_unix_ms: i64,
    pub assigned_unix_ms: Option<i64>,
    pub first_output_unix_ms: Option<i64>,
    pub terminal_unix_ms: Option<i64>,
    pub result_digest: Option<String>,
}

/// A `PlacementRow` with its texts read as character sequences.
#[verifier::ext_equal]
pub struct RowText {
    pub state: PlacementState,
    pub worker_id: Option<Seq<char>>,
    pub assignment_epoch: Option<i64>,
    pub lease_expires_unix_ms: Option<i64>,
    pub deadline_unix_ms: i64,
    pub assigned_unix_ms: Option<i64>,
    pub first_output_unix_ms: Option<i64>,
    pub terminal_unix_ms: Option<i64>,
    pub result_digest: Option<Seq<char>>,
}

impl View for PlacementRow {
    type V = RowText;

    open spec fn view(&self) -> RowText {
        RowText {
            state: self.state,
            worker_id: text::optional(self.worker_id),
            assignment_epoch: self.assignment_epoch,
            lease_expires_unix_ms: self.lease_expires_unix_ms,
            deadline_unix_ms: self.deadline_unix_ms,
            assigned_unix_ms: self.assigned_unix_ms,
            first_output_unix_ms: self.first_output_unix_ms,
            terminal_unix_ms: self.terminal_unix_ms,
            result_digest: text::optional(self.result_digest),
        }
    }
}

/// What a worker shows to act on work: who it is, and under which epoch it took the work.
#[derive(Debug, PartialEq, Eq)]
pub struct Claim {
    pub worker_id: String,
    pub epoch: u64,
}

/// A `Claim` with its texts read as character sequences.
#[verifier::ext_equal]
pub struct ClaimText {
    pub worker_id: Seq<char>,
    pub epoch: u64,
}

impl View for Claim {
    type V = ClaimText;

    open spec fn view(&self) -> ClaimText {
        ClaimText { worker_id: self.worker_id@, epoch: self.epoch }
    }
}

/// What happens to work.
pub enum RowEvent {
    /// A worker takes it.
    Assign { worker_id: Seq<char>, epoch: i64, expires: i64, now: i64 },
    /// The worker renews its lease.
    Renew { claim: ClaimText, expires: i64, now: i64 },
    /// The worker was heard.
    Heartbeat { worker_id: Seq<char>, expires: i64, now: i64 },
    /// The worker answers it.
    Complete { claim: ClaimText, digest: Seq<char>, response: bool, serves: bool, now: i64 },
    /// Who submitted it takes it back.
    Cancel { now: i64 },
    /// The leases that are over are taken back.
    Fence { now: i64 },
    /// The worker is shut out.
    Revoke { now: i64 },
    /// What waited too long is given up.
    Expire { now: i64 },
}

/// A worker has the work, or keeps up what came of it.
pub open spec fn is_leased(row: RowText) -> bool {
    row.state is Assigned || row.state is Serving
}

/// An answer leaves something behind that its worker keeps up: a sandbox was to be created, and
/// it was.
pub open spec fn leaves_service(operation: Operation, response: Option<WorkloadResponse>) -> bool {
    operation is Create && response is Some && response->0.ok
}

/// The work was given to the one who claims it, and was not taken back.
pub open spec fn is_held(row: RowText, claim: ClaimText) -> bool {
    &&& is_leased(row)
    &&& row.worker_id == Some(claim.worker_id)
    &&& row.assignment_epoch is Some
    &&& row.assignment_epoch->0 as int == claim.epoch as int
}

/// The lease runs at `now`.
pub open spec fn is_live(row: RowText, now: i64) -> bool {
    row.lease_expires_unix_ms is Some && row.lease_expires_unix_ms->0 > now
}

/// Nothing more is to become of the work.
pub open spec fn is_over(row: RowText) -> bool {
    row.state is Completed || row.state is Cancelled || row.state is Expired
}

/// Work that waits again.
pub open spec fn requeued(row: RowText) -> RowText {
    RowText {
        state: PlacementState::Queued,
        worker_id: None,
        assignment_epoch: None,
        lease_expires_unix_ms: None,
        assigned_unix_ms: None,
        first_output_unix_ms: None,
        ..row
    }
}

/// Work that is given up.
pub open spec fn expired(row: RowText, now: i64) -> RowText {
    RowText { state: PlacementState::Expired, terminal_unix_ms: Some(now), ..row }
}

/// Work that was taken back from a worker. What a worker kept up is lost with it, and so is the
/// answer about it.
pub open spec fn taken_back(row: RowText, now: i64) -> RowText {
    let row = if row.state is Serving {
        RowText { result_digest: None, ..row }
    } else {
        row
    };
    if row.deadline_unix_ms <= now {
        expired(row, now)
    } else {
        requeued(row)
    }
}

/// What an event makes of work.
pub open spec fn row_step(row: RowText, event: RowEvent) -> RowText {
    match event {
        RowEvent::Assign { worker_id, epoch, expires, now } => if row.state is Queued {
            RowText {
                state: PlacementState::Assigned,
                worker_id: Some(worker_id),
                assignment_epoch: Some(epoch),
                lease_expires_unix_ms: Some(expires),
                assigned_unix_ms: Some(now),
                first_output_unix_ms: None,
                ..row
            }
        } else {
            row
        },
        RowEvent::Renew { claim, expires, now } => if is_held(row, claim) && is_live(row, now) {
            RowText { lease_expires_unix_ms: Some(expires), ..row }
        } else {
            row
        },
        RowEvent::Heartbeat { worker_id, expires, now } => if row.state is Serving
            && row.worker_id == Some(worker_id) && is_live(row, now) {
            RowText { lease_expires_unix_ms: Some(expires), ..row }
        } else {
            row
        },
        RowEvent::Complete { claim, digest, response, serves, now } => if row.state is Assigned
            && is_held(row, claim) && is_live(row, now) {
            RowText {
                state: if serves {
                    PlacementState::Serving
                } else {
                    PlacementState::Completed
                },
                result_digest: Some(digest),
                terminal_unix_ms: if serves {
                    row.terminal_unix_ms
                } else {
                    Some(now)
                },
                first_output_unix_ms: if response {
                    Some(now)
                } else {
                    None
                },
                ..row
            }
        } else {
            row
        },
        RowEvent::Cancel { now } => if is_over(row) {
            row
        } else {
            RowText { state: PlacementState::Cancelled, terminal_unix_ms: Some(now), ..row }
        },
        RowEvent::Fence { now } => if is_leased(row) && row.lease_expires_unix_ms is Some
            && row.lease_expires_unix_ms->0 <= now {
            taken_back(row, now)
        } else {
            row
        },
        RowEvent::Revoke { now } => if is_leased(row) {
            taken_back(row, now)
        } else {
            row
        },
        RowEvent::Expire { now } => if row.state is Queued && row.deadline_unix_ms <= now {
            expired(row, now)
        } else {
            row
        },
    }
}

/// Gives work that waits to a worker.
pub fn assign(row: PlacementRow, worker_id: &str, epoch: i64, expires: i64, now: i64) -> (r:
    PlacementRow)
    ensures
        r@ == row_step(
            row@,
            RowEvent::Assign { worker_id: worker_id@, epoch, expires, now },
        ),
{
    let waits = match row.state {
        PlacementState::Queued => true,
        _ => false,
    };
    if !waits {
        return row;
    }
    PlacementRow {
        state: PlacementState::Assigned,
        worker_id: Some(worker_id.to_owned()),
        assignment_epoch: Some(epoch),
        lease_expires_unix_ms: Some(expires),
        deadline_unix_ms: row.deadline_unix_ms,
        assigned_unix_ms: Some(now),
        first_output_unix_ms: None,
        terminal_unix_ms: row.terminal_unix_ms,
        result_digest: row.result_digest,
    }
}

/// Whether a worker has the work, or keeps up what came of it.
fn leased(row: &PlacementRow) -> (r: bool)
    ensures
        r == is_leased(row@),
{
    match row.state {
        PlacementState::Assigned | PlacementState::Serving => true,
        _ => false,
    }
}

/// Whether work was given to the one who claims it, and was not taken back.
fn held(row: &PlacementRow, claim: &Claim) -> (r: bool)
    ensures
        r == is_held(row@, claim@),
{
    let leased = leased(row);
    let same_worker = match &row.worker_id {
        Some(worker_id) => text::same(worker_id.as_str(), claim.worker_id.as_str()),
        None => false,
    };
    let same_epoch = match row.assignment_epoch {
        Some(epoch) => epoch >= 0 && epoch as u64 == claim.epoch,
        None => false,
    };
    leased && same_worker && same_epoch
}

/// Whether the lease runs at `now`.
fn live(row: &PlacementRow, now: i64) -> (r: bool)
    ensures
        r == is_live(row@, now),
{
    match row.lease_expires_unix_ms {
        Some(expires) => expires > now,
        None => false,
    }
}

/// A renewal, in the numbers of the database.
#[derive(Clone, Copy, Debug, PartialEq, Eq, Structural)]
pub struct Renewal {
    pub now: i64,
    pub expires: i64,
}

/// Why a renewal is not begun.
pub open spec fn renewal_failure(config: PlacementStoreConfig, epoch: u64, now_unix_ms: u64) ->
    Option<PlacementFailure> {
    if now_unix_ms > i64::MAX {
        Some(PlacementFailure::Invalid("timestamp is too large"@))
    } else {
        match config.expiry(now_unix_ms as i64) {
            Err(error) => Some(error),
            Ok(_) => checks::when(
                epoch > i64::MAX,
                PlacementFailure::Invalid("timestamp is too large"@),
            ),
        }
    }
}

/// Begins to renew a lease, before the work is looked up.
pub fn begin_renewal(config: &PlacementStoreConfig, claim: &Claim, now_unix_ms: u64) -> (r: Result<
    Renewal,
    PlacementStoreError,
>)
    ensures
        match r {
            Ok(renewal) => {
                &&& renewal_failure(*config, claim.epoch, now_unix_ms) is None
                &&& renewal.now == now_unix_ms
                &&& config.expiry(renewal.now) == Ok::<i64, PlacementFailure>(renewal.expires)
                &&& renewal.expires >= 0
            },
            Err(error) => renewal_failure(*config, claim.epoch, now_unix_ms) == Some(error@),
        },
{
    let now: i64 = match to_i64(now_unix_ms) {
        Ok(now) => now,
        Err(error) => return Err(error),
    };
    let expires: i64 = match config.lease_expiry(now) {
        Ok(expires) => expires,
        Err(error) => return Err(error),
    };
    match to_i64(claim.epoch) {
        Ok(_) => Ok(Renewal { now, expires }),
        Err(error) => Err(error),
    }
}

/// Renews a lease: the work, and when the lease ends. `row` is the work, if there is any.
pub fn renew(row: Option<PlacementRow>, claim: &Claim, renewal: Renewal) -> (r: Result<
    (PlacementRow, u64),
    PlacementStoreError,
>)
    requires
        renewal.expires >= 0,
    ensures
        match r {
            Ok(renewed) => {
                &&& row is Some
                &&& is_held(row->0@, claim@) && is_live(row->0@, renewal.now)
                &&& renewed.0@ == row_step(
                    row->0@,
                    RowEvent::Renew {
                        claim: claim@,
                        expires: renewal.expires,
                        now: renewal.now,
                    },
                )
                &&& renewed.1 == renewal.expires
            },
            Err(error) => error@ == PlacementFailure::StaleAssignment && (row is None || !(is_held(
                row->0@,
                claim@,
            ) && is_live(row->0@, renewal.now))),
        },
{
    match row {
        Some(row) => {
            if !held(&row, claim) || !live(&row, renewal.now) {
                return Err(PlacementStoreError::StaleAssignment);
            }
            let mut row = row;
            row.lease_expires_unix_ms = Some(renewal.expires);
            Ok((row, renewal.expires as u64))
        },
        None => Err(PlacementStoreError::StaleAssignment),
    }
}

/// Hears a worker: the lease of what it keeps up begins anew, as long as it is not over.
pub fn extend(row: PlacementRow, worker_id: &str, expires: i64, now: i64) -> (r: PlacementRow)
    ensures
        r@ == row_step(row@, RowEvent::Heartbeat { worker_id: worker_id@, expires, now }),
{
    let serving = match row.state {
        PlacementState::Serving => true,
        _ => false,
    };
    let same_worker = match &row.worker_id {
        Some(held) => text::same(held.as_str(), worker_id),
        None => false,
    };
    if !serving || !same_worker || !live(&row, now) {
        return row;
    }
    let mut row = row;
    row.lease_expires_unix_ms = Some(expires);
    row
}

/// Why a completion is not begun.
pub open spec fn begin_completion_failure(result_digest: Seq<char>, now_unix_ms: u64) -> Option<
    PlacementFailure,
> {
    checks::or(
        checks::when(
            !digest::is_identity(result_digest),
            PlacementFailure::Invalid("result digest is invalid"@),
        ),
        checks::when(
            now_unix_ms > i64::MAX,
            PlacementFailure::Invalid("timestamp is too large"@),
        ),
    )
}

/// Begins to complete work, before it is looked up: the time, in the numbers of the database.
pub fn begin_completion(result_digest: &str, now_unix_ms: u64) -> (r: Result<
    i64,
    PlacementStoreError,
>)
    ensures
        match r {
            Ok(now) => begin_completion_failure(result_digest@, now_unix_ms) is None && now
                == now_unix_ms,
            Err(error) => begin_completion_failure(result_digest@, now_unix_ms) == Some(error@),
        },
{
    if !valid_digest(result_digest) {
        return Err(PlacementStoreError::Invalid("result digest is invalid".to_owned()));
    }
    to_i64(now_unix_ms)
}

/// What comes of a completion of `row`, if there is any work.
pub open spec fn completion(
    row: Option<RowText>,
    claim: ClaimText,
    result_digest: Seq<char>,
    now: i64,
) -> Result<CompletionOutcome, PlacementFailure> {
    match row {
        None => Err(PlacementFailure::StaleAssignment),
        Some(row) => if row.state is Completed || row.state is Serving {
            if row.result_digest == Some(result_digest) {
                Ok(CompletionOutcome::AlreadyPublished)
            } else {
                Err(PlacementFailure::CompletionConflict)
            }
        } else if is_held(row, claim) && is_live(row, now) {
            Ok(CompletionOutcome::Published)
        } else {
            Err(PlacementFailure::StaleAssignment)
        },
    }
}

/// Completes work with a result: the work, and whether this result was the first. `operation` is
/// what the work is, and `response` the answer, if the result is one.
pub fn complete(
    row: Option<PlacementRow>,
    claim: &Claim,
    operation: &Operation,
    result_digest: &str,
    response: Option<&WorkloadResponse>,
    now: i64,
) -> (r: Result<(PlacementRow, CompletionOutcome), PlacementStoreError>)
    ensures
        match r {
            Ok(completed) => {
                &&& row is Some
                &&& completion(Some(row->0@), claim@, result_digest@, now) == Ok::<
                    CompletionOutcome,
                    PlacementFailure,
                >(completed.1)
                &&& completed.0@ == row_step(
                    row->0@,
                    RowEvent::Complete {
                        claim: claim@,
                        digest: result_digest@,
                        response: response is Some,
                        serves: leaves_service(*operation, answer(response)),
                        now,
                    },
                )
            },
            Err(error) => completion(
                match row {
                    Some(row) => Some(row@),
                    None => None,
                },
                claim@,
                result_digest@,
                now,
            ) == Err::<CompletionOutcome, PlacementFailure>(error@),
        },
{
    let row = match row {
        Some(row) => row,
        None => return Err(PlacementStoreError::StaleAssignment),
    };
    let published = match row.state {
        PlacementState::Completed | PlacementState::Serving => true,
        _ => false,
    };
    if published {
        let same = match &row.result_digest {
            Some(held) => text::same(held.as_str(), result_digest),
            None => false,
        };
        return if same {
            Ok((row, CompletionOutcome::AlreadyPublished))
        } else {
            Err(PlacementStoreError::CompletionConflict)
        };
    }
    if !held(&row, claim) || !live(&row, now) {
        return Err(PlacementStoreError::StaleAssignment);
    }
    let created = match operation {
        Operation::Create { .. } => match response {
            Some(response) => response.ok,
            None => false,
        },
        _ => false,
    };
    let mut row = row;
    if created {
        row.state = PlacementState::Serving;
    } else {
        row.state = PlacementState::Completed;
        row.terminal_unix_ms = Some(now);
    }
    row.result_digest = Some(result_digest.to_owned());
    row.first_output_unix_ms = if response.is_some() {
        Some(now)
    } else {
        None
    };
    Ok((row, CompletionOutcome::Published))
}

/// An answer that is read.
pub open spec fn answer(response: Option<&WorkloadResponse>) -> Option<WorkloadResponse> {
    match response {
        Some(response) => Some(*response),
        None => None,
    }
}

/// What is noted of work that was answered, and what becomes of its worker. One that keeps up a
/// sandbox is not used up.
pub fn publication(row: &PlacementRow) -> (r: (AuditEvent, Option<WorkerEvent>))
    ensures
        row.state is Serving ==> r == (AuditEvent::Serving, None::<WorkerEvent>),
        !(row.state is Serving) ==> r == (AuditEvent::Completed, Some(WorkerEvent::Consume)),
{
    match row.state {
        PlacementState::Serving => (AuditEvent::Serving, None),
        _ => (AuditEvent::Completed, Some(WorkerEvent::Consume)),
    }
}

/// Why a response does not complete a request. `encoded` is its encoding.
pub open spec fn response_failure(
    response: WorkloadResponse,
    request_id: Seq<char>,
    encoded: Result<String, String>,
) -> Option<PlacementFailure> {
    match response.failure(request_id) {
        Some(reason) => Some(PlacementFailure::Invalid(reason)),
        None => match encoded {
            Err(reason) => Some(PlacementFailure::Invalid(reason@)),
            Ok(encoding) => checks::when(
                text::utf8(encoding@).len() > MAXIMUM_RESPONSE_BYTES,
                PlacementFailure::Invalid("worker response exceeds its size limit"@),
            ),
        },
    }
}

/// The digest of a response that completes a request.
pub fn response_digest(
    response: &WorkloadResponse,
    request_id: &str,
    encoded: Result<String, String>,
) -> (r: Result<String, PlacementStoreError>)
    ensures
        match r {
            Ok(digest) => {
                &&& response_failure(*response, request_id@, encoded) is None
                &&& encoded matches Ok(encoding) && digest@ == digest::identity_text(
                    text::utf8(encoding@),
                )
                &&& digest::is_identity(digest@)
            },
            Err(error) => response_failure(*response, request_id@, encoded) == Some(error@),
        },
{
    match response.validate_for(request_id) {
        Ok(()) => {},
        Err(reason) => return Err(PlacementStoreError::Invalid(reason.to_owned())),
    }
    let encoding = match encoded {
        Ok(encoding) => encoding,
        Err(reason) => return Err(PlacementStoreError::Invalid(reason)),
    };
    let bytes = encoding.as_str().as_bytes();
    if bytes.len() > MAXIMUM_RESPONSE_BYTES {
        return Err(
            PlacementStoreError::Invalid("worker response exceeds its size limit".to_owned()),
        );
    }
    Ok(digest::identity(bytes))
}

/// Takes work back from who submitted it: the work, and whether anything changed.
pub fn cancel(row: PlacementRow, now: i64) -> (r: (PlacementRow, bool))
    ensures
        r.0@ == row_step(row@, RowEvent::Cancel { now }),
        r.1 == !is_over(row@),
{
    match row.state {
        PlacementState::Completed | PlacementState::Cancelled | PlacementState::Expired => (
            row,
            false,
        ),
        PlacementState::Queued | PlacementState::Assigned | PlacementState::Serving => {
            let mut row = row;
            row.state = PlacementState::Cancelled;
            row.terminal_unix_ms = Some(now);
            (row, true)
        },
    }
}

/// Takes work back from its worker.
fn take_back(row: PlacementRow, now: i64) -> (r: PlacementRow)
    ensures
        r@ == taken_back(row@, now),
{
    let mut row = row;
    match row.state {
        PlacementState::Serving => {
            row.result_digest = None;
        },
        _ => {},
    }
    if row.deadline_unix_ms <= now {
        row.state = PlacementState::Expired;
        row.terminal_unix_ms = Some(now);
    } else {
        row.state = PlacementState::Queued;
        row.worker_id = None;
        row.assignment_epoch = None;
        row.lease_expires_unix_ms = None;
        row.assigned_unix_ms = None;
        row.first_output_unix_ms = None;
    }
    row
}

/// Takes work back whose lease is over: the work, and whether it was.
pub fn fence(row: PlacementRow, now: i64) -> (r: (PlacementRow, bool))
    ensures
        r.0@ == row_step(row@, RowEvent::Fence { now }),
        r.1 == (is_leased(row@) && row@.lease_expires_unix_ms is Some
            && row@.lease_expires_unix_ms->0 <= now),
{
    let ended = match row.lease_expires_unix_ms {
        Some(expires) => expires <= now,
        None => false,
    };
    if leased(&row) && ended {
        (take_back(row, now), true)
    } else {
        (row, false)
    }
}

/// Takes work back from a worker that is shut out.
pub fn revoke(row: PlacementRow, now: i64) -> (r: PlacementRow)
    ensures
        r@ == row_step(row@, RowEvent::Revoke { now }),
{
    if leased(&row) {
        take_back(row, now)
    } else {
        row
    }
}

/// Gives up work that waited too long: the work, and whether it did.
pub fn expire(row: PlacementRow, now: i64) -> (r: (PlacementRow, bool))
    ensures
        r.0@ == row_step(row@, RowEvent::Expire { now }),
        r.1 == (row@.state is Queued && row@.deadline_unix_ms <= now),
{
    let waits = match row.state {
        PlacementState::Queued => true,
        _ => false,
    };
    if waits && row.deadline_unix_ms <= now {
        let mut row = row;
        row.state = PlacementState::Expired;
        row.terminal_unix_ms = Some(now);
        (row, true)
    } else {
        (row, false)
    }
}

/// What a row of events makes of work.
pub open spec fn row_after(row: RowText, events: Seq<RowEvent>) -> RowText
    decreases events.len(),
{
    if events.len() == 0 {
        row
    } else {
        row_step(row_after(row, events.drop_last()), events.last())
    }
}

/// Work that is done, cancelled or given up stays so, whatever happens: its result and the time
/// of its end do not change.
pub proof fn law_ends_are_final(row: RowText, events: Seq<RowEvent>)
    requires
        is_over(row),
    ensures
        row_after(row, events) == row,
    decreases events.len(),
{
    if events.len() > 0 {
        law_ends_are_final(row, events.drop_last());
    }
}

/// Of results that end a piece of work the first wins, whatever happens afterwards: a repetition
/// of it is accepted without a change, and any other is refused.
pub proof fn law_first_result_wins(
    row: RowText,
    claim: ClaimText,
    digest: Seq<char>,
    response: bool,
    now: i64,
    events: Seq<RowEvent>,
    later_claim: ClaimText,
    later_digest: Seq<char>,
    later: i64,
)
    requires
        completion(Some(row), claim, digest, now) == Ok::<CompletionOutcome, PlacementFailure>(
            CompletionOutcome::Published,
        ),
    ensures
        completion(
            Some(
                row_after(
                    row_step(
                        row,
                        RowEvent::Complete { claim, digest, response, serves: false, now },
                    ),
                    events,
                ),
            ),
            later_claim,
            later_digest,
            later,
        ) == if later_digest == digest {
            Ok(CompletionOutcome::AlreadyPublished)
        } else {
            Err(PlacementFailure::CompletionConflict)
        },
{
    law_ends_are_final(
        row_step(row, RowEvent::Complete { claim, digest, response, serves: false, now }),
        events,
    );
}

/// Work that created a sandbox serves: its worker still holds it, its lease goes on with each
/// heartbeat as with each renewal, it is not taken back while the lease runs, its result stands
/// as a first result does, and it ends when it is cancelled.
pub proof fn law_services_live_on(
    row: RowText,
    claim: ClaimText,
    digest: Seq<char>,
    now: i64,
    heard: i64,
    expires: i64,
    later: i64,
    later_claim: ClaimText,
    later_digest: Seq<char>,
)
    requires
        completion(Some(row), claim, digest, now) == Ok::<CompletionOutcome, PlacementFailure>(
            CompletionOutcome::Published,
        ),
        is_live(row, heard),
        later < expires,
    ensures
        ({
            let serving = row_step(
                row,
                RowEvent::Complete { claim, digest, response: true, serves: true, now },
            );
            let renewed = row_step(
                serving,
                RowEvent::Heartbeat { worker_id: claim.worker_id, expires, now: heard },
            );
            &&& serving.state is Serving
            &&& is_held(serving, claim)
            &&& serving.terminal_unix_ms == row.terminal_unix_ms
            &&& renewed == (RowText { lease_expires_unix_ms: Some(expires), ..serving })
            &&& renewed == row_step(serving, RowEvent::Renew { claim, expires, now: heard })
            &&& is_held(renewed, claim) && is_live(renewed, later)
            &&& row_step(renewed, RowEvent::Fence { now: later }) == renewed
            &&& completion(Some(renewed), later_claim, later_digest, later)
                == if later_digest == digest {
                Ok(CompletionOutcome::AlreadyPublished)
            } else {
                Err(PlacementFailure::CompletionConflict)
            }
            &&& row_step(renewed, RowEvent::Cancel { now: later }) == (RowText {
                state: PlacementState::Cancelled,
                terminal_unix_ms: Some(later),
                ..renewed
            })
        }),
{
}

/// Every assignment among the events has a later epoch than `epoch`.
pub open spec fn epochs_grow(events: Seq<RowEvent>, epoch: u64) -> bool {
    forall|i: int|
        0 <= i < events.len() ==> (#[trigger] events[i] is Assign ==> events[i]->epoch
            > epoch as int)
}

/// Who lost work never gets it back under the old epoch: as long as later assignments have
/// later epochs, a claim that does not hold cannot be renewed, and cannot complete the work.
pub proof fn law_fenced_claims_stay_dead(row: RowText, claim: ClaimText, events: Seq<RowEvent>)
    requires
        !is_held(row, claim),
        epochs_grow(events, claim.epoch),
    ensures
        !is_held(row_after(row, events), claim),
    decreases events.len(),
{
    if events.len() > 0 {
        let before = events.drop_last();
        assert forall|i: int| 0 <= i < before.len() implies (#[trigger] before[i] is Assign
            ==> before[i]->epoch > claim.epoch as int) by {
            assert(before[i] == events[i]);
        }
        law_fenced_claims_stay_dead(row, claim, before);
        assert(events[events.len() - 1] == events.last());
    }
}

/// Work whose lease is over is held by nobody once it is fenced, and nobody can complete or
/// renew it from then until it is assigned anew.
pub proof fn law_fencing_takes_work_back(row: RowText, claim: ClaimText, now: i64)
    requires
        row.lease_expires_unix_ms is Some,
        row.lease_expires_unix_ms->0 <= now,
    ensures
        !is_held(row_step(row, RowEvent::Fence { now }), claim),
        !is_live(row, now),
        !is_held(row_step(row, RowEvent::Revoke { now }), claim),
        !is_held(row_step(row, RowEvent::Cancel { now }), claim),
{
}

/// A claim on work holds exactly where the work is assigned or serves, under the epoch of the claim,
/// by the worker who makes it; and a lease runs as long as its end lies ahead.
pub proof fn law_claims_are_of_the_worker_and_epoch(row: RowText, claim: ClaimText, now: i64)
    ensures
        is_held(row, claim) <==> {
            &&& row.state is Assigned || row.state is Serving
            &&& row.worker_id == Some(claim.worker_id)
            &&& row.assignment_epoch matches Some(epoch) && epoch == claim.epoch
        },
        is_live(row, now) <==> (row.lease_expires_unix_ms matches Some(expires) && now < expires),
        is_leased(row) <==> row.state is Assigned || row.state is Serving,
        is_over(row) <==> row.state is Completed || row.state is Cancelled || row.state is Expired,
{
}

/// Work is assigned where it waits and nowhere else. It is then its worker's, under the epoch and
/// until the end that are given, and has shown nothing yet.
pub proof fn law_waiting_work_is_assigned(
    row: RowText,
    worker_id: Seq<char>,
    epoch: i64,
    expires: i64,
    now: i64,
)
    ensures
        ({
            let after = row_step(row, RowEvent::Assign { worker_id, epoch, expires, now });
            &&& !(row.state is Queued) ==> after == row
            &&& row.state is Queued ==> {
                &&& after.state is Assigned
                &&& after.worker_id == Some(worker_id)
                &&& after.assignment_epoch == Some(epoch)
                &&& after.lease_expires_unix_ms == Some(expires)
                &&& after.assigned_unix_ms == Some(now)
                &&& after.first_output_unix_ms is None
                &&& after.deadline_unix_ms == row.deadline_unix_ms
                &&& after.terminal_unix_ms == row.terminal_unix_ms
                &&& after.result_digest == row.result_digest
            }
        }),
{
}

/// A renewal, and a heartbeat for what serves, set the end of a lease that runs, for its holder
/// alone, and change nothing else.
pub proof fn law_running_leases_are_renewed(
    row: RowText,
    claim: ClaimText,
    worker_id: Seq<char>,
    expires: i64,
    now: i64,
)
    ensures
        ({
            let renewed = row_step(row, RowEvent::Renew { claim, expires, now });
            let heard = row_step(row, RowEvent::Heartbeat { worker_id, expires, now });
            let longer = RowText { lease_expires_unix_ms: Some(expires), ..row };
            let runs = row.lease_expires_unix_ms is Some && row.lease_expires_unix_ms->0 > now;
            &&& runs && (row.state is Assigned || row.state is Serving) && row.worker_id == Some(
                claim.worker_id,
            ) && row.assignment_epoch is Some && row.assignment_epoch->0 == claim.epoch
                ==> renewed == longer
            &&& !runs || !(row.state is Assigned || row.state is Serving) || row.worker_id != Some(
                claim.worker_id,
            ) || row.assignment_epoch is None || row.assignment_epoch->0 != claim.epoch ==> renewed
                == row
            &&& runs && row.state is Serving && row.worker_id == Some(worker_id) ==> heard == longer
            &&& !runs || !(row.state is Serving) || row.worker_id != Some(worker_id) ==> heard
                == row
        }),
{
}

/// Work is done by its holder while the lease runs, and by nobody else. It then has the result, and
/// is over, unless its worker keeps up what it created.
pub proof fn law_work_is_done_by_its_holder(
    row: RowText,
    claim: ClaimText,
    digest: Seq<char>,
    response: bool,
    serves: bool,
    now: i64,
)
    ensures
        ({
            let after = row_step(
                row,
                RowEvent::Complete { claim, digest, response, serves, now },
            );
            let holds = {
                &&& row.state is Assigned
                &&& row.worker_id == Some(claim.worker_id)
                &&& row.assignment_epoch is Some
                &&& row.assignment_epoch->0 == claim.epoch
                &&& row.lease_expires_unix_ms is Some
                &&& row.lease_expires_unix_ms->0 > now
            };
            &&& !holds ==> after == row
            &&& holds ==> {
                &&& after.state is Serving <==> serves
                &&& after.state is Completed <==> !serves
                &&& after.result_digest == Some(digest)
                &&& !serves ==> after.terminal_unix_ms == Some(now)
                &&& serves ==> after.terminal_unix_ms == row.terminal_unix_ms
                &&& response ==> after.first_output_unix_ms == Some(now)
                &&& !response ==> after.first_output_unix_ms is None
                &&& after.worker_id == row.worker_id
                &&& after.assignment_epoch == row.assignment_epoch
                &&& after.lease_expires_unix_ms == row.lease_expires_unix_ms
                &&& after.assigned_unix_ms == row.assigned_unix_ms
                &&& after.deadline_unix_ms == row.deadline_unix_ms
            }
        }),
{
}

/// Work that is not over is cancelled at once, whoever has it; work that is over stays as it is.
pub proof fn law_open_work_is_cancelled(row: RowText, now: i64)
    ensures
        ({
            let after = row_step(row, RowEvent::Cancel { now });
            &&& row.state is Completed || row.state is Cancelled || row.state is Expired ==> after
                == row
            &&& row.state is Queued || row.state is Assigned || row.state is Serving ==> {
                &&& after.state is Cancelled
                &&& after.terminal_unix_ms == Some(now)
                &&& after == (RowText {
                    state: after.state,
                    terminal_unix_ms: after.terminal_unix_ms,
                    ..row
                })
            }
        }),
{
}

/// Work is taken back from its worker exactly where its lease is over or its worker is shut out. It
/// then waits again as if nobody had had it, or is given up where its deadline has passed; what was
/// kept up is lost with its result.
pub proof fn law_work_is_taken_back_to_wait(row: RowText, now: i64, shut_out: bool)
    ensures
        ({
            let after = row_step(
                row,
                if shut_out {
                    RowEvent::Revoke { now }
                } else {
                    RowEvent::Fence { now }
                },
            );
            let lost = (row.state is Assigned || row.state is Serving) && (shut_out || (
            row.lease_expires_unix_ms is Some && row.lease_expires_unix_ms->0 <= now));
            &&& !lost ==> after == row
            &&& lost ==> {
                &&& after.deadline_unix_ms == row.deadline_unix_ms
                &&& row.state is Serving ==> after.result_digest is None
                &&& row.state is Assigned ==> after.result_digest == row.result_digest
                &&& row.deadline_unix_ms > now ==> {
                    &&& after.state is Queued
                    &&& after.worker_id is None
                    &&& after.assignment_epoch is None
                    &&& after.lease_expires_unix_ms is None
                    &&& after.assigned_unix_ms is None
                    &&& after.first_output_unix_ms is None
                    &&& after.terminal_unix_ms == row.terminal_unix_ms
                }
                &&& row.deadline_unix_ms <= now ==> {
                    &&& after.state is Expired
                    &&& after.terminal_unix_ms == Some(now)
                    &&& after.worker_id == row.worker_id
                    &&& after.assignment_epoch == row.assignment_epoch
                }
            }
        }),
{
}

/// Work that waits is given up exactly when its deadline has come.
pub proof fn law_overdue_work_is_given_up(row: RowText, now: i64)
    ensures
        ({
            let after = row_step(row, RowEvent::Expire { now });
            &&& row.state is Queued && row.deadline_unix_ms <= now ==> after == (RowText {
                state: PlacementState::Expired,
                terminal_unix_ms: Some(now),
                ..row
            })
            &&& !(row.state is Queued) || row.deadline_unix_ms > now ==> after == row
        }),
{
}

/// What comes of a result: the first is published where it comes from the holder of a lease that
/// runs, the same once more is known, another is in conflict, and all else comes too late.
pub proof fn law_results_are_published_once(
    row: Option<RowText>,
    claim: ClaimText,
    digest: Seq<char>,
    now: i64,
)
    ensures
        ({
            let outcome = completion(row, claim, digest, now);
            let published = row is Some && (row->0.state is Completed || row->0.state is Serving);
            let holds = row is Some && {
                &&& row->0.state is Assigned
                &&& row->0.worker_id == Some(claim.worker_id)
                &&& row->0.assignment_epoch is Some
                &&& row->0.assignment_epoch->0 == claim.epoch
                &&& row->0.lease_expires_unix_ms is Some
                &&& row->0.lease_expires_unix_ms->0 > now
            };
            &&& outcome == Ok::<CompletionOutcome, PlacementFailure>(CompletionOutcome::Published)
                <==> holds
            &&& outcome == Ok::<CompletionOutcome, PlacementFailure>(
                CompletionOutcome::AlreadyPublished,
            ) <==> published && row->0.result_digest == Some(digest)
            &&& outcome == Err::<CompletionOutcome, PlacementFailure>(
                PlacementFailure::CompletionConflict,
            ) <==> published && row->0.result_digest != Some(digest)
            &&& outcome == Err::<CompletionOutcome, PlacementFailure>(
                PlacementFailure::StaleAssignment,
            ) <==> !published && !holds
        }),
{
}

/// Only the successful answer to a creation leaves something to keep up.
pub proof fn law_only_creations_serve(operation: Operation, response: Option<WorkloadResponse>)
    ensures
        leaves_service(operation, response) <==> (operation matches Operation::Create { .. }) && (
        response matches Some(answered) && answered.ok),
{
}

/// A renewal is begun, and a completion, exactly where their numbers fit the database and the result
/// is named by a content identity.
pub proof fn law_begun_changes_fit_the_database(
    config: PlacementStoreConfig,
    epoch: u64,
    result_digest: Seq<char>,
    now_unix_ms: u64,
)
    requires
        config.is_valid(),
    ensures
        renewal_failure(config, epoch, now_unix_ms) is None <==> now_unix_ms
            + config.lease_lifetime.nanoseconds / 1_000_000 <= i64::MAX && epoch <= i64::MAX,
        begin_completion_failure(result_digest, now_unix_ms) is None <==> digest::is_identity(
            result_digest,
        ) && now_unix_ms <= i64::MAX,
{
}

/// A response completes a request exactly where it answers it and its encoding has up to 4 MiB.
pub proof fn law_completing_responses_are_bounded(
    response: WorkloadResponse,
    request_id: Seq<char>,
    encoded: Result<String, String>,
)
    ensures
        response_failure(response, request_id, encoded) is None <==> response.failure(request_id)
            is None && (encoded matches Ok(encoding) && text::utf8(encoding@).len() <= 4_194_304),
        response.failure(request_id) matches Some(reason) ==> response_failure(
            response,
            request_id,
            encoded,
        ) == Some(PlacementFailure::Invalid(reason)),
{
}

/// Each refusal about a lease is of its kind.
pub proof fn law_refused_leases_say_why(
    config: PlacementStoreConfig,
    epoch: u64,
    now_unix_ms: u64,
    result_digest: Seq<char>,
    row: RowText,
    claim: ClaimText,
    now: i64,
    response: WorkloadResponse,
    request_id: Seq<char>,
    encoded: Result<String, String>,
)
    ensures
        now_unix_ms > 0x7fff_ffff_ffff_ffff ==> renewal_failure(config, epoch, now_unix_ms) == Some(
            PlacementFailure::Invalid("timestamp is too large"@),
        ),
        !digest::is_identity(result_digest) ==> begin_completion_failure(result_digest, now_unix_ms)
            == Some(PlacementFailure::Invalid("result digest is invalid"@)),
        digest::is_identity(result_digest) ==> (begin_completion_failure(result_digest, now_unix_ms)
            matches Some(failure) ==> failure == PlacementFailure::Invalid(
            "timestamp is too large"@,
        )),
        completion(None, claim, result_digest, now) == Err::<CompletionOutcome, PlacementFailure>(
            PlacementFailure::StaleAssignment,
        ),
        (row.state is Completed || row.state is Serving) && row.result_digest != Some(result_digest)
            ==> completion(Some(row), claim, result_digest, now) == Err::<
            CompletionOutcome,
            PlacementFailure,
        >(PlacementFailure::CompletionConflict),
        !(row.state is Completed || row.state is Serving) && !(is_held(row, claim) && is_live(
            row,
            now,
        )) ==> completion(Some(row), claim, result_digest, now) == Err::<
            CompletionOutcome,
            PlacementFailure,
        >(PlacementFailure::StaleAssignment),
        response.failure(request_id) matches Some(reason) ==> response_failure(
            response,
            request_id,
            encoded,
        ) == Some(PlacementFailure::Invalid(reason)),
        response.failure(request_id) is None ==> (encoded matches Ok(encoding) ==> (
        response_failure(response, request_id, encoded) matches Some(failure) ==> failure
            == PlacementFailure::Invalid("worker response exceeds its size limit"@))),
{
}

} // verus!

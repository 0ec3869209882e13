//! The queue of work: what is let in, in what order it is served, and to which worker.

use crate::checks;
use crate::digest;
use crate::oci::error;
use crate::placement::error::{PlacementFailure, PlacementStoreError};
use crate::placement::lease;
use crate::placement::lease::{row_step, PlacementRow, RowEvent, RowText};
use crate::placement::model;
use crate::placement::model::{
    bounded_label, to_i64, valid_pool_name, EnqueueOutcome, PlacementRecord, PlacementState,
    PlacementStoreConfig, PlacementSubmission, MAXIMUM_OPERATION_BYTES,
};
use crate::placement::workers;
use crate::placement::workers::{is_ready, worker_step, WorkerEvent, WorkerRow, WorkerText};
use crate::table;
use crate::table::{rank, Rank};
use crate::text;
use crate::text::Alphabet;
use vstd::prelude::*;

verus! {

/// A key under which work is submitted once.
pub open spec fn is_idempotency_key(value: Seq<char>) -> bool {
    let bytes = text::utf8(value);
    0 < bytes.len() <= 128 && text::drawn_from(bytes, Alphabet::Token)
}

/// Work that may be queued at `now`. `encoded` is the length of its encoded operation, and
/// `requires_sandbox` says whether what a work order has to allow is about a sandbox.
pub open spec fn is_valid_submission(
    submission: PlacementSubmission,
    encoded: usize,
    requires_sandbox: bool,
    now_unix_ms: u64,
) -> bool {
    &&& is_idempotency_key(submission.work.idempotency_key@)
    &&& submission.work.deadline_unix_ms > now_unix_ms
    &&& model::is_pool_name(submission.pool_name@)
    &&& model::is_label(submission.topology@)
    &&& model::is_label(submission.resource_shape@)
    &&& model::is_label(submission.compatibility_cohort@)
    &&& encoded <= MAXIMUM_OPERATION_BYTES
    &&& submission.operation.ordered_as() is Some && requires_sandbox
    &&& submission.operation.subject() == Some(submission.work.sandbox_id@)
}

/// Why work is not queued.
pub open spec fn submission_failure(
    submission: PlacementSubmission,
    encoded: Result<usize, String>,
    requires_sandbox: bool,
    now_unix_ms: u64,
) -> Option<PlacementFailure> {
    match encoded {
        Err(reason) => Some(PlacementFailure::Invalid(reason@)),
        Ok(length) => checks::when(
            !is_valid_submission(submission, length, requires_sandbox, now_unix_ms),
            PlacementFailure::Invalid("placement submission is invalid"@),
        ),
    }
}

/// Accepts work that is submitted.
pub fn validate_submission(
    submission: &PlacementSubmission,
    encoded: Result<usize, String>,
    requires_sandbox: bool,
    now_unix_ms: u64,
) -> (r: Result<(), PlacementStoreError>)
    ensures
        error::outcome(r) == checks::verdict(
            submission_failure(*submission, encoded, requires_sandbox, now_unix_ms),
        ),
{
    let length: usize = match encoded {
        Ok(length) => length,
        Err(reason) => return Err(PlacementStoreError::Invalid(reason)),
    };
    let key = submission.work.idempotency_key.as_str();
    let key_length: usize = key.as_bytes().len();
    let ordered = submission.operation.work_order_operation().is_some() && requires_sandbox;
    let own = match submission.operation.sandbox() {
        Some(sandbox) => text::same(sandbox, submission.work.sandbox_id.as_str()),
        None => false,
    };
    if key_length == 0 || key_length > 128 || !text::all_bytes(key, Alphabet::Token)
        || submission.work.deadline_unix_ms <= now_unix_ms || !valid_pool_name(
        submission.pool_name.as_str(),
    ) || !bounded_label(submission.topology.as_str()) || !bounded_label(
        submission.resource_shape.as_str(),
    ) || !bounded_label(submission.compatibility_cohort.as_str()) || length
        > MAXIMUM_OPERATION_BYTES || !ordered || !own {
        return Err(
            PlacementStoreError::Invalid("placement submission is invalid".to_owned()),
        );
    }
    Ok(())
}

/// What the identity of a request is the hash of.
pub open spec fn request_preimage(tenant: Seq<char>, key: Seq<char>) -> Seq<u8> {
    text::utf8(tenant) + seq![0u8] + text::utf8(key)
}

/// The identity of a request.
pub fn request_id(tenant: &str, idempotency_key: &str) -> (r: String)
    ensures
        r@ == digest::hash_text(request_preimage(tenant@, idempotency_key@)),
        digest::is_hash(r@),
{
    let mut preimage: Vec<u8> = text::copy_bytes(tenant.as_bytes());
    preimage.push(0);
    preimage.extend_from_slice(idempotency_key.as_bytes());
    proof {
        assert(preimage@ =~= request_preimage(tenant@, idempotency_key@));
    }
    digest::hash(preimage.as_slice())
}

/// Requests of different tenants or keys have different identity preimages, as long as no
/// tenant holds a NUL.
pub proof fn law_requests_bind_tenant_and_key(
    left: Seq<char>,
    key: Seq<char>,
    right: Seq<char>,
    other: Seq<char>,
)
    requires
        !text::has_byte(text::utf8(left), 0),
        !text::has_byte(text::utf8(right), 0),
        request_preimage(left, key) == request_preimage(right, other),
    ensures
        left == right,
        key == other,
{
    text::lemma_separated(
        text::utf8(left),
        text::utf8(key),
        text::utf8(right),
        text::utf8(other),
        0,
    );
    text::lemma_utf8_injective(left, right);
    text::lemma_utf8_injective(key, other);
}

/// How the work of a tenant is served.
#[derive(Clone, Copy, Debug, PartialEq, Eq, Structural)]
pub struct TenantPolicy {
    pub weight: i16,
    pub concurrency_limit: i32,
    pub queue_limit: i32,
    pub virtual_finish: i64,
}

/// Accepts the policy of a tenant.
pub fn check_tenant_policy(
    config: &PlacementStoreConfig,
    weight: i16,
    concurrency_limit: i32,
    queue_limit: i32,
) -> (r: Result<(), PlacementStoreError>)
    ensures
        error::outcome(r) == checks::verdict(
            checks::when(
                !(1 <= weight <= 100 && 0 < concurrency_limit && 0 < queue_limit
                    <= config.global_queue_limit),
                PlacementFailure::Invalid("tenant placement policy is invalid"@),
            ),
        ),
{
    if weight < 1 || weight > 100 || concurrency_limit <= 0 || queue_limit <= 0 || queue_limit
        as i64 > config.global_queue_limit {
        return Err(
            PlacementStoreError::Invalid("tenant placement policy is invalid".to_owned()),
        );
    }
    Ok(())
}

/// What the queue holds when work is submitted.
#[derive(Clone, Copy, Debug, PartialEq, Eq, Structural)]
pub struct QueueFacts {
    /// How much work waits.
    pub queued: i64,
    /// How much work of the tenant waits.
    pub tenant_queued: i64,
    /// The sandbox has work that waits, runs, serves or is done.
    pub conflict: bool,
    /// How far the queue has been served.
    pub virtual_time: i64,
}

/// The later of two times.
pub open spec fn later(left: i64, right: i64) -> i64 {
    if left >= right {
        left
    } else {
        right
    }
}

/// When the work of a tenant would be done, if every tenant were served by its weight.
pub open spec fn fair_finish(previous: i64, virtual_time: i64, weight: i16) -> int {
    later(previous, virtual_time) + 10_000int / weight as int
}

/// Why work is not let into the queue.
pub open spec fn enqueue_failure(
    config: PlacementStoreConfig,
    policy: TenantPolicy,
    facts: QueueFacts,
) -> Option<PlacementFailure> {
    checks::or(
        checks::when(
            facts.queued >= config.global_queue_limit,
            PlacementFailure::GlobalQueueFull,
        ),
        checks::or(
            checks::when(
                facts.tenant_queued >= policy.queue_limit,
                PlacementFailure::TenantQueueFull,
            ),
            checks::or(
                checks::when(facts.conflict, PlacementFailure::SandboxConflict),
                checks::when(
                    fair_finish(policy.virtual_finish, facts.virtual_time, policy.weight)
                        > i64::MAX,
                    PlacementFailure::Invalid("fair queue score overflow"@),
                ),
            ),
        ),
    )
}

/// Lets work into the queue: the place that it gets.
pub fn decide_enqueue(
    config: &PlacementStoreConfig,
    policy: &TenantPolicy,
    facts: &QueueFacts,
) -> (r: Result<i64, PlacementStoreError>)
    requires
        1 <= policy.weight <= 100,
    ensures
        match r {
            Ok(finish) => enqueue_failure(*config, *policy, *facts) is None && finish
                == fair_finish(policy.virtual_finish, facts.virtual_time, policy.weight),
            Err(error) => enqueue_failure(*config, *policy, *facts) == Some(error@),
        },
{
    if facts.queued >= config.global_queue_limit {
        return Err(PlacementStoreError::GlobalQueueFull);
    }
    if facts.tenant_queued >= policy.queue_limit as i64 {
        return Err(PlacementStoreError::TenantQueueFull);
    }
    if facts.conflict {
        return Err(PlacementStoreError::SandboxConflict);
    }
    let start: i64 = if policy.virtual_finish >= facts.virtual_time {
        policy.virtual_finish
    } else {
        facts.virtual_time
    };
    let weight: i64 = policy.weight as i64;
    let share: i64 = 10_000 / weight;
    match start.checked_add(share) {
        Some(finish) => Ok(finish),
        None => Err(PlacementStoreError::Invalid("fair queue score overflow".to_owned())),
    }
}

/// Work that is let in is placed behind everything that was served and behind the earlier work
/// of its tenant.
pub proof fn law_places_move_forward(previous: i64, virtual_time: i64, weight: i16)
    requires
        1 <= weight <= 100,
    ensures
        fair_finish(previous, virtual_time, weight) >= later(previous, virtual_time) + 100,
        fair_finish(previous, virtual_time, weight) > previous,
        fair_finish(previous, virtual_time, weight) > virtual_time,
{
    let w = weight as int;
    assert(10_000int / w >= 100) by (nonlinear_arith)
        requires
            1 <= w <= 100,
    ;
}

/// A tenant of greater weight is placed no later than one of less.
pub proof fn law_weight_brings_work_forward(
    previous: i64,
    virtual_time: i64,
    greater: i16,
    less: i16,
)
    requires
        1 <= less <= greater <= 100,
    ensures
        fair_finish(previous, virtual_time, greater) <= fair_finish(previous, virtual_time, less),
{
    let g = greater as int;
    let l = less as int;
    assert(10_000int / g <= 10_000int / l) by (nonlinear_arith)
        requires
            1 <= l <= g <= 100,
    ;
}

/// Work that a tenant submits in a row is placed at even distances, which its weight sets.
pub proof fn law_places_are_spaced_by_weight(previous: i64, virtual_time: i64, weight: i16)
    requires
        1 <= weight <= 100,
        fair_finish(previous, virtual_time, weight) <= i64::MAX,
    ensures
        fair_finish(
            fair_finish(previous, virtual_time, weight) as i64,
            virtual_time,
            weight,
        ) == fair_finish(previous, virtual_time, weight) + 10_000int / weight as int,
{
    law_places_move_forward(previous, virtual_time, weight);
}

/// What is noted of the workers that were ready when work was let in.
pub fn capacity_class(warm: bool) -> (r: &'static str)
    ensures
        r@ == (if warm {
            "warm"@
        } else {
            "cold"@
        }),
{
    if warm {
        "warm"
    } else {
        "cold"
    }
}

/// Why work is not looked up that is submitted.
pub open spec fn begin_enqueue_failure(
    submission: PlacementSubmission,
    encoded: Result<usize, String>,
    requires_sandbox: bool,
    now_unix_ms: u64,
) -> Option<PlacementFailure> {
    checks::or(
        submission_failure(submission, encoded, requires_sandbox, now_unix_ms),
        checks::when(
            now_unix_ms > i64::MAX || submission.work.deadline_unix_ms > i64::MAX,
            PlacementFailure::Invalid("timestamp is too large"@),
        ),
    )
}

/// Begins to queue work, before it is looked up: the time and the deadline, in the numbers of the
/// database.
pub fn begin_enqueue(
    submission: &PlacementSubmission,
    encoded: Result<usize, String>,
    requires_sandbox: bool,
    now_unix_ms: u64,
) -> (r: Result<(i64, i64), PlacementStoreError>)
    ensures
        match r {
            Ok(times) => {
                &&& begin_enqueue_failure(*submission, encoded, requires_sandbox, now_unix_ms)
                    is None
                &&& times.0 == now_unix_ms
                &&& times.1 == submission.work.deadline_unix_ms
            },
            Err(error) => begin_enqueue_failure(
                *submission,
                encoded,
                requires_sandbox,
                now_unix_ms,
            ) == Some(error@),
        },
{
    match validate_submission(submission, encoded, requires_sandbox, now_unix_ms) {
        Ok(()) => {},
        Err(error) => return Err(error),
    }
    let now: i64 = match to_i64(now_unix_ms) {
        Ok(now) => now,
        Err(error) => return Err(error),
    };
    match to_i64(submission.work.deadline_unix_ms) {
        Ok(deadline) => Ok((now, deadline)),
        Err(error) => Err(error),
    }
}

/// Answers work that was submitted before with what is kept of it; nothing is queued then.
/// `existing` is what is kept under the tenant and the key of the submission.
pub fn known_submission(existing: Option<PlacementRecord>) -> (r: Option<EnqueueOutcome>)
    ensures
        match existing {
            Some(record) => r == Some(EnqueueOutcome::Existing(record)),
            None => r is None,
        },
{
    match existing {
        Some(record) => Some(EnqueueOutcome::Existing(record)),
        None => None,
    }
}

/// A request that is queued.
#[derive(Debug)]
pub struct NewRequest {
    pub request_id: String,
    pub idempotency_key: String,
    pub tenant_id: String,
    pub workspace_id: String,
    pub sandbox_id: String,
    pub subject_id: String,
    pub pool_name: String,
    pub topology: String,
    pub resource_shape: String,
    pub compatibility_cohort: String,
    pub created_unix_ms: i64,
    pub fair_finish: i64,
    pub operation: String,
    pub capacity_class: &'static str,
    pub row: PlacementRow,
}

/// A request with its texts read as character sequences.
#[verifier::ext_equal]
pub struct RequestText {
    pub request_id: Seq<char>,
    pub idempotency_key: Seq<char>,
    pub tenant_id: Seq<char>,
    pub workspace_id: Seq<char>,
    pub sandbox_id: Seq<char>,
    pub subject_id: Seq<char>,
    pub pool_name: Seq<char>,
    pub topology: Seq<char>,
    pub resource_shape: Seq<char>,
    pub compatibility_cohort: Seq<char>,
    pub created_unix_ms: i64,
    pub fair_finish: i64,
    pub operation: Seq<char>,
    pub capacity_class: Seq<char>,
    pub row: RowText,
}

impl View for NewRequest {
    type V = RequestText;

    open spec fn view(&self) -> RequestText {
        RequestText {
            request_id: self.request_id@,
            idempotency_key: self.idempotency_key@,
            tenant_id: self.tenant_id@,
            workspace_id: self.workspace_id@,
            sandbox_id: self.sandbox_id@,
            subject_id: self.subject_id@,
            pool_name: self.pool_name@,
            topology: self.topology@,
            resource_shape: self.resource_shape@,
            compatibility_cohort: self.compatibility_cohort@,
            created_unix_ms: self.created_unix_ms,
            fair_finish: self.fair_finish,
            operation: self.operation@,
            capacity_class: self.capacity_class@,
            row: self.row@,
        }
    }
}

/// Work that waits since it was submitted.
pub open spec fn waiting(deadline: i64) -> RowText {
    RowText {
        state: PlacementState::Queued,
        worker_id: None,
        assignment_epoch: None,
        lease_expires_unix_ms: None,
        deadline_unix_ms: deadline,
        assigned_unix_ms: None,
        first_output_unix_ms: None,
        terminal_unix_ms: None,
        result_digest: None,
    }
}

/// The request that is queued for work that is let in. `operation` is its encoded operation,
/// `finish` the place that it gets, and `warm` says whether a worker was ready.
pub open spec fn queued_request(
    submission: PlacementSubmission,
    operation: Seq<char>,
    now: i64,
    deadline: i64,
    finish: i64,
    warm: bool,
) -> RequestText {
    let work = submission.work;
    RequestText {
        request_id: digest::hash_text(
            request_preimage(work.tenant_id@, work.idempotency_key@),
        ),
        idempotency_key: work.idempotency_key@,
        tenant_id: work.tenant_id@,
        workspace_id: work.workspace_id@,
        sandbox_id: work.sandbox_id@,
        subject_id: submission.subject_id@,
        pool_name: submission.pool_name@,
        topology: submission.topology@,
        resource_shape: submission.resource_shape@,
        compatibility_cohort: submission.compatibility_cohort@,
        created_unix_ms: now,
        fair_finish: finish,
        operation,
        capacity_class: if warm {
            "warm"@
        } else {
            "cold"@
        },
        row: waiting(deadline),
    }
}

/// Makes the request that is queued for work that is let in.
pub fn new_request(
    submission: &PlacementSubmission,
    operation: &str,
    now: i64,
    deadline: i64,
    finish: i64,
    warm: bool,
) -> (r: NewRequest)
    ensures
        r@ == queued_request(*submission, operation@, now, deadline, finish, warm),
{
    let work = &submission.work;
    NewRequest {
        request_id: request_id(work.tenant_id.as_str(), work.idempotency_key.as_str()),
        idempotency_key: work.idempotency_key.clone(),
        tenant_id: work.tenant_id.clone(),
        workspace_id: work.workspace_id.clone(),
        sandbox_id: work.sandbox_id.clone(),
        subject_id: submission.subject_id.clone(),
        pool_name: submission.pool_name.clone(),
        topology: submission.topology.clone(),
        resource_shape: submission.resource_shape.clone(),
        compatibility_cohort: submission.compatibility_cohort.clone(),
        created_unix_ms: now,
        fair_finish: finish,
        operation: operation.to_owned(),
        capacity_class: capacity_class(warm),
        row: PlacementRow {
            state: PlacementState::Queued,
            worker_id: None,
            assignment_epoch: None,
            lease_expires_unix_ms: None,
            deadline_unix_ms: deadline,
            assigned_unix_ms: None,
            first_output_unix_ms: None,
            terminal_unix_ms: None,
            result_digest: None,
        },
    }
}

/// The key under which a request is kept: its tenant and its own key.
pub type RequestKey = (Seq<char>, Seq<char>);

/// What the database keeps of the queue.
#[verifier::ext_equal]
pub struct QueueText {
    pub requests: Map<RequestKey, RequestText>,
    pub policies: Map<Seq<char>, TenantPolicy>,
    pub virtual_time: i64,
}

/// Work that is submitted to a queue at a time.
pub struct SubmissionCall {
    pub submission: PlacementSubmission,
    /// The encoded operation.
    pub operation: Seq<char>,
    /// How long the encoding is, or why there is none.
    pub encoded: Result<usize, String>,
    pub requires_sandbox: bool,
    pub now_unix_ms: u64,
    /// What is counted in the queue, once what waited too long is given up.
    pub facts: QueueFacts,
    /// A worker is ready.
    pub warm: bool,
}

/// What comes of a submission.
pub enum EnqueueText {
    Queued(RequestText),
    Existing(RequestText),
}

/// The policy of a tenant, which is the default where none was set.
pub open spec fn policy_of(
    queue: QueueText,
    config: PlacementStoreConfig,
    tenant: Seq<char>,
) -> TenantPolicy {
    if queue.policies.contains_key(tenant) {
        queue.policies[tenant]
    } else {
        TenantPolicy {
            weight: 1,
            concurrency_limit: config.default_tenant_concurrency_limit,
            queue_limit: config.default_tenant_queue_limit,
            virtual_finish: 0,
        }
    }
}

/// The requests, once what waited too long is given up.
pub open spec fn overdue_expired(requests: Map<RequestKey, RequestText>, now: i64) -> Map<
    RequestKey,
    RequestText,
> {
    requests.map_values(
        |request: RequestText|
            RequestText { row: row_step(request.row, RowEvent::Expire { now }), ..request },
    )
}

/// What a submission makes of the queue, and what comes of it. What is refused is rolled back.
pub open spec fn enqueue_call(
    queue: QueueText,
    config: PlacementStoreConfig,
    call: SubmissionCall,
) -> (QueueText, Result<EnqueueText, PlacementFailure>) {
    let work = call.submission.work;
    let key = (work.tenant_id@, work.idempotency_key@);
    let now = call.now_unix_ms as i64;
    let policy = policy_of(queue, config, work.tenant_id@);
    let finish = fair_finish(policy.virtual_finish, call.facts.virtual_time, policy.weight);
    match begin_enqueue_failure(
        call.submission,
        call.encoded,
        call.requires_sandbox,
        call.now_unix_ms,
    ) {
        Some(failure) => (queue, Err(failure)),
        None => if queue.requests.contains_key(key) {
            (
                QueueText { policies: queue.policies.insert(work.tenant_id@, policy), ..queue },
                Ok(EnqueueText::Existing(queue.requests[key])),
            )
        } else {
            match (enqueue_failure(config, policy, call.facts), config.cutoff(now)) {
                (Some(failure), _) => (queue, Err(failure)),
                (None, Err(failure)) => (queue, Err(failure)),
                (None, Ok(_)) => {
                    let request = queued_request(
                        call.submission,
                        call.operation,
                        now,
                        work.deadline_unix_ms as i64,
                        finish as i64,
                        call.warm,
                    );
                    (
                        QueueText {
                            requests: overdue_expired(queue.requests, now).insert(key, request),
                            policies: queue.policies.insert(
                                work.tenant_id@,
                                TenantPolicy { virtual_finish: finish as i64, ..policy },
                            ),
                            ..queue
                        },
                        Ok(EnqueueText::Queued(request)),
                    )
                },
            }
        },
    }
}

/// A submission that is repeated before its deadline is answered with the request that was queued
/// for it, whoever asks and however full the queue is, and changes nothing.
pub proof fn law_repeated_submissions_are_known(
    queue: QueueText,
    config: PlacementStoreConfig,
    call: SubmissionCall,
    other: PlacementStoreConfig,
    repeated: SubmissionCall,
)
    requires
        enqueue_call(queue, config, call).1 matches Ok(EnqueueText::Queued(_)),
        repeated.submission == call.submission,
        repeated.encoded == call.encoded,
        repeated.requires_sandbox == call.requires_sandbox,
        repeated.now_unix_ms < repeated.submission.work.deadline_unix_ms,
    ensures
        ({
            let first = enqueue_call(queue, config, call);
            let second = enqueue_call(first.0, other, repeated);
            &&& first.1 matches Ok(EnqueueText::Queued(request))
                && second.1 == Ok::<EnqueueText, PlacementFailure>(EnqueueText::Existing(request))
            &&& second.0 == first.0
        }),
{
    let first = enqueue_call(queue, config, call);
    let second = enqueue_call(first.0, other, repeated);
    assert(second.0.policies =~= first.0.policies);
}

/// A submission that is refused changes nothing, and one that is known changes no request.
pub proof fn law_refused_submissions_change_nothing(
    queue: QueueText,
    config: PlacementStoreConfig,
    call: SubmissionCall,
)
    ensures
        enqueue_call(queue, config, call).1 is Err ==> enqueue_call(queue, config, call).0
            == queue,
        enqueue_call(queue, config, call).1 matches Ok(EnqueueText::Existing(_))
            ==> enqueue_call(queue, config, call).0.requests == queue.requests,
{
}

/// Work that keeps its sandbox from other work: it waits, runs, serves or is done.
pub open spec fn claims_sandbox(row: RowText) -> bool {
    row.state is Queued || row.state is Assigned || row.state is Serving || row.state is Completed
}

/// Two requests are for one sandbox.
pub open spec fn shares_sandbox(left: RequestText, right: RequestText) -> bool {
    &&& left.tenant_id == right.tenant_id
    &&& left.workspace_id == right.workspace_id
    &&& left.sandbox_id == right.sandbox_id
}

/// The requests that wait.
pub open spec fn waiting_keys(requests: Map<RequestKey, RequestText>) -> Set<RequestKey> {
    requests.dom().filter(|key: RequestKey| requests[key].row.state is Queued)
}

/// The requests of a tenant that wait.
pub open spec fn tenant_keys(requests: Map<RequestKey, RequestText>, tenant: Seq<char>) -> Set<
    RequestKey,
> {
    requests.dom().filter(
        |key: RequestKey| requests[key].row.state is Queued && requests[key].tenant_id == tenant,
    )
}

/// No two requests claim one sandbox.
pub open spec fn sandboxes_are_apart(requests: Map<RequestKey, RequestText>) -> bool {
    forall|left: RequestKey, right: RequestKey|
        #![trigger requests[left], requests[right]]
        requests.contains_key(left) && requests.contains_key(right) && claims_sandbox(
            requests[left].row,
        ) && claims_sandbox(requests[right].row) && shares_sandbox(requests[left], requests[right])
            ==> left == right
}

/// What is counted in the queue for a submission.
pub open spec fn counts(
    requests: Map<RequestKey, RequestText>,
    submission: PlacementSubmission,
    facts: QueueFacts,
) -> bool {
    &&& facts.queued == waiting_keys(requests).len()
    &&& facts.tenant_queued == tenant_keys(requests, submission.work.tenant_id@).len()
    &&& facts.conflict == exists|key: RequestKey|
        {
            &&& #[trigger] requests.contains_key(key)
            &&& claims_sandbox(requests[key].row)
            &&& requests[key].tenant_id == submission.work.tenant_id@
            &&& requests[key].workspace_id == submission.work.workspace_id@
            &&& requests[key].sandbox_id == submission.work.sandbox_id@
        }
}

/// The queue is bounded: work that is let in leaves no more waiting than the limits of the queue
/// and of its tenant allow, and no two requests ever claim one sandbox.
pub proof fn law_queue_is_bounded(
    queue: QueueText,
    config: PlacementStoreConfig,
    call: SubmissionCall,
)
    requires
        queue.requests.dom().finite(),
        sandboxes_are_apart(queue.requests),
        counts(
            overdue_expired(queue.requests, call.now_unix_ms as i64),
            call.submission,
            call.facts,
        ),
        enqueue_call(queue, config, call).1 matches Ok(EnqueueText::Queued(_)),
    ensures
        ({
            let tenant = call.submission.work.tenant_id@;
            let requests = enqueue_call(queue, config, call).0.requests;
            &&& waiting_keys(requests).len() <= config.global_queue_limit
            &&& tenant_keys(requests, tenant).len() <= policy_of(
                queue,
                config,
                tenant,
            ).queue_limit
            &&& sandboxes_are_apart(requests)
        }),
{
    let work = call.submission.work;
    let tenant = work.tenant_id@;
    let key = (tenant, work.idempotency_key@);
    let before = overdue_expired(queue.requests, call.now_unix_ms as i64);
    let after = enqueue_call(queue, config, call).0.requests;
    assert(before.dom() =~= queue.requests.dom());
    assert(after.dom() =~= before.dom().insert(key));
    assert(waiting_keys(after) =~= waiting_keys(before).insert(key));
    assert(tenant_keys(after, tenant) =~= tenant_keys(before, tenant).insert(key));
    before.dom().lemma_len_filter(|key: RequestKey| before[key].row.state is Queued);
    before.dom().lemma_len_filter(
        |key: RequestKey| before[key].row.state is Queued && before[key].tenant_id == tenant,
    );
    assert forall|left: RequestKey, right: RequestKey|
        #![trigger after[left], after[right]]
        after.contains_key(left) && after.contains_key(right) && claims_sandbox(after[left].row)
            && claims_sandbox(after[right].row) && shares_sandbox(
            after[left],
            after[right],
        ) implies left == right by {
        if left != key && right != key {
            assert(queue.requests.contains_key(left) && queue.requests.contains_key(right));
            assert(claims_sandbox(queue.requests[left].row));
            assert(claims_sandbox(queue.requests[right].row));
        } else if left != key {
            assert(before.contains_key(left));
        } else if right != key {
            assert(before.contains_key(right));
        }
    }
}

/// Nothing that happens to work makes it claim its sandbox again once it does not: only a
/// submission does.
pub proof fn law_sandboxes_are_claimed_by_submission(row: RowText, event: RowEvent)
    requires
        claims_sandbox(row_step(row, event)),
    ensures
        claims_sandbox(row),
{
}

/// Work that waits, with what is known of its tenant.
#[derive(Debug)]
pub struct Candidate {
    pub request_id: String,
    pub fair_finish: i64,
    pub created_unix_ms: i64,
    pub pool_name: String,
    pub topology: String,
    pub resource_shape: String,
    pub compatibility_cohort: String,
    /// How much work of the tenant runs.
    pub tenant_active: i64,
    /// How much work of the tenant may run.
    pub tenant_limit: i32,
    /// The epoch of the last assignment of the sandbox, if there was one.
    pub previous_epoch: Option<i64>,
    /// What changes about the work when it is placed.
    pub row: PlacementRow,
}

/// Work that a worker may take at `now`.
pub open spec fn is_eligible(candidate: Candidate, worker: WorkerText, now: i64) -> bool {
    &&& candidate.row.state is Queued
    &&& candidate.row.deadline_unix_ms > now
    &&& candidate.pool_name@ == worker.pool_name
    &&& candidate.topology@ == worker.topology
    &&& candidate.resource_shape@ == worker.resource_shape
    &&& candidate.compatibility_cohort@ == worker.compatibility_cohort
    &&& candidate.tenant_active < candidate.tenant_limit
}

/// The order in which work is served: by place, then by age, then by identity.
pub open spec fn comes_first(left: Candidate, right: Candidate) -> bool {
    left.fair_finish < right.fair_finish || (left.fair_finish == right.fair_finish && (
    left.created_unix_ms < right.created_unix_ms || (left.created_unix_ms == right.created_unix_ms
        && table::precedes(text::utf8(left.request_id@), text::utf8(right.request_id@)))))
}

/// The work at `at` is what a worker takes at `now`: it may, and nothing that it may take comes
/// before it.
pub open spec fn is_next(candidates: Seq<Candidate>, worker: WorkerText, now: i64, at: int) -> bool {
    &&& 0 <= at < candidates.len()
    &&& is_eligible(candidates[at], worker, now)
    &&& forall|j: int|
        0 <= j < candidates.len() && is_eligible(#[trigger] candidates[j], worker, now)
            ==> !comes_first(candidates[j], candidates[at])
}

/// There is nothing that a worker may take at `now`.
pub open spec fn has_none(candidates: Seq<Candidate>, worker: WorkerText, now: i64) -> bool {
    forall|j: int|
        0 <= j < candidates.len() ==> !is_eligible(#[trigger] candidates[j], worker, now)
}

fn eligible(candidate: &Candidate, offer: &WorkerRow, now: i64) -> (r: bool)
    ensures
        r == is_eligible(*candidate, offer@, now),
{
    let waits = match candidate.row.state {
        PlacementState::Queued => true,
        _ => false,
    };
    waits && candidate.row.deadline_unix_ms > now && text::same(
        candidate.pool_name.as_str(),
        offer.pool_name.as_str(),
    ) && text::same(candidate.topology.as_str(), offer.topology.as_str()) && text::same(
        candidate.resource_shape.as_str(),
        offer.resource_shape.as_str(),
    ) && text::same(
        candidate.compatibility_cohort.as_str(),
        offer.compatibility_cohort.as_str(),
    ) && candidate.tenant_active < candidate.tenant_limit as i64
}

fn before(left: &Candidate, right: &Candidate) -> (r: bool)
    ensures
        r == comes_first(*left, *right),
{
    if left.fair_finish != right.fair_finish {
        return left.fair_finish < right.fair_finish;
    }
    if left.created_unix_ms != right.created_unix_ms {
        return left.created_unix_ms < right.created_unix_ms;
    }
    match rank(left.request_id.as_str().as_bytes(), right.request_id.as_str().as_bytes()) {
        Rank::Before => true,
        _ => false,
    }
}

/// The order in which work is served is transitive where it is not reversed.
proof fn lemma_not_behind(left: Candidate, middle: Candidate, right: Candidate)
    requires
        comes_first(left, middle),
        !comes_first(right, middle),
    ensures
        !comes_first(right, left),
{
    let l = text::utf8(left.request_id@);
    let m = text::utf8(middle.request_id@);
    let r = text::utf8(right.request_id@);
    if table::precedes(r, l) && table::precedes(l, m) {
        table::lemma_precedes_transitive(r, l, m);
    }
}

/// Work that may run, in the order in which it is served: `active` is how much runs already.
pub fn next_candidate(
    config: &PlacementStoreConfig,
    active: i64,
    candidates: &Vec<Candidate>,
    offer: &WorkerRow,
    now: i64,
) -> (r: Option<usize>)
    ensures
        match r {
            Some(at) => active < config.global_concurrency_limit && is_next(
                candidates@,
                offer@,
                now,
                at as int,
            ),
            None => active >= config.global_concurrency_limit || has_none(candidates@, offer@, now),
        },
{
    if active >= config.global_concurrency_limit {
        return None;
    }
    let mut best: Option<usize> = None;
    let mut i: usize = 0;
    while i < candidates.len()
        invariant
            i <= candidates@.len(),
            active < config.global_concurrency_limit,
            match best {
                Some(at) => {
                    &&& at < i
                    &&& is_eligible(candidates@[at as int], offer@, now)
                    &&& forall|j: int|
                        0 <= j < i && is_eligible(#[trigger] candidates@[j], offer@, now)
                            ==> !comes_first(candidates@[j], candidates@[at as int])
                },
                None => forall|j: int|
                    0 <= j < i ==> !is_eligible(#[trigger] candidates@[j], offer@, now),
            },
        decreases candidates@.len() - i,
    {
        if eligible(&candidates[i], offer, now) {
            match best {
                Some(at) => {
                    if before(&candidates[i], &candidates[at]) {
                        proof {
                            assert forall|j: int|
                                0 <= j < i + 1 && is_eligible(
                                    #[trigger] candidates@[j],
                                    offer@,
                                    now,
                                ) implies !comes_first(candidates@[j], candidates@[i as int]) by {
                                if j < i {
                                    lemma_not_behind(
                                        candidates@[i as int],
                                        candidates@[at as int],
                                        candidates@[j],
                                    );
                                } else {
                                    lemma_not_before_itself(candidates@[i as int]);
                                }
                            }
                        }
                        best = Some(i);
                    }
                },
                None => {
                    proof {
                        lemma_not_before_itself(candidates@[i as int]);
                    }
                    best = Some(i);
                },
            }
        }
        i += 1;
    }
    best
}

proof fn lemma_not_before_itself(candidate: Candidate)
    ensures
        !comes_first(candidate, candidate),
{
    let bytes = text::utf8(candidate.request_id@);
    if table::precedes(bytes, bytes) {
        table::lemma_precedes_asymmetric(bytes, bytes);
    }
}

/// How far the queue has been served once work is taken.
pub fn advance_clock(virtual_time: i64, fair_finish: i64) -> (r: i64)
    ensures
        r == later(virtual_time, fair_finish),
        r >= virtual_time,
{
    if virtual_time >= fair_finish {
        virtual_time
    } else {
        fair_finish
    }
}

/// The epoch behind `previous`: one more, or the first.
pub open spec fn epoch_behind(previous: Option<i64>) -> Option<i64> {
    match previous {
        None => Some(1i64),
        Some(epoch) => if epoch == i64::MAX {
            None
        } else {
            Some((epoch + 1) as i64)
        },
    }
}

/// The epoch of the next assignment of a sandbox: one more than the last, if there is one.
pub fn next_epoch(previous: Option<i64>) -> (r: Option<i64>)
    ensures
        r == epoch_behind(previous),
{
    match previous {
        None => Some(1),
        Some(epoch) => epoch.checked_add(1),
    }
}

/// When work is asked for, in the numbers of the database: now, the last heartbeat that is too
/// old, and the end of a lease.
#[derive(Clone, Copy, Debug, PartialEq, Eq, Structural)]
pub struct AssignmentTimes {
    pub now: i64,
    pub cutoff: i64,
    pub expires: i64,
}

/// Why no work is looked for.
pub open spec fn times_failure(config: PlacementStoreConfig, now_unix_ms: u64) -> Option<
    PlacementFailure,
> {
    if now_unix_ms > i64::MAX {
        Some(PlacementFailure::Invalid("timestamp is too large"@))
    } else {
        match config.cutoff(now_unix_ms as i64) {
            Err(failure) => Some(failure),
            Ok(_) => match config.expiry(now_unix_ms as i64) {
                Err(failure) => Some(failure),
                Ok(_) => None,
            },
        }
    }
}

/// Begins to look for work, before the worker is looked up.
pub fn begin_assignment(config: &PlacementStoreConfig, now_unix_ms: u64) -> (r: Result<
    AssignmentTimes,
    PlacementStoreError,
>)
    ensures
        match r {
            Ok(times) => {
                &&& times_failure(*config, now_unix_ms) is None
                &&& times.now == now_unix_ms
                &&& config.cutoff(times.now) == Ok::<i64, PlacementFailure>(times.cutoff)
                &&& config.expiry(times.now) == Ok::<i64, PlacementFailure>(times.expires)
                &&& times.expires == now_unix_ms + config.lease_lifetime.nanoseconds / 1_000_000
            },
            Err(error) => times_failure(*config, now_unix_ms) == Some(error@),
        },
{
    let now: i64 = match to_i64(now_unix_ms) {
        Ok(now) => now,
        Err(error) => return Err(error),
    };
    let cutoff: i64 = match config.heartbeat_cutoff(now) {
        Ok(cutoff) => cutoff,
        Err(error) => return Err(error),
    };
    match config.lease_expiry(now) {
        Ok(expires) => Ok(AssignmentTimes { now, cutoff, expires }),
        Err(error) => Err(error),
    }
}

/// Work that a worker takes, and what it makes of the tables.
#[derive(Debug)]
pub struct Taken {
    /// Which of the candidates it is.
    pub at: usize,
    pub request_id: String,
    pub epoch: i64,
    /// The work, now that it is assigned.
    pub row: PlacementRow,
    /// The worker, now that it is leased.
    pub worker: WorkerRow,
    /// How far the queue has been served.
    pub virtual_time: i64,
}

/// What a worker takes of the work that waits, with all that comes of it: the least candidate that
/// it may take is its own under a new epoch until the lease ends, it is leased, and the clock of
/// the queue moves on.
pub open spec fn is_taken(
    taken: Taken,
    times: AssignmentTimes,
    worker_id: Seq<char>,
    worker: WorkerText,
    candidates: Seq<Candidate>,
    virtual_time: i64,
) -> bool {
    let chosen = candidates[taken.at as int];
    &&& is_next(candidates, worker, times.now, taken.at as int)
    &&& taken.request_id@ == chosen.request_id@
    &&& epoch_behind(chosen.previous_epoch) == Some(taken.epoch)
    &&& taken.row@ == row_step(
        chosen.row@,
        RowEvent::Assign {
            worker_id,
            epoch: taken.epoch,
            expires: times.expires,
            now: times.now,
        },
    )
    &&& taken.row@.state is Assigned
    &&& taken.row@.worker_id == Some(worker_id)
    &&& taken.row@.assignment_epoch == Some(taken.epoch)
    &&& taken.row@.lease_expires_unix_ms == Some(times.expires)
    &&& worker_step(worker, WorkerEvent::Lease) == Some(taken.worker@)
    &&& taken.worker@.state is Leased
    &&& taken.virtual_time == later(virtual_time, chosen.fair_finish)
}

/// Gives a worker the next work that it may take, if there is any. `active` is how much runs
/// already, and `virtual_time` how far the queue has been served.
pub fn assign_next(
    config: &PlacementStoreConfig,
    times: AssignmentTimes,
    worker_id: &str,
    worker: WorkerRow,
    active: i64,
    candidates: Vec<Candidate>,
    virtual_time: i64,
) -> (r: Result<Option<Taken>, PlacementStoreError>)
    ensures
        match r {
            Ok(Some(taken)) => {
                &&& is_ready(worker@, times.cutoff)
                &&& active < config.global_concurrency_limit
                &&& is_taken(taken, times, worker_id@, worker@, candidates@, virtual_time)
            },
            Ok(None) => {
                &&& is_ready(worker@, times.cutoff)
                &&& active >= config.global_concurrency_limit || has_none(
                    candidates@,
                    worker@,
                    times.now,
                )
            },
            Err(error) => {
                ||| !is_ready(worker@, times.cutoff) && error@
                    == PlacementFailure::WorkerUnavailable
                ||| {
                    &&& is_ready(worker@, times.cutoff)
                    &&& active < config.global_concurrency_limit
                    &&& exists|at: int|
                        #![trigger candidates@[at]]
                        is_next(candidates@, worker@, times.now, at)
                            && candidates@[at].previous_epoch == Some(i64::MAX)
                    &&& error@ == PlacementFailure::Invalid("assignment epoch is exhausted"@)
                }
            },
        },
{
    match workers::check_ready(Some(&worker), times.cutoff) {
        Ok(()) => {},
        Err(error) => return Err(error),
    }
    let at: usize = match next_candidate(config, active, &candidates, &worker, times.now) {
        Some(at) => at,
        None => return Ok(None),
    };
    let epoch: i64 = match next_epoch(candidates[at].previous_epoch) {
        Some(epoch) => epoch,
        None => {
            return Err(
                PlacementStoreError::Invalid("assignment epoch is exhausted".to_owned()),
            );
        },
    };
    let mut candidates = candidates;
    let chosen = candidates.swap_remove(at);
    let virtual_time: i64 = advance_clock(virtual_time, chosen.fair_finish);
    let row = lease::assign(chosen.row, worker_id, epoch, times.expires, times.now);
    match workers::apply(Some(worker), WorkerEvent::Lease) {
        Ok(worker) => Ok(
            Some(Taken { at, request_id: chosen.request_id, epoch, row, worker, virtual_time }),
        ),
        Err(error) => Err(error),
    }
}

/// The sandbox that work is for: its tenant, its workspace and its own name.
pub type SandboxKey = (Seq<char>, Seq<char>, Seq<char>);

/// The epoch of the last assignment of a sandbox.
pub open spec fn last_epoch(history: Seq<(SandboxKey, i64)>, sandbox: SandboxKey) -> Option<i64>
    decreases history.len(),
{
    if history.len() == 0 {
        None
    } else if history.last().0 == sandbox {
        Some(history.last().1)
    } else {
        last_epoch(history.drop_last(), sandbox)
    }
}

/// Assignments, each with the epoch that comes behind the last one of its sandbox.
pub open spec fn is_history(history: Seq<(SandboxKey, i64)>) -> bool
    decreases history.len(),
{
    history.len() > 0 ==> is_history(history.drop_last()) && epoch_behind(
        last_epoch(history.drop_last(), history.last().0),
    ) == Some(history.last().1)
}

/// Each assignment of a sandbox has a greater epoch than every earlier one.
pub proof fn law_epochs_rise(history: Seq<(SandboxKey, i64)>, earlier: int, later: int)
    requires
        is_history(history),
        0 <= earlier < later < history.len(),
        history[earlier].0 == history[later].0,
    ensures
        history[earlier].1 < history[later].1,
    decreases history.len(),
{
    let before = history.drop_last();
    if later < history.len() - 1 {
        assert(before[earlier] == history[earlier] && before[later] == history[later]);
        law_epochs_rise(before, earlier, later);
    } else {
        lemma_last_epoch_is_greatest(before, earlier);
        assert(before[earlier] == history[earlier]);
    }
}

/// No assignment of a sandbox has a greater epoch than the last one.
proof fn lemma_last_epoch_is_greatest(history: Seq<(SandboxKey, i64)>, at: int)
    requires
        is_history(history),
        0 <= at < history.len(),
    ensures
        last_epoch(history, history[at].0) is Some,
        history[at].1 <= last_epoch(history, history[at].0)->0,
    decreases history.len(),
{
    if at < history.len() - 1 {
        let before = history.drop_last();
        assert(before[at] == history[at]);
        lemma_last_epoch_is_greatest(before, at);
    }
}

/// Work that a worker takes was submitted for just its kind of worker, is not overdue, and is of a
/// tenant that may run more. Nothing else that it could have taken was due earlier, and of what is
/// due at one time nothing is older.
pub proof fn law_work_fits_its_worker(
    taken: Taken,
    times: AssignmentTimes,
    worker_id: Seq<char>,
    worker: WorkerText,
    candidates: Seq<Candidate>,
    virtual_time: i64,
    other: int,
)
    requires
        is_taken(taken, times, worker_id, worker, candidates, virtual_time),
    ensures
        0 <= taken.at < candidates.len(),
        ({
            let chosen = candidates[taken.at as int];
            &&& chosen.pool_name@ == worker.pool_name
            &&& chosen.topology@ == worker.topology
            &&& chosen.resource_shape@ == worker.resource_shape
            &&& chosen.compatibility_cohort@ == worker.compatibility_cohort
            &&& chosen.row.state is Queued
            &&& chosen.row.deadline_unix_ms > times.now
            &&& chosen.tenant_active < chosen.tenant_limit
            &&& taken.request_id@ == chosen.request_id@
            &&& 0 <= other < candidates.len() && candidates[other].pool_name@ == worker.pool_name
                && candidates[other].topology@ == worker.topology
                && candidates[other].resource_shape@ == worker.resource_shape
                && candidates[other].compatibility_cohort@ == worker.compatibility_cohort
                && candidates[other].row.state is Queued && candidates[other].row.deadline_unix_ms
                > times.now && candidates[other].tenant_active < candidates[other].tenant_limit
                ==> {
                &&& chosen.fair_finish <= candidates[other].fair_finish
                &&& chosen.fair_finish == candidates[other].fair_finish ==> chosen.created_unix_ms
                    <= candidates[other].created_unix_ms
                &&& chosen.fair_finish == candidates[other].fair_finish && chosen.created_unix_ms
                    == candidates[other].created_unix_ms ==> !table::precedes(
                    text::utf8(candidates[other].request_id@),
                    text::utf8(chosen.request_id@),
                )
            }
        }),
{
    if 0 <= other < candidates.len() && is_eligible(candidates[other], worker, times.now) {
        assert(!comes_first(candidates[other], candidates[taken.at as int]));
    }
}

/// A worker goes without only where nothing that waits fits it: all that is of its kind and not
/// overdue belongs to tenants that may run no more.
pub proof fn law_fitting_work_is_not_withheld(
    candidates: Seq<Candidate>,
    worker: WorkerText,
    now: i64,
    at: int,
)
    requires
        has_none(candidates, worker, now),
        0 <= at < candidates.len(),
        candidates[at].pool_name@ == worker.pool_name,
        candidates[at].topology@ == worker.topology,
        candidates[at].resource_shape@ == worker.resource_shape,
        candidates[at].compatibility_cohort@ == worker.compatibility_cohort,
        candidates[at].row.state is Queued,
        candidates[at].row.deadline_unix_ms > now,
    ensures
        candidates[at].tenant_active >= candidates[at].tenant_limit,
{
    assert(!is_eligible(candidates[at], worker, now));
}

/// Taking work gives it to the worker under the next epoch of its sandbox until the lease ends,
/// leases the worker, and moves the clock of the queue up to the place of the work.
pub proof fn law_taken_work_is_leased(
    taken: Taken,
    times: AssignmentTimes,
    worker_id: Seq<char>,
    worker: WorkerText,
    candidates: Seq<Candidate>,
    virtual_time: i64,
)
    requires
        is_taken(taken, times, worker_id, worker, candidates, virtual_time),
    ensures
        ({
            let chosen = candidates[taken.at as int];
            &&& chosen.previous_epoch is None ==> taken.epoch == 1
            &&& chosen.previous_epoch matches Some(last) ==> taken.epoch == last + 1
            &&& taken.row@.state is Assigned
            &&& taken.row@.worker_id == Some(worker_id)
            &&& taken.row@.assignment_epoch == Some(taken.epoch)
            &&& taken.row@.lease_expires_unix_ms == Some(times.expires)
            &&& taken.row@.deadline_unix_ms == chosen.row.deadline_unix_ms
            &&& taken.row@.assigned_unix_ms == Some(times.now)
            &&& taken.row@.first_output_unix_ms is None
            &&& taken.row@.terminal_unix_ms == chosen.row.terminal_unix_ms
            &&& taken.row@.result_digest == chosen.row@.result_digest
            &&& taken.worker@.state is Leased
            &&& taken.worker@.pool_name == worker.pool_name
            &&& taken.virtual_time >= virtual_time
            &&& taken.virtual_time >= chosen.fair_finish
            &&& taken.virtual_time == virtual_time || taken.virtual_time == chosen.fair_finish
        }),
{
}

/// Work is queued exactly where it has a key of 1 to 128 letters, digits, `-` and `_`, a deadline
/// ahead, well-formed names of what it is for, an operation of up to 512 KiB that a work order can
/// allow, and that operation is about its own sandbox.
pub proof fn law_valid_submissions_are_about_their_sandbox(
    submission: PlacementSubmission,
    encoded: usize,
    requires_sandbox: bool,
    now_unix_ms: u64,
)
    ensures
        is_valid_submission(submission, encoded, requires_sandbox, now_unix_ms) <==> {
            let key = text::utf8(submission.work.idempotency_key@);
            let own = submission.work.sandbox_id@;
            &&& 1 <= key.len() <= 128
            &&& forall|i: int|
                0 <= i < key.len() ==> 'a' as u8 <= (#[trigger] key[i]) <= 'z' as u8 || 'A' as u8
                    <= key[i] <= 'Z' as u8 || '0' as u8 <= key[i] <= '9' as u8 || key[i]
                    == '-' as u8 || key[i] == '_' as u8
            &&& now_unix_ms < submission.work.deadline_unix_ms
            &&& model::is_pool_name(submission.pool_name@)
            &&& model::is_label(submission.topology@)
            &&& model::is_label(submission.resource_shape@)
            &&& model::is_label(submission.compatibility_cohort@)
            &&& encoded <= 524_288
            &&& requires_sandbox
            &&& match submission.operation {
                crate::protocol::Operation::Run { project, .. } => project@ == own,
                crate::protocol::Operation::Create { sandbox, .. } => sandbox@ == own,
                crate::protocol::Operation::Restore { sandbox, .. } => sandbox@ == own,
                crate::protocol::Operation::Inspect { sandbox } => sandbox@ == own,
                crate::protocol::Operation::Pause { sandbox } => sandbox@ == own,
                crate::protocol::Operation::Resume { sandbox } => sandbox@ == own,
                crate::protocol::Operation::Stop { sandbox } => sandbox@ == own,
                crate::protocol::Operation::Logs { sandbox, .. } => sandbox@ == own,
                crate::protocol::Operation::Snapshot { sandbox, .. } => sandbox@ == own,
                _ => false,
            }
        },
{
}

/// Work whose form is right is let in exactly where the queue has room, its tenant has room, its
/// sandbox is free, and there is a place left for it; where several do not hold, the first in this
/// order is told.
pub proof fn law_work_is_let_in_where_there_is_room(
    config: PlacementStoreConfig,
    policy: TenantPolicy,
    facts: QueueFacts,
)
    requires
        1 <= policy.weight <= 100,
    ensures
        ({
            let failure = enqueue_failure(config, policy, facts);
            let start = if policy.virtual_finish >= facts.virtual_time {
                policy.virtual_finish
            } else {
                facts.virtual_time
            };
            let whole = facts.queued >= config.global_queue_limit;
            let tenant = facts.tenant_queued >= policy.queue_limit;
            &&& failure == Some(PlacementFailure::GlobalQueueFull) <==> whole
            &&& failure == Some(PlacementFailure::TenantQueueFull) <==> !whole && tenant
            &&& failure == Some(PlacementFailure::SandboxConflict) <==> !whole && !tenant
                && facts.conflict
            &&& failure is None <==> !whole && !tenant && !facts.conflict && start + 10_000int
                / policy.weight as int <= i64::MAX
        }),
{
}

/// The request that is queued for work says of it what was submitted, under the identity of its
/// tenant and key, and waits from now until its deadline.
pub proof fn law_queued_requests_are_as_submitted(
    submission: PlacementSubmission,
    operation: Seq<char>,
    now: i64,
    deadline: i64,
    finish: i64,
    warm: bool,
)
    ensures
        ({
            let request = queued_request(submission, operation, now, deadline, finish, warm);
            &&& request.request_id == digest::hex_text(
                digest::sha256_of(
                    text::utf8(submission.work.tenant_id@) + seq![0u8] + text::utf8(
                        submission.work.idempotency_key@,
                    ),
                ),
            )
            &&& request.idempotency_key == submission.work.idempotency_key@
            &&& request.tenant_id == submission.work.tenant_id@
            &&& request.workspace_id == submission.work.workspace_id@
            &&& request.sandbox_id == submission.work.sandbox_id@
            &&& request.subject_id == submission.subject_id@
            &&& request.pool_name == submission.pool_name@
            &&& request.topology == submission.topology@
            &&& request.resource_shape == submission.resource_shape@
            &&& request.compatibility_cohort == submission.compatibility_cohort@
            &&& request.created_unix_ms == now
            &&& request.fair_finish == finish
            &&& request.operation == operation
            &&& warm ==> request.capacity_class == "warm"@
            &&& !warm ==> request.capacity_class == "cold"@
            &&& request.row.state is Queued
            &&& request.row.deadline_unix_ms == deadline
            &&& request.row.worker_id is None
            &&& request.row.assignment_epoch is None
            &&& request.row.lease_expires_unix_ms is None
            &&& request.row.assigned_unix_ms is None
            &&& request.row.first_output_unix_ms is None
            &&& request.row.terminal_unix_ms is None
            &&& request.row.result_digest is None
        }),
{
}

/// A place in the queue lies behind what was served and behind the earlier work of its tenant, by
/// ten thousand shared out by weight.
pub proof fn law_places_are_fair(previous: i64, virtual_time: i64, weight: i16)
    requires
        1 <= weight <= 100,
    ensures
        previous >= virtual_time ==> fair_finish(previous, virtual_time, weight) == previous
            + 10_000int / weight as int,
        previous < virtual_time ==> fair_finish(previous, virtual_time, weight) == virtual_time
            + 10_000int / weight as int,
        weight == 1 ==> fair_finish(previous, virtual_time, weight) >= previous + 10_000,
{
}

/// A tenant without a policy has weight one, the default limits, and no earlier work.
pub proof fn law_tenants_have_a_default_policy(
    queue: QueueText,
    config: PlacementStoreConfig,
    tenant: Seq<char>,
)
    ensures
        queue.policies.contains_key(tenant) ==> policy_of(queue, config, tenant)
            == queue.policies[tenant],
        !queue.policies.contains_key(tenant) ==> {
            let policy = policy_of(queue, config, tenant);
            &&& policy.weight == 1
            &&& policy.concurrency_limit == config.default_tenant_concurrency_limit
            &&& policy.queue_limit == config.default_tenant_queue_limit
            &&& policy.virtual_finish == 0
        },
{
}

/// A submission that is let in adds its request and gives its tenant the place of it, gives up what
/// waited too long, and leaves every other request and policy alone.
pub proof fn law_submissions_add_one_request(
    queue: QueueText,
    config: PlacementStoreConfig,
    call: SubmissionCall,
    other: RequestKey,
    tenant: Seq<char>,
)
    requires
        enqueue_call(queue, config, call).1 matches Ok(EnqueueText::Queued(_)),
    ensures
        ({
            let work = call.submission.work;
            let own = (work.tenant_id@, work.idempotency_key@);
            let after = enqueue_call(queue, config, call).0;
            let now = call.now_unix_ms as i64;
            &&& !queue.requests.contains_key(own)
            &&& after.requests.contains_key(own)
            &&& enqueue_call(queue, config, call).1 == Ok::<EnqueueText, PlacementFailure>(
                EnqueueText::Queued(after.requests[own]),
            )
            &&& after.requests[own].tenant_id == work.tenant_id@
            &&& after.requests[own].sandbox_id == work.sandbox_id@
            &&& after.requests[own].row.state is Queued
            &&& after.requests[own].row.deadline_unix_ms == work.deadline_unix_ms
            &&& after.requests[own].created_unix_ms == call.now_unix_ms
            &&& after.policies.contains_key(work.tenant_id@)
            &&& after.policies[work.tenant_id@].virtual_finish == after.requests[own].fair_finish
            &&& other != own ==> (after.requests.contains_key(other)
                <==> queue.requests.contains_key(other))
            &&& other != own && queue.requests.contains_key(other) ==> {
                let before = queue.requests[other];
                let overdue = before.row.state is Queued && before.row.deadline_unix_ms <= now;
                &&& overdue ==> after.requests[other].row.state is Expired
                &&& !overdue ==> after.requests[other] == before
            }
            &&& tenant != work.tenant_id@ ==> (after.policies.contains_key(tenant)
                <==> queue.policies.contains_key(tenant)) && (queue.policies.contains_key(tenant)
                ==> after.policies[tenant] == queue.policies[tenant])
            &&& after.virtual_time == queue.virtual_time
        }),
{
}

/// A submission is answered with what is kept under its tenant and key, where there is something,
/// and otherwise let in exactly where nothing is wrong with it and there is room.
pub proof fn law_submissions_are_answered(
    queue: QueueText,
    config: PlacementStoreConfig,
    call: SubmissionCall,
)
    requires
        config.is_valid(),
    ensures
        ({
            let work = call.submission.work;
            let own = (work.tenant_id@, work.idempotency_key@);
            let answered = enqueue_call(queue, config, call).1;
            let wrong = !(call.encoded matches Ok(length) && is_valid_submission(
                call.submission,
                length,
                call.requires_sandbox,
                call.now_unix_ms,
            )) || work.deadline_unix_ms > i64::MAX;
            let full = enqueue_failure(
                config,
                policy_of(queue, config, work.tenant_id@),
                call.facts,
            );
            &&& wrong ==> answered is Err
            &&& !wrong && queue.requests.contains_key(own) ==> answered == Ok::<
                EnqueueText,
                PlacementFailure,
            >(EnqueueText::Existing(queue.requests[own]))
            &&& !wrong && !queue.requests.contains_key(own) && full is Some ==> answered == Err::<
                EnqueueText,
                PlacementFailure,
            >(full->0)
            &&& !wrong && !queue.requests.contains_key(own) && full is None ==> (answered matches Ok(
                EnqueueText::Queued(_),
            ))
        }),
{
}

/// Work is served by place, then by age, then by identity.
pub proof fn law_work_is_served_by_place_then_age(left: Candidate, right: Candidate)
    ensures
        left.fair_finish < right.fair_finish ==> comes_first(left, right) && !comes_first(
            right,
            left,
        ),
        left.fair_finish == right.fair_finish && left.created_unix_ms < right.created_unix_ms
            ==> comes_first(left, right) && !comes_first(right, left),
        left.fair_finish == right.fair_finish && left.created_unix_ms == right.created_unix_ms ==> (
        comes_first(left, right) <==> table::precedes(
            text::utf8(left.request_id@),
            text::utf8(right.request_id@),
        )),
{
}

/// The epoch of an assignment is one more than that of the last, and one for the first; there is
/// none behind the greatest.
pub proof fn law_epochs_count_up(previous: Option<i64>)
    ensures
        previous is None ==> epoch_behind(previous) == Some(1i64),
        previous matches Some(last) ==> (last < i64::MAX ==> epoch_behind(previous) is Some
            && epoch_behind(previous)->0 == last + 1),
        previous == Some(i64::MAX) ==> epoch_behind(previous) is None,
{
}

/// A submission begins exactly where it is accepted and its times can be stored, and an assignment
/// where the time can be stored and so can what follows from it.
pub proof fn law_stored_times_fit(
    submission: PlacementSubmission,
    encoded: Result<usize, String>,
    requires_sandbox: bool,
    config: PlacementStoreConfig,
    now_unix_ms: u64,
)
    ensures
        begin_enqueue_failure(submission, encoded, requires_sandbox, now_unix_ms) is None <==> {
            &&& submission_failure(submission, encoded, requires_sandbox, now_unix_ms) is None
            &&& now_unix_ms <= 0x7fff_ffff_ffff_ffff
            &&& submission.work.deadline_unix_ms <= 0x7fff_ffff_ffff_ffff
        },
        times_failure(config, now_unix_ms) is None <==> now_unix_ms <= 0x7fff_ffff_ffff_ffff
            && config.cutoff(now_unix_ms as i64) is Ok && config.expiry(now_unix_ms as i64) is Ok,
{
}

/// Each refusal of a submission or an assignment is of its kind.
pub proof fn law_refused_submissions_say_why(
    submission: PlacementSubmission,
    encoded: Result<usize, String>,
    requires_sandbox: bool,
    config: PlacementStoreConfig,
    policy: TenantPolicy,
    facts: QueueFacts,
    now_unix_ms: u64,
)
    ensures
        encoded matches Err(reason) ==> submission_failure(
            submission,
            encoded,
            requires_sandbox,
            now_unix_ms,
        ) == Some(PlacementFailure::Invalid(reason@)),
        encoded matches Ok(length) ==> submission_failure(
            submission,
            encoded,
            requires_sandbox,
            now_unix_ms,
        ) == (if is_valid_submission(submission, length, requires_sandbox, now_unix_ms) {
            None::<PlacementFailure>
        } else {
            Some(PlacementFailure::Invalid("placement submission is invalid"@))
        }),
        submission_failure(submission, encoded, requires_sandbox, now_unix_ms) is Some
            ==> begin_enqueue_failure(submission, encoded, requires_sandbox, now_unix_ms)
            == submission_failure(submission, encoded, requires_sandbox, now_unix_ms),
        submission_failure(submission, encoded, requires_sandbox, now_unix_ms) is None ==> (
        begin_enqueue_failure(submission, encoded, requires_sandbox, now_unix_ms) matches Some(
            failure,
        ) ==> failure == PlacementFailure::Invalid("timestamp is too large"@)),
        facts.queued < config.global_queue_limit && facts.tenant_queued < policy.queue_limit
            && !facts.conflict ==> (enqueue_failure(config, policy, facts) matches Some(failure)
            ==> failure == PlacementFailure::Invalid("fair queue score overflow"@)),
        now_unix_ms > 0x7fff_ffff_ffff_ffff ==> times_failure(config, now_unix_ms) == Some(
            PlacementFailure::Invalid("timestamp is too large"@),
        ),
{
}

/// Work may go to a worker exactly where it waits, is not overdue, asks for that pool, topology,
/// shape and cohort, and its tenant may run one more.
pub proof fn law_work_may_go_where_it_fits(candidate: Candidate, worker: WorkerText, now: i64)
    ensures
        is_eligible(candidate, worker, now) <==> {
            &&& candidate.row.state == PlacementState::Queued
            &&& now < candidate.row.deadline_unix_ms
            &&& worker.pool_name == candidate.pool_name@
            &&& worker.topology == candidate.topology@
            &&& worker.resource_shape == candidate.resource_shape@
            &&& worker.compatibility_cohort == candidate.compatibility_cohort@
            &&& candidate.tenant_active + 1 <= candidate.tenant_limit
        },
{
}

} // verus!

//! The workload protocol: requests that a signed work order covers, and their responses.

use crate::checks;
use crate::digest;
use crate::json::Json;
use crate::oci::model::TopologyLock;
use crate::text;
use crate::text::{join2, Alphabet};
use vstd::prelude::*;

verus! {

pub const PROTOCOL_VERSION: u32 = 2;

pub const LEGACY_OPERATOR_PROTOCOL_VERSION: u32 = 1;

/// What a sandbox may use at most.
#[derive(Debug)]
pub struct ResourceCeilings {
    pub allowed_guest_profiles: Vec<String>,
    pub maximum_services: u32,
    pub maximum_timeout_ms: u64,
    pub memory_bytes_per_service: u64,
    pub cpu_per_service_millis: u32,
    pub pids_per_service: u32,
    pub tmpfs_bytes: u64,
    pub writable_root_bytes_per_service: u64,
    pub maximum_volumes: u32,
    pub maximum_volume_bytes: u64,
    pub maximum_output_bytes: u64,
}

/// What a worker says of itself.
#[derive(Debug)]
pub struct WorkerAdvertisement {
    pub worker_id: String,
    pub pool_name: String,
    pub topology: String,
    pub resource_shape: String,
    pub compatibility_cohort: String,
    pub broker_address: String,
    pub resource_ceilings: ResourceCeilings,
}

/// What a work order may allow.
#[derive(Clone, Copy, Debug, PartialEq, Eq, Structural)]
pub enum WorkOrderOperation {
    Ping,
    Stats,
    Admit,
    Run,
    Create,
    Restore,
    Inspect,
    Pause,
    Resume,
    Stop,
    Logs,
    Snapshot,
}

/// What a work order says.
#[derive(Debug)]
pub struct WorkOrderClaims {
    pub schema_version: u32,
    pub tenant_id: String,
    pub workspace_id: String,
    pub subject_id: String,
    pub request_id: String,
    pub operation: WorkOrderOperation,
    pub sandbox_id: Option<String>,
    pub assignment_epoch: u64,
    pub issued_unix_millis: u64,
    pub expires_unix_millis: u64,
    pub nonce: String,
    pub operation_digest: String,
    pub resource_ceilings: ResourceCeilings,
}

/// A work order with its signature.
#[derive(Debug)]
pub struct SignedWorkOrder {
    pub claims: WorkOrderClaims,
    pub signature: String,
}

/// What a request is authorized by.
#[derive(Debug)]
pub enum WorkloadAuthorization {
    WorkOrder { work_order: SignedWorkOrder },
}

/// A request of the broker.
#[derive(Debug)]
pub struct WorkloadRequest {
    pub schema_version: u32,
    pub request_id: String,
    pub authorization: WorkloadAuthorization,
    pub operation: Operation,
}

/// The answer to a request.
#[derive(Debug)]
pub struct WorkloadResponse {
    pub schema_version: u32,
    pub request_id: String,
    pub ok: bool,
    pub result: Option<Json>,
    pub error: Option<String>,
}

/// What a request asks for.
#[derive(Debug)]
pub enum Operation {
    Ping,
    Ready,
    Stats,
    Admit { topology: TopologyLock },
    Run { topology: TopologyLock, project: String, wait_for: String, timeout_ms: u64 },
    Create { topology: TopologyLock, sandbox: String, timeout_ms: u64 },
    Restore {
        topology: TopologyLock,
        sandbox: String,
        snapshot: String,
        timeout_ms: u64,
        fenced_source_epoch: Option<u64>,
    },
    Inspect { sandbox: String },
    Pause { sandbox: String },
    Resume { sandbox: String },
    Stop { sandbox: String },
    Logs { sandbox: String, container: String },
    Snapshot { sandbox: String, snapshot: String, mode: String },
    PublishArtifact { source: String, digest: String },
    GarbageCollectArtifacts { minimum_age_seconds: u64 },
    Shutdown,
}

/// Letters, digits, `-` and `_`, at most 64 of them.
pub open spec fn is_request_id(value: Seq<char>) -> bool {
    let bytes = text::utf8(value);
    0 < bytes.len() <= 64 && text::drawn_from(bytes, Alphabet::Token)
}

/// Whether `value` identifies a request.
pub fn valid_request_id(value: &str) -> (r: bool)
    ensures
        r == is_request_id(value@),
{
    let length: usize = value.as_bytes().len();
    0 < length && length <= 64 && text::all_bytes(value, Alphabet::Token)
}

/// A result whose reason is read as a character sequence.
pub open spec fn reasoned(result: Result<(), &'static str>) -> Result<(), Seq<char>> {
    match result {
        Ok(()) => Ok(()),
        Err(reason) => Err(reason@),
    }
}

impl WorkloadResponse {
    /// The result and the error agree with the flag.
    pub open spec fn is_consistent(self) -> bool {
        &&& self.ok ==> self.error is None
        &&& !self.ok ==> self.result is None && self.error is Some && text::utf8(
            self.error->0@,
        ).len() > 0
        &&& self.error is Some ==> text::utf8(self.error->0@).len() <= 4_096
    }

    /// Why a response does not answer a request.
    pub open spec fn failure(self, request_id: Seq<char>) -> Option<Seq<char>> {
        checks::or(
            checks::when(
                self.schema_version != PROTOCOL_VERSION || self.request_id@ != request_id
                    || !is_request_id(request_id),
                "response identity does not match the request"@,
            ),
            checks::when(
                !self.is_consistent(),
                "response result and error fields are inconsistent"@,
            ),
        )
    }

    /// Accepts the response to a request.
    pub fn validate_for(&self, request_id: &str) -> (r: Result<(), &'static str>)
        ensures
            reasoned(r) == checks::verdict(self.failure(request_id@)),
    {
        if self.schema_version != PROTOCOL_VERSION || !text::same(
            self.request_id.as_str(),
            request_id,
        ) || !valid_request_id(self.request_id.as_str()) {
            return Err("response identity does not match the request");
        }
        let consistent = match &self.error {
            Some(error) => {
                let length: usize = error.as_str().as_bytes().len();
                !self.ok && self.result.is_none() && length > 0 && length <= 4_096
            },
            None => self.ok,
        };
        if !consistent {
            return Err("response result and error fields are inconsistent");
        }
        Ok(())
    }
}

/// The optional text of an optional slice.
pub open spec fn slice_text(value: Option<&str>) -> Option<Seq<char>> {
    match value {
        Some(text) => Some(text@),
        None => None,
    }
}

impl Operation {
    /// What a work order has to allow; `None` for what only an operator may ask.
    pub open spec fn ordered_as(self) -> Option<WorkOrderOperation> {
        match self {
            Operation::Ping => Some(WorkOrderOperation::Ping),
            Operation::Stats => Some(WorkOrderOperation::Stats),
            Operation::Admit { .. } => Some(WorkOrderOperation::Admit),
            Operation::Run { .. } => Some(WorkOrderOperation::Run),
            Operation::Create { .. } => Some(WorkOrderOperation::Create),
            Operation::Restore { .. } => Some(WorkOrderOperation::Restore),
            Operation::Inspect { .. } => Some(WorkOrderOperation::Inspect),
            Operation::Pause { .. } => Some(WorkOrderOperation::Pause),
            Operation::Resume { .. } => Some(WorkOrderOperation::Resume),
            Operation::Stop { .. } => Some(WorkOrderOperation::Stop),
            Operation::Logs { .. } => Some(WorkOrderOperation::Logs),
            Operation::Snapshot { .. } => Some(WorkOrderOperation::Snapshot),
            Operation::Ready => None,
            Operation::PublishArtifact { .. } => None,
            Operation::GarbageCollectArtifacts { .. } => None,
            Operation::Shutdown => None,
        }
    }

    pub fn work_order_operation(&self) -> (r: Option<WorkOrderOperation>)
        ensures
            r == self.ordered_as(),
    {
        match self {
            Operation::Ping => Some(WorkOrderOperation::Ping),
            Operation::Ready => None,
            Operation::Stats => Some(WorkOrderOperation::Stats),
            Operation::Admit { .. } => Some(WorkOrderOperation::Admit),
            Operation::Run { .. } => Some(WorkOrderOperation::Run),
            Operation::Create { .. } => Some(WorkOrderOperation::Create),
            Operation::Restore { .. } => Some(WorkOrderOperation::Restore),
            Operation::Inspect { .. } => Some(WorkOrderOperation::Inspect),
            Operation::Pause { .. } => Some(WorkOrderOperation::Pause),
            Operation::Resume { .. } => Some(WorkOrderOperation::Resume),
            Operation::Stop { .. } => Some(WorkOrderOperation::Stop),
            Operation::Logs { .. } => Some(WorkOrderOperation::Logs),
            Operation::Snapshot { .. } => Some(WorkOrderOperation::Snapshot),
            Operation::PublishArtifact { .. } => None,
            Operation::GarbageCollectArtifacts { .. } => None,
            Operation::Shutdown => None,
        }
    }

    /// The sandbox that the operation is about.
    pub open spec fn subject(self) -> Option<Seq<char>> {
        match self {
            Operation::Run { project, .. } => Some(project@),
            Operation::Create { sandbox, .. } => Some(sandbox@),
            Operation::Restore { sandbox, .. } => Some(sandbox@),
            Operation::Inspect { sandbox } => Some(sandbox@),
            Operation::Pause { sandbox } => Some(sandbox@),
            Operation::Resume { sandbox } => Some(sandbox@),
            Operation::Stop { sandbox } => Some(sandbox@),
            Operation::Logs { sandbox, .. } => Some(sandbox@),
            Operation::Snapshot { sandbox, .. } => Some(sandbox@),
            _ => None,
        }
    }

    pub fn sandbox(&self) -> (r: Option<&str>)
        ensures
            slice_text(r) == self.subject(),
    {
        match self {
            Operation::Run { project, .. } => Some(project.as_str()),
            Operation::Create { sandbox, .. } => Some(sandbox.as_str()),
            Operation::Restore { sandbox, .. } => Some(sandbox.as_str()),
            Operation::Inspect { sandbox } => Some(sandbox.as_str()),
            Operation::Pause { sandbox } => Some(sandbox.as_str()),
            Operation::Resume { sandbox } => Some(sandbox.as_str()),
            Operation::Stop { sandbox } => Some(sandbox.as_str()),
            Operation::Logs { sandbox, .. } => Some(sandbox.as_str()),
            Operation::Snapshot { sandbox, .. } => Some(sandbox.as_str()),
            _ => None,
        }
    }

    /// The digest that a work order binds the operation by. `encoding` holds its canonical
    /// bytes.
    pub fn digest(encoding: Result<Vec<u8>, String>) -> (r: Result<String, String>)
        ensures
            match encoding {
                Ok(bytes) => r matches Ok(digest) && digest@ == digest::identity_text(bytes@),
                Err(reason) => r matches Err(text) && text@ == "encode operation digest: "@
                    + reason@,
            },
    {
        match encoding {
            Ok(bytes) => Ok(digest::identity(bytes.as_slice())),
            Err(reason) => Err(join2("encode operation digest: ", reason.as_str())),
        }
    }

    pub fn timeout_ms(&self) -> (r: Option<u64>)
        ensures
            r == (match *self {
                Operation::Run { timeout_ms, .. } => Some(timeout_ms),
                Operation::Create { timeout_ms, .. } => Some(timeout_ms),
                Operation::Restore { timeout_ms, .. } => Some(timeout_ms),
                _ => None,
            }),
    {
        match self {
            Operation::Run { timeout_ms, .. } => Some(*timeout_ms),
            Operation::Create { timeout_ms, .. } => Some(*timeout_ms),
            Operation::Restore { timeout_ms, .. } => Some(*timeout_ms),
            _ => None,
        }
    }

    pub fn topology(&self) -> (r: Option<&TopologyLock>)
        ensures
            match *self {
                Operation::Admit { topology } => r == Some(&topology),
                Operation::Run { topology, .. } => r == Some(&topology),
                Operation::Create { topology, .. } => r == Some(&topology),
                Operation::Restore { topology, .. } => r == Some(&topology),
                _ => r is None,
            },
    {
        match self {
            Operation::Admit { topology } => Some(topology),
            Operation::Run { topology, .. } => Some(topology),
            Operation::Create { topology, .. } => Some(topology),
            Operation::Restore { topology, .. } => Some(topology),
            _ => None,
        }
    }
}

impl WorkloadRequest {
    /// The work order of the request.
    pub open spec fn order(self) -> SignedWorkOrder {
        self.authorization->work_order
    }

    /// Why a request is refused, given the version of work orders in force and whether the
    /// claims stand for themselves.
    pub open spec fn failure(self, version: u32, claims_valid: bool) -> Option<Seq<char>> {
        let claims = self.order().claims;
        checks::or(
            checks::when(
                self.schema_version != PROTOCOL_VERSION || !is_request_id(self.request_id@),
                "invalid protocol version or request ID"@,
            ),
            checks::or(
                checks::when(!claims_valid, "invalid work-order claims"@),
                checks::or(
                    checks::when(
                        claims.schema_version != version || claims.request_id@ != self.request_id@
                            || !digest::is_hash(self.order().signature@),
                        "work order does not match the request"@,
                    ),
                    checks::or(
                        checks::when(
                            self.operation.ordered_as() is None,
                            "operator operation is not brokerable"@,
                        ),
                        checks::or(
                            checks::when(
                                self.operation.ordered_as() != Some(claims.operation),
                                "operation does not match the work order"@,
                            ),
                            checks::when(
                                text::optional(claims.sandbox_id) != self.operation.subject(),
                                "sandbox identity does not match the work order"@,
                            ),
                        ),
                    ),
                ),
            ),
        )
    }

    /// Accepts a request that its work order covers. `check` says whether the claims stand
    /// for themselves; it is asked only if the request is well formed.
    pub fn validate<C: Fn(&WorkOrderClaims) -> bool>(&self, version: u32, check: &C) -> (r: Result<
        (),
        &'static str,
    >)
        requires
            forall|claims: &WorkOrderClaims| #[trigger] call_requires(*check, (claims,)),
        ensures
            exists|valid: bool|
                {
                    &&& self.schema_version == PROTOCOL_VERSION && is_request_id(self.request_id@)
                        ==> call_ensures(*check, (&self.order().claims,), valid)
                    &&& reasoned(r) == #[trigger] checks::verdict(self.failure(version, valid))
                },
    {
        if self.schema_version != PROTOCOL_VERSION || !valid_request_id(self.request_id.as_str()) {
            proof {
                assert(reasoned(Err("invalid protocol version or request ID")) == checks::verdict(
                    self.failure(version, true),
                ));
            }
            return Err("invalid protocol version or request ID");
        }
        let WorkloadAuthorization::WorkOrder { work_order } = &self.authorization;
        let claims = &work_order.claims;
        let valid: bool = check(claims);
        let result = self.covered(version, valid);
        proof {
            assert(reasoned(result) == checks::verdict(self.failure(version, valid)));
        }
        result
    }

    /// Accepts a request that its work order covers, given whether the claims stand for
    /// themselves.
    pub fn covered(&self, version: u32, claims_valid: bool) -> (r: Result<(), &'static str>)
        ensures
            reasoned(r) == checks::verdict(self.failure(version, claims_valid)),
    {
        if self.schema_version != PROTOCOL_VERSION || !valid_request_id(self.request_id.as_str()) {
            return Err("invalid protocol version or request ID");
        }
        let WorkloadAuthorization::WorkOrder { work_order } = &self.authorization;
        let claims = &work_order.claims;
        if !claims_valid {
            return Err("invalid work-order claims");
        }
        if claims.schema_version != version || !text::same(
            claims.request_id.as_str(),
            self.request_id.as_str(),
        ) || !digest::valid_hash(work_order.signature.as_str()) {
            return Err("work order does not match the request");
        }
        let operation = match self.operation.work_order_operation() {
            Some(operation) => operation,
            None => return Err("operator operation is not brokerable"),
        };
        if claims.operation != operation {
            return Err("operation does not match the work order");
        }
        let matches = match (&claims.sandbox_id, self.operation.sandbox()) {
            (Some(claimed), Some(asked)) => text::same(claimed.as_str(), asked),
            (None, None) => true,
            _ => false,
        };
        if !matches {
            return Err("sandbox identity does not match the work order");
        }
        Ok(())
    }
}

/// What only an operator may ask never passes as a workload request.
pub proof fn law_operator_operations_are_refused(
    request: WorkloadRequest,
    version: u32,
    claims_valid: bool,
)
    requires
        request.operation is Ready || request.operation is PublishArtifact
            || request.operation is GarbageCollectArtifacts || request.operation is Shutdown,
    ensures
        request.failure(version, claims_valid) is Some,
{
}

/// An accepted request asks for the operation and the sandbox that its work order names,
/// under the request that the work order names.
pub proof fn law_accepted_request_is_covered(
    request: WorkloadRequest,
    version: u32,
    claims_valid: bool,
)
    requires
        request.failure(version, claims_valid) is None,
    ensures
        claims_valid,
        request.operation.ordered_as() == Some(request.order().claims.operation),
        request.operation.subject() == text::optional(request.order().claims.sandbox_id),
        request.order().claims.request_id@ == request.request_id@,
{
}

/// A request is accepted exactly where it is of the current version and named by up to 64 letters,
/// digits, `-` and `_`, and its valid and signed work order is of the version in force, for the
/// same request, the same kind of operation and the same sandbox.
pub proof fn law_accepted_requests_are_of_the_kind_ordered(
    request: WorkloadRequest,
    version: u32,
    claims_valid: bool,
)
    ensures
        request.failure(version, claims_valid) is None <==> ({
            let claims = request.authorization->work_order.claims;
            let id = text::utf8(request.request_id@);
            let signature = text::utf8(request.authorization->work_order.signature@);
            &&& request.schema_version == 2
            &&& 1 <= id.len() <= 64
            &&& forall|i: int|
                0 <= i < id.len() ==> 48 <= (#[trigger] id[i]) <= 57 || 65 <= id[i] <= 90 || 97
                    <= id[i] <= 122 || id[i] == 45 || id[i] == 95
            &&& claims_valid
            &&& claims.schema_version == version
            &&& claims.request_id@ == request.request_id@
            &&& signature.len() == 64
            &&& forall|i: int|
                0 <= i < signature.len() ==> 48 <= (#[trigger] signature[i]) <= 57 || 97
                    <= signature[i] <= 102
            &&& match claims.operation {
                WorkOrderOperation::Ping => request.operation is Ping,
                WorkOrderOperation::Stats => request.operation is Stats,
                WorkOrderOperation::Admit => request.operation is Admit,
                WorkOrderOperation::Run => request.operation is Run,
                WorkOrderOperation::Create => request.operation is Create,
                WorkOrderOperation::Restore => request.operation is Restore,
                WorkOrderOperation::Inspect => request.operation is Inspect,
                WorkOrderOperation::Pause => request.operation is Pause,
                WorkOrderOperation::Resume => request.operation is Resume,
                WorkOrderOperation::Stop => request.operation is Stop,
                WorkOrderOperation::Logs => request.operation is Logs,
                WorkOrderOperation::Snapshot => request.operation is Snapshot,
            }
            &&& match claims.sandbox_id {
                None => request.operation is Ping || request.operation is Stats
                    || request.operation is Admit,
                Some(own) => {
                    ||| request.operation matches Operation::Run { project, .. } && project@ == own@
                    ||| request.operation matches Operation::Create { sandbox, .. } && sandbox@
                        == own@
                    ||| request.operation matches Operation::Restore { sandbox, .. } && sandbox@
                        == own@
                    ||| request.operation matches Operation::Inspect { sandbox } && sandbox@ == own@
                    ||| request.operation matches Operation::Pause { sandbox } && sandbox@ == own@
                    ||| request.operation matches Operation::Resume { sandbox } && sandbox@ == own@
                    ||| request.operation matches Operation::Stop { sandbox } && sandbox@ == own@
                    ||| request.operation matches Operation::Logs { sandbox, .. } && sandbox@
                        == own@
                    ||| request.operation matches Operation::Snapshot { sandbox, .. } && sandbox@
                        == own@
                },
            }
        }),
{
}

/// A request and its accepted work order are of one kind, kind by kind.
pub proof fn law_kinds_of_request_and_order_agree(
    request: WorkloadRequest,
    version: u32,
    claims_valid: bool,
)
    requires
        request.failure(version, claims_valid) is None,
    ensures
        ({
            let asked = request.operation;
            let ordered = request.authorization->work_order.claims.operation;
            &&& asked is Ping <==> ordered is Ping
            &&& asked is Stats <==> ordered is Stats
            &&& asked is Admit <==> ordered is Admit
            &&& asked is Run <==> ordered is Run
            &&& asked is Create <==> ordered is Create
            &&& asked is Restore <==> ordered is Restore
            &&& asked is Inspect <==> ordered is Inspect
            &&& asked is Pause <==> ordered is Pause
            &&& asked is Resume <==> ordered is Resume
            &&& asked is Stop <==> ordered is Stop
            &&& asked is Logs <==> ordered is Logs
            &&& asked is Snapshot <==> ordered is Snapshot
        }),
{
}

/// Each reason for which a request is refused says what is wrong with it: its own form, its
/// claims, its binding to the work order, that only an operator may ask it, or its kind. What is
/// left is the sandbox.
pub proof fn law_refusals_tell_what_is_wrong(
    request: WorkloadRequest,
    version: u32,
    claims_valid: bool,
)
    ensures
        ({
            let failure = request.failure(version, claims_valid);
            let claims = request.authorization->work_order.claims;
            &&& request.schema_version != 2 || text::utf8(request.request_id@).len() == 0
                || text::utf8(request.request_id@).len() > 64 ==> failure == Some(
                "invalid protocol version or request ID"@,
            )
            &&& failure == Some("invalid work-order claims"@) || claims_valid || failure == Some(
                "invalid protocol version or request ID"@,
            )
            &&& request.schema_version == 2 && is_request_id(request.request_id@) && claims_valid
                ==> {
                &&& claims.schema_version != version || claims.request_id@ != request.request_id@
                    || text::utf8(request.authorization->work_order.signature@).len() != 64
                    ==> failure == Some("work order does not match the request"@)
                &&& claims.schema_version == version && claims.request_id@ == request.request_id@
                    && digest::is_hash(request.authorization->work_order.signature@) ==> {
                    &&& request.operation is Ready || request.operation is PublishArtifact
                        || request.operation is GarbageCollectArtifacts
                        || request.operation is Shutdown ==> failure == Some(
                        "operator operation is not brokerable"@,
                    )
                    &&& request.operation is Pause && !(claims.operation is Pause)
                        || request.operation is Resume && !(claims.operation is Resume)
                        || request.operation is Stop && !(claims.operation is Stop)
                        || request.operation is Run && !(claims.operation is Run)
                        || request.operation is Create && !(claims.operation is Create)
                        ==> failure == Some("operation does not match the work order"@)
                    &&& request.operation matches Operation::Stop { sandbox } ==> (
                    claims.operation is Stop && text::optional(claims.sandbox_id) != Some(sandbox@)
                        ==> failure == Some("sandbox identity does not match the work order"@))
                }
            }
        }),
{
}

/// A response is accepted exactly where it is of the current version, for the request that was
/// made, and holds either a success without an error or an error of up to 4096 bytes alone.
pub proof fn law_accepted_responses_answer_their_request(
    response: WorkloadResponse,
    request_id: Seq<char>,
)
    ensures
        response.failure(request_id) is None <==> {
            let id = text::utf8(request_id);
            &&& response.schema_version == 2
            &&& response.request_id@ == request_id
            &&& 1 <= id.len() <= 64
            &&& forall|i: int|
                0 <= i < id.len() ==> 48 <= (#[trigger] id[i]) <= 57 || 65 <= id[i] <= 90 || 97
                    <= id[i] <= 122 || id[i] == 45 || id[i] == 95
            &&& match response.error {
                None => response.ok,
                Some(error) => !response.ok && response.result is None && 1 <= text::utf8(
                    error@,
                ).len() <= 4_096,
            }
        },
        response.schema_version != 2 || response.request_id@ != request_id ==> response.failure(
            request_id,
        ) == Some("response identity does not match the request"@),
{
}

/// The protocol is the second. Operators may still speak the first.
pub proof fn law_the_protocol_is_the_second()
    ensures
        PROTOCOL_VERSION == 2,
        LEGACY_OPERATOR_PROTOCOL_VERSION == 1,
{
}

/// An operation is ordered as what it is, and what only operators do is not ordered.
pub proof fn law_operations_are_ordered_as_what_they_are(operation: Operation)
    ensures
        operation.ordered_as() == Some(WorkOrderOperation::Ping) <==> operation is Ping,
        operation.ordered_as() == Some(WorkOrderOperation::Stats) <==> operation is Stats,
        operation.ordered_as() == Some(WorkOrderOperation::Admit) <==> operation is Admit,
        operation.ordered_as() == Some(WorkOrderOperation::Run) <==> operation is Run,
        operation.ordered_as() == Some(WorkOrderOperation::Create) <==> operation is Create,
        operation.ordered_as() == Some(WorkOrderOperation::Restore) <==> operation is Restore,
        operation.ordered_as() == Some(WorkOrderOperation::Inspect) <==> operation is Inspect,
        operation.ordered_as() == Some(WorkOrderOperation::Pause) <==> operation is Pause,
        operation.ordered_as() == Some(WorkOrderOperation::Resume) <==> operation is Resume,
        operation.ordered_as() == Some(WorkOrderOperation::Stop) <==> operation is Stop,
        operation.ordered_as() == Some(WorkOrderOperation::Logs) <==> operation is Logs,
        operation.ordered_as() == Some(WorkOrderOperation::Snapshot) <==> operation is Snapshot,
        operation.ordered_as() is None <==> operation is Ready || operation is PublishArtifact
            || operation is GarbageCollectArtifacts || operation is Shutdown,
{
}

/// An operation is about the sandbox that it names, and a run about its project.
pub proof fn law_operations_are_about_the_sandbox_they_name(operation: Operation)
    ensures
        match operation {
            Operation::Run { project, .. } => operation.subject() == Some(project@),
            Operation::Create { sandbox, .. } => operation.subject() == Some(sandbox@),
            Operation::Restore { sandbox, .. } => operation.subject() == Some(sandbox@),
            Operation::Inspect { sandbox } => operation.subject() == Some(sandbox@),
            Operation::Pause { sandbox } => operation.subject() == Some(sandbox@),
            Operation::Resume { sandbox } => operation.subject() == Some(sandbox@),
            Operation::Stop { sandbox } => operation.subject() == Some(sandbox@),
            Operation::Logs { sandbox, .. } => operation.subject() == Some(sandbox@),
            Operation::Snapshot { sandbox, .. } => operation.subject() == Some(sandbox@),
            _ => operation.subject() is None,
        },
{
}

} // verus!

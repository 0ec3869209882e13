use sandboxd::digest::identity;
use sandboxd::protocol::{
    valid_request_id, Operation, ResourceCeilings, SignedWorkOrder, WorkOrderClaims,
    WorkOrderOperation, WorkloadAuthorization, WorkloadRequest, WorkloadResponse,
    PROTOCOL_VERSION,
};
use sandboxd::runtime::{ArtifactStaging, RuntimeError};

const WORK_ORDER_VERSION: u32 = 1;

fn request() -> WorkloadRequest {
    WorkloadRequest {
        schema_version: PROTOCOL_VERSION,
        request_id: "request-a".to_owned(),
        authorization: WorkloadAuthorization::WorkOrder {
            work_order: SignedWorkOrder {
                claims: WorkOrderClaims {
                    schema_version: WORK_ORDER_VERSION,
                    tenant_id: "tenant-a".to_owned(),
                    workspace_id: "workspace-a".to_owned(),
                    subject_id: "gateway-a".to_owned(),
                    request_id: "request-a".to_owned(),
                    operation: WorkOrderOperation::Inspect,
                    sandbox_id: Some("sandbox-a".to_owned()),
                    assignment_epoch: 1,
                    issued_unix_millis: 1,
                    expires_unix_millis: 2,
                    nonce: "nonce-a".to_owned(),
                    operation_digest: format!("sha256:{}", "a".repeat(64)),
                    resource_ceilings: ResourceCeilings {
                        allowed_guest_profiles: vec!["strict".to_owned()],
                        maximum_services: 1,
                        maximum_timeout_ms: 1_000,
                        memory_bytes_per_service: 1024,
                        cpu_per_service_millis: 100,
                        pids_per_service: 16,
                        tmpfs_bytes: 1024,
                        writable_root_bytes_per_service: 1024,
                        maximum_volumes: 1,
                        maximum_volume_bytes: 1024,
                        maximum_output_bytes: 1024,
                    },
                },
                signature: "a".repeat(64),
            },
        },
        operation: Operation::Inspect { sandbox: "sandbox-a".to_owned() },
    }
}

fn validate(request: &WorkloadRequest) -> Result<(), &'static str> {
    request.validate(WORK_ORDER_VERSION, &|_: &WorkOrderClaims| true)
}

#[test]
fn only_matching_workload_operations_validate() {
    validate(&request()).expect("inspect");
    let mut operator = request();
    operator.operation = Operation::Shutdown;
    assert!(validate(&operator).is_err());
    let mut mismatch = request();
    mismatch.operation = Operation::Inspect { sandbox: "sandbox-b".to_owned() };
    assert!(validate(&mismatch).is_err());
}

#[test]
fn every_part_of_a_request_is_checked() {
    let mut old = request();
    old.schema_version = 1;
    assert_eq!(validate(&old), Err("invalid protocol version or request ID"));
    let mut renamed = request();
    renamed.request_id = "request-b".to_owned();
    assert_eq!(validate(&renamed), Err("work order does not match the request"));
    assert_eq!(
        request().validate(WORK_ORDER_VERSION, &|_: &WorkOrderClaims| false),
        Err("invalid work-order claims")
    );
    assert_eq!(request().covered(WORK_ORDER_VERSION + 1, true), Err("work order does not match the request"));
    let mut operator = request();
    operator.operation = Operation::Shutdown;
    assert_eq!(validate(&operator), Err("operator operation is not brokerable"));
    let mut other = request();
    other.operation = Operation::Stop { sandbox: "sandbox-a".to_owned() };
    assert_eq!(validate(&other), Err("operation does not match the work order"));
    let mut mismatch = request();
    mismatch.operation = Operation::Inspect { sandbox: "sandbox-b".to_owned() };
    assert_eq!(validate(&mismatch), Err("sandbox identity does not match the work order"));
}

#[test]
fn operations_tell_what_they_are_about() {
    assert_eq!(Operation::Ping.work_order_operation(), Some(WorkOrderOperation::Ping));
    assert_eq!(Operation::Shutdown.work_order_operation(), None);
    assert_eq!(request().operation.sandbox(), Some("sandbox-a"));
    assert_eq!(Operation::Ping.sandbox(), None);
    assert_eq!(Operation::Ping.timeout_ms(), None);
    assert!(Operation::Ping.topology().is_none());
    assert_eq!(Operation::digest(Ok(b"{}".to_vec())).unwrap(), identity(b"{}"));
    assert!(Operation::digest(Err("no encoding".to_owned())).is_err());
    assert!(valid_request_id("request-a"));
    assert!(!valid_request_id(""));
    assert!(!valid_request_id("a b"));
}

#[test]
fn a_response_succeeds_or_explains_itself() {
    let response = |ok: bool, error: Option<&str>| WorkloadResponse {
        schema_version: PROTOCOL_VERSION,
        request_id: "request-a".to_owned(),
        ok,
        result: None,
        error: error.map(str::to_owned),
    };
    assert!(response(false, Some("failed")).validate_for("request-a").is_ok());
    assert!(response(false, None).validate_for("request-a").is_err());
    assert!(response(true, Some("failed")).validate_for("request-a").is_err());
    assert!(response(false, Some("failed")).validate_for("request-b").is_err());
}

#[test]
fn runtime_errors_are_told_in_words() {
    let staging = ArtifactStaging::new("snapshot-a".to_owned(), "/staging".to_owned());
    assert_eq!(staging.snapshot_id(), "snapshot-a");
    assert_eq!(staging.directory(), "/staging");
    assert_eq!(RuntimeError::Core("odd".to_owned()).message(), "odd");
    assert_eq!(
        RuntimeError::Unsupported("pause".to_owned()).message(),
        "backend does not support pause"
    );
    assert_eq!(
        RuntimeError::Backend("odd".to_owned()).message(),
        "backend operation failed: odd"
    );
    let io = RuntimeError::ArtifactIo { path: "/a".to_owned(), source: "denied".to_owned() };
    assert_eq!(io.message(), "snapshot artifact operation failed for `/a`: denied");
}

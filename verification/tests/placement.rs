use sandboxd::oci::address::{IpAddress, SocketAddress};
use sandboxd::oci::model::{GuestProfileIdentity, SandboxPolicy, TopologyLock};
use sandboxd::placement::database::{
    check_authorities, check_client_identity, check_local_addresses, check_local_database,
    check_pem_file, check_pem_size, check_schema, database_addresses, database_hosts,
    loopback_address, migration_steps, read_authorities, read_chain, read_private_key, KeyEncoding,
    PemFile,
};
use sandboxd::placement::lease::{
    assign, begin_completion, begin_renewal, cancel, complete, expire, extend, fence, publication,
    renew, response_digest, revoke, Claim, PlacementRow,
};
use sandboxd::placement::model::{
    bounded_label, count_u32, duration_millis, to_i32, to_i64, to_u64, valid_pool_name,
    read_broker_address, CompletionOutcome, EnqueueOutcome, PlacementDatabaseTls, PlacementState,
    PlacementStoreConfig,
    PlacementSubmission, PlacementWorkerState, QueuedWork, WorkerRegistration,
};
use sandboxd::placement::pools::{
    begin_metrics, begin_reconcile, check_activation, check_scale_up, grown_target,
    judge_activation, latency_metrics, observe_pool, pool_usage, record_decision, Activation,
    PoolCounts, PoolRow,
};
use sandboxd::placement::queue::{
    advance_clock, assign_next, begin_assignment, begin_enqueue, capacity_class,
    check_tenant_policy, decide_enqueue, known_submission, new_request, next_candidate, next_epoch,
    request_id, validate_submission, Candidate, QueueFacts, TenantPolicy,
};
use sandboxd::placement::rows::{
    assignment_from_record, audit_epoch, audit_event_name, parse_placement_state,
    placement_state_name, record_from_row, AuditEvent, RowChecks, StoredPlacement,
};
use sandboxd::placement::schema::migration;
use sandboxd::placement::workers::{
    apply, check_drain_set, check_drained, check_ready, check_scan_limit, check_state_query,
    decide_drain, parse_worker_state, register, validate_worker, worker_state_name, WorkerEvent,
};
use sandboxd::placement::PlacementStoreError;
use sandboxd::protocol::{Operation, ResourceCeilings, WorkloadResponse, PROTOCOL_VERSION};
use sandboxd::table::Table;
use sandboxd::time::Duration;

const AUTHORITY: &str = "-----BEGIN CERTIFICATE-----
MIIBnTCCAUOgAwIBAgIUNuz6eDQNiBKZWBsELK/BP3Pd+bAwCgYIKoZIzj0EAwIw
IzEhMB8GA1UEAwwYcGxhY2VtZW50IHRlc3QgYXV0aG9yaXR5MCAXDTI2MTExNTAy
MjM1NVoYDzIxMjYxMDIyMDIyMzU1WjAjMSEwHwYDVQQDDBhwbGFjZW1lbnQgdGVz
dCBhdXRob3JpdHkwWTATBgcqhkjOPQIBBggqhkjOPQMBBwNCAASbmujTJbLn+56w
6uQTS9wd9wKcUB8kZ/tWkCdIUbNUrnJrQBMb+8rCOr9RcXts7JbNc6be/wzqy4jQ
NtHFAThRo1MwUTAdBgNVHQ4EFgQUKtpi+GnROxrpw1h8uvIMVWCzof0wHwYDVR0j
BBgwFoAUKtpi+GnROxrpw1h8uvIMVWCzof0wDwYDVR0TAQH/BAUwAwEB/zAKBggq
hkjOPQQDAgNIADBFAiBpXgwfVIJAU/WCEBGgTTqzHRWU0HPITrdPCGr7NCaQQAIh
ANoZXLT62KhFrQu9JgHZZUHV1ZqGzIqT+gGB0zvJLqpM
-----END CERTIFICATE-----
";

const BROKEN: &str = "-----BEGIN CERTIFICATE-----\nAAEC\n-----END CERTIFICATE-----\n";

fn reason<T>(result: Result<T, PlacementStoreError>) -> String {
    match result {
        Ok(_) => panic!("a refusal was expected"),
        Err(error) => error.message(),
    }
}

#[test]
fn insecure_database_connections_are_strictly_local() {
    assert!(check_local_database("host=127.0.0.1 user=test").is_ok());
    assert!(check_local_database("host=::1 user=test").is_ok());
    assert!(check_local_database("host=localhost user=test").is_ok());
    assert!(check_local_database("host=198.51.100.10 user=test").is_err());
    assert!(check_local_database("host=database.internal user=test").is_err());
}

#[test]
fn mtls_identity_must_be_configured_as_a_pair() {
    let tls = PlacementDatabaseTls {
        ca_certificate: "/does-not-matter".to_owned(),
        client_certificate: Some("/client.crt".to_owned()),
        client_private_key: None,
    };
    assert!(matches!(
        check_client_identity(&tls),
        Err(PlacementStoreError::Tls(message))
            if message.contains("must be configured together")
    ));
}

#[test]
fn the_hosts_of_a_connection_string_are_found() {
    let hosts = database_hosts("host=/run/postgresql,10.0.0.1 user=test").unwrap();
    assert_eq!(hosts, [None, Some("10.0.0.1".to_owned())]);
    assert!(check_local_database("host=/run/postgresql user=test").is_ok());
    assert!(check_local_database("host=/run/postgresql,10.0.0.1 user=test").is_err());
    assert!(matches!(
        database_hosts("host=localhost nonsense=1"),
        Err(PlacementStoreError::Database(_))
    ));
    assert!(loopback_address("127.255.0.1"));
    assert!(!loopback_address("::2"));
}

#[test]
fn the_addresses_of_a_connection_string_are_local_too() {
    let addresses = database_addresses("hostaddr=127.0.0.1,::1 user=test").unwrap();
    assert_eq!(addresses, ["127.0.0.1", "::1"]);
    assert!(check_local_addresses(&addresses).is_ok());
    assert!(check_local_database("hostaddr=127.0.0.1 user=test").is_ok());
    assert!(check_local_database("host=localhost hostaddr=::1 user=test").is_ok());
    for remote in [
        "hostaddr=198.51.100.10 user=test",
        "host=localhost hostaddr=198.51.100.10 user=test",
        "host=localhost,localhost hostaddr=127.0.0.1,198.51.100.10 user=test",
    ] {
        assert!(matches!(
            check_local_database(remote),
            Err(PlacementStoreError::Invalid(message))
                if message == "insecure placement database must use loopback or a Unix socket"
        ));
    }
    assert!(matches!(
        database_addresses("hostaddr=127.0.0 user=test"),
        Err(PlacementStoreError::Database(_))
    ));
}

#[test]
fn a_private_key_is_read_from_pem() {
    let key = |label: &str| {
        format!("-----BEGIN {label}-----\nAAEC\n-----END {label}-----\n").into_bytes()
    };
    assert_eq!(
        read_private_key(&key("PRIVATE KEY")).unwrap(),
        (KeyEncoding::Pkcs8, vec![0, 1, 2])
    );
    assert_eq!(read_private_key(&key("EC PRIVATE KEY")).unwrap().0, KeyEncoding::Sec1);
    assert_eq!(read_private_key(&key("RSA PRIVATE KEY")).unwrap().0, KeyEncoding::Pkcs1);
    assert!(reason(read_private_key(AUTHORITY.as_bytes())).contains("read client private key: "));
    assert!(reason(read_private_key(b"")).starts_with("placement database TLS: "));
}

fn socket(address: IpAddress, scope_id: u32, port: u16) -> SocketAddress {
    SocketAddress { address, scope_id, port }
}

#[test]
fn broker_addresses_are_read() {
    let local = 0xfe80_0000_0000_0000_0000_0000_0000_0001;
    for (text, expected) in [
        ("127.0.0.2:8081", socket(IpAddress::V4(0x7f00_0002), 0, 8_081)),
        ("127.0.0.2:008081", socket(IpAddress::V4(0x7f00_0002), 0, 8_081)),
        ("[::1]:65535", socket(IpAddress::V6(1), 0, 65_535)),
        ("[fe80::1%1]:8081", socket(IpAddress::V6(local), 1, 8_081)),
        ("[fe80::1%0]:8081", socket(IpAddress::V6(local), 0, 8_081)),
        ("[fe80::1%4294967295]:8081", socket(IpAddress::V6(local), u32::MAX, 8_081)),
        ("[::ffff:10.0.0.1%07]:1", socket(IpAddress::V6(0xffff_0a00_0001), 7, 1)),
    ] {
        assert_eq!(read_broker_address(text).unwrap(), expected, "{text}");
    }
    for wrong in [
        "", "127.0.0.2", "127.0.0.2:", "127.0.0.2:65536", "127.0.0.2:-1", "::1:80", "[::1]", "[::1]80",
        "[127.0.0.1]:80", "[::1", "host:80", "127.0.0.2:80 ", "[]:80", "[fe80::1%]:80", "[%1]:80",
        "[fe80::1%eth0]:80", "[fe80::1%4294967296]:80", "[fe80::1%1%1]:80", "[10.0.0.1%1]:80",
        "10.0.0.1%1:80", "[::1]:", "[::1]:+1",
    ] {
        assert_eq!(reason(read_broker_address(wrong)), "invalid broker address", "{wrong}");
    }
}

#[test]
fn certificates_are_read_from_pem() {
    let authorities = read_authorities(AUTHORITY.as_bytes()).expect("authority");
    assert_eq!(authorities.len(), 1);
    assert_eq!(&authorities[0][..2], [0x30, 0x82]);
    assert_eq!(read_chain(AUTHORITY.as_bytes()).expect("chain"), authorities);
    let both = format!("{AUTHORITY}{BROKEN}");
    assert!(reason(read_authorities(both.as_bytes())).contains("contains an invalid certificate"));
    assert!(reason(read_authorities(b"")).contains("CA bundle is empty"));
    assert_eq!(read_chain(both.as_bytes()).expect("chain").len(), 2);
    assert!(reason(read_chain(b"")).contains("client certificate bundle is empty"));
    let cut = b"-----BEGIN CERTIFICATE-----\nAAEC\n";
    assert!(reason(read_authorities(cut)).contains("read CA certificate: "));
    assert!(reason(read_chain(cut)).contains("read client certificate: "));
    assert!(check_authorities((1, 0)).is_ok());
    assert!(check_authorities((1, 1)).is_err());
}

#[test]
fn keys_are_read_from_private_files() {
    let file = PemFile { is_file: true, uid: 1_000, gid: 1_000, mode: 0o100_600 };
    assert!(check_pem_file("/key", true, file, 1_000, 1_000).is_ok());
    let shared = PemFile { mode: 0o100_640, ..file };
    assert!(check_pem_file("/key", true, shared, 1_000, 1_000).is_err());
    assert!(check_pem_file("/key", false, shared, 1_000, 1_000).is_ok());
    let mounted = PemFile { uid: 0, ..shared };
    assert!(check_pem_file("/key", true, mounted, 1_000, 1_000).is_ok());
    assert!(check_pem_file("/key", true, mounted, 1_000, 7).is_err());
    let directory = PemFile { is_file: false, ..file };
    assert!(reason(check_pem_file("/key", false, directory, 1_000, 1_000))
        .ends_with("`/key` must be a regular non-symlink"));
    assert!(check_pem_size("/key", 1).is_ok());
    assert!(check_pem_size("/key", 0).is_err());
    assert!(check_pem_size("/key", 1_048_577).is_err());
}

#[test]
fn a_database_is_brought_to_the_current_schema() {
    assert_eq!(migration_steps(1).unwrap(), [2, 3, 4, 5]);
    assert!(migration_steps(5).unwrap().is_empty());
    assert_eq!(
        reason(migration_steps(-6)),
        "placement database schema version -6 is not supported"
    );
    assert!(migration_steps(6).is_err());
    assert!(check_schema(5).is_ok());
    assert!(check_schema(4).is_err());
}

fn row() -> PlacementRow {
    PlacementRow {
        state: PlacementState::Queued,
        worker_id: None,
        assignment_epoch: None,
        lease_expires_unix_ms: None,
        deadline_unix_ms: 1_000,
        assigned_unix_ms: None,
        first_output_unix_ms: None,
        terminal_unix_ms: None,
        result_digest: None,
    }
}

fn claim(epoch: u64) -> Claim {
    Claim { worker_id: "worker-a".to_owned(), epoch }
}

fn result(digit: &str) -> String {
    format!("sha256:{}", digit.repeat(64))
}

/// Completes an inspection with a digest alone.
fn finish(
    row: Option<PlacementRow>,
    claim: &Claim,
    digest: &str,
    now: i64,
) -> Result<(PlacementRow, CompletionOutcome), PlacementStoreError> {
    complete(row, claim, &inspect(), digest, None, now)
}

fn create() -> Operation {
    let topology = TopologyLock {
        schema_version: 1,
        topology_digest: result("0"),
        name: "service".to_owned(),
        services: Table::new(),
        networks: Table::new(),
        volumes: Table::new(),
        startup_order: Vec::new(),
        policy: SandboxPolicy::standard(GuestProfileIdentity { name: "strict".to_owned() }),
    };
    Operation::Create { topology, sandbox: "sandbox-a".to_owned(), timeout_ms: 1_000 }
}

fn response(ok: bool) -> WorkloadResponse {
    WorkloadResponse {
        schema_version: PROTOCOL_VERSION,
        request_id: "request".to_owned(),
        ok,
        result: None,
        error: if ok { None } else { Some("failed".to_owned()) },
    }
}

#[test]
fn a_created_sandbox_is_served_until_it_is_cancelled() {
    let claim = Claim { worker_id: "worker-service".to_owned(), epoch: 1 };
    let held = || assign(row(), "worker-service", 1, 451, 401);
    let answered = |held, answer: &WorkloadResponse| {
        complete(Some(held), &claim, &create(), &result("a"), Some(answer), 402).unwrap()
    };
    let (serving, outcome) = answered(held(), &response(true));
    assert_eq!(outcome, CompletionOutcome::Published);
    assert_eq!(serving.state, PlacementState::Serving);
    assert_eq!(serving.first_output_unix_ms, Some(402));
    assert_eq!(serving.terminal_unix_ms, None);
    assert_eq!(publication(&serving), (AuditEvent::Serving, None));
    let (serving, outcome) = answered(serving, &response(true));
    assert_eq!(outcome, CompletionOutcome::AlreadyPublished);

    let serving = extend(serving, "worker-other", 490, 440);
    assert_eq!(serving.lease_expires_unix_ms, Some(451));
    let serving = extend(serving, "worker-service", 490, 440);
    assert_eq!(serving.lease_expires_unix_ms, Some(490));
    let (serving, fenced) = fence(serving, 452);
    assert!(!fenced);
    let renewal = begin_renewal(&PlacementStoreConfig::default(), &claim, 453).unwrap();
    let (serving, expires) = renew(Some(serving), &claim, renewal).unwrap();
    assert_eq!(expires, 30_453);
    let (cancelled, changed) = cancel(serving, 453);
    assert!(changed);
    assert_eq!(cancelled.state, PlacementState::Cancelled);
    assert_eq!(cancelled.terminal_unix_ms, Some(453));

    let (failed, _) = answered(held(), &response(false));
    assert_eq!(failed.state, PlacementState::Completed);
    assert_eq!(publication(&failed), (AuditEvent::Completed, Some(WorkerEvent::Consume)));
    let (lost, fenced) = fence(answered(held(), &response(true)).0, 451);
    assert!(fenced);
    assert_eq!(lost.state, PlacementState::Queued);
    assert_eq!(lost.result_digest, None);
    let shut_out = revoke(answered(held(), &response(true)).0, 1_000);
    assert_eq!(shut_out.state, PlacementState::Expired);
}

#[test]
fn the_first_result_wins() {
    let held = assign(row(), "worker-a", 1, 500, 100);
    let (done, outcome) = finish(Some(held), &claim(1), &result("a"), 200).unwrap();
    assert_eq!(outcome, CompletionOutcome::Published);
    assert_eq!(done.state, PlacementState::Completed);
    let (again, outcome) = finish(Some(done), &claim(1), &result("a"), 300).unwrap();
    assert_eq!(outcome, CompletionOutcome::AlreadyPublished);
    assert!(matches!(
        finish(Some(again), &claim(1), &result("b"), 300),
        Err(PlacementStoreError::CompletionConflict)
    ));
}

#[test]
fn a_fenced_worker_publishes_nothing() {
    let held = assign(row(), "worker-a", 1, 500, 100);
    let (held, requeued) = fence(held, 499);
    assert!(!requeued);
    let (waiting, requeued) = fence(held, 500);
    assert!(requeued);
    assert_eq!(waiting.state, PlacementState::Queued);
    let again = assign(waiting, "worker-b", 2, 900, 550);
    assert!(matches!(
        finish(Some(again), &claim(1), &result("a"), 600),
        Err(PlacementStoreError::StaleAssignment)
    ));
    let (over, _) = fence(assign(row(), "worker-a", 1, 900, 100), 1_000);
    assert_eq!(over.state, PlacementState::Expired);
}

#[test]
fn a_lease_is_renewed_while_it_runs() {
    let config = PlacementStoreConfig::default();
    let renewal = begin_renewal(&config, &claim(1), 200).unwrap();
    let held = assign(row(), "worker-a", 1, 500, 100);
    let (held, expires) = renew(Some(held), &claim(1), renewal).unwrap();
    assert_eq!(expires, 30_200);
    assert_eq!(held.lease_expires_unix_ms, Some(30_200));
    let late = begin_renewal(&config, &claim(1), 40_000).unwrap();
    assert!(matches!(
        renew(Some(held), &claim(1), late),
        Err(PlacementStoreError::StaleAssignment)
    ));
    assert!(begin_completion("bad", 1).is_err());
    assert_eq!(begin_completion(&result("a"), 7).unwrap(), 7);
}

#[test]
fn waiting_work_is_cancelled_or_expires() {
    let (cancelled, changed) = cancel(row(), 50);
    assert!(changed);
    assert_eq!(cancelled.state, PlacementState::Cancelled);
    let (same, changed) = cancel(cancelled, 60);
    assert!(!changed);
    assert_eq!(same.state, PlacementState::Cancelled);
    let (early, changed) = expire(row(), 999);
    assert!(!changed);
    assert_eq!(early.state, PlacementState::Queued);
    let (late, changed) = expire(row(), 1_000);
    assert!(changed);
    assert_eq!(late.state, PlacementState::Expired);
}

fn submission(operation: Operation) -> PlacementSubmission {
    PlacementSubmission {
        work: QueuedWork {
            tenant_id: "tenant-a".to_owned(),
            workspace_id: "workspace-a".to_owned(),
            sandbox_id: "sandbox-a".to_owned(),
            idempotency_key: "key-1".to_owned(),
            deadline_unix_ms: 1_000,
        },
        subject_id: "subject-a".to_owned(),
        pool_name: "pool-a".to_owned(),
        topology: "topology".to_owned(),
        resource_shape: "small".to_owned(),
        compatibility_cohort: "cohort".to_owned(),
        operation,
    }
}

fn inspect() -> Operation {
    Operation::Inspect { sandbox: "sandbox-a".to_owned() }
}

#[test]
fn submissions_are_checked() {
    assert!(validate_submission(&submission(inspect()), Ok(10), true, 999).is_ok());
    assert!(validate_submission(&submission(inspect()), Ok(10), true, 1_000).is_err());
    assert!(validate_submission(&submission(inspect()), Ok(10), false, 999).is_err());
    assert!(validate_submission(&submission(inspect()), Ok(524_289), true, 999).is_err());
    assert_eq!(
        reason(validate_submission(&submission(inspect()), Err("no encoding".to_owned()), true, 1)),
        "no encoding"
    );
    assert!(validate_submission(&submission(Operation::Shutdown), Ok(10), true, 999).is_err());
    let other = Operation::Inspect { sandbox: "sandbox-b".to_owned() };
    assert!(validate_submission(&submission(other), Ok(10), true, 999).is_err());
}

#[test]
fn requests_are_identified_by_tenant_and_key() {
    assert_eq!(request_id("tenant-a", "key").len(), 64);
    assert_ne!(request_id("tenant-a", "key"), request_id("tenant-b", "key"));
    assert_ne!(request_id("tenant-a", "key"), request_id("tenant-a", "other"));
    assert_eq!(request_id("tenant-a", "key"), request_id("tenant-a", "key"));
}

#[test]
fn queues_are_bounded_and_fair() {
    let config = PlacementStoreConfig::default();
    let policy = TenantPolicy {
        weight: 4,
        concurrency_limit: 10,
        queue_limit: 100,
        virtual_finish: 7,
    };
    let facts = QueueFacts { queued: 0, tenant_queued: 0, conflict: false, virtual_time: 50 };
    assert_eq!(decide_enqueue(&config, &policy, &facts).unwrap(), 2_550);
    let full = QueueFacts { queued: 10_000, ..facts };
    assert!(matches!(
        decide_enqueue(&config, &policy, &full),
        Err(PlacementStoreError::GlobalQueueFull)
    ));
    let full = QueueFacts { tenant_queued: 100, ..facts };
    assert!(matches!(
        decide_enqueue(&config, &policy, &full),
        Err(PlacementStoreError::TenantQueueFull)
    ));
    let taken = QueueFacts { conflict: true, ..facts };
    assert!(matches!(
        decide_enqueue(&config, &policy, &taken),
        Err(PlacementStoreError::SandboxConflict)
    ));
    let late = QueueFacts { virtual_time: i64::MAX, ..facts };
    assert_eq!(reason(decide_enqueue(&config, &policy, &late)), "fair queue score overflow");
    assert!(check_tenant_policy(&config, 4, 10, 100).is_ok());
    assert!(check_tenant_policy(&config, 0, 10, 100).is_err());
    assert_eq!(advance_clock(5, 9), 9);
    assert_eq!(next_epoch(None), Some(1));
    assert_eq!(next_epoch(Some(4)), Some(5));
    assert_eq!(next_epoch(Some(i64::MAX)), None);
    assert_ne!(capacity_class(true), capacity_class(false));
}

fn candidate(request: &str, fair_finish: i64, created: i64) -> Candidate {
    Candidate {
        request_id: request.to_owned(),
        fair_finish,
        created_unix_ms: created,
        pool_name: "pool-a".to_owned(),
        topology: "topology".to_owned(),
        resource_shape: "small".to_owned(),
        compatibility_cohort: "cohort".to_owned(),
        tenant_active: 0,
        tenant_limit: 1,
        previous_epoch: None,
        row: row(),
    }
}

#[test]
fn the_fairest_work_is_served_first() {
    let config = PlacementStoreConfig::default();
    let offer = register(None, &registration(0x0a00_0001), 100).unwrap();
    let mut waiting = vec![candidate("b", 10, 5), candidate("a", 10, 5), candidate("c", 10, 4)];
    assert_eq!(next_candidate(&config, 0, &waiting, &offer, 100), Some(2));
    waiting[2].tenant_active = 1;
    assert_eq!(next_candidate(&config, 0, &waiting, &offer, 100), Some(1));
    assert_eq!(next_candidate(&config, 1_000, &waiting, &offer, 100), None);
    assert_eq!(next_candidate(&config, 0, &waiting, &offer, 1_000), None);
}

#[test]
fn a_worker_takes_the_next_work_as_a_whole() {
    let config = PlacementStoreConfig::default();
    let times = begin_assignment(&config, 120).unwrap();
    assert_eq!((times.now, times.expires), (120, 30_120));
    let worker = || register(None, &registration(0x0a00_0001), 110).unwrap();
    let again = Candidate { previous_epoch: Some(4), ..candidate("a", 10, 5) };
    let waiting = vec![candidate("b", 20, 5), again];
    let taken = assign_next(&config, times, "worker-a", worker(), 0, waiting, 15).unwrap().unwrap();
    assert_eq!((taken.at, taken.request_id.as_str(), taken.epoch), (1, "a", 5));
    assert_eq!(taken.row.state, PlacementState::Assigned);
    assert_eq!(taken.row.worker_id.as_deref(), Some("worker-a"));
    assert_eq!(taken.row.assignment_epoch, Some(5));
    assert_eq!(taken.row.lease_expires_unix_ms, Some(30_120));
    assert_eq!(taken.worker.state, PlacementWorkerState::Leased);
    assert_eq!(taken.virtual_time, 15);
    assert!(assign_next(&config, times, "worker-a", worker(), 0, Vec::new(), 15).unwrap().is_none());
    let full = vec![candidate("b", 20, 5)];
    assert!(assign_next(&config, times, "worker-a", worker(), 1_000, full, 15).unwrap().is_none());
    assert!(matches!(
        assign_next(&config, times, "worker-a", taken.worker, 0, Vec::new(), 15),
        Err(PlacementStoreError::WorkerUnavailable)
    ));
    let last = Candidate { previous_epoch: Some(i64::MAX), ..candidate("a", 10, 5) };
    assert_eq!(
        reason(assign_next(&config, times, "worker-a", worker(), 0, vec![last], 15)),
        "assignment epoch is exhausted"
    );
    assert!(begin_assignment(&config, u64::MAX).is_err());
}

#[test]
fn a_repeated_submission_is_known() {
    let submitted = submission(inspect());
    assert_eq!(begin_enqueue(&submitted, Ok(10), true, 999).unwrap(), (999, 1_000));
    assert!(begin_enqueue(&submitted, Ok(10), true, 1_000).is_err());
    let mut endless = submission(inspect());
    endless.work.deadline_unix_ms = u64::MAX;
    assert_eq!(reason(begin_enqueue(&endless, Ok(10), true, 1)), "timestamp is too large");
    let new = new_request(&submitted, "{}", 999, 1_000, 100, true);
    assert_eq!(new.request_id, request_id("tenant-a", "key-1"));
    assert_eq!(new.row.state, PlacementState::Queued);
    assert_eq!(new.row.deadline_unix_ms, 1_000);
    assert_eq!((new.fair_finish, new.capacity_class), (100, "warm"));
    assert!(known_submission(None).is_none());
    let kept = StoredPlacement {
        request_id: new.request_id,
        idempotency_key: new.idempotency_key,
        tenant_id: new.tenant_id,
        workspace_id: new.workspace_id,
        sandbox_id: new.sandbox_id,
        subject_id: new.subject_id,
        pool_name: new.pool_name,
        state: placement_state_name(new.row.state).to_owned(),
        worker_id: None,
        assignment_epoch: None,
        lease_expires_unix_ms: None,
        result_digest: None,
    };
    let rules = RowChecks {
        worker: Ok(()),
        epoch: Ok(()),
        tenant: Ok(()),
        workspace: Ok(()),
        sandbox: Ok(()),
        subject: Ok(()),
    };
    match known_submission(Some(record_from_row(kept, rules, Ok(None)).unwrap())) {
        Some(EnqueueOutcome::Existing(record)) => {
            assert_eq!(record.request_id, request_id("tenant-a", "key-1"));
        }
        other => panic!("{other:?}"),
    }
}

fn ceilings() -> ResourceCeilings {
    ResourceCeilings {
        allowed_guest_profiles: vec!["strict".to_owned()],
        maximum_services: 1,
        maximum_timeout_ms: 1_000,
        memory_bytes_per_service: 1024,
        cpu_per_service_millis: 100,
        pids_per_service: 16,
        tmpfs_bytes: 1024,
        writable_root_bytes_per_service: 1024,
        maximum_volumes: 1,
        maximum_volume_bytes: 1024,
        maximum_output_bytes: 1024,
    }
}

fn registration(address: u32) -> WorkerRegistration {
    WorkerRegistration {
        worker_id: "worker-a".to_owned(),
        pool_name: "pool-a".to_owned(),
        topology: "topology".to_owned(),
        resource_shape: "small".to_owned(),
        compatibility_cohort: "cohort".to_owned(),
        broker_address: socket(IpAddress::V4(address), 0, 8_081),
        resource_ceilings: ceilings(),
    }
}

#[test]
fn workers_are_used_once() {
    assert!(validate_worker(&registration(0x0a00_0001), 8_081, true).is_ok());
    assert!(validate_worker(&registration(0x0a00_0001), 8_082, true).is_err());
    assert!(validate_worker(&registration(0), 8_081, true).is_err());
    assert!(validate_worker(&registration(0xe000_0001), 8_081, true).is_err());
    let clean = register(None, &registration(0x0a00_0001), 100).unwrap();
    assert_eq!(clean.state, PlacementWorkerState::Clean);
    assert!(check_ready(Some(&clean), 50).is_ok());
    assert!(check_ready(Some(&clean), 200).is_err());
    assert!(check_ready(None, 50).is_err());
    let leased = apply(Some(clean), WorkerEvent::Lease).unwrap();
    assert_eq!(leased.state, PlacementWorkerState::Leased);
    let used = apply(Some(leased), WorkerEvent::Consume).unwrap();
    assert_eq!(used.state, PlacementWorkerState::Consumed);
    assert!(matches!(
        apply(Some(used), WorkerEvent::Lease),
        Err(PlacementStoreError::WorkerUnavailable)
    ));
    assert!(apply(None, WorkerEvent::Drain).is_err());
}

#[test]
fn only_clean_workers_are_drained_together() {
    let names = |list: &[&str]| list.iter().map(|name| (*name).to_owned()).collect::<Vec<_>>();
    assert_eq!(check_drain_set(&names(&["b", "a"])).unwrap(), ["a", "b"]);
    assert_eq!(
        reason(check_drain_set(&names(&["a", "a"]))),
        "worker drain set contains duplicates"
    );
    assert_eq!(reason(check_drain_set(&names(&[]))), "worker drain set is invalid");
    let clean = vec![PlacementWorkerState::Clean, PlacementWorkerState::Clean];
    assert!(decide_drain(2, &clean));
    assert!(!decide_drain(3, &clean));
    assert!(!decide_drain(1, &vec![PlacementWorkerState::Leased]));
    assert!(check_drained(2, 2).is_ok());
    assert!(check_drained(1, 2).is_err());
    assert!(check_state_query(0).is_err());
    assert!(check_scan_limit(1_024).is_ok());
    assert!(check_scan_limit(1_025).is_err());
    for state in [
        PlacementWorkerState::Clean,
        PlacementWorkerState::Leased,
        PlacementWorkerState::Draining,
        PlacementWorkerState::Quarantined,
        PlacementWorkerState::Consumed,
    ] {
        assert_eq!(parse_worker_state(worker_state_name(state)).unwrap(), state);
    }
    assert_eq!(reason(parse_worker_state("odd")), "unknown worker state `odd`");
}

#[test]
fn pools_are_observed() {
    let config = PlacementStoreConfig::default();
    assert_eq!(
        begin_reconcile(&config, "pool-a", Ok(()), 100_000).unwrap(),
        (100_000, 70_000)
    );
    assert_eq!(
        reason(begin_reconcile(&config, "pool-a", Err("no policy".to_owned()), 1)),
        "no policy"
    );
    assert!(begin_reconcile(&config, "", Ok(()), 1).is_err());
    let counts = PoolCounts { clean: 2, leased: 1, draining: 0, assigned: 0, queued: 0 };
    let idle = observe_pool(counts, None, 3, 10, 500).unwrap();
    assert_eq!(idle.idle_since_unix_ms, Some(500));
    let still = observe_pool(counts, Some(500), 3, 10, 900).unwrap();
    assert_eq!(still.idle_since_unix_ms, Some(500));
    let busy = observe_pool(PoolCounts { queued: 1, ..counts }, Some(500), 3, 10, 900).unwrap();
    assert_eq!(busy.idle_since_unix_ms, None);
    let wrong = PoolCounts { assigned: 2, ..counts };
    assert_eq!(
        reason(observe_pool(wrong, None, 3, 10, 900)),
        "assigned demand exceeds live leased workers"
    );
    assert!(observe_pool(PoolCounts { clean: -1, ..counts }, None, 3, 10, 900).is_err());
    assert_eq!(record_decision(&idle, 7).unwrap(), (7, Some(500)));
    assert!(record_decision(&idle, u32::MAX).is_err());
}

#[test]
fn activations_are_judged() {
    assert_eq!(check_scale_up("pool-a", 3, 10).unwrap(), (3, 10));
    assert!(check_scale_up("pool-a", 0, 10).is_err());
    assert_eq!(grown_target(Some(5), 3), 5);
    assert_eq!(grown_target(None, 3), 3);
    assert_eq!(check_activation("pool-a", 2, 1, 9).unwrap(), (2, 1, 9));
    assert_eq!(
        reason(check_activation("pool-a", 2, u32::MAX, 9)),
        "ready workers exceed PostgreSQL integer"
    );
    assert_eq!(judge_activation(3, 5, 3), Activation::Ready);
    assert_eq!(judge_activation(3, 2, 1), Activation::Cancelled);
    assert_eq!(judge_activation(3, 4, 1), Activation::Pending);
}

#[test]
fn metrics_are_asked_for_distinct_pools() {
    let config = PlacementStoreConfig::default();
    let names = |list: &[&str]| list.iter().map(|name| (*name).to_owned()).collect::<Vec<_>>();
    let hour = Duration::from_secs(3_600);
    let query = begin_metrics(&config, &names(&["b", "a"]), 10_000_000, hour).unwrap();
    assert_eq!(query.pool_names, ["a", "b"]);
    assert_eq!(query.cutoff, 6_400_000);
    assert_eq!(query.heartbeat_cutoff, 9_970_000);
    assert_eq!(
        reason(begin_metrics(&config, &names(&["a", "a"]), 1, hour)),
        "autoscale metrics pools contain duplicates"
    );
    assert!(begin_metrics(&config, &names(&[]), 1, hour).is_err());
    assert!(begin_metrics(&config, &names(&["a"]), 1, Duration::from_secs(0)).is_err());
    let row = PoolRow { queued: 2, active: 1, clean: 0, leased: 3, draining: 0, desired: 4 };
    let usage = pool_usage(row).unwrap();
    assert_eq!(usage.routable_workers, 3);
    assert!(usage.saturated);
    assert!(pool_usage(PoolRow { desired: -1, ..row }).is_err());
    let told = latency_metrics("a".to_owned(), "queue".to_owned(), 3, 1, 2, 4).unwrap();
    assert_eq!((told.samples, told.p50_milliseconds, told.p99_milliseconds), (3, 1, 4));
    assert!(latency_metrics("a".to_owned(), "queue".to_owned(), 3, 1, -2, 4).is_err());
}

fn stored(state: &str) -> StoredPlacement {
    StoredPlacement {
        request_id: "request".to_owned(),
        idempotency_key: "key".to_owned(),
        tenant_id: "tenant-a".to_owned(),
        workspace_id: "workspace-a".to_owned(),
        sandbox_id: "sandbox-a".to_owned(),
        subject_id: "subject-a".to_owned(),
        pool_name: "pool-a".to_owned(),
        state: state.to_owned(),
        worker_id: Some("worker-a".to_owned()),
        assignment_epoch: Some(3),
        lease_expires_unix_ms: Some(500),
        result_digest: None,
    }
}

fn rules() -> RowChecks {
    RowChecks {
        worker: Ok(()),
        epoch: Ok(()),
        tenant: Ok(()),
        workspace: Ok(()),
        sandbox: Ok(()),
        subject: Ok(()),
    }
}

#[test]
fn rows_become_records_and_assignments() {
    let record = record_from_row(stored("assigned"), rules(), Ok(None)).unwrap();
    assert_eq!(record.state, PlacementState::Assigned);
    assert_eq!(audit_epoch(&record).unwrap(), Some(3));
    let address = socket(IpAddress::V4(0x0a00_0001), 0, 8_081);
    let assignment = assignment_from_record(record, address, ceilings(), inspect()).unwrap();
    assert_eq!(assignment.worker_id, "worker-a");
    assert_eq!(assignment.epoch, 3);
    assert_eq!(assignment.lease_expires_unix_ms, 500);

    assert_eq!(
        reason(record_from_row(stored("odd"), rules(), Ok(None))),
        "unknown placement state `odd`"
    );
    let mut negative = stored("queued");
    negative.assignment_epoch = Some(-1);
    assert_eq!(reason(record_from_row(negative, rules(), Ok(None))), "negative assignment epoch");
    let mut negative = stored("queued");
    negative.lease_expires_unix_ms = Some(-1);
    assert_eq!(reason(record_from_row(negative, rules(), Ok(None))), "negative lease expiration");
    let refused = RowChecks { tenant: Err("bad tenant".to_owned()), ..rules() };
    assert_eq!(reason(record_from_row(stored("queued"), refused, Ok(None))), "bad tenant");
    assert_eq!(
        reason(record_from_row(stored("queued"), rules(), Err("bad response".to_owned()))),
        "bad response"
    );
    let mut unassigned = stored("queued");
    unassigned.worker_id = None;
    let record = record_from_row(unassigned, rules(), Ok(None)).unwrap();
    assert_eq!(
        reason(assignment_from_record(record, address, ceilings(), inspect())),
        "assignment has no worker"
    );
    for state in [
        PlacementState::Queued,
        PlacementState::Assigned,
        PlacementState::Completed,
        PlacementState::Cancelled,
        PlacementState::Expired,
    ] {
        assert_eq!(parse_placement_state(placement_state_name(state)).unwrap(), state);
    }
    assert_eq!(audit_event_name(AuditEvent::LeaseExpired), "lease_expired");
}

#[test]
fn responses_are_bound_to_their_request() {
    let response = WorkloadResponse {
        schema_version: PROTOCOL_VERSION,
        request_id: "request-a".to_owned(),
        ok: true,
        result: None,
        error: None,
    };
    let digest = response_digest(&response, "request-a", Ok("{}".to_owned()));
    let other = response_digest(&response, "request-b", Ok("{}".to_owned()));
    assert!(other.is_err());
    let large = response_digest(&response, "request-a", Ok("x".repeat(4_194_305)));
    assert!(large.is_err());
    match digest {
        Ok(digest) => assert_eq!(
            digest,
            "sha256:44136fa355b3678a1146ad16f7e8649e94fb4fc21fe77e8310c060f61caaff8a"
        ),
        Err(error) => panic!("{}", error.message()),
    }
}

#[test]
fn numbers_fit_the_database() {
    assert_eq!(to_i64(5).unwrap(), 5);
    assert_eq!(reason(to_i64(u64::MAX)), "timestamp is too large");
    assert_eq!(reason(to_u64(-1)), "timestamp is negative");
    assert_eq!(reason(count_u32(-1)), "database count exceeds u32");
    assert_eq!(reason(to_i32(u32::MAX, "too many")), "too many");
    assert_eq!(duration_millis(Duration::from_secs(2)).unwrap(), 2_000);
    assert!(valid_pool_name("pool-a"));
    assert!(!valid_pool_name("pool a"));
    assert!(bounded_label("label"));
    assert!(!bounded_label(""));
}

#[test]
fn settings_are_bounded() {
    let config = PlacementStoreConfig::default();
    assert!(config.validate().is_ok());
    assert!(PlacementStoreConfig { broker_port: 0, ..config }.validate().is_err());
    assert!(PlacementStoreConfig { global_queue_limit: 0, ..config }.validate().is_err());
    assert!(PlacementStoreConfig { default_tenant_queue_limit: 10_001, ..config }
        .validate()
        .is_err());
    assert!(PlacementStoreConfig { lease_lifetime: Duration::from_secs(301), ..config }
        .validate()
        .is_err());
    for (error, told) in [
        (PlacementStoreError::Database("x".to_owned()), "placement database: x"),
        (PlacementStoreError::Tls("x".to_owned()), "placement database TLS: x"),
        (PlacementStoreError::WorkerUnavailable, "worker is unavailable or incompatible"),
    ] {
        assert_eq!(error.message(), told);
    }
}

#[test]
fn each_migration_has_its_statements() {
    for step in migration_steps(1).unwrap() {
        let text = migration(step).expect("statements");
        assert!(text.contains(&format!("SET version = {step} WHERE singleton")));
    }
    assert!(migration(1).expect("statements").contains("CREATE SCHEMA IF NOT EXISTS"));
    assert!(migration(0).is_none());
    assert!(migration(6).is_none());
}

#[test]
fn work_is_taken_back_from_a_worker_that_is_shut_out() {
    let held = || assign(row(), "worker-a", 1, 500, 100);
    let waiting = revoke(held(), 200);
    assert_eq!(waiting.state, PlacementState::Queued);
    assert_eq!(waiting.worker_id, None);
    assert_eq!(waiting.assignment_epoch, None);
    let over = revoke(held(), 1_000);
    assert_eq!(over.state, PlacementState::Expired);
    assert_eq!(over.terminal_unix_ms, Some(1_000));
    assert_eq!(revoke(row(), 200).state, PlacementState::Queued);
}

/// A queue of two tenants, kept in memory.
struct Queue {
    config: PlacementStoreConfig,
    finish: [i64; 2],
    clock: i64,
    waiting: Vec<(usize, String, i64)>,
}

impl Queue {
    const WEIGHTS: [i16; 2] = [10, 100];

    fn enqueue(&mut self, tenant: usize, sandbox: &str) -> Result<(), PlacementStoreError> {
        let policy = TenantPolicy {
            weight: Self::WEIGHTS[tenant],
            concurrency_limit: 1,
            queue_limit: 3,
            virtual_finish: self.finish[tenant],
        };
        let facts = QueueFacts {
            queued: self.waiting.len() as i64,
            tenant_queued: self.waiting.iter().filter(|item| item.0 == tenant).count() as i64,
            conflict: self.waiting.iter().any(|item| item.0 == tenant && item.1 == sandbox),
            virtual_time: self.clock,
        };
        let finish = decide_enqueue(&self.config, &policy, &facts)?;
        self.finish[tenant] = finish;
        self.waiting.push((tenant, sandbox.to_owned(), finish));
        Ok(())
    }

    fn assign(&mut self, active: [i64; 2]) -> Option<(usize, String)> {
        let candidates = self
            .waiting
            .iter()
            .map(|item| Candidate {
                tenant_active: active[item.0],
                ..candidate(&item.1, item.2, 100)
            })
            .collect();
        let offer = register(None, &registration(0x0a00_0001), 100).unwrap();
        let at = next_candidate(&self.config, active[0] + active[1], &candidates, &offer, 120)?;
        let (tenant, sandbox, finish) = self.waiting.remove(at);
        self.clock = advance_clock(self.clock, finish);
        Some((tenant, sandbox))
    }
}

#[test]
fn tenants_share_a_bounded_queue_and_stale_workers_are_fenced() {
    let config = PlacementStoreConfig {
        global_queue_limit: 5,
        global_concurrency_limit: 2,
        default_tenant_queue_limit: 3,
        default_tenant_concurrency_limit: 1,
        lease_lifetime: Duration { nanoseconds: 50_000_000 },
        ..PlacementStoreConfig::default()
    };
    let config = config.validate().expect("configuration");
    let mut queue = Queue { config, finish: [0, 0], clock: 0, waiting: Vec::new() };
    queue.enqueue(0, "sandbox-a").expect("enqueue");
    assert!(matches!(
        queue.enqueue(0, "sandbox-a"),
        Err(PlacementStoreError::SandboxConflict)
    ));
    queue.enqueue(1, "sandbox-race").expect("enqueue");
    queue.enqueue(0, "sandbox-b").expect("bounded enqueue");
    queue.enqueue(0, "sandbox-c").expect("bounded enqueue");
    assert!(matches!(
        queue.enqueue(0, "sandbox-overflow"),
        Err(PlacementStoreError::TenantQueueFull)
    ));
    queue.enqueue(1, "sandbox-d").expect("fill global queue");
    assert!(matches!(
        queue.enqueue(1, "overflow"),
        Err(PlacementStoreError::GlobalQueueFull)
    ));

    assert_eq!(queue.assign([0, 0]), Some((1, "sandbox-race".to_owned())));
    assert_eq!(queue.assign([0, 1]), Some((0, "sandbox-a".to_owned())));
    assert_eq!(queue.assign([1, 1]), None);

    let now = to_i64(130).unwrap();
    let expires = config.lease_expiry(now).unwrap();
    assert_eq!(expires, 180);
    let first = next_epoch(None).unwrap();
    let held = assign(row(), "worker-b", first, expires, now);
    let (waiting, fenced) = fence(held, 181);
    assert!(fenced);
    let second = next_epoch(Some(first)).unwrap();
    assert!(second > first);
    let again = assign(waiting, "worker-c", second, config.lease_expiry(182).unwrap(), 182);
    let stale = Claim { worker_id: "worker-b".to_owned(), epoch: first as u64 };
    let winner = Claim { worker_id: "worker-c".to_owned(), epoch: second as u64 };
    let copy = || assign(row(), "worker-c", second, 232, 182);
    assert!(matches!(
        finish(Some(copy()), &stale, &result("c"), 183),
        Err(PlacementStoreError::StaleAssignment)
    ));
    let (done, outcome) = finish(Some(again), &winner, &result("d"), 183).unwrap();
    assert_eq!(outcome, CompletionOutcome::Published);
    assert_eq!(done.result_digest, Some(result("d")));
}

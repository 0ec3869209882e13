//! The statements of the placement database.
use vstd::prelude::*;

verus! {

/// Writes what became of a worker.
pub const STORE_WORKER: &'static str = "UPDATE workers SET state = $2, heartbeat_unix_ms = $3 WHERE worker_id = $1";

/// Writes what became of a request. A response is kept only along with its digest.
pub const STORE_REQUEST: &'static str = "UPDATE requests SET state = $2, worker_id = $3, assignment_epoch = $4,
    lease_expires_unix_ms = $5, assigned_unix_ms = $6, first_output_unix_ms = $7,
    terminal_unix_ms = $8, result_digest = $9,
    terminal_response = CASE WHEN $9::TEXT IS NULL THEN NULL ELSE terminal_response END
    WHERE request_id = $1";

/// Notes an event.
pub const APPEND_AUDIT: &'static str = "INSERT INTO audit (event_unix_ms, request_id, tenant_id, workspace_id, sandbox_id,
    subject_id, worker_id, assignment_epoch, event, result_digest)
    VALUES ($1,$2,$3,$4,$5,$6,$7,$8,$9,$10)";

/// The queued requests whose deadline has passed.
pub const OVERDUE_REQUESTS: &'static str = "SELECT * FROM requests WHERE state = 'queued' AND deadline_unix_ms <= $1 FOR UPDATE";

/// Writes the policy of a tenant.
pub const STORE_TENANT_POLICY: &'static str = "INSERT INTO tenant_policy
    (tenant_id, weight, concurrency_limit, queue_limit) VALUES ($1, $2, $3, $4)
    ON CONFLICT (tenant_id) DO UPDATE SET weight = EXCLUDED.weight,
    concurrency_limit = EXCLUDED.concurrency_limit, queue_limit = EXCLUDED.queue_limit";

/// Gives a tenant the default policy, if it has none.
pub const ENSURE_TENANT_POLICY: &'static str = "INSERT INTO tenant_policy (tenant_id, weight, concurrency_limit, queue_limit)
    VALUES ($1,1,$2,$3) ON CONFLICT (tenant_id) DO NOTHING";

/// The request of a tenant under an idempotency key.
pub const REQUEST_BY_KEY: &'static str = "SELECT * FROM requests WHERE tenant_id = $1 AND idempotency_key = $2";

/// The policy of a tenant, the clock, and how full the queue is.
pub const QUEUE_FACTS: &'static str = "SELECT p.*, c.virtual_time,
    (SELECT count(*) FROM requests WHERE state = 'queued') AS queued,
    (SELECT count(*) FROM requests WHERE tenant_id = $1 AND state = 'queued')
    AS tenant_queued,
    EXISTS (SELECT 1 FROM requests WHERE tenant_id = $1 AND workspace_id = $2
    AND sandbox_id = $3 AND state IN ('queued', 'assigned', 'serving', 'completed'))
    AS conflict
    FROM tenant_policy p, queue_clock c
    WHERE p.tenant_id = $1 AND c.singleton FOR UPDATE OF p, c";

/// Writes how far a tenant has got.
pub const STORE_VIRTUAL_FINISH: &'static str = "UPDATE tenant_policy SET virtual_finish = $2 WHERE tenant_id = $1";

/// Whether a clean worker would take a request at once.
pub const WARM_CAPACITY: &'static str = "SELECT EXISTS (SELECT 1 FROM workers
    WHERE pool_name = $1 AND topology = $2 AND resource_shape = $3
    AND compatibility_cohort = $4 AND state = 'clean' AND heartbeat_unix_ms > $5)";

/// Queues a request.
pub const INSERT_REQUEST: &'static str = "INSERT INTO requests
    (request_id, idempotency_key, tenant_id, workspace_id, sandbox_id, subject_id,
    pool_name, topology, resource_shape, compatibility_cohort, deadline_unix_ms,
    created_unix_ms, fair_finish, operation, state, capacity_class)
    VALUES ($1,$2,$3,$4,$5,$6,$7,$8,$9,$10,$11,$12,$13,$14,$15,$16) RETURNING *";

/// Writes the registration of a worker.
pub const STORE_REGISTRATION: &'static str = "INSERT INTO workers (worker_id, topology, resource_shape, compatibility_cohort,
    state, heartbeat_unix_ms, registered_unix_ms, broker_address, resource_ceilings,
    pool_name) VALUES ($1,$2,$3,$4,$5,$6,$6,$7,$8,$9)
    ON CONFLICT (worker_id) DO UPDATE SET
    heartbeat_unix_ms = EXCLUDED.heartbeat_unix_ms,
    broker_address = EXCLUDED.broker_address,
    resource_ceilings = EXCLUDED.resource_ceilings";

/// The states of the workers that are to be drained.
pub const WORKER_STATES_FOR_DRAIN: &'static str = "SELECT state FROM workers WHERE worker_id = ANY($1) FOR UPDATE";

/// Drains clean workers.
pub const DRAIN_WORKERS: &'static str = "UPDATE workers SET state = 'draining'
    WHERE worker_id = ANY($1) AND state = 'clean'";

/// The states of workers.
pub const WORKER_STATES: &'static str = "SELECT worker_id, state FROM workers
    WHERE worker_id = ANY($1) ORDER BY worker_id";

/// The requests that a worker holds.
pub const REQUESTS_OF_WORKER: &'static str = "SELECT * FROM requests WHERE worker_id = $1
    AND state IN ('assigned', 'serving') FOR UPDATE";

/// The requests whose sandboxes a worker keeps up.
pub const SERVICES_OF_WORKER: &'static str = "SELECT * FROM requests WHERE worker_id = $1
    AND state = 'serving' FOR UPDATE";

/// The clean workers, the first registered first.
pub const CLEAN_WORKERS: &'static str = "SELECT worker_id FROM workers
    WHERE state = 'clean' AND heartbeat_unix_ms > $1
    AND broker_address IS NOT NULL AND resource_ceilings IS NOT NULL
    ORDER BY registered_unix_ms, worker_id LIMIT $2";

/// How many workers and requests a pool has, by state.
pub const POOL_COUNTS: &'static str = "SELECT w.*, d.* FROM
    (SELECT count(*) FILTER (WHERE state = 'clean') AS clean,
    count(*) FILTER (WHERE state = 'leased') AS leased,
    count(*) FILTER (WHERE state = 'draining') AS draining
    FROM workers WHERE pool_name = $1 AND heartbeat_unix_ms > $2) w,
    (SELECT count(*) FILTER (WHERE state = 'queued') AS queued,
    count(*) FILTER (WHERE state IN ('assigned', 'serving')) AS assigned
    FROM requests WHERE pool_name = $1) d";

/// Since when a pool is idle.
pub const IDLE_TIME: &'static str = "SELECT idle_since_unix_ms FROM autoscale_state WHERE pool_name = $1 FOR UPDATE";

/// Writes what was decided of a pool.
pub const STORE_DECISION: &'static str = "INSERT INTO autoscale_state
    (pool_name, idle_since_unix_ms, desired_workers, updated_unix_ms)
    VALUES ($1, $2, $3, $4) ON CONFLICT (pool_name) DO UPDATE SET
    idle_since_unix_ms = EXCLUDED.idle_since_unix_ms,
    desired_workers = EXCLUDED.desired_workers,
    updated_unix_ms = EXCLUDED.updated_unix_ms";

/// The target of the activation that is under way.
pub const PENDING_TARGET: &'static str = "SELECT target_workers FROM pool_activations WHERE pool_name = $1
    AND ready_unix_ms IS NULL AND cancelled_unix_ms IS NULL FOR UPDATE";

/// Raises the target of the activation that is under way.
pub const GROW_TARGET: &'static str = "UPDATE pool_activations SET target_workers = $2
    WHERE pool_name = $1 AND ready_unix_ms IS NULL AND cancelled_unix_ms IS NULL";

/// Begins an activation.
pub const INSERT_ACTIVATION: &'static str = "INSERT INTO pool_activations
    (pool_name, requested_unix_ms, target_workers) VALUES ($1, $2, $3)";

/// Forgets activations that ended long ago.
pub const TRIM_ACTIVATIONS: &'static str = "DELETE FROM pool_activations WHERE sequence IN (
    SELECT sequence FROM pool_activations WHERE pool_name = $1
    AND (ready_unix_ms IS NOT NULL OR cancelled_unix_ms IS NOT NULL)
    ORDER BY sequence DESC OFFSET 10000)";

/// The activations that are under way.
pub const PENDING_ACTIVATIONS: &'static str = "SELECT sequence, target_workers FROM pool_activations
    WHERE pool_name = $1 AND ready_unix_ms IS NULL AND cancelled_unix_ms IS NULL
    FOR UPDATE";

/// Ends an activation that got ready.
pub const ACTIVATION_READY: &'static str = "UPDATE pool_activations SET ready_unix_ms = $2
    WHERE sequence = $1";

/// Ends an activation that is not wanted any more.
pub const ACTIVATION_CANCELLED: &'static str = "UPDATE pool_activations
    SET cancelled_unix_ms = $2 WHERE sequence = $1";

/// How pools are used.
pub const POOL_METRICS: &'static str = "WITH selected(pool_name) AS (SELECT unnest($1::text[])),
    w AS (SELECT pool_name,
    count(*) FILTER (WHERE state = 'clean') AS clean,
    count(*) FILTER (WHERE state = 'leased') AS leased,
    count(*) FILTER (WHERE state = 'draining') AS draining
    FROM workers WHERE pool_name = ANY($1) AND heartbeat_unix_ms > $2
    GROUP BY pool_name),
    d AS (SELECT pool_name,
    count(*) FILTER (WHERE state = 'queued') AS queued,
    count(*) FILTER (WHERE state IN ('assigned', 'serving')) AS active
    FROM requests WHERE pool_name = ANY($1) GROUP BY pool_name)
    SELECT selected.pool_name,
    COALESCE(d.queued, 0)::BIGINT AS queued,
    COALESCE(d.active, 0)::BIGINT AS active,
    COALESCE(w.clean, 0)::BIGINT AS clean,
    COALESCE(w.leased, 0)::BIGINT AS leased,
    COALESCE(w.draining, 0)::BIGINT AS draining,
    COALESCE(a.desired_workers, 0)::BIGINT AS desired
    FROM selected LEFT JOIN w USING (pool_name) LEFT JOIN d USING (pool_name)
    LEFT JOIN autoscale_state a USING (pool_name) ORDER BY selected.pool_name";

/// How long requests and activations took.
pub const LATENCY_METRICS: &'static str = "WITH samples AS (
    SELECT pool_name, 'queue_residence'::TEXT AS phase,
    assigned_unix_ms - created_unix_ms AS duration_ms,
    assigned_unix_ms AS sampled_unix_ms FROM requests
    UNION ALL SELECT pool_name, capacity_class || '_wait',
    assigned_unix_ms - created_unix_ms, assigned_unix_ms
    FROM requests WHERE capacity_class IN ('warm', 'cold')
    UNION ALL SELECT pool_name, 'first_output',
    first_output_unix_ms - created_unix_ms, first_output_unix_ms
    FROM requests WHERE state IN ('serving', 'completed')
    UNION ALL SELECT pool_name, 'execution',
    terminal_unix_ms - assigned_unix_ms, terminal_unix_ms
    FROM requests WHERE state = 'completed'
    UNION ALL SELECT pool_name, 'create_to_ready',
    ready_unix_ms - requested_unix_ms, ready_unix_ms FROM pool_activations)
    SELECT pool_name, phase, count(*)::BIGINT AS samples,
    percentile_disc(0.50) WITHIN GROUP (ORDER BY duration_ms)::BIGINT AS p50,
    percentile_disc(0.95) WITHIN GROUP (ORDER BY duration_ms)::BIGINT AS p95,
    percentile_disc(0.99) WITHIN GROUP (ORDER BY duration_ms)::BIGINT AS p99
    FROM samples
    WHERE pool_name = ANY($1) AND sampled_unix_ms >= $2 AND duration_ms >= 0
    GROUP BY pool_name, phase ORDER BY pool_name, phase";

/// How many requests workers have.
pub const ACTIVE_REQUESTS: &'static str = "SELECT count(*) FROM requests
    WHERE state IN ('assigned', 'serving')";

/// The queued requests of a pool, each with the last epoch of its sandbox.
pub const QUEUED_CANDIDATES: &'static str = "SELECT r.*, p.concurrency_limit, e.epoch AS previous_epoch,
    (SELECT count(*) FROM requests a WHERE a.tenant_id = r.tenant_id
    AND a.state IN ('assigned', 'serving')) AS tenant_active
    FROM requests r JOIN tenant_policy p ON p.tenant_id = r.tenant_id
    LEFT JOIN assignment_epochs e ON e.tenant_id = r.tenant_id
    AND e.workspace_id = r.workspace_id AND e.sandbox_id = r.sandbox_id
    WHERE r.state = 'queued' AND r.pool_name = $1 FOR UPDATE OF r SKIP LOCKED";

/// Writes the epoch of a sandbox.
pub const STORE_EPOCH: &'static str = "INSERT INTO assignment_epochs
    (tenant_id, workspace_id, sandbox_id, epoch) VALUES ($1,$2,$3,$4)
    ON CONFLICT (tenant_id, workspace_id, sandbox_id) DO UPDATE SET epoch = EXCLUDED.epoch";

/// The clock of the queue.
pub const LOAD_CLOCK: &'static str = "SELECT virtual_time FROM queue_clock WHERE singleton FOR UPDATE";

/// Writes the response of a request.
pub const STORE_RESPONSE: &'static str = "UPDATE requests SET terminal_response = $2
    WHERE request_id = $1 RETURNING *";

/// The request of a subject under an idempotency key, to be changed.
pub const REQUEST_OF_SUBJECT_FOR_UPDATE: &'static str = "SELECT * FROM requests
    WHERE tenant_id = $1 AND subject_id = $2 AND idempotency_key = $3 FOR UPDATE";

/// Writes the clock of the queue.
pub const STORE_CLOCK: &'static str = "UPDATE queue_clock SET virtual_time = $1 WHERE singleton";

/// The requests whose lease has ended.
pub const ENDED_LEASES: &'static str = "SELECT * FROM requests
    WHERE state IN ('assigned', 'serving') AND lease_expires_unix_ms <= $1 FOR UPDATE";

/// The request of a subject under an idempotency key.
pub const REQUEST_OF_SUBJECT: &'static str = "SELECT * FROM requests
    WHERE tenant_id = $1 AND subject_id = $2 AND idempotency_key = $3";

} // verus!

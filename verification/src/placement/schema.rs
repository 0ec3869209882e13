//! The tables of the placement database, and the steps that lead to them.
#[allow(unused_imports)]
use crate::placement::model::SCHEMA_VERSION;
use vstd::prelude::*;

verus! {

/// Makes the tables where there are none, in their first form, and lets the requests in them
/// serve.
pub const MIGRATION: &'static str = r#"
CREATE SCHEMA IF NOT EXISTS sandboxd_placement;

CREATE TABLE IF NOT EXISTS sandboxd_placement.schema_version (
    singleton BOOLEAN PRIMARY KEY DEFAULT TRUE CHECK (singleton),
    version INTEGER NOT NULL CHECK (version > 0)
);
INSERT INTO sandboxd_placement.schema_version (singleton, version)
VALUES (TRUE, 1) ON CONFLICT (singleton) DO NOTHING;

CREATE TABLE IF NOT EXISTS sandboxd_placement.tenant_policy (
    tenant_id TEXT PRIMARY KEY,
    weight SMALLINT NOT NULL CHECK (weight BETWEEN 1 AND 100),
    concurrency_limit INTEGER NOT NULL CHECK (concurrency_limit > 0),
    queue_limit INTEGER NOT NULL CHECK (queue_limit > 0),
    virtual_finish BIGINT NOT NULL DEFAULT 0 CHECK (virtual_finish >= 0)
);

CREATE TABLE IF NOT EXISTS sandboxd_placement.queue_clock (
    singleton BOOLEAN PRIMARY KEY DEFAULT TRUE CHECK (singleton),
    virtual_time BIGINT NOT NULL DEFAULT 0 CHECK (virtual_time >= 0)
);
INSERT INTO sandboxd_placement.queue_clock (singleton, virtual_time)
VALUES (TRUE, 0) ON CONFLICT (singleton) DO NOTHING;

CREATE TABLE IF NOT EXISTS sandboxd_placement.workers (
    worker_id TEXT PRIMARY KEY,
    topology TEXT NOT NULL,
    resource_shape TEXT NOT NULL,
    compatibility_cohort TEXT NOT NULL,
    state TEXT NOT NULL CHECK (state IN ('clean', 'leased', 'draining', 'quarantined', 'consumed')),
    heartbeat_unix_ms BIGINT NOT NULL CHECK (heartbeat_unix_ms > 0),
    registered_unix_ms BIGINT NOT NULL CHECK (registered_unix_ms > 0)
);

CREATE TABLE IF NOT EXISTS sandboxd_placement.requests (
    request_id TEXT PRIMARY KEY,
    idempotency_key TEXT NOT NULL,
    tenant_id TEXT NOT NULL REFERENCES sandboxd_placement.tenant_policy(tenant_id),
    workspace_id TEXT NOT NULL,
    sandbox_id TEXT NOT NULL,
    topology TEXT NOT NULL,
    resource_shape TEXT NOT NULL,
    compatibility_cohort TEXT NOT NULL,
    deadline_unix_ms BIGINT NOT NULL,
    created_unix_ms BIGINT NOT NULL,
    fair_finish BIGINT NOT NULL CHECK (fair_finish > 0),
    state TEXT NOT NULL CHECK (state IN ('queued', 'assigned', 'serving', 'completed', 'cancelled', 'expired')),
    worker_id TEXT REFERENCES sandboxd_placement.workers(worker_id),
    assignment_epoch BIGINT,
    lease_expires_unix_ms BIGINT,
    result_digest TEXT,
    terminal_unix_ms BIGINT,
    UNIQUE (tenant_id, idempotency_key)
);

CREATE UNIQUE INDEX IF NOT EXISTS requests_live_sandbox
ON sandboxd_placement.requests (tenant_id, workspace_id, sandbox_id)
WHERE state IN ('queued', 'assigned', 'serving', 'completed');

DO $serving$
BEGIN
    IF NOT EXISTS (
        SELECT 1 FROM pg_constraint
        WHERE conname = 'requests_state_check'
          AND conrelid = 'sandboxd_placement.requests'::regclass
          AND pg_get_constraintdef(oid) LIKE '%serving%'
    ) THEN
        ALTER TABLE sandboxd_placement.requests
            DROP CONSTRAINT IF EXISTS requests_state_check;
        ALTER TABLE sandboxd_placement.requests
            ADD CONSTRAINT requests_state_check
            CHECK (state IN ('queued', 'assigned', 'serving', 'completed', 'cancelled', 'expired'));
        DROP INDEX IF EXISTS sandboxd_placement.requests_live_sandbox;
        CREATE UNIQUE INDEX requests_live_sandbox
        ON sandboxd_placement.requests (tenant_id, workspace_id, sandbox_id)
        WHERE state IN ('queued', 'assigned', 'serving', 'completed');
    END IF;
END
$serving$;

CREATE INDEX IF NOT EXISTS requests_queue_order
ON sandboxd_placement.requests (fair_finish, created_unix_ms, request_id)
WHERE state = 'queued';

CREATE TABLE IF NOT EXISTS sandboxd_placement.assignment_epochs (
    tenant_id TEXT NOT NULL,
    workspace_id TEXT NOT NULL,
    sandbox_id TEXT NOT NULL,
    epoch BIGINT NOT NULL CHECK (epoch > 0),
    PRIMARY KEY (tenant_id, workspace_id, sandbox_id)
);

CREATE TABLE IF NOT EXISTS sandboxd_placement.audit (
    sequence BIGSERIAL PRIMARY KEY,
    event_unix_ms BIGINT NOT NULL,
    request_id TEXT NOT NULL,
    tenant_id TEXT NOT NULL,
    workspace_id TEXT NOT NULL,
    sandbox_id TEXT NOT NULL,
    worker_id TEXT,
    assignment_epoch BIGINT,
    event TEXT NOT NULL,
    result_digest TEXT
);
"#;

/// Adds who asked for the work.
pub const MIGRATION_V2: &'static str = r#"
ALTER TABLE sandboxd_placement.requests ADD COLUMN IF NOT EXISTS subject_id TEXT;
UPDATE sandboxd_placement.requests SET subject_id = 'legacy-unknown' WHERE subject_id IS NULL;
ALTER TABLE sandboxd_placement.requests ALTER COLUMN subject_id SET NOT NULL;

ALTER TABLE sandboxd_placement.audit ADD COLUMN IF NOT EXISTS subject_id TEXT;
UPDATE sandboxd_placement.audit SET subject_id = 'legacy-unknown' WHERE subject_id IS NULL;
ALTER TABLE sandboxd_placement.audit ALTER COLUMN subject_id SET NOT NULL;

UPDATE sandboxd_placement.schema_version SET version = 2 WHERE singleton = TRUE;
"#;

/// Adds what the work is, what came of it, and where a worker is reached.
pub const MIGRATION_V3: &'static str = r#"
ALTER TABLE sandboxd_placement.workers
    ADD COLUMN IF NOT EXISTS broker_address TEXT,
    ADD COLUMN IF NOT EXISTS resource_ceilings TEXT;
UPDATE sandboxd_placement.workers
SET state = 'quarantined'
WHERE broker_address IS NULL OR resource_ceilings IS NULL;

ALTER TABLE sandboxd_placement.requests ADD COLUMN IF NOT EXISTS operation TEXT;
ALTER TABLE sandboxd_placement.requests ADD COLUMN IF NOT EXISTS terminal_response TEXT;
UPDATE sandboxd_placement.requests
SET state = 'expired',
    terminal_unix_ms = COALESCE(
        terminal_unix_ms,
        (EXTRACT(EPOCH FROM clock_timestamp()) * 1000)::BIGINT
    )
WHERE operation IS NULL AND state IN ('queued', 'assigned');
UPDATE sandboxd_placement.requests
SET operation = '{"kind":"ping"}'
WHERE operation IS NULL;
ALTER TABLE sandboxd_placement.requests ALTER COLUMN operation SET NOT NULL;

UPDATE sandboxd_placement.schema_version SET version = 3 WHERE singleton = TRUE;
"#;

/// Adds the pools and the state of their scaling.
pub const MIGRATION_V4: &'static str = r#"
ALTER TABLE sandboxd_placement.workers ADD COLUMN IF NOT EXISTS pool_name TEXT;
UPDATE sandboxd_placement.workers
SET pool_name = 'legacy-unpooled'
WHERE pool_name IS NULL;
ALTER TABLE sandboxd_placement.workers ALTER COLUMN pool_name SET NOT NULL;

ALTER TABLE sandboxd_placement.requests ADD COLUMN IF NOT EXISTS pool_name TEXT;
UPDATE sandboxd_placement.requests
SET pool_name = 'legacy-unpooled'
WHERE pool_name IS NULL;
ALTER TABLE sandboxd_placement.requests ALTER COLUMN pool_name SET NOT NULL;

CREATE INDEX IF NOT EXISTS workers_pool_state
ON sandboxd_placement.workers (pool_name, state, heartbeat_unix_ms);
CREATE INDEX IF NOT EXISTS requests_pool_state
ON sandboxd_placement.requests (pool_name, state, created_unix_ms);

CREATE TABLE IF NOT EXISTS sandboxd_placement.autoscale_state (
    pool_name TEXT PRIMARY KEY,
    idle_since_unix_ms BIGINT,
    desired_workers INTEGER NOT NULL CHECK (desired_workers >= 0),
    updated_unix_ms BIGINT NOT NULL CHECK (updated_unix_ms > 0)
);

UPDATE sandboxd_placement.schema_version SET version = 4 WHERE singleton = TRUE;
"#;

/// Adds what the latencies are measured by.
pub const MIGRATION_V5: &'static str = r#"
ALTER TABLE sandboxd_placement.requests
    ADD COLUMN IF NOT EXISTS assigned_unix_ms BIGINT,
    ADD COLUMN IF NOT EXISTS first_output_unix_ms BIGINT,
    ADD COLUMN IF NOT EXISTS capacity_class TEXT;
UPDATE sandboxd_placement.requests
SET capacity_class = 'unknown'
WHERE capacity_class IS NULL;
ALTER TABLE sandboxd_placement.requests
    ALTER COLUMN capacity_class SET NOT NULL;
DO $migration$
BEGIN
    IF NOT EXISTS (
        SELECT 1 FROM pg_constraint
        WHERE conname = 'requests_capacity_class'
          AND conrelid = 'sandboxd_placement.requests'::regclass
    ) THEN
        ALTER TABLE sandboxd_placement.requests
            ADD CONSTRAINT requests_capacity_class
            CHECK (capacity_class IN ('warm', 'cold', 'unknown'));
    END IF;
END
$migration$;

CREATE TABLE IF NOT EXISTS sandboxd_placement.pool_activations (
    sequence BIGSERIAL PRIMARY KEY,
    pool_name TEXT NOT NULL,
    requested_unix_ms BIGINT NOT NULL CHECK (requested_unix_ms > 0),
    target_workers INTEGER NOT NULL CHECK (target_workers > 0),
    ready_unix_ms BIGINT,
    cancelled_unix_ms BIGINT,
    CHECK (ready_unix_ms IS NULL OR cancelled_unix_ms IS NULL)
);
CREATE UNIQUE INDEX IF NOT EXISTS pool_activations_one_pending
ON sandboxd_placement.pool_activations (pool_name)
WHERE ready_unix_ms IS NULL AND cancelled_unix_ms IS NULL;
CREATE INDEX IF NOT EXISTS pool_activations_history
ON sandboxd_placement.pool_activations (pool_name, requested_unix_ms);
CREATE INDEX IF NOT EXISTS requests_metrics_assigned
ON sandboxd_placement.requests (pool_name, assigned_unix_ms)
WHERE assigned_unix_ms IS NOT NULL;
CREATE INDEX IF NOT EXISTS requests_metrics_terminal
ON sandboxd_placement.requests (pool_name, terminal_unix_ms)
WHERE terminal_unix_ms IS NOT NULL;

UPDATE sandboxd_placement.schema_version SET version = 5 WHERE singleton = TRUE;
"#;

/// The statements that bring the tables to a version from the one before it.
pub fn migration(version: i32) -> (r: Option<&'static str>)
    ensures
        r is Some <==> 1 <= version <= SCHEMA_VERSION,
        version == 1 ==> r->0@ == MIGRATION@,
        version == 2 ==> r->0@ == MIGRATION_V2@,
        version == 3 ==> r->0@ == MIGRATION_V3@,
        version == 4 ==> r->0@ == MIGRATION_V4@,
        version == 5 ==> r->0@ == MIGRATION_V5@,
{
    if version == 1 {
        Some(MIGRATION)
    } else if version == 2 {
        Some(MIGRATION_V2)
    } else if version == 3 {
        Some(MIGRATION_V3)
    } else if version == 4 {
        Some(MIGRATION_V4)
    } else if version == 5 {
        Some(MIGRATION_V5)
    } else {
        None
    }
}

} // verus!

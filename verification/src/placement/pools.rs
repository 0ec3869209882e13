//! Pools of workers: what is seen of them, and what is asked for them.

use crate::checks;
use crate::oci::error;
use crate::placement::error::{PlacementFailure, PlacementStoreError};
use crate::placement::model;
use crate::placement::model::{
    count_u32, duration_millis, metric_u64, to_i32, to_i64, to_u64, valid_pool_name,
    PlacementStoreConfig, PoolLatencyMetrics, PoolObservation,
};
use crate::placement::workers;
use crate::placement::workers::sorted_distinct;
use crate::text;
use crate::time::Duration;
use vstd::prelude::*;

verus! {

/// Why a pool is not looked at. `policy` is what the rules of its policy say of it.
pub open spec fn pool_failure(
    config: PlacementStoreConfig,
    pool_name: Seq<char>,
    policy: Result<(), String>,
    now_unix_ms: u64,
) -> Option<PlacementFailure> {
    if !model::is_pool_name(pool_name) || now_unix_ms == 0 {
        Some(PlacementFailure::Invalid("autoscale pool identity or time is invalid"@))
    } else {
        match policy {
            Err(reason) => Some(PlacementFailure::Invalid(reason@)),
            Ok(()) => if now_unix_ms > i64::MAX {
                Some(PlacementFailure::Invalid("timestamp is too large"@))
            } else {
                match config.cutoff(now_unix_ms as i64) {
                    Err(error) => Some(error),
                    Ok(_) => None,
                }
            },
        }
    }
}

/// Begins to look at a pool: the time and the last heartbeat that is too old, in the numbers of
/// the database.
pub fn begin_reconcile(
    config: &PlacementStoreConfig,
    pool_name: &str,
    policy: Result<(), String>,
    now_unix_ms: u64,
) -> (r: Result<(i64, i64), PlacementStoreError>)
    ensures
        match r {
            Ok(times) => pool_failure(*config, pool_name@, policy, now_unix_ms) is None && times.0
                == now_unix_ms && config.cutoff(times.0) == Ok::<i64, PlacementFailure>(times.1),
            Err(error) => pool_failure(*config, pool_name@, policy, now_unix_ms) == Some(error@),
        },
{
    if !valid_pool_name(pool_name) || now_unix_ms == 0 {
        return Err(
            PlacementStoreError::Invalid("autoscale pool identity or time is invalid".to_owned()),
        );
    }
    match policy {
        Ok(()) => {},
        Err(reason) => return Err(PlacementStoreError::Invalid(reason)),
    }
    let now: i64 = match to_i64(now_unix_ms) {
        Ok(now) => now,
        Err(error) => return Err(error),
    };
    match config.heartbeat_cutoff(now) {
        Ok(cutoff) => Ok((now, cutoff)),
        Err(error) => Err(error),
    }
}

/// What the database counts of a pool.
#[derive(Clone, Copy, Debug, PartialEq, Eq, Structural)]
pub struct PoolCounts {
    pub clean: i64,
    pub leased: i64,
    pub draining: i64,
    /// Work that workers have or keep up.
    pub assigned: i64,
    pub queued: i64,
}

/// A count that is a number of rows.
pub open spec fn is_count(value: i64) -> bool {
    0 <= value <= u32::MAX
}

/// Why the counts of a pool make no sense.
pub open spec fn counts_failure(counts: PoolCounts, previous_idle: Option<i64>) -> Option<
    PlacementFailure,
> {
    let exceeds = PlacementFailure::Invalid("database count exceeds u32"@);
    checks::or(
        checks::when(
            !is_count(counts.clean) || !is_count(counts.leased) || !is_count(counts.draining)
                || !is_count(counts.assigned),
            exceeds,
        ),
        checks::or(
            checks::when(
                counts.assigned > counts.leased,
                PlacementFailure::Invalid("assigned demand exceeds live leased workers"@),
            ),
            checks::or(
                checks::when(!is_count(counts.queued), exceeds),
                checks::when(
                    previous_idle is Some && previous_idle->0 < 0,
                    PlacementFailure::Invalid("timestamp is negative"@),
                ),
            ),
        ),
    )
}

/// Since when a pool is idle: since before, or since now, or not at all.
pub open spec fn idle_since(counts: PoolCounts, previous_idle: Option<i64>, now_unix_ms: u64) ->
    Option<u64> {
    if counts.queued == 0 && counts.assigned == 0 {
        match previous_idle {
            Some(since) => Some(since as u64),
            None => Some(now_unix_ms),
        }
    } else {
        None
    }
}

/// Reads what the database counts of a pool.
pub fn observe_pool(
    counts: PoolCounts,
    previous_idle: Option<i64>,
    current_workers: u32,
    quota_workers: u32,
    now_unix_ms: u64,
) -> (r: Result<PoolObservation, PlacementStoreError>)
    ensures
        match r {
            Ok(observation) => {
                &&& counts_failure(counts, previous_idle) is None
                &&& observation.current_workers == current_workers
                &&& observation.clean_workers == counts.clean
                &&& observation.leased_or_active_workers == counts.leased
                &&& observation.draining_workers == counts.draining
                &&& observation.queued_assignments == counts.queued
                &&& observation.quota_workers == quota_workers
                &&& observation.idle_since_unix_ms == idle_since(
                    counts,
                    previous_idle,
                    now_unix_ms,
                )
            },
            Err(error) => counts_failure(counts, previous_idle) == Some(error@),
        },
{
    let clean_workers: u32 = match count_u32(counts.clean) {
        Ok(count) => count,
        Err(error) => return Err(error),
    };
    let leased_workers: u32 = match count_u32(counts.leased) {
        Ok(count) => count,
        Err(error) => return Err(error),
    };
    let draining_workers: u32 = match count_u32(counts.draining) {
        Ok(count) => count,
        Err(error) => return Err(error),
    };
    let assigned: u32 = match count_u32(counts.assigned) {
        Ok(count) => count,
        Err(error) => return Err(error),
    };
    if assigned > leased_workers {
        return Err(
            PlacementStoreError::Invalid("assigned demand exceeds live leased workers".to_owned()),
        );
    }
    let queued_assignments: u32 = match count_u32(counts.queued) {
        Ok(count) => count,
        Err(error) => return Err(error),
    };
    let previous: Option<u64> = match previous_idle {
        Some(since) => match to_u64(since) {
            Ok(since) => Some(since),
            Err(error) => return Err(error),
        },
        None => None,
    };
    let idle_since_unix_ms: Option<u64> = if queued_assignments == 0 && assigned == 0 {
        match previous {
            Some(since) => Some(since),
            None => Some(now_unix_ms),
        }
    } else {
        None
    };
    Ok(
        PoolObservation {
            current_workers,
            clean_workers,
            leased_or_active_workers: leased_workers,
            draining_workers,
            queued_assignments,
            quota_workers,
            idle_since_unix_ms,
        },
    )
}

/// A pool that has no work keeps the time since which it has none, and one that has work
/// forgets it.
pub proof fn law_idle_time_is_kept_while_idle(
    counts: PoolCounts,
    previous_idle: Option<i64>,
    now_unix_ms: u64,
    later_unix_ms: u64,
)
    requires
        counts_failure(counts, previous_idle) is None,
        now_unix_ms <= i64::MAX,
    ensures
        counts.queued == 0 && counts.assigned == 0 ==> idle_since(
            counts,
            Some(idle_since(counts, previous_idle, now_unix_ms)->0 as i64),
            later_unix_ms,
        ) == idle_since(counts, previous_idle, now_unix_ms),
        counts.queued > 0 || counts.assigned > 0 ==> idle_since(
            counts,
            previous_idle,
            now_unix_ms,
        ) is None,
{
}

/// What is kept of a decision about a pool: how many workers are wanted, and since when the pool
/// is idle.
pub fn record_decision(observation: &PoolObservation, desired_workers: u32) -> (r: Result<
    (i32, Option<i64>),
    PlacementStoreError,
>)
    ensures
        match r {
            Ok(kept) => {
                &&& desired_workers <= i32::MAX && kept.0 == desired_workers
                &&& match observation.idle_since_unix_ms {
                    Some(since) => since <= i64::MAX && kept.1 == Some(since as i64),
                    None => kept.1 is None,
                }
            },
            Err(error) => if desired_workers > i32::MAX {
                error@ == PlacementFailure::Invalid(
                    "desired worker count exceeds PostgreSQL integer"@,
                )
            } else {
                observation.idle_since_unix_ms is Some && observation.idle_since_unix_ms->0
                    > i64::MAX && error@ == PlacementFailure::Invalid("timestamp is too large"@)
            },
        },
{
    let desired: i32 = match to_i32(
        desired_workers,
        "desired worker count exceeds PostgreSQL integer",
    ) {
        Ok(desired) => desired,
        Err(error) => return Err(error),
    };
    let idle: Option<i64> = match observation.idle_since_unix_ms {
        Some(since) => match to_i64(since) {
            Ok(since) => Some(since),
            Err(error) => return Err(error),
        },
        None => None,
    };
    Ok((desired, idle))
}

/// Why an activation is not asked for.
pub open spec fn scale_up_failure(pool_name: Seq<char>, target_workers: u32, now_unix_ms: u64) ->
    Option<PlacementFailure> {
    checks::or(
        checks::when(
            !model::is_pool_name(pool_name) || target_workers == 0 || now_unix_ms == 0,
            PlacementFailure::Invalid("scale-up activation is invalid"@),
        ),
        checks::or(
            checks::when(
                target_workers > i32::MAX,
                PlacementFailure::Invalid("activation target exceeds PostgreSQL integer"@),
            ),
            checks::when(
                now_unix_ms > i64::MAX,
                PlacementFailure::Invalid("timestamp is too large"@),
            ),
        ),
    )
}

/// Asks for workers in a pool: the number and the time, in the numbers of the database.
pub fn check_scale_up(pool_name: &str, target_workers: u32, now_unix_ms: u64) -> (r: Result<
    (i32, i64),
    PlacementStoreError,
>)
    ensures
        match r {
            Ok(asked) => scale_up_failure(pool_name@, target_workers, now_unix_ms) is None
                && asked.0 == target_workers && asked.1 == now_unix_ms,
            Err(error) => scale_up_failure(pool_name@, target_workers, now_unix_ms) == Some(error@),
        },
{
    if !valid_pool_name(pool_name) || target_workers == 0 || now_unix_ms == 0 {
        return Err(PlacementStoreError::Invalid("scale-up activation is invalid".to_owned()));
    }
    let target: i32 = match to_i32(
        target_workers,
        "activation target exceeds PostgreSQL integer",
    ) {
        Ok(target) => target,
        Err(error) => return Err(error),
    };
    match to_i64(now_unix_ms) {
        Ok(now) => Ok((target, now)),
        Err(error) => Err(error),
    }
}

/// What an activation is asked for that is pending already, if one is.
pub fn grown_target(pending: Option<i32>, target: i32) -> (r: i32)
    ensures
        r == match pending {
            Some(held) => if held >= target {
                held
            } else {
                target
            },
            None => target,
        },
{
    match pending {
        Some(held) => if held >= target {
            held
        } else {
            target
        },
        None => target,
    }
}

/// Why an activation is not looked at.
pub open spec fn activation_failure(
    pool_name: Seq<char>,
    desired_workers: u32,
    ready_workers: u32,
    now_unix_ms: u64,
) -> Option<PlacementFailure> {
    checks::or(
        checks::when(
            !model::is_pool_name(pool_name) || now_unix_ms == 0,
            PlacementFailure::Invalid("activation observation is invalid"@),
        ),
        checks::or(
            checks::when(
                desired_workers > i32::MAX,
                PlacementFailure::Invalid("desired workers exceed PostgreSQL integer"@),
            ),
            checks::or(
                checks::when(
                    ready_workers > i32::MAX,
                    PlacementFailure::Invalid("ready workers exceed PostgreSQL integer"@),
                ),
                checks::when(
                    now_unix_ms > i64::MAX,
                    PlacementFailure::Invalid("timestamp is too large"@),
                ),
            ),
        ),
    )
}

/// Looks at an activation: the numbers and the time, in the numbers of the database.
pub fn check_activation(
    pool_name: &str,
    desired_workers: u32,
    ready_workers: u32,
    now_unix_ms: u64,
) -> (r: Result<(i32, i32, i64), PlacementStoreError>)
    ensures
        match r {
            Ok(seen) => {
                &&& activation_failure(
                    pool_name@,
                    desired_workers,
                    ready_workers,
                    now_unix_ms,
                ) is None
                &&& seen.0 == desired_workers
                &&& seen.1 == ready_workers
                &&& seen.2 == now_unix_ms
            },
            Err(error) => activation_failure(
                pool_name@,
                desired_workers,
                ready_workers,
                now_unix_ms,
            ) == Some(error@),
        },
{
    if !valid_pool_name(pool_name) || now_unix_ms == 0 {
        return Err(PlacementStoreError::Invalid("activation observation is invalid".to_owned()));
    }
    let desired: i32 = match to_i32(desired_workers, "desired workers exceed PostgreSQL integer") {
        Ok(desired) => desired,
        Err(error) => return Err(error),
    };
    let ready: i32 = match to_i32(ready_workers, "ready workers exceed PostgreSQL integer") {
        Ok(ready) => ready,
        Err(error) => return Err(error),
    };
    match to_i64(now_unix_ms) {
        Ok(now) => Ok((desired, ready, now)),
        Err(error) => Err(error),
    }
}

/// What becomes of a pending activation.
#[derive(Clone, Copy, Debug, PartialEq, Eq, Structural)]
pub enum Activation {
    Ready,
    Cancelled,
    Pending,
}

/// Judges a pending activation of `target` workers.
pub fn judge_activation(target: i32, desired: i32, ready: i32) -> (r: Activation)
    ensures
        r == (if target <= ready {
            Activation::Ready
        } else if target > desired {
            Activation::Cancelled
        } else {
            Activation::Pending
        }),
{
    if target <= ready {
        Activation::Ready
    } else if target > desired {
        Activation::Cancelled
    } else {
        Activation::Pending
    }
}

/// A question about pools, in the numbers of the database.
#[derive(Debug)]
pub struct MetricsQuery {
    pub pool_names: Vec<String>,
    pub now: i64,
    pub cutoff: i64,
    pub heartbeat_cutoff: i64,
}

/// Pools that may be asked about.
pub open spec fn is_valid_query(
    pool_names: Seq<Seq<char>>,
    now_unix_ms: u64,
    lookback: Duration,
) -> bool {
    &&& 0 < pool_names.len() <= 1_024
    &&& lookback.within(7_776_000)
    &&& now_unix_ms != 0
    &&& forall|i: int| 0 <= i < pool_names.len() ==> model::is_pool_name(#[trigger] pool_names[i])
}

/// Why a question about pools is not asked.
pub open spec fn query_failure(
    config: PlacementStoreConfig,
    pool_names: Seq<Seq<char>>,
    now_unix_ms: u64,
    lookback: Duration,
) -> Option<PlacementFailure> {
    if !is_valid_query(pool_names, now_unix_ms, lookback) {
        Some(PlacementFailure::Invalid("autoscale metrics query is invalid"@))
    } else if workers::has_duplicates(pool_names) {
        Some(PlacementFailure::Invalid("autoscale metrics pools contain duplicates"@))
    } else if now_unix_ms > i64::MAX {
        Some(PlacementFailure::Invalid("timestamp is too large"@))
    } else {
        match config.cutoff(now_unix_ms as i64) {
            Err(error) => Some(error),
            Ok(_) => None,
        }
    }
}

/// Whether every pool has a proper name.
fn all_pool_names(pool_names: &Vec<String>) -> (r: bool)
    ensures
        r == forall|i: int|
            0 <= i < text::texts(pool_names@).len() ==> model::is_pool_name(
                #[trigger] text::texts(pool_names@)[i],
            ),
{
    let ghost all = text::texts(pool_names@);
    let mut i: usize = 0;
    while i < pool_names.len()
        invariant
            i <= pool_names@.len() == all.len(),
            all == text::texts(pool_names@),
            forall|j: int| 0 <= j < i ==> model::is_pool_name(#[trigger] all[j]),
        decreases pool_names@.len() - i,
    {
        proof {
            assert(all[i as int] == pool_names@[i as int]@);
        }
        if !valid_pool_name(pool_names[i].as_str()) {
            proof {
                assert(!model::is_pool_name(text::texts(pool_names@)[i as int]));
            }
            return false;
        }
        i += 1;
    }
    true
}

/// Asks about pools.
pub fn begin_metrics(
    config: &PlacementStoreConfig,
    pool_names: &Vec<String>,
    now_unix_ms: u64,
    lookback: Duration,
) -> (r: Result<MetricsQuery, PlacementStoreError>)
    ensures
        match r {
            Ok(query) => {
                let names = text::texts(pool_names@);
                &&& query_failure(*config, names, now_unix_ms, lookback) is None
                &&& workers::is_sorted(text::texts(query.pool_names@))
                &&& text::texts(query.pool_names@).to_set() == names.to_set()
                &&& query.pool_names@.len() == names.len()
                &&& query.now == now_unix_ms
                &&& query.cutoff == query.now - lookback.nanoseconds / 1_000_000
                &&& config.cutoff(query.now) == Ok::<i64, PlacementFailure>(query.heartbeat_cutoff)
            },
            Err(error) => query_failure(
                *config,
                text::texts(pool_names@),
                now_unix_ms,
                lookback,
            ) == Some(error@),
        },
{
    if pool_names.len() == 0 || pool_names.len() > 1_024 || !lookback.is_within(7_776_000)
        || now_unix_ms == 0 || !all_pool_names(pool_names) {
        return Err(PlacementStoreError::Invalid("autoscale metrics query is invalid".to_owned()));
    }
    let unique = match sorted_distinct(pool_names) {
        Some(unique) => unique,
        None => {
            return Err(
                PlacementStoreError::Invalid(
                    "autoscale metrics pools contain duplicates".to_owned(),
                ),
            );
        },
    };
    let now: i64 = match to_i64(now_unix_ms) {
        Ok(now) => now,
        Err(error) => return Err(error),
    };
    let window: i64 = match duration_millis(lookback) {
        Ok(window) => window,
        Err(error) => return Err(error),
    };
    let cutoff: i64 = match now.checked_sub(window) {
        Some(cutoff) => cutoff,
        None => {
            return Err(PlacementStoreError::Invalid("metrics cutoff is invalid".to_owned()));
        },
    };
    match config.heartbeat_cutoff(now) {
        Ok(heartbeat_cutoff) => Ok(
            MetricsQuery { pool_names: unique, now, cutoff, heartbeat_cutoff },
        ),
        Err(error) => Err(error),
    }
}

/// What the database measures of a pool.
#[derive(Clone, Copy, Debug, PartialEq, Eq, Structural)]
pub struct PoolRow {
    pub queued: i64,
    pub active: i64,
    pub clean: i64,
    pub leased: i64,
    pub draining: i64,
    pub desired: i64,
}

/// How a pool is used.
#[derive(Clone, Copy, Debug, PartialEq, Eq, Structural)]
pub struct PoolUsage {
    pub queued_assignments: u64,
    pub active_leases: u64,
    pub clean_warm_slots: u64,
    pub draining_workers: u64,
    pub desired_workers: u64,
    /// The workers that work.
    pub leased_workers: u64,
    /// The workers that work or could.
    pub routable_workers: u64,
    /// Work waits, and nobody could take it.
    pub saturated: bool,
}

/// Reads how a pool is used.
pub fn pool_usage(row: PoolRow) -> (r: Result<PoolUsage, PlacementStoreError>)
    ensures
        match r {
            Ok(usage) => {
                &&& row.queued >= 0 && row.active >= 0 && row.clean >= 0 && row.leased >= 0
                    && row.draining >= 0 && row.desired >= 0
                &&& usage.queued_assignments == row.queued
                &&& usage.active_leases == row.active
                &&& usage.clean_warm_slots == row.clean
                &&& usage.draining_workers == row.draining
                &&& usage.desired_workers == row.desired
                &&& usage.leased_workers == row.leased
                &&& usage.routable_workers == row.clean + row.leased
                &&& usage.saturated == (row.queued > 0 && row.clean == 0)
            },
            Err(error) => error@ == PlacementFailure::Invalid("database metric is negative"@) && (
            row.queued < 0 || row.active < 0 || row.clean < 0 || row.leased < 0 || row.draining < 0
                || row.desired < 0),
        },
{
    let clean: u64 = match metric_u64(row.clean) {
        Ok(value) => value,
        Err(error) => return Err(error),
    };
    let leased: u64 = match metric_u64(row.leased) {
        Ok(value) => value,
        Err(error) => return Err(error),
    };
    let queued: u64 = match metric_u64(row.queued) {
        Ok(value) => value,
        Err(error) => return Err(error),
    };
    let active: u64 = match metric_u64(row.active) {
        Ok(value) => value,
        Err(error) => return Err(error),
    };
    let draining: u64 = match metric_u64(row.draining) {
        Ok(value) => value,
        Err(error) => return Err(error),
    };
    let desired: u64 = match metric_u64(row.desired) {
        Ok(value) => value,
        Err(error) => return Err(error),
    };
    Ok(
        PoolUsage {
            queued_assignments: queued,
            active_leases: active,
            clean_warm_slots: clean,
            draining_workers: draining,
            desired_workers: desired,
            leased_workers: leased,
            routable_workers: clean + leased,
            saturated: queued > 0 && clean == 0,
        },
    )
}

/// Reads how long a phase took in a pool.
pub fn latency_metrics(
    pool_name: String,
    phase: String,
    samples: i64,
    p50: i64,
    p95: i64,
    p99: i64,
) -> (r: Result<PoolLatencyMetrics, PlacementStoreError>)
    ensures
        match r {
            Ok(metrics) => {
                &&& samples >= 0 && p50 >= 0 && p95 >= 0 && p99 >= 0
                &&& metrics.pool_name == pool_name
                &&& metrics.phase == phase
                &&& metrics.samples == samples
                &&& metrics.p50_milliseconds == p50
                &&& metrics.p95_milliseconds == p95
                &&& metrics.p99_milliseconds == p99
            },
            Err(error) => error@ == PlacementFailure::Invalid("database metric is negative"@) && (
            samples < 0 || p50 < 0 || p95 < 0 || p99 < 0),
        },
{
    let samples: u64 = match metric_u64(samples) {
        Ok(value) => value,
        Err(error) => return Err(error),
    };
    let p50_milliseconds: u64 = match metric_u64(p50) {
        Ok(value) => value,
        Err(error) => return Err(error),
    };
    let p95_milliseconds: u64 = match metric_u64(p95) {
        Ok(value) => value,
        Err(error) => return Err(error),
    };
    let p99_milliseconds: u64 = match metric_u64(p99) {
        Ok(value) => value,
        Err(error) => return Err(error),
    };
    Ok(
        PoolLatencyMetrics {
            pool_name,
            phase,
            samples,
            p50_milliseconds,
            p95_milliseconds,
            p99_milliseconds,
        },
    )
}

/// A pool is looked at exactly where it has a proper name, its policy holds, and the time is one
/// that the database can count.
pub proof fn law_observed_pools_are_proper(
    config: PlacementStoreConfig,
    pool_name: Seq<char>,
    policy: Result<(), String>,
    now_unix_ms: u64,
)
    requires
        config.is_valid(),
    ensures
        pool_failure(config, pool_name, policy, now_unix_ms) is None <==> model::is_pool_name(
            pool_name,
        ) && policy is Ok && 1 <= now_unix_ms <= i64::MAX,
{
}

/// The counts of a pool make sense exactly where all are numbers of rows, no more is assigned than
/// is leased, and it was not idle before there was time.
pub proof fn law_counts_of_pools_agree(counts: PoolCounts, previous_idle: Option<i64>)
    ensures
        counts_failure(counts, previous_idle) is None <==> {
            &&& 0 <= counts.clean <= 4_294_967_295
            &&& 0 <= counts.assigned <= counts.leased <= 4_294_967_295
            &&& 0 <= counts.draining <= 4_294_967_295
            &&& 0 <= counts.queued <= 4_294_967_295
            &&& previous_idle matches Some(since) ==> since >= 0
        },
{
}

/// A pool is idle exactly where nothing waits and nothing is assigned, since it first was.
pub proof fn law_idle_pools_have_no_work(
    counts: PoolCounts,
    previous_idle: Option<i64>,
    now_unix_ms: u64,
)
    requires
        counts_failure(counts, previous_idle) is None,
    ensures
        idle_since(counts, previous_idle, now_unix_ms) is Some <==> counts.queued == 0
            && counts.assigned == 0,
        idle_since(counts, previous_idle, now_unix_ms) matches Some(since) ==> (previous_idle
            matches Some(before) ==> since == before),
        idle_since(counts, previous_idle, now_unix_ms) matches Some(since) ==> (previous_idle is None
            ==> since == now_unix_ms),
{
}

/// Workers are asked for, and activations looked at, exactly where the pool has a proper name, there
/// is something to ask for, and the numbers fit the database.
pub proof fn law_activations_fit_the_database(
    pool_name: Seq<char>,
    target_workers: u32,
    ready_workers: u32,
    now_unix_ms: u64,
)
    ensures
        scale_up_failure(pool_name, target_workers, now_unix_ms) is None <==> model::is_pool_name(
            pool_name,
        ) && 1 <= target_workers <= 2_147_483_647 && 1 <= now_unix_ms <= i64::MAX,
        activation_failure(pool_name, target_workers, ready_workers, now_unix_ms) is None
            <==> model::is_pool_name(pool_name) && target_workers <= 2_147_483_647 && ready_workers
            <= 2_147_483_647 && 1 <= now_unix_ms <= i64::MAX,
{
}

/// A question about pools is asked exactly where it names 1 to 1024 pools properly and none twice,
/// looks back at most 90 days, and its time is one that the database can count.
pub proof fn law_asked_questions_are_bounded(
    config: PlacementStoreConfig,
    pool_names: Seq<Seq<char>>,
    now_unix_ms: u64,
    lookback: Duration,
)
    requires
        config.is_valid(),
    ensures
        query_failure(config, pool_names, now_unix_ms, lookback) is None <==> {
            &&& 1 <= pool_names.len() <= 1_024
            &&& forall|i: int|
                0 <= i < pool_names.len() ==> model::is_pool_name(#[trigger] pool_names[i])
            &&& forall|i: int, j: int|
                0 <= i < j < pool_names.len() ==> #[trigger] pool_names[i]
                    != #[trigger] pool_names[j]
            &&& 0 < lookback.nanoseconds <= 7_776_000_000_000_000
            &&& 1 <= now_unix_ms <= i64::MAX
        },
{
}

/// Each refusal about a pool is of its kind.
pub proof fn law_refused_pools_say_why(
    config: PlacementStoreConfig,
    pool_name: Seq<char>,
    policy: Result<(), String>,
    counts: PoolCounts,
    previous_idle: Option<i64>,
    target_workers: u32,
    now_unix_ms: u64,
    pool_names: Seq<Seq<char>>,
    lookback: Duration,
)
    ensures
        !model::is_pool_name(pool_name) || now_unix_ms == 0 ==> pool_failure(
            config,
            pool_name,
            policy,
            now_unix_ms,
        ) == Some(PlacementFailure::Invalid("autoscale pool identity or time is invalid"@)),
        model::is_pool_name(pool_name) && now_unix_ms > 0 ==> (policy matches Err(reason)
            ==> pool_failure(config, pool_name, policy, now_unix_ms) == Some(
            PlacementFailure::Invalid(reason@),
        )),
        0 <= counts.clean <= 4_294_967_295 && 0 <= counts.leased <= 4_294_967_295 && 0
            <= counts.draining <= 4_294_967_295 && 0 <= counts.assigned <= 4_294_967_295
            && counts.assigned > counts.leased ==> counts_failure(counts, previous_idle) == Some(
            PlacementFailure::Invalid("assigned demand exceeds live leased workers"@),
        ),
        counts.clean < 0 ==> counts_failure(counts, previous_idle) == Some(
            PlacementFailure::Invalid("database count exceeds u32"@),
        ),
        !model::is_pool_name(pool_name) || target_workers == 0 || now_unix_ms == 0
            ==> scale_up_failure(pool_name, target_workers, now_unix_ms) == Some(
            PlacementFailure::Invalid("scale-up activation is invalid"@),
        ),
        model::is_pool_name(pool_name) && target_workers > 2_147_483_647 && now_unix_ms > 0
            ==> scale_up_failure(pool_name, target_workers, now_unix_ms) == Some(
            PlacementFailure::Invalid("activation target exceeds PostgreSQL integer"@),
        ),
        !model::is_pool_name(pool_name) || now_unix_ms == 0 ==> activation_failure(
            pool_name,
            target_workers,
            target_workers,
            now_unix_ms,
        ) == Some(PlacementFailure::Invalid("activation observation is invalid"@)),
        !is_valid_query(pool_names, now_unix_ms, lookback) ==> query_failure(
            config,
            pool_names,
            now_unix_ms,
            lookback,
        ) == Some(PlacementFailure::Invalid("autoscale metrics query is invalid"@)),
        is_valid_query(pool_names, now_unix_ms, lookback) && workers::has_duplicates(pool_names)
            ==> query_failure(config, pool_names, now_unix_ms, lookback) == Some(
            PlacementFailure::Invalid("autoscale metrics pools contain duplicates"@),
        ),
{
}

} // verus!

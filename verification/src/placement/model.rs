//! Work that is placed, and the limits under which it is.

#[allow(unused_imports)]
use crate::oci::address;
use crate::oci::address::SocketAddress;
use crate::oci::error;
use crate::placement::error::{PlacementFailure, PlacementStoreError};
use crate::protocol::{Operation, ResourceCeilings, WorkloadResponse};
use crate::text;
use crate::text::Alphabet;
use crate::time::Duration;
use vstd::prelude::*;

verus! {

pub const SCHEMA_VERSION: i32 = 5;

pub const MAXIMUM_PEM_BYTES: u64 = 1_048_576;

pub const MAXIMUM_OPERATION_BYTES: usize = 524_288;

pub const MAXIMUM_RESPONSE_BYTES: usize = 4_194_304;

pub const MAXIMUM_WORKERS: usize = 1_024;

/// How much work is taken on, and how long it is trusted to a worker.
#[derive(Clone, Copy, Debug, PartialEq, Eq, Structural)]
pub struct PlacementStoreConfig {
    pub global_queue_limit: i64,
    pub global_concurrency_limit: i64,
    pub default_tenant_queue_limit: i32,
    pub default_tenant_concurrency_limit: i32,
    pub worker_heartbeat_timeout: Duration,
    pub lease_lifetime: Duration,
    pub broker_port: u16,
}

impl Default for PlacementStoreConfig {
    fn default() -> (r: Self)
        ensures
            r.global_queue_limit == 10_000,
            r.global_concurrency_limit == 1_000,
            r.default_tenant_queue_limit == 100,
            r.default_tenant_concurrency_limit == 10,
            r.worker_heartbeat_timeout.nanoseconds == 30_000_000_000,
            r.lease_lifetime.nanoseconds == 30_000_000_000,
            r.broker_port == 8_081,
            r.is_valid(),
    {
        PlacementStoreConfig {
            global_queue_limit: 10_000,
            global_concurrency_limit: 1_000,
            default_tenant_queue_limit: 100,
            default_tenant_concurrency_limit: 10,
            worker_heartbeat_timeout: Duration::from_secs(30),
            lease_lifetime: Duration::from_secs(30),
            broker_port: 8_081,
        }
    }
}

impl PlacementStoreConfig {
    /// The limits make sense.
    pub open spec fn is_valid(self) -> bool {
        &&& 0 < self.global_queue_limit <= 1_000_000
        &&& 0 < self.global_concurrency_limit <= 1_000_000
        &&& 0 < self.default_tenant_queue_limit <= self.global_queue_limit
        &&& 0 < self.default_tenant_concurrency_limit
        &&& self.worker_heartbeat_timeout.within(300)
        &&& self.lease_lifetime.within(300)
        &&& self.broker_port != 0
    }

    /// Accepts a configuration.
    pub fn validate(self) -> (r: Result<Self, PlacementStoreError>)
        ensures
            match r {
                Ok(config) => self.is_valid() && config == self,
                Err(error) => !self.is_valid() && error@ == PlacementFailure::Invalid(
                    "placement store configuration is invalid"@,
                ),
            },
    {
        if self.global_queue_limit <= 0 || self.global_queue_limit > 1_000_000
            || self.global_concurrency_limit <= 0 || self.global_concurrency_limit > 1_000_000
            || self.default_tenant_queue_limit <= 0 || self.default_tenant_queue_limit as i64
            > self.global_queue_limit || self.default_tenant_concurrency_limit <= 0
            || !self.worker_heartbeat_timeout.is_within(300) || !self.lease_lifetime.is_within(300)
            || self.broker_port == 0 {
            return Err(
                PlacementStoreError::Invalid("placement store configuration is invalid".to_owned()),
            );
        }
        Ok(self)
    }
}

/// How the database proves itself, and the client to it.
#[derive(Debug, Clone, PartialEq, Eq)]
pub struct PlacementDatabaseTls {
    pub ca_certificate: String,
    pub client_certificate: Option<String>,
    pub client_private_key: Option<String>,
}

/// The sandbox that work is for.
#[derive(Debug, PartialEq, Eq)]
pub struct PlacementIdentity {
    pub tenant_id: String,
    pub workspace_id: String,
    pub sandbox_id: String,
}

/// Work that waits for a worker.
#[derive(Debug, Clone, PartialEq, Eq)]
pub struct QueuedWork {
    pub tenant_id: String,
    pub workspace_id: String,
    pub sandbox_id: String,
    pub idempotency_key: String,
    pub deadline_unix_ms: u64,
}

/// Work that is submitted.
#[derive(Debug)]
pub struct PlacementSubmission {
    pub work: QueuedWork,
    pub subject_id: String,
    pub pool_name: String,
    pub topology: String,
    pub resource_shape: String,
    pub compatibility_cohort: String,
    pub operation: Operation,
}

/// Reads where the broker of a worker listens.
pub fn read_broker_address(value: &str) -> (r: Result<SocketAddress, PlacementStoreError>)
    ensures
        match r {
            Ok(broker) => address::socket_of(text::utf8(value@)) == Some(broker),
            Err(error) => address::socket_of(text::utf8(value@)) is None && error@
                == PlacementFailure::Invalid("invalid broker address"@),
        },
{
    match SocketAddress::parse(value) {
        Some(broker) => Ok(broker),
        None => Err(PlacementStoreError::Invalid("invalid broker address".to_owned())),
    }
}

/// A worker that offers itself.
#[derive(Debug)]
pub struct WorkerRegistration {
    pub worker_id: String,
    pub pool_name: String,
    pub topology: String,
    pub resource_shape: String,
    pub compatibility_cohort: String,
    /// Where its broker listens.
    pub broker_address: SocketAddress,
    pub resource_ceilings: ResourceCeilings,
}

/// What has become of work.
#[derive(Clone, Copy, Debug, PartialEq, Eq, Structural)]
pub enum PlacementState {
    Queued,
    Assigned,
    /// It set up a sandbox that its worker keeps up.
    Serving,
    Completed,
    Cancelled,
    Expired,
}

/// What has become of a worker.
#[derive(Clone, Copy, Debug, PartialEq, Eq, Structural)]
pub enum PlacementWorkerState {
    Clean,
    Leased,
    Draining,
    Quarantined,
    Consumed,
}

/// What is kept of work.
#[derive(Debug)]
pub struct PlacementRecord {
    pub request_id: String,
    pub idempotency_key: String,
    pub identity: PlacementIdentity,
    pub subject_id: String,
    pub pool_name: String,
    pub state: PlacementState,
    pub worker_id: Option<String>,
    pub assignment_epoch: Option<u64>,
    pub lease_expires_unix_ms: Option<u64>,
    pub result_digest: Option<String>,
    pub response: Option<WorkloadResponse>,
}

/// Work that a worker has taken.
#[derive(Debug)]
pub struct Assignment {
    pub request_id: String,
    pub idempotency_key: String,
    pub identity: PlacementIdentity,
    pub subject_id: String,
    pub worker_id: String,
    pub epoch: u64,
    pub lease_expires_unix_ms: u64,
    pub broker_address: SocketAddress,
    pub resource_ceilings: ResourceCeilings,
    pub operation: Operation,
}

/// What comes of a submission.
#[derive(Debug)]
pub enum EnqueueOutcome {
    Queued(PlacementRecord),
    Existing(PlacementRecord),
}

/// What comes of a completion.
#[derive(Clone, Copy, Debug, PartialEq, Eq, Structural)]
pub enum CompletionOutcome {
    Published,
    AlreadyPublished,
}

/// What was seen of a pool, and what was decided about it.
#[derive(Clone, Copy, Debug, PartialEq, Eq, Structural)]
pub struct PoolObservation {
    pub current_workers: u32,
    pub clean_workers: u32,
    pub leased_or_active_workers: u32,
    pub draining_workers: u32,
    pub queued_assignments: u32,
    pub quota_workers: u32,
    pub idle_since_unix_ms: Option<u64>,
}

/// What was seen of a pool, and what was decided about it.
#[derive(Clone, Copy, Debug, PartialEq, Eq)]
pub struct DurablePoolDecision<D> {
    pub observation: PoolObservation,
    pub decision: D,
}

/// How long a phase took in a pool.
#[derive(Debug, Clone, PartialEq, Eq)]
pub struct PoolLatencyMetrics {
    pub pool_name: String,
    pub phase: String,
    pub samples: u64,
    pub p50_milliseconds: u64,
    pub p95_milliseconds: u64,
    pub p99_milliseconds: u64,
}

/// The result of a conversion that may fail for one reason.
pub open spec fn converted<T>(fits: bool, value: T, reason: Seq<char>) -> Result<
    T,
    PlacementFailure,
> {
    if fits {
        Ok(value)
    } else {
        Err(PlacementFailure::Invalid(reason))
    }
}

/// A length of time in whole milliseconds, as the database counts them.
pub fn duration_millis(duration: Duration) -> (r: Result<i64, PlacementStoreError>)
    ensures
        error::outcome(r) == converted(
            duration.nanoseconds / 1_000_000 <= i64::MAX,
            (duration.nanoseconds / 1_000_000) as i64,
            "duration is too large"@,
        ),
{
    let milliseconds: u128 = duration.as_millis();
    if milliseconds > i64::MAX as u128 {
        return Err(PlacementStoreError::Invalid("duration is too large".to_owned()));
    }
    Ok(milliseconds as i64)
}

/// A time, as the database counts it.
pub fn to_i64(value: u64) -> (r: Result<i64, PlacementStoreError>)
    ensures
        error::outcome(r) == converted(
            value <= i64::MAX,
            value as i64,
            "timestamp is too large"@,
        ),
{
    if value > i64::MAX as u64 {
        return Err(PlacementStoreError::Invalid("timestamp is too large".to_owned()));
    }
    Ok(value as i64)
}

/// A time that the database counted.
pub fn to_u64(value: i64) -> (r: Result<u64, PlacementStoreError>)
    ensures
        error::outcome(r) == converted(value >= 0, value as u64, "timestamp is negative"@),
{
    if value < 0 {
        return Err(PlacementStoreError::Invalid("timestamp is negative".to_owned()));
    }
    Ok(value as u64)
}

/// A number of rows.
pub fn count_u32(value: i64) -> (r: Result<u32, PlacementStoreError>)
    ensures
        error::outcome(r) == converted(
            0 <= value <= u32::MAX,
            value as u32,
            "database count exceeds u32"@,
        ),
{
    if value < 0 || value > u32::MAX as i64 {
        return Err(PlacementStoreError::Invalid("database count exceeds u32".to_owned()));
    }
    Ok(value as u32)
}

/// A measured number.
pub fn metric_u64(value: i64) -> (r: Result<u64, PlacementStoreError>)
    ensures
        error::outcome(r) == converted(value >= 0, value as u64, "database metric is negative"@),
{
    if value < 0 {
        return Err(PlacementStoreError::Invalid("database metric is negative".to_owned()));
    }
    Ok(value as u64)
}

/// A number that fits the integers of the database.
pub fn to_i32(value: u32, reason: &str) -> (r: Result<i32, PlacementStoreError>)
    ensures
        error::outcome(r) == converted(value <= i32::MAX, value as i32, reason@),
{
    if value > i32::MAX as u32 {
        return Err(PlacementStoreError::Invalid(reason.to_owned()));
    }
    Ok(value as i32)
}

/// The name of a pool: a host label.
pub open spec fn is_pool_name(value: Seq<char>) -> bool {
    let bytes = text::utf8(value);
    &&& 0 < bytes.len() <= 63
    &&& text::drawn_from(bytes, Alphabet::HostLabel)
    &&& text::is_alphanumeric(bytes[0])
    &&& text::is_alphanumeric(bytes.last())
}

/// Whether `value` names a pool.
pub fn valid_pool_name(value: &str) -> (r: bool)
    ensures
        r == is_pool_name(value@),
{
    let bytes = value.as_bytes();
    let length: usize = bytes.len();
    if length == 0 || length > 63 || !text::all_bytes(value, Alphabet::HostLabel) {
        return false;
    }
    proof {
        assert(Alphabet::HostLabel.admits(bytes@[0]));
        assert(Alphabet::HostLabel.admits(bytes@[length - 1]));
    }
    bytes[0] != 45 && bytes[length - 1] != 45
}

/// A bounded label.
pub open spec fn is_label(value: Seq<char>) -> bool {
    let bytes = text::utf8(value);
    0 < bytes.len() <= 128 && text::drawn_from(bytes, Alphabet::Label)
}

/// Whether `value` is a bounded label.
pub fn bounded_label(value: &str) -> (r: bool)
    ensures
        r == is_label(value@),
{
    let length: usize = value.as_bytes().len();
    0 < length && length <= 128 && text::all_bytes(value, Alphabet::Label)
}

/// How long ago a worker may last have been heard, and when a lease ends.
impl PlacementStoreConfig {
    /// The last heartbeat that is too old at `now`.
    pub open spec fn cutoff(self, now: i64) -> Result<i64, PlacementFailure> {
        let timeout = self.worker_heartbeat_timeout.nanoseconds / 1_000_000;
        if timeout > i64::MAX {
            Err(PlacementFailure::Invalid("duration is too large"@))
        } else {
            converted(
                now - timeout >= i64::MIN,
                (now - timeout) as i64,
                "invalid heartbeat time"@,
            )
        }
    }

    pub fn heartbeat_cutoff(&self, now: i64) -> (r: Result<i64, PlacementStoreError>)
        ensures
            error::outcome(r) == self.cutoff(now),
    {
        let timeout: i64 = match duration_millis(self.worker_heartbeat_timeout) {
            Ok(timeout) => timeout,
            Err(error) => return Err(error),
        };
        match now.checked_sub(timeout) {
            Some(cutoff) => Ok(cutoff),
            None => Err(PlacementStoreError::Invalid("invalid heartbeat time".to_owned())),
        }
    }

    /// When a lease that is taken at `now` ends.
    pub open spec fn expiry(self, now: i64) -> Result<i64, PlacementFailure> {
        let lifetime = self.lease_lifetime.nanoseconds / 1_000_000;
        if lifetime > i64::MAX {
            Err(PlacementFailure::Invalid("duration is too large"@))
        } else {
            converted(
                now + lifetime <= i64::MAX,
                (now + lifetime) as i64,
                "lease expiration overflow"@,
            )
        }
    }

    pub fn lease_expiry(&self, now: i64) -> (r: Result<i64, PlacementStoreError>)
        ensures
            error::outcome(r) == self.expiry(now),
    {
        let lifetime: i64 = match duration_millis(self.lease_lifetime) {
            Ok(lifetime) => lifetime,
            Err(error) => return Err(error),
        };
        match now.checked_add(lifetime) {
            Some(expiry) => Ok(expiry),
            None => Err(PlacementStoreError::Invalid("lease expiration overflow".to_owned())),
        }
    }
}

/// A configuration is accepted exactly where its queue and its concurrency are limited to 1 up to a
/// million, those of a tenant to at least 1 and its queue to no more than the whole, workers are
/// given up and leases end within 1 nanosecond up to 5 minutes, and there is a port for brokers.
pub proof fn law_accepted_configurations_are_bounded(config: PlacementStoreConfig)
    ensures
        config.is_valid() <==> {
            &&& 1 <= config.global_queue_limit <= 1_000_000
            &&& 1 <= config.global_concurrency_limit <= 1_000_000
            &&& 1 <= config.default_tenant_queue_limit <= config.global_queue_limit
            &&& 1 <= config.default_tenant_concurrency_limit
            &&& 0 < config.worker_heartbeat_timeout.nanoseconds <= 300_000_000_000
            &&& 0 < config.lease_lifetime.nanoseconds <= 300_000_000_000
            &&& config.broker_port != 0
        },
{
}

/// Under a configuration that is accepted a worker is too old that was last heard as long ago as the
/// heartbeat timeout, and a lease lasts as long as its lifetime, in whole milliseconds. There is no
/// such time only at the ends of time.
pub proof fn law_times_follow_the_configuration(config: PlacementStoreConfig, now: i64)
    requires
        config.is_valid(),
    ensures
        config.cutoff(now) matches Ok(cutoff) ==> cutoff + config.worker_heartbeat_timeout.nanoseconds
            / 1_000_000 == now,
        config.expiry(now) matches Ok(expires) ==> expires == now
            + config.lease_lifetime.nanoseconds / 1_000_000,
        config.cutoff(now) is Err <==> now - config.worker_heartbeat_timeout.nanoseconds / 1_000_000
            < i64::MIN,
        config.expiry(now) is Err <==> now + config.lease_lifetime.nanoseconds / 1_000_000
            > i64::MAX,
        now >= 0 ==> config.cutoff(now) is Ok,
        config.cutoff(now) matches Ok(cutoff) ==> cutoff <= now,
        config.expiry(now) matches Ok(expires) ==> expires >= now,
{
}

/// A pool is named by 1 to 63 lower-case letters, digits and `-`, of which `-` is neither the first
/// nor the last.
pub proof fn law_pool_names_are_host_labels(value: Seq<char>)
    ensures
        is_pool_name(value) <==> {
            let bytes = text::utf8(value);
            &&& 1 <= bytes.len() <= 63
            &&& bytes[0] != '-' as u8
            &&& bytes.last() != '-' as u8
            &&& forall|i: int|
                0 <= i < bytes.len() ==> 'a' as u8 <= (#[trigger] bytes[i]) <= 'z' as u8 || '0' as u8
                    <= bytes[i] <= '9' as u8 || bytes[i] == '-' as u8
        },
{
    let bytes = text::utf8(value);
    if bytes.len() > 0 {
        if text::drawn_from(bytes, Alphabet::HostLabel) {
            assert(Alphabet::HostLabel.admits(bytes[0]));
            assert(Alphabet::HostLabel.admits(bytes[bytes.len() - 1]));
        }
    }
}

/// A label is 1 to 128 letters, digits, `-`, `_`, `.`, `:` and `/`.
pub proof fn law_labels_are_bounded(value: Seq<char>)
    ensures
        is_label(value) <==> {
            let bytes = text::utf8(value);
            &&& 1 <= bytes.len() <= 128
            &&& forall|i: int|
                0 <= i < bytes.len() ==> 'a' as u8 <= (#[trigger] bytes[i]) <= 'z' as u8 || 'A' as u8
                    <= bytes[i] <= 'Z' as u8 || '0' as u8 <= bytes[i] <= '9' as u8 || bytes[i]
                    == '-' as u8 || bytes[i] == '_' as u8 || bytes[i] == '.' as u8 || bytes[i]
                    == ':' as u8 || bytes[i] == '/' as u8
        },
{
}

/// The schema is the fifth, and these are the limits of what is stored and asked.
pub proof fn law_placements_are_limited()
    ensures
        SCHEMA_VERSION == 5,
        MAXIMUM_PEM_BYTES == 1024 * 1024,
        MAXIMUM_OPERATION_BYTES == 512 * 1024,
        MAXIMUM_RESPONSE_BYTES == 4 * 1024 * 1024,
        MAXIMUM_WORKERS == 1_024,
{
}

/// A value that does not fit is refused with the reason given.
pub proof fn law_values_that_do_not_fit_are_refused<T>(value: T, reason: Seq<char>)
    ensures
        converted(true, value, reason) == Ok::<T, PlacementFailure>(value),
        converted(false, value, reason) == Err::<T, PlacementFailure>(
            PlacementFailure::Invalid(reason),
        ),
{
}

} // verus!

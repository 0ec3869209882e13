//! The bounds of writable root filesystems.

use crate::checks;
use crate::oci::error;
use crate::oci::error::{SandboxError, SandboxFailure};
use crate::oci::provider::config;
use crate::oci::provider::config::absolute;
use crate::text;
use crate::text::join5;
use crate::time::Duration;
use vstd::prelude::*;

verus! {

pub const MINIMUM_WRITABLE_ROOT_BYTES: u64 = 16777216;

/// Where writable roots live and how large they may be.
#[derive(Clone, Debug, PartialEq, Eq)]
pub struct WritableRootfsConfig {
    pub root: String,
    pub minimum_bytes: u64,
    pub maximum_bytes: u64,
    pub operation_timeout: Duration,
    pub mkfs_ext4_program: String,
    pub losetup_program: String,
}

impl WritableRootfsConfig {
    /// Why the configuration is refused before its root is looked at.
    pub open spec fn bounds_failure(self) -> Option<SandboxFailure> {
        checks::when(
            !(config::is_absolute(self.root@) && MINIMUM_WRITABLE_ROOT_BYTES <= self.minimum_bytes
                <= self.maximum_bytes && self.operation_timeout.within(300)),
            SandboxFailure::ImageProvider("writable rootfs configuration is invalid"@),
        )
    }

    pub fn validate_bounds(&self) -> (r: Result<(), SandboxError>)
        ensures
            error::outcome(r) == checks::verdict(self.bounds_failure()),
    {
        if !absolute(self.root.as_str()) || self.minimum_bytes < MINIMUM_WRITABLE_ROOT_BYTES
            || self.maximum_bytes < self.minimum_bytes || !self.operation_timeout.is_within(300) {
            return Err(
                SandboxError::ImageProvider("writable rootfs configuration is invalid".to_owned()),
            );
        }
        Ok(())
    }

    /// Why the configuration is refused, given what its root is.
    pub open spec fn failure(
        self,
        is_directory: bool,
        owner: u32,
        worker: u32,
    ) -> Option<SandboxFailure> {
        checks::or(
            self.bounds_failure(),
            checks::when(
                !is_directory || owner != worker,
                SandboxFailure::ImageProvider(
                    "writable rootfs root must be owned by the worker identity"@,
                ),
            ),
        )
    }

    /// The configuration with its resolved root, if the root belongs to the worker.
    pub fn validated(self, root: String, is_directory: bool, owner: u32, worker: u32) -> (r: Result<
        Self,
        SandboxError,
    >)
        ensures
            match r {
                Ok(config) => self.failure(is_directory, owner, worker) is None && config == (
                WritableRootfsConfig { root, ..self }),
                Err(error) => self.failure(is_directory, owner, worker) == Some(error@),
            },
    {
        match self.validate_bounds() {
            Ok(()) => {},
            Err(error) => return Err(error),
        }
        if !is_directory || owner != worker {
            return Err(
                SandboxError::ImageProvider(
                    "writable rootfs root must be owned by the worker identity".to_owned(),
                ),
            );
        }
        Ok(WritableRootfsConfig { root, ..self })
    }

    /// Why a quota is refused.
    pub open spec fn quota_failure(self, quota_bytes: u64) -> Option<SandboxFailure> {
        checks::when(
            !(self.minimum_bytes <= quota_bytes <= self.maximum_bytes),
            SandboxFailure::ImageProvider(
                "writable rootfs quota must be between "@ + text::decimal(self.minimum_bytes as nat)
                    + " and "@ + text::decimal(self.maximum_bytes as nat) + " bytes"@,
            ),
        )
    }

    pub fn validate_quota(&self, quota_bytes: u64) -> (r: Result<(), SandboxError>)
        ensures
            error::outcome(r) == checks::verdict(self.quota_failure(quota_bytes)),
    {
        if quota_bytes < self.minimum_bytes || quota_bytes > self.maximum_bytes {
            let minimum = text::decimal_text(self.minimum_bytes);
            let maximum = text::decimal_text(self.maximum_bytes);
            return Err(
                SandboxError::ImageProvider(
                    join5(
                        "writable rootfs quota must be between ",
                        minimum.as_str(),
                        " and ",
                        maximum.as_str(),
                        " bytes",
                    ),
                ),
            );
        }
        Ok(())
    }
}

/// A configuration is accepted exactly where its root is absolute and a directory of the worker,
/// roots have at least sixteen mebibytes and their bounds are in order, and an operation takes at
/// most five minutes.
pub proof fn law_accepted_writable_configurations_are_bounded(
    config: WritableRootfsConfig,
    is_directory: bool,
    owner: u32,
    worker: u32,
)
    ensures
        config.bounds_failure() is None <==> {
            &&& config::is_absolute(config.root@)
            &&& 16 * 1024 * 1024 <= config.minimum_bytes
            &&& config.minimum_bytes <= config.maximum_bytes
            &&& config.operation_timeout.within(300)
        },
        config.failure(is_directory, owner, worker) is None <==> config.bounds_failure() is None
            && is_directory && owner == worker,
{
}

/// A quota is accepted exactly where it is between the bounds, both included.
pub proof fn law_accepted_quotas_are_between_the_bounds(
    config: WritableRootfsConfig,
    quota_bytes: u64,
)
    ensures
        config.quota_failure(quota_bytes) is None <==> config.minimum_bytes <= quota_bytes
            && quota_bytes <= config.maximum_bytes,
{
}

} // verus!

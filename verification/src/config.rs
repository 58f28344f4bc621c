//! The options of the coordinator.

use crate::channel::valid_capacity;
use crate::error::CoordinatorError;
use vstd::prelude::*;

verus! {

/// The capacity of either channel unless the configuration says otherwise.
/// It is small on purpose: a slow consumer is felt early.
pub const DEFAULT_CHANNEL_CAPACITY: usize = 10;

/// The seconds between two sweeps unless the configuration says otherwise.
pub const DEFAULT_SWEEP_INTERVAL: u64 = 30;

/// The age in seconds beyond which a verification is swept unless the
/// configuration says otherwise.
pub const DEFAULT_EXPIRY_AGE: u64 = 300;

/// What the surrounding program may set.
#[derive(Clone, Copy, Debug, PartialEq, Eq, Structural)]
pub struct CoordinatorConfig {
    /// How many "start verification" messages may wait for the auth loop.
    pub request_capacity: usize,
    /// How many "verification succeeded" messages may wait for the bot loop.
    pub completion_capacity: usize,
    /// The seconds between two sweeps of the registry.
    pub sweep_interval: u64,
    /// The age in seconds beyond which a verification is swept.
    pub expiry_age: u64,
}

impl CoordinatorConfig {
    /// Whether the coordinator can start with these options: both channels
    /// can be made, and the sweep timer has a period.
    pub open spec fn usable(self) -> bool {
        &&& valid_capacity(self.request_capacity)
        &&& valid_capacity(self.completion_capacity)
        &&& self.sweep_interval > 0
    }

    /// The defaults.
    pub open spec fn defaults() -> CoordinatorConfig {
        CoordinatorConfig {
            request_capacity: DEFAULT_CHANNEL_CAPACITY,
            completion_capacity: DEFAULT_CHANNEL_CAPACITY,
            sweep_interval: DEFAULT_SWEEP_INTERVAL,
            expiry_age: DEFAULT_EXPIRY_AGE,
        }
    }

    /// Whether the coordinator can start with these options.
    pub fn is_usable(&self) -> (usable: bool)
        ensures
            usable == self.usable(),
    {
        self.request_capacity > 0 && self.request_capacity <= usize::MAX / 8
            && self.completion_capacity > 0 && self.completion_capacity <= usize::MAX / 8
            && self.sweep_interval > 0
    }

    /// The options themselves if the coordinator can start with them, and a
    /// fatal setup error if not.
    pub fn validated(self) -> (checked: Result<CoordinatorConfig, CoordinatorError>)
        ensures
            self.usable() ==> checked == Ok::<CoordinatorConfig, CoordinatorError>(self),
            !self.usable() ==> checked == Err::<CoordinatorConfig, CoordinatorError>(
                CoordinatorError::Fatal,
            ),
    {
        if self.is_usable() {
            Ok(self)
        } else {
            Err(CoordinatorError::Fatal)
        }
    }
}

impl Default for CoordinatorConfig {
    fn default() -> (config: CoordinatorConfig)
        ensures
            config == CoordinatorConfig::defaults(),
            config.usable(),
    {
        CoordinatorConfig {
            request_capacity: DEFAULT_CHANNEL_CAPACITY,
            completion_capacity: DEFAULT_CHANNEL_CAPACITY,
            sweep_interval: DEFAULT_SWEEP_INTERVAL,
            expiry_age: DEFAULT_EXPIRY_AGE,
        }
    }
}

} // verus!

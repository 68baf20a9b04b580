//! The engine's tunable values.

use vstd::prelude::*;

verus! {

/// Seconds between the end of one cycle and the start of the next.
pub const DEFAULT_REFRESH_INTERVAL_SECS: u64 = 300;

/// Seconds a probe may take before it counts as timed out.
pub const DEFAULT_PROBE_TIMEOUT_SECS: u64 = 5;

/// Candidates per validation group.
pub const DEFAULT_GROUP_SIZE: usize = 100;

/// Probes that may be under way at once within a group.
pub const DEFAULT_CONCURRENCY_LIMIT: usize = 100;

/// Size from which a previous pool takes in no fresh endpoints.
pub const DEFAULT_MAX_POOL_SIZE: usize = 100000;

/// Why a configuration was refused.
#[derive(Clone, Copy, Debug, PartialEq, Eq, Structural)]
pub enum ConfigError {
    /// A validation group must hold at least one candidate.
    ZeroGroupSize,
    /// At least one probe must be allowed to run.
    ZeroConcurrencyLimit,
}

/// The values of a configuration.
pub struct ConfigView {
    pub refresh_interval_secs: u64,
    pub probe_timeout_secs: u64,
    pub group_size: usize,
    pub concurrency_limit: usize,
    pub max_pool_size: usize,
}

impl ConfigView {
    /// The usual values.
    pub open spec fn standard() -> ConfigView {
        ConfigView {
            refresh_interval_secs: DEFAULT_REFRESH_INTERVAL_SECS,
            probe_timeout_secs: DEFAULT_PROBE_TIMEOUT_SECS,
            group_size: DEFAULT_GROUP_SIZE,
            concurrency_limit: DEFAULT_CONCURRENCY_LIMIT,
            max_pool_size: DEFAULT_MAX_POOL_SIZE,
        }
    }
}

/// A checked configuration: its group size and its concurrency limit are
/// not zero.
#[derive(Clone, Copy, Debug)]
pub struct Config {
    refresh_interval_secs: u64,
    probe_timeout_secs: u64,
    group_size: usize,
    concurrency_limit: usize,
    max_pool_size: usize,
}

impl View for Config {
    type V = ConfigView;

    closed spec fn view(&self) -> ConfigView {
        ConfigView {
            refresh_interval_secs: self.refresh_interval_secs,
            probe_timeout_secs: self.probe_timeout_secs,
            group_size: self.group_size,
            concurrency_limit: self.concurrency_limit,
            max_pool_size: self.max_pool_size,
        }
    }
}

impl Config {
    #[verifier::type_invariant]
    spec fn usable(&self) -> bool {
        self.group_size > 0 && self.concurrency_limit > 0
    }

    /// Checks the values and makes a configuration of them. A zero group
    /// size is reported before a zero concurrency limit.
    pub fn new(
        refresh_interval_secs: u64,
        probe_timeout_secs: u64,
        group_size: usize,
        concurrency_limit: usize,
        max_pool_size: usize,
    ) -> (made: Result<Config, ConfigError>)
        ensures
            match made {
                Ok(config) => group_size > 0 && concurrency_limit > 0 && config@ == (ConfigView {
                    refresh_interval_secs,
                    probe_timeout_secs,
                    group_size,
                    concurrency_limit,
                    max_pool_size,
                }),
                Err(ConfigError::ZeroGroupSize) => group_size == 0,
                Err(ConfigError::ZeroConcurrencyLimit) => group_size > 0 && concurrency_limit == 0,
            },
    {
        if group_size == 0 {
            Err(ConfigError::ZeroGroupSize)
        } else if concurrency_limit == 0 {
            Err(ConfigError::ZeroConcurrencyLimit)
        } else {
            Ok(
                Config {
                    refresh_interval_secs,
                    probe_timeout_secs,
                    group_size,
                    concurrency_limit,
                    max_pool_size,
                },
            )
        }
    }

    /// The configuration of the usual values.
    pub fn standard() -> (config: Config)
        ensures
            config@ == ConfigView::standard(),
    {
        Config {
            refresh_interval_secs: DEFAULT_REFRESH_INTERVAL_SECS,
            probe_timeout_secs: DEFAULT_PROBE_TIMEOUT_SECS,
            group_size: DEFAULT_GROUP_SIZE,
            concurrency_limit: DEFAULT_CONCURRENCY_LIMIT,
            max_pool_size: DEFAULT_MAX_POOL_SIZE,
        }
    }

    /// Seconds between the end of one cycle and the start of the next.
    pub fn refresh_interval_secs(&self) -> (secs: u64)
        ensures
            secs == self@.refresh_interval_secs,
    {
        self.refresh_interval_secs
    }

    /// Seconds a probe may take.
    pub fn probe_timeout_secs(&self) -> (secs: u64)
        ensures
            secs == self@.probe_timeout_secs,
    {
        self.probe_timeout_secs
    }

    /// Candidates per validation group; never zero.
    pub fn group_size(&self) -> (size: usize)
        ensures
            size == self@.group_size,
            size > 0,
    {
        proof {
            use_type_invariant(self);
        }
        self.group_size
    }

    /// Probes that may be under way at once; never zero.
    pub fn concurrency_limit(&self) -> (limit: usize)
        ensures
            limit == self@.concurrency_limit,
            limit > 0,
    {
        proof {
            use_type_invariant(self);
        }
        self.concurrency_limit
    }

    /// Size from which a previous pool takes in no fresh endpoints.
    pub fn max_pool_size(&self) -> (size: usize)
        ensures
            size == self@.max_pool_size,
    {
        self.max_pool_size
    }
}

impl Default for Config {
    fn default() -> (config: Config)
        ensures
            config@ == ConfigView::standard(),
    {
        Config::standard()
    }
}

} // verus!

//! Discard settings: when and which jobs a factory sheds under back-pressure.
use vstd::prelude::*;

use crate::factory::job::Job;

verus! {

/// The discard mode of a factory
#[derive(Debug, Clone, Copy, PartialEq, Eq, Structural)]
pub enum DiscardMode {
    /// Discard oldest incoming jobs under backpressure
    Oldest,
    /// Discard newest incoming jobs under backpressure
    Newest,
}

/// A worker's copy of the discard settings. The factory computes dynamic limits
/// and hands them to the workers, which treat the limit as fixed.
#[derive(Debug, Clone, Copy, PartialEq, Eq, Structural)]
pub enum WorkerDiscardSettings {
    /// Don't discard jobs
    Disabled,
    /// Discard beyond `limit` queued jobs, the ones `mode` picks
    Static {
        /// The queue limit
        limit: usize,
        /// Which jobs to discard
        mode: DiscardMode,
    },
}

impl WorkerDiscardSettings {
    /// The limit and mode, if discarding is configured
    pub open spec fn spec_limit_and_mode(self) -> Option<(usize, DiscardMode)> {
        match self {
            WorkerDiscardSettings::Disabled => None,
            WorkerDiscardSettings::Static { limit, mode } => Some((limit, mode)),
        }
    }

    /// Replace the limit (when discarding is configured), keeping the mode
    pub fn update_worker_limit(&mut self, new_limit: usize)
        ensures
            *final(self) == match *old(self) {
                WorkerDiscardSettings::Disabled => WorkerDiscardSettings::Disabled,
                WorkerDiscardSettings::Static { mode, .. } => WorkerDiscardSettings::Static {
                    limit: new_limit,
                    mode,
                },
            },
    {
        if let WorkerDiscardSettings::Static { limit, .. } = self {
            *limit = new_limit;
        }
    }

    /// Retrieve the discarding limit and mode, if configured
    pub fn get_limit_and_mode(&self) -> (r: Option<(usize, DiscardMode)>)
        ensures
            r == self.spec_limit_and_mode(),
    {
        match self {
            WorkerDiscardSettings::Disabled => None,
            WorkerDiscardSettings::Static { limit, mode } => Some((*limit, *mode)),
        }
    }
}

/// Controls the dynamic discard limit by receiving the current limit and
/// emitting a new one. Implemented by users of the framework.
pub trait DynamicDiscardController {
    /// Compute the new threshold for discarding
    fn compute(&mut self, current_threshold: usize) -> usize;
}

/// How a factory discards jobs: not at all, beyond a fixed queue limit, or
/// beyond a limit which a controller recomputes over time.
pub enum DiscardSettings {
    /// Don't discard jobs
    Disabled,
    /// A static, immutable limit
    Static {
        /// The queue limit. If 0, jobs never queue and are discarded once all
        /// workers are busy
        limit: usize,
        /// Whether the oldest or newest jobs are discarded
        mode: DiscardMode,
    },
    /// A limit which the `updater` recomputes over time
    Dynamic {
        /// The current queue limit
        limit: usize,
        /// Whether the oldest or newest jobs are discarded
        mode: DiscardMode,
        /// Computes new limits
        updater: Box<dyn DynamicDiscardController>,
    },
}

impl DiscardSettings {
    /// The limit and mode, if discarding is configured
    pub open spec fn spec_limit_and_mode(&self) -> Option<(usize, DiscardMode)> {
        match *self {
            DiscardSettings::Disabled => None,
            DiscardSettings::Static { limit, mode } => Some((limit, mode)),
            DiscardSettings::Dynamic { limit, mode, .. } => Some((limit, mode)),
        }
    }

    /// The workers' copy of the settings: the current limit and mode, fixed
    pub fn get_worker_settings(&self) -> (r: WorkerDiscardSettings)
        ensures
            r.spec_limit_and_mode() == self.spec_limit_and_mode(),
    {
        match self {
            DiscardSettings::Disabled => WorkerDiscardSettings::Disabled,
            DiscardSettings::Static { limit, mode } => WorkerDiscardSettings::Static {
                limit: *limit,
                mode: *mode,
            },
            DiscardSettings::Dynamic { limit, mode, .. } => WorkerDiscardSettings::Static {
                limit: *limit,
                mode: *mode,
            },
        }
    }

    /// Retrieve the discarding limit and mode, if configured
    pub fn get_limit_and_mode(&self) -> (r: Option<(usize, DiscardMode)>)
        ensures
            r == self.spec_limit_and_mode(),
    {
        match self {
            DiscardSettings::Disabled => None,
            DiscardSettings::Static { limit, mode } => Some((*limit, *mode)),
            DiscardSettings::Dynamic { limit, mode, .. } => Some((*limit, *mode)),
        }
    }

    /// Let the dynamic controller (if any) recompute the limit; other settings
    /// are kept.
    pub fn update_dynamic_limit(&mut self)
        ensures
            match *old(self) {
                DiscardSettings::Dynamic { mode, .. } => *final(self) matches DiscardSettings::Dynamic {
                    mode: m,
                    ..
                } && m == mode,
                _ => *final(self) == *old(self),
            },
    {
        if let DiscardSettings::Dynamic { limit, updater, .. } = self {
            *limit = updater.compute(*limit);
        }
    }
}

/// Reason for discarding a job
#[derive(Debug, Clone, Copy, PartialEq, Eq, Structural)]
pub enum DiscardReason {
    /// The job's time-to-live expired
    TtlExpired,
    /// The job was rejected or dropped due to loadshedding
    Loadshed,
    /// The job was dropped due to factory shutting down
    Shutdown,
}

/// Called on a job before it is dropped by the factory (to collect metrics,
/// log, tear down resources of the job). Implemented by users of the framework.
pub trait DiscardHandler<TMsg> {
    /// Called on a job prior to being dropped from the factory
    fn discard(&self, reason: DiscardReason, job: &mut Job<TMsg>);
}

} // verus!

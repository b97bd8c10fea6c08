//! The periodic maintenance task: its configuration and schedule.
//!
//! The task's run loop (spawn, sleep, repeat forever) is execution-context
//! work done by the caller; the scheduling arithmetic lives here.

use crate::config::TasksConfig;
use vstd::prelude::*;

verus! {

/// A maintenance task to be run on a fixed period, configured in minutes.
pub struct BackgroundTask {
    pub cfg: TasksConfig,
}

impl BackgroundTask {
    /// Wraps the configuration for a periodic task.
    pub fn new(cfg: TasksConfig) -> (r: BackgroundTask)
        ensures
            r.cfg == cfg,
    {
        BackgroundTask { cfg }
    }

    /// The task's period in seconds: the configured minutes, converted.
    pub fn interval_secs(&self) -> (r: u64)
        ensures
            r == self.cfg.interval_minutes as u64 * 60,
    {
        (self.cfg.interval_minutes as u64) * 60
    }
}

} // verus!

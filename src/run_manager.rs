//! The progress that a worker shares with whoever watches it.

use vstd::prelude::*;
use std::sync::atomic::{AtomicBool, AtomicU32, Ordering};
use crate::worker_thread::RunControl;

verus! {

/// Counters that the running trials publish and a watcher polls, and the
/// flag by which the watcher asks the run to stop between trials.
#[derive(Debug)]
pub struct SharedRunnerState {
    pub solved_tests: AtomicU32,
    pub required_tests: AtomicU32,
    pub stop_requested: AtomicBool,
}

impl SharedRunnerState {
    /// Counters at zero, no stop asked for.
    pub fn new() -> (r: SharedRunnerState) {
        SharedRunnerState {
            solved_tests: AtomicU32::new(0),
            required_tests: AtomicU32::new(0),
            stop_requested: AtomicBool::new(false),
        }
    }

    /// Sets the counters back to zero and withdraws any stop request.
    pub fn reset(&self) {
        self.solved_tests.store(0, Ordering::Release);
        self.required_tests.store(0, Ordering::Release);
        self.stop_requested.store(false, Ordering::Release);
    }

    /// Publishes the progress of a run.
    pub fn publish(&self, control: &RunControl) {
        self.required_tests.store(control.required(), Ordering::Release);
        self.solved_tests.store(control.solved(), Ordering::Release);
    }

    /// Asks the run to stop before its next trial.
    pub fn request_stop(&self) {
        self.stop_requested.store(true, Ordering::Release);
    }

    /// Has a stop been asked for?
    pub fn is_stop_requested(&self) -> bool {
        self.stop_requested.load(Ordering::Acquire)
    }

    /// The published count of passing trials.
    pub fn solved(&self) -> u32 {
        self.solved_tests.load(Ordering::Acquire)
    }

    /// The published quota.
    pub fn required(&self) -> u32 {
        self.required_tests.load(Ordering::Acquire)
    }
}

} // verus!

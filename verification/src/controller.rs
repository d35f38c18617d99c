//! The execution controller's state machine: two stable states, idle and
//! running, with at most one active run at a time.
//!
//! The controller itself owns no thread. The caller spawns a worker per run
//! and keeps one cancellation flag per epoch; the `epoch` field says which
//! flag is current. `stop` signals the current epoch's flag and rotates in a
//! fresh one, so a stopped run can never cancel a later run; `start` first
//! performs a `stop`, which keeps at most one run active.
use vstd::prelude::*;

verus! {

/// The controller's entire state: whether a run is active, and which
/// cancellation-flag generation is current.
#[derive(Debug, Copy, Clone, PartialEq, Eq, Structural)]
pub struct ExecutionController {
    pub running: bool,
    pub epoch: u64,
}

impl ExecutionController {
    /// A fresh controller: idle, first flag generation.
    pub fn new() -> (c: ExecutionController)
        ensures
            !c.running,
            c.epoch == 0,
    {
        ExecutionController { running: false, epoch: 0 }
    }

    /// Whether a run is active from the controller's point of view.
    pub fn is_running(&self) -> (r: bool)
        ensures
            r == self.running,
    {
        self.running
    }

    /// Stop the current run, if any: the caller must raise the flag of the
    /// old epoch and create a fresh, unset flag for the new one. The
    /// controller is idle afterward, whatever state it was in.
    pub fn stop(&mut self) -> (cancelled_epoch: u64)
        requires
            old(self).epoch < u64::MAX,
        ensures
            !final(self).running,
            final(self).epoch == old(self).epoch + 1,
            cancelled_epoch == old(self).epoch,
    {
        let cancelled = self.epoch;
        self.epoch = self.epoch + 1;
        self.running = false;
        cancelled
    }

    /// Start a run: any previous run is stopped first, so at most one run is
    /// ever active. Returns the epoch whose flag the new worker must poll;
    /// the caller clones the tree and spawns the worker on that epoch.
    pub fn start(&mut self) -> (run_epoch: u64)
        requires
            old(self).epoch < u64::MAX,
        ensures
            final(self).running,
            final(self).epoch == old(self).epoch + 1,
            run_epoch == final(self).epoch,
    {
        self.stop();
        self.running = true;
        self.epoch
    }

    /// The worker of `run_epoch` exited (by completing, being cancelled, or
    /// failing). Clears the running flag only if that run is still the
    /// current one: a stale worker cannot disturb a newer run.
    pub fn worker_finished(&mut self, run_epoch: u64)
        ensures
            final(self).epoch == old(self).epoch,
            run_epoch == old(self).epoch ==> !final(self).running,
            run_epoch != old(self).epoch ==> *final(self) == *old(self),
    {
        if run_epoch == self.epoch {
            self.running = false;
        }
    }
}

} // verus!

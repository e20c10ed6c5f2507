//! The life of a worker loop: it runs, is asked to stop or fails, and does not come back.
use vstd::prelude::*;

verus! {

/// Phase of a worker loop.
#[derive(Debug, Clone, Copy, PartialEq, Eq, Structural)]
pub enum RunnerPhase {
    Running,
    ShuttingDown,
    Failed,
    Stopped,
}

/// What a worker loop and its owner share.
#[derive(Debug, PartialEq, Eq)]
pub struct RunnerState<E> {
    pub phase: RunnerPhase,
    /// The fault that ended the loop.
    pub fatal: Option<E>,
}

impl<E> RunnerState<E> {
    pub fn new() -> (state: Self)
        ensures
            state == (RunnerState::<E> { phase: RunnerPhase::Running, fatal: None }),
    {
        RunnerState { phase: RunnerPhase::Running, fatal: None }
    }

    /// The loop must not take up more work.
    pub fn is_stopping(&self) -> (stopping: bool)
        ensures
            stopping == (self.phase != RunnerPhase::Running),
    {
        self.phase != RunnerPhase::Running
    }

    pub fn is_failed(&self) -> (failed: bool)
        ensures
            failed == (self.phase == RunnerPhase::Failed),
    {
        self.phase == RunnerPhase::Failed
    }

    pub open spec fn after_stop_request(self) -> Self {
        if self.phase == RunnerPhase::Running {
            RunnerState { phase: RunnerPhase::ShuttingDown, fatal: self.fatal }
        } else {
            self
        }
    }

    /// Asks a running loop to stop.  A loop that stopped or failed stays as it is.
    pub fn request_stop(&mut self)
        ensures
            *final(self) == old(self).after_stop_request(),
    {
        if self.phase == RunnerPhase::Running {
            self.phase = RunnerPhase::ShuttingDown;
        }
    }

    /// The loop failed, and the first fault is the one that is kept.
    pub open spec fn after_failure(self, fault: E) -> Self {
        RunnerState {
            phase: RunnerPhase::Failed,
            fatal: match self.fatal {
                Some(first) => Some(first),
                None => Some(fault),
            },
        }
    }

    pub fn fail(&mut self, fault: E)
        ensures
            *final(self) == old(self).after_failure(fault),
    {
        if self.fatal.is_none() {
            self.fatal = Some(fault);
        }
        self.phase = RunnerPhase::Failed;
    }

    /// The loop failed with this fault, whatever was noted before.
    pub open spec fn after_last_failure(self, fault: E) -> Self {
        RunnerState { phase: RunnerPhase::Failed, fatal: Some(fault) }
    }

    pub fn fail_with(&mut self, fault: E)
        ensures
            *final(self) == old(self).after_last_failure(fault),
    {
        self.phase = RunnerPhase::Failed;
        self.fatal = Some(fault);
    }

    pub open spec fn after_join(self) -> Self {
        if self.phase == RunnerPhase::ShuttingDown {
            RunnerState { phase: RunnerPhase::Stopped, fatal: self.fatal }
        } else {
            self
        }
    }

    /// The worker is gone: a loop that was asked to stop has stopped.
    pub fn joined(&mut self)
        ensures
            *final(self) == old(self).after_join(),
    {
        if self.phase == RunnerPhase::ShuttingDown {
            self.phase = RunnerPhase::Stopped;
        }
    }

    pub open spec fn after_exit(self) -> Self {
        if self.phase == RunnerPhase::Running {
            RunnerState { phase: RunnerPhase::Stopped, fatal: self.fatal }
        } else {
            self
        }
    }

    /// The worker leaves its loop.
    pub fn exited(&mut self)
        ensures
            *final(self) == old(self).after_exit(),
    {
        if self.phase == RunnerPhase::Running {
            self.phase = RunnerPhase::Stopped;
        }
    }
}

/// One of the things that happen to a worker loop.
pub open spec fn runner_moves<E>(before: RunnerState<E>, after: RunnerState<E>) -> bool {
    ||| after == before.after_stop_request()
    ||| after == before.after_join()
    ||| after == before.after_exit()
    ||| exists|fault: E| after == #[trigger] before.after_failure(fault)
    ||| exists|fault: E| after == #[trigger] before.after_last_failure(fault)
}

/// A loop that left its running phase never runs again.
pub proof fn law_runner_does_not_come_back<E>(before: RunnerState<E>, after: RunnerState<E>)
    requires
        runner_moves(before, after),
        before.phase != RunnerPhase::Running,
    ensures
        after.phase != RunnerPhase::Running,
{
}

/// A failure is final, and its fault is never lost.
pub proof fn law_failure_is_final<E>(before: RunnerState<E>, after: RunnerState<E>)
    requires
        runner_moves(before, after),
        before.phase == RunnerPhase::Failed,
        before.fatal is Some,
    ensures
        after.phase == RunnerPhase::Failed,
        after.fatal is Some,
{
}

/// What a request to stop, the end of the worker and its join do to each phase: a running loop is
/// asked to stop, or has stopped where its worker left by itself; a loop that was asked has stopped
/// once its worker is joined; and a loop that failed or stopped stays as it is.  None of them
/// touches the fault.
pub proof fn law_phases_follow_one_another<E>(fatal: Option<E>)
    ensures
        ({
            let running = RunnerState::<E> { phase: RunnerPhase::Running, fatal };
            let asked = RunnerState::<E> { phase: RunnerPhase::ShuttingDown, fatal };
            let failed = RunnerState::<E> { phase: RunnerPhase::Failed, fatal };
            let stopped = RunnerState::<E> { phase: RunnerPhase::Stopped, fatal };
            &&& running.after_stop_request() == asked
            &&& asked.after_stop_request() == asked
            &&& failed.after_stop_request() == failed
            &&& stopped.after_stop_request() == stopped
            &&& running.after_join() == running
            &&& asked.after_join() == stopped
            &&& failed.after_join() == failed
            &&& stopped.after_join() == stopped
            &&& running.after_exit() == stopped
            &&& asked.after_exit() == asked
            &&& failed.after_exit() == failed
            &&& stopped.after_exit() == stopped
        }),
{
}

/// A fault fails the loop in every phase: the first fault is kept where faults are noted, and the
/// last one where a fault replaces what was noted.
pub proof fn law_faults_fail_the_loop<E>(state: RunnerState<E>, fault: E)
    ensures
        state.after_failure(fault).phase == RunnerPhase::Failed,
        state.fatal is None ==> state.after_failure(fault).fatal == Some(fault),
        state.fatal is Some ==> state.after_failure(fault).fatal == state.fatal,
        state.after_last_failure(fault).phase == RunnerPhase::Failed,
        state.after_last_failure(fault).fatal == Some(fault),
{
}

} // verus!

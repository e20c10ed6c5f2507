//! The recovery barrier: what must have happened before anything is dispatched.
//!
//! In this order: overdue authority is expired, supervision starts empty, the notifier starts, each
//! recorded end is replayed, each execution that may be at work is reconciled, authority is swept
//! once more, and the ready invariant is checked.  A recovery that fails stops what it started.
use crate::domain::{Error, ExecutionState};
use crate::notifier::{NotifierBinding, NotifierError};
use crate::reconcile::ReconcileExecutionOutcome;
use crate::replay::{ExecutionReconciliationSnapshot, RecoveryError, TerminalReplayOutcome};
use crate::supervision::{Supervised, SupervisionError, SupervisionRegistry};
use crate::text::{join2, join4};
use crate::timing::RuntimeTimingConfig;
use vstd::prelude::*;

verus! {

/// What a recovery is asked for.
#[derive(Debug, Clone, Copy, PartialEq, Eq)]
pub struct RecoveryPlan {
    /// The timing that supervision is started with.
    pub timing: RuntimeTimingConfig,
    /// The notifier that runs along, if any.
    pub notifier: NotifierBinding,
    /// Fail right after this many readmissions.
    pub fail_after_readmits: Option<usize>,
}

impl RecoveryPlan {
    /// A notifier runs along.
    pub open spec fn notifies(self) -> bool {
        self.notifier is Enabled
    }

    pub fn runs_notifier(&self) -> (runs: bool)
        ensures
            runs == self.notifies(),
    {
        matches!(self.notifier, NotifierBinding::Enabled { .. })
    }
}

/// Faults that the running services report.
#[derive(Debug, PartialEq, Eq)]
pub struct Health {
    pub supervision: Option<SupervisionError>,
    pub notifier: Option<NotifierError>,
}

impl Health {
    /// The fault to report: that of supervision before that of the notifier.
    pub open spec fn fault(self) -> Option<RecoveryError> {
        match (self.supervision, self.notifier) {
            (Some(error), _) => Some(RecoveryError::Supervision(error)),
            (None, Some(error)) => Some(RecoveryError::Notifier(error)),
            (None, None) => None,
        }
    }

    pub fn check_healthy(self) -> (result: Result<(), RecoveryError>)
        ensures
            match self.fault() {
                Some(fault) => result == Err::<(), RecoveryError>(fault),
                None => result == Ok::<(), RecoveryError>(()),
            },
    {
        match self.supervision {
            Some(error) => Err(RecoveryError::Supervision(error)),
            None => match self.notifier {
                Some(error) => Err(RecoveryError::Notifier(error)),
                None => Ok(()),
            },
        }
    }
}

/// An execution as the ready invariant sees it.
#[derive(Debug, PartialEq, Eq)]
pub struct ReadyCandidate {
    pub snapshot: ExecutionReconciliationSnapshot,
    /// The attempt looks current at the time of the check.
    pub looks_current: bool,
}

/// What an execution has against readiness.  With current authority a RUNNING execution must be
/// supervised, and an execution in any other state must not be there.
pub open spec fn ready_defect(candidate: ReadyCandidate, supervised: Supervised) -> Option<
    Seq<char>,
> {
    let id = candidate.snapshot.execution_id@;
    if !candidate.looks_current {
        None
    } else {
        match candidate.snapshot.persisted_state {
            ExecutionState::Running => if supervised.contains_key(id) {
                None
            } else {
                Some("READY with unsupervised current RUNNING execution "@ + id)
            },
            ExecutionState::Starting | ExecutionState::Unknown | ExecutionState::Lost => Some(
                "READY with unresolved current execution "@ + id + " in state "@
                    + candidate.snapshot.persisted_state.sql_name(),
            ),
            _ => Some(
                "READY with current authority still attached to terminal execution "@ + id,
            ),
        }
    }
}

/// No execution has anything against readiness.
pub open spec fn all_ready(candidates: Seq<ReadyCandidate>, supervised: Supervised) -> bool {
    forall|i: int|
        0 <= i < candidates.len() ==> ready_defect(#[trigger] candidates[i], supervised) is None
}

fn ready_defect_of(candidate: &ReadyCandidate, registry: &SupervisionRegistry) -> (defect: Option<
    String,
>)
    requires
        registry.wf(),
    ensures
        match ready_defect(*candidate, registry@) {
            Some(text) => defect matches Some(found) && found@ == text,
            None => defect is None,
        },
{
    if !candidate.looks_current {
        return None;
    }
    let id = candidate.snapshot.execution_id.text.as_str();
    match candidate.snapshot.persisted_state {
        ExecutionState::Running => {
            if registry.contains(&candidate.snapshot.execution_id) {
                None
            } else {
                Some(join2("READY with unsupervised current RUNNING execution ", id))
            }
        },
        ExecutionState::Starting | ExecutionState::Unknown | ExecutionState::Lost => Some(
            join4(
                "READY with unresolved current execution ",
                id,
                " in state ",
                candidate.snapshot.persisted_state.as_sql(),
            ),
        ),
        _ => Some(
            join2("READY with current authority still attached to terminal execution ", id),
        ),
    }
}

/// Holds exactly if no execution has anything against readiness; otherwise the first one that does
/// is reported.
pub fn assert_ready_invariant(
    candidates: &Vec<ReadyCandidate>,
    registry: &SupervisionRegistry,
) -> (result: Result<(), RecoveryError>)
    requires
        registry.wf(),
    ensures
        match result {
            Ok(_) => all_ready(candidates@, registry@),
            Err(error) => exists|i: int|
                0 <= i < candidates@.len() && all_ready(candidates@.take(i), registry@) && (
                ready_defect(#[trigger] candidates@[i], registry@) matches Some(text) && (
                error matches RecoveryError::Invariant(m) && m@ == text)),
        },
{
    let mut i: usize = 0;
    while i < candidates.len()
        invariant
            i <= candidates@.len(),
            registry.wf(),
            forall|j: int|
                0 <= j < i ==> ready_defect(#[trigger] candidates@[j], registry@) is None,
        decreases candidates.len() - i,
    {
        if let Some(defect) = ready_defect_of(&candidates[i], registry) {
            proof {
                let earlier = candidates@.take(i as int);
                assert forall|j: int| 0 <= j < earlier.len() implies ready_defect(
                    #[trigger] earlier[j],
                    registry@,
                ) is None by {
                    assert(earlier[j] == candidates@[j]);
                }
                assert(ready_defect(candidates@[i as int], registry@) is Some);
            }
            return Err(RecoveryError::Invariant(defect));
        }
        i += 1;
    }
    Ok(())
}

/// Recovery has passed the barrier.
#[derive(Debug, PartialEq, Eq)]
pub struct RecoveredRuntime {
    /// A notifier runs along, and is handed on together with supervision.
    pub notifier: bool,
}

/// The parts of the maintenance that follows reconciliation, in their order.
#[derive(Debug, Clone, Copy, PartialEq, Eq, Structural)]
pub enum Maintenance {
    ExpireLeases,
    PromoteRetryWait,
    ReconcilePool,
    ReviveEligibleAgents,
}

/// The parts of the clean-up of a failed recovery, in their order.
#[derive(Debug, Clone, Copy, PartialEq, Eq, Structural)]
pub enum CleanupPart {
    SignalNotifier,
    SignalSupervision,
    JoinSupervision,
    JoinNotifier,
}

/// Asks the store to expire overdue authority, as after a restart.
#[derive(Debug, PartialEq, Eq)]
pub struct RestartExpiry {
    pub plan: RecoveryPlan,
}

/// Asks for supervision to be started with the timing of the plan, and with nothing supervised.
#[derive(Debug, PartialEq, Eq)]
pub struct SupervisionStart {
    pub plan: RecoveryPlan,
}

/// Asks for the notifier of the plan to be started.
#[derive(Debug, PartialEq, Eq)]
pub struct NotifierStart {
    pub plan: RecoveryPlan,
}

/// Asks the store for the executions to replay.
#[derive(Debug, PartialEq, Eq)]
pub struct ReplayLoad {
    pub plan: RecoveryPlan,
}

/// Asks for the replay of one execution.
#[derive(Debug, PartialEq, Eq)]
pub struct ReplayRound {
    pub plan: RecoveryPlan,
    pub candidates: Vec<ExecutionReconciliationSnapshot>,
    pub position: usize,
}

/// Asks the store for the executions to reconcile.
#[derive(Debug, PartialEq, Eq)]
pub struct ReconcileLoad {
    pub plan: RecoveryPlan,
}

/// Asks for the reconciliation of one execution.
#[derive(Debug, PartialEq, Eq)]
pub struct ReconcileRound {
    pub plan: RecoveryPlan,
    pub candidates: Vec<ExecutionReconciliationSnapshot>,
    pub position: usize,
    pub readmits: usize,
}

/// Asks the store for one part of the maintenance.
#[derive(Debug, PartialEq, Eq)]
pub struct MaintenanceCall {
    pub plan: RecoveryPlan,
    pub part: Maintenance,
}

/// Asks the store for the executions that the ready invariant is about.
#[derive(Debug, PartialEq, Eq)]
pub struct ReadyLoad {
    pub plan: RecoveryPlan,
}

/// Asks for one part of the clean-up.
#[derive(Debug, PartialEq, Eq)]
pub struct Cleanup {
    pub plan: RecoveryPlan,
    /// The notifier was started.
    pub notifier: bool,
    pub part: CleanupPart,
    pub error: RecoveryError,
}

/// Where a recovery stands.
#[derive(Debug, PartialEq, Eq)]
pub enum RecoveryStep {
    ExpireAtRestart(RestartExpiry),
    StartSupervision(SupervisionStart),
    StartNotifier(NotifierStart),
    LoadForReplay(ReplayLoad),
    Replay(ReplayRound),
    LoadForReconcile(ReconcileLoad),
    Reconcile(ReconcileRound),
    Maintain(MaintenanceCall),
    LoadForReady(ReadyLoad),
    CleanUp(Cleanup),
    Finished(Result<RecoveredRuntime, RecoveryError>),
}

/// Starts a recovery.
pub fn recover_runtime(plan: RecoveryPlan) -> (step: RecoveryStep)
    ensures
        step == RecoveryStep::ExpireAtRestart(RestartExpiry { plan }),
{
    RecoveryStep::ExpireAtRestart(RestartExpiry { plan })
}

/// Starts a recovery that runs supervision with this timing, and no notifier.  No event counts as
/// delivered by it.
pub fn recover_runtime_without_notifier(timing: RuntimeTimingConfig) -> (step: RecoveryStep)
    ensures
        step == RecoveryStep::ExpireAtRestart(
            RestartExpiry {
                plan: RecoveryPlan {
                    timing,
                    notifier: NotifierBinding::DisabledForTests,
                    fail_after_readmits: None,
                },
            },
        ),
{
    recover_runtime(
        RecoveryPlan {
            timing,
            notifier: NotifierBinding::DisabledForTests,
            fail_after_readmits: None,
        },
    )
}

/// The start of the clean-up: the notifier is told to stop first, if there is one.
pub open spec fn aborted(plan: RecoveryPlan, notifier: bool, error: RecoveryError) -> RecoveryStep {
    RecoveryStep::CleanUp(
        Cleanup {
            plan,
            notifier,
            part: if notifier {
                CleanupPart::SignalNotifier
            } else {
                CleanupPart::SignalSupervision
            },
            error,
        },
    )
}

fn abort(plan: RecoveryPlan, notifier: bool, error: RecoveryError) -> (step: RecoveryStep)
    ensures
        step == aborted(plan, notifier, error),
{
    let part = if notifier {
        CleanupPart::SignalNotifier
    } else {
        CleanupPart::SignalSupervision
    };
    RecoveryStep::CleanUp(Cleanup { plan, notifier, part, error })
}

/// A step that is taken only if the services are healthy.
pub open spec fn if_healthy(plan: RecoveryPlan, health: Health, step: RecoveryStep) -> RecoveryStep {
    match health.fault() {
        Some(fault) => aborted(plan, plan.notifies(), fault),
        None => step,
    }
}

fn when_healthy(plan: RecoveryPlan, health: Health, step: RecoveryStep) -> (result: RecoveryStep)
    ensures
        result == if_healthy(plan, health, step),
{
    match health.check_healthy() {
        Err(fault) => abort(plan, plan.runs_notifier(), fault),
        Ok(_) => step,
    }
}

impl RestartExpiry {
    /// Nothing was started yet, so that a fault needs no clean-up.
    pub open spec fn next(self, reply: Result<(), Error>) -> RecoveryStep {
        match reply {
            Ok(_) => RecoveryStep::StartSupervision(SupervisionStart { plan: self.plan }),
            Err(error) => RecoveryStep::Finished(Err(RecoveryError::of_kernel(error))),
        }
    }

    pub fn resume(self, reply: Result<(), Error>) -> (step: RecoveryStep)
        ensures
            step == self.next(reply),
    {
        match reply {
            Ok(_) => RecoveryStep::StartSupervision(SupervisionStart { plan: self.plan }),
            Err(error) => RecoveryStep::Finished(Err(RecoveryError::from(error))),
        }
    }
}

impl SupervisionStart {
    pub open spec fn next(self, reply: Result<(), SupervisionError>, health: Health)
        -> RecoveryStep {
        match reply {
            Err(error) => RecoveryStep::Finished(Err(RecoveryError::Supervision(error))),
            Ok(_) => if self.plan.notifies() {
                RecoveryStep::StartNotifier(NotifierStart { plan: self.plan })
            } else {
                if_healthy(
                    self.plan,
                    health,
                    RecoveryStep::LoadForReplay(ReplayLoad { plan: self.plan }),
                )
            },
        }
    }

    pub fn resume(self, reply: Result<(), SupervisionError>, health: Health) -> (step: RecoveryStep)
        ensures
            step == self.next(reply, health),
    {
        match reply {
            Err(error) => RecoveryStep::Finished(Err(RecoveryError::Supervision(error))),
            Ok(_) => {
                if self.plan.runs_notifier() {
                    RecoveryStep::StartNotifier(NotifierStart { plan: self.plan })
                } else {
                    when_healthy(
                        self.plan,
                        health,
                        RecoveryStep::LoadForReplay(ReplayLoad { plan: self.plan }),
                    )
                }
            },
        }
    }
}

impl NotifierStart {
    pub open spec fn next(self, reply: Result<(), NotifierError>, health: Health) -> RecoveryStep {
        match reply {
            Err(error) => aborted(self.plan, false, RecoveryError::Notifier(error)),
            Ok(_) => if_healthy(
                self.plan,
                health,
                RecoveryStep::LoadForReplay(ReplayLoad { plan: self.plan }),
            ),
        }
    }

    pub fn resume(self, reply: Result<(), NotifierError>, health: Health) -> (step: RecoveryStep)
        ensures
            step == self.next(reply, health),
    {
        match reply {
            Err(error) => abort(self.plan, false, RecoveryError::Notifier(error)),
            Ok(_) => when_healthy(
                self.plan,
                health,
                RecoveryStep::LoadForReplay(ReplayLoad { plan: self.plan }),
            ),
        }
    }
}

impl ReplayLoad {
    pub open spec fn next(
        self,
        reply: Result<Vec<ExecutionReconciliationSnapshot>, Error>,
        health: Health,
    ) -> RecoveryStep {
        match reply {
            Err(error) => aborted(self.plan, self.plan.notifies(), RecoveryError::of_kernel(error)),
            Ok(candidates) => if candidates@.len() == 0 {
                RecoveryStep::LoadForReconcile(ReconcileLoad { plan: self.plan })
            } else {
                if_healthy(
                    self.plan,
                    health,
                    RecoveryStep::Replay(
                        ReplayRound { plan: self.plan, candidates, position: 0 },
                    ),
                )
            },
        }
    }

    pub fn resume(
        self,
        reply: Result<Vec<ExecutionReconciliationSnapshot>, Error>,
        health: Health,
    ) -> (step: RecoveryStep)
        ensures
            step == self.next(reply, health),
    {
        match reply {
            Err(error) => abort(self.plan, self.plan.runs_notifier(), RecoveryError::from(error)),
            Ok(candidates) => {
                if candidates.len() == 0 {
                    RecoveryStep::LoadForReconcile(ReconcileLoad { plan: self.plan })
                } else {
                    when_healthy(
                        self.plan,
                        health,
                        RecoveryStep::Replay(
                            ReplayRound { plan: self.plan, candidates, position: 0 },
                        ),
                    )
                }
            },
        }
    }
}

impl ReplayRound {
    pub open spec fn wf(self) -> bool {
        self.position < self.candidates@.len()
    }

    /// The execution to replay.
    pub fn snapshot(&self) -> (snapshot: ExecutionReconciliationSnapshot)
        requires
            self.wf(),
        ensures
            snapshot == self.candidates@[self.position as int],
    {
        self.candidates[self.position].clone()
    }

    /// Any outcome leads to the next execution; a fault ends the recovery.
    pub open spec fn next(
        self,
        reply: Result<TerminalReplayOutcome, RecoveryError>,
        health: Health,
    ) -> RecoveryStep {
        match reply {
            Err(error) => aborted(self.plan, self.plan.notifies(), error),
            Ok(_) => if self.position + 1 < self.candidates@.len() {
                if_healthy(
                    self.plan,
                    health,
                    RecoveryStep::Replay(
                        ReplayRound { position: (self.position + 1) as usize, ..self },
                    ),
                )
            } else {
                RecoveryStep::LoadForReconcile(ReconcileLoad { plan: self.plan })
            },
        }
    }

    pub fn resume(self, reply: Result<TerminalReplayOutcome, RecoveryError>, health: Health)
        -> (step: RecoveryStep)
        requires
            self.wf(),
        ensures
            step == self.next(reply, health),
    {
        match reply {
            Err(error) => abort(self.plan, self.plan.runs_notifier(), error),
            Ok(_) => {
                if self.position < self.candidates.len() - 1 {
                    when_healthy(
                        self.plan,
                        health,
                        RecoveryStep::Replay(
                            ReplayRound {
                                plan: self.plan,
                                candidates: self.candidates,
                                position: self.position + 1,
                            },
                        ),
                    )
                } else {
                    RecoveryStep::LoadForReconcile(ReconcileLoad { plan: self.plan })
                }
            },
        }
    }
}

/// The first position from here on at which an execution is in no terminal state.
pub open spec fn next_open(
    candidates: Seq<ExecutionReconciliationSnapshot>,
    from: int,
) -> int
    decreases candidates.len() - from,
{
    if from < 0 || from >= candidates.len() {
        candidates.len() as int
    } else if candidates[from].persisted_state.terminal() {
        next_open(candidates, from + 1)
    } else {
        from
    }
}

fn find_open(candidates: &Vec<ExecutionReconciliationSnapshot>, from: usize) -> (position: usize)
    requires
        from <= candidates@.len(),
    ensures
        position == next_open(candidates@, from as int),
        from <= position <= candidates@.len(),
        position < candidates@.len() ==> !candidates@[position as int].persisted_state.terminal(),
{
    let mut i: usize = from;
    while i < candidates.len()
        invariant
            from <= i <= candidates@.len(),
            next_open(candidates@, from as int) == next_open(candidates@, i as int),
        decreases candidates.len() - i,
    {
        match candidates[i].persisted_state {
            ExecutionState::Succeeded | ExecutionState::Failed | ExecutionState::Terminated => {
                i += 1;
            },
            _ => {
                return i;
            },
        }
    }
    i
}

/// The reconciliation of the next open execution, or the maintenance when there is none.
pub open spec fn reconciled_from(
    plan: RecoveryPlan,
    candidates: Vec<ExecutionReconciliationSnapshot>,
    from: int,
    readmits: usize,
) -> RecoveryStep {
    let position = next_open(candidates@, from);
    if position < candidates@.len() {
        RecoveryStep::Reconcile(
            ReconcileRound { plan, candidates, position: position as usize, readmits },
        )
    } else {
        RecoveryStep::Maintain(MaintenanceCall { plan, part: Maintenance::ExpireLeases })
    }
}

fn reconcile_from(
    plan: RecoveryPlan,
    candidates: Vec<ExecutionReconciliationSnapshot>,
    from: usize,
    readmits: usize,
) -> (step: RecoveryStep)
    requires
        from <= candidates@.len(),
    ensures
        step == reconciled_from(plan, candidates, from as int, readmits),
{
    let position = find_open(&candidates, from);
    if position < candidates.len() {
        RecoveryStep::Reconcile(ReconcileRound { plan, candidates, position, readmits })
    } else {
        RecoveryStep::Maintain(MaintenanceCall { plan, part: Maintenance::ExpireLeases })
    }
}

impl ReconcileLoad {
    pub open spec fn next(
        self,
        reply: Result<Vec<ExecutionReconciliationSnapshot>, Error>,
        health: Health,
    ) -> RecoveryStep {
        match reply {
            Err(error) => aborted(self.plan, self.plan.notifies(), RecoveryError::of_kernel(error)),
            Ok(candidates) => {
                let step = reconciled_from(self.plan, candidates, 0, 0);
                if candidates@.len() == 0 {
                    step
                } else {
                    if_healthy(self.plan, health, step)
                }
            },
        }
    }

    pub fn resume(
        self,
        reply: Result<Vec<ExecutionReconciliationSnapshot>, Error>,
        health: Health,
    ) -> (step: RecoveryStep)
        ensures
            step == self.next(reply, health),
    {
        match reply {
            Err(error) => abort(self.plan, self.plan.runs_notifier(), RecoveryError::from(error)),
            Ok(candidates) => {
                let none = candidates.len() == 0;
                let step = reconcile_from(self.plan, candidates, 0, 0);
                if none {
                    step
                } else {
                    when_healthy(self.plan, health, step)
                }
            },
        }
    }
}

impl ReconcileRound {
    pub open spec fn wf(self) -> bool {
        self.position < self.candidates@.len() && self.readmits <= self.position
            && !self.candidates@[self.position as int].persisted_state.terminal()
    }

    /// The execution to reconcile.
    pub fn snapshot(&self) -> (snapshot: ExecutionReconciliationSnapshot)
        requires
            self.wf(),
        ensures
            snapshot == self.candidates@[self.position as int],
    {
        self.candidates[self.position].clone()
    }

    /// The readmissions so far, with this one.  A lost execution is not counted.
    pub open spec fn readmits_with(self, outcome: ReconcileExecutionOutcome) -> int {
        if outcome is Readmitted && self.candidates@[self.position as int].persisted_state.active() {
            self.readmits + 1
        } else {
            self.readmits as int
        }
    }

    /// The fault that was asked for comes after exactly this readmission.
    pub open spec fn fault_due(self, outcome: ReconcileExecutionOutcome) -> bool {
        self.readmits_with(outcome) > self.readmits && (self.plan.fail_after_readmits matches Some(
            n,
        ) && n == self.readmits_with(outcome))
    }

    /// Any outcome leads to the next execution, unless the fault that was asked for is due.
    pub open spec fn leads_to(
        self,
        reply: Result<ReconcileExecutionOutcome, RecoveryError>,
        health: Health,
        step: RecoveryStep,
    ) -> bool {
        match reply {
            Err(error) => step == aborted(self.plan, self.plan.notifies(), error),
            Ok(outcome) => if self.fault_due(outcome) {
                step matches RecoveryStep::CleanUp(cleanup) && (cleanup.error matches
                    RecoveryError::Invariant(m) && m@
                    == "injected startup fatal after successful readmission"@ && step == aborted(
                    self.plan,
                    self.plan.notifies(),
                    cleanup.error,
                ))
            } else {
                step == if_healthy(
                    self.plan,
                    health,
                    reconciled_from(
                        self.plan,
                        self.candidates,
                        self.position + 1,
                        self.readmits_with(outcome) as usize,
                    ),
                )
            },
        }
    }

    pub fn resume(self, reply: Result<ReconcileExecutionOutcome, RecoveryError>, health: Health)
        -> (step: RecoveryStep)
        requires
            self.wf(),
        ensures
            self.leads_to(reply, health, step),
    {
        match reply {
            Err(error) => abort(self.plan, self.plan.runs_notifier(), error),
            Ok(outcome) => {
                let length: usize = self.candidates.len();
                let mut readmits: usize = self.readmits;
                if self.candidates[self.position].persisted_state.is_active_physical() && matches!(
                    outcome,
                    ReconcileExecutionOutcome::Readmitted
                ) {
                    readmits = readmits + 1;
                    if let Some(limit) = self.plan.fail_after_readmits {
                        if limit == readmits {
                            return abort(
                                self.plan,
                                self.plan.runs_notifier(),
                                RecoveryError::Invariant(
                                    "injected startup fatal after successful readmission".to_string(),
                                ),
                            );
                        }
                    }
                }
                let step = reconcile_from(
                    self.plan,
                    self.candidates,
                    self.position + 1,
                    readmits,
                );
                when_healthy(self.plan, health, step)
            },
        }
    }
}

impl MaintenanceCall {
    pub open spec fn next(self, reply: Result<(), Error>) -> RecoveryStep {
        match reply {
            Err(error) => aborted(self.plan, self.plan.notifies(), RecoveryError::of_kernel(error)),
            Ok(_) => match self.part {
                Maintenance::ExpireLeases => RecoveryStep::Maintain(
                    MaintenanceCall { plan: self.plan, part: Maintenance::PromoteRetryWait },
                ),
                Maintenance::PromoteRetryWait => RecoveryStep::Maintain(
                    MaintenanceCall { plan: self.plan, part: Maintenance::ReconcilePool },
                ),
                Maintenance::ReconcilePool => RecoveryStep::Maintain(
                    MaintenanceCall { plan: self.plan, part: Maintenance::ReviveEligibleAgents },
                ),
                Maintenance::ReviveEligibleAgents => RecoveryStep::LoadForReady(
                    ReadyLoad { plan: self.plan },
                ),
            },
        }
    }

    pub fn resume(self, reply: Result<(), Error>) -> (step: RecoveryStep)
        ensures
            step == self.next(reply),
    {
        match reply {
            Err(error) => abort(self.plan, self.plan.runs_notifier(), RecoveryError::from(error)),
            Ok(_) => match self.part {
                Maintenance::ExpireLeases => RecoveryStep::Maintain(
                    MaintenanceCall { plan: self.plan, part: Maintenance::PromoteRetryWait },
                ),
                Maintenance::PromoteRetryWait => RecoveryStep::Maintain(
                    MaintenanceCall { plan: self.plan, part: Maintenance::ReconcilePool },
                ),
                Maintenance::ReconcilePool => RecoveryStep::Maintain(
                    MaintenanceCall { plan: self.plan, part: Maintenance::ReviveEligibleAgents },
                ),
                Maintenance::ReviveEligibleAgents => RecoveryStep::LoadForReady(
                    ReadyLoad { plan: self.plan },
                ),
            },
        }
    }
}

impl ReadyLoad {
    /// The barrier is passed if every execution is ready and both services are healthy.
    pub open spec fn leads_to(
        self,
        reply: Result<Vec<ReadyCandidate>, Error>,
        supervised: Supervised,
        health: Health,
        step: RecoveryStep,
    ) -> bool {
        match reply {
            Err(error) => step == aborted(
                self.plan,
                self.plan.notifies(),
                RecoveryError::of_kernel(error),
            ),
            Ok(candidates) => if all_ready(candidates@, supervised) {
                step == if_healthy(
                    self.plan,
                    health,
                    RecoveryStep::Finished(Ok(RecoveredRuntime { notifier: self.plan.notifies() })),
                )
            } else {
                step matches RecoveryStep::CleanUp(cleanup) && step == aborted(
                    self.plan,
                    self.plan.notifies(),
                    cleanup.error,
                ) && exists|i: int|
                    0 <= i < candidates@.len() && all_ready(candidates@.take(i), supervised) && (
                    ready_defect(#[trigger] candidates@[i], supervised) matches Some(text) && (
                    cleanup.error matches RecoveryError::Invariant(m) && m@ == text))
            },
        }
    }

    pub fn resume(
        self,
        reply: Result<Vec<ReadyCandidate>, Error>,
        registry: &SupervisionRegistry,
        health: Health,
    ) -> (step: RecoveryStep)
        requires
            registry.wf(),
        ensures
            self.leads_to(reply, registry@, health, step),
    {
        match reply {
            Err(error) => abort(self.plan, self.plan.runs_notifier(), RecoveryError::from(error)),
            Ok(candidates) => match assert_ready_invariant(&candidates, registry) {
                Err(error) => abort(self.plan, self.plan.runs_notifier(), error),
                Ok(_) => when_healthy(
                    self.plan,
                    health,
                    RecoveryStep::Finished(Ok(RecoveredRuntime { notifier: self.plan.runs_notifier() })),
                ),
            },
        }
    }
}

impl Cleanup {
    /// What follows a part of the clean-up.  Its own faults are not reported: the fault that led
    /// here is.
    pub open spec fn next(self) -> RecoveryStep {
        match self.part {
            CleanupPart::SignalNotifier => RecoveryStep::CleanUp(
                Cleanup { part: CleanupPart::SignalSupervision, ..self },
            ),
            CleanupPart::SignalSupervision => RecoveryStep::CleanUp(
                Cleanup { part: CleanupPart::JoinSupervision, ..self },
            ),
            CleanupPart::JoinSupervision => if self.notifier {
                RecoveryStep::CleanUp(Cleanup { part: CleanupPart::JoinNotifier, ..self })
            } else {
                RecoveryStep::Finished(Err(self.error))
            },
            CleanupPart::JoinNotifier => RecoveryStep::Finished(Err(self.error)),
        }
    }

    pub fn resume(self) -> (step: RecoveryStep)
        ensures
            step == self.next(),
    {
        match self.part {
            CleanupPart::SignalNotifier => RecoveryStep::CleanUp(
                Cleanup {
                    plan: self.plan,
                    notifier: self.notifier,
                    part: CleanupPart::SignalSupervision,
                    error: self.error,
                },
            ),
            CleanupPart::SignalSupervision => RecoveryStep::CleanUp(
                Cleanup {
                    plan: self.plan,
                    notifier: self.notifier,
                    part: CleanupPart::JoinSupervision,
                    error: self.error,
                },
            ),
            CleanupPart::JoinSupervision => {
                if self.notifier {
                    RecoveryStep::CleanUp(
                        Cleanup {
                            plan: self.plan,
                            notifier: self.notifier,
                            part: CleanupPart::JoinNotifier,
                            error: self.error,
                        },
                    )
                } else {
                    RecoveryStep::Finished(Err(self.error))
                }
            },
            CleanupPart::JoinNotifier => RecoveryStep::Finished(Err(self.error)),
        }
    }
}

// ---------------------------------------------------------------------------------------------
// Laws
// ---------------------------------------------------------------------------------------------

/// Some reply to the call that step `a` names leads to step `b`.
pub open spec fn recovery_follows(a: RecoveryStep, b: RecoveryStep) -> bool {
    match a {
        RecoveryStep::ExpireAtRestart(s) => exists|reply: Result<(), Error>|
            b == #[trigger] s.next(reply),
        RecoveryStep::StartSupervision(s) => exists|
            reply: Result<(), SupervisionError>,
            health: Health,
        | b == #[trigger] s.next(reply, health),
        RecoveryStep::StartNotifier(s) => exists|reply: Result<(), NotifierError>, health: Health|
            b == #[trigger] s.next(reply, health),
        RecoveryStep::LoadForReplay(s) => exists|
            reply: Result<Vec<ExecutionReconciliationSnapshot>, Error>,
            health: Health,
        | b == #[trigger] s.next(reply, health),
        RecoveryStep::Replay(s) => exists|
            reply: Result<TerminalReplayOutcome, RecoveryError>,
            health: Health,
        | b == #[trigger] s.next(reply, health),
        RecoveryStep::LoadForReconcile(s) => exists|
            reply: Result<Vec<ExecutionReconciliationSnapshot>, Error>,
            health: Health,
        | b == #[trigger] s.next(reply, health),
        RecoveryStep::Reconcile(s) => exists|
            reply: Result<ReconcileExecutionOutcome, RecoveryError>,
            health: Health,
        | #[trigger] s.leads_to(reply, health, b),
        RecoveryStep::Maintain(s) => exists|reply: Result<(), Error>| b == #[trigger] s.next(reply),
        RecoveryStep::LoadForReady(s) => exists|
            reply: Result<Vec<ReadyCandidate>, Error>,
            supervised: Supervised,
            health: Health,
        | #[trigger] s.leads_to(reply, supervised, health, b),
        RecoveryStep::CleanUp(s) => b == s.next(),
        RecoveryStep::Finished(_) => false,
    }
}

/// A recovery: it starts with the expiry after a restart, and each step follows from the one
/// before, whatever the outside services replied.
pub open spec fn recovery_run(run: Seq<RecoveryStep>) -> bool {
    &&& run.len() > 0
    &&& run[0] is ExpireAtRestart
    &&& forall|i: int|
        0 <= i && i + 1 < run.len() ==> recovery_follows(#[trigger] run[i], run[i + 1])
}

/// The stage that a step belongs to.
pub open spec fn recovery_stage(step: RecoveryStep) -> int {
    match step {
        RecoveryStep::ExpireAtRestart(_) => 0,
        RecoveryStep::StartSupervision(_) => 1,
        RecoveryStep::StartNotifier(_) => 2,
        RecoveryStep::LoadForReplay(_) => 3,
        RecoveryStep::Replay(_) => 4,
        RecoveryStep::LoadForReconcile(_) => 5,
        RecoveryStep::Reconcile(_) => 6,
        RecoveryStep::Maintain(s) => match s.part {
            Maintenance::ExpireLeases => 7,
            Maintenance::PromoteRetryWait => 8,
            Maintenance::ReconcilePool => 9,
            Maintenance::ReviveEligibleAgents => 10,
        },
        RecoveryStep::LoadForReady(_) => 11,
        RecoveryStep::CleanUp(s) => match s.part {
            CleanupPart::SignalNotifier => 12,
            CleanupPart::SignalSupervision => 13,
            CleanupPart::JoinSupervision => 14,
            CleanupPart::JoinNotifier => 15,
        },
        RecoveryStep::Finished(_) => 16,
    }
}

/// A step that stands at an execution of its list, and at one that is still to be reconciled.
pub open spec fn recovery_step_wf(step: RecoveryStep) -> bool {
    match step {
        RecoveryStep::Replay(s) => s.wf(),
        RecoveryStep::Reconcile(s) => s.wf(),
        RecoveryStep::CleanUp(s) => !s.notifier ==> s.part != CleanupPart::SignalNotifier && s.part
            != CleanupPart::JoinNotifier,
        _ => true,
    }
}

proof fn lemma_next_open(candidates: Seq<ExecutionReconciliationSnapshot>, from: int)
    requires
        0 <= from <= candidates.len(),
    ensures
        from <= next_open(candidates, from) <= candidates.len(),
        next_open(candidates, from) < candidates.len() ==> !candidates[next_open(
            candidates,
            from,
        )].persisted_state.terminal(),
    decreases candidates.len() - from,
{
    if from < candidates.len() && candidates[from].persisted_state.terminal() {
        lemma_next_open(candidates, from + 1);
    }
}

/// Every step moves a recovery forward: to a later stage, or to a later execution of the same
/// stage.  Every step stands where it can be carried out.
pub proof fn law_recovery_moves_forward(a: RecoveryStep, b: RecoveryStep)
    requires
        recovery_follows(a, b),
        recovery_step_wf(a),
    ensures
        recovery_step_wf(b),
        recovery_stage(a) < recovery_stage(b) || (a matches RecoveryStep::Replay(s) && (b matches
            RecoveryStep::Replay(t) && s.position < t.position && s.candidates == t.candidates))
            || (a matches RecoveryStep::Reconcile(s) && (b matches RecoveryStep::Reconcile(t)
            && s.position < t.position && s.candidates == t.candidates)),
{
    match a {
        RecoveryStep::LoadForReconcile(s) => {
            let (reply, health) = choose|
                reply: Result<Vec<ExecutionReconciliationSnapshot>, Error>,
                health: Health,
            | b == #[trigger] s.next(reply, health);
            if let Ok(candidates) = reply {
                assert(candidates@.len() == candidates.len());
                lemma_next_open(candidates@, 0);
            }
        },
        RecoveryStep::Reconcile(s) => {
            assert(s.candidates@.len() == s.candidates.len());
            lemma_next_open(s.candidates@, s.position + 1);
        },
        RecoveryStep::Replay(s) => {
            assert(s.candidates@.len() == s.candidates.len());
        },
        RecoveryStep::LoadForReplay(s) => {
            let (reply, health) = choose|
                reply: Result<Vec<ExecutionReconciliationSnapshot>, Error>,
                health: Health,
            | b == #[trigger] s.next(reply, health);
            if let Ok(candidates) = reply {
                assert(candidates@.len() == candidates.len());
            }
        },
        _ => {},
    }
}

proof fn lemma_stages(run: Seq<RecoveryStep>, i: int, j: int)
    requires
        recovery_run(run),
        0 <= i <= j < run.len(),
    ensures
        recovery_step_wf(run[i]),
        recovery_step_wf(run[j]),
        recovery_stage(run[i]) <= recovery_stage(run[j]),
    decreases j,
{
    if j > 0 {
        lemma_stages(run, if i < j { i } else { j - 1 }, j - 1);
        assert(recovery_follows(run[j - 1], run[j - 1 + 1]));
        law_recovery_moves_forward(run[j - 1], run[j]);
    }
}

/// The plan that a step of a recovery is carried out with.
pub open spec fn plan_of(step: RecoveryStep) -> Option<RecoveryPlan> {
    match step {
        RecoveryStep::ExpireAtRestart(s) => Some(s.plan),
        RecoveryStep::StartSupervision(s) => Some(s.plan),
        RecoveryStep::StartNotifier(s) => Some(s.plan),
        RecoveryStep::LoadForReplay(s) => Some(s.plan),
        RecoveryStep::Replay(s) => Some(s.plan),
        RecoveryStep::LoadForReconcile(s) => Some(s.plan),
        RecoveryStep::Reconcile(s) => Some(s.plan),
        RecoveryStep::Maintain(s) => Some(s.plan),
        RecoveryStep::LoadForReady(s) => Some(s.plan),
        RecoveryStep::CleanUp(s) => Some(s.plan),
        RecoveryStep::Finished(_) => None,
    }
}

proof fn lemma_next_plan(a: RecoveryStep, b: RecoveryStep)
    requires
        recovery_follows(a, b),
    ensures
        plan_of(b) is Some ==> plan_of(a) == plan_of(b),
{
}

/// A recovery has one plan throughout: supervision starts with the timing that was asked for, and
/// a notifier starts only if one was asked for.
pub proof fn law_recovery_keeps_plan(run: Seq<RecoveryStep>, j: int)
    requires
        recovery_run(run),
        0 <= j < run.len(),
        plan_of(run[j]) is Some,
    ensures
        plan_of(run[j]) == plan_of(run[0]),
        run[j] matches RecoveryStep::StartNotifier(call) ==> call.plan.notifies(),
    decreases j,
{
    if j > 0 {
        assert(recovery_follows(run[j - 1], run[j - 1 + 1]));
        lemma_next_plan(run[j - 1], run[j]);
        law_recovery_keeps_plan(run, j - 1);
    }
}

/// Every recorded end is replayed before any execution is reconciled, and every execution is
/// reconciled before the maintenance.
pub proof fn law_recovery_order(run: Seq<RecoveryStep>, i: int, j: int)
    requires
        recovery_run(run),
        0 <= i < j < run.len(),
    ensures
        !(run[i] is Reconcile && run[j] is Replay),
        !(run[i] is Maintain && (run[j] is Replay || run[j] is Reconcile)),
        !(run[i] is Replay && run[j] is StartSupervision),
{
    lemma_stages(run, i, j);
}

/// The barrier is passed only after the ready invariant was found to hold, with both services
/// healthy: no execution with current authority is unsupervised, unresolved or ended.
pub proof fn law_recovered_means_ready(run: Seq<RecoveryStep>, j: int)
    requires
        recovery_run(run),
        0 <= j < run.len(),
        run[j] is Finished,
        run[j]->Finished_0 is Ok,
    ensures
        j > 0,
        run[j - 1] is LoadForReady,
        exists|candidates: Vec<ReadyCandidate>, supervised: Supervised, health: Health|
            all_ready(candidates@, supervised) && health.fault() is None && #[trigger] run[j
                - 1]->LoadForReady_0.leads_to(Ok(candidates), supervised, health, run[j]),
{
    assert(recovery_follows(run[j - 1], run[j - 1 + 1]));
    if let RecoveryStep::LoadForReady(s) = run[j - 1] {
        let (reply, supervised, health) = choose|
            reply: Result<Vec<ReadyCandidate>, Error>,
            supervised: Supervised,
            health: Health,
        | #[trigger] s.leads_to(reply, supervised, health, run[j]);
        assert(s.leads_to(Ok(reply->Ok_0), supervised, health, run[j]));
    }
}

/// A recovery that fails once supervision runs stops it first: its thread is joined, and that of
/// the notifier, if there is one, after it.
pub proof fn law_failed_recovery_stops_services(run: Seq<RecoveryStep>, j: int)
    requires
        recovery_run(run),
        0 <= j < run.len(),
        run[j] is Finished,
        run[j]->Finished_0 is Err,
    ensures
        j > 0,
        run[j - 1] is ExpireAtRestart || run[j - 1] is StartSupervision || (run[j
            - 1] matches RecoveryStep::CleanUp(last) && last.part == (if last.notifier {
            CleanupPart::JoinNotifier
        } else {
            CleanupPart::JoinSupervision
        }) && run[j]->Finished_0->Err_0 == last.error),
{
    assert(recovery_follows(run[j - 1], run[j - 1 + 1]));
    lemma_stages(run, j - 1, j);
}

/// The clean-up signals the notifier before supervision and joins supervision before the notifier.
pub proof fn law_cleanup_order(cleanup: Cleanup)
    requires
        cleanup.notifier,
        cleanup.part == CleanupPart::SignalNotifier,
    ensures
        cleanup.next() matches RecoveryStep::CleanUp(second) && second.part
            == CleanupPart::SignalSupervision && (second.next() matches RecoveryStep::CleanUp(third)
            && third.part == CleanupPart::JoinSupervision && (third.next() matches
            RecoveryStep::CleanUp(fourth) && fourth.part == CleanupPart::JoinNotifier
            && fourth.next() == RecoveryStep::Finished(Err(cleanup.error)))),
{
}

/// The state is one that an execution has ended in.
pub open spec fn has_ended(state: ExecutionState) -> bool {
    match state {
        ExecutionState::Succeeded | ExecutionState::Failed | ExecutionState::Terminated => true,
        ExecutionState::Starting | ExecutionState::Running | ExecutionState::Unknown
        | ExecutionState::Lost => false,
    }
}

proof fn lemma_next_open_is_first(
    candidates: Seq<ExecutionReconciliationSnapshot>,
    from: int,
    skipped: int,
)
    requires
        0 <= from <= skipped < next_open(candidates, from),
        skipped < candidates.len(),
    ensures
        has_ended(candidates[skipped].persisted_state),
    decreases candidates.len() - from,
{
    if from < skipped && candidates[from].persisted_state.terminal() {
        lemma_next_open_is_first(candidates, from + 1, skipped);
    }
}

/// The executions to reconcile are loaded once.
proof fn lemma_single_load(run: Seq<RecoveryStep>, l: int, m: int)
    requires
        recovery_run(run),
        0 <= l < m < run.len(),
        run[l] is LoadForReconcile,
    ensures
        !(run[m] is LoadForReconcile),
{
    lemma_stages(run, l, m);
    assert(recovery_follows(run[l], run[l + 1]));
    law_recovery_moves_forward(run[l], run[l + 1]);
    lemma_stages(run, l + 1, m);
}

/// An execution that is open is reconciled before the recovery gets past it.
proof fn lemma_reconciled_before(
    run: Seq<RecoveryStep>,
    l: int,
    candidates: Vec<ExecutionReconciliationSnapshot>,
    health: Health,
    p: int,
    i: int,
) -> (k: int)
    requires
        recovery_run(run),
        0 <= l < i < run.len(),
        run[l] is LoadForReconcile,
        run[l + 1] == run[l]->LoadForReconcile_0.next(Ok(candidates), health),
        run[i] is Maintain || (run[i] is Reconcile && run[i]->Reconcile_0.candidates == candidates
            && run[i]->Reconcile_0.position > p),
        0 <= p < candidates@.len(),
        !has_ended(candidates@[p].persisted_state),
    ensures
        l < k < i,
        run[k] is Reconcile,
        run[k]->Reconcile_0.candidates == candidates,
        run[k]->Reconcile_0.position == p,
    decreases i,
{
    lemma_stages(run, i - 1, i);
    assert(recovery_follows(run[i - 1], run[i - 1 + 1]));
    if l < i - 1 {
        lemma_single_load(run, l, i - 1);
        match run[i - 1] {
            RecoveryStep::Reconcile(s) => {
                lemma_reconciles_list(run, l, candidates, health, i - 1);
                if s.position == p {
                    i - 1
                } else {
                    if s.position < p {
                        lemma_next_open(candidates@, s.position + 1);
                        lemma_next_open_is_first(candidates@, s.position + 1, p);
                    }
                    lemma_reconciled_before(run, l, candidates, health, p, i - 1)
                }
            },
            _ => lemma_reconciled_before(run, l, candidates, health, p, i - 1),
        }
    } else {
        lemma_next_open(candidates@, 0);
        lemma_next_open_is_first(candidates@, 0, p);
        l
    }
}

proof fn lemma_reconciles_list(
    run: Seq<RecoveryStep>,
    l: int,
    candidates: Vec<ExecutionReconciliationSnapshot>,
    health: Health,
    i: int,
)
    requires
        recovery_run(run),
        0 <= l < i < run.len(),
        run[l] is LoadForReconcile,
        run[l + 1] == run[l]->LoadForReconcile_0.next(Ok(candidates), health),
        run[i] is Reconcile,
    ensures
        run[i]->Reconcile_0.candidates == candidates,
    decreases i,
{
    assert(recovery_follows(run[i - 1], run[i - 1 + 1]));
    if l < i - 1 {
        lemma_single_load(run, l, i - 1);
        lemma_reconciles_list(run, l, candidates, health, i - 1);
    }
}

/// Reconciliation is complete: a recovery that gets to its maintenance has reconciled every
/// execution that the store listed and that has not ended, each at its place in the list.
pub proof fn law_reconciliation_is_complete(
    run: Seq<RecoveryStep>,
    l: int,
    j: int,
    candidates: Vec<ExecutionReconciliationSnapshot>,
    health: Health,
    p: int,
)
    requires
        recovery_run(run),
        0 <= l < j < run.len(),
        run[l] is LoadForReconcile,
        run[l + 1] == run[l]->LoadForReconcile_0.next(Ok(candidates), health),
        run[j] is Maintain,
        0 <= p < candidates@.len(),
        !has_ended(candidates@[p].persisted_state),
    ensures
        exists|k: int|
            l < k < j && (#[trigger] run[k] matches RecoveryStep::Reconcile(s) && s.candidates
                == candidates && s.position == p),
{
    let k = lemma_reconciled_before(run, l, candidates, health, p, j);
    assert(run[k] is Reconcile);
}

/// No execution is reconciled twice, and none that has ended is reconciled at all.
pub proof fn law_each_open_execution_is_reconciled_once(run: Seq<RecoveryStep>, i: int, j: int)
    requires
        recovery_run(run),
        0 <= i < j < run.len(),
        run[i] is Reconcile,
        run[j] is Reconcile,
    ensures
        run[i]->Reconcile_0.position < run[j]->Reconcile_0.position,
        run[i]->Reconcile_0.candidates == run[j]->Reconcile_0.candidates,
        run[j]->Reconcile_0.position < run[j]->Reconcile_0.candidates@.len(),
        !has_ended(
            run[j]->Reconcile_0.candidates@[run[j]->Reconcile_0.position as int].persisted_state,
        ),
    decreases j,
{
    lemma_stages(run, i, j - 1);
    lemma_stages(run, j - 1, j);
    assert(recovery_follows(run[j - 1], run[j - 1 + 1]));
    law_recovery_moves_forward(run[j - 1], run[j]);
    if i < j - 1 {
        law_each_open_execution_is_reconciled_once(run, i, j - 1);
    }
}

/// A replay that is not the last is followed by the next one, and the last by the load, unless
/// the recovery is given up.
proof fn lemma_replay_follows(a: RecoveryStep, b: RecoveryStep)
    requires
        recovery_follows(a, b),
        a is Replay,
    ensures
        b is CleanUp || ({
            let s = a->Replay_0;
            if s.position + 1 < s.candidates@.len() {
                b is Replay && b->Replay_0.candidates == s.candidates && b->Replay_0.position
                    == s.position + 1
            } else {
                b is LoadForReconcile
            }
        }),
{
    let s = a->Replay_0;
    let (reply, health) = choose|
        reply: Result<TerminalReplayOutcome, RecoveryError>,
        health: Health,
    | b == #[trigger] s.next(reply, health);
    assert(s.candidates.len() == s.candidates@.len());
}

/// In a recovery that gets to the load, a replay is followed by the next one, or by the load if it
/// is the last.
proof fn lemma_replay_step(run: Seq<RecoveryStep>, i: int, j: int)
    requires
        recovery_run(run),
        0 <= i < j < run.len(),
        run[i] is Replay,
        run[j] is LoadForReconcile,
    ensures
        ({
            let s = run[i]->Replay_0;
            if s.position + 1 < s.candidates@.len() {
                i + 1 < j && run[i + 1] is Replay && run[i + 1]->Replay_0.candidates == s.candidates
                    && run[i + 1]->Replay_0.position == s.position + 1
            } else {
                i + 1 == j
            }
        }),
{
    assert(recovery_follows(run[i], run[i + 1]));
    lemma_replay_follows(run[i], run[i + 1]);
    lemma_stages(run, i + 1, j);
    if i + 1 < j && run[i + 1] is LoadForReconcile {
        lemma_single_load(run, i + 1, j);
    }
}

/// The step is the replay of the execution at this place of the list.
pub open spec fn replays(
    step: RecoveryStep,
    candidates: Vec<ExecutionReconciliationSnapshot>,
    place: int,
) -> bool {
    step matches RecoveryStep::Replay(s) && s.candidates == candidates && s.position == place
}

/// The replay starts with the first execution of the list.
#[verifier::spinoff_prover]
proof fn lemma_replay_begins(
    run: Seq<RecoveryStep>,
    l: int,
    j: int,
    candidates: Vec<ExecutionReconciliationSnapshot>,
    health: Health,
)
    requires
        recovery_run(run),
        0 <= l < j < run.len(),
        run[l] is LoadForReplay,
        run[l + 1] == run[l]->LoadForReplay_0.next(Ok(candidates), health),
        run[j] is LoadForReconcile,
        candidates@.len() > 0,
    ensures
        l + 1 < j,
        replays(run[l + 1], candidates, 0),
{
    lemma_stages(run, l + 1, j);
}

#[verifier::spinoff_prover]
#[verifier::rlimit(40)]
proof fn lemma_replay_at(
    run: Seq<RecoveryStep>,
    l: int,
    j: int,
    candidates: Vec<ExecutionReconciliationSnapshot>,
    health: Health,
    p: int,
)
    requires
        recovery_run(run),
        0 <= l < j < run.len(),
        run[l] is LoadForReplay,
        run[l + 1] == run[l]->LoadForReplay_0.next(Ok(candidates), health),
        run[j] is LoadForReconcile,
        0 <= p < candidates@.len(),
    ensures
        l + 1 + p < j,
        replays(run[l + 1 + p], candidates, p),
    decreases p,
{
    if p == 0 {
        lemma_replay_begins(run, l, j, candidates, health);
    } else {
        lemma_replay_at(run, l, j, candidates, health, p - 1);
        lemma_replay_step(run, l + 1 + (p - 1), j);
    }
}

/// The replay is complete: before the executions to reconcile are loaded, every execution that the
/// store listed is replayed, once and in the order of the list.
#[verifier::spinoff_prover]
#[verifier::rlimit(40)]
pub proof fn law_replay_is_complete(
    run: Seq<RecoveryStep>,
    l: int,
    j: int,
    candidates: Vec<ExecutionReconciliationSnapshot>,
    health: Health,
)
    requires
        recovery_run(run),
        0 <= l < j < run.len(),
        run[l] is LoadForReplay,
        run[l + 1] == run[l]->LoadForReplay_0.next(Ok(candidates), health),
        run[j] is LoadForReconcile,
    ensures
        j == l + 1 + candidates@.len(),
        forall|p: int|
            0 <= p < candidates@.len() ==> #[trigger] replays(run[l + 1 + p], candidates, p),
{
    let n = candidates@.len() as int;
    if n > 0 {
        lemma_replay_at(run, l, j, candidates, health, n - 1);
        lemma_replay_step(run, l + 1 + (n - 1), j);
    } else if l + 1 < j {
        lemma_single_load(run, l + 1, j);
    }
    assert forall|p: int| 0 <= p < n implies #[trigger] replays(
        run[l + 1 + p],
        candidates,
        p,
    ) by {
        lemma_replay_at(run, l, j, candidates, health, p);
    }
}

/// With healthy services every reply that reports no fault leads on: supervision, the notifier if
/// one was asked for, the replay from its first execution, the reconciliation, and the four parts
/// of the maintenance in their order.
pub proof fn law_healthy_recovery_goes_on(plan: RecoveryPlan, health: Health)
    requires
        health.supervision is None,
        health.notifier is None,
    ensures
        (RestartExpiry { plan }).next(Ok(())) == RecoveryStep::StartSupervision(
            SupervisionStart { plan },
        ),
        (SupervisionStart { plan }).next(Ok(()), health) == (match plan.notifier {
            NotifierBinding::Enabled { .. } => RecoveryStep::StartNotifier(NotifierStart { plan }),
            NotifierBinding::DisabledForTests => RecoveryStep::LoadForReplay(ReplayLoad { plan }),
        }),
        (NotifierStart { plan }).next(Ok(()), health) == RecoveryStep::LoadForReplay(
            ReplayLoad { plan },
        ),
        forall|candidates: Vec<ExecutionReconciliationSnapshot>|
            candidates@.len() > 0 ==> #[trigger] (ReplayLoad { plan }).next(Ok(candidates), health)
                == RecoveryStep::Replay(ReplayRound { plan, candidates, position: 0 }),
        (MaintenanceCall { plan, part: Maintenance::ExpireLeases }).next(Ok(()))
            == RecoveryStep::Maintain(
            MaintenanceCall { plan, part: Maintenance::PromoteRetryWait },
        ),
        (MaintenanceCall { plan, part: Maintenance::PromoteRetryWait }).next(Ok(()))
            == RecoveryStep::Maintain(MaintenanceCall { plan, part: Maintenance::ReconcilePool }),
        (MaintenanceCall { plan, part: Maintenance::ReconcilePool }).next(Ok(()))
            == RecoveryStep::Maintain(
            MaintenanceCall { plan, part: Maintenance::ReviveEligibleAgents },
        ),
        (MaintenanceCall { plan, part: Maintenance::ReviveEligibleAgents }).next(Ok(()))
            == RecoveryStep::LoadForReady(ReadyLoad { plan }),
{
}

/// A list without executions is done at once, however the services are.
pub proof fn law_empty_lists_are_done(
    plan: RecoveryPlan,
    health: Health,
    none: Vec<ExecutionReconciliationSnapshot>,
)
    requires
        none@.len() == 0,
    ensures
        (ReplayLoad { plan }).next(Ok(none), health) == RecoveryStep::LoadForReconcile(
            ReconcileLoad { plan },
        ),
        (ReconcileLoad { plan }).next(Ok(none), health) == RecoveryStep::Maintain(
            MaintenanceCall { plan, part: Maintenance::ExpireLeases },
        ),
{
}

/// The step is the start of a clean-up with this error, after which the notifier is stopped exactly
/// if it was started.
pub open spec fn cleans_up(
    step: RecoveryStep,
    plan: RecoveryPlan,
    notifier: bool,
    error: RecoveryError,
) -> bool {
    step matches RecoveryStep::CleanUp(cleanup) && cleanup.plan == plan && cleanup.notifier
        == notifier && cleanup.error == error && cleanup.part == (if notifier {
        CleanupPart::SignalNotifier
    } else {
        CleanupPart::SignalSupervision
    })
}

/// A fault of the store ends a recovery: before anything runs at once, and later with a clean-up
/// of what runs.  A contradiction of the durable state is told apart from other faults.
pub proof fn law_store_fault_ends_recovery(plan: RecoveryPlan, error: Error, health: Health)
    ensures
        ({
            let told = match error {
                Error::InvariantViolation(m) => RecoveryError::Invariant(m),
                _ => RecoveryError::Persistence(error),
            };
            let notifier = plan.notifier is Enabled;
            &&& (RestartExpiry { plan }).next(Err(error)) == RecoveryStep::Finished(Err(told))
            &&& cleans_up((ReplayLoad { plan }).next(Err(error), health), plan, notifier, told)
            &&& cleans_up((ReconcileLoad { plan }).next(Err(error), health), plan, notifier, told)
            &&& forall|part: Maintenance|
                cleans_up(
                    #[trigger] (MaintenanceCall { plan, part }).next(Err(error)),
                    plan,
                    notifier,
                    told,
                )
            &&& forall|supervised: Supervised, step: RecoveryStep|
                #[trigger] (ReadyLoad { plan }).leads_to(Err(error), supervised, health, step)
                    ==> cleans_up(step, plan, notifier, told)
        }),
{
}

/// A service that cannot be started ends a recovery, and only what runs by then is stopped.
pub proof fn law_unstarted_service_ends_recovery(
    plan: RecoveryPlan,
    supervision: SupervisionError,
    notifier: NotifierError,
    health: Health,
)
    ensures
        (SupervisionStart { plan }).next(Err(supervision), health) == RecoveryStep::Finished(
            Err(RecoveryError::Supervision(supervision)),
        ),
        cleans_up(
            (NotifierStart { plan }).next(Err(notifier), health),
            plan,
            false,
            RecoveryError::Notifier(notifier),
        ),
{
}

/// A fault of a replay or of a reconciliation is the one that the recovery reports.
pub proof fn law_fault_of_an_execution_ends_recovery(
    replay: ReplayRound,
    reconcile: ReconcileRound,
    error: RecoveryError,
    health: Health,
    step: RecoveryStep,
)
    requires
        reconcile.leads_to(Err(error), health, step),
    ensures
        cleans_up(
            replay.next(Err(error), health),
            replay.plan,
            replay.plan.notifier is Enabled,
            error,
        ),
        cleans_up(step, reconcile.plan, reconcile.plan.notifier is Enabled, error),
{
}

/// A service that failed ends a recovery wherever there is more to do: the fault of supervision is
/// reported, and that of the notifier only if supervision is well.
pub proof fn law_failed_service_ends_recovery(
    plan: RecoveryPlan,
    health: Health,
    candidates: Vec<ExecutionReconciliationSnapshot>,
    replay: ReplayRound,
    replayed: TerminalReplayOutcome,
    reconcile: ReconcileRound,
    reconciled: ReconcileExecutionOutcome,
    next: RecoveryStep,
)
    requires
        health.supervision is Some || health.notifier is Some,
        candidates@.len() > 0,
        replay.plan == plan,
        replay.position + 1 < replay.candidates@.len(),
        reconcile.plan == plan,
        plan.fail_after_readmits is None,
        reconcile.leads_to(Ok(reconciled), health, next),
    ensures
        ({
            let told = match health.supervision {
                Some(error) => RecoveryError::Supervision(error),
                None => RecoveryError::Notifier(health.notifier->0),
            };
            let notifier = plan.notifier is Enabled;
            &&& !notifier ==> cleans_up(
                (SupervisionStart { plan }).next(Ok(()), health),
                plan,
                notifier,
                told,
            )
            &&& cleans_up((NotifierStart { plan }).next(Ok(()), health), plan, notifier, told)
            &&& cleans_up((ReplayLoad { plan }).next(Ok(candidates), health), plan, notifier, told)
            &&& cleans_up(replay.next(Ok(replayed), health), plan, notifier, told)
            &&& cleans_up(
                (ReconcileLoad { plan }).next(Ok(candidates), health),
                plan,
                notifier,
                told,
            )
            &&& cleans_up(next, plan, notifier, told)
        }),
{
}

/// A recovery that was asked to fail after a number of readmissions fails right after that many,
/// and a readmission is one of an execution that was at work; no other outcome is counted.
pub proof fn law_readmissions_are_counted(
    round: ReconcileRound,
    outcome: ReconcileExecutionOutcome,
    health: Health,
    step: RecoveryStep,
)
    requires
        round.wf(),
        health.supervision is None,
        health.notifier is None,
        round.leads_to(Ok(outcome), health, step),
    ensures
        ({
            let state = round.candidates@[round.position as int].persisted_state;
            let counted = outcome is Readmitted && state != ExecutionState::Lost;
            let count = round.readmits + (if counted {
                1int
            } else {
                0int
            });
            if counted && (round.plan.fail_after_readmits matches Some(n) && n == count) {
                step matches RecoveryStep::CleanUp(cleanup) && (cleanup.error matches
                    RecoveryError::Invariant(m) && m@
                    == "injected startup fatal after successful readmission"@ && cleans_up(
                    step,
                    round.plan,
                    round.plan.notifier is Enabled,
                    cleanup.error,
                ))
            } else {
                &&& step is Reconcile || step is Maintain
                &&& step matches RecoveryStep::Reconcile(next) ==> next.readmits == count
                    && next.plan == round.plan
                &&& step matches RecoveryStep::Maintain(call) ==> call.plan == round.plan
                    && call.part == Maintenance::ExpireLeases
            }
        }),
{
    lemma_next_open(round.candidates@, round.position + 1);
    assert(round.candidates.len() == round.candidates@.len());
}

/// An execution stands against readiness exactly if its attempt looks current and it is not a
/// supervised RUNNING one.
pub open spec fn stands_against_ready(candidate: ReadyCandidate, supervised: Supervised) -> bool {
    candidate.looks_current && !(candidate.snapshot.persisted_state == ExecutionState::Running
        && supervised.contains_key(candidate.snapshot.execution_id@))
}

/// The barrier is passed exactly if nothing stands against readiness and both services are well,
/// and the runtime has a notifier exactly if one was asked for.
pub proof fn law_ready_is_decided_by_the_executions(
    load: ReadyLoad,
    candidates: Vec<ReadyCandidate>,
    supervised: Supervised,
    health: Health,
    step: RecoveryStep,
)
    requires
        load.leads_to(Ok(candidates), supervised, health, step),
    ensures
        (step is Finished) <==> health.supervision is None && health.notifier is None && (forall|
            i: int,
        |
            0 <= i < candidates@.len() ==> !stands_against_ready(
                #[trigger] candidates@[i],
                supervised,
            )),
        step is Finished ==> step == RecoveryStep::Finished(
            Ok(RecoveredRuntime { notifier: load.plan.notifier is Enabled }),
        ),
        step is Finished || step is CleanUp,
{
    assert forall|i: int| 0 <= i < candidates@.len() implies (ready_defect(
        #[trigger] candidates@[i],
        supervised,
    ) is None) == !stands_against_ready(candidates@[i], supervised) by {}
}

/// What is reported is the first execution that stands against readiness, and why it does.
pub proof fn law_first_defect_is_reported(
    load: ReadyLoad,
    candidates: Vec<ReadyCandidate>,
    supervised: Supervised,
    health: Health,
    step: RecoveryStep,
    i: int,
)
    requires
        load.leads_to(Ok(candidates), supervised, health, step),
        0 <= i < candidates@.len(),
        stands_against_ready(candidates@[i], supervised),
        forall|k: int|
            0 <= k < i ==> !stands_against_ready(#[trigger] candidates@[k], supervised),
    ensures
        step matches RecoveryStep::CleanUp(cleanup) && cleans_up(
            step,
            load.plan,
            load.plan.notifier is Enabled,
            cleanup.error,
        ) && (cleanup.error matches RecoveryError::Invariant(m) && m@ == ({
            let snapshot = candidates@[i].snapshot;
            match snapshot.persisted_state {
                ExecutionState::Running => "READY with unsupervised current RUNNING execution "@
                    + snapshot.execution_id@,
                ExecutionState::Starting => "READY with unresolved current execution "@
                    + snapshot.execution_id@ + " in state "@ + "STARTING"@,
                ExecutionState::Unknown => "READY with unresolved current execution "@
                    + snapshot.execution_id@ + " in state "@ + "UNKNOWN"@,
                ExecutionState::Lost => "READY with unresolved current execution "@
                    + snapshot.execution_id@ + " in state "@ + "LOST"@,
                _ => "READY with current authority still attached to terminal execution "@
                    + snapshot.execution_id@,
            }
        })),
{
    assert(ready_defect(candidates@[i], supervised) is Some);
    let first = choose|n: int|
        0 <= n < candidates@.len() && all_ready(candidates@.take(n), supervised) && (ready_defect(
            #[trigger] candidates@[n],
            supervised,
        ) matches Some(text) && (step->CleanUp_0.error matches RecoveryError::Invariant(m) && m@
            == text));
    if first < i {
        assert(!stands_against_ready(candidates@[first], supervised));
    }
    if i < first {
        assert(candidates@.take(first)[i] == candidates@[i]);
    }
}

/// The clean-up of a recovery without a notifier signals supervision, joins it and reports.
pub proof fn law_cleanup_without_notifier(cleanup: Cleanup)
    requires
        !cleanup.notifier,
        cleanup.part == CleanupPart::SignalSupervision,
    ensures
        cleanup.next() matches RecoveryStep::CleanUp(second) && second.part
            == CleanupPart::JoinSupervision && second.next() == RecoveryStep::Finished(
            Err(cleanup.error),
        ),
{
}

/// A reconciliation starts with no readmissions counted, over the list that was loaded.
pub proof fn law_reconciliation_starts_uncounted(
    load: ReconcileLoad,
    candidates: Vec<ExecutionReconciliationSnapshot>,
    health: Health,
)
    ensures
        load.next(Ok(candidates), health) matches RecoveryStep::Reconcile(s) ==> s.readmits == 0
            && s.plan == load.plan && s.candidates == candidates,
{
}

} // verus!

//! The control loop: maintenance of the store, then at most one dispatch.
//!
//! The loop neither renews leases nor observes executions.
use crate::dispatch::{DispatchError, DispatchOneOutcome, SupervisionAdmissionSeed};
use crate::domain::{Error, ExecutionId, FailureClass, ResultId};
use crate::process_lock::ReadyPermit;
use crate::recovery::Maintenance;
use crate::runner::{RunnerPhase, RunnerState};
use crate::supervision::SupervisionError;
use crate::text::join2;
use crate::time::Duration;
use crate::timing::RuntimeTimingConfig;
use vstd::prelude::*;

verus! {

/// Whether new physical executions may be started.  It is revoked when the daemon shuts down and
/// when a worker fails, and is never opened again.
#[derive(Debug, PartialEq, Eq)]
pub struct DispatchGate {
    allowed: bool,
}

impl DispatchGate {
    pub closed spec fn allows(self) -> bool {
        self.allowed
    }

    /// A gate of its own, open until it is revoked.
    pub fn open() -> (gate: Self)
        ensures
            gate.allows(),
    {
        DispatchGate { allowed: true }
    }

    /// Closes this dispatch gate for good, for every handle on it.
    pub fn revoke(&mut self)
        ensures
            !final(self).allows(),
    {
        self.allowed = false;
    }

    pub fn is_open(&self) -> (open: bool)
        ensures
            open == self.allows(),
    {
        self.allowed
    }
}

/// What a cycle dispatched, once an admission was handed to supervision.
#[derive(Debug, PartialEq, Eq)]
pub enum ControlDispatch {
    NoWork,
    RunningAdmitted { execution_id: ExecutionId },
    StartIndeterminate { execution_id: ExecutionId, failure_class: Option<FailureClass> },
    CompletedSynchronously { execution_id: ExecutionId, result_id: Option<ResultId> },
    AuthorityRejected,
    ConfigurationUnavailable { detail: String },
}

/// What a cycle did, and how long to wait after it.
#[derive(Debug, PartialEq, Eq)]
pub struct ControlCycleReport {
    pub dispatch: ControlDispatch,
    pub wait: Duration,
}

/// Faults that end the control loop.
#[derive(Debug, PartialEq, Eq)]
pub enum ControlError {
    Persistence(Error),
    Dispatch(DispatchError),
    Fatal(SupervisionError),
}

impl ControlError {
    /// The diagnostic, with the two leases of a lease mismatch as the caller writes them.
    pub open spec fn detail(self, configured: Seq<char>, kernel: Seq<char>) -> Seq<char> {
        match self {
            ControlError::Persistence(err) => "control-loop persistence: "@ + err.detail(),
            ControlError::Dispatch(err) => "control-loop dispatch: "@ + err.detail(),
            ControlError::Fatal(err) => "control-loop fatal: "@ + err.detail(configured, kernel),
        }
    }

    pub fn message(&self, configured: &str, kernel: &str) -> (text: String)
        ensures
            text@ == self.detail(configured@, kernel@),
    {
        match self {
            ControlError::Persistence(err) => join2("control-loop persistence: ", err.message()),
            ControlError::Dispatch(err) => join2("control-loop dispatch: ", err.message().as_str()),
            ControlError::Fatal(err) => join2(
                "control-loop fatal: ",
                err.message(configured, kernel).as_str(),
            ),
        }
    }
}

impl From<Error> for ControlError {
    fn from(err: Error) -> (fault: Self) {
        ControlError::Persistence(err)
    }
}

impl vstd::std_specs::convert::FromSpecImpl<Error> for ControlError {
    open spec fn obeys_from_spec() -> bool {
        true
    }

    open spec fn from_spec(err: Error) -> Self {
        ControlError::Persistence(err)
    }
}

impl From<DispatchError> for ControlError {
    fn from(err: DispatchError) -> (fault: Self) {
        ControlError::Dispatch(err)
    }
}

impl vstd::std_specs::convert::FromSpecImpl<DispatchError> for ControlError {
    open spec fn obeys_from_spec() -> bool {
        true
    }

    open spec fn from_spec(err: DispatchError) -> Self {
        ControlError::Dispatch(err)
    }
}

/// Asks the store for one part of the maintenance.
#[derive(Debug, PartialEq, Eq)]
pub struct CycleMaintenance {
    pub part: Maintenance,
    pub wait: Duration,
}

/// Asks for one dispatch.
#[derive(Debug, PartialEq, Eq)]
pub struct CycleDispatch {
    pub wait: Duration,
}

/// Hands a fresh grant over to supervision.
#[derive(Debug, PartialEq, Eq)]
pub struct CycleAdmission {
    pub grant: SupervisionAdmissionSeed,
    pub wait: Duration,
}

/// Where a cycle stands.
#[derive(Debug, PartialEq, Eq)]
pub enum CycleStep {
    Maintain(CycleMaintenance),
    Dispatch(CycleDispatch),
    HandOver(CycleAdmission),
    Finished(Result<ControlCycleReport, ControlError>),
}

/// The end of a cycle that went well.
pub open spec fn reported(dispatch: ControlDispatch, wait: Duration) -> CycleStep {
    CycleStep::Finished(Ok(ControlCycleReport { dispatch, wait }))
}

impl CycleMaintenance {
    /// Expire, promote, pool, revive; then a dispatch, if dispatching is allowed.
    pub open spec fn next(self, reply: Result<(), Error>, gate: DispatchGate) -> CycleStep {
        let wait = self.wait;
        match reply {
            Err(error) => CycleStep::Finished(Err(ControlError::Persistence(error))),
            Ok(_) => match self.part {
                Maintenance::ExpireLeases => CycleStep::Maintain(
                    CycleMaintenance { part: Maintenance::PromoteRetryWait, wait },
                ),
                Maintenance::PromoteRetryWait => CycleStep::Maintain(
                    CycleMaintenance { part: Maintenance::ReconcilePool, wait },
                ),
                Maintenance::ReconcilePool => CycleStep::Maintain(
                    CycleMaintenance { part: Maintenance::ReviveEligibleAgents, wait },
                ),
                Maintenance::ReviveEligibleAgents => if gate.allows() {
                    CycleStep::Dispatch(CycleDispatch { wait })
                } else {
                    reported(ControlDispatch::NoWork, wait)
                },
            },
        }
    }

    pub fn resume(self, reply: Result<(), Error>, gate: &DispatchGate) -> (step: CycleStep)
        ensures
            step == self.next(reply, *gate),
    {
        let wait = self.wait;
        match reply {
            Err(error) => CycleStep::Finished(Err(ControlError::from(error))),
            Ok(_) => match self.part {
                Maintenance::ExpireLeases => CycleStep::Maintain(
                    CycleMaintenance { part: Maintenance::PromoteRetryWait, wait },
                ),
                Maintenance::PromoteRetryWait => CycleStep::Maintain(
                    CycleMaintenance { part: Maintenance::ReconcilePool, wait },
                ),
                Maintenance::ReconcilePool => CycleStep::Maintain(
                    CycleMaintenance { part: Maintenance::ReviveEligibleAgents, wait },
                ),
                Maintenance::ReviveEligibleAgents => {
                    if gate.is_open() {
                        CycleStep::Dispatch(CycleDispatch { wait })
                    } else {
                        CycleStep::Finished(
                            Ok(ControlCycleReport { dispatch: ControlDispatch::NoWork, wait }),
                        )
                    }
                },
            },
        }
    }
}

impl CycleDispatch {
    /// A start that is confirmed RUNNING is handed over; every other outcome is reported.  A start
    /// that is ambiguous or failed is no fault.
    pub open spec fn next(self, reply: Result<DispatchOneOutcome, DispatchError>) -> CycleStep {
        let wait = self.wait;
        match reply {
            Err(error) => CycleStep::Finished(Err(ControlError::Dispatch(error))),
            Ok(outcome) => match outcome {
                DispatchOneOutcome::NoWork => reported(ControlDispatch::NoWork, wait),
                DispatchOneOutcome::AuthorityRejected => reported(
                    ControlDispatch::AuthorityRejected,
                    wait,
                ),
                DispatchOneOutcome::ConfigurationUnavailable { detail } => reported(
                    ControlDispatch::ConfigurationUnavailable { detail },
                    wait,
                ),
                DispatchOneOutcome::StartedRunning { admission } => CycleStep::HandOver(
                    CycleAdmission { grant: admission, wait },
                ),
                DispatchOneOutcome::StartAmbiguous { execution_id, .. } => reported(
                    ControlDispatch::StartIndeterminate { execution_id, failure_class: None },
                    wait,
                ),
                DispatchOneOutcome::StartFailed { execution_id, failure_class, .. } => reported(
                    ControlDispatch::StartIndeterminate {
                        execution_id,
                        failure_class: Some(failure_class),
                    },
                    wait,
                ),
                DispatchOneOutcome::CompletedSynchronously { execution_id, result_id, .. } => {
                    reported(
                        ControlDispatch::CompletedSynchronously { execution_id, result_id },
                        wait,
                    )
                },
            },
        }
    }

    pub fn resume(self, reply: Result<DispatchOneOutcome, DispatchError>) -> (step: CycleStep)
        ensures
            step == self.next(reply),
    {
        let wait = self.wait;
        let outcome = match reply {
            Err(error) => {
                return CycleStep::Finished(Err(ControlError::from(error)));
            },
            Ok(outcome) => outcome,
        };
        let dispatch = match outcome {
            DispatchOneOutcome::NoWork => ControlDispatch::NoWork,
            DispatchOneOutcome::AuthorityRejected => ControlDispatch::AuthorityRejected,
            DispatchOneOutcome::ConfigurationUnavailable { detail } => {
                ControlDispatch::ConfigurationUnavailable { detail }
            },
            DispatchOneOutcome::StartedRunning { admission } => {
                return CycleStep::HandOver(CycleAdmission { grant: admission, wait });
            },
            DispatchOneOutcome::StartAmbiguous { execution_id, .. } => {
                ControlDispatch::StartIndeterminate { execution_id, failure_class: None }
            },
            DispatchOneOutcome::StartFailed { execution_id, failure_class, .. } => {
                ControlDispatch::StartIndeterminate {
                    execution_id,
                    failure_class: Some(failure_class),
                }
            },
            DispatchOneOutcome::CompletedSynchronously { execution_id, result_id, .. } => {
                ControlDispatch::CompletedSynchronously { execution_id, result_id }
            },
        };
        CycleStep::Finished(Ok(ControlCycleReport { dispatch, wait }))
    }
}

impl CycleAdmission {
    /// A supervision that has stopped is no fault once dispatching is revoked; otherwise a refused
    /// admission is fatal.
    pub open spec fn next(self, reply: Result<(), SupervisionError>, gate: DispatchGate)
        -> CycleStep {
        match reply {
            Ok(_) => reported(
                ControlDispatch::RunningAdmitted { execution_id: self.grant.execution_id },
                self.wait,
            ),
            Err(error) => if error is RunnerStopped && !gate.allows() {
                reported(ControlDispatch::NoWork, self.wait)
            } else {
                CycleStep::Finished(Err(ControlError::Fatal(error)))
            },
        }
    }

    pub fn resume(self, reply: Result<(), SupervisionError>, gate: &DispatchGate) -> (step:
        CycleStep)
        ensures
            step == self.next(reply, *gate),
    {
        match reply {
            Ok(_) => CycleStep::Finished(
                Ok(
                    ControlCycleReport {
                        dispatch: ControlDispatch::RunningAdmitted {
                            execution_id: self.grant.execution_id,
                        },
                        wait: self.wait,
                    },
                ),
            ),
            Err(error) => {
                if matches!(error, SupervisionError::RunnerStopped(_)) && !gate.is_open() {
                    CycleStep::Finished(
                        Ok(
                            ControlCycleReport {
                                dispatch: ControlDispatch::NoWork,
                                wait: self.wait,
                            },
                        ),
                    )
                } else {
                    CycleStep::Finished(Err(ControlError::Fatal(error)))
                }
            },
        }
    }
}

/// The control loop of one runtime.  It cannot be made without a ready permit.
#[derive(Debug)]
pub struct ControlLoopService {
    poll: Duration,
    permit: ReadyPermit,
}

impl ControlLoopService {
    pub closed spec fn interval(self) -> Duration {
        self.poll
    }

    pub fn new(timing: &RuntimeTimingConfig, permit: ReadyPermit) -> (service: Self)
        requires
            timing.poll_of().representable(),
        ensures
            service.interval().nanos == timing.poll_of().nanos(),
    {
        ControlLoopService { poll: timing.dispatcher_poll_interval(), permit }
    }

    pub fn poll_interval(&self) -> (poll: Duration)
        ensures
            poll == self.interval(),
    {
        self.poll
    }

    /// Starts a cycle.
    pub fn cycle(&self) -> (step: CycleStep)
        ensures
            step == CycleStep::Maintain(
                CycleMaintenance { part: Maintenance::ExpireLeases, wait: self.interval() },
            ),
    {
        CycleStep::Maintain(CycleMaintenance { part: Maintenance::ExpireLeases, wait: self.poll })
    }
}

/// What the control thread does next.
#[derive(Debug, Clone, Copy, PartialEq, Eq, Structural)]
pub enum ControlLoopStep {
    Cycle,
    /// Wait for this long, or for a signal.
    Wait(Duration),
    Exit,
}

/// The top of the loop: a loop that is to stop leaves, and any other runs a cycle.
pub open spec fn loop_top(state: RunnerState<ControlError>) -> ControlLoopStep {
    if state.phase == RunnerPhase::Running {
        ControlLoopStep::Cycle
    } else {
        ControlLoopStep::Exit
    }
}

/// What follows a cycle: the wait that its report asks for, or the end of a loop that is to stop
/// or that failed.
pub open spec fn cycle_followed(
    state: RunnerState<ControlError>,
    result: Result<ControlCycleReport, ControlError>,
) -> (RunnerState<ControlError>, ControlLoopStep) {
    match result {
        Ok(report) => (
            state,
            if state.phase == RunnerPhase::Running {
                ControlLoopStep::Wait(report.wait)
            } else {
                ControlLoopStep::Exit
            },
        ),
        Err(error) => (state.after_last_failure(error), ControlLoopStep::Exit),
    }
}

/// The fault of a control thread that panicked.
pub open spec fn panic_fault(fault: ControlError) -> bool {
    fault matches ControlError::Fatal(SupervisionError::Fatal(error)) && error is InvariantViolation
        && error.detail() == "control-loop thread panicked"@
}

/// The control loop's own steps.
pub struct ControlLoopRunner {}

impl ControlLoopRunner {
    /// The fault of a control thread that could not be spawned.
    pub fn spawn_failed(cause: &str) -> (fault: ControlError)
        ensures
            fault matches ControlError::Fatal(SupervisionError::Fatal(error)) && error
                is InvariantViolation && error.detail() == "failed to spawn control-loop thread: "@
                + cause@,
    {
        ControlError::Fatal(
            SupervisionError::Fatal(
                Error::InvariantViolation(join2("failed to spawn control-loop thread: ", cause)),
            ),
        )
    }

    /// The top of the loop, and where it stands again after each wait.
    pub fn next_step(state: &RunnerState<ControlError>) -> (step: ControlLoopStep)
        ensures
            step == loop_top(*state),
    {
        if state.is_stopping() {
            ControlLoopStep::Exit
        } else {
            ControlLoopStep::Cycle
        }
    }

    /// Goes on after a cycle: there is always a wait between two cycles, and a fault fails the
    /// loop.
    pub fn cycled(
        state: &mut RunnerState<ControlError>,
        result: Result<ControlCycleReport, ControlError>,
    ) -> (step: ControlLoopStep)
        ensures
            (*final(state), step) == cycle_followed(*old(state), result),
    {
        match result {
            Ok(report) => {
                if state.is_stopping() {
                    ControlLoopStep::Exit
                } else {
                    ControlLoopStep::Wait(report.wait)
                }
            },
            Err(error) => {
                state.fail_with(error);
                ControlLoopStep::Exit
            },
        }
    }

    /// The control thread leaves, by itself or by a panic.
    pub fn exited(state: &mut RunnerState<ControlError>, panicked: bool)
        ensures
            panicked ==> final(state).phase == RunnerPhase::Failed && (final(
                state).fatal matches Some(fault) && panic_fault(fault)),
            !panicked ==> *final(state) == old(state).after_exit(),
    {
        if panicked {
            state.fail_with(
                ControlError::Fatal(
                    SupervisionError::Fatal(
                        Error::InvariantViolation("control-loop thread panicked".to_string()),
                    ),
                ),
            );
        }
        state.exited();
    }
}

// ---------------------------------------------------------------------------------------------
// Laws
// ---------------------------------------------------------------------------------------------

/// Nothing is dispatched through a closed gate.
pub proof fn law_closed_gate_dispatches_nothing(
    call: CycleMaintenance,
    reply: Result<(), Error>,
    gate: DispatchGate,
)
    requires
        !gate.allows(),
    ensures
        !(call.next(reply, gate) is Dispatch),
{
}

/// A use of a dispatch gate, through one of the handles on it.
pub enum GateUse {
    Open { gate: nat },
    Look { gate: nat, handle: nat },
    Revoke { gate: nat, handle: nat },
}

/// A use leads from the gates there are to the gates after it.  All handles on a gate are handles
/// on one value.
pub open spec fn gate_used(
    before: Map<nat, DispatchGate>,
    gate_use: GateUse,
    after: Map<nat, DispatchGate>,
) -> bool {
    match gate_use {
        GateUse::Open { gate } => !before.contains_key(gate) && exists|opened: DispatchGate|
            opened.allows() && after == #[trigger] before.insert(gate, opened),
        GateUse::Look { gate, .. } => before.contains_key(gate) && after == before,
        GateUse::Revoke { gate, .. } => before.contains_key(gate) && exists|revoked: DispatchGate|
            !revoked.allows() && after == #[trigger] before.insert(gate, revoked),
    }
}

/// The gates of a runtime as they are opened and used, from when there were none.
pub open spec fn gate_run(gates: Seq<Map<nat, DispatchGate>>, uses: Seq<GateUse>) -> bool {
    &&& gates.len() == uses.len() + 1
    &&& gates[0] == Map::<nat, DispatchGate>::empty()
    &&& forall|k: int| 0 <= k < uses.len() ==> gate_used(gates[k], #[trigger] uses[k], gates[k + 1])
}

/// A gate is open for all of its handles until one of them revokes it, and from then on closed for
/// all of them, whatever is done later.  What is done to another gate does not matter.
pub proof fn law_revocation_holds_for_every_handle(
    gates: Seq<Map<nat, DispatchGate>>,
    uses: Seq<GateUse>,
    gate: nat,
    k: int,
)
    requires
        gate_run(gates, uses),
        0 <= k <= uses.len(),
    ensures
        gates[k].contains_key(gate) ==> (gates[k][gate].allows() <==> (forall|i: int|
            0 <= i < k ==> !(#[trigger] uses[i] matches GateUse::Revoke { gate: revoked, .. }
                && revoked == gate))),
        !gates[k].contains_key(gate) ==> (forall|i: int|
            0 <= i < k ==> !(#[trigger] uses[i] matches GateUse::Revoke { gate: revoked, .. }
                && revoked == gate)),
    decreases k,
{
    if k > 0 {
        law_revocation_holds_for_every_handle(gates, uses, gate, k - 1);
        let last = uses[k - 1];
        assert(gate_used(gates[k - 1], last, gates[k - 1 + 1]));
    }
}

/// What happens to a control loop.
pub enum ControlEvent {
    /// A cycle ended.
    Cycled(Result<ControlCycleReport, ControlError>),
    /// A cycle panicked.
    Panicked,
    /// A wait ended, by itself or by a signal.
    Waited,
    /// The owner asked for a stop.
    StopRequested,
    /// The thread left the loop.
    Left,
    /// The owner joined the thread.
    Joined,
}

/// Where a control loop stands: what it shares with its owner, and what it does next.
pub struct ControlPoint {
    pub state: RunnerState<ControlError>,
    pub step: ControlLoopStep,
}

/// An event leads from one point to the next.
pub open spec fn control_follows(a: ControlPoint, event: ControlEvent, b: ControlPoint) -> bool {
    match event {
        ControlEvent::Cycled(result) => a.step is Cycle && (b.state, b.step) == cycle_followed(
            a.state,
            result,
        ),
        ControlEvent::Panicked => a.step is Cycle && b.step is Exit && b.state.phase
            == RunnerPhase::Failed && (b.state.fatal matches Some(fault) && panic_fault(fault)),
        ControlEvent::Waited => a.step is Wait && b.state == a.state && b.step == loop_top(a.state),
        ControlEvent::StopRequested => b.state == a.state.after_stop_request() && b.step == a.step,
        ControlEvent::Left => a.step is Exit && b.state == a.state.after_exit() && b.step is Exit,
        ControlEvent::Joined => a.step is Exit && b.state == a.state.after_join() && b.step is Exit,
    }
}

/// A run of a control loop, from its start.
pub open spec fn control_run(points: Seq<ControlPoint>, events: Seq<ControlEvent>) -> bool {
    &&& points.len() == events.len() + 1
    &&& points[0].state.phase == RunnerPhase::Running
    &&& points[0].state.fatal is None
    &&& points[0].step is Cycle
    &&& forall|k: int|
        0 <= k < events.len() ==> control_follows(points[k], #[trigger] events[k], points[k + 1])
}

proof fn lemma_exit_is_kept(points: Seq<ControlPoint>, events: Seq<ControlEvent>, i: int, j: int)
    requires
        control_run(points, events),
        0 <= i <= j <= events.len(),
        points[i].step is Exit,
    ensures
        points[j].step is Exit,
        points[i].state.phase == RunnerPhase::Failed ==> points[j].state == points[i].state,
    decreases j - i,
{
    if i < j {
        lemma_exit_is_kept(points, events, i, j - 1);
        let event = events[j - 1];
        assert(control_follows(points[j - 1], event, points[j - 1 + 1]));
    }
}

proof fn lemma_wait_is_kept(
    points: Seq<ControlPoint>,
    events: Seq<ControlEvent>,
    i: int,
    j: int,
) -> (k: int)
    requires
        control_run(points, events),
        0 <= i < j < events.len(),
        points[i].step is Wait,
        events[j] is Cycled,
    ensures
        i <= k < j,
        events[k] is Waited,
        points[k].step == points[i].step,
    decreases j - i,
{
    let event = events[i];
    assert(control_follows(points[i], event, points[i + 1]));
    if event is Waited {
        i
    } else {
        let last = events[j];
        assert(control_follows(points[j], last, points[j + 1]));
        lemma_wait_is_kept(points, events, i + 1, j)
    }
}

/// Between two cycles of a control loop lies a wait as long as the report of the first one asks
/// for, so that the loop does not spin.
pub proof fn law_control_loop_waits_between_cycles(
    points: Seq<ControlPoint>,
    events: Seq<ControlEvent>,
    i: int,
    j: int,
)
    requires
        control_run(points, events),
        0 <= i < j < events.len(),
        events[i] is Cycled,
        events[j] is Cycled,
    ensures
        events[i]->Cycled_0 is Ok,
        exists|k: int|
            i < k < j && (#[trigger] events[k]) is Waited && points[k].step == ControlLoopStep::Wait(
                events[i]->Cycled_0->Ok_0.wait,
            ),
{
    let first = events[i];
    let last = events[j];
    assert(control_follows(points[i], first, points[i + 1]));
    assert(control_follows(points[j], last, points[j + 1]));
    if points[i + 1].step is Exit {
        lemma_exit_is_kept(points, events, i + 1, j);
    }
    let k = lemma_wait_is_kept(points, events, i + 1, j);
    assert(events[k] is Waited);
}

/// A cycle that faults, or panics, is the last one: the loop has failed, its fault is kept, and
/// nothing that happens later, a request to stop included, changes that.
pub proof fn law_control_loop_failure_is_final(
    points: Seq<ControlPoint>,
    events: Seq<ControlEvent>,
    i: int,
    j: int,
)
    requires
        control_run(points, events),
        0 <= i < j <= events.len(),
        events[i] is Panicked || (events[i] is Cycled && events[i]->Cycled_0 is Err),
    ensures
        points[j].state.phase == RunnerPhase::Failed,
        points[j].step is Exit,
        events[i] is Cycled ==> points[j].state.fatal == Some(events[i]->Cycled_0->Err_0),
        events[i] is Panicked ==> (points[j].state.fatal matches Some(fault) && panic_fault(fault)),
        j < events.len() ==> !(events[j] is Cycled) && !(events[j] is Panicked),
{
    let first = events[i];
    assert(control_follows(points[i], first, points[i + 1]));
    lemma_exit_is_kept(points, events, i + 1, j);
    if j < events.len() {
        let next = events[j];
        assert(control_follows(points[j], next, points[j + 1]));
    }
}

/// No cycle begins once a stop was asked for outside of a cycle.
pub proof fn law_stop_ends_the_control_loop(
    points: Seq<ControlPoint>,
    events: Seq<ControlEvent>,
    i: int,
    j: int,
)
    requires
        control_run(points, events),
        0 <= i < j < events.len(),
        events[i] is StopRequested,
        !(points[i].step is Cycle),
    ensures
        !(events[j] is Cycled),
        !(points[j].step is Cycle),
{
    let stop = events[i];
    assert(control_follows(points[i], stop, points[i + 1]));
    lemma_stopping_begins_nothing(points, events, i + 1, j);
    let last = events[j];
    assert(control_follows(points[j], last, points[j + 1]));
}

proof fn lemma_stopping_begins_nothing(
    points: Seq<ControlPoint>,
    events: Seq<ControlEvent>,
    i: int,
    j: int,
)
    requires
        control_run(points, events),
        0 <= i <= j <= events.len(),
        points[i].state.phase != RunnerPhase::Running,
        !(points[i].step is Cycle),
    ensures
        points[j].state.phase != RunnerPhase::Running,
        !(points[j].step is Cycle),
    decreases j - i,
{
    if i < j {
        lemma_stopping_begins_nothing(points, events, i, j - 1);
        let event = events[j - 1];
        assert(control_follows(points[j - 1], event, points[j - 1 + 1]));
    }
}

/// A dispatch comes only after all four parts of the maintenance, in their order.
pub proof fn law_maintenance_precedes_dispatch(wait: Duration, gate: DispatchGate)
    requires
        gate.allows(),
    ensures
        ({
            let expire = CycleMaintenance { part: Maintenance::ExpireLeases, wait };
            let promote = CycleMaintenance { part: Maintenance::PromoteRetryWait, wait };
            let pool = CycleMaintenance { part: Maintenance::ReconcilePool, wait };
            let revive = CycleMaintenance { part: Maintenance::ReviveEligibleAgents, wait };
            &&& expire.next(Ok(()), gate) == CycleStep::Maintain(promote)
            &&& promote.next(Ok(()), gate) == CycleStep::Maintain(pool)
            &&& pool.next(Ok(()), gate) == CycleStep::Maintain(revive)
            &&& revive.next(Ok(()), gate) == CycleStep::Dispatch(CycleDispatch { wait })
        }),
        forall|part: Maintenance, reply: Result<(), Error>|
            #[trigger] (CycleMaintenance { part, wait }).next(reply, gate) is Dispatch ==> part
                == Maintenance::ReviveEligibleAgents && reply is Ok,
{
}

/// Every cycle that ends well asks for the poll interval as its wait: the loop does not spin.
pub proof fn law_cycle_keeps_wait(
    dispatch: CycleDispatch,
    admission: CycleAdmission,
    outcome: Result<DispatchOneOutcome, DispatchError>,
    taken: Result<(), SupervisionError>,
    gate: DispatchGate,
)
    ensures
        dispatch.next(outcome) matches CycleStep::Finished(Ok(report)) ==> report.wait
            == dispatch.wait,
        dispatch.next(outcome) matches CycleStep::HandOver(next) ==> next.wait == dispatch.wait,
        admission.next(taken, gate) matches CycleStep::Finished(Ok(report)) ==> report.wait
            == admission.wait,
{
}

/// An execution is reported as admitted only when supervision took its admission.
pub proof fn law_admitted_means_taken(
    admission: CycleAdmission,
    reply: Result<(), SupervisionError>,
    gate: DispatchGate,
)
    ensures
        (admission.next(reply, gate) matches CycleStep::Finished(Ok(report)) && report.dispatch
            is RunningAdmitted) <==> reply is Ok,
{
}

/// A cycle whose dispatch gate is closed does all four parts of the maintenance and reports no
/// work.
pub proof fn law_closed_cycle_still_maintains(wait: Duration, gate: DispatchGate)
    requires
        !gate.allows(),
    ensures
        ({
            let expire = CycleMaintenance { part: Maintenance::ExpireLeases, wait };
            let promote = CycleMaintenance { part: Maintenance::PromoteRetryWait, wait };
            let pool = CycleMaintenance { part: Maintenance::ReconcilePool, wait };
            let revive = CycleMaintenance { part: Maintenance::ReviveEligibleAgents, wait };
            &&& expire.next(Ok(()), gate) == CycleStep::Maintain(promote)
            &&& promote.next(Ok(()), gate) == CycleStep::Maintain(pool)
            &&& pool.next(Ok(()), gate) == CycleStep::Maintain(revive)
            &&& revive.next(Ok(()), gate) == CycleStep::Finished(
                Ok(ControlCycleReport { dispatch: ControlDispatch::NoWork, wait }),
            )
        }),
{
}

/// A fault of the store or of the dispatch ends the cycle with that fault, and so does a refused
/// admission, but for a supervision that has stopped after dispatching was revoked.
pub proof fn law_cycle_faults_are_reported(
    maintenance: CycleMaintenance,
    dispatch: CycleDispatch,
    admission: CycleAdmission,
    error: Error,
    failed: DispatchError,
    refused: SupervisionError,
    gate: DispatchGate,
)
    ensures
        maintenance.next(Err(error), gate) == CycleStep::Finished(
            Err(ControlError::Persistence(error)),
        ),
        dispatch.next(Err(failed)) == CycleStep::Finished(Err(ControlError::Dispatch(failed))),
        refused is RunnerStopped && !gate.allows() ==> admission.next(Err(refused), gate)
            == CycleStep::Finished(
            Ok(ControlCycleReport { dispatch: ControlDispatch::NoWork, wait: admission.wait }),
        ),
        !(refused is RunnerStopped) || gate.allows() ==> admission.next(Err(refused), gate)
            == CycleStep::Finished(Err(ControlError::Fatal(refused))),
{
}

/// What a cycle reports is what the dispatch came to, with the ids and the class that it named; a
/// confirmed start is handed over, and reported once supervision took it.
pub proof fn law_cycle_reports_its_dispatch(
    dispatch: CycleDispatch,
    outcome: DispatchOneOutcome,
    admission: CycleAdmission,
    gate: DispatchGate,
)
    ensures
        ({
            let step = dispatch.next(Ok(outcome));
            let wait = dispatch.wait;
            match outcome {
                DispatchOneOutcome::StartedRunning { admission: grant } => step
                    == CycleStep::HandOver(CycleAdmission { grant, wait }),
                DispatchOneOutcome::NoWork => step == CycleStep::Finished(
                    Ok(ControlCycleReport { dispatch: ControlDispatch::NoWork, wait }),
                ),
                DispatchOneOutcome::AuthorityRejected => step == CycleStep::Finished(
                    Ok(ControlCycleReport { dispatch: ControlDispatch::AuthorityRejected, wait }),
                ),
                DispatchOneOutcome::ConfigurationUnavailable { detail } => step
                    == CycleStep::Finished(
                    Ok(
                        ControlCycleReport {
                            dispatch: ControlDispatch::ConfigurationUnavailable { detail },
                            wait,
                        },
                    ),
                ),
                DispatchOneOutcome::StartAmbiguous { execution_id, .. } => step
                    == CycleStep::Finished(
                    Ok(
                        ControlCycleReport {
                            dispatch: ControlDispatch::StartIndeterminate {
                                execution_id,
                                failure_class: None,
                            },
                            wait,
                        },
                    ),
                ),
                DispatchOneOutcome::StartFailed { execution_id, failure_class, .. } => step
                    == CycleStep::Finished(
                    Ok(
                        ControlCycleReport {
                            dispatch: ControlDispatch::StartIndeterminate {
                                execution_id,
                                failure_class: Some(failure_class),
                            },
                            wait,
                        },
                    ),
                ),
                DispatchOneOutcome::CompletedSynchronously { execution_id, result_id, .. } => step
                    == CycleStep::Finished(
                    Ok(
                        ControlCycleReport {
                            dispatch: ControlDispatch::CompletedSynchronously {
                                execution_id,
                                result_id,
                            },
                            wait,
                        },
                    ),
                ),
            }
        }),
        admission.next(Ok(()), gate) == CycleStep::Finished(
            Ok(
                ControlCycleReport {
                    dispatch: ControlDispatch::RunningAdmitted {
                        execution_id: admission.grant.execution_id,
                    },
                    wait: admission.wait,
                },
            ),
        ),
{
}

/// A running loop runs cycles and waits after each as long as its report asks for; a loop that is
/// to stop leaves, and one whose cycle faults has failed with that fault and leaves.
pub proof fn law_control_loop_goes_by_its_phase(
    state: RunnerState<ControlError>,
    report: ControlCycleReport,
    error: ControlError,
)
    ensures
        state.phase == RunnerPhase::Running ==> loop_top(state) == ControlLoopStep::Cycle,
        state.phase != RunnerPhase::Running ==> loop_top(state) == ControlLoopStep::Exit,
        state.phase == RunnerPhase::Running ==> cycle_followed(state, Ok(report)) == (
            state,
            ControlLoopStep::Wait(report.wait),
        ),
        state.phase != RunnerPhase::Running ==> cycle_followed(state, Ok(report)) == (
            state,
            ControlLoopStep::Exit,
        ),
        cycle_followed(state, Err(error)) == (
            RunnerState { phase: RunnerPhase::Failed, fatal: Some(error) },
            ControlLoopStep::Exit,
        ),
{
}

/// The texts of the errors of the control loop.
pub proof fn law_control_errors_are_told(
    error: Error,
    dispatch: DispatchError,
    fatal: SupervisionError,
    first: Seq<char>,
    second: Seq<char>,
)
    ensures
        ControlError::Persistence(error).detail(first, second) == "control-loop persistence: "@
            + error.detail(),
        ControlError::Dispatch(dispatch).detail(first, second) == "control-loop dispatch: "@
            + dispatch.detail(),
        ControlError::Fatal(fatal).detail(first, second) == "control-loop fatal: "@ + fatal.detail(
            first,
            second,
        ),
{
}

/// A control thread that panicked is told as a fault of the runtime itself.
pub proof fn law_control_panic_is_told(fault: ControlError)
    ensures
        panic_fault(fault) <==> (fault matches ControlError::Fatal(
            SupervisionError::Fatal(Error::InvariantViolation(m)),
        ) && m@ == "control-loop thread panicked"@),
{
}

} // verus!

//! The daemon: how it is composed, started, watched and stopped.
//!
//! Recovery gives a runtime the right to be activated.  It is ready to dispatch only once it holds
//! the process lock, has recovered, was activated and is healthy.
use crate::control::{ControlError, ControlLoopService, DispatchGate};
use crate::domain::Error;
use crate::notifier::NotifierBinding;
use crate::observer::{ObserverError, PhysicalObserverConfig};
use crate::process_lock::{ProcessLockError, ReadyPermit, SqliteRuntimeConfig};
use crate::recovery::{Maintenance, RecoveredRuntime, RecoveryPlan};
use crate::replay::RecoveryError;
use crate::text::join2;
use crate::time::Seconds;
use crate::timing::RuntimeTimingConfig;
use vstd::prelude::*;

verus! {

/// Phase of a daemon.
#[derive(Debug, Clone, Copy, PartialEq, Eq, Structural)]
pub enum DaemonPhase {
    Ready,
    Stopping,
    Stopped,
    Failed,
}

/// How a daemon ended.
#[derive(Debug, PartialEq, Eq)]
pub enum DaemonExit {
    Stopped,
    Failed(String),
}

/// Why a daemon could not be composed or started.
#[derive(Debug, PartialEq, Eq)]
pub enum DaemonError {
    AlreadyRunning,
    ProcessLock(ProcessLockError),
    Recovery(RecoveryError),
    Observer(ObserverError),
    Control(ControlError),
    Config(String),
    Persistence(Error),
}

impl DaemonError {
    /// The diagnostic, with the two leases of a lease mismatch as the caller writes them.
    pub open spec fn detail(self, configured: Seq<char>, kernel: Seq<char>) -> Seq<char> {
        match self {
            DaemonError::AlreadyRunning => "another scheduler daemon already owns this store"@,
            DaemonError::ProcessLock(err) => "process lock: "@ + err.detail(),
            DaemonError::Recovery(err) => "daemon recovery: "@ + err.detail(configured, kernel),
            DaemonError::Observer(err) => "daemon observer: "@ + err.detail(),
            DaemonError::Control(err) => "daemon control: "@ + err.detail(configured, kernel),
            DaemonError::Config(detail) => "daemon configuration: "@ + detail@,
            DaemonError::Persistence(err) => "daemon persistence: "@ + err.detail(),
        }
    }

    pub fn message(&self, configured: &str, kernel: &str) -> (text: String)
        ensures
            text@ == self.detail(configured@, kernel@),
    {
        match self {
            DaemonError::AlreadyRunning => {
                "another scheduler daemon already owns this store".to_string()
            },
            DaemonError::ProcessLock(err) => join2("process lock: ", err.message().as_str()),
            DaemonError::Recovery(err) => join2(
                "daemon recovery: ",
                err.message(configured, kernel).as_str(),
            ),
            DaemonError::Observer(err) => join2("daemon observer: ", err.message().as_str()),
            DaemonError::Control(err) => join2(
                "daemon control: ",
                err.message(configured, kernel).as_str(),
            ),
            DaemonError::Config(detail) => join2("daemon configuration: ", detail.as_str()),
            DaemonError::Persistence(err) => join2("daemon persistence: ", err.message()),
        }
    }

    /// A lock that another daemon has is told apart from other lock errors.
    pub open spec fn of_lock(error: ProcessLockError) -> DaemonError {
        match error {
            ProcessLockError::AlreadyRunning => DaemonError::AlreadyRunning,
            other => DaemonError::ProcessLock(other),
        }
    }
}

impl From<ProcessLockError> for DaemonError {
    fn from(error: ProcessLockError) -> (fault: Self) {
        match error {
            ProcessLockError::AlreadyRunning => DaemonError::AlreadyRunning,
            other => DaemonError::ProcessLock(other),
        }
    }
}

impl vstd::std_specs::convert::FromSpecImpl<ProcessLockError> for DaemonError {
    open spec fn obeys_from_spec() -> bool {
        true
    }

    open spec fn from_spec(error: ProcessLockError) -> Self {
        DaemonError::of_lock(error)
    }
}

/// A daemon that can be started once.
#[derive(Debug, PartialEq, Eq)]
pub struct SchedulerDaemonBuilder {
    pub store: SqliteRuntimeConfig,
    pub timing: RuntimeTimingConfig,
    pub observer: PhysicalObserverConfig,
    pub notifier: NotifierBinding,
}

/// What is wrong with a composition, if anything: the freshness limit must be below the lease of
/// the store by the machine epsilon at least, and the configured lease must be the store's.
pub open spec fn composition_defect(
    store_lease: Seconds,
    timing_lease: Seconds,
    freshness: Seconds,
) -> Option<Seq<char>> {
    if !freshness.less(store_lease) || freshness.just_below(store_lease) {
        Some("observer freshness_limit must be < store lease_seconds"@)
    } else if !timing_lease.same_number(store_lease) {
        Some("timing.lease_seconds must match the store lease_seconds"@)
    } else {
        None
    }
}

impl SchedulerDaemonBuilder {
    pub fn new(
        store: SqliteRuntimeConfig,
        timing: RuntimeTimingConfig,
        observer: PhysicalObserverConfig,
        notifier: NotifierBinding,
    ) -> (result: Result<Self, DaemonError>)
        ensures
            match composition_defect(store.lease(), timing.lease_of(), observer.freshness()) {
                Some(defect) => result matches Err(DaemonError::Config(m)) && m@ == defect,
                None => result == Ok::<Self, DaemonError>(
                    SchedulerDaemonBuilder { store, timing, observer, notifier },
                ),
            },
    {
        let lease = store.lease_seconds();
        let freshness = observer.freshness_limit();
        if !freshness.is_less(&lease) || freshness.is_just_below(&lease) {
            return Err(
                DaemonError::Config(
                    "observer freshness_limit must be < store lease_seconds".to_string(),
                ),
            );
        }
        if !timing.lease_seconds().is_same_number(&lease) {
            return Err(
                DaemonError::Config(
                    "timing.lease_seconds must match the store lease_seconds".to_string(),
                ),
            );
        }
        Ok(SchedulerDaemonBuilder { store, timing, observer, notifier })
    }

    /// Starts the daemon: first comes the lock of its store.  The composition goes along, and is
    /// what each later step is carried out with.
    pub fn start(self) -> (step: DaemonStep)
        ensures
            step == DaemonStep::AcquireLock(LockAcquisition { composition: self }),
    {
        DaemonStep::AcquireLock(LockAcquisition { composition: self })
    }
}

/// What runs so far of a daemon that is being started.
#[derive(Debug, Clone, Copy, PartialEq, Eq, Structural)]
pub struct Running {
    pub observer: bool,
    pub notifier: bool,
    pub supervision: bool,
}

/// Asks for the process lock of the store of the composition.
#[derive(Debug, PartialEq, Eq)]
pub struct LockAcquisition {
    pub composition: SchedulerDaemonBuilder,
}

/// Asks for the store of the composition to be opened: its path, its lease and its continuity bound.
#[derive(Debug, PartialEq, Eq)]
pub struct StoreOpen {
    pub composition: SchedulerDaemonBuilder,
}

/// Asks for the recovery.
#[derive(Debug, PartialEq, Eq)]
pub struct RecoveryRun {
    pub composition: SchedulerDaemonBuilder,
}

/// Asks for one observation of every supervised execution.
#[derive(Debug, PartialEq, Eq)]
pub struct Activation {
    pub composition: SchedulerDaemonBuilder,
    pub running: Running,
}

/// Asks the store for one part of the maintenance.
#[derive(Debug, PartialEq, Eq)]
pub struct ActivationMaintenance {
    pub composition: SchedulerDaemonBuilder,
    pub running: Running,
    pub part: Maintenance,
}

/// Asks for the observer to be started.
#[derive(Debug, PartialEq, Eq)]
pub struct ObserverStart {
    pub composition: SchedulerDaemonBuilder,
    pub running: Running,
}

/// Asks for the control loop to be started.
#[derive(Debug)]
pub struct ControlStart {
    pub composition: SchedulerDaemonBuilder,
    pub running: Running,
    pub permit: ReadyPermit,
}

/// The parts of a teardown, in the order of a start that was activated.
#[derive(Debug, Clone, Copy, PartialEq, Eq, Structural)]
pub enum TeardownPart {
    StopObserver,
    StopNotifier,
    StopSupervision,
    ReleaseLock,
}

/// Asks for one part of the teardown of a failed start.
#[derive(Debug, PartialEq, Eq)]
pub struct Teardown {
    pub running: Running,
    /// The recovered services were not taken apart yet: they are stopped as one, supervision
    /// before the notifier.
    pub unopened: bool,
    pub part: TeardownPart,
    pub error: DaemonError,
}

/// Where the start of a daemon stands.
#[derive(Debug)]
pub enum DaemonStep {
    AcquireLock(LockAcquisition),
    OpenStore(StoreOpen),
    Recover(RecoveryRun),
    Activate(Activation),
    Maintain(ActivationMaintenance),
    StartObserver(ObserverStart),
    StartControl(ControlStart),
    TearDown(Teardown),
    Finished(Result<RunningSchedulerDaemon, DaemonError>),
}

/// The first part of the teardown from this part on that applies to what runs.
pub open spec fn teardown_from(running: Running, part: TeardownPart) -> TeardownPart {
    match part {
        TeardownPart::StopObserver => if running.observer {
            TeardownPart::StopObserver
        } else if running.notifier {
            TeardownPart::StopNotifier
        } else if running.supervision {
            TeardownPart::StopSupervision
        } else {
            TeardownPart::ReleaseLock
        },
        TeardownPart::StopNotifier => if running.notifier {
            TeardownPart::StopNotifier
        } else if running.supervision {
            TeardownPart::StopSupervision
        } else {
            TeardownPart::ReleaseLock
        },
        TeardownPart::StopSupervision => if running.supervision {
            TeardownPart::StopSupervision
        } else {
            TeardownPart::ReleaseLock
        },
        TeardownPart::ReleaseLock => TeardownPart::ReleaseLock,
    }
}

fn first_teardown(running: Running, part: TeardownPart) -> (first: TeardownPart)
    ensures
        first == teardown_from(running, part),
{
    let mut at = part;
    if at == TeardownPart::StopObserver && !running.observer {
        at = TeardownPart::StopNotifier;
    }
    if at == TeardownPart::StopNotifier && !running.notifier {
        at = TeardownPart::StopSupervision;
    }
    if at == TeardownPart::StopSupervision && !running.supervision {
        at = TeardownPart::ReleaseLock;
    }
    at
}

/// The teardown of a failed start.  The lock is released last.
pub open spec fn torn_down(running: Running, error: DaemonError) -> DaemonStep {
    DaemonStep::TearDown(
        Teardown {
            running,
            unopened: false,
            part: teardown_from(running, TeardownPart::StopObserver),
            error,
        },
    )
}

fn tear_down(running: Running, error: DaemonError) -> (step: DaemonStep)
    ensures
        step == torn_down(running, error),
{
    DaemonStep::TearDown(
        Teardown {
            running,
            unopened: false,
            part: first_teardown(running, TeardownPart::StopObserver),
            error,
        },
    )
}

/// The teardown of a start that fails right after its recovery.
pub open spec fn torn_down_unopened(running: Running, error: DaemonError) -> DaemonStep {
    DaemonStep::TearDown(
        Teardown { running, unopened: true, part: TeardownPart::StopSupervision, error },
    )
}

fn tear_down_unopened(running: Running, error: DaemonError) -> (step: DaemonStep)
    ensures
        step == torn_down_unopened(running, error),
{
    DaemonStep::TearDown(
        Teardown { running, unopened: true, part: TeardownPart::StopSupervision, error },
    )
}

/// Nothing runs yet.
pub open spec fn nothing_runs() -> Running {
    Running { observer: false, notifier: false, supervision: false }
}

impl LockAcquisition {
    pub open spec fn next(self, reply: Result<(), ProcessLockError>) -> DaemonStep {
        match reply {
            Ok(_) => DaemonStep::OpenStore(StoreOpen { composition: self.composition }),
            Err(error) => DaemonStep::Finished(Err(DaemonError::of_lock(error))),
        }
    }

    pub fn resume(self, reply: Result<(), ProcessLockError>) -> (step: DaemonStep)
        ensures
            step == self.next(reply),
    {
        match reply {
            Ok(_) => DaemonStep::OpenStore(StoreOpen { composition: self.composition }),
            Err(error) => DaemonStep::Finished(Err(DaemonError::from(error))),
        }
    }
}

impl StoreOpen {
    pub open spec fn next(self, reply: Result<(), Error>) -> DaemonStep {
        match reply {
            Ok(_) => DaemonStep::Recover(RecoveryRun { composition: self.composition }),
            Err(error) => torn_down(nothing_runs(), DaemonError::Persistence(error)),
        }
    }

    pub fn resume(self, reply: Result<(), Error>) -> (step: DaemonStep)
        ensures
            step == self.next(reply),
    {
        match reply {
            Ok(_) => DaemonStep::Recover(RecoveryRun { composition: self.composition }),
            Err(error) => tear_down(
                Running { observer: false, notifier: false, supervision: false },
                DaemonError::Persistence(error),
            ),
        }
    }
}

/// The step is the teardown after a fault of recovery with this text.
pub open spec fn recovery_fault(
    step: DaemonStep,
    running: Running,
    unopened: bool,
    text: Seq<char>,
) -> bool {
    step matches DaemonStep::TearDown(teardown) && (teardown.error matches DaemonError::Recovery(
        RecoveryError::Invariant(m),
    ) && m@ == text && step == if unopened {
        torn_down_unopened(running, teardown.error)
    } else {
        torn_down(running, teardown.error)
    })
}

impl RecoveryRun {
    /// The recovery that is asked for: the composed timing and the composed notifier.
    pub open spec fn planned(self) -> RecoveryPlan {
        RecoveryPlan {
            timing: self.composition.timing,
            notifier: self.composition.notifier,
            fail_after_readmits: None,
        }
    }

    pub fn plan(&self) -> (plan: RecoveryPlan)
        ensures
            plan == self.planned(),
    {
        RecoveryPlan {
            timing: self.composition.timing,
            notifier: self.composition.notifier,
            fail_after_readmits: None,
        }
    }

    /// A recovered runtime is activated only if both of its services are healthy.
    pub open spec fn leads_to(
        self,
        reply: Result<RecoveredRuntime, RecoveryError>,
        supervision_failed: bool,
        notifier_failed: bool,
        step: DaemonStep,
    ) -> bool {
        match reply {
            Err(error) => step == torn_down(nothing_runs(), DaemonError::Recovery(error)),
            Ok(recovered) => {
                let running = Running {
                    observer: false,
                    notifier: recovered.notifier,
                    supervision: true,
                };
                if supervision_failed {
                    recovery_fault(step, running, true, "supervision failed before activation"@)
                } else if recovered.notifier && notifier_failed {
                    recovery_fault(step, running, true, "notifier failed before activation"@)
                } else {
                    step == DaemonStep::Activate(
                        Activation { composition: self.composition, running },
                    )
                }
            },
        }
    }

    pub fn resume(
        self,
        reply: Result<RecoveredRuntime, RecoveryError>,
        supervision_failed: bool,
        notifier_failed: bool,
    ) -> (step: DaemonStep)
        ensures
            self.leads_to(reply, supervision_failed, notifier_failed, step),
    {
        match reply {
            Err(error) => tear_down(
                Running { observer: false, notifier: false, supervision: false },
                DaemonError::Recovery(error),
            ),
            Ok(recovered) => {
                let running = Running {
                    observer: false,
                    notifier: recovered.notifier,
                    supervision: true,
                };
                if supervision_failed {
                    return tear_down_unopened(
                        running,
                        DaemonError::Recovery(
                            RecoveryError::Invariant(
                                "supervision failed before activation".to_string(),
                            ),
                        ),
                    );
                }
                if recovered.notifier && notifier_failed {
                    return tear_down_unopened(
                        running,
                        DaemonError::Recovery(
                            RecoveryError::Invariant("notifier failed before activation".to_string()),
                        ),
                    );
                }
                DaemonStep::Activate(
                        Activation { composition: self.composition, running },
                    )
            },
        }
    }
}

impl Activation {
    pub open spec fn next(self, reply: Result<(), ObserverError>) -> DaemonStep {
        match reply {
            Err(error) => torn_down(self.running, DaemonError::Observer(error)),
            Ok(_) => DaemonStep::Maintain(
                ActivationMaintenance {
                    composition: self.composition,
                    running: self.running,
                    part: Maintenance::ExpireLeases,
                },
            ),
        }
    }

    pub fn resume(self, reply: Result<(), ObserverError>) -> (step: DaemonStep)
        ensures
            step == self.next(reply),
    {
        match reply {
            Err(error) => tear_down(self.running, DaemonError::Observer(error)),
            Ok(_) => DaemonStep::Maintain(
                ActivationMaintenance {
                    composition: self.composition,
                    running: self.running,
                    part: Maintenance::ExpireLeases,
                },
            ),
        }
    }
}

impl ActivationMaintenance {
    /// Expire, promote, pool, revive; then the observer starts, if supervision is still healthy.
    pub open spec fn leads_to(
        self,
        reply: Result<(), Error>,
        supervision_failed: bool,
        step: DaemonStep,
    ) -> bool {
        let composition = self.composition;
        let running = self.running;
        match reply {
            Err(error) => step == torn_down(running, DaemonError::Persistence(error)),
            Ok(_) => match self.part {
                Maintenance::ExpireLeases => step == DaemonStep::Maintain(
                    ActivationMaintenance { composition, running, part: Maintenance::PromoteRetryWait },
                ),
                Maintenance::PromoteRetryWait => step == DaemonStep::Maintain(
                    ActivationMaintenance { composition, running, part: Maintenance::ReconcilePool },
                ),
                Maintenance::ReconcilePool => step == DaemonStep::Maintain(
                    ActivationMaintenance { composition, running, part: Maintenance::ReviveEligibleAgents },
                ),
                Maintenance::ReviveEligibleAgents => if supervision_failed {
                    recovery_fault(step, running, false, "supervision failed during activation"@)
                } else {
                    step == DaemonStep::StartObserver(ObserverStart { composition, running })
                },
            },
        }
    }

    pub fn resume(self, reply: Result<(), Error>, supervision_failed: bool) -> (step: DaemonStep)
        ensures
            self.leads_to(reply, supervision_failed, step),
    {
        let composition = self.composition;
        let running = self.running;
        match reply {
            Err(error) => tear_down(running, DaemonError::Persistence(error)),
            Ok(_) => match self.part {
                Maintenance::ExpireLeases => DaemonStep::Maintain(
                    ActivationMaintenance { composition, running, part: Maintenance::PromoteRetryWait },
                ),
                Maintenance::PromoteRetryWait => DaemonStep::Maintain(
                    ActivationMaintenance { composition, running, part: Maintenance::ReconcilePool },
                ),
                Maintenance::ReconcilePool => DaemonStep::Maintain(
                    ActivationMaintenance { composition, running, part: Maintenance::ReviveEligibleAgents },
                ),
                Maintenance::ReviveEligibleAgents => {
                    if supervision_failed {
                        tear_down(
                            running,
                            DaemonError::Recovery(
                                RecoveryError::Invariant(
                                    "supervision failed during activation".to_string(),
                                ),
                            ),
                        )
                    } else {
                        DaemonStep::StartObserver(ObserverStart { composition, running })
                    }
                },
            },
        }
    }
}

impl ObserverStart {
    /// The permit is minted here: the lock is held, and recovery and activation are behind.
    pub open spec fn next(self, reply: Result<(), ObserverError>) -> DaemonStep {
        match reply {
            Err(error) => torn_down(self.running, DaemonError::Observer(error)),
            Ok(_) => DaemonStep::StartControl(
                ControlStart {
                    composition: self.composition,
                    running: Running { observer: true, ..self.running },
                    permit: ReadyPermit::minted(),
                },
            ),
        }
    }

    pub fn resume(self, reply: Result<(), ObserverError>) -> (step: DaemonStep)
        ensures
            step == self.next(reply),
    {
        match reply {
            Err(error) => tear_down(self.running, DaemonError::Observer(error)),
            Ok(_) => DaemonStep::StartControl(
                ControlStart {
                    composition: self.composition,
                    running: Running {
                        observer: true,
                        notifier: self.running.notifier,
                        supervision: self.running.supervision,
                    },
                    permit: ReadyPermit::mint(),
                },
            ),
        }
    }
}

impl ControlStart {
    /// Spends the permit on the control loop of the composed timing, and asks for its thread.
    pub fn service(self) -> (parts: (ControlLoopService, ControlSpawn))
        requires
            self.composition.timing.poll_of().representable(),
        ensures
            parts.0.interval().nanos == self.composition.timing.poll_of().nanos(),
            parts.1 == (ControlSpawn { running: self.running }),
    {
        (
            ControlLoopService::new(&self.composition.timing, self.permit),
            ControlSpawn { running: self.running },
        )
    }
}

/// The thread of the control loop is being spawned.
#[derive(Debug, PartialEq, Eq)]
pub struct ControlSpawn {
    pub running: Running,
}

impl ControlSpawn {
    /// The daemon is ready, with its dispatch gate open, once the control loop runs.
    pub open spec fn leads_to(self, reply: Result<(), ControlError>, step: DaemonStep) -> bool {
        match reply {
            Err(error) => step == torn_down(self.running, DaemonError::Control(error)),
            Ok(_) => step matches DaemonStep::Finished(Ok(daemon)) && daemon.phase_of()
                == DaemonPhase::Ready && daemon.may_dispatch() && daemon.has_notifier()
                == self.running.notifier,
        }
    }

    pub fn resume(self, reply: Result<(), ControlError>) -> (step: DaemonStep)
        ensures
            self.leads_to(reply, step),
    {
        match reply {
            Err(error) => tear_down(self.running, DaemonError::Control(error)),
            Ok(_) => DaemonStep::Finished(
                Ok(
                    RunningSchedulerDaemon {
                        phase: DaemonPhase::Ready,
                        notifier: self.running.notifier,
                        gate: DispatchGate::open(),
                    },
                ),
            ),
        }
    }
}

/// What of the teardown follows a part, where anything does.
pub open spec fn teardown_after(running: Running, unopened: bool, part: TeardownPart) -> Option<
    TeardownPart,
> {
    match part {
        TeardownPart::StopObserver => Some(teardown_from(running, TeardownPart::StopNotifier)),
        TeardownPart::StopNotifier => Some(
            if unopened {
                TeardownPart::ReleaseLock
            } else {
                teardown_from(running, TeardownPart::StopSupervision)
            },
        ),
        TeardownPart::StopSupervision => Some(
            if unopened && running.notifier {
                TeardownPart::StopNotifier
            } else {
                TeardownPart::ReleaseLock
            },
        ),
        TeardownPart::ReleaseLock => None,
    }
}

impl Teardown {
    pub open spec fn next(self) -> DaemonStep {
        match teardown_after(self.running, self.unopened, self.part) {
            Some(part) => DaemonStep::TearDown(Teardown { part, ..self }),
            None => DaemonStep::Finished(Err(self.error)),
        }
    }

    pub fn resume(self) -> (step: DaemonStep)
        ensures
            step == self.next(),
    {
        let part = match self.part {
            TeardownPart::StopObserver => first_teardown(self.running, TeardownPart::StopNotifier),
            TeardownPart::StopNotifier => {
                if self.unopened {
                    TeardownPart::ReleaseLock
                } else {
                    first_teardown(self.running, TeardownPart::StopSupervision)
                }
            },
            TeardownPart::StopSupervision => {
                if self.unopened && self.running.notifier {
                    TeardownPart::StopNotifier
                } else {
                    TeardownPart::ReleaseLock
                }
            },
            TeardownPart::ReleaseLock => {
                return DaemonStep::Finished(Err(self.error));
            },
        };
        DaemonStep::TearDown(
            Teardown { running: self.running, unopened: self.unopened, part, error: self.error },
        )
    }
}

/// Which workers report a failure.
#[derive(Debug, Clone, Copy, PartialEq, Eq, Structural)]
pub struct WorkerHealth {
    pub control_failed: bool,
    pub observer_failed: bool,
    pub supervision_failed: bool,
    pub notifier_failed: bool,
}

impl WorkerHealth {
    pub open spec fn failed(self) -> bool {
        self.control_failed || self.observer_failed || self.supervision_failed
            || self.notifier_failed
    }

    pub fn any_failed(&self) -> (failed: bool)
        ensures
            failed == self.failed(),
    {
        self.control_failed || self.observer_failed || self.supervision_failed
            || self.notifier_failed
    }
}

/// The workers of a daemon.
#[derive(Debug, Clone, Copy, PartialEq, Eq, Structural)]
pub enum Worker {
    Control,
    Observer,
    Supervision,
    Notifier,
}

/// A daemon that runs.
#[derive(Debug)]
pub struct RunningSchedulerDaemon {
    phase: DaemonPhase,
    notifier: bool,
    gate: DispatchGate,
}

/// The workers of a daemon, in the order in which they are signalled and joined.
pub open spec fn workers_of(notifier: bool) -> Seq<Worker> {
    if notifier {
        seq![Worker::Control, Worker::Observer, Worker::Supervision, Worker::Notifier]
    } else {
        seq![Worker::Control, Worker::Observer, Worker::Supervision]
    }
}

/// The phase after a shutdown was asked for.
pub open spec fn phase_after_request(phase: DaemonPhase) -> DaemonPhase {
    if phase == DaemonPhase::Ready {
        DaemonPhase::Stopping
    } else {
        phase
    }
}

/// The phase after the workers' health was looked at.
pub open spec fn phase_after_poll(phase: DaemonPhase, health: WorkerHealth) -> DaemonPhase {
    if health.failed() {
        DaemonPhase::Failed
    } else {
        phase
    }
}

impl RunningSchedulerDaemon {
    pub closed spec fn phase_of(self) -> DaemonPhase {
        self.phase
    }

    pub closed spec fn has_notifier(self) -> bool {
        self.notifier
    }

    /// New executions may be started.
    pub closed spec fn may_dispatch(self) -> bool {
        self.gate.allows()
    }

    /// A daemon dispatches only while it is ready.
    pub open spec fn dispatches_when_ready(self) -> bool {
        self.may_dispatch() ==> self.phase_of() == DaemonPhase::Ready
    }

    pub fn phase(&self) -> (phase: DaemonPhase)
        ensures
            phase == self.phase_of(),
    {
        self.phase
    }

    /// The dispatch gate that the control loop dispatches through.
    pub fn gate(&self) -> (gate: &DispatchGate)
        ensures
            gate.allows() == self.may_dispatch(),
    {
        &self.gate
    }

    /// The daemon after the health of its workers was looked at.
    pub open spec fn polls_to(
        self,
        health: WorkerHealth,
        after: RunningSchedulerDaemon,
        failed: bool,
    ) -> bool {
        &&& failed == health.failed()
        &&& after.phase_of() == phase_after_poll(self.phase_of(), health)
        &&& after.has_notifier() == self.has_notifier()
        &&& after.may_dispatch() == (self.may_dispatch() && !failed)
    }

    /// The daemon after its shutdown was asked for.
    pub open spec fn stops_to(self, after: RunningSchedulerDaemon) -> bool {
        &&& after.phase_of() == phase_after_request(self.phase_of())
        &&& after.has_notifier() == self.has_notifier()
        &&& !after.may_dispatch()
    }

    /// The daemon after its end, and how it ended.
    pub open spec fn joins_to(
        self,
        before: WorkerHealth,
        signalled: WorkerHealth,
        after: RunningSchedulerDaemon,
        exit: DaemonExit,
    ) -> bool {
        let failed = self.phase_of() == DaemonPhase::Failed || before.failed()
            || signalled.failed();
        &&& !after.may_dispatch()
        &&& after.has_notifier() == self.has_notifier()
        &&& failed ==> after.phase_of() == DaemonPhase::Failed && (exit matches DaemonExit::Failed(
            m,
        ) && m@ == "runtime worker failed"@)
        &&& !failed ==> after.phase_of() == DaemonPhase::Stopped && exit == DaemonExit::Stopped
    }

    /// A worker that failed fails the daemon and asks for its shutdown.  Tells whether that is so.
    pub fn poll_health(&mut self, health: WorkerHealth) -> (failed: bool)
        ensures
            old(self).polls_to(health, *final(self), failed),
            old(self).dispatches_when_ready() ==> final(self).dispatches_when_ready(),
    {
        if health.any_failed() {
            self.phase = DaemonPhase::Failed;
            self.request_shutdown();
            return true;
        }
        false
    }

    /// Asks for the shutdown: nothing more is dispatched, and a ready daemon is stopping.  The
    /// workers are to be signalled in the order of [`Self::workers`].
    pub fn request_shutdown(&mut self)
        ensures
            old(self).stops_to(*final(self)),
            final(self).dispatches_when_ready(),
    {
        self.gate.revoke();
        if self.phase == DaemonPhase::Ready {
            self.phase = DaemonPhase::Stopping;
        }
    }

    /// The workers, in the order in which they are signalled and joined.  The lock is released
    /// after the last of them.
    pub fn workers(&self) -> (workers: Vec<Worker>)
        ensures
            workers@ == workers_of(self.has_notifier()),
    {
        let mut workers: Vec<Worker> = Vec::new();
        workers.push(Worker::Control);
        workers.push(Worker::Observer);
        workers.push(Worker::Supervision);
        if self.notifier {
            workers.push(Worker::Notifier);
        }
        assert(workers@ =~= workers_of(self.has_notifier()));
        workers
    }

    /// Ends the daemon.  `before` is the health of the workers when the end was asked for, `after`
    /// their health once all of them were signalled.
    pub fn join(&mut self, before: WorkerHealth, after: WorkerHealth) -> (exit: DaemonExit)
        ensures
            old(self).joins_to(before, after, *final(self), exit),
    {
        self.poll_health(before);
        self.request_shutdown();
        if self.phase == DaemonPhase::Failed || after.any_failed() {
            self.phase = DaemonPhase::Failed;
            DaemonExit::Failed("runtime worker failed".to_string())
        } else {
            self.phase = DaemonPhase::Stopped;
            DaemonExit::Stopped
        }
    }
}

// ---------------------------------------------------------------------------------------------
// Laws
// ---------------------------------------------------------------------------------------------

/// Some reply to the call that step `a` names leads to step `b`.
pub open spec fn daemon_follows(a: DaemonStep, b: DaemonStep) -> bool {
    match a {
        DaemonStep::AcquireLock(s) => exists|reply: Result<(), ProcessLockError>|
            b == #[trigger] s.next(reply),
        DaemonStep::OpenStore(s) => exists|reply: Result<(), Error>| b == #[trigger] s.next(reply),
        DaemonStep::Recover(s) => exists|
            reply: Result<RecoveredRuntime, RecoveryError>,
            supervision_failed: bool,
            notifier_failed: bool,
        | #[trigger] s.leads_to(reply, supervision_failed, notifier_failed, b),
        DaemonStep::Activate(s) => exists|reply: Result<(), ObserverError>|
            b == #[trigger] s.next(reply),
        DaemonStep::Maintain(s) => exists|reply: Result<(), Error>, supervision_failed: bool|
            #[trigger] s.leads_to(reply, supervision_failed, b),
        DaemonStep::StartObserver(s) => exists|reply: Result<(), ObserverError>|
            b == #[trigger] s.next(reply),
        DaemonStep::StartControl(s) => exists|reply: Result<(), ControlError>|
            #[trigger] (ControlSpawn { running: s.running }).leads_to(reply, b),
        DaemonStep::TearDown(s) => b == s.next(),
        DaemonStep::Finished(_) => false,
    }
}

/// A start: it begins with the lock, and each step follows from the one before.
pub open spec fn daemon_run(run: Seq<DaemonStep>) -> bool {
    &&& run.len() > 0
    &&& run[0] is AcquireLock
    &&& forall|i: int|
        0 <= i && i + 1 < run.len() ==> daemon_follows(#[trigger] run[i], run[i + 1])
}

/// A permit, and with it any dispatch, has the whole start behind it: the lock, the store, the
/// recovery, the activation, and the maintenance in its order.
pub proof fn law_permit_comes_last(run: Seq<DaemonStep>, j: int)
    requires
        daemon_run(run),
        0 <= j < run.len(),
        run[j] is StartControl,
    ensures
        j == 9,
        run[0] is AcquireLock,
        run[1] is OpenStore,
        run[2] is Recover,
        run[3] is Activate,
        run[4] matches DaemonStep::Maintain(s) && s.part == Maintenance::ExpireLeases,
        run[5] matches DaemonStep::Maintain(s) && s.part == Maintenance::PromoteRetryWait,
        run[6] matches DaemonStep::Maintain(s) && s.part == Maintenance::ReconcilePool,
        run[7] matches DaemonStep::Maintain(s) && s.part == Maintenance::ReviveEligibleAgents,
        run[8] is StartObserver,
{
    lemma_place(run, j);
    lemma_next_place(run[8], run[9]);
    lemma_next_place(run[7], run[8]);
    lemma_next_place(run[6], run[7]);
    lemma_next_place(run[5], run[6]);
    lemma_next_place(run[4], run[5]);
    lemma_next_place(run[3], run[4]);
    lemma_next_place(run[2], run[3]);
    lemma_next_place(run[1], run[2]);
}

/// The place of a step in a start that goes well.
pub open spec fn place(step: DaemonStep) -> Option<int> {
    match step {
        DaemonStep::AcquireLock(_) => Some(0),
        DaemonStep::OpenStore(_) => Some(1),
        DaemonStep::Recover(_) => Some(2),
        DaemonStep::Activate(_) => Some(3),
        DaemonStep::Maintain(s) => match s.part {
            Maintenance::ExpireLeases => Some(4),
            Maintenance::PromoteRetryWait => Some(5),
            Maintenance::ReconcilePool => Some(6),
            Maintenance::ReviveEligibleAgents => Some(7),
        },
        DaemonStep::StartObserver(_) => Some(8),
        DaemonStep::StartControl(_) => Some(9),
        DaemonStep::TearDown(_) => None,
        DaemonStep::Finished(_) => None,
    }
}

proof fn lemma_next_place(a: DaemonStep, b: DaemonStep)
    requires
        daemon_follows(a, b),
    ensures
        place(b) matches Some(p) ==> p > 0 && place(a) == Some(p - 1),
{
}

proof fn lemma_place(run: Seq<DaemonStep>, j: int)
    requires
        daemon_run(run),
        0 <= j < run.len(),
    ensures
        place(run[j]) matches Some(p) ==> p == j,
    decreases j,
{
    if j > 0 {
        lemma_place(run, j - 1);
        lemma_next_place(run[j - 1], run[j]);
    }
}

/// The composition that a step of a start is carried out with.
pub open spec fn composition_of(step: DaemonStep) -> Option<SchedulerDaemonBuilder> {
    match step {
        DaemonStep::AcquireLock(s) => Some(s.composition),
        DaemonStep::OpenStore(s) => Some(s.composition),
        DaemonStep::Recover(s) => Some(s.composition),
        DaemonStep::Activate(s) => Some(s.composition),
        DaemonStep::Maintain(s) => Some(s.composition),
        DaemonStep::StartObserver(s) => Some(s.composition),
        DaemonStep::StartControl(s) => Some(s.composition),
        DaemonStep::TearDown(_) => None,
        DaemonStep::Finished(_) => None,
    }
}

proof fn lemma_next_composition(a: DaemonStep, b: DaemonStep)
    requires
        daemon_follows(a, b),
    ensures
        composition_of(b) is Some ==> composition_of(a) == composition_of(b),
{
}

/// A start has one composition throughout: the lock, the store, the recovery, the observer and the
/// control loop are those of the builder that was started.
pub proof fn law_start_keeps_composition(run: Seq<DaemonStep>, j: int)
    requires
        daemon_run(run),
        0 <= j < run.len(),
        composition_of(run[j]) is Some,
    ensures
        composition_of(run[j]) == composition_of(run[0]),
    decreases j,
{
    if j > 0 {
        lemma_next_composition(run[j - 1], run[j]);
        law_start_keeps_composition(run, j - 1);
    }
}

/// A start that fails once the lock is held releases it, as the last thing before it reports.
pub proof fn law_failed_start_releases_lock(run: Seq<DaemonStep>, j: int)
    requires
        daemon_run(run),
        0 <= j < run.len(),
        run[j] is Finished,
        run[j]->Finished_0 is Err,
    ensures
        j > 0,
        run[j - 1] is AcquireLock || (run[j - 1] matches DaemonStep::TearDown(last) && last.part
            == TeardownPart::ReleaseLock && last.error == run[j]->Finished_0->Err_0),
{
    assert(daemon_follows(run[j - 1], run[j - 1 + 1]));
}

/// A daemon that has started dispatches only while it is ready.
pub proof fn law_ready_daemon_dispatches(
    call: ControlSpawn,
    reply: Result<(), ControlError>,
    step: DaemonStep,
)
    requires
        call.leads_to(reply, step),
    ensures
        step matches DaemonStep::Finished(Ok(daemon)) ==> daemon.may_dispatch()
            && daemon.dispatches_when_ready(),
{
}

/// A daemon that is not ready any more never becomes ready again, and a failure is final.
pub proof fn law_daemon_phases_are_final(phase: DaemonPhase, health: WorkerHealth)
    ensures
        phase != DaemonPhase::Ready ==> phase_after_request(phase) == phase,
        phase_after_request(phase) != DaemonPhase::Ready,
        phase == DaemonPhase::Failed ==> phase_after_poll(phase, health) == DaemonPhase::Failed
            && phase_after_request(phase) == DaemonPhase::Failed,
{
}

/// A start that goes well takes its steps one after the other, with one composition and with the
/// services that the recovery left running.
pub proof fn law_start_goes_on(
    composition: SchedulerDaemonBuilder,
    running: Running,
    recovered: RecoveredRuntime,
    activated: DaemonStep,
)
    requires
        (RecoveryRun { composition }).leads_to(Ok(recovered), false, false, activated),
    ensures
        (LockAcquisition { composition }).next(Ok(())) == DaemonStep::OpenStore(
            StoreOpen { composition },
        ),
        (StoreOpen { composition }).next(Ok(())) == DaemonStep::Recover(
            RecoveryRun { composition },
        ),
        activated == DaemonStep::Activate(
            Activation {
                composition,
                running: Running {
                    observer: false,
                    notifier: recovered.notifier,
                    supervision: true,
                },
            },
        ),
        (Activation { composition, running }).next(Ok(())) == DaemonStep::Maintain(
            ActivationMaintenance { composition, running, part: Maintenance::ExpireLeases },
        ),
        (ObserverStart { composition, running }).next(Ok(())) == DaemonStep::StartControl(
            ControlStart {
                composition,
                running: Running {
                    observer: true,
                    notifier: running.notifier,
                    supervision: running.supervision,
                },
                permit: ReadyPermit::minted(),
            },
        ),
{
}

/// The maintenance of a start has its four parts in their order, and leads to the observer where
/// supervision is well.
pub proof fn law_start_maintenance_goes_on(
    maintenance: ActivationMaintenance,
    supervision_failed: bool,
    step: DaemonStep,
)
    requires
        maintenance.leads_to(Ok(()), supervision_failed, step),
    ensures
        ({
            let composition = maintenance.composition;
            let running = maintenance.running;
            match maintenance.part {
                Maintenance::ExpireLeases => step == DaemonStep::Maintain(
                    ActivationMaintenance {
                        composition,
                        running,
                        part: Maintenance::PromoteRetryWait,
                    },
                ),
                Maintenance::PromoteRetryWait => step == DaemonStep::Maintain(
                    ActivationMaintenance { composition, running, part: Maintenance::ReconcilePool },
                ),
                Maintenance::ReconcilePool => step == DaemonStep::Maintain(
                    ActivationMaintenance {
                        composition,
                        running,
                        part: Maintenance::ReviveEligibleAgents,
                    },
                ),
                Maintenance::ReviveEligibleAgents => if supervision_failed {
                    step matches DaemonStep::TearDown(t) && t.running == running && !t.unopened && (
                    t.error matches DaemonError::Recovery(RecoveryError::Invariant(m)) && m@
                        == "supervision failed during activation"@)
                } else {
                    step == DaemonStep::StartObserver(ObserverStart { composition, running })
                },
            }
        }),
{
}

/// The step tears down what runs, from its first part on, with this error.
pub open spec fn tears_down(step: DaemonStep, running: Running, error: DaemonError) -> bool {
    step matches DaemonStep::TearDown(t) && t.running == running && !t.unopened && t.error == error
        && t.part == (if running.observer {
        TeardownPart::StopObserver
    } else if running.notifier {
        TeardownPart::StopNotifier
    } else if running.supervision {
        TeardownPart::StopSupervision
    } else {
        TeardownPart::ReleaseLock
    })
}

/// A start that fails is torn down with the error that it failed with, and what runs by then is
/// stopped; a lock that is not had leaves nothing to tear down.
pub proof fn law_failed_start_is_torn_down(
    lock: LockAcquisition,
    store: StoreOpen,
    recovery: RecoveryRun,
    activation: Activation,
    maintenance: ActivationMaintenance,
    observer: ObserverStart,
    spawn: ControlSpawn,
    held: ProcessLockError,
    error: Error,
    recovery_error: RecoveryError,
    observer_error: ObserverError,
    control_error: ControlError,
    flags: (bool, bool),
    after_recovery: DaemonStep,
    after_maintenance: DaemonStep,
    after_spawn: DaemonStep,
)
    requires
        !(held is AlreadyRunning),
        recovery.leads_to(Err(recovery_error), flags.0, flags.1, after_recovery),
        maintenance.leads_to(Err(error), flags.0, after_maintenance),
        spawn.leads_to(Err(control_error), after_spawn),
    ensures
        ({
            let nothing = Running { observer: false, notifier: false, supervision: false };
            &&& lock.next(Err(ProcessLockError::AlreadyRunning)) == DaemonStep::Finished(
                Err(DaemonError::AlreadyRunning),
            )
            &&& lock.next(Err(held)) == DaemonStep::Finished(Err(DaemonError::ProcessLock(held)))
            &&& tears_down(store.next(Err(error)), nothing, DaemonError::Persistence(error))
            &&& tears_down(after_recovery, nothing, DaemonError::Recovery(recovery_error))
            &&& tears_down(
                activation.next(Err(observer_error)),
                activation.running,
                DaemonError::Observer(observer_error),
            )
            &&& tears_down(
                after_maintenance,
                maintenance.running,
                DaemonError::Persistence(error),
            )
            &&& tears_down(
                observer.next(Err(observer_error)),
                observer.running,
                DaemonError::Observer(observer_error),
            )
            &&& tears_down(after_spawn, spawn.running, DaemonError::Control(control_error))
        }),
{
}

/// A recovered runtime with a service that failed is not activated: its services are stopped as
/// one, supervision first, and the fault of supervision is the one that is told.
pub proof fn law_sick_runtime_is_not_activated(
    recovery: RecoveryRun,
    recovered: RecoveredRuntime,
    supervision_failed: bool,
    notifier_failed: bool,
    step: DaemonStep,
)
    requires
        recovery.leads_to(Ok(recovered), supervision_failed, notifier_failed, step),
        supervision_failed || (recovered.notifier && notifier_failed),
    ensures
        step matches DaemonStep::TearDown(t) && t.unopened && t.part
            == TeardownPart::StopSupervision && t.running == (Running {
            observer: false,
            notifier: recovered.notifier,
            supervision: true,
        }) && (t.error matches DaemonError::Recovery(RecoveryError::Invariant(m)) && m@ == (
        if supervision_failed {
            "supervision failed before activation"@
        } else {
            "notifier failed before activation"@
        })),
{
}

/// A notifier that a runtime does not have cannot keep it from being activated.
pub proof fn law_missing_notifier_is_not_missed(
    recovery: RecoveryRun,
    notifier_failed: bool,
    step: DaemonStep,
)
    requires
        recovery.leads_to(Ok(RecoveredRuntime { notifier: false }), false, notifier_failed, step),
    ensures
        step is Activate,
{
}

/// A teardown goes from part to part: the observer, the notifier and supervision, each where it
/// runs, then the lock, and then the error is reported.
pub proof fn law_teardown_stops_what_runs(running: Running, error: DaemonError)
    ensures
        ({
            let at = |part: TeardownPart| Teardown { running, unopened: false, part, error };
            let step = |part: TeardownPart|
                DaemonStep::TearDown(Teardown { running, unopened: false, part, error });
            &&& at(TeardownPart::StopObserver).next() == step(
                if running.notifier {
                    TeardownPart::StopNotifier
                } else if running.supervision {
                    TeardownPart::StopSupervision
                } else {
                    TeardownPart::ReleaseLock
                },
            )
            &&& at(TeardownPart::StopNotifier).next() == step(
                if running.supervision {
                    TeardownPart::StopSupervision
                } else {
                    TeardownPart::ReleaseLock
                },
            )
            &&& at(TeardownPart::StopSupervision).next() == step(TeardownPart::ReleaseLock)
            &&& at(TeardownPart::ReleaseLock).next() == DaemonStep::Finished(
                Err::<RunningSchedulerDaemon, DaemonError>(error),
            )
        }),
{
}

/// The teardown of services that were not taken apart stops supervision and then the notifier,
/// where there is one, before the lock.
pub proof fn law_unopened_teardown_stops_supervision_first(running: Running, error: DaemonError)
    ensures
        ({
            let at = |part: TeardownPart| Teardown { running, unopened: true, part, error };
            let step = |part: TeardownPart|
                DaemonStep::TearDown(Teardown { running, unopened: true, part, error });
            &&& at(TeardownPart::StopSupervision).next() == step(
                if running.notifier {
                    TeardownPart::StopNotifier
                } else {
                    TeardownPart::ReleaseLock
                },
            )
            &&& at(TeardownPart::StopNotifier).next() == step(TeardownPart::ReleaseLock)
            &&& at(TeardownPart::ReleaseLock).next() == DaemonStep::Finished(
                Err::<RunningSchedulerDaemon, DaemonError>(error),
            )
        }),
{
}

/// A daemon whose control loop runs is ready and may dispatch, and it has a notifier exactly if one
/// runs.
pub proof fn law_started_daemon_is_ready(spawn: ControlSpawn, step: DaemonStep)
    requires
        spawn.leads_to(Ok(()), step),
    ensures
        step is Finished,
        step->Finished_0 is Ok,
        step->Finished_0->Ok_0.phase_of() == DaemonPhase::Ready,
        step->Finished_0->Ok_0.may_dispatch(),
        step->Finished_0->Ok_0.has_notifier() == spawn.running.notifier,
{
}

/// How the phase of a daemon moves: a request stops a ready one and changes no other, a worker that
/// failed fails it in every phase, and healthy workers change nothing.
pub proof fn law_daemon_phases_move(phase: DaemonPhase, health: WorkerHealth)
    ensures
        phase_after_request(DaemonPhase::Ready) == DaemonPhase::Stopping,
        phase_after_request(DaemonPhase::Stopping) == DaemonPhase::Stopping,
        phase_after_request(DaemonPhase::Stopped) == DaemonPhase::Stopped,
        phase_after_request(DaemonPhase::Failed) == DaemonPhase::Failed,
        health.control_failed || health.observer_failed || health.supervision_failed
            || health.notifier_failed ==> health.failed() && phase_after_poll(phase, health)
            == DaemonPhase::Failed,
        !health.control_failed && !health.observer_failed && !health.supervision_failed
            && !health.notifier_failed ==> !health.failed() && phase_after_poll(phase, health)
            == phase,
{
}

/// What is wrong with a composition: a freshness limit that is not below the lease of the store, or
/// no more than the machine epsilon below it, and else a configured lease that is another number
/// than the store's.
pub proof fn law_composition_is_checked(store: Seconds, timing: Seconds, freshness: Seconds)
    ensures
        !freshness.less(store) || freshness.just_below(store) ==> composition_defect(
            store,
            timing,
            freshness,
        ) == Some("observer freshness_limit must be < store lease_seconds"@),
        freshness.less(store) && !freshness.just_below(store) && !timing.same_number(store)
            ==> composition_defect(store, timing, freshness) == Some(
            "timing.lease_seconds must match the store lease_seconds"@,
        ),
        freshness.less(store) && !freshness.just_below(store) && timing.same_number(store)
            ==> composition_defect(store, timing, freshness) is None,
{
}

/// The texts of the errors of a daemon.
pub proof fn law_daemon_errors_are_told(
    lock: ProcessLockError,
    recovery: RecoveryError,
    observer: ObserverError,
    control: ControlError,
    text: String,
    error: Error,
    first: Seq<char>,
    second: Seq<char>,
)
    ensures
        DaemonError::AlreadyRunning.detail(first, second)
            == "another scheduler daemon already owns this store"@,
        DaemonError::ProcessLock(lock).detail(first, second) == "process lock: "@ + lock.detail(),
        DaemonError::Recovery(recovery).detail(first, second) == "daemon recovery: "@
            + recovery.detail(first, second),
        DaemonError::Observer(observer).detail(first, second) == "daemon observer: "@
            + observer.detail(),
        DaemonError::Control(control).detail(first, second) == "daemon control: "@
            + control.detail(first, second),
        DaemonError::Config(text).detail(first, second) == "daemon configuration: "@ + text@,
        DaemonError::Persistence(error).detail(first, second) == "daemon persistence: "@
            + error.detail(),
{
}

/// The recovery of a start has the composed timing and the composed notifier, and no fault is asked
/// of it.
pub proof fn law_recovery_is_of_the_composition(run: RecoveryRun)
    ensures
        run.planned().timing == run.composition.timing,
        run.planned().notifier == run.composition.notifier,
        run.planned().fail_after_readmits is None,
{
}

/// The workers are stopped from the one that dispatches to the one that only notifies: each of them
/// once, and the notifier last, if there is one.
pub proof fn law_workers_stop_in_order(notifier: bool)
    ensures
        workers_of(notifier)[0] == Worker::Control,
        workers_of(notifier)[1] == Worker::Observer,
        workers_of(notifier)[2] == Worker::Supervision,
        notifier ==> workers_of(notifier).len() == 4 && workers_of(notifier)[3] == Worker::Notifier,
        !notifier ==> workers_of(notifier).len() == 3,
{
}

/// One thing that happens to a running daemon.
pub open spec fn daemon_moves(before: RunningSchedulerDaemon, after: RunningSchedulerDaemon) -> bool {
    ||| exists|health: WorkerHealth, failed: bool| #[trigger] before.polls_to(health, after, failed)
    ||| before.stops_to(after)
    ||| exists|first: WorkerHealth, second: WorkerHealth, exit: DaemonExit| #[trigger]
        before.joins_to(first, second, after, exit)
}

/// A daemon that does not dispatch any more never does again, one that failed stays failed, and it
/// has the notifier that it started with.
pub proof fn law_daemon_does_not_come_back(
    before: RunningSchedulerDaemon,
    after: RunningSchedulerDaemon,
)
    requires
        daemon_moves(before, after),
    ensures
        !before.may_dispatch() ==> !after.may_dispatch(),
        before.phase_of() == DaemonPhase::Failed ==> after.phase_of() == DaemonPhase::Failed,
        after.phase_of() == DaemonPhase::Ready ==> before.phase_of() == DaemonPhase::Ready,
        after.has_notifier() == before.has_notifier(),
{
}

/// A look at the workers fails the daemon and stops its dispatch exactly if one of them failed.
pub proof fn law_failed_worker_fails_the_daemon(
    daemon: RunningSchedulerDaemon,
    health: WorkerHealth,
    after: RunningSchedulerDaemon,
    failed: bool,
)
    requires
        daemon.polls_to(health, after, failed),
    ensures
        failed <==> health.control_failed || health.observer_failed || health.supervision_failed
            || health.notifier_failed,
        failed ==> after.phase_of() == DaemonPhase::Failed && !after.may_dispatch(),
        !failed ==> after.phase_of() == daemon.phase_of() && after.may_dispatch()
            == daemon.may_dispatch(),
{
}

/// A shutdown that is asked for stops the dispatch at once, and a ready daemon is stopping.
pub proof fn law_shutdown_stops_the_dispatch(
    daemon: RunningSchedulerDaemon,
    after: RunningSchedulerDaemon,
)
    requires
        daemon.stops_to(after),
    ensures
        !after.may_dispatch(),
        daemon.phase_of() == DaemonPhase::Ready ==> after.phase_of() == DaemonPhase::Stopping,
        daemon.phase_of() != DaemonPhase::Ready ==> after.phase_of() == daemon.phase_of(),
{
}

/// A daemon ends as failed if it had failed or one of its workers failed before or after it was
/// signalled, and else as stopped; it dispatches nothing after that.
pub proof fn law_end_tells_every_failure(
    daemon: RunningSchedulerDaemon,
    before: WorkerHealth,
    signalled: WorkerHealth,
    after: RunningSchedulerDaemon,
    exit: DaemonExit,
)
    requires
        daemon.joins_to(before, signalled, after, exit),
    ensures
        !after.may_dispatch(),
        exit is Stopped <==> after.phase_of() == DaemonPhase::Stopped,
        exit is Stopped <==> daemon.phase_of() != DaemonPhase::Failed && !before.control_failed
            && !before.observer_failed && !before.supervision_failed && !before.notifier_failed
            && !signalled.control_failed && !signalled.observer_failed
            && !signalled.supervision_failed && !signalled.notifier_failed,
        exit matches DaemonExit::Failed(m) ==> m@ == "runtime worker failed"@ && after.phase_of()
            == DaemonPhase::Failed,
{
}

} // verus!

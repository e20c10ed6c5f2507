use agentype_runtime::control::{
    ControlCycleReport, ControlDispatch, ControlError, ControlLoopRunner, ControlLoopService,
    ControlLoopStep, CycleStep, DispatchGate,
};
use agentype_runtime::daemon::{DaemonStep, SchedulerDaemonBuilder};
use agentype_runtime::dispatch::{DispatchError, DispatchOneOutcome, SupervisionAdmissionSeed};
use agentype_runtime::domain::{
    AttemptId, Error, ExecutionId, FailureClass, RequestId, ResultId,
};
use agentype_runtime::heartbeat::{AdmissionSink, SupervisionRunner};
use agentype_runtime::notifier::NotifierBinding;
use agentype_runtime::observer::PhysicalObserverConfig;
use agentype_runtime::process_lock::SqliteRuntimeConfig;
use agentype_runtime::recovery::{Maintenance, RecoveredRuntime};
use agentype_runtime::runner::{RunnerPhase, RunnerState};
use agentype_runtime::supervision::{AdmissionMint, SupervisionError};
use agentype_runtime::time::{Duration, Seconds, UnixTime};
use agentype_runtime::timing::RuntimeTimingConfig;

fn seconds(value: f64) -> Seconds {
    Seconds { bits: value.to_bits() }
}

fn timing() -> RuntimeTimingConfig {
    RuntimeTimingConfig::new(seconds(1.0), seconds(2.0), seconds(10.0)).unwrap()
}

/// The control loop of a daemon whose start went well.
fn control() -> ControlLoopService {
    let store =
        SqliteRuntimeConfig::new("/var/scheduler.sqlite".to_string(), seconds(10.0), 16_384)
            .unwrap();
    let observer =
        PhysicalObserverConfig::new(seconds(1.0), seconds(4.0), 8, seconds(1e6)).unwrap();
    let builder = SchedulerDaemonBuilder::new(
        store,
        timing(),
        observer,
        NotifierBinding::DisabledForTests,
    )
    .unwrap();
    let mut step = builder.start();
    loop {
        step = match step {
            DaemonStep::AcquireLock(call) => call.resume(Ok(())),
            DaemonStep::OpenStore(call) => call.resume(Ok(())),
            DaemonStep::Recover(call) => {
                call.resume(Ok(RecoveredRuntime { notifier: false }), false, false)
            }
            DaemonStep::Activate(call) => call.resume(Ok(())),
            DaemonStep::Maintain(call) => call.resume(Ok(()), false),
            DaemonStep::StartObserver(call) => call.resume(Ok(())),
            DaemonStep::StartControl(call) => return call.service().0,
            other => panic!("the start went wrong: {other:?}"),
        }
    }
}

#[derive(Debug, Clone, Copy, PartialEq, Eq)]
enum TaskState {
    Queued,
    Running,
    RetryWait,
}

#[derive(Debug)]
struct Task {
    state: TaskState,
    lease_expires_at: Option<u64>,
    retry_at: u64,
}

/// A store with tasks, and a dispatcher on it.
struct World {
    now: u64,
    tasks: Vec<Task>,
    start_times_out: bool,
    starts: usize,
    supervision: SupervisionRunner,
    mint: AdmissionMint,
    gate: DispatchGate,
    calls: Vec<&'static str>,
}

fn world() -> World {
    World {
        now: 1_000,
        tasks: Vec::new(),
        start_times_out: false,
        starts: 0,
        supervision: SupervisionRunner::start(&timing(), seconds(10.0)).unwrap(),
        mint: AdmissionMint::new(),
        gate: DispatchGate::open(),
        calls: Vec::new(),
    }
}

impl World {
    fn submit(&mut self) -> usize {
        self.tasks.push(Task { state: TaskState::Queued, lease_expires_at: None, retry_at: 0 });
        self.tasks.len() - 1
    }

    fn maintain(&mut self, part: Maintenance) {
        let now = self.now;
        match part {
            Maintenance::ExpireLeases => {
                self.calls.push("expire");
                for task in &mut self.tasks {
                    if task.lease_expires_at.is_some_and(|at| now >= at) {
                        task.lease_expires_at = None;
                        task.state = TaskState::RetryWait;
                        task.retry_at = now + 1;
                    }
                }
            }
            Maintenance::PromoteRetryWait => {
                self.calls.push("promote");
                for task in &mut self.tasks {
                    if task.state == TaskState::RetryWait && now >= task.retry_at {
                        task.state = TaskState::Queued;
                    }
                }
            }
            Maintenance::ReconcilePool => self.calls.push("pool"),
            Maintenance::ReviveEligibleAgents => self.calls.push("revive"),
        }
    }

    fn dispatch_one(&mut self) -> Result<DispatchOneOutcome, DispatchError> {
        self.calls.push("dispatch");
        let number = match self.tasks.iter().position(|task| task.state == TaskState::Queued) {
            Some(number) => number,
            None => return Ok(DispatchOneOutcome::NoWork),
        };
        self.starts += 1;
        let execution_id = ExecutionId::new(&format!("execution-{number}"));
        let request_id = RequestId::new(&format!("request-{number}"));
        let task = &mut self.tasks[number];
        if self.start_times_out {
            task.state = TaskState::RetryWait;
            task.retry_at = self.now + 1;
            return Ok(DispatchOneOutcome::StartFailed {
                execution_id,
                request_id,
                failure_class: FailureClass::Timeout,
            });
        }
        task.state = TaskState::Running;
        task.lease_expires_at = Some(self.now + 10);
        Ok(DispatchOneOutcome::StartedRunning {
            admission: SupervisionAdmissionSeed {
                execution_id,
                request_id,
                attempt_id: AttemptId::new(&format!("attempt-{number}")),
                lease_epoch: 1,
            },
        })
    }

    fn cycle(
        &mut self,
        control: &ControlLoopService,
    ) -> Result<agentype_runtime::control::ControlCycleReport, ControlError> {
        let mut step = control.cycle();
        loop {
            step = match step {
                CycleStep::Maintain(call) => {
                    self.maintain(call.part);
                    call.resume(Ok(()), &self.gate)
                }
                CycleStep::Dispatch(call) => {
                    let reply = self.dispatch_one();
                    call.resume(reply)
                }
                CycleStep::HandOver(call) => {
                    let admission = self.mint.mint(SupervisionAdmissionSeed {
                        execution_id: call.grant.execution_id.clone(),
                        request_id: call.grant.request_id.clone(),
                        attempt_id: call.grant.attempt_id.clone(),
                        lease_epoch: call.grant.lease_epoch,
                    });
                    let reply = self
                        .supervision
                        .admit_execution(admission, UnixTime::from_secs(self.now));
                    call.resume(reply, &self.gate)
                }
                CycleStep::Finished(result) => return result,
            }
        }
    }
}

#[test]
fn construction_requires_ready_permit() {
    let control = control();
    assert_eq!(control.poll_interval(), Duration::from_secs(1));
    assert_eq!(world().cycle(&control).unwrap().dispatch, ControlDispatch::NoWork);
}

#[test]
fn no_work_returns_poll_wait_without_busy_spin() {
    let mut world = world();
    let report = world.cycle(&control()).unwrap();
    assert_eq!(report.dispatch, ControlDispatch::NoWork);
    assert_eq!(report.wait, Duration::from_secs(1));
    assert_eq!(world.calls, vec!["expire", "promote", "pool", "revive", "dispatch"]);
}

#[test]
fn running_admitted_is_handed_to_supervision() {
    let mut world = world();
    world.submit();
    match world.cycle(&control()).unwrap().dispatch {
        ControlDispatch::RunningAdmitted { execution_id } => {
            assert!(world.supervision.contains(&execution_id));
        }
        other => panic!("expected RunningAdmitted, got {other:?}"),
    }
}

#[test]
fn expire_sweeps_overdue_lease_without_restart() {
    let mut world = world();
    let task = world.submit();
    let control = control();
    assert!(matches!(
        world.cycle(&control).unwrap().dispatch,
        ControlDispatch::RunningAdmitted { .. }
    ));
    assert!(world.tasks[task].lease_expires_at.is_some());
    world.now += 11;
    world.cycle(&control).unwrap();
    assert_eq!(world.tasks[task].lease_expires_at, None);
}

#[test]
fn retry_wait_is_promoted_then_redispatched() {
    let mut world = world();
    let task = world.submit();
    world.start_times_out = true;
    let control = control();
    assert!(matches!(
        world.cycle(&control).unwrap().dispatch,
        ControlDispatch::StartIndeterminate { .. }
    ));
    assert_eq!(world.starts, 1);
    world.cycle(&control).unwrap();
    assert_eq!(world.starts, 1);
    world.now += 2;
    world.cycle(&control).unwrap();
    assert_eq!(world.starts, 2);
    assert_eq!(world.tasks[task].state, TaskState::RetryWait);
}

#[test]
fn ordinary_start_indeterminate_is_not_fatal() {
    let mut world = world();
    world.submit();
    world.start_times_out = true;
    assert_eq!(
        world.cycle(&control()).unwrap().dispatch,
        ControlDispatch::StartIndeterminate {
            execution_id: ExecutionId::new("execution-0"),
            failure_class: Some(FailureClass::Timeout),
        }
    );
}

#[test]
fn supervision_admit_failure_is_fatal() {
    let mut world = world();
    world.supervision.request_stop();
    world.submit();
    match world.cycle(&control()) {
        Err(ControlError::Fatal(SupervisionError::RunnerStopped(_))) => {}
        other => panic!("expected Fatal RunnerStopped, got {other:?}"),
    }
}

#[test]
fn a_revoked_gate_dispatches_nothing() {
    let mut world = world();
    world.submit();
    assert!(world.gate.is_open());
    world.gate.revoke();
    world.gate.revoke();
    assert!(!world.gate.is_open());
    let report = world.cycle(&control()).unwrap();
    assert_eq!(report.dispatch, ControlDispatch::NoWork);
    assert_eq!(world.starts, 0);
    assert_eq!(world.calls, vec!["expire", "promote", "pool", "revive"]);
}

#[test]
fn a_stopped_supervision_is_no_fault_once_the_gate_is_revoked() {
    let control = control();
    let mut world = world();
    world.submit();
    let mut step = control.cycle();
    loop {
        step = match step {
            CycleStep::Maintain(call) => call.resume(Ok(()), &world.gate),
            CycleStep::Dispatch(call) => {
                let reply = world.dispatch_one();
                call.resume(reply)
            }
            CycleStep::HandOver(call) => {
                world.gate.revoke();
                let reply = Err(SupervisionError::RunnerStopped("stopped".to_string()));
                call.resume(reply, &world.gate)
            }
            CycleStep::Finished(result) => {
                assert_eq!(result.unwrap().dispatch, ControlDispatch::NoWork);
                return;
            }
        }
    }
}

#[test]
fn every_dispatch_outcome_is_reported() {
    let control = control();
    let execution_id = || ExecutionId::new("e");
    let request_id = || RequestId::new("r");
    let cases = [
        (DispatchOneOutcome::NoWork, ControlDispatch::NoWork),
        (DispatchOneOutcome::AuthorityRejected, ControlDispatch::AuthorityRejected),
        (
            DispatchOneOutcome::ConfigurationUnavailable { detail: "d".to_string() },
            ControlDispatch::ConfigurationUnavailable { detail: "d".to_string() },
        ),
        (
            DispatchOneOutcome::StartAmbiguous {
                execution_id: execution_id(),
                request_id: request_id(),
            },
            ControlDispatch::StartIndeterminate {
                execution_id: execution_id(),
                failure_class: None,
            },
        ),
        (
            DispatchOneOutcome::CompletedSynchronously {
                execution_id: execution_id(),
                request_id: request_id(),
                result_id: Some(ResultId::new("x")),
            },
            ControlDispatch::CompletedSynchronously {
                execution_id: execution_id(),
                result_id: Some(ResultId::new("x")),
            },
        ),
    ];
    for (outcome, expected) in cases {
        let mut step = control.cycle();
        let mut reply = Some(Ok(outcome));
        let report = loop {
            step = match step {
                CycleStep::Maintain(call) => call.resume(Ok(()), &DispatchGate::open()),
                CycleStep::Dispatch(call) => call.resume(reply.take().unwrap()),
                CycleStep::Finished(result) => break result.unwrap(),
                other => panic!("unexpected step {other:?}"),
            };
        };
        assert_eq!(report.dispatch, expected);
        assert_eq!(report.wait, Duration::from_secs(1));
    }
}

#[test]
fn control_faults_read_as_documented() {
    let disk = || Error::StorageFailure("disk".to_string());
    assert_eq!(
        ControlError::from(disk()).message("", ""),
        "control-loop persistence: disk"
    );
    assert_eq!(
        ControlError::from(DispatchError::Persistence(disk())).message("", ""),
        "control-loop dispatch: dispatch persistence failed: disk"
    );
    assert_eq!(
        ControlError::Fatal(SupervisionError::NoSuchEntry).message("", ""),
        "control-loop fatal: no supervision entry for this execution"
    );
    assert_eq!(
        ControlLoopRunner::spawn_failed("no threads").message("", ""),
        "control-loop fatal: fatal supervision persistence fault: \
         failed to spawn control-loop thread: no threads"
    );
    match control().cycle() {
        CycleStep::Maintain(call) => assert_eq!(
            call.resume(Err(disk()), &DispatchGate::open()),
            CycleStep::Finished(Err(ControlError::Persistence(disk())))
        ),
        other => panic!("expected maintenance, got {other:?}"),
    }
}

#[test]
fn runner_stops_on_drop_without_busy_spin() {
    let control = control();
    let mut world = world();
    let mut state = RunnerState::new();
    assert_eq!(ControlLoopRunner::next_step(&state), ControlLoopStep::Cycle);
    let result = world.cycle(&control);
    assert_eq!(
        ControlLoopRunner::cycled(&mut state, result),
        ControlLoopStep::Wait(Duration::from_secs(1))
    );
    state.request_stop();
    assert_eq!(ControlLoopRunner::next_step(&state), ControlLoopStep::Exit);
    ControlLoopRunner::exited(&mut state, false);
    state.joined();
    assert_eq!(state.phase, RunnerPhase::Stopped);
    assert_eq!(state.fatal, None);
}

#[test]
fn a_fault_or_a_panic_fails_the_control_loop() {
    let mut state = RunnerState::new();
    let fault = || ControlError::Persistence(Error::StorageFailure("disk".to_string()));
    assert_eq!(ControlLoopRunner::cycled(&mut state, Err(fault())), ControlLoopStep::Exit);
    ControlLoopRunner::exited(&mut state, false);
    assert_eq!(state.phase, RunnerPhase::Failed);
    assert_eq!(state.fatal, Some(fault()));

    let mut state = RunnerState::new();
    ControlLoopRunner::exited(&mut state, true);
    assert!(state.is_failed());
    assert_eq!(
        state.fatal.unwrap().message("", ""),
        "control-loop fatal: fatal supervision persistence fault: control-loop thread panicked"
    );
}

#[test]
fn a_faulted_loop_stays_failed_and_runs_no_more() {
    let mut state = RunnerState::new();
    assert_eq!(ControlLoopRunner::next_step(&state), ControlLoopStep::Cycle);
    let wait = Duration { nanos: 7 };
    let report = ControlCycleReport { dispatch: ControlDispatch::NoWork, wait };
    assert_eq!(ControlLoopRunner::cycled(&mut state, Ok(report)), ControlLoopStep::Wait(wait));
    assert_eq!(ControlLoopRunner::next_step(&state), ControlLoopStep::Cycle);
    let fault = || ControlError::Persistence(Error::StorageFailure("disk".to_string()));
    assert_eq!(ControlLoopRunner::cycled(&mut state, Err(fault())), ControlLoopStep::Exit);
    state.request_stop();
    ControlLoopRunner::exited(&mut state, false);
    state.joined();
    assert!(state.is_failed());
    assert_eq!(state.fatal, Some(fault()));
    assert_eq!(ControlLoopRunner::next_step(&state), ControlLoopStep::Exit);
}

#[test]
fn gates_are_revoked_one_by_one() {
    let mut first = DispatchGate::open();
    let second = DispatchGate::open();
    first.revoke();
    assert!(!first.is_open());
    first.revoke();
    assert!(!first.is_open());
    assert!(second.is_open());
}

use agentype_runtime::control::ControlError;
use agentype_runtime::daemon::{
    DaemonError, DaemonExit, DaemonPhase, DaemonStep, RunningSchedulerDaemon,
    SchedulerDaemonBuilder, TeardownPart, Worker, WorkerHealth,
};
use agentype_runtime::domain::Error;
use agentype_runtime::notifier::{NotifierBinding, NotifierConfig, NotifierRetryPolicy};
use agentype_runtime::observer::{ObserverError, PhysicalObserverConfig};
use agentype_runtime::process_lock::{
    HeldIdentities, LockStep, ProcessLockError, RuntimeProcessLock, SqliteRuntimeConfig,
    StoreLockReply,
};
use agentype_runtime::recovery::{Maintenance, RecoveredRuntime, RecoveryPlan};
use agentype_runtime::replay::RecoveryError;
use agentype_runtime::supervision::SupervisionError;
use agentype_runtime::time::{Duration, Seconds};
use agentype_runtime::timing::RuntimeTimingConfig;

fn seconds(value: f64) -> Seconds {
    Seconds { bits: value.to_bits() }
}

fn store(lease: f64) -> SqliteRuntimeConfig {
    SqliteRuntimeConfig::new("/var/scheduler.sqlite".to_string(), seconds(lease), 16_384).unwrap()
}

fn timing() -> RuntimeTimingConfig {
    RuntimeTimingConfig::new(seconds(1.0), seconds(2.0), seconds(10.0)).unwrap()
}

fn observer(freshness: f64) -> PhysicalObserverConfig {
    PhysicalObserverConfig::new(seconds(1.0), seconds(freshness), 8, seconds(1e6)).unwrap()
}

fn binding(notifier: bool) -> NotifierBinding {
    if notifier {
        let retry = NotifierRetryPolicy::new(seconds(1.0), seconds(8.0)).unwrap();
        NotifierBinding::Enabled { config: NotifierConfig::new(seconds(0.05), 8, retry).unwrap() }
    } else {
        NotifierBinding::DisabledForTests
    }
}

fn builder(notifier: bool) -> SchedulerDaemonBuilder {
    SchedulerDaemonBuilder::new(store(10.0), timing(), observer(4.0), binding(notifier)).unwrap()
}

fn acquire(held: &mut HeldIdentities) -> Result<RuntimeProcessLock, ProcessLockError> {
    acquire_store(&store(10.0), held)
}

fn acquire_store(
    store: &SqliteRuntimeConfig,
    held: &mut HeldIdentities,
) -> Result<RuntimeProcessLock, ProcessLockError> {
    let mut step = RuntimeProcessLock::acquire(store);
    loop {
        step = match step {
            LockStep::CreateDirectory(call) => call.resume(Ok(())),
            LockStep::OpenStore(call) => call.resume(Ok(())),
            LockStep::Identify(call) => {
                call.resume(Ok("/var/scheduler.sqlite".to_string()), Ok("id".to_string()), held)
            }
            LockStep::OpenLockFile(call) => call.resume(Ok(()), held),
            LockStep::LockLockFile(call) => call.resume(Ok(true), held),
            LockStep::LockStore(call) => call.resume(Ok(StoreLockReply::Locked), held),
            LockStep::Finished(result) => return result,
        }
    }
}

/// Where a start is made to fail.
#[derive(Debug, Clone, Copy, PartialEq, Eq)]
enum Fault {
    Nowhere,
    Open,
    Recovery,
    SupervisionAtRecovery,
    NotifierAtRecovery,
    Activation,
    Maintenance(Maintenance),
    SupervisionAtActivation,
    ObserverStart,
    ControlStart,
}

struct Start {
    result: Result<RunningSchedulerDaemon, DaemonError>,
    calls: Vec<&'static str>,
    teardown: Vec<TeardownPart>,
}

fn disk() -> Error {
    Error::StorageFailure("disk".to_string())
}

fn start(held: &mut HeldIdentities, notifier: bool, fault: Fault) -> Start {
    let mut step = builder(notifier).start();
    let mut lock: Option<RuntimeProcessLock> = None;
    let mut calls: Vec<&'static str> = Vec::new();
    let mut teardown: Vec<TeardownPart> = Vec::new();
    loop {
        step = match step {
            DaemonStep::AcquireLock(call) => {
                calls.push("lock");
                match acquire_store(&call.composition.store, held) {
                    Ok(owned) => {
                        lock = Some(owned);
                        call.resume(Ok(()))
                    }
                    Err(error) => call.resume(Err(error)),
                }
            }
            DaemonStep::OpenStore(call) => {
                calls.push("open");
                assert_eq!(call.composition.store, store(10.0));
                call.resume(if fault == Fault::Open { Err(disk()) } else { Ok(()) })
            }
            DaemonStep::Recover(call) => {
                calls.push("recover");
                assert_eq!(
                    call.plan(),
                    RecoveryPlan {
                        timing: timing(),
                        notifier: binding(notifier),
                        fail_after_readmits: None,
                    }
                );
                let reply = if fault == Fault::Recovery {
                    Err(RecoveryError::Persistence(disk()))
                } else {
                    Ok(RecoveredRuntime { notifier })
                };
                call.resume(
                    reply,
                    fault == Fault::SupervisionAtRecovery,
                    fault == Fault::NotifierAtRecovery,
                )
            }
            DaemonStep::Activate(call) => {
                calls.push("activate");
                assert_eq!(call.composition.observer, observer(4.0));
                call.resume(if fault == Fault::Activation {
                    Err(ObserverError::Fatal(disk()))
                } else {
                    Ok(())
                })
            }
            DaemonStep::Maintain(call) => {
                calls.push(match call.part {
                    Maintenance::ExpireLeases => "expire",
                    Maintenance::PromoteRetryWait => "promote",
                    Maintenance::ReconcilePool => "pool",
                    Maintenance::ReviveEligibleAgents => "revive",
                });
                let failed = fault == Fault::Maintenance(call.part);
                call.resume(
                    if failed { Err(disk()) } else { Ok(()) },
                    fault == Fault::SupervisionAtActivation,
                )
            }
            DaemonStep::StartObserver(call) => {
                calls.push("observer");
                call.resume(if fault == Fault::ObserverStart {
                    Err(ObserverError::Fatal(disk()))
                } else {
                    Ok(())
                })
            }
            DaemonStep::StartControl(call) => {
                calls.push("control");
                let (service, spawn) = call.service();
                assert_eq!(service.poll_interval(), Duration { nanos: 1_000_000_000 });
                spawn.resume(if fault == Fault::ControlStart {
                    Err(ControlError::Persistence(disk()))
                } else {
                    Ok(())
                })
            }
            DaemonStep::TearDown(call) => {
                teardown.push(call.part);
                if call.part == TeardownPart::ReleaseLock {
                    lock.take().unwrap().release(held);
                }
                call.resume()
            }
            DaemonStep::Finished(result) => return Start { result, calls, teardown },
        }
    }
}

fn healthy() -> WorkerHealth {
    WorkerHealth {
        control_failed: false,
        observer_failed: false,
        supervision_failed: false,
        notifier_failed: false,
    }
}

#[test]
fn start_reaches_ready_and_shutdown_does_not_complete_tasks() {
    let mut held = HeldIdentities::new();
    let started = start(&mut held, false, Fault::Nowhere);
    assert_eq!(
        started.calls,
        vec![
            "lock", "open", "recover", "activate", "expire", "promote", "pool", "revive",
            "observer", "control",
        ]
    );
    assert!(started.teardown.is_empty());
    let mut daemon = started.result.unwrap();
    assert_eq!(daemon.phase(), DaemonPhase::Ready);
    assert!(daemon.gate().is_open());
    assert_eq!(
        daemon.workers(),
        vec![Worker::Control, Worker::Observer, Worker::Supervision]
    );
    assert_eq!(daemon.join(healthy(), healthy()), DaemonExit::Stopped);
    assert_eq!(daemon.phase(), DaemonPhase::Stopped);
    assert!(!daemon.gate().is_open());
}

#[test]
fn same_process_second_start_is_already_running() {
    let mut held = HeldIdentities::new();
    let first = start(&mut held, false, Fault::Nowhere);
    assert!(first.result.is_ok());
    let second = start(&mut held, false, Fault::Nowhere);
    match second.result {
        Err(DaemonError::AlreadyRunning) => {}
        other => panic!("expected AlreadyRunning, got {other:?}"),
    }
    assert_eq!(second.calls, vec!["lock"]);
    assert!(second.teardown.is_empty());
}

#[test]
fn process_lock_is_held_for_the_store_path() {
    let mut held = HeldIdentities::new();
    let _daemon = start(&mut held, false, Fault::Nowhere);
    assert_eq!(acquire(&mut held), Err(ProcessLockError::AlreadyRunning));
}

#[test]
fn a_failed_start_tears_down_what_runs_and_releases_the_lock() {
    let notifier = TeardownPart::StopNotifier;
    let supervision = TeardownPart::StopSupervision;
    let lock = TeardownPart::ReleaseLock;
    let services = vec![notifier, supervision, lock];
    let unopened = vec![supervision, notifier, lock];
    let cases = [
        (Fault::Open, "daemon persistence: disk", vec![lock]),
        (
            Fault::Recovery,
            "daemon recovery: recovery persistence fault: disk",
            vec![lock],
        ),
        (
            Fault::SupervisionAtRecovery,
            "daemon recovery: recovery invariant violation: supervision failed before activation",
            unopened.clone(),
        ),
        (
            Fault::NotifierAtRecovery,
            "daemon recovery: recovery invariant violation: notifier failed before activation",
            unopened,
        ),
        (
            Fault::Activation,
            "daemon observer: physical observer fatal: disk",
            services.clone(),
        ),
        (
            Fault::Maintenance(Maintenance::ReconcilePool),
            "daemon persistence: disk",
            services.clone(),
        ),
        (
            Fault::SupervisionAtActivation,
            "daemon recovery: recovery invariant violation: supervision failed during activation",
            services.clone(),
        ),
        (
            Fault::ObserverStart,
            "daemon observer: physical observer fatal: disk",
            services,
        ),
        (
            Fault::ControlStart,
            "daemon control: control-loop persistence: disk",
            vec![TeardownPart::StopObserver, notifier, supervision, lock],
        ),
    ];
    for (fault, message, teardown) in cases {
        let mut held = HeldIdentities::new();
        let started = start(&mut held, true, fault);
        assert_eq!(started.result.unwrap_err().message("", ""), message);
        assert_eq!(started.teardown, teardown, "{fault:?}");
        assert!(acquire(&mut held).is_ok(), "the lock is free again");
    }
}

#[test]
fn a_missing_notifier_cannot_fail_a_start() {
    let mut held = HeldIdentities::new();
    assert!(start(&mut held, false, Fault::NotifierAtRecovery).result.is_ok());
}

#[test]
fn composition_is_checked_before_the_start() {
    let build = |lease: f64, freshness: f64| {
        SchedulerDaemonBuilder::new(
            store(lease),
            timing(),
            observer(freshness),
            NotifierBinding::DisabledForTests,
        )
    };
    assert_eq!(
        build(10.0, 10.0).unwrap_err().message("", ""),
        "daemon configuration: observer freshness_limit must be < store lease_seconds"
    );
    assert_eq!(
        build(12.0, 4.0).unwrap_err().message("", ""),
        "daemon configuration: timing.lease_seconds must match the store lease_seconds"
    );
    assert!(build(10.0, 9.5).is_ok());
    let unit = |freshness: f64| {
        let timing = RuntimeTimingConfig::new(seconds(0.1), seconds(0.2), seconds(1.0)).unwrap();
        let observer =
            PhysicalObserverConfig::new(seconds(0.5), seconds(freshness), 8, seconds(1e6)).unwrap();
        SchedulerDaemonBuilder::new(store(1.0), timing, observer, binding(false))
    };
    assert_eq!(
        unit(1.0 - f64::EPSILON / 2.0).unwrap_err().message("", ""),
        "daemon configuration: observer freshness_limit must be < store lease_seconds"
    );
    assert!(unit(1.0 - f64::EPSILON).is_ok());
}

#[test]
fn a_failed_worker_fails_the_daemon_for_good() {
    for worker in 0..4 {
        let mut held = HeldIdentities::new();
        let mut daemon = start(&mut held, true, Fault::Nowhere).result.unwrap();
        assert_eq!(daemon.workers().len(), 4);
        assert!(!daemon.poll_health(healthy()));
        assert_eq!(daemon.phase(), DaemonPhase::Ready);
        let sick = WorkerHealth {
            control_failed: worker == 0,
            observer_failed: worker == 1,
            supervision_failed: worker == 2,
            notifier_failed: worker == 3,
        };
        assert!(daemon.poll_health(sick));
        assert_eq!(daemon.phase(), DaemonPhase::Failed);
        assert!(!daemon.gate().is_open());
        daemon.request_shutdown();
        assert_eq!(daemon.phase(), DaemonPhase::Failed);
        assert_eq!(
            daemon.join(healthy(), healthy()),
            DaemonExit::Failed("runtime worker failed".to_string())
        );
    }
}

#[test]
fn a_worker_that_fails_while_stopping_fails_the_exit() {
    let mut held = HeldIdentities::new();
    let mut daemon = start(&mut held, false, Fault::Nowhere).result.unwrap();
    daemon.request_shutdown();
    assert_eq!(daemon.phase(), DaemonPhase::Stopping);
    let sick = WorkerHealth { supervision_failed: true, ..healthy() };
    assert_eq!(
        daemon.join(healthy(), sick),
        DaemonExit::Failed("runtime worker failed".to_string())
    );
    assert_eq!(daemon.phase(), DaemonPhase::Failed);
}

#[test]
fn lock_errors_are_told_apart() {
    assert_eq!(
        DaemonError::from(ProcessLockError::AlreadyRunning).message("", ""),
        "another scheduler daemon already owns this store"
    );
    assert_eq!(
        DaemonError::from(ProcessLockError::Io("full".to_string())).message("", ""),
        "process lock: process lock i/o: full"
    );
    assert_eq!(
        DaemonError::Control(ControlError::Fatal(SupervisionError::LeaseAuthorityMismatch {
            configured: seconds(10.0),
            kernel: seconds(12.0),
        }))
        .message("10", "12"),
        "daemon control: control-loop fatal: configured lease_seconds (10) does not match the \
         Kernel lease authority (12)"
    );
}

#[test]
fn closeness_is_that_of_the_rounded_difference() {
    let pairs: [(f64, f64); 12] = [
        (1.0, 1.0 - f64::EPSILON / 2.0),
        (1.0, 1.0 - f64::EPSILON),
        (2.0, 2.0 - f64::EPSILON),
        (0.5, 0.5 - f64::EPSILON / 4.0),
        (0.75, 0.75 - 0.75 * f64::EPSILON),
        (f64::EPSILON, f64::MIN_POSITIVE),
        (f64::EPSILON, f64::EPSILON / 2.0),
        (f64::EPSILON, 5e-324),
        (f64::EPSILON, f64::EPSILON * f64::EPSILON),
        (f64::EPSILON, f64::EPSILON * f64::EPSILON / 4.0),
        (f64::EPSILON, f64::EPSILON * f64::EPSILON / 2.0),
        (1e300, 1e299),
    ];
    for (greater, less) in pairs {
        let expected = (less - greater).abs() < f64::EPSILON;
        assert_eq!(seconds(less).is_just_below(&seconds(greater)), expected, "{less} {greater}");
        assert!(!seconds(greater).is_just_below(&seconds(less)));
        assert!(!seconds(greater).is_just_below(&seconds(greater)));
    }
}

use agentype_runtime::dispatch::SupervisionAdmissionSeed;
use agentype_runtime::domain::{AttemptId, Error, ExecutionId, ExecutionState, RequestId};
use agentype_runtime::heartbeat::{
    AdmissionSink, HeartbeatStep, RenewalStep, SupervisionRunner, SupervisionService,
};
use agentype_runtime::supervision::{
    AdmissionMint, RenewalOutcome, SupervisedRenewal, SupervisionAdmission, SupervisionError,
    SupervisionRegistry,
};
use agentype_runtime::time::{Duration, Seconds, UnixTime};
use agentype_runtime::timing::RuntimeTimingConfig;

const LEASE_SECONDS: u64 = 10;

fn seconds(value: f64) -> Seconds {
    Seconds { bits: value.to_bits() }
}

fn timing() -> RuntimeTimingConfig {
    RuntimeTimingConfig::new(seconds(1.0), seconds(2.0), seconds(10.0)).unwrap()
}

fn later(time: UnixTime, span: Duration) -> UnixTime {
    UnixTime { nanos: time.nanos + span.nanos }
}

/// One leased execution of a store.
#[derive(Debug, Clone, Copy, PartialEq, Eq)]
struct Row {
    state: ExecutionState,
    authority: bool,
    corrupt: bool,
    expires_at: UnixTime,
    heartbeat_at: UnixTime,
}

/// A store of leased executions, which executions are named by their position in.
struct Store {
    now: UnixTime,
    lease: Duration,
    rows: Vec<Row>,
}

fn store() -> Store {
    Store {
        now: UnixTime::from_secs(1_000),
        lease: Duration::from_secs(LEASE_SECONDS),
        rows: Vec::new(),
    }
}

impl Store {
    fn advance(&mut self, span: Duration) {
        self.now = later(self.now, span);
    }

    /// A confirmed RUNNING execution with a fresh lease.
    fn running_execution(&mut self) -> ExecutionId {
        self.rows.push(Row {
            state: ExecutionState::Running,
            authority: true,
            corrupt: false,
            expires_at: later(self.now, self.lease),
            heartbeat_at: self.now,
        });
        ExecutionId::new(&format!("execution-{}", self.rows.len() - 1))
    }

    fn row(&mut self, id: &ExecutionId) -> &mut Row {
        let position: usize = id.text["execution-".len()..].parse().unwrap();
        &mut self.rows[position]
    }

    fn expire_leases(&mut self) {
        let now = self.now;
        for row in &mut self.rows {
            if now.nanos > row.expires_at.nanos {
                row.authority = false;
            }
        }
    }

    fn renew(&mut self, admission: &SupervisionAdmission) -> Result<SupervisedRenewal, Error> {
        let now = self.now;
        let expires_at = later(now, self.lease);
        let row = self.row(&admission.execution_id);
        if row.corrupt {
            return Err(Error::StorageFailure("lease epoch is not an integer".to_string()));
        }
        if !row.authority {
            return Err(Error::StaleAuthority("lease is not active".to_string()));
        }
        if row.state != ExecutionState::Running {
            return Ok(SupervisedRenewal::NotRunning);
        }
        row.expires_at = expires_at;
        row.heartbeat_at = now;
        Ok(SupervisedRenewal::Renewed(expires_at))
    }
}

fn seed(id: &ExecutionId, request: &str, attempt: &str, epoch: u64) -> SupervisionAdmissionSeed {
    SupervisionAdmissionSeed {
        execution_id: id.clone(),
        request_id: RequestId::new(request),
        attempt_id: AttemptId::new(attempt),
        lease_epoch: epoch,
    }
}

fn mint(source: &mut AdmissionMint, id: &ExecutionId) -> SupervisionAdmission {
    assert!(source.has_room());
    source.mint(seed(id, &format!("request of {}", id.text), &format!("attempt of {}", id.text), 1))
}

fn service() -> SupervisionService {
    SupervisionService::new(&timing(), seconds(10.0)).unwrap()
}

fn renew_one(
    service: &mut SupervisionService,
    store: &mut Store,
    id: &ExecutionId,
) -> Result<RenewalOutcome, SupervisionError> {
    match service.renew_one(id, store.now)? {
        RenewalStep::Call(admission) => {
            let reply = store.renew(&admission);
            service.renew_admission(admission, reply, store.now)
        }
        RenewalStep::Settled(outcome) => Ok(outcome),
        RenewalStep::Gone => panic!("a present entry is not gone"),
    }
}

fn renew_due(
    service: &mut SupervisionService,
    store: &mut Store,
) -> Result<Vec<RenewalOutcome>, SupervisionError> {
    let mut batch = service.renew_due(store.now);
    while let Some(admission) = service.next_due(&mut batch, store.now) {
        let reply = store.renew(&admission);
        service.settle(&mut batch, admission, reply, store.now)?;
    }
    Ok(batch.outcomes)
}

#[test]
fn registry_starts_empty_and_accepts_one_admission() {
    let mut source = AdmissionMint::new();
    let mut store = store();
    let mut registry = SupervisionRegistry::new();
    assert!(registry.is_empty());
    let exec = store.running_execution();
    registry.admit_execution(mint(&mut source, &exec), store.now).unwrap();
    assert!(registry.contains(&exec));
    assert_eq!(registry.active_count(), 1);
}

#[test]
fn identical_duplicate_admission_is_idempotent() {
    let mut source = AdmissionMint::new();
    let mut store = store();
    let mut registry = SupervisionRegistry::new();
    let exec = store.running_execution();
    let admission = mint(&mut source, &exec);
    registry.admit_execution(admission.clone(), store.now).unwrap();
    registry.admit_execution(admission, store.now).unwrap();
    assert_eq!(registry.active_count(), 1);
}

#[test]
fn identity_conflicts_are_invariant_violations() {
    let mut source = AdmissionMint::new();
    let mut store = store();
    let mut registry = SupervisionRegistry::new();
    let exec = store.running_execution();
    registry.admit_execution(source.mint(seed(&exec, "r", "a", 1)), store.now).unwrap();
    for grant in [
        seed(&exec, "r", "another attempt", 1),
        seed(&exec, "r", "a", 2),
        seed(&exec, "another request", "a", 1),
    ] {
        assert!(matches!(
            registry.admit_execution(source.mint(grant), store.now),
            Err(SupervisionError::AdmissionIdentityConflict)
        ));
    }
    assert_eq!(registry.active_count(), 1);
}

#[test]
fn new_service_is_empty_despite_persisted_running_row() {
    let mut store = store();
    let exec = store.running_execution();
    assert_eq!(store.row(&exec).state, ExecutionState::Running);
    let service = service();
    assert_eq!(service.active_count(), 0);
    assert!(!service.contains(&exec));
}

#[test]
fn registry_removal_touches_no_durable_state() {
    let mut source = AdmissionMint::new();
    let mut store = store();
    let exec = store.running_execution();
    let mut service = service();
    let admission = mint(&mut source, &exec);
    service.admit_execution(admission.clone(), store.now).unwrap();
    let before = *store.row(&exec);
    service.remove(&exec).unwrap();
    assert_eq!(*store.row(&exec), before);
    assert!(!service.contains(&exec));
    assert!(matches!(service.remove(&exec), Err(SupervisionError::NoSuchEntry)));
    assert!(matches!(
        service.admit_execution(admission, store.now),
        Err(SupervisionError::AdmissionConsumed)
    ));
}

#[test]
fn admitted_running_execution_renews() {
    let mut source = AdmissionMint::new();
    let mut store = store();
    let exec = store.running_execution();
    let mut service = service();
    service.admit_execution(mint(&mut source, &exec), store.now).unwrap();

    store.advance(Duration::from_secs(1));
    let expires_at = later(store.now, Duration::from_secs(LEASE_SECONDS));
    assert_eq!(
        renew_one(&mut service, &mut store, &exec).unwrap(),
        RenewalOutcome::Renewed {
            execution_id: exec.clone(),
            new_expires_at: expires_at,
        }
    );
    let now = store.now;
    assert_eq!(store.row(&exec).expires_at, expires_at);
    assert_eq!(store.row(&exec).heartbeat_at, now);
    assert!(service.contains(&exec));
}

#[test]
fn authority_loss_removes_admission_and_consumes_the_token() {
    let mut source = AdmissionMint::new();
    let mut store = store();
    let exec = store.running_execution();
    let mut service = service();
    let admission = mint(&mut source, &exec);
    service.admit_execution(admission.clone(), store.now).unwrap();

    store.row(&exec).authority = false;
    assert_eq!(
        renew_one(&mut service, &mut store, &exec).unwrap(),
        RenewalOutcome::AuthorityLost { execution_id: exec.clone() }
    );
    assert!(!service.contains(&exec));
    assert!(matches!(
        service.admit_execution(admission, store.now),
        Err(SupervisionError::AdmissionConsumed)
    ));
}

#[test]
fn non_running_execution_drops_admission() {
    let mut source = AdmissionMint::new();
    let mut store = store();
    let exec = store.running_execution();
    let mut service = service();
    service.admit_execution(mint(&mut source, &exec), store.now).unwrap();

    store.row(&exec).state = ExecutionState::Lost;
    assert_eq!(
        renew_one(&mut service, &mut store, &exec).unwrap(),
        RenewalOutcome::NoLongerRunning { execution_id: exec.clone() }
    );
    assert!(!service.contains(&exec));
    assert!(store.row(&exec).authority);
}

#[test]
fn stale_attempt_admission_loses_renewal() {
    let mut source = AdmissionMint::new();
    let mut store = store();
    let exec = store.running_execution();
    let mut service = service();
    service.admit_execution(mint(&mut source, &exec), store.now).unwrap();

    store.advance(Duration::from_secs(11));
    store.expire_leases();
    assert_eq!(
        renew_one(&mut service, &mut store, &exec).unwrap(),
        RenewalOutcome::AuthorityLost { execution_id: exec.clone() }
    );
    assert!(!service.contains(&exec));
}

#[test]
fn persistence_fault_is_fatal_not_authority_loss() {
    let mut source = AdmissionMint::new();
    let mut store = store();
    let exec = store.running_execution();
    let mut service = service();
    service.admit_execution(mint(&mut source, &exec), store.now).unwrap();

    store.row(&exec).corrupt = true;
    match renew_one(&mut service, &mut store, &exec).unwrap_err() {
        SupervisionError::Fatal(inner) => assert!(!matches!(
            inner,
            Error::StaleAuthority(_) | Error::InvalidAuthority(_) | Error::NotFound(_)
        )),
        other => panic!("expected a fatal persistence fault, got {other:?}"),
    }
    assert!(service.contains(&exec));
}

#[test]
fn every_kind_of_lost_authority_gives_the_execution_up() {
    for error in [
        Error::StaleAuthority("s".to_string()),
        Error::InvalidAuthority("i".to_string()),
        Error::NotFound("n".to_string()),
    ] {
        let mut source = AdmissionMint::new();
        let mut store = store();
        let exec = store.running_execution();
        let mut service = service();
        let admission = mint(&mut source, &exec);
        service.admit_execution(admission.clone(), store.now).unwrap();
        assert_eq!(
            service.renew_admission(admission, Err(error), store.now).unwrap(),
            RenewalOutcome::AuthorityLost { execution_id: exec.clone() }
        );
        assert_eq!(service.active_count(), 0);
    }
}

#[test]
fn renew_due_only_touches_admitted_entries() {
    let mut source = AdmissionMint::new();
    let mut store = store();
    let exec_a = store.running_execution();
    let exec_b = store.running_execution();
    let mut service = service();
    service.admit_execution(mint(&mut source, &exec_a), store.now).unwrap();

    store.advance(Duration::from_secs(3));
    let outcomes = renew_due(&mut service, &mut store).unwrap();
    assert_eq!(outcomes.len(), 1, "only the admitted entry renews");
    assert!(matches!(
        renew_one(&mut service, &mut store, &exec_b),
        Err(SupervisionError::NoSuchEntry)
    ));
}

#[test]
fn renewal_is_due_once_per_heartbeat() {
    let mut source = AdmissionMint::new();
    let mut store = store();
    let exec = store.running_execution();
    let mut service = service();
    service.admit_execution(mint(&mut source, &exec), store.now).unwrap();
    store.advance(Duration::from_millis(1_999));
    assert!(renew_due(&mut service, &mut store).unwrap().is_empty());
    store.advance(Duration::from_millis(1));
    assert_eq!(renew_due(&mut service, &mut store).unwrap().len(), 1);
    assert!(renew_due(&mut service, &mut store).unwrap().is_empty());
}

#[test]
fn crash_window_without_admission_never_renews() {
    let mut store = store();
    let exec = store.running_execution();
    let initial_expires = store.row(&exec).expires_at;
    let mut service = service();

    store.advance(Duration::from_secs(3));
    assert!(renew_due(&mut service, &mut store).unwrap().is_empty());
    assert_eq!(
        store.row(&exec).expires_at,
        initial_expires,
        "no renewal may happen without an admitted entry"
    );
    store.advance(Duration::from_secs(8));
    store.expire_leases();
    assert!(!store.row(&exec).authority);
}

#[test]
fn a_late_reply_cannot_touch_a_newer_admission() {
    let mut source = AdmissionMint::new();
    let mut store = store();
    let exec = store.running_execution();
    let mut service = service();
    let first = mint(&mut source, &exec);
    service.admit_execution(first.clone(), store.now).unwrap();
    service.remove(&exec).unwrap();
    let second = mint(&mut source, &exec);
    service.admit_execution(second.clone(), store.now).unwrap();
    store.advance(Duration::from_secs(3));

    let stale = Err(Error::StaleAuthority("s".to_string()));
    service.renew_admission(first.clone(), stale, store.now).unwrap();
    assert!(service.contains(&exec));
    assert!(service.registry.generation_current(&second));
    assert!(!service.registry.generation_current(&first));
    assert_eq!(service.begin_renewal(first, store.now), RenewalStep::Gone);
}

#[test]
fn a_lease_that_is_not_the_stores_fails_composition() {
    let error = SupervisionService::new(&timing(), seconds(12.0)).err().unwrap();
    assert_eq!(
        error,
        SupervisionError::LeaseAuthorityMismatch {
            configured: seconds(10.0),
            kernel: seconds(12.0),
        }
    );
    assert_eq!(
        error.message("10", "12"),
        "configured lease_seconds (10) does not match the Kernel lease authority (12)"
    );
    let endless = RuntimeTimingConfig::new(seconds(1.0), seconds(1e300), seconds(1e301)).unwrap();
    assert!(matches!(
        SupervisionService::new(&endless, seconds(12.0)),
        Err(SupervisionError::LeaseAuthorityMismatch { .. })
    ));
}

#[test]
fn an_admission_keeps_the_freshness_limit() {
    let mut runner = SupervisionRunner::start(&timing(), seconds(10.0)).unwrap();
    runner.service.enable_freshness_gate(Duration::from_secs(4));
    let mut source = AdmissionMint::new();
    let admission = mint(&mut source, &ExecutionId::new("e"));
    runner.admit_execution(admission, UnixTime::from_secs(1)).unwrap();
    assert_eq!(runner.service.freshness_limit, Some(Duration::from_secs(4)));
}

#[test]
fn supervision_errors_read_as_documented() {
    assert_eq!(
        SupervisionError::AdmissionConsumed.message("", ""),
        "supervision admission token was already consumed"
    );
    assert_eq!(
        SupervisionError::AdmissionIdentityConflict.message("", ""),
        "supervision admission identity conflicts with the existing entry"
    );
    assert_eq!(
        SupervisionError::NoSuchEntry.message("", ""),
        "no supervision entry for this execution"
    );
    assert_eq!(
        SupervisionError::Fatal(Error::StorageFailure("disk".to_string())).message("", ""),
        "fatal supervision persistence fault: disk"
    );
}

#[test]
fn runner_renews_admitted_execution_until_shutdown() {
    let mut source = AdmissionMint::new();
    let mut store = store();
    store.lease = Duration::from_secs(1);
    let exec = store.running_execution();
    let timing = RuntimeTimingConfig::new(seconds(0.3), seconds(0.4), seconds(1.0)).unwrap();
    let mut runner = SupervisionRunner::start(&timing, seconds(1.0)).unwrap();
    runner.admit_execution(mint(&mut source, &exec), store.now).unwrap();
    assert!(runner.contains(&exec));

    let initial_expires = store.row(&exec).expires_at;
    for _ in 0..3 {
        assert_eq!(runner.next_step(), HeartbeatStep::Renew);
        let round = renew_due(&mut runner.service, &mut store).map(|_| ());
        match runner.renewed(round) {
            HeartbeatStep::Wait(interval) => {
                assert_eq!(interval, Duration::from_millis(400));
                store.advance(interval);
            }
            other => panic!("expected a wait, got {other:?}"),
        }
    }
    assert!(
        store.row(&exec).expires_at.nanos > initial_expires.nanos + Duration::from_millis(500).nanos
    );
    assert!(runner.take_fatal().is_none());

    let before = *store.row(&exec);
    runner.request_stop();
    assert_eq!(runner.next_step(), HeartbeatStep::Exit);
    runner.exited();
    runner.shutdown(false).unwrap();
    assert_eq!(*store.row(&exec), before);
    assert_eq!(runner.active_count(), 0);
    store.advance(Duration::from_secs(1));
    assert!(renew_due(&mut runner.service, &mut store).unwrap().is_empty());
    assert_eq!(
        runner.admit_execution(mint(&mut source, &exec), store.now),
        Err(SupervisionError::RunnerStopped("no admissions are taken".to_string()))
    );
}

#[test]
fn runner_surfaces_fatal_persistence_fault_and_stops() {
    let mut source = AdmissionMint::new();
    let mut store = store();
    let exec = store.running_execution();
    store.row(&exec).corrupt = true;
    let timing = RuntimeTimingConfig::new(seconds(0.2), seconds(0.3), seconds(1.0)).unwrap();
    let mut runner = SupervisionRunner::start(&timing, seconds(1.0)).unwrap();
    runner.admit_execution(mint(&mut source, &exec), store.now).unwrap();
    store.advance(Duration::from_millis(300));
    let round = renew_due(&mut runner.service, &mut store).map(|_| ());
    assert_eq!(runner.renewed(round), HeartbeatStep::Exit);
    runner.exited();
    assert!(runner.is_failed());
    match runner.take_fatal() {
        Some(SupervisionError::Fatal(inner)) => assert!(!matches!(
            inner,
            Error::StaleAuthority(_) | Error::InvalidAuthority(_) | Error::NotFound(_)
        )),
        other => panic!("expected a fatal fault from the heartbeat loop, got {other:?}"),
    }
    assert!(runner.shutdown(false).is_err());
}

#[test]
fn a_panicked_heartbeat_is_reported() {
    let mut runner = SupervisionRunner::start(&timing(), seconds(10.0)).unwrap();
    assert_eq!(
        runner.shutdown(true),
        Err(SupervisionError::Fatal(Error::InvariantViolation(
            "the supervision heartbeat thread panicked".to_string()
        )))
    );
    assert_eq!(
        SupervisionRunner::spawn_failed("no threads"),
        SupervisionError::Fatal(Error::InvariantViolation(
            "failed to spawn the supervision heartbeat thread: no threads".to_string()
        ))
    );
}

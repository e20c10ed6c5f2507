use agentype_runtime::adapters::AdapterRegistry;
use agentype_runtime::deadlines::{test_deadlines, AdapterBindingKey, ResolvedAdapterBinding};
use agentype_runtime::dispatch::SupervisionAdmissionSeed;
use agentype_runtime::domain::{
    AdapterError, AttemptId, Error, ExecutionId, ExecutionState, FailureClass, JsonValue,
    NackCommand, PhysicalRecord, RequestId,
};
use agentype_runtime::heartbeat::{AdmissionSink, RenewalStep, SupervisionService};
use agentype_runtime::observer::{
    classify_execution_observation, AuthorityConsequence, ExecutionObservation, InvocationFault,
    ObservationRound, ObserveApply, ObserveStep, ObserverConfigError, ObserverError,
    PhysicalObservationKind, PhysicalObserverConfig, PhysicalObserverService, RoutingFacts,
};
use agentype_runtime::supervision::{AdmissionMint, RenewalOutcome};
use agentype_runtime::time::{Duration, Seconds, UnixTime};
use agentype_runtime::timing::RuntimeTimingConfig;

const LEASE: f64 = 10.0;

fn seconds(value: f64) -> Seconds {
    Seconds { bits: value.to_bits() }
}

fn timing() -> RuntimeTimingConfig {
    RuntimeTimingConfig::new(seconds(1.0), seconds(2.0), seconds(LEASE)).unwrap()
}

fn observer_cfg() -> PhysicalObserverConfig {
    PhysicalObserverConfig::new(seconds(1.0), seconds(4.0), 8, seconds(LEASE)).unwrap()
}

#[derive(Debug)]
struct Row {
    state: ExecutionState,
    authority: bool,
    task_running: bool,
    terminal_confirmed: bool,
    quiescent_confirmed: bool,
    handle: JsonValue,
    artifacts: Option<JsonValue>,
    nacked: Option<FailureClass>,
}

struct Harness {
    now: UnixTime,
    rows: Vec<Row>,
    mint: AdmissionMint,
    service: SupervisionService,
    observer: PhysicalObserverService,
    adapters: AdapterRegistry<ResolvedAdapterBinding<()>>,
    next_observe: Vec<Result<ExecutionObservation, InvocationFault>>,
    next_artifacts: Option<Result<Option<JsonValue>, AdapterError>>,
    observed: usize,
}

fn harness() -> Harness {
    let mut service = SupervisionService::new(&timing(), seconds(LEASE)).unwrap();
    let observer = PhysicalObserverService::new(&mut service, observer_cfg());
    let mut adapters = AdapterRegistry::new();
    adapters
        .register_kind(
            "process".to_string(),
            AdapterBindingKey::new("tests"),
            (),
            test_deadlines(),
        )
        .unwrap();
    Harness {
        now: UnixTime::from_secs(1_000),
        rows: Vec::new(),
        mint: AdmissionMint::new(),
        service,
        observer,
        adapters,
        next_observe: Vec::new(),
        next_artifacts: None,
        observed: 0,
    }
}

fn id(row: usize) -> ExecutionId {
    ExecutionId::new(&format!("execution-{row}"))
}

fn position(text: &str) -> usize {
    text.rsplit('-').next().unwrap().parse().unwrap()
}

impl Harness {
    fn advance(&mut self, span: Duration) {
        self.now = UnixTime { nanos: self.now.nanos + span.nanos };
    }

    /// A confirmed RUNNING execution that is supervised.
    fn running(&mut self) -> usize {
        self.rows.push(Row {
            state: ExecutionState::Running,
            authority: true,
            task_running: true,
            terminal_confirmed: false,
            quiescent_confirmed: false,
            handle: JsonValue::new("{}"),
            artifacts: None,
            nacked: None,
        });
        let row = self.rows.len() - 1;
        let admission = self.mint.mint(SupervisionAdmissionSeed {
            execution_id: id(row),
            request_id: RequestId::new(&format!("request-{row}")),
            attempt_id: AttemptId::new(&format!("attempt-{row}")),
            lease_epoch: 1,
        });
        self.service.admit_execution(admission, self.now).unwrap();
        row
    }

    fn nack(&mut self, row: usize, class: FailureClass) -> Result<(), Error> {
        let row = &mut self.rows[row];
        if !row.authority {
            return Err(Error::StaleAuthority("lease is not current".to_string()));
        }
        row.authority = false;
        row.task_running = false;
        row.nacked = Some(class);
        Ok(())
    }

    fn lost_nack(&mut self, command: &NackCommand) -> Result<(), Error> {
        assert!(!command.terminal_confirmed && !command.quiescent_confirmed);
        self.nack(position(&command.execution_id.text), command.failure_class)
    }

    fn record(&mut self, record: &PhysicalRecord) {
        let row = &mut self.rows[position(&record.execution_id.text)];
        row.state = record.state;
        row.terminal_confirmed = record.terminal_confirmed;
        row.quiescent_confirmed = record.quiescent_confirmed;
        row.handle = record.handle.clone().unwrap();
    }

    fn run(&mut self, mut round: ObservationRound) -> Result<Vec<ObserveApply>, ObserverError> {
        while let Some(first) = round.next_ticket() {
            let result = self.run_one(first);
            round.settle(result)?;
        }
        Ok(round.applied)
    }

    fn run_one(&mut self, first: ObserveStep) -> Result<ObserveApply, ObserverError> {
        let mut step = first;
        loop {
            step = match step {
                ObserveStep::Route(call) => {
                    let row = position(&call.ticket.execution_id().text);
                    let facts = RoutingFacts {
                        adapter_kind: "process".to_string(),
                        adapter_binding_key: Ok(AdapterBindingKey::new("tests")),
                        runtime_handle: self.rows[row].handle.clone(),
                    };
                    call.resume(Ok(facts), &self.adapters)
                }
                ObserveStep::Observe(call) => {
                    self.observed += 1;
                    let reply = self.next_observe.remove(0);
                    call.resume(reply, &mut self.service.registry, self.now)
                }
                ObserveStep::CollectArtifacts(call) => {
                    let reply = self.next_artifacts.take().unwrap();
                    call.resume(reply, &mut self.service.registry, self.now)
                }
                ObserveStep::RecordHint(call) => {
                    let row = position(&call.ticket.execution_id().text);
                    self.rows[row].handle = call.hint.clone();
                    call.resume(Ok(()))
                }
                ObserveStep::NackPreserving(call) => {
                    let row = position(&call.ticket.execution_id().text);
                    let reply = self.nack(row, call.failure_class());
                    call.resume(reply, &mut self.service.registry)
                }
                ObserveStep::RecordLost(call) => {
                    self.record(&call.record);
                    call.resume(Ok(()))
                }
                ObserveStep::NackLost(call) => {
                    let reply = self.lost_nack(&call.command());
                    call.resume(reply, &mut self.service.registry)
                }
                ObserveStep::PersistEnd(call) => {
                    let row = position(&call.ticket.execution_id().text);
                    self.rows[row].state = ExecutionState::Terminated;
                    self.rows[row].artifacts = call.artifacts.clone();
                    let reply = match self.nack(row, FailureClass::ExecutionLost) {
                        Ok(()) => AuthorityConsequence::Applied,
                        Err(_) => AuthorityConsequence::AuthorityAlreadyStale,
                    };
                    call.resume(Ok(reply), &mut self.service.registry)
                }
                ObserveStep::Finished(result) => return result,
            }
        }
    }

    fn activation_sweep(&mut self) -> Result<Vec<ObserveApply>, ObserverError> {
        let round = self.observer.activation_sweep(&self.service);
        self.run(round)
    }

    fn observe_due(&mut self) -> Result<Vec<ObserveApply>, ObserverError> {
        let round = self.observer.observe_due(&self.service, self.now);
        self.run(round)
    }
}

fn observation(state: ExecutionState) -> ExecutionObservation {
    ExecutionObservation {
        state,
        terminal_confirmed: false,
        quiescent_confirmed: false,
        detail: None,
    }
}

fn timeout(detail: &str) -> InvocationFault {
    InvocationFault {
        error: AdapterError::DeadlineExceeded(detail.to_string()),
        runtime_handle_hint: None,
    }
}

#[test]
fn observer_config_rejects_bad_relation() {
    let config = |poll: f64, freshness: f64, limit: usize, lease: f64| {
        PhysicalObserverConfig::new(seconds(poll), seconds(freshness), limit, seconds(lease))
    };
    assert!(config(4.0, 1.0, 1, 10.0).is_err());
    assert!(config(1.0, 10.0, 1, 10.0).is_err());
    assert!(config(1.0, 4.0, 0, 10.0).is_err());
}

#[test]
fn observer_config_defects_are_named() {
    let defect = |poll: f64, freshness: f64, limit: usize, lease: f64| {
        PhysicalObserverConfig::new(seconds(poll), seconds(freshness), limit, seconds(lease))
            .unwrap_err()
    };
    assert_eq!(
        defect(0.0, 4.0, 0, 10.0),
        ObserverConfigError::NonPositive { field: "poll_interval" }
    );
    assert_eq!(
        defect(1.0, f64::NAN, 0, 10.0),
        ObserverConfigError::NonPositive { field: "freshness_limit" }
    );
    assert_eq!(
        defect(1.0, 4.0, 0, f64::INFINITY).message(),
        "observer lease_seconds must be finite and positive"
    );
    assert_eq!(
        defect(1.0, 4.0, 0, 10.0),
        ObserverConfigError::NonPositive { field: "batch_limit" }
    );
    assert_eq!(
        defect(4.0, 4.0, 1, 10.0).message(),
        "observer config must satisfy 0 < poll_interval < freshness_limit < lease_seconds"
    );
    let config = observer_cfg();
    assert_eq!(config.poll_interval(), seconds(1.0));
    assert_eq!(config.freshness_limit(), seconds(4.0));
    assert_eq!(config.batch_limit(), 8);
}

#[test]
fn observations_are_classified() {
    let kind = |state: ExecutionState, terminal: bool, quiescent: bool| {
        classify_execution_observation(&ExecutionObservation {
            terminal_confirmed: terminal,
            quiescent_confirmed: quiescent,
            ..observation(state)
        })
    };
    assert_kind(kind(ExecutionState::Running, false, false), PhysicalObservationKind::ExactRunning);
    assert_kind(kind(ExecutionState::Running, true, false), PhysicalObservationKind::ProtocolInvalid);
    assert_kind(kind(ExecutionState::Running, false, true), PhysicalObservationKind::ProtocolInvalid);
    assert_kind(
        kind(ExecutionState::Terminated, false, true),
        PhysicalObservationKind::PhysicalEnded,
    );
    assert_kind(
        kind(ExecutionState::Terminated, true, false),
        PhysicalObservationKind::IdentityLost,
    );
    for state in [ExecutionState::Succeeded, ExecutionState::Failed, ExecutionState::Starting] {
        assert_kind(kind(state, true, true), PhysicalObservationKind::ProtocolInvalid);
    }
    for state in [ExecutionState::Unknown, ExecutionState::Lost] {
        assert_kind(kind(state, false, false), PhysicalObservationKind::IdentityLost);
    }
}

fn assert_kind(found: PhysicalObservationKind, expected: PhysicalObservationKind) {
    assert_eq!(found, expected);
}

#[test]
fn admission_seeds_freshness_and_positive_running_refreshes() {
    let mut h = harness();
    let row = h.running();
    let seeded = h.service.last_positive_observed_at(&id(row)).unwrap();
    h.next_observe.push(Ok(observation(ExecutionState::Running)));
    h.advance(Duration::from_secs(1));
    assert_eq!(h.activation_sweep().unwrap(), vec![ObserveApply::Refreshed]);
    let after = h.service.last_positive_observed_at(&id(row)).unwrap();
    assert!(after.nanos > seeded.nanos);
    assert_eq!(h.service.renewal_eligible(&id(row)), Some(true));
}

#[test]
fn observe_timeout_does_not_refresh_or_invent_death() {
    let mut h = harness();
    let row = h.running();
    let seeded = h.service.last_positive_observed_at(&id(row)).unwrap();
    h.next_observe.push(Err(timeout("observe blocked")));
    h.advance(Duration::from_secs(1));
    assert_eq!(h.observe_due().unwrap(), vec![ObserveApply::InvocationIgnored]);
    assert_eq!(h.service.last_positive_observed_at(&id(row)), Some(seeded));
    assert_eq!(h.rows[row].state, ExecutionState::Running);
    assert!(h.rows[row].task_running);
}

#[test]
fn stale_freshness_skips_renewal_without_claiming_death() {
    let mut h = harness();
    let row = h.running();
    h.advance(Duration::from_secs(5));
    assert_eq!(
        h.service.renew_one(&id(row), h.now).unwrap(),
        RenewalStep::Settled(RenewalOutcome::FreshnessStale { execution_id: id(row) })
    );
    assert_eq!(h.rows[row].state, ExecutionState::Running);
    assert!(h.service.contains(&id(row)));
    assert!(h.rows[row].task_running);
}

#[test]
fn freshness_holds_up_to_its_limit() {
    let mut h = harness();
    let row = h.running();
    h.advance(Duration::from_secs(4));
    assert!(matches!(h.service.renew_one(&id(row), h.now).unwrap(), RenewalStep::Call(_)));
    h.advance(Duration { nanos: 1 });
    assert!(matches!(h.service.renew_one(&id(row), h.now).unwrap(), RenewalStep::Settled(_)));
}

#[test]
fn physical_end_persists_terminated_without_result() {
    let mut h = harness();
    let row = h.running();
    h.next_observe.push(Ok(observation(ExecutionState::Terminated)));
    h.next_artifacts = Some(Ok(Some(JsonValue::new("{\"stdout\":\"out.txt\"}"))));
    assert_eq!(h.activation_sweep().unwrap(), vec![ObserveApply::PhysicalEnded]);
    assert_eq!(h.rows[row].state, ExecutionState::Terminated);
    assert!(!h.rows[row].terminal_confirmed);
    assert!(!h.rows[row].quiescent_confirmed);
    assert_eq!(h.rows[row].artifacts, Some(JsonValue::new("{\"stdout\":\"out.txt\"}")));
    assert!(!h.service.contains(&id(row)));
}

#[test]
fn an_end_stands_without_its_artifacts() {
    let mut h = harness();
    let row = h.running();
    h.next_observe.push(Ok(observation(ExecutionState::Terminated)));
    h.next_artifacts = Some(Err(AdapterError::Other("gone".to_string())));
    h.rows[row].authority = false;
    assert_eq!(h.activation_sweep().unwrap(), vec![ObserveApply::AuthorityAlreadyStale]);
    assert_eq!(h.rows[row].state, ExecutionState::Terminated);
    assert_eq!(h.rows[row].artifacts, None);
    assert!(!h.service.contains(&id(row)));
}

#[test]
fn identity_lost_persists_lost_zero_proof() {
    let mut h = harness();
    let row = h.running();
    h.next_observe.push(Ok(observation(ExecutionState::Unknown)));
    assert_eq!(h.activation_sweep().unwrap(), vec![ObserveApply::IdentityLost]);
    assert_eq!(h.rows[row].state, ExecutionState::Lost);
    assert!(!h.rows[row].terminal_confirmed);
    assert!(!h.rows[row].quiescent_confirmed);
    assert_eq!(h.rows[row].nacked, Some(FailureClass::ExecutionLost));
    assert!(!h.service.contains(&id(row)));
}

#[test]
fn activation_invocation_error_closes_authority_without_inventing_state() {
    let mut h = harness();
    let row = h.running();
    h.next_observe.push(Err(timeout("activation observe")));
    assert_eq!(h.activation_sweep().unwrap(), vec![ObserveApply::ProtocolInvalidated]);
    assert_eq!(h.rows[row].state, ExecutionState::Running);
    assert!(!h.rows[row].task_running);
    assert_eq!(h.rows[row].nacked, Some(FailureClass::Unknown));
    assert!(!h.service.contains(&id(row)));
}

#[test]
fn a_handle_that_comes_with_an_error_is_kept() {
    let mut h = harness();
    let row = h.running();
    h.next_observe.push(Err(InvocationFault {
        runtime_handle_hint: Some(JsonValue::new("{\"pid\":9}")),
        ..timeout("late")
    }));
    h.advance(Duration::from_secs(1));
    assert_eq!(h.observe_due().unwrap(), vec![ObserveApply::InvocationIgnored]);
    assert_eq!(h.rows[row].handle, JsonValue::new("{\"pid\":9}"));
    assert!(h.service.contains(&id(row)));
}

#[test]
fn an_invalid_observation_stops_renewal_only() {
    let mut h = harness();
    let row = h.running();
    h.next_observe.push(Ok(observation(ExecutionState::Succeeded)));
    h.advance(Duration::from_secs(1));
    assert_eq!(h.observe_due().unwrap(), vec![ObserveApply::ProtocolInvalidated]);
    assert_eq!(h.service.renewal_eligible(&id(row)), Some(false));
    assert!(h.service.contains(&id(row)));
    assert_eq!(h.rows[row].nacked, None);
    h.next_observe.push(Ok(observation(ExecutionState::Running)));
    assert_eq!(h.observe_due().unwrap(), vec![ObserveApply::Refreshed]);
    assert_eq!(h.service.renewal_eligible(&id(row)), Some(true));
}

#[test]
fn only_what_is_due_is_observed_and_no_more_than_a_batch() {
    let mut h = harness();
    for _ in 0..10 {
        h.running();
    }
    h.advance(Duration::from_millis(999));
    assert!(h.observe_due().unwrap().is_empty());
    h.advance(Duration::from_millis(1));
    for _ in 0..18 {
        h.next_observe.push(Ok(observation(ExecutionState::Running)));
    }
    assert_eq!(h.observe_due().unwrap().len(), 8);
    assert_eq!(h.observe_due().unwrap().len(), 2);
    assert!(h.observe_due().unwrap().is_empty());
    assert_eq!(h.observed, 10);
}

#[test]
fn an_observation_of_an_older_admission_is_dropped() {
    let mut h = harness();
    let row = h.running();
    let round = h.observer.activation_sweep(&h.service);
    h.service.remove(&id(row)).unwrap();
    h.next_observe.push(Ok(observation(ExecutionState::Unknown)));
    assert_eq!(h.run(round).unwrap(), vec![ObserveApply::Dropped]);
    assert_eq!(h.rows[row].state, ExecutionState::Running);
    assert_eq!(h.rows[row].nacked, None);
}

#[test]
fn a_missing_adapter_is_a_fault() {
    let mut h = harness();
    h.running();
    h.adapters = AdapterRegistry::new();
    let error = h.activation_sweep().unwrap_err();
    assert_eq!(
        error.message(),
        "supervised execution missing installed adapter 'process'"
    );
    assert_eq!(
        ObserverError::Fatal(Error::StorageFailure("disk".to_string())).message(),
        "physical observer fatal: disk"
    );
}

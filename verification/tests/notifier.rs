use agentype_runtime::domain::{Error, JsonValue};
use agentype_runtime::notifier::{
    classify_commit, notifier_panicked, notifier_stopped, DeliveryOutcome, DeliveryStep,
    NotifierConfig, NotifierError, NotifierLoopStep, NotifierRetryPolicy, NotifierRunner,
    NotifierService, OutboxDeliveryCandidate, OutboxEventId, OutboxState,
};
use agentype_runtime::runner::{RunnerPhase, RunnerState};
use agentype_runtime::time::{Duration, Seconds, UnixTime};
use std::collections::VecDeque;

fn seconds(value: f64) -> Seconds {
    Seconds { bits: value.to_bits() }
}

fn later(time: UnixTime, span: Duration) -> UnixTime {
    UnixTime { nanos: time.nanos + span.nanos }
}

struct Event {
    candidate: OutboxDeliveryCandidate,
    state: OutboxState,
    next_delivery_at: UnixTime,
    last_error: Option<String>,
}

struct Outbox {
    now: UnixTime,
    events: Vec<Event>,
}

fn outbox() -> Outbox {
    Outbox { now: UnixTime::from_secs(1_000), events: Vec::new() }
}

impl Outbox {
    fn advance(&mut self, span: Duration) {
        self.now = later(self.now, span);
    }

    fn results_ready(&mut self, payload: &str) -> usize {
        let number = self.events.len();
        self.events.push(Event {
            candidate: OutboxDeliveryCandidate {
                event_id: OutboxEventId { text: format!("event-{number}") },
                event_type: "BATCH_RESULTS_READY".to_string(),
                aggregate_type: "batch".to_string(),
                aggregate_id: format!("batch-{number}"),
                payload: JsonValue::new(payload),
                delivery_attempts: 0,
            },
            state: OutboxState::Pending,
            next_delivery_at: self.now,
            last_error: None,
        });
        number
    }

    fn due(&self, limit: usize) -> Result<Vec<OutboxDeliveryCandidate>, Error> {
        Ok(self
            .events
            .iter()
            .filter(|event| {
                event.state == OutboxState::Pending && event.next_delivery_at.nanos <= self.now.nanos
            })
            .take(limit)
            .map(|event| event.candidate.clone())
            .collect())
    }

    fn event(&mut self, id: &OutboxEventId) -> &mut Event {
        self.events.iter_mut().find(|event| &event.candidate.event_id == id).unwrap()
    }

    fn mark_delivered(&mut self, id: &OutboxEventId) -> Result<OutboxState, Error> {
        let event = self.event(id);
        if event.state == OutboxState::Pending {
            event.state = OutboxState::Delivered;
        }
        Ok(event.state)
    }

    fn mark_failed(
        &mut self,
        id: &OutboxEventId,
        delay: Seconds,
        diagnostic: &str,
    ) -> Result<OutboxState, Error> {
        let at = later(self.now, delay.to_duration().unwrap());
        let event = self.event(id);
        if event.state == OutboxState::Pending {
            event.candidate.delivery_attempts += 1;
            event.next_delivery_at = at;
            event.last_error = Some(diagnostic.to_string());
        }
        Ok(event.state)
    }
}

#[derive(Default)]
struct Bridge {
    script: VecDeque<Result<(), String>>,
    advance_on_deliver: Option<Duration>,
    deliveries: Vec<OutboxDeliveryCandidate>,
}

impl Bridge {
    fn deliver(
        &mut self,
        outbox: &mut Outbox,
        candidate: &OutboxDeliveryCandidate,
    ) -> Result<(), String> {
        if let Some(span) = self.advance_on_deliver {
            outbox.advance(span);
        }
        self.deliveries.push(candidate.clone());
        self.script.pop_front().unwrap_or(Ok(()))
    }
}

fn envelope(candidate: &OutboxDeliveryCandidate) -> Result<(), String> {
    let indexes: serde_json::Value = serde_json::from_str(&candidate.payload.text).unwrap();
    for (key, value) in indexes.as_object().unwrap() {
        if !value.is_string() {
            return Err(format!("index '{key}' is not an id"));
        }
    }
    Ok(())
}

fn retry() -> NotifierRetryPolicy {
    NotifierRetryPolicy::new(seconds(1.0), seconds(8.0)).unwrap()
}

fn config() -> NotifierConfig {
    NotifierConfig::new(seconds(0.05), 8, retry()).unwrap()
}

fn deliver_one(
    service: &NotifierService,
    outbox: &mut Outbox,
    bridge: &mut Bridge,
    candidate: OutboxDeliveryCandidate,
) -> Result<DeliveryOutcome, NotifierError> {
    let mut step = service.deliver_one(candidate);
    loop {
        step = match step {
            DeliveryStep::AssembleWakeup(call) => {
                let reply = envelope(&call.candidate);
                call.resume(reply)
            }
            DeliveryStep::Deliver(call) => {
                let reply = bridge.deliver(outbox, &call.candidate);
                call.resume(reply, &service.retry)
            }
            DeliveryStep::CommitSuccess(call) => {
                let reply = outbox.mark_delivered(&call.candidate.event_id);
                call.resume(reply)
            }
            DeliveryStep::CommitFailure(call) => {
                let reply =
                    outbox.mark_failed(&call.candidate.event_id, call.delay, &call.diagnostic);
                call.resume(reply)
            }
            DeliveryStep::Finished(result) => return result,
        }
    }
}

fn deliver_due(
    service: &NotifierService,
    outbox: &mut Outbox,
    bridge: &mut Bridge,
    limit: usize,
) -> Result<Vec<DeliveryOutcome>, NotifierError> {
    let candidates = service.due(outbox.due(limit))?;
    let mut round = service.deliver_due(candidates);
    while let Some(candidate) = round.next_candidate() {
        let result = deliver_one(service, outbox, bridge, candidate);
        round.settle(result);
    }
    round.finish()
}

#[test]
fn retry_policy_is_bounded_exponential() {
    let p = retry();
    assert_eq!(p.delay_for(1), seconds(1.0));
    assert_eq!(p.delay_for(2), seconds(2.0));
    assert_eq!(p.delay_for(4), seconds(8.0));
    assert_eq!(p.delay_for(10), seconds(8.0));
    assert!(NotifierRetryPolicy::new(seconds(2.0), seconds(1.0)).is_err());
    assert!(NotifierRetryPolicy::new(seconds(f64::NAN), seconds(1.0)).is_err());
}

#[test]
fn delays_double_up_to_the_greatest_delay() {
    let p = NotifierRetryPolicy::new(seconds(0.3), seconds(1e300)).unwrap();
    for attempt in 0u32..80 {
        let exponent = attempt.saturating_sub(1).min(63);
        assert_eq!(p.delay_for(attempt), seconds(0.3 * 2f64.powi(exponent as i32)));
    }
    assert_eq!(p.delay_for(u32::MAX), seconds(0.3 * 2f64.powi(63)));
    let huge = NotifierRetryPolicy::new(seconds(1e300), seconds(f64::MAX)).unwrap();
    assert_eq!(huge.delay_for(40), seconds(f64::MAX));
    assert_eq!(p.base_delay(), seconds(0.3));
    assert_eq!(p.max_delay(), seconds(1e300));
}

#[test]
fn configuration_defects_are_named() {
    let message = |base: f64, max: f64| {
        NotifierRetryPolicy::new(seconds(base), seconds(max)).unwrap_err().message()
    };
    assert_eq!(
        message(1.0, f64::INFINITY),
        "notifier configuration: retry delays must be finite"
    );
    assert_eq!(message(0.0, 1.0), "notifier configuration: retry delays must be positive");
    assert_eq!(message(2.0, 1.0), "notifier configuration: max_delay must be >= base_delay");

    let message = |poll: f64, limit: usize| {
        NotifierConfig::new(seconds(poll), limit, retry()).unwrap_err().message()
    };
    assert_eq!(message(f64::NAN, 1), "notifier configuration: poll_interval must be finite");
    assert_eq!(message(-1.0, 1), "notifier configuration: poll_interval must be positive");
    assert_eq!(
        message(1e30, 1),
        "notifier configuration: poll_interval is not representable as a Duration"
    );
    assert_eq!(
        message(1.0, 0),
        "notifier configuration: batch_limit must be greater than zero"
    );
    assert_eq!(config().poll_duration(), Duration::from_millis(50));
    assert_eq!(config().batch_limit(), 8);
}

#[test]
fn successful_bridge_marks_delivered_and_does_not_ack() {
    let mut outbox = outbox();
    let event = outbox.results_ready("{\"batch_id\":\"batch-0\"}");
    let durable = outbox.events[event].candidate.clone();
    let mut bridge = Bridge::default();
    let service = NotifierService::new(retry());
    let due = service.due(outbox.due(8)).unwrap();
    assert_eq!(due, vec![durable.clone()]);
    let outcomes = deliver_due(&service, &mut outbox, &mut bridge, 8).unwrap();
    assert!(matches!(outcomes[0], DeliveryOutcome::Delivered { .. }));
    assert_eq!(outbox.events[event].state, OutboxState::Delivered);
    assert_eq!(bridge.deliveries, vec![durable]);
}

#[test]
fn failed_bridge_remains_pending_and_does_not_touch_task() {
    let mut outbox = outbox();
    let event = outbox.results_ready("{}");
    let mut bridge = Bridge::default();
    bridge.script.push_back(Err("down".to_string()));
    let service = NotifierService::new(retry());
    let outcomes = deliver_due(&service, &mut outbox, &mut bridge, 8).unwrap();
    assert!(matches!(outcomes[0], DeliveryOutcome::RetryScheduled { .. }));
    let stored = &outbox.events[event];
    assert_eq!(stored.state, OutboxState::Pending);
    assert_eq!(stored.candidate.delivery_attempts, 1);
    assert_eq!(stored.next_delivery_at, later(outbox.now, Duration::from_secs(1)));
    assert_eq!(stored.last_error, Some("down".to_string()));
}

#[test]
fn one_failed_event_does_not_starve_later_due_event() {
    let mut outbox = outbox();
    let first = outbox.results_ready("{}");
    outbox.advance(Duration::from_secs(1));
    let second = outbox.results_ready("{}");
    let mut bridge = Bridge::default();
    bridge.script.push_back(Err("slow".to_string()));
    let service = NotifierService::new(retry());
    let outcomes = deliver_due(&service, &mut outbox, &mut bridge, 8).unwrap();
    assert_eq!(outcomes.len(), 2);
    assert!(matches!(outcomes[0], DeliveryOutcome::RetryScheduled { .. }));
    assert!(matches!(outcomes[1], DeliveryOutcome::Delivered { .. }));
    assert_eq!(outbox.events[first].state, OutboxState::Pending);
    assert_eq!(outbox.events[second].state, OutboxState::Delivered);
}

#[test]
fn completion_time_backoff_uses_post_call_clock() {
    let mut outbox = outbox();
    let event = outbox.results_ready("{}");
    let start = outbox.now;
    let mut bridge = Bridge::default();
    bridge.advance_on_deliver = Some(Duration::from_secs(100));
    bridge.script.push_back(Err("slow-fail".to_string()));
    let service = NotifierService::new(retry());
    deliver_due(&service, &mut outbox, &mut bridge, 8).unwrap();
    assert_eq!(outbox.events[event].next_delivery_at, later(start, Duration::from_secs(101)));
}

#[test]
fn ack_before_scan_skips_delivery() {
    let mut outbox = outbox();
    let event = outbox.results_ready("{}");
    outbox.events[event].state = OutboxState::Acked;
    let mut bridge = Bridge::default();
    let service = NotifierService::new(retry());
    assert!(deliver_due(&service, &mut outbox, &mut bridge, 8).unwrap().is_empty());
    assert_eq!(bridge.deliveries.len(), 0);
}

#[test]
fn ack_during_inflight_success_stays_acked() {
    let mut outbox = outbox();
    let event = outbox.results_ready("{}");
    let mut due = outbox.due(8).unwrap();
    outbox.events[event].state = OutboxState::Acked;
    let mut bridge = Bridge::default();
    let service = NotifierService::new(retry());
    let outcome = deliver_one(&service, &mut outbox, &mut bridge, due.remove(0)).unwrap();
    assert!(matches!(
        outcome,
        DeliveryOutcome::AlreadyTerminal { state: OutboxState::Acked, .. }
    ));
    assert_eq!(outbox.events[event].state, OutboxState::Acked);
    assert_eq!(bridge.deliveries.len(), 1);
}

#[test]
fn ack_during_inflight_failure_stays_acked() {
    let mut outbox = outbox();
    let event = outbox.results_ready("{}");
    let mut due = outbox.due(8).unwrap();
    outbox.events[event].state = OutboxState::Acked;
    let mut bridge = Bridge::default();
    bridge.script.push_back(Err("no".to_string()));
    let service = NotifierService::new(retry());
    let outcome = deliver_one(&service, &mut outbox, &mut bridge, due.remove(0)).unwrap();
    assert!(matches!(
        outcome,
        DeliveryOutcome::AlreadyTerminal { state: OutboxState::Acked, .. }
    ));
    assert_eq!(outbox.events[event].state, OutboxState::Acked);
    assert_eq!(outbox.events[event].candidate.delivery_attempts, 0);
}

#[test]
fn a_failed_delivery_never_counts_as_delivered() {
    let id = OutboxEventId { text: "e".to_string() };
    assert_eq!(
        classify_commit(id.clone(), OutboxState::Delivered, false),
        DeliveryOutcome::AlreadyTerminal { event_id: id.clone(), state: OutboxState::Delivered }
    );
    assert_eq!(
        classify_commit(id.clone(), OutboxState::Delivered, true),
        DeliveryOutcome::Delivered { event_id: id.clone() }
    );
    assert_eq!(
        classify_commit(id.clone(), OutboxState::Pending, true),
        DeliveryOutcome::RetryScheduled { event_id: id }
    );
}

#[test]
fn malformed_index_is_fatal_not_bridge_failure() {
    let mut outbox = outbox();
    let event = outbox.results_ready("{\"batch_id\":1}");
    let mut due = outbox.due(8).unwrap();
    assert_eq!(due.len(), 1);
    assert_eq!(due[0].event_id, outbox.events[event].candidate.event_id);
    let mut bridge = Bridge::default();
    let service = NotifierService::new(retry());
    let err = deliver_one(&service, &mut outbox, &mut bridge, due.remove(0)).unwrap_err();
    assert!(matches!(err, NotifierError::Envelope(_)));
    assert_eq!(bridge.deliveries.len(), 0);
    assert_eq!(outbox.events[event].state, OutboxState::Pending);
}

#[test]
fn store_faults_are_told_apart() {
    let service = NotifierService::new(retry());
    assert_eq!(
        service.due(Err(Error::InvariantViolation("torn".to_string()))).unwrap_err().message(),
        "notifier invariant violation: torn"
    );
    assert_eq!(
        service.due(Err(Error::StorageFailure("disk".to_string()))).unwrap_err().message(),
        "notifier persistence fault: disk"
    );
    assert_eq!(
        NotifierError::Envelope("index".to_string()).message(),
        "notifier wakeup envelope: index"
    );
    assert_eq!(
        NotifierError::RunnerStopped("stopped").message(),
        "notifier runner is not running: stopped"
    );
}

/// Runs the loop until it waits or exits; `stop_after` asks for a stop during that delivery.
fn run_round(
    runner: &mut NotifierRunner,
    state: &mut RunnerState<NotifierError>,
    outbox: &mut Outbox,
    bridge: &mut Bridge,
    stop_after: Option<usize>,
) -> NotifierLoopStep {
    let service = NotifierService::new(retry());
    let mut delivered = 0;
    let mut step = runner.next_step(state);
    loop {
        step = match step {
            NotifierLoopStep::Poll { limit } => {
                assert_eq!(limit, 8);
                let reply = service.due(outbox.due(limit));
                runner.polled(state, reply)
            }
            NotifierLoopStep::Deliver(candidate) => {
                delivered += 1;
                if stop_after == Some(delivered) {
                    state.request_stop();
                }
                let result = deliver_one(&service, outbox, bridge, candidate);
                runner.delivered(state, result)
            }
            done => return done,
        }
    }
}

#[test]
fn runner_delivers_due_event_and_drop_joins() {
    let mut outbox = outbox();
    let event = outbox.results_ready("{}");
    let mut bridge = Bridge::default();
    let mut runner = NotifierRunner::start(&config());
    let mut state = RunnerState::new();
    assert_eq!(
        run_round(&mut runner, &mut state, &mut outbox, &mut bridge, None),
        NotifierLoopStep::Wait(Duration::from_millis(50))
    );
    assert_eq!(outbox.events[event].state, OutboxState::Delivered);
    assert_eq!(notifier_stopped(&mut state, false), None);
    assert_eq!(state.phase, RunnerPhase::Stopped);
    assert_eq!(runner.next_step(&state), NotifierLoopStep::Exit);
}

#[test]
fn ordinary_bridge_failure_does_not_fail_runner() {
    let mut outbox = outbox();
    let event = outbox.results_ready("{}");
    let mut bridge = Bridge::default();
    bridge.script.push_back(Err("tmp".to_string()));
    let mut runner = NotifierRunner::start(&config());
    let mut state = RunnerState::new();
    run_round(&mut runner, &mut state, &mut outbox, &mut bridge, None);
    assert!(!state.is_failed());
    assert_eq!(state.fatal, None);
    assert_eq!(outbox.events[event].state, OutboxState::Pending);
}

#[test]
fn stop_does_not_start_another_event_after_inflight() {
    let mut outbox = outbox();
    let first = outbox.results_ready("{}");
    outbox.advance(Duration::from_secs(1));
    let second = outbox.results_ready("{}");
    let mut bridge = Bridge::default();
    let mut runner = NotifierRunner::start(&config());
    let mut state = RunnerState::new();
    assert_eq!(
        run_round(&mut runner, &mut state, &mut outbox, &mut bridge, Some(1)),
        NotifierLoopStep::Exit
    );
    assert_eq!(outbox.events[first].state, OutboxState::Delivered);
    assert_eq!(outbox.events[second].state, OutboxState::Pending);
    assert_eq!(bridge.deliveries.len(), 1);
}

#[test]
fn worker_panic_becomes_observable_failed() {
    let mut state = RunnerState::new();
    notifier_panicked(&mut state);
    assert!(state.is_failed());
    assert!(matches!(state.fatal, Some(NotifierError::Invariant(_))));
    let err = notifier_stopped(&mut state, true).unwrap();
    assert!(matches!(err, NotifierError::Invariant(_)));
    assert_eq!(state.phase, RunnerPhase::Failed);
}

#[test]
fn a_store_fault_fails_the_runner() {
    let mut outbox = outbox();
    outbox.results_ready("{\"batch_id\":1}");
    let mut bridge = Bridge::default();
    let mut runner = NotifierRunner::start(&config());
    let mut state = RunnerState::new();
    assert_eq!(
        run_round(&mut runner, &mut state, &mut outbox, &mut bridge, None),
        NotifierLoopStep::Exit
    );
    assert!(state.is_failed());
    assert!(matches!(state.fatal, Some(NotifierError::Envelope(_))));
    let mut state = RunnerState::new();
    let fault = NotifierError::Persistence(Error::StorageFailure("disk".to_string()));
    assert_eq!(runner.polled(&mut state, Err(fault.clone())), NotifierLoopStep::Exit);
    assert_eq!(notifier_stopped(&mut state, false), Some(fault));
}

#[test]
fn inflight_bounded_call_persists_before_shutdown() {
    let mut outbox = outbox();
    let event = outbox.results_ready("{}");
    let service = NotifierService::new(retry());
    let mut runner = NotifierRunner::start(&config());
    let mut state = RunnerState::new();
    assert_eq!(runner.next_step(&state), NotifierLoopStep::Poll { limit: 8 });
    let candidate = match runner.polled(&mut state, service.due(outbox.due(8))) {
        NotifierLoopStep::Deliver(candidate) => candidate,
        other => panic!("expected a delivery, got {other:?}"),
    };
    let in_flight = match service.deliver_one(candidate) {
        DeliveryStep::AssembleWakeup(call) => match call.resume(Ok(())) {
            DeliveryStep::Deliver(call) => call,
            other => panic!("expected the bridge, got {other:?}"),
        },
        other => panic!("expected the wake-up, got {other:?}"),
    };
    state.request_stop();
    assert_eq!(outbox.events[event].state, OutboxState::Pending);
    let result = match in_flight.resume(Ok(()), &service.retry) {
        DeliveryStep::CommitSuccess(call) => {
            let reply = outbox.mark_delivered(&call.candidate.event_id);
            match call.resume(reply) {
                DeliveryStep::Finished(result) => result,
                other => panic!("expected the end, got {other:?}"),
            }
        }
        other => panic!("expected the commit, got {other:?}"),
    };
    assert_eq!(runner.delivered(&mut state, result), NotifierLoopStep::Exit);
    assert_eq!(notifier_stopped(&mut state, false), None);
    assert_eq!(outbox.events[event].state, OutboxState::Delivered);
}

#[test]
fn a_fault_ends_the_round_before_the_next_event() {
    let mut outbox = outbox();
    outbox.results_ready("{}");
    outbox.results_ready("{\"batch_id\":1}");
    let last = outbox.results_ready("{}");
    let mut bridge = Bridge::default();
    let service = NotifierService::new(retry());
    let candidates = service.due(outbox.due(8)).unwrap();
    let mut round = service.deliver_due(candidates);
    while let Some(candidate) = round.next_candidate() {
        let result = deliver_one(&service, &mut outbox, &mut bridge, candidate);
        round.settle(result);
    }
    assert_eq!(round.outcomes.len(), 1);
    assert!(matches!(round.finish(), Err(NotifierError::Envelope(_))));
    assert_eq!(bridge.deliveries.len(), 1);
    assert_eq!(outbox.events[last].state, OutboxState::Pending);
}

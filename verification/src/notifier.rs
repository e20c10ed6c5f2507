//! The notifier: durable outbox events are delivered to the root.
//!
//! It owns delivery and nothing else: it changes no task, lease or result.  An event that was not
//! delivered is tried again, with a growing delay, until the root acknowledges it.
use crate::domain::{Error, JsonValue};
use crate::runner::{RunnerPhase, RunnerState};
use crate::text::join2;
use crate::time::{greatest_units, lemma_units_bounded, law_order_is_numeric, Duration, Seconds};
use vstd::arithmetic::power2::{lemma_pow2_strictly_increases, lemma_pow2_unfold, pow2};
use vstd::prelude::*;

verus! {

/// Failures of the notifier.  An unreachable root is none of them.
#[derive(Debug, PartialEq, Eq)]
pub enum NotifierError {
    Persistence(Error),
    Invariant(String),
    InvalidConfig(String),
    Envelope(String),
    RunnerStopped(&'static str),
}

impl Clone for NotifierError {
    fn clone(&self) -> (copy: Self)
        ensures
            copy == *self,
    {
        match self {
            NotifierError::Persistence(e) => NotifierError::Persistence(e.clone()),
            NotifierError::Invariant(m) => NotifierError::Invariant(m.clone()),
            NotifierError::InvalidConfig(m) => NotifierError::InvalidConfig(m.clone()),
            NotifierError::Envelope(m) => NotifierError::Envelope(m.clone()),
            NotifierError::RunnerStopped(m) => NotifierError::RunnerStopped(m),
        }
    }
}

impl NotifierError {
    /// A store error, with contradictions of the durable state told apart.
    pub open spec fn of_kernel(error: Error) -> NotifierError {
        match error {
            Error::InvariantViolation(m) => NotifierError::Invariant(m),
            other => NotifierError::Persistence(other),
        }
    }

    pub fn from_kernel(error: Error) -> (fault: Self)
        ensures
            fault == Self::of_kernel(error),
    {
        match error {
            Error::InvariantViolation(m) => NotifierError::Invariant(m),
            other => NotifierError::Persistence(other),
        }
    }

    pub open spec fn detail(self) -> Seq<char> {
        match self {
            NotifierError::Persistence(e) => "notifier persistence fault: "@ + e.detail(),
            NotifierError::Invariant(m) => "notifier invariant violation: "@ + m@,
            NotifierError::InvalidConfig(m) => "notifier configuration: "@ + m@,
            NotifierError::Envelope(m) => "notifier wakeup envelope: "@ + m@,
            NotifierError::RunnerStopped(m) => "notifier runner is not running: "@ + m@,
        }
    }

    pub fn message(&self) -> (text: String)
        ensures
            text@ == self.detail(),
    {
        match self {
            NotifierError::Persistence(e) => join2("notifier persistence fault: ", e.message()),
            NotifierError::Invariant(m) => join2("notifier invariant violation: ", m.as_str()),
            NotifierError::InvalidConfig(m) => join2("notifier configuration: ", m.as_str()),
            NotifierError::Envelope(m) => join2("notifier wakeup envelope: ", m.as_str()),
            NotifierError::RunnerStopped(m) => join2("notifier runner is not running: ", m),
        }
    }
}

/// Exponential backoff between two positive finite delays.
#[derive(Debug, Clone, Copy, PartialEq, Eq)]
pub struct NotifierRetryPolicy {
    base_delay: Seconds,
    max_delay: Seconds,
}

/// The exponent of the delay that follows an attempt, the first attempt having number one.
pub open spec fn backoff_exponent(attempt: nat) -> nat {
    if attempt <= 1 {
        0
    } else if attempt > 64 {
        63
    } else {
        (attempt - 1) as nat
    }
}

impl NotifierRetryPolicy {
    #[verifier::type_invariant]
    closed spec fn ordered(self) -> bool {
        self.base_delay.usable() && self.max_delay.usable() && !self.max_delay.less(self.base_delay)
    }

    pub closed spec fn base(self) -> Seconds {
        self.base_delay
    }

    pub closed spec fn max(self) -> Seconds {
        self.max_delay
    }

    /// Accepts exactly the delays that are finite, positive and in order; the diagnostic names the
    /// first of these that does not hold.
    pub fn new(base_delay: Seconds, max_delay: Seconds) -> (result: Result<Self, NotifierError>)
        ensures
            result is Ok <==> base_delay.usable() && max_delay.usable() && !max_delay.less(
                base_delay,
            ),
            match result {
                Ok(policy) => policy.base() == base_delay && policy.max() == max_delay,
                Err(NotifierError::InvalidConfig(m)) => m@ == (if !base_delay.finite()
                    || !max_delay.finite() {
                    "retry delays must be finite"@
                } else if !base_delay.positive() || !max_delay.positive() {
                    "retry delays must be positive"@
                } else {
                    "max_delay must be >= base_delay"@
                }),
                Err(_) => false,
            },
    {
        if !base_delay.is_finite() || !max_delay.is_finite() {
            return Err(NotifierError::InvalidConfig("retry delays must be finite".to_string()));
        }
        if !base_delay.is_positive() || !max_delay.is_positive() {
            return Err(NotifierError::InvalidConfig("retry delays must be positive".to_string()));
        }
        if max_delay.is_less(&base_delay) {
            return Err(NotifierError::InvalidConfig("max_delay must be >= base_delay".to_string()));
        }
        Ok(NotifierRetryPolicy { base_delay, max_delay })
    }

    pub fn base_delay(&self) -> (delay: Seconds)
        ensures
            delay == self.base(),
            delay.usable(),
    {
        proof {
            use_type_invariant(self);
        }
        self.base_delay
    }

    pub fn max_delay(&self) -> (delay: Seconds)
        ensures
            delay == self.max(),
            delay.usable(),
            !delay.less(self.base()),
    {
        proof {
            use_type_invariant(self);
        }
        self.max_delay
    }

    /// The value of the delay that follows an attempt: the base delay doubled with each attempt,
    /// and at most the greatest delay.
    pub open spec fn delay_units(self, attempt: nat) -> int {
        let raw = self.base().units() * pow2(backoff_exponent(attempt));
        if raw < self.max().units() {
            raw
        } else {
            self.max().units()
        }
    }

    /// The delay after the attempt with this number.
    pub fn delay_for(&self, next_attempt_number: u32) -> (delay: Seconds)
        ensures
            delay.usable(),
            delay.units() == self.delay_units(next_attempt_number as nat),
            delay.units() <= self.max().units(),
            delay.units() >= self.base().units(),
    {
        proof {
            use_type_invariant(self);
            law_order_is_numeric(self.max_delay, self.base_delay);
            lemma_units_bounded(self.max_delay);
            law_order_is_numeric(Seconds { bits: 0 }, self.base_delay);
            assert(Seconds { bits: 0 }.units() == 0);
        }
        let exponent: u32 = if next_attempt_number <= 1 {
            0
        } else if next_attempt_number > 64 {
            63
        } else {
            next_attempt_number - 1
        };
        let mut delay = self.base_delay;
        let mut i: u32 = 0;
        let ghost base = self.base_delay.units();
        proof {
            assert(pow2(0) == 1) by {
                vstd::arithmetic::power2::lemma2_to64();
            }
            assert(base * pow2(0) == base);
        }
        while i < exponent
            invariant
                i <= exponent,
                exponent == backoff_exponent(next_attempt_number as nat),
                delay.usable(),
                base == self.base_delay.units(),
                base > 0,
                self.max_delay.usable(),
                self.max_delay.units() <= greatest_units(),
                base <= self.max_delay.units(),
                delay.units() == base * pow2(i as nat),
                base <= delay.units(),
            decreases exponent - i,
        {
            proof {
                lemma_pow2_unfold((i + 1) as nat);
                assert(2 * (base * pow2(i as nat)) == base * pow2((i + 1) as nat))
                    by (nonlinear_arith)
                    requires
                        pow2((i + 1) as nat) == 2 * pow2(i as nat),
                ;
                if i + 1 < exponent {
                    lemma_pow2_strictly_increases((i + 1) as nat, exponent as nat);
                    assert(base * pow2((i + 1) as nat) <= base * pow2(exponent as nat))
                        by (nonlinear_arith)
                        requires
                            base > 0,
                            pow2((i + 1) as nat) <= pow2(exponent as nat),
                    ;
                }
            }
            match delay.doubled() {
                None => {
                    return self.max_delay;
                },
                Some(twice) => {
                    delay = twice;
                },
            }
            i += 1;
        }
        proof {
            law_order_is_numeric(self.max_delay, delay);
        }
        if self.max_delay.is_less(&delay) {
            self.max_delay
        } else {
            delay
        }
    }
}

/// The delays never shrink from one attempt to the next.
pub proof fn law_delays_do_not_shrink(policy: NotifierRetryPolicy, earlier: nat, later: nat)
    requires
        earlier <= later,
        policy.base().units() > 0,
    ensures
        policy.delay_units(earlier) <= policy.delay_units(later),
{
    let a = backoff_exponent(earlier);
    let b = backoff_exponent(later);
    if a < b {
        lemma_pow2_strictly_increases(a, b);
    }
    let base = policy.base().units();
    let low = pow2(a);
    let high = pow2(b);
    assert(base * low <= base * high) by (nonlinear_arith)
        requires
            base > 0,
            low <= high,
    ;
}

/// Configuration of the delivery loop.
#[derive(Debug, Clone, Copy, PartialEq, Eq)]
pub struct NotifierConfig {
    poll_interval: Seconds,
    batch_limit: usize,
    retry_policy: NotifierRetryPolicy,
}

impl NotifierConfig {
    #[verifier::type_invariant]
    closed spec fn sound(self) -> bool {
        self.poll_interval.usable() && self.poll_interval.representable() && self.batch_limit > 0
    }

    pub closed spec fn poll(self) -> Seconds {
        self.poll_interval
    }

    pub closed spec fn limit(self) -> usize {
        self.batch_limit
    }

    pub closed spec fn retry(self) -> NotifierRetryPolicy {
        self.retry_policy
    }

    /// Accepts a finite positive poll that fits an interval, and a positive batch; the diagnostic
    /// names the first of these that does not hold.
    pub fn new(poll_interval: Seconds, batch_limit: usize, retry_policy: NotifierRetryPolicy)
        -> (result: Result<Self, NotifierError>)
        ensures
            result is Ok <==> poll_interval.usable() && poll_interval.representable() && batch_limit
                > 0,
            match result {
                Ok(config) => config.poll() == poll_interval && config.limit() == batch_limit
                    && config.retry() == retry_policy,
                Err(NotifierError::InvalidConfig(m)) => m@ == (if !poll_interval.finite() {
                    "poll_interval must be finite"@
                } else if !poll_interval.positive() {
                    "poll_interval must be positive"@
                } else if !poll_interval.representable() {
                    "poll_interval is not representable as a Duration"@
                } else {
                    "batch_limit must be greater than zero"@
                }),
                Err(_) => false,
            },
    {
        if !poll_interval.is_finite() {
            return Err(NotifierError::InvalidConfig("poll_interval must be finite".to_string()));
        }
        if !poll_interval.is_positive() {
            return Err(NotifierError::InvalidConfig("poll_interval must be positive".to_string()));
        }
        if poll_interval.to_duration().is_none() {
            return Err(
                NotifierError::InvalidConfig(
                    "poll_interval is not representable as a Duration".to_string(),
                ),
            );
        }
        if batch_limit == 0 {
            return Err(
                NotifierError::InvalidConfig("batch_limit must be greater than zero".to_string()),
            );
        }
        Ok(NotifierConfig { poll_interval, batch_limit, retry_policy })
    }

    pub fn poll_interval(&self) -> (poll: Seconds)
        ensures
            poll == self.poll(),
    {
        self.poll_interval
    }

    pub fn poll_duration(&self) -> (poll: Duration)
        ensures
            poll.nanos == self.poll().nanos(),
    {
        proof {
            use_type_invariant(self);
        }
        self.poll_interval.to_duration().unwrap()
    }

    pub fn batch_limit(&self) -> (limit: usize)
        ensures
            limit == self.limit(),
            limit > 0,
    {
        proof {
            use_type_invariant(self);
        }
        self.batch_limit
    }

    pub fn retry_policy(&self) -> (policy: NotifierRetryPolicy)
        ensures
            policy == self.retry(),
    {
        self.retry_policy
    }
}

/// Whether recovery runs a notifier.  Without one, no event counts as delivered.
#[derive(Debug, Clone, Copy, PartialEq, Eq)]
pub enum NotifierBinding {
    Enabled { config: NotifierConfig },
    DisabledForTests,
}

/// Identity of an outbox event.
#[derive(Debug, PartialEq, Eq)]
pub struct OutboxEventId {
    pub text: String,
}

impl Clone for OutboxEventId {
    fn clone(&self) -> (copy: Self)
        ensures
            copy == *self,
    {
        OutboxEventId { text: self.text.clone() }
    }
}

/// Durable state of an outbox event.
#[derive(Debug, Clone, Copy, PartialEq, Eq, Structural)]
pub enum OutboxState {
    Pending,
    Delivered,
    Acked,
}

/// An event that is due for delivery.
#[derive(Debug, PartialEq, Eq)]
pub struct OutboxDeliveryCandidate {
    pub event_id: OutboxEventId,
    pub event_type: String,
    pub aggregate_type: String,
    pub aggregate_id: String,
    pub payload: JsonValue,
    /// Deliveries that were tried before.
    pub delivery_attempts: u32,
}

impl Clone for OutboxDeliveryCandidate {
    fn clone(&self) -> (copy: Self)
        ensures
            copy == *self,
    {
        OutboxDeliveryCandidate {
            event_id: self.event_id.clone(),
            event_type: self.event_type.clone(),
            aggregate_type: self.aggregate_type.clone(),
            aggregate_id: self.aggregate_id.clone(),
            payload: self.payload.clone(),
            delivery_attempts: self.delivery_attempts,
        }
    }
}

/// What became of one delivery.
#[derive(Debug, PartialEq, Eq)]
pub enum DeliveryOutcome {
    Delivered { event_id: OutboxEventId },
    RetryScheduled { event_id: OutboxEventId },
    /// The event had reached a later state by itself, which stands.
    AlreadyTerminal { event_id: OutboxEventId, state: OutboxState },
}

/// What the state means that the store reports after a delivery was committed.
pub open spec fn commit_kind(
    event_id: OutboxEventId,
    state: OutboxState,
    success: bool,
) -> DeliveryOutcome {
    if state == OutboxState::Delivered && success {
        DeliveryOutcome::Delivered { event_id }
    } else if state == OutboxState::Pending {
        DeliveryOutcome::RetryScheduled { event_id }
    } else {
        DeliveryOutcome::AlreadyTerminal { event_id, state }
    }
}

pub fn classify_commit(event_id: OutboxEventId, state: OutboxState, success: bool) -> (outcome:
    DeliveryOutcome)
    ensures
        outcome == commit_kind(event_id, state, success),
{
    match state {
        OutboxState::Delivered => {
            if success {
                DeliveryOutcome::Delivered { event_id }
            } else {
                DeliveryOutcome::AlreadyTerminal { event_id, state }
            }
        },
        OutboxState::Pending => DeliveryOutcome::RetryScheduled { event_id },
        OutboxState::Acked => DeliveryOutcome::AlreadyTerminal { event_id, state },
    }
}

/// Asks for the wake-up envelope of an event.
#[derive(Debug, PartialEq, Eq)]
pub struct WakeupAssembly {
    pub candidate: OutboxDeliveryCandidate,
}

/// Asks the root bridge to deliver the wake-up.  No store transaction is open.
#[derive(Debug, PartialEq, Eq)]
pub struct BridgeDelivery {
    pub candidate: OutboxDeliveryCandidate,
}

/// Asks the store to note a delivery.
#[derive(Debug, PartialEq, Eq)]
pub struct SuccessCommit {
    pub candidate: OutboxDeliveryCandidate,
}

/// Asks the store to note a failed delivery and when to try again.
#[derive(Debug, PartialEq, Eq)]
pub struct FailureCommit {
    pub candidate: OutboxDeliveryCandidate,
    pub delay: Seconds,
    pub diagnostic: String,
}

/// Where a delivery stands.
#[derive(Debug, PartialEq, Eq)]
pub enum DeliveryStep {
    AssembleWakeup(WakeupAssembly),
    Deliver(BridgeDelivery),
    CommitSuccess(SuccessCommit),
    CommitFailure(FailureCommit),
    Finished(Result<DeliveryOutcome, NotifierError>),
}

/// The number of the attempt that is under way, as far as it can be counted.
pub open spec fn attempt_number(candidate: OutboxDeliveryCandidate) -> nat {
    if candidate.delivery_attempts == u32::MAX {
        u32::MAX as nat
    } else {
        (candidate.delivery_attempts + 1) as nat
    }
}

impl WakeupAssembly {
    pub open spec fn next(self, reply: Result<(), String>) -> DeliveryStep {
        match reply {
            Ok(_) => DeliveryStep::Deliver(BridgeDelivery { candidate: self.candidate }),
            Err(cause) => DeliveryStep::Finished(Err(NotifierError::Envelope(cause))),
        }
    }

    pub fn resume(self, reply: Result<(), String>) -> (step: DeliveryStep)
        ensures
            step == self.next(reply),
    {
        match reply {
            Ok(_) => DeliveryStep::Deliver(BridgeDelivery { candidate: self.candidate }),
            Err(cause) => DeliveryStep::Finished(Err(NotifierError::Envelope(cause))),
        }
    }
}

impl BridgeDelivery {
    /// A delivery is committed; a failure is committed with the delay of its attempt and with the
    /// bridge's diagnostic.
    pub open spec fn leads_to(
        self,
        reply: Result<(), String>,
        retry: NotifierRetryPolicy,
        step: DeliveryStep,
    ) -> bool {
        match reply {
            Ok(_) => step == DeliveryStep::CommitSuccess(
                SuccessCommit { candidate: self.candidate },
            ),
            Err(diagnostic) => step matches DeliveryStep::CommitFailure(commit) && commit.candidate
                == self.candidate && commit.diagnostic == diagnostic && commit.delay.units()
                == retry.delay_units(attempt_number(self.candidate)) && commit.delay.usable(),
        }
    }

    pub fn resume(self, reply: Result<(), String>, retry: &NotifierRetryPolicy) -> (step:
        DeliveryStep)
        ensures
            self.leads_to(reply, *retry, step),
    {
        match reply {
            Ok(_) => DeliveryStep::CommitSuccess(SuccessCommit { candidate: self.candidate }),
            Err(diagnostic) => {
                let attempt: u32 = if self.candidate.delivery_attempts == u32::MAX {
                    u32::MAX
                } else {
                    self.candidate.delivery_attempts + 1
                };
                let delay = retry.delay_for(attempt);
                DeliveryStep::CommitFailure(
                    FailureCommit { candidate: self.candidate, delay, diagnostic },
                )
            },
        }
    }
}

impl SuccessCommit {
    pub open spec fn next(self, reply: Result<OutboxState, Error>) -> DeliveryStep {
        match reply {
            Ok(state) => DeliveryStep::Finished(
                Ok(commit_kind(self.candidate.event_id, state, true)),
            ),
            Err(error) => DeliveryStep::Finished(Err(NotifierError::of_kernel(error))),
        }
    }

    pub fn resume(self, reply: Result<OutboxState, Error>) -> (step: DeliveryStep)
        ensures
            step == self.next(reply),
    {
        match reply {
            Ok(state) => DeliveryStep::Finished(
                Ok(classify_commit(self.candidate.event_id, state, true)),
            ),
            Err(error) => DeliveryStep::Finished(Err(NotifierError::from_kernel(error))),
        }
    }
}

impl FailureCommit {
    pub open spec fn next(self, reply: Result<OutboxState, Error>) -> DeliveryStep {
        match reply {
            Ok(state) => DeliveryStep::Finished(
                Ok(commit_kind(self.candidate.event_id, state, false)),
            ),
            Err(error) => DeliveryStep::Finished(Err(NotifierError::of_kernel(error))),
        }
    }

    pub fn resume(self, reply: Result<OutboxState, Error>) -> (step: DeliveryStep)
        ensures
            step == self.next(reply),
    {
        match reply {
            Ok(state) => DeliveryStep::Finished(
                Ok(classify_commit(self.candidate.event_id, state, false)),
            ),
            Err(error) => DeliveryStep::Finished(Err(NotifierError::from_kernel(error))),
        }
    }
}

/// Deliveries of one round: those still to do, what became of the others, and the fault that ended
/// the round.
#[derive(Debug, PartialEq, Eq)]
pub struct DeliveryRound {
    pub candidates: Vec<OutboxDeliveryCandidate>,
    pub position: usize,
    pub outcomes: Vec<DeliveryOutcome>,
    pub fault: Option<NotifierError>,
}

/// The delivery engine.
pub struct NotifierService {
    pub retry: NotifierRetryPolicy,
}

impl NotifierService {
    pub fn new(retry: NotifierRetryPolicy) -> (service: Self)
        ensures
            service.retry == retry,
    {
        NotifierService { retry }
    }

    /// What the store's answer to a query for due events means.
    pub fn due(&self, reply: Result<Vec<OutboxDeliveryCandidate>, Error>) -> (result: Result<
        Vec<OutboxDeliveryCandidate>,
        NotifierError,
    >)
        ensures
            match reply {
                Ok(candidates) => result == Ok::<Vec<OutboxDeliveryCandidate>, NotifierError>(
                    candidates,
                ),
                Err(error) => result == Err::<Vec<OutboxDeliveryCandidate>, NotifierError>(
                    NotifierError::of_kernel(error),
                ),
            },
    {
        match reply {
            Ok(candidates) => Ok(candidates),
            Err(error) => Err(NotifierError::from_kernel(error)),
        }
    }

    /// Starts the delivery of every due event, in the order of the store.
    pub fn deliver_due(&self, candidates: Vec<OutboxDeliveryCandidate>) -> (round: DeliveryRound)
        ensures
            round.begins(candidates@),
            round.candidates == candidates,
    {
        DeliveryRound { candidates, position: 0, outcomes: Vec::new(), fault: None }
    }

    /// Starts the delivery of one event.
    pub fn deliver_one(&self, candidate: OutboxDeliveryCandidate) -> (step: DeliveryStep)
        ensures
            step == DeliveryStep::AssembleWakeup(WakeupAssembly { candidate }),
    {
        DeliveryStep::AssembleWakeup(WakeupAssembly { candidate })
    }
}

impl DeliveryRound {
    /// A round over these candidates of which nothing is done yet.
    pub open spec fn begins(self, candidates: Seq<OutboxDeliveryCandidate>) -> bool {
        self.candidates@ == candidates && self.position == 0 && self.outcomes@.len() == 0
            && self.fault is None
    }

    /// The event that is delivered next: the candidates in their order, none after a fault.
    pub open spec fn upcoming(self) -> Option<OutboxDeliveryCandidate> {
        if self.fault is None && self.position < self.candidates@.len() {
            Some(self.candidates@[self.position as int])
        } else {
            None
        }
    }

    /// The round after the delivery of its next event: an outcome of any kind is noted and leads
    /// on, a fault ends the round.
    pub open spec fn settles_to(
        self,
        result: Result<DeliveryOutcome, NotifierError>,
        after: DeliveryRound,
    ) -> bool {
        &&& after.candidates == self.candidates
        &&& match result {
            Ok(outcome) => after.position == self.position + 1 && after.outcomes@
                == self.outcomes@.push(outcome) && after.fault == self.fault,
            Err(error) => after.position == self.position && after.outcomes == self.outcomes
                && after.fault == Some(error),
        }
    }

    /// The next event to deliver.
    pub fn next_candidate(&self) -> (candidate: Option<OutboxDeliveryCandidate>)
        ensures
            candidate == self.upcoming(),
    {
        if self.fault.is_none() && self.position < self.candidates.len() {
            Some(self.candidates[self.position].clone())
        } else {
            None
        }
    }

    /// Notes what became of the delivery of the next event.
    pub fn settle(&mut self, result: Result<DeliveryOutcome, NotifierError>)
        requires
            old(self).upcoming() is Some,
        ensures
            old(self).settles_to(result, *final(self)),
    {
        match result {
            Ok(outcome) => {
                let length: usize = self.candidates.len();
                assert(self.position < length);
                self.outcomes.push(outcome);
                self.position = self.position + 1;
            },
            Err(error) => {
                self.fault = Some(error);
            },
        }
    }

    /// What the round comes to: its fault, or else the outcomes in the order of the candidates.
    pub open spec fn comes_to(self) -> Result<Vec<DeliveryOutcome>, NotifierError> {
        match self.fault {
            Some(fault) => Err(fault),
            None => Ok(self.outcomes),
        }
    }

    pub fn finish(self) -> (result: Result<Vec<DeliveryOutcome>, NotifierError>)
        ensures
            result == self.comes_to(),
    {
        match self.fault {
            Some(fault) => Err(fault),
            None => Ok(self.outcomes),
        }
    }
}

/// A round over these candidates: as long as there is a next event, it is delivered and the round
/// takes the result.
pub open spec fn delivery_run(
    candidates: Seq<OutboxDeliveryCandidate>,
    rounds: Seq<DeliveryRound>,
    results: Seq<Result<DeliveryOutcome, NotifierError>>,
) -> bool {
    &&& rounds.len() == results.len() + 1
    &&& rounds[0].begins(candidates)
    &&& forall|k: int|
        0 <= k < results.len() ==> (#[trigger] rounds[k]).upcoming() is Some && rounds[k].settles_to(
            results[k],
            rounds[k + 1],
        )
}

proof fn lemma_delivery_run(
    candidates: Seq<OutboxDeliveryCandidate>,
    rounds: Seq<DeliveryRound>,
    results: Seq<Result<DeliveryOutcome, NotifierError>>,
    k: int,
)
    requires
        delivery_run(candidates, rounds, results),
        0 <= k <= results.len(),
    ensures
        rounds[k].candidates@ == candidates,
        rounds[k].position <= candidates.len(),
        rounds[k].outcomes@.len() == rounds[k].position,
        rounds[k].fault is None ==> rounds[k].position == k,
        rounds[k].fault matches Some(fault) ==> k > 0 && k == results.len() && rounds[k].position
            == k - 1 && results[k - 1] == Err::<DeliveryOutcome, NotifierError>(fault),
        forall|i: int|
            0 <= i < rounds[k].position ==> #[trigger] results[i] == Ok::<
                DeliveryOutcome,
                NotifierError,
            >(rounds[k].outcomes@[i]),
    decreases k,
{
    if k > 0 {
        lemma_delivery_run(candidates, rounds, results, k - 1);
        assert(rounds[k - 1].upcoming() is Some && rounds[k - 1].settles_to(
            results[k - 1],
            rounds[k - 1 + 1],
        ));
    }
}

/// The events of a round are delivered in the order of the store, each at most once.
pub proof fn law_round_follows_the_store(
    candidates: Seq<OutboxDeliveryCandidate>,
    rounds: Seq<DeliveryRound>,
    results: Seq<Result<DeliveryOutcome, NotifierError>>,
    k: int,
)
    requires
        delivery_run(candidates, rounds, results),
        0 <= k < results.len(),
    ensures
        k < candidates.len(),
        rounds[k].upcoming() == Some(candidates[k]),
{
    lemma_delivery_run(candidates, rounds, results, k);
}

/// A round that is done has one outcome for each candidate, in order, whatever became of the
/// others; or it ended at its first fault, and no later candidate was delivered.
pub proof fn law_round_is_complete_or_faulted(
    candidates: Seq<OutboxDeliveryCandidate>,
    rounds: Seq<DeliveryRound>,
    results: Seq<Result<DeliveryOutcome, NotifierError>>,
)
    requires
        delivery_run(candidates, rounds, results),
        rounds.last().upcoming() is None,
    ensures
        match rounds.last().fault {
            None => {
                &&& results.len() == candidates.len()
                &&& rounds.last().outcomes@.len() == candidates.len()
                &&& forall|i: int|
                    0 <= i < candidates.len() ==> #[trigger] results[i] == Ok::<
                        DeliveryOutcome,
                        NotifierError,
                    >(rounds.last().outcomes@[i])
            },
            Some(fault) => {
                &&& 0 < results.len() <= candidates.len()
                &&& results.last() == Err::<DeliveryOutcome, NotifierError>(fault)
                &&& forall|i: int| 0 <= i < results.len() - 1 ==> (#[trigger] results[i]) is Ok
            },
        },
{
    let n = results.len() as int;
    lemma_delivery_run(candidates, rounds, results, n);
    if n > 0 {
        lemma_delivery_run(candidates, rounds, results, n - 1);
        assert(rounds[n - 1].upcoming() is Some);
    }
}

/// What the notifier thread does next.
#[derive(Debug, PartialEq, Eq)]
pub enum NotifierLoopStep {
    /// Query the events that are due, up to this many.
    Poll { limit: usize },
    /// Deliver this event.
    Deliver(OutboxDeliveryCandidate),
    /// Wait for the poll interval, or for a signal.
    Wait(Duration),
    /// Leave the loop.
    Exit,
}

/// The notifier loop: its configuration and the events of the current round.
pub struct NotifierRunner {
    pub poll: Duration,
    pub batch_limit: usize,
    pub round: DeliveryRound,
}

impl NotifierRunner {
    pub fn start(config: &NotifierConfig) -> (runner: Self)
        ensures
            runner.poll.nanos == config.poll().nanos(),
            runner.batch_limit == config.limit(),
            runner.round.begins(Seq::empty()),
    {
        NotifierRunner {
            poll: config.poll_duration(),
            batch_limit: config.batch_limit(),
            round: DeliveryRound {
                candidates: Vec::new(),
                position: 0,
                outcomes: Vec::new(),
                fault: None,
            },
        }
    }

    /// The fault of a notifier thread that could not be spawned.
    pub fn spawn_failed(cause: &str) -> (fault: NotifierError)
        ensures
            fault matches NotifierError::Invariant(m) && m@
                == "failed to spawn the notifier thread: "@ + cause@,
    {
        NotifierError::Invariant(join2("failed to spawn the notifier thread: ", cause))
    }

    /// The top of the loop.
    pub fn next_step(&self, state: &RunnerState<NotifierError>) -> (step: NotifierLoopStep)
        ensures
            step == if state.phase == RunnerPhase::Running {
                NotifierLoopStep::Poll { limit: self.batch_limit }
            } else {
                NotifierLoopStep::Exit
            },
    {
        if state.is_stopping() {
            NotifierLoopStep::Exit
        } else {
            NotifierLoopStep::Poll { limit: self.batch_limit }
        }
    }

    /// What follows within a round: a loop that is to stop takes up no further event, and a round
    /// that is done is followed by a wait.
    pub open spec fn round_step(self, phase: RunnerPhase) -> NotifierLoopStep {
        if phase != RunnerPhase::Running {
            NotifierLoopStep::Exit
        } else {
            match self.round.upcoming() {
                Some(candidate) => NotifierLoopStep::Deliver(candidate),
                None => NotifierLoopStep::Wait(self.poll),
            }
        }
    }

    fn continue_round(&self, state: &RunnerState<NotifierError>) -> (step: NotifierLoopStep)
        ensures
            step == self.round_step(state.phase),
    {
        if state.is_stopping() {
            return NotifierLoopStep::Exit;
        }
        match self.round.next_candidate() {
            Some(candidate) => NotifierLoopStep::Deliver(candidate),
            None => NotifierLoopStep::Wait(self.poll),
        }
    }

    /// What a query for due events leads to.
    pub open spec fn polls_to(
        self,
        before: RunnerState<NotifierError>,
        reply: Result<Vec<OutboxDeliveryCandidate>, NotifierError>,
        after: NotifierRunner,
        state: RunnerState<NotifierError>,
        step: NotifierLoopStep,
    ) -> bool {
        &&& after.poll == self.poll
        &&& after.batch_limit == self.batch_limit
        &&& match reply {
            Ok(candidates) => {
                &&& state == before
                &&& after.round.begins(candidates@)
                &&& step == after.round_step(before.phase)
            },
            Err(error) => {
                &&& state == before.after_failure(error)
                &&& after.round == self.round
                &&& step == NotifierLoopStep::Exit
            },
        }
    }

    /// What a delivery leads to.
    pub open spec fn delivers_to(
        self,
        before: RunnerState<NotifierError>,
        result: Result<DeliveryOutcome, NotifierError>,
        after: NotifierRunner,
        state: RunnerState<NotifierError>,
        step: NotifierLoopStep,
    ) -> bool {
        &&& after.poll == self.poll
        &&& after.batch_limit == self.batch_limit
        &&& self.round.settles_to(result, after.round)
        &&& match result {
            Ok(outcome) => {
                &&& state == before
                &&& step == after.round_step(before.phase)
            },
            Err(error) => {
                &&& state == before.after_failure(error)
                &&& step == NotifierLoopStep::Exit
            },
        }
    }

    /// Goes on with the events that are due.  A fault of the store fails the loop.
    pub fn polled(
        &mut self,
        state: &mut RunnerState<NotifierError>,
        reply: Result<Vec<OutboxDeliveryCandidate>, NotifierError>,
    ) -> (step: NotifierLoopStep)
        ensures
            old(self).polls_to(*old(state), reply, *final(self), *final(state), step),
    {
        match reply {
            Ok(candidates) => {
                self.round = DeliveryRound {
                    candidates,
                    position: 0,
                    outcomes: Vec::new(),
                    fault: None,
                };
                self.continue_round(state)
            },
            Err(error) => {
                state.fail(error);
                NotifierLoopStep::Exit
            },
        }
    }

    /// Goes on after a delivery.  An outcome of any kind leads to the next event; a fault fails
    /// the loop.
    pub fn delivered(
        &mut self,
        state: &mut RunnerState<NotifierError>,
        result: Result<DeliveryOutcome, NotifierError>,
    ) -> (step: NotifierLoopStep)
        requires
            old(self).round.upcoming() is Some,
        ensures
            old(self).delivers_to(*old(state), result, *final(self), *final(state), step),
    {
        match result {
            Ok(outcome) => {
                self.round.settle(Ok(outcome));
                self.continue_round(state)
            },
            Err(error) => {
                self.round.settle(Err(error.clone()));
                state.fail(error);
                NotifierLoopStep::Exit
            },
        }
    }
}

/// The notifier thread panicked: the loop failed.
pub fn notifier_panicked(state: &mut RunnerState<NotifierError>)
    ensures
        final(state).phase == RunnerPhase::Failed,
        match old(state).fatal {
            Some(first) => final(state).fatal == Some(first),
            None => final(state).fatal matches Some(NotifierError::Invariant(m)) && m@
                == "the notifier worker thread panicked"@,
        },
{
    state.fail(NotifierError::Invariant("the notifier worker thread panicked".to_string()));
}

/// The state once the thread was joined, and the fault to report.
pub open spec fn stops_to(
    before: RunnerState<NotifierError>,
    panicked: bool,
    after: RunnerState<NotifierError>,
    fault: Option<NotifierError>,
) -> bool {
    &&& panicked ==> after == before.after_stop_request() && (fault matches Some(
        NotifierError::Invariant(m),
    ) && m@ == "the notifier worker thread panicked"@)
    &&& !panicked ==> after == before.after_stop_request().after_join() && fault == before.fatal
}

/// Settles the state once the thread was joined, and gives the fault to report.
pub fn notifier_stopped(state: &mut RunnerState<NotifierError>, panicked: bool) -> (fault: Option<
    NotifierError,
>)
    ensures
        stops_to(*old(state), panicked, *final(state), fault),
{
    state.request_stop();
    if panicked {
        return Some(NotifierError::Invariant("the notifier worker thread panicked".to_string()));
    }
    state.joined();
    match &state.fatal {
        Some(error) => Some(error.clone()),
        None => None,
    }
}

// ---------------------------------------------------------------------------------------------
// Laws
// ---------------------------------------------------------------------------------------------

/// An event counts as delivered only if the bridge delivered it and the store says so.
pub proof fn law_delivered_means_delivered(
    event_id: OutboxEventId,
    state: OutboxState,
    success: bool,
)
    ensures
        commit_kind(event_id, state, success) is Delivered <==> success && state
            == OutboxState::Delivered,
{
}

/// An acknowledgement that came during a delivery stands, whether the delivery succeeded or not.
pub proof fn law_ack_stands(event_id: OutboxEventId, success: bool)
    ensures
        commit_kind(event_id, OutboxState::Acked, success) == (DeliveryOutcome::AlreadyTerminal {
            event_id,
            state: OutboxState::Acked,
        }),
{
}

/// An unreachable root is no fault: the delivery goes on to be rescheduled.
pub proof fn law_bridge_error_is_no_fault(
    delivery: BridgeDelivery,
    diagnostic: String,
    retry: NotifierRetryPolicy,
    step: DeliveryStep,
)
    requires
        delivery.leads_to(Err(diagnostic), retry, step),
    ensures
        step is CommitFailure,
        step->CommitFailure_0.next(Ok(OutboxState::Pending)) == DeliveryStep::Finished(
            Ok(DeliveryOutcome::RetryScheduled { event_id: delivery.candidate.event_id }),
        ),
{
}

/// The lesser of two numbers.
pub open spec fn lesser(a: int, b: int) -> int {
    if a < b {
        a
    } else {
        b
    }
}

/// The delay after a failed delivery goes by the deliveries that were tried before: the base delay,
/// doubled once for each of them up to the sixty-third, and never more than the greatest delay.
/// The event and the bridge's words are committed with it.
pub proof fn law_delay_counts_the_deliveries(
    delivery: BridgeDelivery,
    diagnostic: String,
    retry: NotifierRetryPolicy,
    step: DeliveryStep,
)
    requires
        delivery.leads_to(Err(diagnostic), retry, step),
    ensures
        step matches DeliveryStep::CommitFailure(commit) && commit.candidate == delivery.candidate
            && commit.diagnostic == diagnostic && commit.delay.units() == lesser(
            retry.base().units() * pow2(
                lesser(delivery.candidate.delivery_attempts as int, 63) as nat,
            ),
            retry.max().units(),
        ),
{
}

/// One more delivery that failed before doubles the delay, until the greatest delay is reached.
pub proof fn law_each_failure_doubles_the_delay(
    earlier: BridgeDelivery,
    later: BridgeDelivery,
    first: String,
    second: String,
    retry: NotifierRetryPolicy,
    a: DeliveryStep,
    b: DeliveryStep,
)
    requires
        0 < retry.base().units() <= retry.max().units(),
        later.candidate.delivery_attempts == earlier.candidate.delivery_attempts + 1,
        earlier.leads_to(Err(first), retry, a),
        later.leads_to(Err(second), retry, b),
    ensures
        a is CommitFailure,
        b is CommitFailure,
        earlier.candidate.delivery_attempts == 0 ==> a->CommitFailure_0.delay.units()
            == retry.base().units(),
        earlier.candidate.delivery_attempts < 63 ==> b->CommitFailure_0.delay.units() == lesser(
            2 * a->CommitFailure_0.delay.units(),
            retry.max().units(),
        ),
        earlier.candidate.delivery_attempts >= 63 ==> b->CommitFailure_0.delay.units()
            == a->CommitFailure_0.delay.units(),
{
    law_delay_counts_the_deliveries(earlier, first, retry, a);
    law_delay_counts_the_deliveries(later, second, retry, b);
    vstd::arithmetic::power2::lemma2_to64();
    let n = earlier.candidate.delivery_attempts as nat;
    let base = retry.base().units();
    if n < 63 {
        lemma_pow2_unfold(n + 1);
        assert(base * pow2(n + 1) == 2 * (base * pow2(n))) by (nonlinear_arith)
            requires
                pow2(n + 1) == 2 * pow2(n),
        ;
    }
    assert(base * 1 == base);
}

/// What the store reports after a commit decides: delivered is what the bridge delivered, pending
/// is tried again, and any state that the event reached by itself stands.
pub proof fn law_commits_are_read_by_state(success: SuccessCommit, failure: FailureCommit)
    ensures
        success.next(Ok(OutboxState::Delivered)) == DeliveryStep::Finished(
            Ok(DeliveryOutcome::Delivered { event_id: success.candidate.event_id }),
        ),
        success.next(Ok(OutboxState::Pending)) == DeliveryStep::Finished(
            Ok(DeliveryOutcome::RetryScheduled { event_id: success.candidate.event_id }),
        ),
        success.next(Ok(OutboxState::Acked)) == DeliveryStep::Finished(
            Ok(
                DeliveryOutcome::AlreadyTerminal {
                    event_id: success.candidate.event_id,
                    state: OutboxState::Acked,
                },
            ),
        ),
        failure.next(Ok(OutboxState::Delivered)) == DeliveryStep::Finished(
            Ok(
                DeliveryOutcome::AlreadyTerminal {
                    event_id: failure.candidate.event_id,
                    state: OutboxState::Delivered,
                },
            ),
        ),
        failure.next(Ok(OutboxState::Pending)) == DeliveryStep::Finished(
            Ok(DeliveryOutcome::RetryScheduled { event_id: failure.candidate.event_id }),
        ),
        failure.next(Ok(OutboxState::Acked)) == DeliveryStep::Finished(
            Ok(
                DeliveryOutcome::AlreadyTerminal {
                    event_id: failure.candidate.event_id,
                    state: OutboxState::Acked,
                },
            ),
        ),
{
}

/// A delivery goes through its steps with the event that it began with: the envelope, the bridge,
/// and the commit of what the bridge said.
pub proof fn law_delivery_keeps_its_event(
    assembly: WakeupAssembly,
    delivery: BridgeDelivery,
    cause: String,
    retry: NotifierRetryPolicy,
    step: DeliveryStep,
)
    requires
        delivery.leads_to(Ok(()), retry, step),
    ensures
        assembly.next(Ok(())) == DeliveryStep::Deliver(
            BridgeDelivery { candidate: assembly.candidate },
        ),
        assembly.next(Err(cause)) == DeliveryStep::Finished(Err(NotifierError::Envelope(cause))),
        step == DeliveryStep::CommitSuccess(SuccessCommit { candidate: delivery.candidate }),
{
}

/// A fault of the store while a delivery is committed is the fault of the delivery; a
/// contradiction of the durable state is told apart from other faults.
pub proof fn law_store_faults_are_reported(
    success: SuccessCommit,
    failure: FailureCommit,
    text: String,
    error: Error,
)
    requires
        !(error is InvariantViolation),
    ensures
        success.next(Err(error)) == DeliveryStep::Finished(Err(NotifierError::Persistence(error))),
        failure.next(Err(error)) == DeliveryStep::Finished(Err(NotifierError::Persistence(error))),
        success.next(Err(Error::InvariantViolation(text))) == DeliveryStep::Finished(
            Err(NotifierError::Invariant(text)),
        ),
        failure.next(Err(Error::InvariantViolation(text))) == DeliveryStep::Finished(
            Err(NotifierError::Invariant(text)),
        ),
        NotifierError::of_kernel(error) == NotifierError::Persistence(error),
        NotifierError::of_kernel(Error::InvariantViolation(text)) == NotifierError::Invariant(text),
{
}

/// A running loop takes up the events of its round one after the other and waits once the round is
/// done; a loop that is not running leaves.
pub proof fn law_loop_works_off_its_round(runner: NotifierRunner, phase: RunnerPhase)
    requires
        runner.round.fault is None,
        runner.round.position <= runner.round.candidates@.len(),
    ensures
        phase != RunnerPhase::Running ==> runner.round_step(phase) == NotifierLoopStep::Exit,
        phase == RunnerPhase::Running && runner.round.position < runner.round.candidates@.len()
            ==> runner.round_step(phase) == NotifierLoopStep::Deliver(
            runner.round.candidates@[runner.round.position as int],
        ),
        phase == RunnerPhase::Running && runner.round.position == runner.round.candidates@.len()
            ==> runner.round_step(phase) == NotifierLoopStep::Wait(runner.poll),
{
}

/// The exponent of the delay counts the attempts from the second on, up to the sixty-fourth.
pub proof fn law_backoff_counts_attempts(attempt: nat)
    ensures
        backoff_exponent(0) == 0,
        attempt >= 1 ==> backoff_exponent(attempt) == lesser(attempt - 1, 63),
{
}

/// The texts of the errors of the notifier.
pub proof fn law_notifier_errors_are_told(error: Error, text: String, word: &'static str)
    ensures
        NotifierError::Persistence(error).detail() == "notifier persistence fault: "@
            + error.detail(),
        NotifierError::Invariant(text).detail() == "notifier invariant violation: "@ + text@,
        NotifierError::InvalidConfig(text).detail() == "notifier configuration: "@ + text@,
        NotifierError::Envelope(text).detail() == "notifier wakeup envelope: "@ + text@,
        NotifierError::RunnerStopped(word).detail() == "notifier runner is not running: "@ + word@,
{
}

/// A running loop that was told what is due delivers the first of it, or waits where nothing is; a
/// loop that is to stop leaves; and a fault of the query fails the loop, with the first fault kept,
/// and it leaves.
pub proof fn law_poll_starts_a_round(
    runner: NotifierRunner,
    before: RunnerState<NotifierError>,
    reply: Result<Vec<OutboxDeliveryCandidate>, NotifierError>,
    after: NotifierRunner,
    state: RunnerState<NotifierError>,
    step: NotifierLoopStep,
)
    requires
        runner.polls_to(before, reply, after, state, step),
    ensures
        after.poll == runner.poll,
        after.batch_limit == runner.batch_limit,
        match reply {
            Ok(candidates) => {
                &&& state == before
                &&& after.round.candidates@ == candidates@
                &&& after.round.position == 0
                &&& after.round.outcomes@.len() == 0
                &&& after.round.fault is None
                &&& before.phase != RunnerPhase::Running ==> step == NotifierLoopStep::Exit
                &&& before.phase == RunnerPhase::Running && candidates@.len() > 0 ==> step
                    == NotifierLoopStep::Deliver(candidates@[0])
                &&& before.phase == RunnerPhase::Running && candidates@.len() == 0 ==> step
                    == NotifierLoopStep::Wait(runner.poll)
            },
            Err(error) => {
                &&& step == NotifierLoopStep::Exit
                &&& state.phase == RunnerPhase::Failed
                &&& before.fatal is None ==> state.fatal == Some(error)
                &&& before.fatal is Some ==> state.fatal == before.fatal
                &&& after.round == runner.round
            },
        },
{
}

/// After a delivery a running loop delivers the next event of its round, or waits where there is
/// none; a loop that is to stop leaves; and a fault of the delivery fails the loop, and it leaves.
pub proof fn law_delivery_leads_to_the_next(
    runner: NotifierRunner,
    before: RunnerState<NotifierError>,
    result: Result<DeliveryOutcome, NotifierError>,
    after: NotifierRunner,
    state: RunnerState<NotifierError>,
    step: NotifierLoopStep,
)
    requires
        runner.round.fault is None,
        runner.round.position < runner.round.candidates@.len(),
        runner.delivers_to(before, result, after, state, step),
    ensures
        ({
            let candidates = runner.round.candidates@;
            let next = runner.round.position + 1;
            &&& after.round.candidates@ == candidates
            &&& match result {
                Ok(outcome) => {
                    &&& state == before
                    &&& after.round.outcomes@ == runner.round.outcomes@.push(outcome)
                    &&& before.phase != RunnerPhase::Running ==> step == NotifierLoopStep::Exit
                    &&& before.phase == RunnerPhase::Running && next < candidates.len() ==> step
                        == NotifierLoopStep::Deliver(candidates[next])
                    &&& before.phase == RunnerPhase::Running && next == candidates.len() ==> step
                        == NotifierLoopStep::Wait(runner.poll)
                },
                Err(error) => {
                    &&& step == NotifierLoopStep::Exit
                    &&& state.phase == RunnerPhase::Failed
                    &&& after.round.fault == Some(error)
                    &&& after.round.outcomes == runner.round.outcomes
                    &&& after.round.position == runner.round.position
                },
            }
        }),
{
}

/// A notifier whose thread was joined has stopped, unless it had failed, and its fault is reported;
/// a thread that panicked is reported as such, and has not stopped.
pub proof fn law_joined_notifier_has_stopped(
    before: RunnerState<NotifierError>,
    panicked: bool,
    after: RunnerState<NotifierError>,
    fault: Option<NotifierError>,
)
    requires
        stops_to(before, panicked, after, fault),
    ensures
        after.fatal == before.fatal,
        after.phase != RunnerPhase::Running,
        !panicked ==> fault == before.fatal,
        !panicked && before.phase != RunnerPhase::Failed ==> after.phase == RunnerPhase::Stopped,
        before.phase == RunnerPhase::Failed ==> after.phase == RunnerPhase::Failed,
        panicked ==> (fault matches Some(NotifierError::Invariant(m)) && m@
            == "the notifier worker thread panicked"@),
        panicked && before.phase == RunnerPhase::Running ==> after.phase
            == RunnerPhase::ShuttingDown,
{
}

/// A round that is done comes to the first fault of its deliveries, or to what became of each of its
/// candidates.
pub proof fn law_done_round_comes_to_its_results(
    candidates: Seq<OutboxDeliveryCandidate>,
    rounds: Seq<DeliveryRound>,
    results: Seq<Result<DeliveryOutcome, NotifierError>>,
)
    requires
        delivery_run(candidates, rounds, results),
        rounds.last().upcoming() is None,
    ensures
        match rounds.last().comes_to() {
            Ok(outcomes) => outcomes@.len() == candidates.len() && forall|i: int|
                0 <= i < candidates.len() ==> #[trigger] results[i] == Ok::<
                    DeliveryOutcome,
                    NotifierError,
                >(outcomes@[i]),
            Err(fault) => results.len() > 0 && results.last() == Err::<
                DeliveryOutcome,
                NotifierError,
            >(fault),
        },
{
    law_round_is_complete_or_faulted(candidates, rounds, results);
}

} // verus!

//! The physical observer: it looks whether supervised executions are still running.
//!
//! An observation keeps renewal going or stops it; the renewal itself is the heartbeat's.  Only
//! executions that are supervised in this process are observed.
use crate::adapters::AdapterRegistry;
use crate::deadlines::{AdapterBindingKey, ResolvedAdapterBinding};
use crate::domain::{
    AdapterError, Error, ExecutionId, ExecutionState, FailureClass, JsonValue, NackCommand,
    PhysicalRecord,
};
use crate::heartbeat::SupervisionService;
use crate::supervision::{
    after_drop, after_refresh, after_stop, consumed_after_drop, is_current, ObservationSnapshot,
    Supervised, SupervisionIdentity, SupervisionRegistry,
};
use crate::text::{join2, join3};
use crate::time::{Duration, Seconds, UnixTime};
use vstd::prelude::*;

verus! {

/// Timing of the observer.
#[derive(Debug, Clone, Copy, PartialEq, Eq)]
pub struct PhysicalObserverConfig {
    poll_interval: Seconds,
    freshness_limit: Seconds,
    batch_limit: usize,
}

/// Why a timing was refused.
#[derive(Debug, Clone, PartialEq, Eq)]
pub enum ObserverConfigError {
    NonPositive { field: &'static str },
    Relation,
}

impl ObserverConfigError {
    pub open spec fn detail(self) -> Seq<char> {
        match self {
            ObserverConfigError::NonPositive { field } => "observer "@ + field@
                + " must be finite and positive"@,
            ObserverConfigError::Relation => {
                "observer config must satisfy 0 < poll_interval < freshness_limit < lease_seconds"@
            },
        }
    }

    pub fn message(&self) -> (text: String)
        ensures
            text@ == self.detail(),
    {
        match self {
            ObserverConfigError::NonPositive { field } => join3(
                "observer ",
                field,
                " must be finite and positive",
            ),
            ObserverConfigError::Relation => {
                "observer config must satisfy 0 < poll_interval < freshness_limit < lease_seconds".to_string()
            },
        }
    }
}

/// Name of the first quantity that is not finite and positive.
pub open spec fn first_unusable(
    poll_interval: Seconds,
    freshness_limit: Seconds,
    batch_limit: usize,
    lease_seconds: Seconds,
) -> Option<Seq<char>> {
    if !poll_interval.usable() {
        Some("poll_interval"@)
    } else if !freshness_limit.usable() {
        Some("freshness_limit"@)
    } else if !lease_seconds.usable() {
        Some("lease_seconds"@)
    } else if batch_limit == 0 {
        Some("batch_limit"@)
    } else {
        None
    }
}

/// A number of seconds as an interval; one beyond the range of an interval lasts for ever.
pub open spec fn span_nanos(seconds: Seconds) -> nat {
    if seconds.representable() {
        seconds.nanos()
    } else {
        u128::MAX as nat
    }
}

fn span(seconds: Seconds) -> (span: Duration)
    ensures
        span.nanos == span_nanos(seconds),
{
    match seconds.to_duration() {
        Some(found) => found,
        None => Duration { nanos: u128::MAX },
    }
}

impl PhysicalObserverConfig {
    #[verifier::type_invariant]
    closed spec fn sound(self) -> bool {
        self.poll_interval.usable() && self.freshness_limit.usable() && self.poll_interval.less(
            self.freshness_limit,
        ) && self.batch_limit > 0
    }

    pub closed spec fn poll(self) -> Seconds {
        self.poll_interval
    }

    pub closed spec fn freshness(self) -> Seconds {
        self.freshness_limit
    }

    pub closed spec fn limit(self) -> usize {
        self.batch_limit
    }

    /// Accepts exactly `0 < poll_interval < freshness_limit < lease_seconds`, all finite, with a
    /// positive batch.
    pub fn new(
        poll_interval: Seconds,
        freshness_limit: Seconds,
        batch_limit: usize,
        lease_seconds: Seconds,
    ) -> (result: Result<Self, ObserverConfigError>)
        ensures
            match result {
                Ok(config) => {
                    &&& first_unusable(poll_interval, freshness_limit, batch_limit, lease_seconds)
                        is None
                    &&& poll_interval.less(freshness_limit)
                    &&& freshness_limit.less(lease_seconds)
                    &&& config.poll() == poll_interval
                    &&& config.freshness() == freshness_limit
                    &&& config.limit() == batch_limit
                },
                Err(ObserverConfigError::NonPositive { field }) => first_unusable(
                    poll_interval,
                    freshness_limit,
                    batch_limit,
                    lease_seconds,
                ) == Some(field@),
                Err(ObserverConfigError::Relation) => {
                    &&& first_unusable(poll_interval, freshness_limit, batch_limit, lease_seconds)
                        is None
                    &&& !poll_interval.less(freshness_limit) || !freshness_limit.less(
                        lease_seconds,
                    )
                },
            },
    {
        if !poll_interval.is_finite() || !poll_interval.is_positive() {
            return Err(ObserverConfigError::NonPositive { field: "poll_interval" });
        }
        if !freshness_limit.is_finite() || !freshness_limit.is_positive() {
            return Err(ObserverConfigError::NonPositive { field: "freshness_limit" });
        }
        if !lease_seconds.is_finite() || !lease_seconds.is_positive() {
            return Err(ObserverConfigError::NonPositive { field: "lease_seconds" });
        }
        if batch_limit == 0 {
            return Err(ObserverConfigError::NonPositive { field: "batch_limit" });
        }
        if !(poll_interval.is_less(&freshness_limit) && freshness_limit.is_less(&lease_seconds)) {
            return Err(ObserverConfigError::Relation);
        }
        Ok(PhysicalObserverConfig { poll_interval, freshness_limit, batch_limit })
    }

    pub fn poll_interval(&self) -> (poll: Seconds)
        ensures
            poll == self.poll(),
    {
        self.poll_interval
    }

    pub fn freshness_limit(&self) -> (limit: Seconds)
        ensures
            limit == self.freshness(),
            limit.usable(),
            self.poll().less(limit),
    {
        proof {
            use_type_invariant(self);
        }
        self.freshness_limit
    }

    pub fn batch_limit(&self) -> (limit: usize)
        ensures
            limit == self.limit(),
            limit > 0,
    {
        proof {
            use_type_invariant(self);
        }
        self.batch_limit
    }
}

/// What an adapter reports of an execution that is under way.
#[derive(Debug, PartialEq, Eq)]
pub struct ExecutionObservation {
    pub state: ExecutionState,
    pub terminal_confirmed: bool,
    pub quiescent_confirmed: bool,
    pub detail: Option<String>,
}

/// What an observation means.
#[derive(Debug, Clone, Copy, PartialEq, Eq, Structural)]
pub enum PhysicalObservationKind {
    ExactRunning,
    PhysicalEnded,
    IdentityLost,
    ProtocolInvalid,
    InvocationError,
}

/// Kind of an observation: RUNNING without any claim of an end is running, and with one it is
/// invalid; a process that ended without terminal proof has ended; states that an observation
/// cannot establish are invalid; anything else has lost the identity.
pub open spec fn observation_kind(observation: ExecutionObservation) -> PhysicalObservationKind {
    match observation.state {
        ExecutionState::Running => if observation.terminal_confirmed
            || observation.quiescent_confirmed {
            PhysicalObservationKind::ProtocolInvalid
        } else {
            PhysicalObservationKind::ExactRunning
        },
        ExecutionState::Terminated => if observation.terminal_confirmed {
            PhysicalObservationKind::IdentityLost
        } else {
            PhysicalObservationKind::PhysicalEnded
        },
        ExecutionState::Succeeded => PhysicalObservationKind::ProtocolInvalid,
        ExecutionState::Failed => PhysicalObservationKind::ProtocolInvalid,
        ExecutionState::Starting => PhysicalObservationKind::ProtocolInvalid,
        ExecutionState::Unknown => PhysicalObservationKind::IdentityLost,
        ExecutionState::Lost => PhysicalObservationKind::IdentityLost,
    }
}

/// Classifies an observation.
pub fn classify_execution_observation(observation: &ExecutionObservation) -> (kind:
    PhysicalObservationKind)
    ensures
        kind == observation_kind(*observation),
{
    if observation.state == ExecutionState::Running && (observation.terminal_confirmed
        || observation.quiescent_confirmed) {
        return PhysicalObservationKind::ProtocolInvalid;
    }
    if observation.state == ExecutionState::Running {
        return PhysicalObservationKind::ExactRunning;
    }
    if observation.state == ExecutionState::Terminated && !observation.terminal_confirmed {
        return PhysicalObservationKind::PhysicalEnded;
    }
    if matches!(
        observation.state,
        ExecutionState::Succeeded | ExecutionState::Failed | ExecutionState::Starting
    ) {
        return PhysicalObservationKind::ProtocolInvalid;
    }
    PhysicalObservationKind::IdentityLost
}

/// Failures of the observer.
#[derive(Debug, PartialEq, Eq)]
pub enum ObserverError {
    Fatal(Error),
    MissingAdapter { adapter_kind: String },
}

impl ObserverError {
    pub open spec fn detail(self) -> Seq<char> {
        match self {
            ObserverError::Fatal(error) => "physical observer fatal: "@ + error.detail(),
            ObserverError::MissingAdapter { adapter_kind } => {
                "supervised execution missing installed adapter '"@ + adapter_kind@ + "'"@
            },
        }
    }

    pub fn message(&self) -> (text: String)
        ensures
            text@ == self.detail(),
    {
        match self {
            ObserverError::Fatal(error) => join2("physical observer fatal: ", error.message()),
            ObserverError::MissingAdapter { adapter_kind } => join3(
                "supervised execution missing installed adapter '",
                adapter_kind.as_str(),
                "'",
            ),
        }
    }
}

/// What became of one observation.
#[derive(Debug, Clone, Copy, PartialEq, Eq, Structural)]
pub enum ObserveApply {
    Refreshed,
    PhysicalEnded,
    IdentityLost,
    ProtocolInvalidated,
    InvocationIgnored,
    AuthorityAlreadyStale,
    Dropped,
}

/// One execution to observe.
#[derive(Debug, PartialEq, Eq)]
pub struct ObservationTicket {
    pub identity: SupervisionIdentity,
}

impl Clone for ObservationTicket {
    fn clone(&self) -> (copy: Self)
        ensures
            copy == *self,
    {
        ObservationTicket { identity: self.identity.clone() }
    }
}

impl ObservationTicket {
    pub fn execution_id(&self) -> (id: &ExecutionId)
        ensures
            *id == self.identity.execution_id,
    {
        &self.identity.execution_id
    }
}

/// How the store routes an execution.  The key is absent, with a diagnostic, if it is not valid.
#[derive(Debug, PartialEq, Eq)]
pub struct RoutingFacts {
    pub adapter_kind: String,
    pub adapter_binding_key: Result<AdapterBindingKey, String>,
    pub runtime_handle: JsonValue,
}

/// An adapter error, with the handle that the adapter named along with it.
#[derive(Debug, PartialEq, Eq)]
pub struct InvocationFault {
    pub error: AdapterError,
    pub runtime_handle_hint: Option<JsonValue>,
}

/// What the store did about a physical end.
#[derive(Debug, Clone, Copy, PartialEq, Eq, Structural)]
pub enum AuthorityConsequence {
    Applied,
    AuthorityAlreadyStale,
}

/// Asks the store how the execution is routed.
#[derive(Debug, PartialEq, Eq)]
pub struct RoutingQuery {
    pub ticket: ObservationTicket,
    pub activation: bool,
}

/// Asks the adapter to observe.
#[derive(Debug, PartialEq, Eq)]
pub struct AdapterObservation {
    pub ticket: ObservationTicket,
    pub activation: bool,
    pub adapter_kind: String,
    pub adapter_binding_key: AdapterBindingKey,
    pub handle: JsonValue,
}

/// Asks the adapter for the artifacts of an execution that ended.
#[derive(Debug, PartialEq, Eq)]
pub struct ArtifactCollection {
    pub ticket: ObservationTicket,
    pub adapter_kind: String,
    pub adapter_binding_key: AdapterBindingKey,
    pub handle: JsonValue,
}

/// Asks the store to keep a handle that came with an error.
#[derive(Debug, PartialEq, Eq)]
pub struct HintRecord {
    pub ticket: ObservationTicket,
    pub hint: JsonValue,
    pub activation: bool,
}

/// Asks the store to take the attempt back with class `Unknown` and leave physical history as it is.
#[derive(Debug, PartialEq, Eq)]
pub struct PreservingNack {
    pub ticket: ObservationTicket,
}

/// Asks the store to record that the execution is lost.
#[derive(Debug, PartialEq, Eq)]
pub struct LostRecord {
    pub ticket: ObservationTicket,
    pub record: PhysicalRecord,
}

/// Asks the store to take the attempt of a lost execution back, without any proof.
#[derive(Debug, PartialEq, Eq)]
pub struct LostNack {
    pub ticket: ObservationTicket,
}

/// Asks the store to record a physical end and take the attempt back.
#[derive(Debug, PartialEq, Eq)]
pub struct PhysicalEnd {
    pub ticket: ObservationTicket,
    pub handle: JsonValue,
    pub artifacts: Option<JsonValue>,
}

/// Where an observation stands.
#[derive(Debug, PartialEq, Eq)]
pub enum ObserveStep {
    Route(RoutingQuery),
    Observe(AdapterObservation),
    CollectArtifacts(ArtifactCollection),
    RecordHint(HintRecord),
    NackPreserving(PreservingNack),
    RecordLost(LostRecord),
    NackLost(LostNack),
    PersistEnd(PhysicalEnd),
    Finished(Result<ObserveApply, ObserverError>),
}

/// What is known when an observation is applied.
#[derive(Debug, PartialEq, Eq)]
pub struct Evidence {
    pub kind: PhysicalObservationKind,
    pub handle: JsonValue,
    pub activation: bool,
    pub handle_hint: Option<JsonValue>,
    pub artifacts: Option<JsonValue>,
}

/// Closing during activation, or leaving the execution supervised outside of it.
pub open spec fn close_or(ticket: ObservationTicket, activation: bool, otherwise: ObserveApply)
    -> ObserveStep {
    if activation {
        ObserveStep::NackPreserving(PreservingNack { ticket })
    } else {
        ObserveStep::Finished(Ok(otherwise))
    }
}

/// The record of a lost execution: LOST, with the handle and without any proof.
pub open spec fn lost_record(ticket: ObservationTicket, handle: JsonValue) -> PhysicalRecord {
    PhysicalRecord {
        execution_id: ticket.identity.execution_id,
        state: ExecutionState::Lost,
        handle: Some(handle),
        payload: None,
        failure_class: Some(FailureClass::ExecutionLost),
        terminal_confirmed: false,
        quiescent_confirmed: false,
    }
}

/// What evidence leads to.  An observation of an admission that is not current any more is
/// dropped.
pub open spec fn evidence_applied(
    supervised: Supervised,
    ticket: ObservationTicket,
    evidence: Evidence,
) -> ObserveStep {
    if !is_current(supervised, ticket.identity) {
        ObserveStep::Finished(Ok(ObserveApply::Dropped))
    } else {
        match evidence.kind {
            PhysicalObservationKind::ExactRunning => ObserveStep::Finished(
                Ok(ObserveApply::Refreshed),
            ),
            PhysicalObservationKind::InvocationError => match evidence.handle_hint {
                Some(hint) => ObserveStep::RecordHint(
                    HintRecord { ticket, hint, activation: evidence.activation },
                ),
                None => close_or(ticket, evidence.activation, ObserveApply::InvocationIgnored),
            },
            PhysicalObservationKind::ProtocolInvalid => close_or(
                ticket,
                evidence.activation,
                ObserveApply::ProtocolInvalidated,
            ),
            PhysicalObservationKind::IdentityLost => ObserveStep::RecordLost(
                LostRecord { ticket, record: lost_record(ticket, evidence.handle) },
            ),
            PhysicalObservationKind::PhysicalEnded => ObserveStep::PersistEnd(
                PhysicalEnd { ticket, handle: evidence.handle, artifacts: evidence.artifacts },
            ),
        }
    }
}

/// The registry after evidence was applied: running refreshes the entry, an error leaves it, and
/// everything else stops renewal.
pub open spec fn supervised_with(
    supervised: Supervised,
    ticket: ObservationTicket,
    kind: PhysicalObservationKind,
    now: UnixTime,
) -> Supervised {
    match kind {
        PhysicalObservationKind::ExactRunning => after_refresh(supervised, ticket.identity, now),
        PhysicalObservationKind::InvocationError => supervised,
        _ => after_stop(supervised, ticket.identity),
    }
}

fn close_step(ticket: ObservationTicket, activation: bool, otherwise: ObserveApply) -> (step:
    ObserveStep)
    ensures
        step == close_or(ticket, activation, otherwise),
{
    if activation {
        ObserveStep::NackPreserving(PreservingNack { ticket })
    } else {
        ObserveStep::Finished(Ok(otherwise))
    }
}

/// Applies evidence to the registry and decides what follows.
pub fn apply_kind(
    registry: &mut SupervisionRegistry,
    ticket: ObservationTicket,
    evidence: Evidence,
    now: UnixTime,
) -> (step: ObserveStep)
    requires
        old(registry).wf(),
    ensures
        final(registry).wf(),
        step == evidence_applied(old(registry)@, ticket, evidence),
        final(registry)@ == supervised_with(old(registry)@, ticket, evidence.kind, now),
        final(registry).consumed() == old(registry).consumed(),
{
    if !registry.generation_current(&ticket.identity) {
        return ObserveStep::Finished(Ok(ObserveApply::Dropped));
    }
    match evidence.kind {
        PhysicalObservationKind::ExactRunning => {
            registry.refresh_freshness(&ticket.identity, now);
            ObserveStep::Finished(Ok(ObserveApply::Refreshed))
        },
        PhysicalObservationKind::InvocationError => {
            match evidence.handle_hint {
                Some(hint) => ObserveStep::RecordHint(
                    HintRecord { ticket, hint, activation: evidence.activation },
                ),
                None => close_step(ticket, evidence.activation, ObserveApply::InvocationIgnored),
            }
        },
        PhysicalObservationKind::ProtocolInvalid => {
            registry.stop_renewal_eligibility(&ticket.identity);
            close_step(ticket, evidence.activation, ObserveApply::ProtocolInvalidated)
        },
        PhysicalObservationKind::IdentityLost => {
            registry.stop_renewal_eligibility(&ticket.identity);
            let record = PhysicalRecord {
                execution_id: ticket.identity.execution_id.clone(),
                state: ExecutionState::Lost,
                handle: Some(evidence.handle),
                payload: None,
                failure_class: Some(FailureClass::ExecutionLost),
                terminal_confirmed: false,
                quiescent_confirmed: false,
            };
            ObserveStep::RecordLost(LostRecord { ticket, record })
        },
        PhysicalObservationKind::PhysicalEnded => {
            registry.stop_renewal_eligibility(&ticket.identity);
            ObserveStep::PersistEnd(
                PhysicalEnd { ticket, handle: evidence.handle, artifacts: evidence.artifacts },
            )
        },
    }
}

impl RoutingQuery {
    /// The adapter must be installed under exactly the durable kind and key.
    pub open spec fn next(
        self,
        reply: Result<RoutingFacts, Error>,
        installed: spec_fn(Seq<char>, Seq<char>) -> bool,
    ) -> ObserveStep {
        match reply {
            Err(error) => ObserveStep::Finished(Err(ObserverError::Fatal(error))),
            Ok(facts) => match facts.adapter_binding_key {
                Err(cause) => ObserveStep::Finished(
                    Err(ObserverError::Fatal(Error::InvalidTransition(cause))),
                ),
                Ok(key) => if installed(facts.adapter_kind@, key@) {
                    ObserveStep::Observe(
                        AdapterObservation {
                            ticket: self.ticket,
                            activation: self.activation,
                            adapter_kind: facts.adapter_kind,
                            adapter_binding_key: key,
                            handle: facts.runtime_handle,
                        },
                    )
                } else {
                    ObserveStep::Finished(
                        Err(ObserverError::MissingAdapter { adapter_kind: facts.adapter_kind }),
                    )
                },
            },
        }
    }

    pub fn resume<A>(
        self,
        reply: Result<RoutingFacts, Error>,
        adapters: &AdapterRegistry<ResolvedAdapterBinding<A>>,
    ) -> (step: ObserveStep)
        ensures
            step == self.next(
                reply,
                |kind: Seq<char>, key: Seq<char>| adapters.installs_exactly(kind, key),
            ),
    {
        match reply {
            Err(error) => ObserveStep::Finished(Err(ObserverError::Fatal(error))),
            Ok(facts) => match facts.adapter_binding_key {
                Err(cause) => ObserveStep::Finished(
                    Err(ObserverError::Fatal(Error::InvalidTransition(cause))),
                ),
                Ok(key) => {
                    if adapters.resolve_exact(facts.adapter_kind.as_str(), &key).is_ok() {
                        ObserveStep::Observe(
                            AdapterObservation {
                                ticket: self.ticket,
                                activation: self.activation,
                                adapter_kind: facts.adapter_kind,
                                adapter_binding_key: key,
                                handle: facts.runtime_handle,
                            },
                        )
                    } else {
                        ObserveStep::Finished(
                            Err(ObserverError::MissingAdapter { adapter_kind: facts.adapter_kind }),
                        )
                    }
                },
            },
        }
    }
}

impl AdapterObservation {
    /// The evidence of a reply.
    pub open spec fn evidence(self, reply: Result<ExecutionObservation, InvocationFault>)
        -> Evidence {
        Evidence {
            kind: match reply {
                Ok(observation) => observation_kind(observation),
                Err(_) => PhysicalObservationKind::InvocationError,
            },
            handle: self.handle,
            activation: self.activation,
            handle_hint: match reply {
                Ok(_) => None,
                Err(fault) => fault.runtime_handle_hint,
            },
            artifacts: None,
        }
    }

    /// The adapter reports that the process ended.
    pub open spec fn ended(reply: Result<ExecutionObservation, InvocationFault>) -> bool {
        reply matches Ok(observation) && observation_kind(observation)
            == PhysicalObservationKind::PhysicalEnded
    }

    /// What a reply leads to, and what it does to what is supervised.
    pub open spec fn leads_to(
        self,
        reply: Result<ExecutionObservation, InvocationFault>,
        now: UnixTime,
        before: Supervised,
        after: Supervised,
        step: ObserveStep,
    ) -> bool {
        if Self::ended(reply) {
            &&& step == ObserveStep::CollectArtifacts(
                ArtifactCollection {
                    ticket: self.ticket,
                    adapter_kind: self.adapter_kind,
                    adapter_binding_key: self.adapter_binding_key,
                    handle: self.handle,
                },
            )
            &&& after == before
        } else {
            &&& step == evidence_applied(before, self.ticket, self.evidence(reply))
            &&& after == supervised_with(before, self.ticket, self.evidence(reply).kind, now)
        }
    }

    /// An end is collected before it is applied; everything else is applied at once.
    pub fn resume(
        self,
        reply: Result<ExecutionObservation, InvocationFault>,
        registry: &mut SupervisionRegistry,
        now: UnixTime,
    ) -> (step: ObserveStep)
        requires
            old(registry).wf(),
        ensures
            final(registry).wf(),
            final(registry).consumed() == old(registry).consumed(),
            self.leads_to(reply, now, old(registry)@, final(registry)@, step),
    {
        match reply {
            Ok(observation) => {
                let kind = classify_execution_observation(&observation);
                if kind == PhysicalObservationKind::PhysicalEnded {
                    return ObserveStep::CollectArtifacts(
                        ArtifactCollection {
                            ticket: self.ticket,
                            adapter_kind: self.adapter_kind,
                            adapter_binding_key: self.adapter_binding_key,
                            handle: self.handle,
                        },
                    );
                }
                let evidence = Evidence {
                    kind,
                    handle: self.handle,
                    activation: self.activation,
                    handle_hint: None,
                    artifacts: None,
                };
                apply_kind(registry, self.ticket, evidence, now)
            },
            Err(fault) => {
                let evidence = Evidence {
                    kind: PhysicalObservationKind::InvocationError,
                    handle: self.handle,
                    activation: self.activation,
                    handle_hint: fault.runtime_handle_hint,
                    artifacts: None,
                };
                apply_kind(registry, self.ticket, evidence, now)
            },
        }
    }
}

impl ArtifactCollection {
    /// A failed collection leaves the artifacts out; the end stands.
    pub open spec fn evidence(self, reply: Result<Option<JsonValue>, AdapterError>) -> Evidence {
        Evidence {
            kind: PhysicalObservationKind::PhysicalEnded,
            handle: self.handle,
            activation: false,
            handle_hint: None,
            artifacts: match reply {
                Ok(artifacts) => artifacts,
                Err(_) => None,
            },
        }
    }

    pub fn resume(
        self,
        reply: Result<Option<JsonValue>, AdapterError>,
        registry: &mut SupervisionRegistry,
        now: UnixTime,
    ) -> (step: ObserveStep)
        requires
            old(registry).wf(),
        ensures
            final(registry).wf(),
            final(registry).consumed() == old(registry).consumed(),
            step == evidence_applied(old(registry)@, self.ticket, self.evidence(reply)),
            final(registry)@ == supervised_with(
                old(registry)@,
                self.ticket,
                PhysicalObservationKind::PhysicalEnded,
                now,
            ),
    {
        let artifacts = match reply {
            Ok(found) => found,
            Err(_) => None,
        };
        let evidence = Evidence {
            kind: PhysicalObservationKind::PhysicalEnded,
            handle: self.handle,
            activation: false,
            handle_hint: None,
            artifacts,
        };
        apply_kind(registry, self.ticket, evidence, now)
    }
}

impl HintRecord {
    pub open spec fn next(self, reply: Result<(), Error>) -> ObserveStep {
        match reply {
            Err(error) => ObserveStep::Finished(Err(ObserverError::Fatal(error))),
            Ok(_) => close_or(self.ticket, self.activation, ObserveApply::InvocationIgnored),
        }
    }

    pub fn resume(self, reply: Result<(), Error>) -> (step: ObserveStep)
        ensures
            step == self.next(reply),
    {
        match reply {
            Err(error) => ObserveStep::Finished(Err(ObserverError::Fatal(error))),
            Ok(_) => close_step(self.ticket, self.activation, ObserveApply::InvocationIgnored),
        }
    }
}

/// An observation that ends well takes its execution out of supervision, if its admission is still
/// current, and uses the admission up; a fault leaves the registry as it was.
pub open spec fn gives_up(
    step: ObserveStep,
    ticket: ObservationTicket,
    before: SupervisionRegistry,
    after: SupervisionRegistry,
) -> bool {
    &&& step->Finished_0 is Ok ==> after@ == after_drop(before@, ticket.identity)
        && after.consumed() == consumed_after_drop(before@, before.consumed(), ticket.identity)
    &&& step->Finished_0 is Err ==> after@ == before@ && after.consumed() == before.consumed()
}

impl PreservingNack {
    /// The class under which the attempt is taken back.
    pub fn failure_class(&self) -> (class: FailureClass)
        ensures
            class == FailureClass::Unknown,
    {
        FailureClass::Unknown
    }

    pub open spec fn next(self, reply: Result<(), Error>) -> ObserveStep {
        match reply {
            Ok(_) => ObserveStep::Finished(Ok(ObserveApply::ProtocolInvalidated)),
            Err(error) => if error.authority_lost() {
                ObserveStep::Finished(Ok(ObserveApply::AuthorityAlreadyStale))
            } else {
                ObserveStep::Finished(Err(ObserverError::Fatal(error)))
            },
        }
    }

    /// The execution leaves supervision unless the store failed.
    pub fn resume(self, reply: Result<(), Error>, registry: &mut SupervisionRegistry) -> (step:
        ObserveStep)
        requires
            old(registry).wf(),
        ensures
            final(registry).wf(),
            step == self.next(reply),
            gives_up(step, self.ticket, *old(registry), *final(registry)),
    {
        match reply {
            Ok(_) => {
                registry.remove_if_current(&self.ticket.identity);
                ObserveStep::Finished(Ok(ObserveApply::ProtocolInvalidated))
            },
            Err(error) => {
                if error.is_authority_lost() {
                    registry.remove_if_current(&self.ticket.identity);
                    ObserveStep::Finished(Ok(ObserveApply::AuthorityAlreadyStale))
                } else {
                    ObserveStep::Finished(Err(ObserverError::Fatal(error)))
                }
            },
        }
    }
}

impl LostRecord {
    pub open spec fn next(self, reply: Result<(), Error>) -> ObserveStep {
        match reply {
            Err(error) => ObserveStep::Finished(Err(ObserverError::Fatal(error))),
            Ok(_) => ObserveStep::NackLost(LostNack { ticket: self.ticket }),
        }
    }

    pub fn resume(self, reply: Result<(), Error>) -> (step: ObserveStep)
        ensures
            step == self.next(reply),
    {
        match reply {
            Err(error) => ObserveStep::Finished(Err(ObserverError::Fatal(error))),
            Ok(_) => ObserveStep::NackLost(LostNack { ticket: self.ticket }),
        }
    }
}

impl LostNack {
    /// What the store is asked: the attempt back as lost, without any proof.
    pub open spec fn asks(self, command: NackCommand) -> bool {
        command == (NackCommand {
            attempt_id: self.ticket.identity.attempt_id,
            lease_epoch: self.ticket.identity.lease_epoch,
            failure_class: FailureClass::ExecutionLost,
            execution_id: self.ticket.identity.execution_id,
            terminal_confirmed: false,
            quiescent_confirmed: false,
            incarnation_reusable: false,
        })
    }

    pub fn command(&self) -> (command: NackCommand)
        ensures
            self.asks(command),
    {
        NackCommand {
            attempt_id: self.ticket.identity.attempt_id.clone(),
            lease_epoch: self.ticket.identity.lease_epoch,
            failure_class: FailureClass::ExecutionLost,
            execution_id: self.ticket.identity.execution_id.clone(),
            terminal_confirmed: false,
            quiescent_confirmed: false,
            incarnation_reusable: false,
        }
    }

    /// Lost authority is as good as a NACK: there is nothing left to take back.
    pub open spec fn next(self, reply: Result<(), Error>) -> ObserveStep {
        match reply {
            Err(error) if !error.authority_lost() => ObserveStep::Finished(
                Err(ObserverError::Fatal(error)),
            ),
            _ => ObserveStep::Finished(Ok(ObserveApply::IdentityLost)),
        }
    }

    pub fn resume(self, reply: Result<(), Error>, registry: &mut SupervisionRegistry) -> (step:
        ObserveStep)
        requires
            old(registry).wf(),
        ensures
            final(registry).wf(),
            step == self.next(reply),
            gives_up(step, self.ticket, *old(registry), *final(registry)),
    {
        if let Err(error) = reply {
            if !error.is_authority_lost() {
                return ObserveStep::Finished(Err(ObserverError::Fatal(error)));
            }
        }
        registry.remove_if_current(&self.ticket.identity);
        ObserveStep::Finished(Ok(ObserveApply::IdentityLost))
    }
}

impl PhysicalEnd {
    pub open spec fn next(self, reply: Result<AuthorityConsequence, Error>) -> ObserveStep {
        match reply {
            Err(error) => ObserveStep::Finished(Err(ObserverError::Fatal(error))),
            Ok(AuthorityConsequence::Applied) => ObserveStep::Finished(
                Ok(ObserveApply::PhysicalEnded),
            ),
            Ok(AuthorityConsequence::AuthorityAlreadyStale) => ObserveStep::Finished(
                Ok(ObserveApply::AuthorityAlreadyStale),
            ),
        }
    }

    pub fn resume(
        self,
        reply: Result<AuthorityConsequence, Error>,
        registry: &mut SupervisionRegistry,
    ) -> (step: ObserveStep)
        requires
            old(registry).wf(),
        ensures
            final(registry).wf(),
            step == self.next(reply),
            gives_up(step, self.ticket, *old(registry), *final(registry)),
    {
        match reply {
            Err(error) => ObserveStep::Finished(Err(ObserverError::Fatal(error))),
            Ok(AuthorityConsequence::Applied) => {
                registry.remove_if_current(&self.ticket.identity);
                ObserveStep::Finished(Ok(ObserveApply::PhysicalEnded))
            },
            Ok(AuthorityConsequence::AuthorityAlreadyStale) => {
                registry.remove_if_current(&self.ticket.identity);
                ObserveStep::Finished(Ok(ObserveApply::AuthorityAlreadyStale))
            },
        }
    }
}

/// Observations of one round: those still to do, and what became of the others.
#[derive(Debug, PartialEq, Eq)]
pub struct ObservationRound {
    pub tickets: Vec<ObservationTicket>,
    pub position: usize,
    pub applied: Vec<ObserveApply>,
    /// The round is part of the start of the daemon.
    pub activation: bool,
}

impl ObservationRound {
    /// The next observation: the tickets in their order, each as part of this round.
    pub open spec fn upcoming(self) -> Option<ObserveStep> {
        if self.position < self.tickets@.len() {
            Some(
                ObserveStep::Route(
                    RoutingQuery {
                        ticket: self.tickets@[self.position as int],
                        activation: self.activation,
                    },
                ),
            )
        } else {
            None
        }
    }

    /// The round after what became of its next observation: an outcome of any kind is noted and
    /// leads on, a fault leaves the round where it is.
    pub open spec fn settles_to(
        self,
        result: Result<ObserveApply, ObserverError>,
        after: ObservationRound,
        settled: Result<(), ObserverError>,
    ) -> bool {
        &&& after.tickets == self.tickets
        &&& after.activation == self.activation
        &&& match result {
            Ok(applied) => settled == Ok::<(), ObserverError>(()) && after.position == self.position
                + 1 && after.applied@ == self.applied@.push(applied),
            Err(error) => settled == Err::<(), ObserverError>(error) && after == self,
        }
    }

    /// Starts the observation of the next ticket.
    pub fn next_ticket(&self) -> (step: Option<ObserveStep>)
        ensures
            step == self.upcoming(),
    {
        if self.position < self.tickets.len() {
            Some(
                ObserveStep::Route(
                    RoutingQuery {
                        ticket: self.tickets[self.position].clone(),
                        activation: self.activation,
                    },
                ),
            )
        } else {
            None
        }
    }

    /// Notes what became of the next observation.  A fault leaves the round where it is.
    pub fn settle(&mut self, result: Result<ObserveApply, ObserverError>) -> (settled: Result<
        (),
        ObserverError,
    >)
        requires
            old(self).position < old(self).tickets@.len(),
        ensures
            old(self).settles_to(result, *final(self), settled),
    {
        match result {
            Ok(applied) => {
                let length: usize = self.tickets.len();
                assert(self.position < length);
                self.applied.push(applied);
                self.position = self.position + 1;
                Ok(())
            },
            Err(error) => Err(error),
        }
    }
}

/// The last sighting lies a poll interval back.
pub open spec fn observation_due(
    snapshot: ObservationSnapshot,
    now: UnixTime,
    poll: Duration,
) -> bool {
    now.reached(snapshot.last_positive_observed_at, poll)
}

/// The tickets of the snapshots that are due, in order.
pub open spec fn due_tickets(
    snapshots: Seq<ObservationSnapshot>,
    now: UnixTime,
    poll: Duration,
) -> Seq<ObservationTicket>
    decreases snapshots.len(),
{
    if snapshots.len() == 0 {
        Seq::empty()
    } else {
        let rest = due_tickets(snapshots.drop_last(), now, poll);
        if observation_due(snapshots.last(), now, poll) {
            rest.push(ObservationTicket { identity: snapshots.last().identity })
        } else {
            rest
        }
    }
}

/// The tickets that a batch takes: all of them, or as many as it holds from the front.
pub open spec fn batch_of(due: Seq<ObservationTicket>, limit: usize) -> Seq<ObservationTicket> {
    if due.len() <= limit {
        due
    } else {
        due.take(limit as int)
    }
}

/// A supervised execution whose last sighting lies a poll interval back.
pub open spec fn due_now(supervised: Supervised, id: Seq<char>, now: UnixTime, poll: Seconds) -> bool {
    supervised.contains_key(id) && now.reached(
        supervised[id].last_positive_observed_at,
        Duration { nanos: span_nanos(poll) as u128 },
    )
}

/// The execution has a ticket.
pub open spec fn ticketed(tickets: Seq<ObservationTicket>, id: Seq<char>) -> bool {
    exists|i: int|
        0 <= i < tickets.len() && (#[trigger] tickets[i]).identity.execution_id@ == id
}

/// No execution has two tickets.
pub open spec fn one_each(tickets: Seq<ObservationTicket>) -> bool {
    forall|i: int, j: int|
        0 <= i < j < tickets.len() ==> (#[trigger] tickets[i]).identity.execution_id@ != (
        #[trigger] tickets[j]).identity.execution_id@
}

/// The observer of one runtime.
pub struct PhysicalObserverService {
    pub config: PhysicalObserverConfig,
}

impl PhysicalObserverService {
    /// An observer, with the freshness gate of the supervision turned on.
    pub fn new(supervision: &mut SupervisionService, config: PhysicalObserverConfig) -> (service:
        Self)
        ensures
            service.config == config,
            final(supervision).registry == old(supervision).registry,
            final(supervision).heartbeat_interval == old(supervision).heartbeat_interval,
            final(supervision).freshness_limit matches Some(limit) && limit.nanos == span_nanos(
                config.freshness(),
            ),
    {
        supervision.enable_freshness_gate(span(config.freshness_limit));
        PhysicalObserverService { config }
    }

    pub fn config(&self) -> (config: PhysicalObserverConfig)
        ensures
            config == self.config,
    {
        self.config
    }

    /// The snapshots that are due, in order and no more than a batch.
    pub fn select_due(&self, snapshots: Vec<ObservationSnapshot>, now: UnixTime) -> (round:
        ObservationRound)
        ensures
            round.tickets@ == batch_of(
                due_tickets(
                    snapshots@,
                    now,
                    Duration { nanos: span_nanos(self.config.poll()) as u128 },
                ),
                self.config.limit(),
            ),
            round.position == 0,
            round.applied@.len() == 0,
            !round.activation,
    {
        let poll = span(self.config.poll_interval);
        let mut tickets: Vec<ObservationTicket> = Vec::new();
        let mut i: usize = 0;
        while i < snapshots.len()
            invariant
                i <= snapshots@.len(),
                tickets@ == due_tickets(snapshots@.take(i as int), now, poll),
            decreases snapshots.len() - i,
        {
            proof {
                assert(snapshots@.take(i + 1).drop_last() =~= snapshots@.take(i as int));
            }
            if now.has_reached(snapshots[i].last_positive_observed_at, poll) {
                tickets.push(ObservationTicket { identity: snapshots[i].identity.clone() });
            }
            i += 1;
        }
        proof {
            assert(snapshots@.take(i as int) =~= snapshots@);
        }
        if tickets.len() > self.config.batch_limit {
            tickets.truncate(self.config.batch_limit);
        }
        ObservationRound { tickets, position: 0, applied: Vec::new(), activation: false }
    }

    /// The observations that are due now.  As many as the batch allows are taken, each execution
    /// once.
    pub fn observe_due(&self, supervision: &SupervisionService, now: UnixTime) -> (round:
        ObservationRound)
        requires
            supervision.wf(),
        ensures
            round.position == 0,
            round.applied@.len() == 0,
            !round.activation,
            round.tickets@.len() <= self.config.limit(),
            forall|i: int|
                0 <= i < round.tickets@.len() ==> due_now(
                    supervision.registry@,
                    (#[trigger] round.tickets@[i]).identity.execution_id@,
                    now,
                    self.config.poll(),
                ) && is_current(supervision.registry@, round.tickets@[i].identity),
            one_each(round.tickets@),
            round.tickets@.len() < self.config.limit() ==> forall|id: Seq<char>| #[trigger]
                due_now(supervision.registry@, id, now, self.config.poll()) ==> ticketed(
                    round.tickets@,
                    id,
                ),
    {
        let snapshots = supervision.registry.observation_snapshots();
        let ghost all = snapshots@;
        let round = self.select_due(snapshots, now);
        proof {
            let poll = Duration { nanos: span_nanos(self.config.poll()) as u128 };
            let due = due_tickets(all, now, poll);
            assert forall|i: int| 0 <= i < round.tickets@.len() implies due_now(
                supervision.registry@,
                (#[trigger] round.tickets@[i]).identity.execution_id@,
                now,
                self.config.poll(),
            ) && is_current(supervision.registry@, round.tickets@[i].identity) by {
                assert(round.tickets@[i] == due[i]);
                let k = lemma_due_source(all, now, poll, i);
                assert(all[k].identity == due[i].identity);
            }
            assert forall|i: int, j: int| 0 <= i < j < round.tickets@.len() implies (
            #[trigger] round.tickets@[i]).identity.execution_id@ != (
            #[trigger] round.tickets@[j]).identity.execution_id@ by {
                let places = lemma_due_order(all, now, poll, i, j);
                assert(all[places.0].identity.execution_id@
                    != all[places.1].identity.execution_id@);
            }
            if round.tickets@.len() < self.config.limit() {
                assert forall|id: Seq<char>| #[trigger]
                    due_now(supervision.registry@, id, now, self.config.poll()) implies ticketed(
                    round.tickets@,
                    id,
                ) by {
                    assert(supervision.registry@.contains_key(id));
                    let k = choose|k: int|
                        0 <= k < all.len() && (#[trigger] all[k]).identity.execution_id@ == id;
                    assert(observation_due(all[k], now, poll));
                    let i = lemma_due_ticket(all, now, poll, k);
                    assert(round.tickets@[i].identity.execution_id@ == id);
                }
            }
        }
        round
    }

    /// One observation of every supervised execution, for the start of the daemon.
    pub fn activation_sweep(&self, supervision: &SupervisionService) -> (round: ObservationRound)
        requires
            supervision.wf(),
        ensures
            round.position == 0,
            round.applied@.len() == 0,
            round.activation,
            round.tickets@.len() == supervision.registry@.len(),
            forall|i: int|
                0 <= i < round.tickets@.len() ==> is_current(
                    supervision.registry@,
                    (#[trigger] round.tickets@[i]).identity,
                ),
            one_each(round.tickets@),
            forall|id: Seq<char>| #[trigger]
                supervision.registry@.contains_key(id) ==> ticketed(round.tickets@, id),
    {
        let snapshots = supervision.registry.observation_snapshots();
        let mut tickets: Vec<ObservationTicket> = Vec::new();
        let mut i: usize = 0;
        while i < snapshots.len()
            invariant
                i <= snapshots@.len(),
                tickets@.len() == i,
                forall|j: int|
                    0 <= j < i ==> (#[trigger] tickets@[j]).identity == snapshots@[j].identity,
            decreases snapshots.len() - i,
        {
            tickets.push(ObservationTicket { identity: snapshots[i].identity.clone() });
            i += 1;
        }
        proof {
            assert forall|j: int| 0 <= j < tickets@.len() implies is_current(
                supervision.registry@,
                (#[trigger] tickets@[j]).identity,
            ) by {
                assert(tickets@[j].identity == snapshots@[j].identity);
            }
            assert forall|j: int, k: int| 0 <= j < k < tickets@.len() implies (
            #[trigger] tickets@[j]).identity.execution_id@ != (
            #[trigger] tickets@[k]).identity.execution_id@ by {
                assert(tickets@[j].identity == snapshots@[j].identity);
                assert(tickets@[k].identity == snapshots@[k].identity);
            }
            assert forall|id: Seq<char>| #[trigger]
                supervision.registry@.contains_key(id) implies ticketed(tickets@, id) by {
                let k = choose|k: int|
                    0 <= k < snapshots@.len() && (
                    #[trigger] snapshots@[k]).identity.execution_id@ == id;
                assert(tickets@[k].identity.execution_id@ == id);
            }
        }
        ObservationRound { tickets, position: 0, applied: Vec::new(), activation: true }
    }
}

/// The snapshot that a ticket was made for.
proof fn lemma_due_source(
    snapshots: Seq<ObservationSnapshot>,
    now: UnixTime,
    poll: Duration,
    i: int,
) -> (k: int)
    requires
        0 <= i < due_tickets(snapshots, now, poll).len(),
    ensures
        0 <= k < snapshots.len(),
        due_tickets(snapshots, now, poll)[i].identity == snapshots[k].identity,
        observation_due(snapshots[k], now, poll),
    decreases snapshots.len(),
{
    if i < due_tickets(snapshots.drop_last(), now, poll).len() {
        lemma_due_source(snapshots.drop_last(), now, poll, i)
    } else {
        snapshots.len() - 1
    }
}

/// The ticket of a snapshot that is due.
proof fn lemma_due_ticket(
    snapshots: Seq<ObservationSnapshot>,
    now: UnixTime,
    poll: Duration,
    k: int,
) -> (i: int)
    requires
        0 <= k < snapshots.len(),
        observation_due(snapshots[k], now, poll),
    ensures
        0 <= i < due_tickets(snapshots, now, poll).len(),
        due_tickets(snapshots, now, poll)[i].identity == snapshots[k].identity,
    decreases snapshots.len(),
{
    if k < snapshots.len() - 1 {
        lemma_due_ticket(snapshots.drop_last(), now, poll, k)
    } else {
        due_tickets(snapshots, now, poll).len() - 1
    }
}

/// The tickets keep the order of the snapshots.
proof fn lemma_due_order(
    snapshots: Seq<ObservationSnapshot>,
    now: UnixTime,
    poll: Duration,
    i: int,
    j: int,
) -> (places: (int, int))
    requires
        0 <= i < j < due_tickets(snapshots, now, poll).len(),
    ensures
        0 <= places.0 < places.1 < snapshots.len(),
        due_tickets(snapshots, now, poll)[i].identity == snapshots[places.0].identity,
        due_tickets(snapshots, now, poll)[j].identity == snapshots[places.1].identity,
    decreases snapshots.len(),
{
    if j < due_tickets(snapshots.drop_last(), now, poll).len() {
        lemma_due_order(snapshots.drop_last(), now, poll, i, j)
    } else {
        (lemma_due_source(snapshots.drop_last(), now, poll, i), snapshots.len() - 1)
    }
}

// ---------------------------------------------------------------------------------------------
// Laws
// ---------------------------------------------------------------------------------------------

/// Nothing an observation leads to in the registry brings an execution in, gives one up or changes
/// another one; only the answer of the store gives an execution up.
pub proof fn law_evidence_keeps_the_set(
    supervised: Supervised,
    ticket: ObservationTicket,
    kind: PhysicalObservationKind,
    now: UnixTime,
)
    ensures
        supervised_with(supervised, ticket, kind, now).dom() == supervised.dom(),
        forall|id: Seq<char>|
            id != ticket.identity.execution_id@ && supervised.contains_key(id)
                ==> #[trigger] supervised_with(supervised, ticket, kind, now)[id]
                == supervised[id],
{
    assert(supervised_with(supervised, ticket, kind, now).dom() =~= supervised.dom());
}

/// A failed observation is no sighting and no death: the registry stays as it is, and outside of
/// activation the execution stays supervised without a call to the store but for a handle.
pub proof fn law_failed_observation_invents_nothing(
    supervised: Supervised,
    call: AdapterObservation,
    fault: InvocationFault,
    now: UnixTime,
)
    requires
        is_current(supervised, call.ticket.identity),
        !call.activation,
    ensures
        supervised_with(supervised, call.ticket, call.evidence(Err(fault)).kind, now) == supervised,
        fault.runtime_handle_hint is None ==> evidence_applied(
            supervised,
            call.ticket,
            call.evidence(Err(fault)),
        ) == ObserveStep::Finished(Ok(ObserveApply::InvocationIgnored)),
        fault.runtime_handle_hint is Some ==> evidence_applied(
            supervised,
            call.ticket,
            call.evidence(Err(fault)),
        ) is RecordHint,
{
}

/// An observation of an admission that is not current any more leads to no call at all.
pub proof fn law_late_observation_is_dropped(
    supervised: Supervised,
    ticket: ObservationTicket,
    evidence: Evidence,
    now: UnixTime,
)
    requires
        !is_current(supervised, ticket.identity),
    ensures
        evidence_applied(supervised, ticket, evidence) == ObserveStep::Finished(
            Ok(ObserveApply::Dropped),
        ),
        supervised_with(supervised, ticket, evidence.kind, now) == supervised,
{
}

/// An execution whose identity is lost is recorded as LOST without any proof, and the attempt is
/// taken back only after that.
pub proof fn law_lost_identity_proves_nothing(
    supervised: Supervised,
    ticket: ObservationTicket,
    evidence: Evidence,
)
    requires
        is_current(supervised, ticket.identity),
        evidence.kind == PhysicalObservationKind::IdentityLost,
    ensures
        evidence_applied(supervised, ticket, evidence) matches ObserveStep::RecordLost(lost)
            && lost.record.proofless() && lost.record.state == ExecutionState::Lost
            && lost.record.handle == Some(evidence.handle) && lost.next(Ok(()))
            == ObserveStep::NackLost(LostNack { ticket }),
{
}

/// What an observation is, for every state: only a RUNNING without any claim is running, only a
/// TERMINATED without terminal proof has ended, and states that an observation cannot establish
/// break the protocol.
pub proof fn law_observations_are_read(observation: ExecutionObservation)
    ensures
        observation_kind(observation) == PhysicalObservationKind::ExactRunning <==> (
        observation.state == ExecutionState::Running && !observation.terminal_confirmed
            && !observation.quiescent_confirmed),
        observation_kind(observation) == PhysicalObservationKind::PhysicalEnded <==> (
        observation.state == ExecutionState::Terminated && !observation.terminal_confirmed),
        observation_kind(observation) == PhysicalObservationKind::ProtocolInvalid <==> ((
        observation.state == ExecutionState::Running && (observation.terminal_confirmed
            || observation.quiescent_confirmed)) || observation.state == ExecutionState::Succeeded
            || observation.state == ExecutionState::Failed || observation.state
            == ExecutionState::Starting),
        observation_kind(observation) == PhysicalObservationKind::IdentityLost <==> (
        observation.state == ExecutionState::Unknown || observation.state == ExecutionState::Lost
            || (observation.state == ExecutionState::Terminated && observation.terminal_confirmed)),
        observation_kind(observation) != PhysicalObservationKind::InvocationError,
{
}

/// What a reply of the adapter is evidence of: the observation where there is one, and else the
/// error with the handle that came with it; always of the handle that was asked about.
pub proof fn law_replies_are_evidence(
    call: AdapterObservation,
    observation: ExecutionObservation,
    fault: InvocationFault,
)
    ensures
        call.evidence(Ok(observation)) == (Evidence {
            kind: observation_kind(observation),
            handle: call.handle,
            activation: call.activation,
            handle_hint: None,
            artifacts: None,
        }),
        call.evidence(Err(fault)) == (Evidence {
            kind: PhysicalObservationKind::InvocationError,
            handle: call.handle,
            activation: call.activation,
            handle_hint: fault.runtime_handle_hint,
            artifacts: None,
        }),
        AdapterObservation::ended(Ok(observation)) <==> observation.state
            == ExecutionState::Terminated && !observation.terminal_confirmed,
        !AdapterObservation::ended(Err(fault)),
{
}

/// A process that ended is persisted as ended, with the artifacts that were collected, and without
/// any where the collection failed.
pub proof fn law_end_stands_without_artifacts(
    supervised: Supervised,
    call: ArtifactCollection,
    artifacts: Option<JsonValue>,
    error: AdapterError,
)
    requires
        is_current(supervised, call.ticket.identity),
    ensures
        evidence_applied(supervised, call.ticket, call.evidence(Ok(artifacts)))
            == ObserveStep::PersistEnd(
            PhysicalEnd { ticket: call.ticket, handle: call.handle, artifacts },
        ),
        evidence_applied(supervised, call.ticket, call.evidence(Err(error)))
            == ObserveStep::PersistEnd(
            PhysicalEnd { ticket: call.ticket, handle: call.handle, artifacts: None },
        ),
{
}

/// What evidence of a current admission leads to, kind by kind.
pub proof fn law_evidence_leads_on(
    supervised: Supervised,
    ticket: ObservationTicket,
    evidence: Evidence,
)
    requires
        is_current(supervised, ticket.identity),
    ensures
        ({
            let step = evidence_applied(supervised, ticket, evidence);
            match evidence.kind {
                PhysicalObservationKind::ExactRunning => step == ObserveStep::Finished(
                    Ok(ObserveApply::Refreshed),
                ),
                PhysicalObservationKind::InvocationError => match evidence.handle_hint {
                    Some(hint) => step == ObserveStep::RecordHint(
                        HintRecord { ticket, hint, activation: evidence.activation },
                    ),
                    None => step == if evidence.activation {
                        ObserveStep::NackPreserving(PreservingNack { ticket })
                    } else {
                        ObserveStep::Finished(Ok(ObserveApply::InvocationIgnored))
                    },
                },
                PhysicalObservationKind::ProtocolInvalid => step == if evidence.activation {
                    ObserveStep::NackPreserving(PreservingNack { ticket })
                } else {
                    ObserveStep::Finished(Ok(ObserveApply::ProtocolInvalidated))
                },
                PhysicalObservationKind::IdentityLost => step == ObserveStep::RecordLost(
                    LostRecord {
                        ticket,
                        record: PhysicalRecord {
                            execution_id: ticket.identity.execution_id,
                            state: ExecutionState::Lost,
                            handle: Some(evidence.handle),
                            payload: None,
                            failure_class: Some(FailureClass::ExecutionLost),
                            terminal_confirmed: false,
                            quiescent_confirmed: false,
                        },
                    },
                ),
                PhysicalObservationKind::PhysicalEnded => step == ObserveStep::PersistEnd(
                    PhysicalEnd { ticket, handle: evidence.handle, artifacts: evidence.artifacts },
                ),
            }
        }),
{
}

/// What evidence does to the entry of a current admission: a sighting notes its time and lets
/// renewal go on, an error leaves the entry alone, and everything else stops renewal and changes
/// nothing more.
pub proof fn law_evidence_keeps_or_stops_renewal(
    supervised: Supervised,
    ticket: ObservationTicket,
    kind: PhysicalObservationKind,
    now: UnixTime,
)
    requires
        is_current(supervised, ticket.identity),
    ensures
        ({
            let id = ticket.identity.execution_id@;
            let before = supervised[id];
            let after = supervised_with(supervised, ticket, kind, now)[id];
            &&& after.admission == before.admission
            &&& after.last_renewal_at == before.last_renewal_at
            &&& match kind {
                PhysicalObservationKind::ExactRunning => after.last_positive_observed_at == now
                    && after.renewal_eligible,
                PhysicalObservationKind::InvocationError => after == before,
                _ => after.last_positive_observed_at == before.last_positive_observed_at
                    && !after.renewal_eligible,
            }
        }),
{
}

/// How an execution is routed: to the adapter of the durable kind and key with the durable handle,
/// where exactly that is installed; a missing one is named, and a store that fails or a key that is
/// not valid is a fault.
pub proof fn law_observation_is_routed(
    query: RoutingQuery,
    facts: RoutingFacts,
    error: Error,
    installed: spec_fn(Seq<char>, Seq<char>) -> bool,
)
    ensures
        query.next(Err(error), installed) == ObserveStep::Finished(
            Err(ObserverError::Fatal(error)),
        ),
        match facts.adapter_binding_key {
            Err(cause) => query.next(Ok(facts), installed) == ObserveStep::Finished(
                Err(ObserverError::Fatal(Error::InvalidTransition(cause))),
            ),
            Ok(key) => query.next(Ok(facts), installed) == if installed(
                facts.adapter_kind@,
                key@,
            ) {
                ObserveStep::Observe(
                    AdapterObservation {
                        ticket: query.ticket,
                        activation: query.activation,
                        adapter_kind: facts.adapter_kind,
                        adapter_binding_key: key,
                        handle: facts.runtime_handle,
                    },
                )
            } else {
                ObserveStep::Finished(
                    Err(ObserverError::MissingAdapter { adapter_kind: facts.adapter_kind }),
                )
            },
        },
{
}

/// What the store answers to the calls of an observation.
pub proof fn law_store_answers_end_an_observation(
    hint: HintRecord,
    preserving: PreservingNack,
    lost: LostRecord,
    nack: LostNack,
    end: PhysicalEnd,
)
    ensures
        hint.activation ==> hint.next(Ok(())) == ObserveStep::NackPreserving(
            PreservingNack { ticket: hint.ticket },
        ),
        !hint.activation ==> hint.next(Ok(())) == ObserveStep::Finished(
            Ok(ObserveApply::InvocationIgnored),
        ),
        preserving.next(Ok(())) == ObserveStep::Finished(Ok(ObserveApply::ProtocolInvalidated)),
        lost.next(Ok(())) == ObserveStep::NackLost(LostNack { ticket: lost.ticket }),
        nack.next(Ok(())) == ObserveStep::Finished(Ok(ObserveApply::IdentityLost)),
        end.next(Ok(AuthorityConsequence::Applied)) == ObserveStep::Finished(
            Ok(ObserveApply::PhysicalEnded),
        ),
        end.next(Ok(AuthorityConsequence::AuthorityAlreadyStale)) == ObserveStep::Finished(
            Ok(ObserveApply::AuthorityAlreadyStale),
        ),
{
}

/// Lost authority is no fault where the attempt is taken back; in every other call, and for every
/// other error, it is the fault of the observation.
pub proof fn law_only_a_nack_survives_lost_authority(
    hint: HintRecord,
    preserving: PreservingNack,
    lost: LostRecord,
    nack: LostNack,
    end: PhysicalEnd,
    error: Error,
)
    ensures
        ({
            let fault = ObserveStep::Finished(Err(ObserverError::Fatal(error)));
            &&& hint.next(Err(error)) == fault
            &&& lost.next(Err(error)) == fault
            &&& end.next(Err(error)) == fault
            &&& if error is StaleAuthority || error is InvalidAuthority {
                &&& preserving.next(Err(error)) == ObserveStep::Finished(
                    Ok(ObserveApply::AuthorityAlreadyStale),
                )
                &&& nack.next(Err(error)) == ObserveStep::Finished(Ok(ObserveApply::IdentityLost))
            } else {
                preserving.next(Err(error)) == fault && nack.next(Err(error)) == fault
            }
        }),
{
}

/// A ticket is made for each snapshot whose last sighting lies a poll interval back, for its
/// identity, in the order of the snapshots, and for no other.
pub proof fn law_tickets_are_the_due_snapshots(
    snapshots: Seq<ObservationSnapshot>,
    now: UnixTime,
    poll: Duration,
)
    ensures
        due_tickets(snapshots, now, poll) == snapshots.filter(
            |s: ObservationSnapshot|
                s.last_positive_observed_at.nanos + poll.nanos <= now.nanos,
        ).map_values(|s: ObservationSnapshot| ObservationTicket { identity: s.identity }),
    decreases snapshots.len(),
{
    let due = |s: ObservationSnapshot|
        s.last_positive_observed_at.nanos + poll.nanos <= now.nanos;
    let ticket = |s: ObservationSnapshot| ObservationTicket { identity: s.identity };
    reveal(Seq::filter);
    if snapshots.len() > 0 {
        let front = snapshots.drop_last();
        law_tickets_are_the_due_snapshots(front, now, poll);
        if due(snapshots.last()) {
            assert(front.filter(due).push(snapshots.last()).map_values(ticket) =~= front.filter(
                due,
            ).map_values(ticket).push(ticket(snapshots.last())));
        }
    } else {
        assert(snapshots.filter(due).map_values(ticket) =~= Seq::empty());
    }
}

/// The quantities of a timing are looked at in the order in which they are named, and the first
/// that is not finite and positive is the one that is told.
pub proof fn law_first_unusable_is_told(
    poll: Seconds,
    freshness: Seconds,
    batch: usize,
    lease: Seconds,
)
    ensures
        !poll.usable() ==> first_unusable(poll, freshness, batch, lease) == Some("poll_interval"@),
        poll.usable() && !freshness.usable() ==> first_unusable(poll, freshness, batch, lease)
            == Some("freshness_limit"@),
        poll.usable() && freshness.usable() && !lease.usable() ==> first_unusable(
            poll,
            freshness,
            batch,
            lease,
        ) == Some("lease_seconds"@),
        poll.usable() && freshness.usable() && lease.usable() ==> (first_unusable(
            poll,
            freshness,
            batch,
            lease,
        ) == if batch == 0 {
            Some("batch_limit"@)
        } else {
            None
        }),
{
}

/// A number of seconds that an interval can hold lasts that long, and any other for ever.
pub proof fn law_long_spans_last_for_ever(seconds: Seconds)
    ensures
        seconds.representable() ==> span_nanos(seconds) == seconds.nanos(),
        !seconds.representable() ==> span_nanos(seconds) == 340282366920938463463374607431768211455,
{
}

/// The texts of the observer's errors.
pub proof fn law_observer_errors_are_told(field: &'static str, error: Error, adapter_kind: String)
    ensures
        (ObserverConfigError::NonPositive { field }).detail() == "observer "@ + field@
            + " must be finite and positive"@,
        ObserverConfigError::Relation.detail()
            == "observer config must satisfy 0 < poll_interval < freshness_limit < lease_seconds"@,
        ObserverError::Fatal(error).detail() == "physical observer fatal: "@ + error.detail(),
        (ObserverError::MissingAdapter { adapter_kind }).detail()
            == "supervised execution missing installed adapter '"@ + adapter_kind@ + "'"@,
{
}

/// What the store is asked about a lost execution: its attempt back as lost, for the admission that
/// was observed, without proof and without reuse.
pub proof fn law_lost_execution_is_asked_without_proof(nack: LostNack, refuse: NackCommand)
    requires
        nack.asks(refuse),
    ensures
        refuse.attempt_id == nack.ticket.identity.attempt_id,
        refuse.lease_epoch == nack.ticket.identity.lease_epoch,
        refuse.execution_id == nack.ticket.identity.execution_id,
        refuse.failure_class == FailureClass::ExecutionLost,
        !refuse.terminal_confirmed,
        !refuse.quiescent_confirmed,
        !refuse.incarnation_reusable,
{
}

/// A process that is reported as ended is collected from the adapter that was asked, and changes
/// nothing before that; any other reply of a current admission is applied at once.
pub proof fn law_end_is_collected_before_it_counts(
    call: AdapterObservation,
    observation: ExecutionObservation,
    now: UnixTime,
    before: Supervised,
    after: Supervised,
    step: ObserveStep,
)
    requires
        call.leads_to(Ok(observation), now, before, after, step),
        is_current(before, call.ticket.identity),
    ensures
        observation.state == ExecutionState::Terminated && !observation.terminal_confirmed ==> step
            == ObserveStep::CollectArtifacts(
            ArtifactCollection {
                ticket: call.ticket,
                adapter_kind: call.adapter_kind,
                adapter_binding_key: call.adapter_binding_key,
                handle: call.handle,
            },
        ) && after == before,
        observation.state == ExecutionState::Running && !observation.terminal_confirmed
            && !observation.quiescent_confirmed ==> step == ObserveStep::Finished(
            Ok(ObserveApply::Refreshed),
        ) && after.dom() == before.dom()
            && after[call.ticket.identity.execution_id@].last_positive_observed_at == now,
        !(step is CollectArtifacts) ==> (after[call.ticket.identity.execution_id@].renewal_eligible
            <==> observation.state == ExecutionState::Running && !observation.terminal_confirmed
            && !observation.quiescent_confirmed),
{
    law_evidence_keeps_the_set(
        before,
        call.ticket,
        call.evidence(Ok(observation)).kind,
        now,
    );
}

/// An observation that ended takes its execution, and no other, out of supervision, and its
/// admission is used up; after a fault everything is as it was.
pub proof fn law_ended_observation_gives_up_its_execution(
    step: ObserveStep,
    ticket: ObservationTicket,
    before: SupervisionRegistry,
    after: SupervisionRegistry,
)
    requires
        gives_up(step, ticket, before, after),
        step is Finished,
        is_current(before@, ticket.identity),
    ensures
        step->Finished_0 is Ok ==> after@ == before@.remove(ticket.identity.execution_id@)
            && after.consumed() == before.consumed().insert(ticket.identity.generation),
        step->Finished_0 is Err ==> after@ == before@ && after.consumed() == before.consumed(),
{
}

/// A batch takes the first tickets, as many as it holds, in their order.
pub proof fn law_batch_takes_the_first(due: Seq<ObservationTicket>, limit: usize)
    ensures
        batch_of(due, limit).len() == if due.len() <= limit {
            due.len() as int
        } else {
            limit as int
        },
        forall|i: int|
            0 <= i < batch_of(due, limit).len() ==> #[trigger] batch_of(due, limit)[i] == due[i],
{
}

/// A round of observations without a fault, up to where it stands.
pub open spec fn observation_run(rounds: Seq<ObservationRound>, applied: Seq<ObserveApply>) -> bool {
    &&& rounds.len() == applied.len() + 1
    &&& rounds[0].position == 0
    &&& rounds[0].applied@.len() == 0
    &&& forall|k: int|
        0 <= k < applied.len() ==> (#[trigger] rounds[k]).upcoming() is Some && rounds[k].settles_to(
            Ok(applied[k]),
            rounds[k + 1],
            Ok(()),
        )
}

/// The tickets of a round are observed in their order, each once, as part of the same round, and
/// what became of each is noted at its place.
pub proof fn law_observation_round_follows_its_tickets(
    rounds: Seq<ObservationRound>,
    applied: Seq<ObserveApply>,
    k: int,
)
    requires
        observation_run(rounds, applied),
        0 <= k <= applied.len(),
    ensures
        rounds[k].tickets == rounds[0].tickets,
        rounds[k].activation == rounds[0].activation,
        rounds[k].position == k,
        rounds[k].applied@ == applied.take(k),
        k < applied.len() ==> k < rounds[0].tickets@.len() && rounds[k].upcoming() == Some(
            ObserveStep::Route(
                RoutingQuery {
                    ticket: rounds[0].tickets@[k],
                    activation: rounds[0].activation,
                },
            ),
        ),
    decreases k,
{
    if k > 0 {
        law_observation_round_follows_its_tickets(rounds, applied, k - 1);
        assert(rounds[k - 1].upcoming() is Some && rounds[k - 1].settles_to(
            Ok(applied[k - 1]),
            rounds[k - 1 + 1],
            Ok(()),
        ));
        assert(applied.take(k) =~= applied.take(k - 1).push(applied[k - 1]));
    } else {
        assert(rounds[0].applied@ =~= applied.take(0));
    }
    if k < applied.len() {
        assert(rounds[k].upcoming() is Some);
    }
}

/// A round that has no further observation has observed every ticket.
pub proof fn law_observation_round_is_complete(
    rounds: Seq<ObservationRound>,
    applied: Seq<ObserveApply>,
)
    requires
        observation_run(rounds, applied),
        rounds.last().upcoming() is None,
    ensures
        applied.len() == rounds[0].tickets@.len(),
{
    let n = applied.len() as int;
    law_observation_round_follows_its_tickets(rounds, applied, n);
    if n > 0 {
        law_observation_round_follows_its_tickets(rounds, applied, n - 1);
    }
}

/// A fault leaves a round of observations where it is, and is handed on.
pub proof fn law_faulted_observation_stays(
    round: ObservationRound,
    error: ObserverError,
    after: ObservationRound,
    settled: Result<(), ObserverError>,
)
    requires
        round.settles_to(Err(error), after, settled),
    ensures
        after == round,
        settled == Err::<(), ObserverError>(error),
{
}

/// The evidence of a collection is a process that ended, with the handle that was asked about, apart
/// from any activation, and with the artifacts if there are any.
pub proof fn law_collection_is_evidence_of_an_end(
    call: ArtifactCollection,
    reply: Result<Option<JsonValue>, AdapterError>,
)
    ensures
        call.evidence(reply).kind == PhysicalObservationKind::PhysicalEnded,
        call.evidence(reply).handle == call.handle,
        !call.evidence(reply).activation,
        call.evidence(reply).handle_hint is None,
        reply matches Ok(artifacts) ==> call.evidence(reply).artifacts == artifacts,
        reply is Err ==> call.evidence(reply).artifacts is None,
{
}

/// An execution is due exactly if it is supervised and its last sighting lies a poll interval back.
pub proof fn law_due_means_supervised_and_unseen(
    supervised: Supervised,
    id: Seq<char>,
    now: UnixTime,
    poll: Seconds,
)
    requires
        span_nanos(poll) <= u128::MAX,
    ensures
        due_now(supervised, id, now, poll) <==> supervised.contains_key(id)
            && supervised[id].last_positive_observed_at.nanos + span_nanos(poll) <= now.nanos,
{
}

/// One ticket is one of each, and more of them are if none repeats an execution that has one.
pub proof fn law_tickets_are_counted_by_execution(
    tickets: Seq<ObservationTicket>,
    ticket: ObservationTicket,
    id: Seq<char>,
)
    ensures
        one_each(Seq::empty()),
        !ticketed(Seq::empty(), id),
        one_each(tickets.push(ticket)) <==> one_each(tickets) && !ticketed(
            tickets,
            ticket.identity.execution_id@,
        ),
        ticketed(tickets.push(ticket), id) <==> ticketed(tickets, id)
            || ticket.identity.execution_id@ == id,
{
    let more = tickets.push(ticket);
    let n = tickets.len() as int;
    assert(more[n] == ticket);
    assert(forall|i: int| 0 <= i < n ==> more[i] == tickets[i]);
    if one_each(more) {
        assert forall|i: int, j: int| 0 <= i < j < n implies (
        #[trigger] tickets[i]).identity.execution_id@ != (
        #[trigger] tickets[j]).identity.execution_id@ by {
            assert(more[i].identity.execution_id@ != more[j].identity.execution_id@);
        }
        if ticketed(tickets, ticket.identity.execution_id@) {
            let i = choose|i: int|
                0 <= i < tickets.len() && (#[trigger] tickets[i]).identity.execution_id@
                    == ticket.identity.execution_id@;
            assert(more[i].identity.execution_id@ != more[n].identity.execution_id@);
        }
    }
    if one_each(tickets) && !ticketed(tickets, ticket.identity.execution_id@) {
        assert forall|i: int, j: int| 0 <= i < j < more.len() implies (
        #[trigger] more[i]).identity.execution_id@ != (#[trigger] more[j]).identity.execution_id@ by {
            assert(tickets[i] == more[i]);
            if j < n {
                assert(tickets[j] == more[j]);
            }
        }
    }
    if ticketed(tickets, id) {
        let i = choose|i: int|
            0 <= i < tickets.len() && (#[trigger] tickets[i]).identity.execution_id@ == id;
        assert(more[i].identity.execution_id@ == id);
    }
    if ticketed(more, id) {
        let i = choose|i: int|
            0 <= i < more.len() && (#[trigger] more[i]).identity.execution_id@ == id;
        if i < n {
            assert(tickets[i].identity.execution_id@ == id);
        }
    }
}

} // verus!

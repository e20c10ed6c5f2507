//! Dispatch: one scheduler claim becomes at most one physical start.
//!
//! The order is authority, configuration, installed adapter, durable execution, physical start,
//! and then the durable consequence of what was observed.  Nothing is started before the first
//! four have succeeded, and nothing an adapter says is taken for proof unless the collected
//! outcome is consistent with itself.
use crate::adapters::{AdapterRegistry, AdapterUnavailable};
use crate::domain::{
    copy_json, copy_text, payload_or_null, payload_text, AckCommand, AdapterError, AttemptId,
    AuthoritativeExecutionBinding, Claim, ConfirmCommand, Error, ExecutionId,
    ExecutionLaunchSnapshot, ExecutionOutcome, ExecutionState, FailureClass, JsonValue, LeaseEpoch,
    NackCommand, PhysicalRecord, RequestId, ResolutionError, ResolvedExecutionEnvironment, ResultId,
    StartObservation,
};
use crate::observation::{
    normalize_start_observation, outcome_kind, start_kind, ExecutionOutcomeKind,
    StartObservationKind,
};
use crate::text::join2;
use vstd::prelude::*;

verus! {

/// What an adapter invocation error says about a start: a start may have failed.
pub open spec fn start_error_class(error: AdapterError) -> FailureClass {
    match error {
        AdapterError::Unavailable(_) => FailureClass::ResourceUnavailable,
        AdapterError::DeadlineExceeded(_) => FailureClass::Timeout,
        AdapterError::Protocol(_) => FailureClass::AdapterProtocolFailure,
        AdapterError::Other(_) => FailureClass::StartFailure,
    }
}

/// Failure class of an error that the adapter raised while it was asked to start, or to collect
/// after a start.  No provider text is parsed.
pub fn adapter_invocation_failure_class(err: &AdapterError) -> (class: FailureClass)
    ensures
        class == start_error_class(*err),
{
    match err {
        AdapterError::Unavailable(_) => FailureClass::ResourceUnavailable,
        AdapterError::DeadlineExceeded(_) => FailureClass::Timeout,
        AdapterError::Protocol(_) => FailureClass::AdapterProtocolFailure,
        AdapterError::Other(_) => FailureClass::StartFailure,
    }
}

/// Why a dispatch could not be composed or carried out.
#[derive(Debug, PartialEq, Eq)]
pub enum DispatchError {
    /// Durable authority rejected the claim.
    Authority(Error),
    /// The target, the profile, or their combination is not configured.
    Configuration(ResolutionError),
    /// The configured adapter is not installed.
    AdapterAvailability(AdapterUnavailable),
    /// The adapter raised an error.
    AdapterInvocation(AdapterError),
    /// The store failed after the start.
    Persistence(Error),
}

impl DispatchError {
    /// Only failures of composition and of the adapter have a task failure class.
    pub open spec fn failure_class(self) -> Option<FailureClass> {
        match self {
            DispatchError::Authority(_) => None,
            DispatchError::Persistence(_) => None,
            DispatchError::Configuration(_) => Some(FailureClass::ResourceUnavailable),
            DispatchError::AdapterAvailability(_) => Some(FailureClass::ResourceUnavailable),
            DispatchError::AdapterInvocation(err) => Some(start_error_class(err)),
        }
    }

    pub fn standard_failure_class(&self) -> (class: Option<FailureClass>)
        ensures
            class == self.failure_class(),
    {
        match self {
            DispatchError::Authority(_) => None,
            DispatchError::Persistence(_) => None,
            DispatchError::Configuration(_) => Some(FailureClass::ResourceUnavailable),
            DispatchError::AdapterAvailability(_) => Some(FailureClass::ResourceUnavailable),
            DispatchError::AdapterInvocation(err) => Some(adapter_invocation_failure_class(err)),
        }
    }

    pub open spec fn detail(self) -> Seq<char> {
        match self {
            DispatchError::Authority(e) => "dispatch authority rejected: "@ + e.detail(),
            DispatchError::Configuration(e) => "dispatch configuration unavailable: "@ + e.detail(),
            DispatchError::AdapterAvailability(e) => "dispatch adapter unavailable: "@ + e.detail(),
            DispatchError::AdapterInvocation(e) => "dispatch adapter invocation failed: "@
                + e.detail(),
            DispatchError::Persistence(e) => "dispatch persistence failed: "@ + e.detail(),
        }
    }

    pub fn message(&self) -> (text: String)
        ensures
            text@ == self.detail(),
    {
        match self {
            DispatchError::Authority(e) => join2("dispatch authority rejected: ", e.message()),
            DispatchError::Configuration(e) => join2(
                "dispatch configuration unavailable: ",
                e.message(),
            ),
            DispatchError::AdapterAvailability(e) => join2(
                "dispatch adapter unavailable: ",
                e.message().as_str(),
            ),
            DispatchError::AdapterInvocation(e) => join2(
                "dispatch adapter invocation failed: ",
                e.message(),
            ),
            DispatchError::Persistence(e) => join2("dispatch persistence failed: ", e.message()),
        }
    }
}

// ---------------------------------------------------------------------------------------------
// Composition: authority, configuration, installed adapter
// ---------------------------------------------------------------------------------------------

/// Everything a physical start needs: the durable binding and the configuration it resolves to,
/// for which an adapter is installed.
#[derive(Debug, PartialEq, Eq)]
pub struct ResolvedPhysicalExecutionEnvironment {
    pub binding: AuthoritativeExecutionBinding,
    pub environment: ResolvedExecutionEnvironment,
}

impl ResolvedPhysicalExecutionEnvironment {
    pub fn binding(&self) -> (binding: &AuthoritativeExecutionBinding)
        ensures
            *binding == self.binding,
    {
        &self.binding
    }

    pub fn environment(&self) -> (environment: &ResolvedExecutionEnvironment)
        ensures
            *environment == self.environment,
    {
        &self.environment
    }

    pub fn attempt_isolation(&self) -> (isolation: bool)
        ensures
            isolation == self.environment.attempt_isolation,
    {
        self.environment.attempt_isolation
    }
}

/// Asks the store for the durable binding of a claim.
#[derive(Debug, PartialEq, Eq)]
pub struct BindingQuery {
    pub claim: Claim,
}

/// Asks the configuration registry for the environment of a durable binding.
#[derive(Debug, PartialEq, Eq)]
pub struct EnvironmentQuery {
    pub claim: Claim,
    pub binding: AuthoritativeExecutionBinding,
}

/// Where composition stands.
#[derive(Debug, PartialEq, Eq)]
pub enum CompositionStep {
    ResolveBinding(BindingQuery),
    ResolveEnvironment(EnvironmentQuery),
    Composed(Claim, ResolvedPhysicalExecutionEnvironment),
    Refused(Claim, DispatchError),
}

impl BindingQuery {
    /// Rejected authority ends composition; no configuration is looked at.
    pub open spec fn next(self, reply: Result<AuthoritativeExecutionBinding, Error>) -> CompositionStep {
        match reply {
            Ok(binding) => CompositionStep::ResolveEnvironment(
                EnvironmentQuery { claim: self.claim, binding },
            ),
            Err(error) => CompositionStep::Refused(self.claim, DispatchError::Authority(error)),
        }
    }

    pub fn resume(self, reply: Result<AuthoritativeExecutionBinding, Error>) -> (step:
        CompositionStep)
        ensures
            step == self.next(reply),
    {
        match reply {
            Ok(binding) => CompositionStep::ResolveEnvironment(
                EnvironmentQuery { claim: self.claim, binding },
            ),
            Err(error) => CompositionStep::Refused(self.claim, DispatchError::Authority(error)),
        }
    }
}

impl EnvironmentQuery {
    /// The environment counts only if its adapter is installed.
    pub open spec fn next(
        self,
        reply: Result<ResolvedExecutionEnvironment, ResolutionError>,
        installed: spec_fn(Seq<char>) -> bool,
    ) -> CompositionStep {
        match reply {
            Err(error) => CompositionStep::Refused(self.claim, DispatchError::Configuration(error)),
            Ok(environment) => if installed(environment.adapter_kind@) {
                CompositionStep::Composed(
                    self.claim,
                    ResolvedPhysicalExecutionEnvironment { binding: self.binding, environment },
                )
            } else {
                CompositionStep::Refused(
                    self.claim,
                    DispatchError::AdapterAvailability(
                        AdapterUnavailable { adapter_kind: environment.adapter_kind },
                    ),
                )
            },
        }
    }

    pub fn resume<A>(
        self,
        reply: Result<ResolvedExecutionEnvironment, ResolutionError>,
        adapters: &AdapterRegistry<A>,
    ) -> (step: CompositionStep)
        ensures
            step == self.next(reply, |kind: Seq<char>| adapters.installs(kind)),
    {
        match reply {
            Err(error) => CompositionStep::Refused(self.claim, DispatchError::Configuration(error)),
            Ok(environment) => {
                if adapters.resolve(environment.adapter_kind.as_str()).is_ok() {
                    CompositionStep::Composed(
                        self.claim,
                        ResolvedPhysicalExecutionEnvironment { binding: self.binding, environment },
                    )
                } else {
                    CompositionStep::Refused(
                        self.claim,
                        DispatchError::AdapterAvailability(
                            AdapterUnavailable { adapter_kind: environment.adapter_kind },
                        ),
                    )
                }
            },
        }
    }
}

/// Starts the composition of the physical environment of a claim.
pub fn resolve_physical_execution_environment(claim: Claim) -> (step: CompositionStep)
    ensures
        step == CompositionStep::ResolveBinding(BindingQuery { claim }),
{
    CompositionStep::ResolveBinding(BindingQuery { claim })
}

// ---------------------------------------------------------------------------------------------
// Outcomes
// ---------------------------------------------------------------------------------------------

/// The identity that the fenced RUNNING confirmation has just confirmed.
#[derive(Debug, PartialEq, Eq)]
pub struct SupervisionAdmissionSeed {
    pub execution_id: ExecutionId,
    pub request_id: RequestId,
    pub attempt_id: AttemptId,
    pub lease_epoch: LeaseEpoch,
}

impl SupervisionAdmissionSeed {
    pub fn execution_id(&self) -> (id: &ExecutionId)
        ensures
            *id == self.execution_id,
    {
        &self.execution_id
    }

    pub fn request_id(&self) -> (id: &RequestId)
        ensures
            *id == self.request_id,
    {
        &self.request_id
    }

    pub fn attempt_id(&self) -> (id: &AttemptId)
        ensures
            *id == self.attempt_id,
    {
        &self.attempt_id
    }

    pub fn lease_epoch(&self) -> (epoch: LeaseEpoch)
        ensures
            epoch == self.lease_epoch,
    {
        self.lease_epoch
    }
}

/// How one dispatch ended.
#[derive(Debug, PartialEq, Eq)]
pub enum DispatchOneOutcome {
    /// Nothing was claimable.
    NoWork,
    /// The claim was rejected.  Nothing exists and nothing was changed.
    AuthorityRejected,
    /// Composition failed before any start, and the store was told so.
    ConfigurationUnavailable { detail: String },
    /// RUNNING was confirmed and the lease renewed in one transaction.
    StartedRunning { admission: SupervisionAdmissionSeed },
    /// A start may have had effects, and what became of it is unresolved.
    StartAmbiguous { execution_id: ExecutionId, request_id: RequestId },
    /// The start failed.
    StartFailed { execution_id: ExecutionId, request_id: RequestId, failure_class: FailureClass },
    /// The execution succeeded within the start.  No result means that writer safety suspended
    /// the task.
    CompletedSynchronously {
        execution_id: ExecutionId,
        request_id: RequestId,
        result_id: Option<ResultId>,
    },
}

/// An execution that exists durably, under the claim that it was created for.
#[derive(Debug, PartialEq, Eq)]
pub struct LaunchedExecution {
    pub claim: Claim,
    pub execution_id: ExecutionId,
    pub request_id: RequestId,
}

/// How an unresolved start is reported.
#[derive(Debug, Clone, Copy, PartialEq, Eq, Structural)]
pub enum StartVerdict {
    Ambiguous,
    Failed,
}

impl LaunchedExecution {
    pub open spec fn seed(self) -> SupervisionAdmissionSeed {
        SupervisionAdmissionSeed {
            execution_id: self.execution_id,
            request_id: self.request_id,
            attempt_id: self.claim.attempt_id,
            lease_epoch: self.claim.lease_epoch,
        }
    }

    pub open spec fn ambiguous(self) -> DispatchOneOutcome {
        DispatchOneOutcome::StartAmbiguous {
            execution_id: self.execution_id,
            request_id: self.request_id,
        }
    }

    pub open spec fn failed(self, failure_class: FailureClass) -> DispatchOneOutcome {
        DispatchOneOutcome::StartFailed {
            execution_id: self.execution_id,
            request_id: self.request_id,
            failure_class,
        }
    }

    pub open spec fn reported(
        self,
        verdict: StartVerdict,
        failure_class: FailureClass,
    ) -> DispatchOneOutcome {
        match verdict {
            StartVerdict::Ambiguous => self.ambiguous(),
            StartVerdict::Failed => self.failed(failure_class),
        }
    }

    fn into_outcome(self, verdict: StartVerdict, failure_class: FailureClass) -> (outcome:
        DispatchOneOutcome)
        ensures
            outcome == self.reported(verdict, failure_class),
    {
        match verdict {
            StartVerdict::Ambiguous => DispatchOneOutcome::StartAmbiguous {
                execution_id: self.execution_id,
                request_id: self.request_id,
            },
            StartVerdict::Failed => DispatchOneOutcome::StartFailed {
                execution_id: self.execution_id,
                request_id: self.request_id,
                failure_class,
            },
        }
    }
}

// ---------------------------------------------------------------------------------------------
// Steps
// ---------------------------------------------------------------------------------------------

/// Asks the store for the next available claim.
#[derive(Debug, PartialEq, Eq)]
pub struct ClaimQuery {}

/// Tells the store that composition failed before any start.
#[derive(Debug, PartialEq, Eq)]
pub struct UnavailableReport {
    pub claim: Claim,
    pub cause: DispatchError,
}

/// Asks the store to create and freeze the execution.
#[derive(Debug, PartialEq, Eq)]
pub struct ExecutionCreation {
    pub claim: Claim,
    pub physical: ResolvedPhysicalExecutionEnvironment,
}

/// Asks for the worker request of the launch snapshot in the composed environment.  The claim is
/// kept for the authority that it is, and is no part of what the request is assembled from.
#[derive(Debug, PartialEq, Eq)]
pub struct RequestAssembly {
    pub claim: Claim,
    pub snapshot: ExecutionLaunchSnapshot,
    pub physical: ResolvedPhysicalExecutionEnvironment,
}

/// Asks the adapter to start.
#[derive(Debug, PartialEq, Eq)]
pub struct PhysicalStart {
    pub launch: LaunchedExecution,
    pub adapter_kind: String,
}

/// Asks the store to confirm RUNNING and renew the lease in one fenced transaction.
#[derive(Debug, PartialEq, Eq)]
pub struct RunningConfirmation {
    pub launch: LaunchedExecution,
    pub handle: JsonValue,
}

/// Asks the adapter for the outcome of an execution that claims to have ended.
#[derive(Debug, PartialEq, Eq)]
pub struct OutcomeCollection {
    pub launch: LaunchedExecution,
    pub adapter_kind: String,
    pub handle: JsonValue,
}

/// Asks the store to accept a success.
#[derive(Debug, PartialEq, Eq)]
pub struct SuccessAck {
    pub launch: LaunchedExecution,
    pub handle: JsonValue,
    pub outcome: ExecutionOutcome,
}

/// Asks the store to take the attempt back.  The incarnation is never reused on this path.
#[derive(Debug, PartialEq, Eq)]
pub struct StartNack {
    pub launch: LaunchedExecution,
    pub failure_class: FailureClass,
    pub terminal_confirmed: bool,
    pub quiescent_confirmed: bool,
    pub handle: Option<JsonValue>,
    pub verdict: StartVerdict,
}

/// What follows once a physical record is durable.
#[derive(Debug, PartialEq, Eq)]
pub enum AfterRecord {
    Nack(StartNack),
    Retain { record: PhysicalRecord, outcome: DispatchOneOutcome },
    Finish(DispatchOneOutcome),
}

/// Asks the store to write physical history.
#[derive(Debug, PartialEq, Eq)]
pub struct HistoryRecord {
    pub record: PhysicalRecord,
    pub after: AfterRecord,
}

/// Where a dispatch stands.
#[derive(Debug, PartialEq, Eq)]
pub enum DispatchStep {
    ClaimNext(ClaimQuery),
    ResolveBinding(BindingQuery),
    ResolveEnvironment(EnvironmentQuery),
    ReportUnavailable(UnavailableReport),
    CreateExecution(ExecutionCreation),
    AssembleRequest(RequestAssembly),
    StartPhysical(PhysicalStart),
    ConfirmRunning(RunningConfirmation),
    CollectOutcome(OutcomeCollection),
    AckSuccess(SuccessAck),
    NackStart(StartNack),
    RecordHistory(HistoryRecord),
    Finished(Result<DispatchOneOutcome, DispatchError>),
}

/// The record of an unresolved observation: UNKNOWN, with the handle and without any proof.
pub open spec fn unresolved_record(
    execution_id: ExecutionId,
    handle: JsonValue,
    failure_class: Option<FailureClass>,
) -> PhysicalRecord {
    PhysicalRecord {
        execution_id,
        state: ExecutionState::Unknown,
        handle: Some(handle),
        payload: None,
        failure_class,
        terminal_confirmed: false,
        quiescent_confirmed: false,
    }
}

/// A NACK without terminal or quiescence proof.
pub open spec fn proofless_nack(
    launch: LaunchedExecution,
    failure_class: FailureClass,
    handle: Option<JsonValue>,
    verdict: StartVerdict,
) -> StartNack {
    StartNack {
        launch,
        failure_class,
        terminal_confirmed: false,
        quiescent_confirmed: false,
        handle,
        verdict,
    }
}

/// An unresolved start: the observed handle is made durable first, then the attempt is taken
/// back without proof.
pub open spec fn unresolved(
    launch: LaunchedExecution,
    failure_class: FailureClass,
    handle: Option<JsonValue>,
    verdict: StartVerdict,
) -> DispatchStep {
    let nack = proofless_nack(launch, failure_class, handle, verdict);
    match handle {
        None => DispatchStep::NackStart(nack),
        Some(observed) => DispatchStep::RecordHistory(
            HistoryRecord {
                record: unresolved_record(launch.execution_id, observed, Some(failure_class)),
                after: AfterRecord::Nack(nack),
            },
        ),
    }
}

fn persist_unresolved_physical_then_nack(
    launch: LaunchedExecution,
    failure_class: FailureClass,
    observed_handle: Option<JsonValue>,
    verdict: StartVerdict,
) -> (step: DispatchStep)
    ensures
        step == unresolved(launch, failure_class, observed_handle, verdict),
{
    let execution_id = launch.execution_id.clone();
    let recorded = copy_json(&observed_handle);
    let nack = StartNack {
        launch,
        failure_class,
        terminal_confirmed: false,
        quiescent_confirmed: false,
        handle: observed_handle,
        verdict,
    };
    if recorded.is_none() {
        return DispatchStep::NackStart(nack);
    }
    DispatchStep::RecordHistory(
        HistoryRecord {
            record: PhysicalRecord {
                execution_id,
                state: ExecutionState::Unknown,
                handle: recorded,
                payload: None,
                failure_class: Some(failure_class),
                terminal_confirmed: false,
                quiescent_confirmed: false,
            },
            after: AfterRecord::Nack(nack),
        },
    )
}

/// What a start observation leads to, by its kind: exact RUNNING is confirmed, a claimed end must
/// be collected, and everything else is unresolved.
pub open spec fn start_committed(
    launch: LaunchedExecution,
    adapter_kind: String,
    observation: StartObservation,
) -> DispatchStep {
    let handle = observation.runtime_handle;
    match start_kind(observation) {
        StartObservationKind::ExactRunning => DispatchStep::ConfirmRunning(
            RunningConfirmation { launch, handle },
        ),
        StartObservationKind::TerminalCandidate => DispatchStep::CollectOutcome(
            OutcomeCollection { launch, adapter_kind, handle },
        ),
        StartObservationKind::Unresolved { failure_class } => unresolved(
            launch,
            failure_class,
            Some(handle),
            StartVerdict::Ambiguous,
        ),
    }
}

fn commit_start_observation(
    launch: LaunchedExecution,
    adapter_kind: String,
    observation: StartObservation,
) -> (step: DispatchStep)
    ensures
        step == start_committed(launch, adapter_kind, observation),
{
    match normalize_start_observation(&observation) {
        StartObservationKind::ExactRunning => DispatchStep::ConfirmRunning(
            RunningConfirmation { launch, handle: observation.runtime_handle },
        ),
        StartObservationKind::TerminalCandidate => DispatchStep::CollectOutcome(
            OutcomeCollection { launch, adapter_kind, handle: observation.runtime_handle },
        ),
        StartObservationKind::Unresolved { failure_class } => {
            persist_unresolved_physical_then_nack(
                launch,
                failure_class,
                Some(observation.runtime_handle),
                StartVerdict::Ambiguous,
            )
        },
    }
}

/// The failure class of an outcome that contradicts itself: an active state with terminal proof,
/// LOST with any proof, success without terminal proof, or quiescence without terminal proof.
pub open spec fn contradiction(outcome: ExecutionOutcome) -> Option<FailureClass> {
    if outcome.terminal_confirmed && outcome.state.active() {
        Some(FailureClass::AdapterProtocolFailure)
    } else if outcome.state == ExecutionState::Lost && (outcome.terminal_confirmed
        || outcome.quiescent_confirmed) {
        Some(FailureClass::AdapterProtocolFailure)
    } else if outcome.state == ExecutionState::Succeeded && !outcome.terminal_confirmed {
        Some(FailureClass::InvalidResult)
    } else if outcome.quiescent_confirmed && !outcome.terminal_confirmed {
        Some(FailureClass::AdapterProtocolFailure)
    } else {
        None
    }
}

/// The given class, or the default.
pub open spec fn class_or(class: Option<FailureClass>, default: FailureClass) -> FailureClass {
    match class {
        Some(known) => known,
        None => default,
    }
}

/// What a collected outcome leads to.  Only a success with terminal proof is acknowledged.
pub open spec fn outcome_committed(
    launch: LaunchedExecution,
    handle: JsonValue,
    outcome: ExecutionOutcome,
) -> DispatchStep {
    match contradiction(outcome) {
        Some(class) => unresolved(launch, class, Some(handle), StartVerdict::Failed),
        None => if !outcome.terminal_confirmed {
            unresolved(
                launch,
                class_or(outcome.failure_class, FailureClass::ExecutionLost),
                Some(handle),
                StartVerdict::Ambiguous,
            )
        } else if outcome.state == ExecutionState::Succeeded {
            DispatchStep::AckSuccess(SuccessAck { launch, handle, outcome })
        } else {
            DispatchStep::NackStart(
                StartNack {
                    launch,
                    failure_class: class_or(outcome.failure_class, FailureClass::StartFailure),
                    terminal_confirmed: true,
                    quiescent_confirmed: outcome.quiescent_confirmed,
                    handle: Some(handle),
                    verdict: StartVerdict::Failed,
                },
            )
        },
    }
}

fn commit_collected_outcome(
    launch: LaunchedExecution,
    observed_handle: JsonValue,
    outcome: ExecutionOutcome,
) -> (step: DispatchStep)
    ensures
        step == outcome_committed(launch, observed_handle, outcome),
{
    if outcome.terminal_confirmed && outcome.state.is_active_physical() {
        return persist_unresolved_physical_then_nack(
            launch,
            FailureClass::AdapterProtocolFailure,
            Some(observed_handle),
            StartVerdict::Failed,
        );
    }
    if outcome.state == ExecutionState::Lost && (outcome.terminal_confirmed
        || outcome.quiescent_confirmed) {
        return persist_unresolved_physical_then_nack(
            launch,
            FailureClass::AdapterProtocolFailure,
            Some(observed_handle),
            StartVerdict::Failed,
        );
    }
    if outcome.state == ExecutionState::Succeeded && !outcome.terminal_confirmed {
        return persist_unresolved_physical_then_nack(
            launch,
            FailureClass::InvalidResult,
            Some(observed_handle),
            StartVerdict::Failed,
        );
    }
    if outcome.quiescent_confirmed && !outcome.terminal_confirmed {
        return persist_unresolved_physical_then_nack(
            launch,
            FailureClass::AdapterProtocolFailure,
            Some(observed_handle),
            StartVerdict::Failed,
        );
    }
    if outcome.terminal_confirmed {
        if outcome.state == ExecutionState::Succeeded {
            return DispatchStep::AckSuccess(
                SuccessAck { launch, handle: observed_handle, outcome },
            );
        }
        let failure_class = match outcome.failure_class {
            Some(known) => known,
            None => FailureClass::StartFailure,
        };
        return DispatchStep::NackStart(
            StartNack {
                launch,
                failure_class,
                terminal_confirmed: true,
                quiescent_confirmed: outcome.quiescent_confirmed,
                handle: Some(observed_handle),
                verdict: StartVerdict::Failed,
            },
        );
    }
    let failure_class = match outcome.failure_class {
        Some(known) => known,
        None => FailureClass::ExecutionLost,
    };
    persist_unresolved_physical_then_nack(
        launch,
        failure_class,
        Some(observed_handle),
        StartVerdict::Ambiguous,
    )
}

impl ClaimQuery {
    pub open spec fn next(self, reply: Result<Option<Claim>, Error>) -> DispatchStep {
        match reply {
            Err(error) => DispatchStep::Finished(Err(DispatchError::Persistence(error))),
            Ok(None) => DispatchStep::Finished(Ok(DispatchOneOutcome::NoWork)),
            Ok(Some(claim)) => DispatchStep::ResolveBinding(BindingQuery { claim }),
        }
    }

    pub fn resume(self, reply: Result<Option<Claim>, Error>) -> (step: DispatchStep)
        ensures
            step == self.next(reply),
    {
        match reply {
            Err(error) => DispatchStep::Finished(Err(DispatchError::Persistence(error))),
            Ok(None) => DispatchStep::Finished(Ok(DispatchOneOutcome::NoWork)),
            Ok(Some(claim)) => DispatchStep::ResolveBinding(BindingQuery { claim }),
        }
    }
}

/// How a dispatch goes on from composition: rejected authority ends it, a missing configuration
/// or adapter is reported, and a composed environment leads to a durable execution.
pub open spec fn composition_continued(step: CompositionStep) -> DispatchStep {
    match step {
        CompositionStep::ResolveBinding(query) => DispatchStep::ResolveBinding(query),
        CompositionStep::ResolveEnvironment(query) => DispatchStep::ResolveEnvironment(query),
        CompositionStep::Composed(claim, physical) => DispatchStep::CreateExecution(
            ExecutionCreation { claim, physical },
        ),
        CompositionStep::Refused(claim, cause) => match cause {
            DispatchError::Authority(_) => DispatchStep::Finished(
                Ok(DispatchOneOutcome::AuthorityRejected),
            ),
            DispatchError::Configuration(_) => DispatchStep::ReportUnavailable(
                UnavailableReport { claim, cause },
            ),
            DispatchError::AdapterAvailability(_) => DispatchStep::ReportUnavailable(
                UnavailableReport { claim, cause },
            ),
            _ => DispatchStep::Finished(Err(cause)),
        },
    }
}

/// Continues the dispatch of a claim from where composition stands.
pub fn continue_dispatch(step: CompositionStep) -> (next: DispatchStep)
    ensures
        next == composition_continued(step),
{
    match step {
        CompositionStep::ResolveBinding(query) => DispatchStep::ResolveBinding(query),
        CompositionStep::ResolveEnvironment(query) => DispatchStep::ResolveEnvironment(query),
        CompositionStep::Composed(claim, physical) => DispatchStep::CreateExecution(
            ExecutionCreation { claim, physical },
        ),
        CompositionStep::Refused(claim, cause) => {
            if matches!(cause, DispatchError::Authority(_)) {
                DispatchStep::Finished(Ok(DispatchOneOutcome::AuthorityRejected))
            } else if matches!(
                cause,
                DispatchError::Configuration(_) | DispatchError::AdapterAvailability(_)
            ) {
                DispatchStep::ReportUnavailable(UnavailableReport { claim, cause })
            } else {
                DispatchStep::Finished(Err(cause))
            }
        },
    }
}

impl UnavailableReport {
    /// The text that the store is given.
    pub open spec fn report_text() -> Seq<char> {
        "runtime composition unavailable (target/profile/adapter)"@
    }

    pub fn report(&self) -> (text: &'static str)
        ensures
            text@ == Self::report_text(),
    {
        "runtime composition unavailable (target/profile/adapter)"
    }

    /// Lost authority is no fault here: there is nothing left to take back.
    pub open spec fn leads_to(self, reply: Result<(), Error>, step: DispatchStep) -> bool {
        match reply {
            Err(error) if !error.authority_lost() => step == DispatchStep::Finished(
                Err(DispatchError::Persistence(error)),
            ),
            _ => step matches DispatchStep::Finished(
                Ok(DispatchOneOutcome::ConfigurationUnavailable { detail }),
            ) && detail@ == self.cause.detail(),
        }
    }

    pub fn resume(self, reply: Result<(), Error>) -> (step: DispatchStep)
        ensures
            self.leads_to(reply, step),
    {
        if let Err(error) = reply {
            if !error.is_authority_lost() {
                return DispatchStep::Finished(Err(DispatchError::Persistence(error)));
            }
        }
        DispatchStep::Finished(
            Ok(DispatchOneOutcome::ConfigurationUnavailable { detail: self.cause.message() }),
        )
    }
}

impl ExecutionCreation {
    /// A storage fault is a persistence error; every other refusal is one of authority.
    pub open spec fn next(self, reply: Result<ExecutionLaunchSnapshot, Error>) -> DispatchStep {
        match reply {
            Ok(snapshot) => DispatchStep::AssembleRequest(
                RequestAssembly { claim: self.claim, snapshot, physical: self.physical },
            ),
            Err(error) => DispatchStep::Finished(
                Err(
                    if error is StorageFailure {
                        DispatchError::Persistence(error)
                    } else {
                        DispatchError::Authority(error)
                    },
                ),
            ),
        }
    }

    pub fn resume(self, reply: Result<ExecutionLaunchSnapshot, Error>) -> (step: DispatchStep)
        ensures
            step == self.next(reply),
    {
        match reply {
            Ok(snapshot) => DispatchStep::AssembleRequest(
                RequestAssembly { claim: self.claim, snapshot, physical: self.physical },
            ),
            Err(error) => {
                if matches!(error, Error::StorageFailure(_)) {
                    DispatchStep::Finished(Err(DispatchError::Persistence(error)))
                } else {
                    DispatchStep::Finished(Err(DispatchError::Authority(error)))
                }
            },
        }
    }
}

impl RequestAssembly {
    /// The execution that the request is for.
    pub open spec fn launched(self) -> LaunchedExecution {
        LaunchedExecution {
            claim: self.claim,
            execution_id: self.snapshot.execution_id,
            request_id: self.snapshot.request_id,
        }
    }

    /// A request that cannot be assembled is an authority fault, with the assembler's detail.
    pub open spec fn next(self, reply: Result<(), String>) -> DispatchStep {
        match reply {
            Ok(_) => DispatchStep::StartPhysical(
                PhysicalStart {
                    launch: self.launched(),
                    adapter_kind: self.physical.environment.adapter_kind,
                },
            ),
            Err(detail) => DispatchStep::Finished(
                Err(DispatchError::Authority(Error::InvalidAuthority(detail))),
            ),
        }
    }

    pub fn resume(self, reply: Result<(), String>) -> (step: DispatchStep)
        ensures
            step == self.next(reply),
    {
        match reply {
            Ok(_) => DispatchStep::StartPhysical(
                PhysicalStart {
                    launch: LaunchedExecution {
                        claim: self.claim,
                        execution_id: self.snapshot.execution_id,
                        request_id: self.snapshot.request_id,
                    },
                    adapter_kind: self.physical.environment.adapter_kind,
                },
            ),
            Err(detail) => DispatchStep::Finished(
                Err(DispatchError::Authority(Error::InvalidAuthority(detail))),
            ),
        }
    }
}

impl PhysicalStart {
    /// An error of the start is not the absence of an execution.
    pub open spec fn next(self, reply: Result<StartObservation, AdapterError>) -> DispatchStep {
        match reply {
            Ok(observation) => start_committed(self.launch, self.adapter_kind, observation),
            Err(error) => unresolved(
                self.launch,
                start_error_class(error),
                None,
                StartVerdict::Failed,
            ),
        }
    }

    pub fn resume(self, reply: Result<StartObservation, AdapterError>) -> (step: DispatchStep)
        ensures
            step == self.next(reply),
    {
        match reply {
            Ok(observation) => commit_start_observation(
                self.launch,
                self.adapter_kind,
                observation,
            ),
            Err(error) => persist_unresolved_physical_then_nack(
                self.launch,
                adapter_invocation_failure_class(&error),
                None,
                StartVerdict::Failed,
            ),
        }
    }
}

impl RunningConfirmation {
    /// What the store is asked.
    pub open spec fn asks(self, command: ConfirmCommand) -> bool {
        command == (ConfirmCommand {
            attempt_id: self.launch.claim.attempt_id,
            lease_epoch: self.launch.claim.lease_epoch,
            execution_id: self.launch.execution_id,
            handle: self.handle,
        })
    }

    pub fn command(&self) -> (command: ConfirmCommand)
        ensures
            self.asks(command),
    {
        ConfirmCommand {
            attempt_id: self.launch.claim.attempt_id.clone(),
            lease_epoch: self.launch.claim.lease_epoch,
            execution_id: self.launch.execution_id.clone(),
            handle: self.handle.clone(),
        }
    }

    /// Lost authority leaves history only: the handle is kept, nothing is admitted.
    pub open spec fn next(self, reply: Result<(), Error>) -> DispatchStep {
        match reply {
            Ok(_) => DispatchStep::Finished(
                Ok(DispatchOneOutcome::StartedRunning { admission: self.launch.seed() }),
            ),
            Err(error) => if error.authority_lost() {
                DispatchStep::RecordHistory(
                    HistoryRecord {
                        record: unresolved_record(self.launch.execution_id, self.handle, None),
                        after: AfterRecord::Finish(self.launch.ambiguous()),
                    },
                )
            } else {
                DispatchStep::Finished(Err(DispatchError::Persistence(error)))
            },
        }
    }

    pub fn resume(self, reply: Result<(), Error>) -> (step: DispatchStep)
        ensures
            step == self.next(reply),
    {
        match reply {
            Ok(_) => DispatchStep::Finished(
                Ok(
                    DispatchOneOutcome::StartedRunning {
                        admission: SupervisionAdmissionSeed {
                            execution_id: self.launch.execution_id,
                            request_id: self.launch.request_id,
                            attempt_id: self.launch.claim.attempt_id,
                            lease_epoch: self.launch.claim.lease_epoch,
                        },
                    },
                ),
            ),
            Err(error) => {
                if error.is_authority_lost() {
                    DispatchStep::RecordHistory(
                        HistoryRecord {
                            record: PhysicalRecord {
                                execution_id: self.launch.execution_id.clone(),
                                state: ExecutionState::Unknown,
                                handle: Some(self.handle),
                                payload: None,
                                failure_class: None,
                                terminal_confirmed: false,
                                quiescent_confirmed: false,
                            },
                            after: AfterRecord::Finish(
                                DispatchOneOutcome::StartAmbiguous {
                                    execution_id: self.launch.execution_id,
                                    request_id: self.launch.request_id,
                                },
                            ),
                        },
                    )
                } else {
                    DispatchStep::Finished(Err(DispatchError::Persistence(error)))
                }
            },
        }
    }
}

impl OutcomeCollection {
    /// A failed collection inherits nothing of what the start claimed.
    pub open spec fn next(self, reply: Result<ExecutionOutcome, AdapterError>) -> DispatchStep {
        match reply {
            Ok(outcome) => outcome_committed(self.launch, self.handle, outcome),
            Err(error) => unresolved(
                self.launch,
                start_error_class(error),
                Some(self.handle),
                StartVerdict::Failed,
            ),
        }
    }

    pub fn resume(self, reply: Result<ExecutionOutcome, AdapterError>) -> (step: DispatchStep)
        ensures
            step == self.next(reply),
    {
        match reply {
            Ok(outcome) => commit_collected_outcome(self.launch, self.handle, outcome),
            Err(error) => persist_unresolved_physical_then_nack(
                self.launch,
                adapter_invocation_failure_class(&error),
                Some(self.handle),
                StartVerdict::Failed,
            ),
        }
    }
}

impl SuccessAck {
    /// What the store is asked: the success of this attempt, with the collected payload or `null`,
    /// and with the proof that was collected.
    pub open spec fn asks(self, command: AckCommand) -> bool {
        &&& command.attempt_id == self.launch.claim.attempt_id
        &&& command.lease_epoch == self.launch.claim.lease_epoch
        &&& command.execution_id == self.launch.execution_id
        &&& command.payload@ == payload_text(self.outcome.payload)
        &&& command.summary == self.outcome.summary
        &&& command.quiescent_confirmed == self.outcome.quiescent_confirmed
        &&& command.incarnation_reusable == self.outcome.incarnation_reusable
    }

    pub fn command(&self) -> (command: AckCommand)
        ensures
            self.asks(command),
    {
        AckCommand {
            attempt_id: self.launch.claim.attempt_id.clone(),
            lease_epoch: self.launch.claim.lease_epoch,
            execution_id: self.launch.execution_id.clone(),
            payload: payload_or_null(&self.outcome.payload),
            summary: copy_text(&self.outcome.summary),
            quiescent_confirmed: self.outcome.quiescent_confirmed,
            incarnation_reusable: self.outcome.incarnation_reusable,
        }
    }

    /// Lost authority keeps the success and its handle as history only.
    pub open spec fn next(self, reply: Result<Option<ResultId>, Error>) -> DispatchStep {
        match reply {
            Ok(result_id) => DispatchStep::Finished(
                Ok(
                    DispatchOneOutcome::CompletedSynchronously {
                        execution_id: self.launch.execution_id,
                        request_id: self.launch.request_id,
                        result_id,
                    },
                ),
            ),
            Err(error) => if error.authority_lost() {
                DispatchStep::RecordHistory(
                    HistoryRecord {
                        record: PhysicalRecord {
                            execution_id: self.launch.execution_id,
                            state: ExecutionState::Succeeded,
                            handle: Some(self.handle),
                            payload: self.outcome.payload,
                            failure_class: None,
                            terminal_confirmed: true,
                            quiescent_confirmed: self.outcome.quiescent_confirmed,
                        },
                        after: AfterRecord::Finish(self.launch.ambiguous()),
                    },
                )
            } else {
                DispatchStep::Finished(Err(DispatchError::Persistence(error)))
            },
        }
    }

    pub fn resume(self, reply: Result<Option<ResultId>, Error>) -> (step: DispatchStep)
        ensures
            step == self.next(reply),
    {
        match reply {
            Ok(result_id) => DispatchStep::Finished(
                Ok(
                    DispatchOneOutcome::CompletedSynchronously {
                        execution_id: self.launch.execution_id,
                        request_id: self.launch.request_id,
                        result_id,
                    },
                ),
            ),
            Err(error) => {
                if error.is_authority_lost() {
                    DispatchStep::RecordHistory(
                        HistoryRecord {
                            record: PhysicalRecord {
                                execution_id: self.launch.execution_id.clone(),
                                state: ExecutionState::Succeeded,
                                handle: Some(self.handle),
                                payload: self.outcome.payload,
                                failure_class: None,
                                terminal_confirmed: true,
                                quiescent_confirmed: self.outcome.quiescent_confirmed,
                            },
                            after: AfterRecord::Finish(
                                DispatchOneOutcome::StartAmbiguous {
                                    execution_id: self.launch.execution_id,
                                    request_id: self.launch.request_id,
                                },
                            ),
                        },
                    )
                } else {
                    DispatchStep::Finished(Err(DispatchError::Persistence(error)))
                }
            },
        }
    }
}

impl StartNack {
    /// What the store is asked.  The incarnation is never reused on this path.
    pub open spec fn asks(self, command: NackCommand) -> bool {
        command == (NackCommand {
            attempt_id: self.launch.claim.attempt_id,
            lease_epoch: self.launch.claim.lease_epoch,
            failure_class: self.failure_class,
            execution_id: self.launch.execution_id,
            terminal_confirmed: self.terminal_confirmed,
            quiescent_confirmed: self.quiescent_confirmed,
            incarnation_reusable: false,
        })
    }

    pub fn command(&self) -> (command: NackCommand)
        ensures
            self.asks(command),
    {
        NackCommand {
            attempt_id: self.launch.claim.attempt_id.clone(),
            lease_epoch: self.launch.claim.lease_epoch,
            failure_class: self.failure_class,
            execution_id: self.launch.execution_id.clone(),
            terminal_confirmed: self.terminal_confirmed,
            quiescent_confirmed: self.quiescent_confirmed,
            incarnation_reusable: false,
        }
    }

    pub open spec fn outcome(self) -> DispatchOneOutcome {
        self.launch.reported(self.verdict, self.failure_class)
    }

    /// A terminal failure without quiescence proof keeps its handle in history, for the physical
    /// clean-up that is still owed.
    pub open spec fn retained(self) -> Option<PhysicalRecord> {
        if self.terminal_confirmed && !self.quiescent_confirmed && self.handle is Some {
            Some(
                PhysicalRecord {
                    execution_id: self.launch.execution_id,
                    state: ExecutionState::Failed,
                    handle: self.handle,
                    payload: None,
                    failure_class: None,
                    terminal_confirmed: true,
                    quiescent_confirmed: false,
                },
            )
        } else {
            None
        }
    }

    /// What is recorded when authority was lost before the NACK.
    pub open spec fn stale_record(self) -> PhysicalRecord {
        PhysicalRecord {
            execution_id: self.launch.execution_id,
            state: if self.terminal_confirmed {
                ExecutionState::Failed
            } else {
                ExecutionState::Unknown
            },
            handle: self.handle,
            payload: None,
            failure_class: Some(self.failure_class),
            terminal_confirmed: self.terminal_confirmed,
            quiescent_confirmed: self.quiescent_confirmed && self.terminal_confirmed,
        }
    }

    pub open spec fn next(self, reply: Result<(), Error>) -> DispatchStep {
        match reply {
            Ok(_) => match self.retained() {
                Some(record) => DispatchStep::RecordHistory(
                    HistoryRecord { record, after: AfterRecord::Finish(self.outcome()) },
                ),
                None => DispatchStep::Finished(Ok(self.outcome())),
            },
            Err(error) => if error.authority_lost() {
                DispatchStep::RecordHistory(
                    HistoryRecord {
                        record: self.stale_record(),
                        after: match self.retained() {
                            Some(record) => AfterRecord::Retain { record, outcome: self.outcome() },
                            None => AfterRecord::Finish(self.outcome()),
                        },
                    },
                )
            } else {
                DispatchStep::Finished(Err(DispatchError::Persistence(error)))
            },
        }
    }

    fn retain_terminal_handle(&self) -> (record: Option<PhysicalRecord>)
        ensures
            record == self.retained(),
    {
        if !self.terminal_confirmed || self.quiescent_confirmed || self.handle.is_none() {
            return None;
        }
        Some(
            PhysicalRecord {
                execution_id: self.launch.execution_id.clone(),
                state: ExecutionState::Failed,
                handle: copy_json(&self.handle),
                payload: None,
                failure_class: None,
                terminal_confirmed: true,
                quiescent_confirmed: false,
            },
        )
    }

    pub fn resume(self, reply: Result<(), Error>) -> (step: DispatchStep)
        ensures
            step == self.next(reply),
    {
        let retained = self.retain_terminal_handle();
        match reply {
            Ok(_) => {
                let outcome = self.launch.into_outcome(self.verdict, self.failure_class);
                match retained {
                    Some(record) => DispatchStep::RecordHistory(
                        HistoryRecord { record, after: AfterRecord::Finish(outcome) },
                    ),
                    None => DispatchStep::Finished(Ok(outcome)),
                }
            },
            Err(error) => {
                if !error.is_authority_lost() {
                    return DispatchStep::Finished(Err(DispatchError::Persistence(error)));
                }
                let record = PhysicalRecord {
                    execution_id: self.launch.execution_id.clone(),
                    state: if self.terminal_confirmed {
                        ExecutionState::Failed
                    } else {
                        ExecutionState::Unknown
                    },
                    handle: self.handle,
                    payload: None,
                    failure_class: Some(self.failure_class),
                    terminal_confirmed: self.terminal_confirmed,
                    quiescent_confirmed: self.quiescent_confirmed && self.terminal_confirmed,
                };
                let outcome = self.launch.into_outcome(self.verdict, self.failure_class);
                let after = match retained {
                    Some(kept) => AfterRecord::Retain { record: kept, outcome },
                    None => AfterRecord::Finish(outcome),
                };
                DispatchStep::RecordHistory(HistoryRecord { record, after })
            },
        }
    }
}

impl HistoryRecord {
    pub open spec fn next(self, reply: Result<(), Error>) -> DispatchStep {
        match reply {
            Err(error) => DispatchStep::Finished(Err(DispatchError::Persistence(error))),
            Ok(_) => match self.after {
                AfterRecord::Nack(nack) => DispatchStep::NackStart(nack),
                AfterRecord::Retain { record, outcome } => DispatchStep::RecordHistory(
                    HistoryRecord { record, after: AfterRecord::Finish(outcome) },
                ),
                AfterRecord::Finish(outcome) => DispatchStep::Finished(Ok(outcome)),
            },
        }
    }

    pub fn resume(self, reply: Result<(), Error>) -> (step: DispatchStep)
        ensures
            step == self.next(reply),
    {
        match reply {
            Err(error) => DispatchStep::Finished(Err(DispatchError::Persistence(error))),
            Ok(_) => match self.after {
                AfterRecord::Nack(nack) => DispatchStep::NackStart(nack),
                AfterRecord::Retain { record, outcome } => DispatchStep::RecordHistory(
                    HistoryRecord { record, after: AfterRecord::Finish(outcome) },
                ),
                AfterRecord::Finish(outcome) => DispatchStep::Finished(Ok(outcome)),
            },
        }
    }
}

/// The dispatch service.  It accepts authoritative composition only: the adapters that are
/// installed, and configuration keyed by the durable binding.
pub struct Dispatcher<'a, A> {
    pub adapters: &'a AdapterRegistry<A>,
}

impl<'a, A> Dispatcher<'a, A> {
    pub fn new(adapters: &'a AdapterRegistry<A>) -> (dispatcher: Self)
        ensures
            *dispatcher.adapters == *adapters,
    {
        Dispatcher { adapters }
    }

    /// Obtains one claim and dispatches it.
    pub fn dispatch_one(&self) -> (step: DispatchStep)
        ensures
            step == DispatchStep::ClaimNext(ClaimQuery {  }),
    {
        DispatchStep::ClaimNext(ClaimQuery {  })
    }

    /// Dispatches a claim.  The claim is the authority receipt and nothing more: target and
    /// profile come from the durable binding.
    pub fn dispatch_claim(&self, claim: Claim) -> (step: DispatchStep)
        ensures
            step == DispatchStep::ResolveBinding(BindingQuery { claim }),
    {
        continue_dispatch(resolve_physical_execution_environment(claim))
    }

    /// Goes on with the store's answer to a binding query.
    pub fn bound(
        &self,
        query: BindingQuery,
        reply: Result<AuthoritativeExecutionBinding, Error>,
    ) -> (step: DispatchStep)
        ensures
            step == composition_continued(query.next(reply)),
    {
        continue_dispatch(query.resume(reply))
    }

    /// Goes on with the configuration registry's answer to an environment query.
    pub fn configured(
        &self,
        query: EnvironmentQuery,
        reply: Result<ResolvedExecutionEnvironment, ResolutionError>,
    ) -> (step: DispatchStep)
        ensures
            step == composition_continued(
                query.next(reply, |kind: Seq<char>| self.adapters.installs(kind)),
            ),
    {
        continue_dispatch(query.resume(reply, self.adapters))
    }
}

// ---------------------------------------------------------------------------------------------
// Laws
// ---------------------------------------------------------------------------------------------

/// Some reply to the call that step `a` names leads to step `b`.
pub open spec fn dispatch_follows(a: DispatchStep, b: DispatchStep) -> bool {
    match a {
        DispatchStep::ClaimNext(s) => exists|reply: Result<Option<Claim>, Error>|
            b == #[trigger] s.next(reply),
        DispatchStep::ResolveBinding(s) => exists|
            reply: Result<AuthoritativeExecutionBinding, Error>,
        | b == composition_continued(#[trigger] s.next(reply)),
        DispatchStep::ResolveEnvironment(s) => exists|
            reply: Result<ResolvedExecutionEnvironment, ResolutionError>,
            installed: spec_fn(Seq<char>) -> bool,
        | b == composition_continued(#[trigger] s.next(reply, installed)),
        DispatchStep::ReportUnavailable(s) => exists|reply: Result<(), Error>| #[trigger]
            s.leads_to(reply, b),
        DispatchStep::CreateExecution(s) => exists|reply: Result<ExecutionLaunchSnapshot, Error>|
            b == #[trigger] s.next(reply),
        DispatchStep::AssembleRequest(s) => exists|reply: Result<(), String>|
            b == #[trigger] s.next(reply),
        DispatchStep::StartPhysical(s) => exists|reply: Result<StartObservation, AdapterError>|
            b == #[trigger] s.next(reply),
        DispatchStep::ConfirmRunning(s) => exists|reply: Result<(), Error>|
            b == #[trigger] s.next(reply),
        DispatchStep::CollectOutcome(s) => exists|reply: Result<ExecutionOutcome, AdapterError>|
            b == #[trigger] s.next(reply),
        DispatchStep::AckSuccess(s) => exists|reply: Result<Option<ResultId>, Error>|
            b == #[trigger] s.next(reply),
        DispatchStep::NackStart(s) => exists|reply: Result<(), Error>| b == #[trigger] s.next(reply),
        DispatchStep::RecordHistory(s) => exists|reply: Result<(), Error>|
            b == #[trigger] s.next(reply),
        DispatchStep::Finished(_) => false,
    }
}

/// A run of the dispatcher: it starts with a claim to obtain or to dispatch, and each step follows
/// from the one before, whatever the outside services replied.
pub open spec fn dispatch_run(run: Seq<DispatchStep>) -> bool {
    &&& run.len() > 0
    &&& run[0] is ClaimNext || run[0] is ResolveBinding
    &&& forall|i: int|
        0 <= i && i + 1 < run.len() ==> dispatch_follows(#[trigger] run[i], run[i + 1])
}

/// How far a step is along the dispatch.
pub open spec fn dispatch_rank(step: DispatchStep) -> int {
    match step {
        DispatchStep::ClaimNext(_) => 0,
        DispatchStep::ResolveBinding(_) => 1,
        DispatchStep::ResolveEnvironment(_) => 2,
        DispatchStep::ReportUnavailable(_) => 3,
        DispatchStep::CreateExecution(_) => 3,
        DispatchStep::AssembleRequest(_) => 4,
        DispatchStep::StartPhysical(_) => 5,
        DispatchStep::ConfirmRunning(_) => 6,
        DispatchStep::CollectOutcome(_) => 6,
        DispatchStep::AckSuccess(_) => 7,
        DispatchStep::RecordHistory(s) => match s.after {
            AfterRecord::Nack(_) => 7,
            AfterRecord::Retain { .. } => 9,
            AfterRecord::Finish(_) => 10,
        },
        DispatchStep::NackStart(_) => 8,
        DispatchStep::Finished(_) => 11,
    }
}

/// Every reply moves a dispatch forward.
pub proof fn law_dispatch_moves_forward(a: DispatchStep, b: DispatchStep)
    requires
        dispatch_follows(a, b),
    ensures
        dispatch_rank(a) < dispatch_rank(b) <= 11,
{
}

proof fn lemma_run_ranks(run: Seq<DispatchStep>, i: int, j: int)
    requires
        dispatch_run(run),
        0 <= i < j < run.len(),
    ensures
        dispatch_rank(run[i]) + (j - i) <= dispatch_rank(run[j]),
    decreases j - i,
{
    if j == i + 1 {
        law_dispatch_moves_forward(run[i], run[j]);
    } else {
        lemma_run_ranks(run, i, j - 1);
        law_dispatch_moves_forward(run[j - 1], run[j - 1 + 1]);
    }
}

/// A dispatch ends: no run has more than twelve steps, whatever the outside services reply.
pub proof fn law_dispatch_ends(run: Seq<DispatchStep>)
    requires
        dispatch_run(run),
    ensures
        run.len() <= 12,
{
    if run.len() > 1 {
        lemma_run_ranks(run, 0, run.len() - 1);
        assert(0 <= dispatch_rank(run[0]));
        assert(dispatch_rank(run[run.len() - 1]) <= 11);
    }
}

/// The adapter is asked to start at most once in a dispatch.
pub proof fn law_one_physical_start(run: Seq<DispatchStep>, i: int, j: int)
    requires
        dispatch_run(run),
        0 <= i < j < run.len(),
    ensures
        !(run[i] is StartPhysical && run[j] is StartPhysical),
{
    lemma_run_ranks(run, i, j);
}

/// A physical start has behind it, in this order: the durable binding of the claim, the
/// configuration of that binding with an installed adapter, and the durable execution.  The
/// adapter that is asked is the one that this configuration names.
pub proof fn law_start_is_composed(run: Seq<DispatchStep>, j: int)
    requires
        dispatch_run(run),
        0 <= j < run.len(),
        run[j] is StartPhysical,
    ensures
        j >= 4,
        run[j - 4] is ResolveBinding,
        run[j - 3] is ResolveEnvironment,
        run[j - 3]->ResolveEnvironment_0.claim == run[j - 4]->ResolveBinding_0.claim,
        run[j - 2] is CreateExecution,
        run[j - 2]->CreateExecution_0.claim == run[j - 3]->ResolveEnvironment_0.claim,
        run[j - 2]->CreateExecution_0.physical.binding == run[j - 3]->ResolveEnvironment_0.binding,
        run[j - 1] is AssembleRequest,
        run[j - 1]->AssembleRequest_0.physical == run[j - 2]->CreateExecution_0.physical,
        run[j]->StartPhysical_0.launch == run[j - 1]->AssembleRequest_0.launched(),
        run[j]->StartPhysical_0.launch.claim == run[j - 4]->ResolveBinding_0.claim,
        run[j]->StartPhysical_0.adapter_kind == run[j
            - 2]->CreateExecution_0.physical.environment.adapter_kind,
{
    assert(dispatch_follows(run[j - 1], run[j - 1 + 1]));
    assert(dispatch_follows(run[j - 2], run[j - 2 + 1]));
    assert(dispatch_follows(run[j - 3], run[j - 3 + 1]));
    assert(dispatch_follows(run[j - 4], run[j - 4 + 1]));
}

/// Configuration is resolved by the durable binding that the store returned, never by the copies
/// in the claim; and an environment without an installed adapter creates no execution.
pub proof fn law_configuration_keyed_by_durable_binding(
    query: BindingQuery,
    binding: AuthoritativeExecutionBinding,
    environment: ResolvedExecutionEnvironment,
    installed: spec_fn(Seq<char>) -> bool,
)
    ensures
        query.next(Ok(binding)) matches CompositionStep::ResolveEnvironment(next) && next.binding
            == binding && next.next(Ok(environment), installed) is Composed == installed(
            environment.adapter_kind@,
        ),
{
}

/// RUNNING is confirmed only for a start that the adapter reports as exact RUNNING: without
/// ambiguity and without any claim of an end.
pub proof fn law_confirmation_needs_exact_running(a: DispatchStep, b: DispatchStep)
    requires
        dispatch_follows(a, b),
        b is ConfirmRunning,
    ensures
        a is StartPhysical,
        b->ConfirmRunning_0.launch == a->StartPhysical_0.launch,
        exists|observation: StartObservation|
            #[trigger] a->StartPhysical_0.next(Ok(observation)) == b && start_kind(
                observation,
            ) is ExactRunning && observation.runtime_handle == b->ConfirmRunning_0.handle,
{
    if let DispatchStep::StartPhysical(s) = a {
        let reply = choose|reply: Result<StartObservation, AdapterError>|
            b == #[trigger] s.next(reply);
        assert(s.next(Ok(reply->Ok_0)) == b);
    }
}

/// A RUNNING that claims an end is no ground for a grant: it is unresolved as a protocol failure,
/// its handle is kept, and nothing it claims becomes proof.
pub proof fn law_contradictory_running_is_never_confirmed(
    call: PhysicalStart,
    observation: StartObservation,
)
    requires
        observation.state == ExecutionState::Running,
        !observation.ambiguous,
        observation.terminal_confirmed || observation.quiescent_confirmed,
    ensures
        call.next(Ok(observation)) == unresolved(
            call.launch,
            FailureClass::AdapterProtocolFailure,
            Some(observation.runtime_handle),
            StartVerdict::Ambiguous,
        ),
{
}

/// The collected outcome alone decides: two starts that claim an end and have one handle lead to
/// the same collection, whatever else they claim, and so to the same step for the same reply.
pub proof fn law_collection_alone_decides(
    call: PhysicalStart,
    first: StartObservation,
    second: StartObservation,
)
    requires
        start_kind(first) is TerminalCandidate,
        start_kind(second) is TerminalCandidate,
        first.runtime_handle == second.runtime_handle,
    ensures
        call.next(Ok(first)) == call.next(Ok(second)),
        call.next(Ok(first)) == DispatchStep::CollectOutcome(
            OutcomeCollection {
                launch: call.launch,
                adapter_kind: call.adapter_kind,
                handle: first.runtime_handle,
            },
        ),
{
}

proof fn lemma_collection_follows_start(a: DispatchStep, b: DispatchStep)
    requires
        dispatch_follows(a, b),
        b is CollectOutcome,
    ensures
        a is StartPhysical,
        exists|observation: StartObservation|
            #[trigger] a->StartPhysical_0.next(Ok(observation)) == b && start_kind(
                observation,
            ) is TerminalCandidate,
{
    if let DispatchStep::StartPhysical(s) = a {
        let reply = choose|reply: Result<StartObservation, AdapterError>|
            b == #[trigger] s.next(reply);
        assert(s.next(Ok(reply->Ok_0)) == b);
    }
}

/// An outcome is collected at most once in a dispatch, and only for a start that claims an end.
pub proof fn law_one_collection(run: Seq<DispatchStep>, i: int, j: int)
    requires
        dispatch_run(run),
        0 <= i < j < run.len(),
        run[j] is CollectOutcome,
    ensures
        !(run[i] is CollectOutcome),
        run[j - 1] is StartPhysical,
        exists|observation: StartObservation|
            #[trigger] run[j - 1]->StartPhysical_0.next(Ok(observation)) == run[j] && start_kind(
                observation,
            ) is TerminalCandidate,
{
    lemma_run_ranks(run, i, j);
    assert(dispatch_follows(run[j - 1], run[j - 1 + 1]));
    lemma_collection_follows_start(run[j - 1], run[j]);
}

/// Dispatch and reconciliation read a collected outcome alike: what contradicts itself is
/// unresolved in both, with the same failure class, and both see the same successes.
pub proof fn law_outcomes_are_read_alike(
    launch: LaunchedExecution,
    handle: JsonValue,
    outcome: ExecutionOutcome,
)
    ensures
        contradiction(outcome) matches Some(class) ==> outcome_kind(outcome) == (
        ExecutionOutcomeKind::Unresolved { failure_class: class }),
        outcome_committed(launch, handle, outcome) is AckSuccess <==> outcome_kind(
            outcome,
        ) is TerminalSuccess,
        outcome_committed(launch, handle, outcome) is NackStart <==> outcome_kind(
            outcome,
        ) is TerminalFailure,
        outcome_committed(launch, handle, outcome) is RecordHistory <==> outcome_kind(
            outcome,
        ) is Unresolved,
        outcome_committed(launch, handle, outcome) matches DispatchStep::NackStart(nack)
            ==> outcome_kind(outcome) == (ExecutionOutcomeKind::TerminalFailure {
            failure_class: nack.failure_class,
        }),
        outcome_committed(launch, handle, outcome) matches DispatchStep::RecordHistory(s)
            ==> s.record.failure_class is Some && outcome_kind(outcome) == (
        ExecutionOutcomeKind::Unresolved { failure_class: s.record.failure_class->0 }),
{
}

/// The step that the dispatch of a claim comes to when the store and the configuration give these
/// replies.
pub open spec fn step_after_creation(
    claim: Claim,
    binding: AuthoritativeExecutionBinding,
    environment: ResolvedExecutionEnvironment,
    installed: spec_fn(Seq<char>) -> bool,
    snapshot: ExecutionLaunchSnapshot,
) -> DispatchStep {
    match composition_continued((BindingQuery { claim }).next(Ok(binding))) {
        DispatchStep::ResolveEnvironment(query) => match composition_continued(
            query.next(Ok(environment), installed),
        ) {
            DispatchStep::CreateExecution(creation) => creation.next(Ok(snapshot)),
            other => other,
        },
        other => other,
    }
}

/// What a claim says of its task cannot alter the worker request.  Whatever two claims say, the
/// same durable replies lead to a request that is assembled from the same snapshot, with the
/// durable task in it, and in the same environment.
pub proof fn law_claim_copies_cannot_alter_request(
    claim: Claim,
    altered: Claim,
    binding: AuthoritativeExecutionBinding,
    environment: ResolvedExecutionEnvironment,
    installed: spec_fn(Seq<char>) -> bool,
    snapshot: ExecutionLaunchSnapshot,
)
    requires
        installed(environment.adapter_kind@),
    ensures
        step_after_creation(claim, binding, environment, installed, snapshot) matches
            DispatchStep::AssembleRequest(request) && request.snapshot == snapshot
            && request.physical == (ResolvedPhysicalExecutionEnvironment { binding, environment }),
        step_after_creation(altered, binding, environment, installed, snapshot) matches
            DispatchStep::AssembleRequest(request) && request.snapshot == snapshot
            && request.physical == (ResolvedPhysicalExecutionEnvironment { binding, environment }),
{
}

/// The request of a run is assembled from the snapshot that the store gave for the execution and
/// from the environment that the execution was created in, and from nothing else.
pub proof fn law_request_comes_from_the_store(run: Seq<DispatchStep>, j: int)
    requires
        dispatch_run(run),
        0 <= j < run.len(),
        run[j] is AssembleRequest,
    ensures
        j >= 3,
        run[j - 1] is CreateExecution,
        run[j] == run[j - 1]->CreateExecution_0.next(Ok(run[j]->AssembleRequest_0.snapshot)),
        run[j]->AssembleRequest_0.physical == run[j - 1]->CreateExecution_0.physical,
        run[j]->AssembleRequest_0.physical.binding == run[j - 2]->ResolveEnvironment_0.binding,
{
    assert(dispatch_follows(run[j - 1], run[j - 1 + 1]));
    assert(dispatch_follows(run[j - 2], run[j - 2 + 1]));
    assert(dispatch_follows(run[j - 3], run[j - 3 + 1]));
}

/// A success is acknowledged only for a collected outcome that is SUCCEEDED with terminal proof.
pub proof fn law_ack_needs_terminal_success(a: DispatchStep, b: DispatchStep)
    requires
        dispatch_follows(a, b),
        b is AckSuccess,
    ensures
        a is CollectOutcome,
        b->AckSuccess_0.launch == a->CollectOutcome_0.launch,
        b->AckSuccess_0.handle == a->CollectOutcome_0.handle,
        b->AckSuccess_0.outcome.state == ExecutionState::Succeeded,
        b->AckSuccess_0.outcome.terminal_confirmed,
{
}

/// An outcome that contradicts itself is never acknowledged, and nothing it claims becomes proof.
pub proof fn law_contradiction_proves_nothing(
    launch: LaunchedExecution,
    handle: JsonValue,
    outcome: ExecutionOutcome,
)
    requires
        (outcome.terminal_confirmed && outcome.state.active()) || (outcome.state
            == ExecutionState::Succeeded && !outcome.terminal_confirmed) || (
        outcome.quiescent_confirmed && !outcome.terminal_confirmed) || (outcome.state
            == ExecutionState::Lost && (outcome.terminal_confirmed || outcome.quiescent_confirmed)),
    ensures
        outcome_committed(launch, handle, outcome) matches DispatchStep::RecordHistory(s) && (
        s.record.proofless() && s.record.state == ExecutionState::Unknown && s.record.handle
            == Some(handle) && (s.after matches AfterRecord::Nack(nack)
            && !nack.terminal_confirmed && !nack.quiescent_confirmed)),
{
}

/// A history record that stands before a NACK carries no proof, has the handle of that NACK, and
/// the NACK carries no proof either.  A history record that stands at the end reports a start.
pub open spec fn record_is_sound(step: DispatchStep) -> bool {
    step matches DispatchStep::RecordHistory(s) ==> match s.after {
        AfterRecord::Nack(nack) => {
            &&& s.record.proofless()
            &&& s.record.state == ExecutionState::Unknown
            &&& s.record.handle is Some
            &&& s.record.handle == nack.handle
            &&& s.record.execution_id == nack.launch.execution_id
            &&& s.record.failure_class == Some(nack.failure_class)
            &&& !nack.terminal_confirmed
            &&& !nack.quiescent_confirmed
        },
        AfterRecord::Retain { outcome, .. } => outcome is StartAmbiguous || outcome is StartFailed,
        AfterRecord::Finish(outcome) => outcome is StartAmbiguous || outcome is StartFailed,
    }
}

/// Every history record of a run is sound.
pub proof fn law_records_are_sound(run: Seq<DispatchStep>, j: int)
    requires
        dispatch_run(run),
        0 <= j < run.len(),
    ensures
        record_is_sound(run[j]),
    decreases j,
{
    if j > 0 {
        law_records_are_sound(run, j - 1);
        assert(dispatch_follows(run[j - 1], run[j - 1 + 1]));
    }
}

/// Terminal or quiescence proof reaches a NACK only from a collected outcome that proves
/// terminality and is in no active state and not LOST.  What the start itself claimed is never inherited.
pub proof fn law_proof_comes_from_collection(run: Seq<DispatchStep>, j: int)
    requires
        dispatch_run(run),
        0 <= j < run.len(),
        run[j] is NackStart,
        run[j]->NackStart_0.terminal_confirmed || run[j]->NackStart_0.quiescent_confirmed,
    ensures
        j > 0,
        run[j - 1] is CollectOutcome,
        exists|outcome: ExecutionOutcome|
            run[j - 1]->CollectOutcome_0.next(Ok(outcome)) == run[j] && outcome.terminal_confirmed
                && !outcome.state.active() && outcome.state != ExecutionState::Succeeded
                && outcome.state != ExecutionState::Lost
                && outcome.quiescent_confirmed == run[j]->NackStart_0.quiescent_confirmed,
{
    law_records_are_sound(run, j - 1);
    assert(dispatch_follows(run[j - 1], run[j - 1 + 1]));
    if let DispatchStep::CollectOutcome(s) = run[j - 1] {
        let reply = choose|reply: Result<ExecutionOutcome, AdapterError>|
            run[j] == #[trigger] s.next(reply);
        assert(s.next(Ok(reply->Ok_0)) == run[j]);
    }
}

/// A handle that was observed is durable before the attempt is taken back: a NACK without
/// terminal proof that knows a handle comes right after a record of that handle without proof.
pub proof fn law_handle_is_durable_before_nack(run: Seq<DispatchStep>, j: int)
    requires
        dispatch_run(run),
        0 <= j < run.len(),
        run[j] is NackStart,
        run[j]->NackStart_0.handle is Some,
        !run[j]->NackStart_0.terminal_confirmed,
    ensures
        j > 0,
        run[j - 1] is RecordHistory,
        run[j - 1]->RecordHistory_0.record.handle == run[j]->NackStart_0.handle,
        run[j - 1]->RecordHistory_0.record.proofless(),
{
    law_records_are_sound(run, j - 1);
    assert(dispatch_follows(run[j - 1], run[j - 1 + 1]));
}

/// An admission exists only once the store has confirmed RUNNING, and it carries the identity of
/// the claim and of the execution that were confirmed.
pub proof fn law_admission_needs_confirmation(run: Seq<DispatchStep>, j: int)
    requires
        dispatch_run(run),
        0 <= j < run.len(),
        run[j] is Finished,
        run[j]->Finished_0 is Ok,
        run[j]->Finished_0->Ok_0 is StartedRunning,
    ensures
        j > 0,
        run[j - 1] is ConfirmRunning,
        run[j] == run[j - 1]->ConfirmRunning_0.next(Ok(())),
        run[j]->Finished_0->Ok_0->admission == run[j - 1]->ConfirmRunning_0.launch.seed(),
{
    law_records_are_sound(run, j - 1);
    assert(dispatch_follows(run[j - 1], run[j - 1 + 1]));
}

/// Once authority is lost, the dispatch writes history and ends.  It sends no ACK and no NACK.
pub proof fn law_lost_authority_writes_history_only(error: Error, step: DispatchStep)
    requires
        error.authority_lost(),
    ensures
        step matches DispatchStep::ConfirmRunning(s) ==> s.next(Err(error)) matches
            DispatchStep::RecordHistory(h) && h.after is Finish && h.record.handle == Some(s.handle),
        step matches DispatchStep::AckSuccess(s) ==> s.next(Err(error)) matches
            DispatchStep::RecordHistory(h) && h.after is Finish && h.record.handle == Some(s.handle),
        step matches DispatchStep::NackStart(s) ==> s.next(Err(error)) matches
            DispatchStep::RecordHistory(h) && !(h.after is Nack) && h.record.handle == s.handle,
{
}

/// A rejected claim touches nothing: a run that ends in a rejection made no call but the claim
/// and the binding query.
pub proof fn law_rejected_claim_touches_nothing(run: Seq<DispatchStep>)
    requires
        dispatch_run(run),
        run.last() == DispatchStep::Finished(Ok(DispatchOneOutcome::AuthorityRejected)),
    ensures
        forall|i: int|
            0 <= i < run.len() - 1 ==> (#[trigger] run[i]) is ClaimNext || run[i] is ResolveBinding,
{
    let n = run.len() - 1;
    law_records_are_sound(run, n - 1);
    assert(dispatch_follows(run[n - 1], run[n - 1 + 1]));
    if n >= 2 {
        assert(dispatch_follows(run[n - 2], run[n - 2 + 1]));
    }
    if n >= 3 {
        assert(dispatch_follows(run[n - 3], run[n - 3 + 1]));
    }
}

/// An accepted success completes the dispatch for the execution that was launched, with the result
/// that the store gave, and also where the store gave none.
pub proof fn law_accepted_success_completes(ack: SuccessAck, result_id: Option<ResultId>)
    ensures
        ack.next(Ok(result_id)) == DispatchStep::Finished(
            Ok(
                DispatchOneOutcome::CompletedSynchronously {
                    execution_id: ack.launch.execution_id,
                    request_id: ack.launch.request_id,
                    result_id,
                },
            ),
        ),
{
}

/// A confirmed start is running, and what may be admitted is the execution that was launched under
/// the attempt and the epoch of its claim.
pub proof fn law_confirmed_start_is_running(confirmation: RunningConfirmation)
    ensures
        confirmation.next(Ok(())) == DispatchStep::Finished(
            Ok(
                DispatchOneOutcome::StartedRunning {
                    admission: SupervisionAdmissionSeed {
                        execution_id: confirmation.launch.execution_id,
                        request_id: confirmation.launch.request_id,
                        attempt_id: confirmation.launch.claim.attempt_id,
                        lease_epoch: confirmation.launch.claim.lease_epoch,
                    },
                },
            ),
        ),
{
}

/// Authority that is lost at the confirmation leaves a record of an unknown execution with its
/// handle and no proof, and authority that is lost at the acceptance leaves a record of the
/// success; either way the start is ambiguous after it.
pub proof fn law_lost_authority_leaves_a_record(
    confirmation: RunningConfirmation,
    ack: SuccessAck,
    error: Error,
)
    requires
        error is StaleAuthority || error is InvalidAuthority,
    ensures
        confirmation.next(Err(error)) == DispatchStep::RecordHistory(
            HistoryRecord {
                record: PhysicalRecord {
                    execution_id: confirmation.launch.execution_id,
                    state: ExecutionState::Unknown,
                    handle: Some(confirmation.handle),
                    payload: None,
                    failure_class: None,
                    terminal_confirmed: false,
                    quiescent_confirmed: false,
                },
                after: AfterRecord::Finish(
                    DispatchOneOutcome::StartAmbiguous {
                        execution_id: confirmation.launch.execution_id,
                        request_id: confirmation.launch.request_id,
                    },
                ),
            },
        ),
        ack.next(Err(error)) == DispatchStep::RecordHistory(
            HistoryRecord {
                record: PhysicalRecord {
                    execution_id: ack.launch.execution_id,
                    state: ExecutionState::Succeeded,
                    handle: Some(ack.handle),
                    payload: ack.outcome.payload,
                    failure_class: None,
                    terminal_confirmed: true,
                    quiescent_confirmed: ack.outcome.quiescent_confirmed,
                },
                after: AfterRecord::Finish(
                    DispatchOneOutcome::StartAmbiguous {
                        execution_id: ack.launch.execution_id,
                        request_id: ack.launch.request_id,
                    },
                ),
            },
        ),
{
}

/// Any other refusal of the store ends the dispatch as a fault of the store, wherever it comes.
pub proof fn law_store_fault_ends_dispatch(
    claim: ClaimQuery,
    report: UnavailableReport,
    confirmation: RunningConfirmation,
    ack: SuccessAck,
    nack: StartNack,
    error: Error,
    step: DispatchStep,
)
    requires
        !(error is StaleAuthority),
        !(error is InvalidAuthority),
        report.leads_to(Err(error), step),
    ensures
        ({
            let fault = DispatchStep::Finished(Err(DispatchError::Persistence(error)));
            &&& claim.next(Err(error)) == fault
            &&& step == fault
            &&& confirmation.next(Err(error)) == fault
            &&& ack.next(Err(error)) == fault
            &&& nack.next(Err(error)) == fault
        }),
{
}

/// A record that cannot be written ends the dispatch as a fault of the store, whatever was to
/// follow; a record that was written is followed by just that.
pub proof fn law_records_come_first(
    nack: StartNack,
    outcome: DispatchOneOutcome,
    record: PhysicalRecord,
    second: PhysicalRecord,
    any: HistoryRecord,
    error: Error,
)
    ensures
        any.next(Err(error)) == DispatchStep::Finished(Err(DispatchError::Persistence(error))),
        (HistoryRecord { record, after: AfterRecord::Nack(nack) }).next(Ok(()))
            == DispatchStep::NackStart(nack),
        (HistoryRecord { record, after: AfterRecord::Retain { record: second, outcome } }).next(
            Ok(()),
        ) == DispatchStep::RecordHistory(
            HistoryRecord { record: second, after: AfterRecord::Finish(outcome) },
        ),
        (HistoryRecord { record, after: AfterRecord::Finish(outcome) }).next(Ok(()))
            == DispatchStep::Finished(Ok(outcome)),
{
}

/// A claim is composed step by step for that claim: its durable binding, the environment of the
/// binding, and, with an installed adapter, the durable execution.
pub proof fn law_claims_are_composed(
    query: ClaimQuery,
    claim: Claim,
    binding: AuthoritativeExecutionBinding,
    environment: ResolvedExecutionEnvironment,
    snapshot: ExecutionLaunchSnapshot,
    installed: spec_fn(Seq<char>) -> bool,
)
    requires
        installed(environment.adapter_kind@),
    ensures
        ({
            let physical = ResolvedPhysicalExecutionEnvironment { binding, environment };
            let asked = EnvironmentQuery { claim, binding };
            let assembly = RequestAssembly { claim, snapshot, physical };
            &&& query.next(Ok(None)) == DispatchStep::Finished(Ok(DispatchOneOutcome::NoWork))
            &&& query.next(Ok(Some(claim))) == DispatchStep::ResolveBinding(BindingQuery { claim })
            &&& composition_continued((BindingQuery { claim }).next(Ok(binding)))
                == DispatchStep::ResolveEnvironment(asked)
            &&& asked.next(Ok(environment), installed) == CompositionStep::Composed(claim, physical)
            &&& composition_continued(CompositionStep::Composed(claim, physical))
                == DispatchStep::CreateExecution(ExecutionCreation { claim, physical })
            &&& (ExecutionCreation { claim, physical }).next(Ok(snapshot))
                == DispatchStep::AssembleRequest(assembly)
            &&& assembly.next(Ok(())) == DispatchStep::StartPhysical(
                PhysicalStart {
                    launch: LaunchedExecution {
                        claim,
                        execution_id: snapshot.execution_id,
                        request_id: snapshot.request_id,
                    },
                    adapter_kind: environment.adapter_kind,
                },
            )
        }),
{
}

/// What refuses a claim: rejected authority ends the dispatch and nothing is touched; a missing
/// configuration and a missing adapter are reported with their cause.
pub proof fn law_refused_claims_are_told(
    claim: Claim,
    binding: AuthoritativeExecutionBinding,
    environment: ResolvedExecutionEnvironment,
    missing: ResolutionError,
    error: Error,
    installed: spec_fn(Seq<char>) -> bool,
)
    requires
        !installed(environment.adapter_kind@),
    ensures
        ({
            let asked = EnvironmentQuery { claim, binding };
            &&& (BindingQuery { claim }).next(Err(error)) == CompositionStep::Refused(
                claim,
                DispatchError::Authority(error),
            )
            &&& composition_continued((BindingQuery { claim }).next(Err(error)))
                == DispatchStep::Finished(Ok(DispatchOneOutcome::AuthorityRejected))
            &&& composition_continued(asked.next(Err(missing), installed))
                == DispatchStep::ReportUnavailable(
                UnavailableReport { claim, cause: DispatchError::Configuration(missing) },
            )
            &&& composition_continued(asked.next(Ok(environment), installed))
                == DispatchStep::ReportUnavailable(
                UnavailableReport {
                    claim,
                    cause: DispatchError::AdapterAvailability(
                        AdapterUnavailable { adapter_kind: environment.adapter_kind },
                    ),
                },
            )
        }),
{
}

/// A composition that failed is told with its cause once the store took the report, and also where
/// the claim had lost its authority by then.
pub proof fn law_unavailable_is_told_with_its_cause(
    report: UnavailableReport,
    reply: Result<(), Error>,
    step: DispatchStep,
)
    requires
        reply matches Err(error) ==> error is StaleAuthority || error is InvalidAuthority,
        report.leads_to(reply, step),
    ensures
        step matches DispatchStep::Finished(
            Ok(DispatchOneOutcome::ConfigurationUnavailable { detail }),
        ) && detail@ == report.cause.detail(),
        UnavailableReport::report_text()
            == "runtime composition unavailable (target/profile/adapter)"@,
{
}

/// An execution that the store does not create is no start: a storage fault is a fault of the
/// store, and any other refusal one of authority.  So is a request that cannot be assembled.
pub proof fn law_uncreated_execution_is_not_started(
    creation: ExecutionCreation,
    assembly: RequestAssembly,
    error: Error,
    detail: String,
)
    ensures
        creation.next(Err(Error::StorageFailure(detail))) == DispatchStep::Finished(
            Err(DispatchError::Persistence(Error::StorageFailure(detail))),
        ),
        !(error is StorageFailure) ==> creation.next(Err(error)) == DispatchStep::Finished(
            Err(DispatchError::Authority(error)),
        ),
        assembly.next(Err(detail)) == DispatchStep::Finished(
            Err(DispatchError::Authority(Error::InvalidAuthority(detail))),
        ),
{
}

/// The class that an adapter error gives to a start.
pub proof fn law_start_errors_are_classed(text: String)
    ensures
        start_error_class(AdapterError::Unavailable(text)) == FailureClass::ResourceUnavailable,
        start_error_class(AdapterError::DeadlineExceeded(text)) == FailureClass::Timeout,
        start_error_class(AdapterError::Protocol(text)) == FailureClass::AdapterProtocolFailure,
        start_error_class(AdapterError::Other(text)) == FailureClass::StartFailure,
{
}

/// Only what composition and the adapter report has a failure class of a task.
pub proof fn law_dispatch_errors_are_classed(
    error: Error,
    resolution: ResolutionError,
    unavailable: AdapterUnavailable,
    invocation: AdapterError,
)
    ensures
        DispatchError::Authority(error).failure_class() is None,
        DispatchError::Persistence(error).failure_class() is None,
        DispatchError::Configuration(resolution).failure_class() == Some(
            FailureClass::ResourceUnavailable,
        ),
        DispatchError::AdapterAvailability(unavailable).failure_class() == Some(
            FailureClass::ResourceUnavailable,
        ),
        DispatchError::AdapterInvocation(invocation).failure_class() == Some(
            start_error_class(invocation),
        ),
{
}

/// An adapter error is the absence of no execution: the attempt is taken back as failed, without
/// any proof.  After a collection the handle is recorded before that.
pub proof fn law_adapter_error_proves_nothing(
    start: PhysicalStart,
    collection: OutcomeCollection,
    error: AdapterError,
)
    ensures
        start.next(Err(error)) == DispatchStep::NackStart(
            StartNack {
                launch: start.launch,
                failure_class: start_error_class(error),
                terminal_confirmed: false,
                quiescent_confirmed: false,
                handle: None,
                verdict: StartVerdict::Failed,
            },
        ),
        collection.next(Err(error)) == DispatchStep::RecordHistory(
            HistoryRecord {
                record: PhysicalRecord {
                    execution_id: collection.launch.execution_id,
                    state: ExecutionState::Unknown,
                    handle: Some(collection.handle),
                    payload: None,
                    failure_class: Some(start_error_class(error)),
                    terminal_confirmed: false,
                    quiescent_confirmed: false,
                },
                after: AfterRecord::Nack(
                    StartNack {
                        launch: collection.launch,
                        failure_class: start_error_class(error),
                        terminal_confirmed: false,
                        quiescent_confirmed: false,
                        handle: Some(collection.handle),
                        verdict: StartVerdict::Failed,
                    },
                ),
            },
        ),
{
}

/// An unresolved start is one step: the record of an unknown execution with the observed handle and
/// the class, and after it the NACK with the same class and handle, neither with any proof.
pub proof fn law_unresolved_starts_are_recorded(
    launch: LaunchedExecution,
    failure_class: FailureClass,
    handle: JsonValue,
    verdict: StartVerdict,
)
    ensures
        ({
            let nack = StartNack {
                launch,
                failure_class,
                terminal_confirmed: false,
                quiescent_confirmed: false,
                handle: Some(handle),
                verdict,
            };
            unresolved(launch, failure_class, Some(handle), verdict) == DispatchStep::RecordHistory(
                HistoryRecord {
                    record: PhysicalRecord {
                        execution_id: launch.execution_id,
                        state: ExecutionState::Unknown,
                        handle: Some(handle),
                        payload: None,
                        failure_class: Some(failure_class),
                        terminal_confirmed: false,
                        quiescent_confirmed: false,
                    },
                    after: AfterRecord::Nack(nack),
                },
            )
        }),
{
}

/// What a start observation leads to: exact RUNNING to its confirmation, a claimed end to its
/// collection with the adapter that started it, and all else is unresolved and ambiguous.
pub proof fn law_start_observations_lead_on(start: PhysicalStart, observation: StartObservation)
    ensures
        ({
            let handle = observation.runtime_handle;
            match start_kind(observation) {
                StartObservationKind::ExactRunning => start.next(Ok(observation))
                    == DispatchStep::ConfirmRunning(
                    RunningConfirmation { launch: start.launch, handle },
                ),
                StartObservationKind::TerminalCandidate => start.next(Ok(observation))
                    == DispatchStep::CollectOutcome(
                    OutcomeCollection {
                        launch: start.launch,
                        adapter_kind: start.adapter_kind,
                        handle,
                    },
                ),
                StartObservationKind::Unresolved { failure_class } => start.next(Ok(observation))
                    == unresolved(
                    start.launch,
                    failure_class,
                    Some(handle),
                    StartVerdict::Ambiguous,
                ),
            }
        }),
{
}

/// An outcome with terminal proof of an execution that ended is final: a success is presented with
/// what was collected, and a failure is taken back with its class, with the proof, and with the
/// handle.
pub proof fn law_proved_end_is_final(collection: OutcomeCollection, outcome: ExecutionOutcome)
    requires
        outcome.terminal_confirmed,
    ensures
        outcome.state == ExecutionState::Succeeded ==> collection.next(Ok(outcome))
            == DispatchStep::AckSuccess(
            SuccessAck { launch: collection.launch, handle: collection.handle, outcome },
        ),
        outcome.state == ExecutionState::Failed || outcome.state == ExecutionState::Terminated ==> (
        collection.next(Ok(outcome)) matches DispatchStep::NackStart(nack) && nack.launch
            == collection.launch && nack.handle == Some(collection.handle)
            && nack.terminal_confirmed && nack.quiescent_confirmed == outcome.quiescent_confirmed
            && nack.verdict == StartVerdict::Failed && match outcome.failure_class {
            Some(class) => nack.failure_class == class,
            None => nack.failure_class == FailureClass::StartFailure,
        }),
{
}

/// An outcome without terminal proof settles nothing: it is unresolved, as failed where it claims a
/// success or quiescence that it does not prove, and else as ambiguous with the class that was
/// collected.
pub proof fn law_unproved_end_settles_nothing(
    collection: OutcomeCollection,
    outcome: ExecutionOutcome,
)
    requires
        !outcome.terminal_confirmed,
    ensures
        ({
            let (class, verdict) = if outcome.state == ExecutionState::Lost
                && outcome.quiescent_confirmed {
                (FailureClass::AdapterProtocolFailure, StartVerdict::Failed)
            } else if outcome.state == ExecutionState::Succeeded {
                (FailureClass::InvalidResult, StartVerdict::Failed)
            } else if outcome.quiescent_confirmed {
                (FailureClass::AdapterProtocolFailure, StartVerdict::Failed)
            } else {
                match outcome.failure_class {
                    Some(collected) => (collected, StartVerdict::Ambiguous),
                    None => (FailureClass::ExecutionLost, StartVerdict::Ambiguous),
                }
            };
            collection.next(Ok(outcome)) == unresolved(
                collection.launch,
                class,
                Some(collection.handle),
                verdict,
            )
        }),
{
}

/// Terminal proof of an execution that is said to be active or LOST is a protocol failure: the
/// attempt is taken back as failed, and the proof is not passed on.
pub proof fn law_proof_of_no_end_is_not_passed_on(
    collection: OutcomeCollection,
    outcome: ExecutionOutcome,
)
    requires
        outcome.terminal_confirmed,
        match outcome.state {
            ExecutionState::Starting | ExecutionState::Running | ExecutionState::Unknown
            | ExecutionState::Lost => true,
            _ => false,
        },
    ensures
        collection.next(Ok(outcome)) == unresolved(
            collection.launch,
            FailureClass::AdapterProtocolFailure,
            Some(collection.handle),
            StartVerdict::Failed,
        ),
{
}

/// How a NACK is reported: with the ids of the execution that was launched, as ambiguous or as
/// failed with the class of the NACK.
pub open spec fn nack_report(nack: StartNack) -> DispatchOneOutcome {
    match nack.verdict {
        StartVerdict::Ambiguous => DispatchOneOutcome::StartAmbiguous {
            execution_id: nack.launch.execution_id,
            request_id: nack.launch.request_id,
        },
        StartVerdict::Failed => DispatchOneOutcome::StartFailed {
            execution_id: nack.launch.execution_id,
            request_id: nack.launch.request_id,
            failure_class: nack.failure_class,
        },
    }
}

/// An accepted NACK ends the dispatch with its report.  Where the end is proved and quiescence is
/// not, the handle is recorded before that, for the clean-up that is still owed.
pub proof fn law_accepted_nack_is_reported(nack: StartNack)
    ensures
        nack.terminal_confirmed && !nack.quiescent_confirmed && nack.handle is Some ==> nack.next(
            Ok(()),
        ) == DispatchStep::RecordHistory(
            HistoryRecord {
                record: PhysicalRecord {
                    execution_id: nack.launch.execution_id,
                    state: ExecutionState::Failed,
                    handle: nack.handle,
                    payload: None,
                    failure_class: None,
                    terminal_confirmed: true,
                    quiescent_confirmed: false,
                },
                after: AfterRecord::Finish(nack_report(nack)),
            },
        ),
        !nack.terminal_confirmed || nack.quiescent_confirmed || nack.handle is None ==> nack.next(
            Ok(()),
        ) == DispatchStep::Finished(Ok(nack_report(nack))),
{
}

/// A NACK that lost its authority leaves a record instead, of what was proved and no more, and is
/// reported like an accepted one.
pub proof fn law_stale_nack_is_recorded(nack: StartNack, error: Error)
    requires
        error is StaleAuthority || error is InvalidAuthority,
    ensures
        nack.next(Err(error)) matches DispatchStep::RecordHistory(history) && ({
            &&& history.record.execution_id == nack.launch.execution_id
            &&& history.record.state == (if nack.terminal_confirmed {
                ExecutionState::Failed
            } else {
                ExecutionState::Unknown
            })
            &&& history.record.handle == nack.handle
            &&& history.record.payload is None
            &&& history.record.failure_class == Some(nack.failure_class)
            &&& history.record.terminal_confirmed == nack.terminal_confirmed
            &&& history.record.quiescent_confirmed == (nack.quiescent_confirmed
                && nack.terminal_confirmed)
            &&& if nack.terminal_confirmed && !nack.quiescent_confirmed && nack.handle is Some {
                history.after == (AfterRecord::Retain {
                    record: PhysicalRecord {
                        execution_id: nack.launch.execution_id,
                        state: ExecutionState::Failed,
                        handle: nack.handle,
                        payload: None,
                        failure_class: None,
                        terminal_confirmed: true,
                        quiescent_confirmed: false,
                    },
                    outcome: nack_report(nack),
                })
            } else {
                history.after == AfterRecord::Finish(nack_report(nack))
            }
        }),
{
}

/// The step will end, or has ended, in an ambiguous start.
pub open spec fn ends_ambiguous(step: DispatchStep) -> bool {
    match step {
        DispatchStep::NackStart(nack) => nack.verdict == StartVerdict::Ambiguous,
        DispatchStep::RecordHistory(history) => match history.after {
            AfterRecord::Nack(nack) => nack.verdict == StartVerdict::Ambiguous,
            AfterRecord::Retain { outcome, .. } => outcome is StartAmbiguous,
            AfterRecord::Finish(outcome) => outcome is StartAmbiguous,
        },
        DispatchStep::Finished(Ok(outcome)) => outcome is StartAmbiguous,
        _ => false,
    }
}

/// Step `b` follows from step `a` by a reply that leaves the start open: an observation that is
/// neither exact RUNNING nor a claimed end, an outcome without terminal proof, or lost authority.
pub open spec fn leaves_start_open(a: DispatchStep, b: DispatchStep) -> bool {
    match a {
        DispatchStep::StartPhysical(s) => exists|observation: StartObservation|
            b == #[trigger] s.next(Ok(observation)) && (observation.ambiguous || (observation.state
                == ExecutionState::Running && (observation.terminal_confirmed
                || observation.quiescent_confirmed)) || (observation.state
                != ExecutionState::Running && observation.state != ExecutionState::Terminated)),
        DispatchStep::CollectOutcome(s) => exists|outcome: ExecutionOutcome|
            b == #[trigger] s.next(Ok(outcome)) && !outcome.terminal_confirmed,
        DispatchStep::ConfirmRunning(s) => exists|error: Error|
            b == #[trigger] s.next(Err(error)) && (error is StaleAuthority
                || error is InvalidAuthority),
        DispatchStep::AckSuccess(s) => exists|error: Error|
            b == #[trigger] s.next(Err(error)) && (error is StaleAuthority
                || error is InvalidAuthority),
        _ => false,
    }
}

proof fn lemma_ambiguity_has_a_source(a: DispatchStep, b: DispatchStep)
    requires
        dispatch_follows(a, b),
        ends_ambiguous(b),
    ensures
        ends_ambiguous(a) || leaves_start_open(a, b),
{
    match a {
        DispatchStep::StartPhysical(s) => {
            let reply = choose|reply: Result<StartObservation, AdapterError>|
                b == #[trigger] s.next(reply);
            assert(b == s.next(Ok(reply->Ok_0)));
        },
        DispatchStep::CollectOutcome(s) => {
            let reply = choose|reply: Result<ExecutionOutcome, AdapterError>|
                b == #[trigger] s.next(reply);
            assert(b == s.next(Ok(reply->Ok_0)));
        },
        DispatchStep::ConfirmRunning(s) => {
            let reply = choose|reply: Result<(), Error>| b == #[trigger] s.next(reply);
            assert(b == s.next(Err(reply->Err_0)));
        },
        DispatchStep::AckSuccess(s) => {
            let reply = choose|reply: Result<Option<ResultId>, Error>| b == #[trigger] s.next(reply);
            assert(b == s.next(Err(reply->Err_0)));
        },
        _ => {},
    }
}

/// A dispatch ends in an ambiguous start only after a reply that left the start open: an ambiguous
/// or unresolved observation, an outcome without terminal proof, or a loss of authority.
pub proof fn law_ambiguity_has_a_source(run: Seq<DispatchStep>, j: int)
    requires
        dispatch_run(run),
        0 <= j < run.len(),
        ends_ambiguous(run[j]),
    ensures
        exists|i: int| 0 <= i < j && #[trigger] leaves_start_open(run[i], run[i + 1]),
    decreases j,
{
    assert(j > 0);
    assert(dispatch_follows(run[j - 1], run[j - 1 + 1]));
    lemma_ambiguity_has_a_source(run[j - 1], run[j]);
    if ends_ambiguous(run[j - 1]) {
        law_ambiguity_has_a_source(run, j - 1);
    } else {
        assert(leaves_start_open(run[j - 1], run[j - 1 + 1]));
    }
}

/// The text of a dispatch error says what failed and then the cause.
pub proof fn law_dispatch_errors_name_their_cause(
    error: Error,
    resolution: ResolutionError,
    unavailable: AdapterUnavailable,
    invocation: AdapterError,
)
    ensures
        DispatchError::Authority(error).detail() == "dispatch authority rejected: "@
            + error.detail(),
        DispatchError::Configuration(resolution).detail() == "dispatch configuration unavailable: "@
            + resolution.detail(),
        DispatchError::AdapterAvailability(unavailable).detail()
            == "dispatch adapter unavailable: "@ + unavailable.detail(),
        DispatchError::AdapterInvocation(invocation).detail()
            == "dispatch adapter invocation failed: "@ + invocation.detail(),
        DispatchError::Persistence(error).detail() == "dispatch persistence failed: "@
            + error.detail(),
{
}

/// What the store is asked in a dispatch is asked for the attempt and the epoch of the claim and for
/// the execution that was launched, with the handle, the payload, the class and the proof that the
/// step carries.  A NACK never lets the incarnation be used again.
pub proof fn law_dispatch_asks_for_its_launch(
    confirmation: RunningConfirmation,
    ack: SuccessAck,
    nack: StartNack,
    confirm: ConfirmCommand,
    accept: AckCommand,
    refuse: NackCommand,
)
    requires
        confirmation.asks(confirm),
        ack.asks(accept),
        nack.asks(refuse),
    ensures
        confirm.attempt_id == confirmation.launch.claim.attempt_id,
        confirm.lease_epoch == confirmation.launch.claim.lease_epoch,
        confirm.execution_id == confirmation.launch.execution_id,
        confirm.handle == confirmation.handle,
        accept.attempt_id == ack.launch.claim.attempt_id,
        accept.lease_epoch == ack.launch.claim.lease_epoch,
        accept.execution_id == ack.launch.execution_id,
        match ack.outcome.payload {
            Some(document) => accept.payload@ == document@,
            None => accept.payload@ == "null"@,
        },
        accept.summary == ack.outcome.summary,
        accept.quiescent_confirmed == ack.outcome.quiescent_confirmed,
        accept.incarnation_reusable == ack.outcome.incarnation_reusable,
        refuse.attempt_id == nack.launch.claim.attempt_id,
        refuse.lease_epoch == nack.launch.claim.lease_epoch,
        refuse.execution_id == nack.launch.execution_id,
        refuse.failure_class == nack.failure_class,
        refuse.terminal_confirmed == nack.terminal_confirmed,
        refuse.quiescent_confirmed == nack.quiescent_confirmed,
        !refuse.incarnation_reusable,
{
}

/// A start that the adapter fails is taken back from the store for the claim that it was made for,
/// as what the adapter's error says, without proof and without reuse.
pub proof fn law_failed_start_asks_without_proof(
    start: PhysicalStart,
    error: AdapterError,
    refuse: NackCommand,
)
    requires
        start.next(Err(error)) is NackStart,
        start.next(Err(error))->NackStart_0.asks(refuse),
    ensures
        refuse == (NackCommand {
            attempt_id: start.launch.claim.attempt_id,
            lease_epoch: start.launch.claim.lease_epoch,
            failure_class: match error {
                AdapterError::Unavailable(_) => FailureClass::ResourceUnavailable,
                AdapterError::DeadlineExceeded(_) => FailureClass::Timeout,
                AdapterError::Protocol(_) => FailureClass::AdapterProtocolFailure,
                AdapterError::Other(_) => FailureClass::StartFailure,
            },
            execution_id: start.launch.execution_id,
            terminal_confirmed: false,
            quiescent_confirmed: false,
            incarnation_reusable: false,
        }),
{
}

} // verus!

//! Reconciliation: after a restart, each execution that may still be at work is asked about.
//!
//! Nothing is started here, and a recorded RUNNING admits nobody: only a fresh confirmation by the
//! store does.  What stays unresolved is taken back without proof, with its handle kept.
use crate::adapters::AdapterRegistry;
use crate::dispatch::SupervisionAdmissionSeed;
use crate::domain::{
    copy_json, copy_text, payload_or_null, payload_text, AckCommand, AdapterError, ConfirmCommand,
    Error, ExecutionOutcome, ExecutionState, FailureClass, JsonValue, NackCommand,
    PendingTerminalRecord, PhysicalRecord, ResultId, StartObservation,
};
use crate::json::{persisted_handle_hint, says_nothing, shape_of};
use crate::observation::{
    adapter_invocation_failure_class, invocation_class, normalize_execution_outcome,
    normalize_start_observation, outcome_kind, start_kind, ExecutionOutcomeKind,
    StartObservationKind,
};
use crate::replay::{ExecutionReconciliationSnapshot, RecoveryError};
use crate::supervision::SupervisionError;
use crate::text::join2;
use vstd::prelude::*;

verus! {

/// How the reconciliation of one execution ended.
#[derive(Debug, PartialEq, Eq)]
pub enum ReconcileExecutionOutcome {
    /// A fresh grant was given and its admission was taken.
    Readmitted,
    /// Authority is gone: history is kept and nobody is admitted.
    PhysicalHistoryOnly,
    TaskCompleted { result_id: ResultId },
    WriterSafetySuspendedAfterSuccess,
    TerminalFailure { failure_class: FailureClass },
    /// Nothing was resolved, and the attempt was taken back.
    Unresolved { failure_class: FailureClass },
}

/// Asks the adapter what became of the start, by request and by the persisted handle.
#[derive(Debug, PartialEq, Eq)]
pub struct StartReconciliation {
    pub snapshot: ExecutionReconciliationSnapshot,
    pub hint: Option<JsonValue>,
}

/// Asks the store to confirm RUNNING and renew the lease.
#[derive(Debug, PartialEq, Eq)]
pub struct GrantRequest {
    pub snapshot: ExecutionReconciliationSnapshot,
    pub handle: JsonValue,
}

/// Hands the fresh grant over to supervision.
#[derive(Debug, PartialEq, Eq)]
pub struct AdmissionHandOver {
    pub grant: SupervisionAdmissionSeed,
}

/// Asks the adapter for the outcome of an execution that claims to have ended.
#[derive(Debug, PartialEq, Eq)]
pub struct ReconcileCollection {
    pub snapshot: ExecutionReconciliationSnapshot,
    pub handle: JsonValue,
}

/// Asks the store to make a collected success durable.
#[derive(Debug, PartialEq, Eq)]
pub struct PendingSuccess {
    pub snapshot: ExecutionReconciliationSnapshot,
    pub handle: JsonValue,
    pub outcome: ExecutionOutcome,
}

/// Asks the store to make a collected failure durable.
#[derive(Debug, PartialEq, Eq)]
pub struct PendingFailure {
    pub snapshot: ExecutionReconciliationSnapshot,
    pub handle: JsonValue,
    pub outcome: ExecutionOutcome,
    pub failure_class: FailureClass,
}

/// Asks the store to acknowledge a collected success.
#[derive(Debug, PartialEq, Eq)]
pub struct ReconcileAck {
    pub snapshot: ExecutionReconciliationSnapshot,
    pub handle: JsonValue,
    pub outcome: ExecutionOutcome,
}

/// Asks the store to take the attempt of a collected failure back.
#[derive(Debug, PartialEq, Eq)]
pub struct ReconcileNack {
    pub snapshot: ExecutionReconciliationSnapshot,
    pub outcome: ExecutionOutcome,
    pub failure_class: FailureClass,
}

/// Asks the store to keep the handle of an unresolved execution.
#[derive(Debug, PartialEq, Eq)]
pub struct UnresolvedRecord {
    pub record: PhysicalRecord,
    pub nack: UnresolvedNack,
}

/// Asks the store to take the attempt of an unresolved execution back, without proof.
#[derive(Debug, PartialEq, Eq)]
pub struct UnresolvedNack {
    pub snapshot: ExecutionReconciliationSnapshot,
    pub failure_class: FailureClass,
}

/// Asks the store to write history after authority was lost.
#[derive(Debug, PartialEq, Eq)]
pub struct StaleHistory {
    pub record: PhysicalRecord,
}

/// Where the reconciliation of one execution stands.
#[derive(Debug, PartialEq, Eq)]
pub enum ReconcileStep {
    ReconcileStart(StartReconciliation),
    ConfirmRunning(GrantRequest),
    HandOver(AdmissionHandOver),
    CollectOutcome(ReconcileCollection),
    RecordPendingSuccess(PendingSuccess),
    RecordPendingFailure(PendingFailure),
    AckSuccess(ReconcileAck),
    NackFailure(ReconcileNack),
    RecordUnresolved(UnresolvedRecord),
    NackUnresolved(UnresolvedNack),
    RecordStale(StaleHistory),
    Finished(Result<ReconcileExecutionOutcome, RecoveryError>),
}

/// The record that keeps a handle before a NACK, as far as the recorded state allows one: STARTING
/// and UNKNOWN become UNKNOWN, RUNNING stays RUNNING, and every other state is left alone.
pub open spec fn kept_handle(
    snapshot: ExecutionReconciliationSnapshot,
    failure_class: FailureClass,
    handle: JsonValue,
) -> Option<PhysicalRecord> {
    let record = PhysicalRecord {
        execution_id: snapshot.execution_id,
        state: snapshot.persisted_state,
        handle: Some(handle),
        payload: None,
        failure_class: None,
        terminal_confirmed: false,
        quiescent_confirmed: false,
    };
    match snapshot.persisted_state {
        ExecutionState::Starting | ExecutionState::Unknown => Some(
            PhysicalRecord {
                state: ExecutionState::Unknown,
                failure_class: Some(failure_class),
                ..record
            },
        ),
        ExecutionState::Running => Some(record),
        _ => None,
    }
}

/// An unresolved execution: its handle is kept, then its attempt is taken back without proof.
pub open spec fn left_unresolved(
    snapshot: ExecutionReconciliationSnapshot,
    failure_class: FailureClass,
    handle: JsonValue,
) -> ReconcileStep {
    let nack = UnresolvedNack { snapshot, failure_class };
    match kept_handle(snapshot, failure_class, handle) {
        Some(record) => ReconcileStep::RecordUnresolved(UnresolvedRecord { record, nack }),
        None => ReconcileStep::NackUnresolved(nack),
    }
}

fn apply_nack(
    snapshot: ExecutionReconciliationSnapshot,
    failure_class: FailureClass,
    handle: JsonValue,
) -> (step: ReconcileStep)
    ensures
        step == left_unresolved(snapshot, failure_class, handle),
{
    match snapshot.persisted_state {
        ExecutionState::Starting | ExecutionState::Unknown => {
            let record = PhysicalRecord {
                execution_id: snapshot.execution_id.clone(),
                state: ExecutionState::Unknown,
                handle: Some(handle),
                payload: None,
                failure_class: Some(failure_class),
                terminal_confirmed: false,
                quiescent_confirmed: false,
            };
            ReconcileStep::RecordUnresolved(
                UnresolvedRecord { record, nack: UnresolvedNack { snapshot, failure_class } },
            )
        },
        ExecutionState::Running => {
            let record = PhysicalRecord {
                execution_id: snapshot.execution_id.clone(),
                state: ExecutionState::Running,
                handle: Some(handle),
                payload: None,
                failure_class: None,
                terminal_confirmed: false,
                quiescent_confirmed: false,
            };
            ReconcileStep::RecordUnresolved(
                UnresolvedRecord { record, nack: UnresolvedNack { snapshot, failure_class } },
            )
        },
        _ => ReconcileStep::NackUnresolved(UnresolvedNack { snapshot, failure_class }),
    }
}

/// What starts the reconciliation of an execution.  A lost one is closed, if its authority is
/// current; one that is at work is asked about, if its adapter is installed; one in a terminal
/// state does not belong here.
pub open spec fn reconcile_started(
    snapshot: ExecutionReconciliationSnapshot,
    installed: bool,
    step: ReconcileStep,
) -> bool {
    match snapshot.persisted_state {
        ExecutionState::Lost => if snapshot.structurally_current {
            step == left_unresolved(snapshot, FailureClass::ExecutionLost, snapshot.runtime_handle)
        } else {
            step == ReconcileStep::Finished(Ok(ReconcileExecutionOutcome::PhysicalHistoryOnly))
        },
        ExecutionState::Succeeded | ExecutionState::Failed | ExecutionState::Terminated => {
            step matches ReconcileStep::Finished(Err(RecoveryError::Invariant(m))) && m@
                == "reconcile_one_execution called for terminal execution "@
                + snapshot.execution_id@
        },
        ExecutionState::Starting | ExecutionState::Running | ExecutionState::Unknown => {
            if installed {
                step == ReconcileStep::ReconcileStart(
                    StartReconciliation {
                        snapshot,
                        hint: if says_nothing(shape_of(snapshot.runtime_handle@)) {
                            None
                        } else {
                            Some(snapshot.runtime_handle)
                        },
                    },
                )
            } else {
                step == left_unresolved(
                    snapshot,
                    FailureClass::ResourceUnavailable,
                    snapshot.runtime_handle,
                )
            }
        },
    }
}

/// Starts the reconciliation of one execution, routed by the recorded adapter kind.
pub fn reconcile_one_execution<A>(
    snapshot: ExecutionReconciliationSnapshot,
    adapters: &AdapterRegistry<A>,
) -> (step: ReconcileStep)
    ensures
        reconcile_started(snapshot, adapters.installs(snapshot.adapter_kind@), step),
{
    match snapshot.persisted_state {
        ExecutionState::Lost => close_lost(snapshot),
        ExecutionState::Succeeded | ExecutionState::Failed | ExecutionState::Terminated => {
            ReconcileStep::Finished(
                Err(
                    RecoveryError::Invariant(
                        join2(
                            "reconcile_one_execution called for terminal execution ",
                            snapshot.execution_id.text.as_str(),
                        ),
                    ),
                ),
            )
        },
        ExecutionState::Starting | ExecutionState::Running | ExecutionState::Unknown => {
            reconcile_active_physical(snapshot, adapters)
        },
    }
}

fn close_lost(snapshot: ExecutionReconciliationSnapshot) -> (step: ReconcileStep)
    ensures
        step == if snapshot.structurally_current {
            left_unresolved(snapshot, FailureClass::ExecutionLost, snapshot.runtime_handle)
        } else {
            ReconcileStep::Finished(Ok(ReconcileExecutionOutcome::PhysicalHistoryOnly))
        },
{
    if !snapshot.structurally_current {
        return ReconcileStep::Finished(Ok(ReconcileExecutionOutcome::PhysicalHistoryOnly));
    }
    let handle = snapshot.runtime_handle.clone();
    apply_nack(snapshot, FailureClass::ExecutionLost, handle)
}

fn reconcile_active_physical<A>(
    snapshot: ExecutionReconciliationSnapshot,
    adapters: &AdapterRegistry<A>,
) -> (step: ReconcileStep)
    ensures
        step == if adapters.installs(snapshot.adapter_kind@) {
            ReconcileStep::ReconcileStart(
                StartReconciliation {
                    snapshot,
                    hint: if says_nothing(shape_of(snapshot.runtime_handle@)) {
                        None
                    } else {
                        Some(snapshot.runtime_handle)
                    },
                },
            )
        } else {
            left_unresolved(
                snapshot,
                FailureClass::ResourceUnavailable,
                snapshot.runtime_handle,
            )
        },
{
    if adapters.resolve(snapshot.adapter_kind.as_str()).is_err() {
        let handle = snapshot.runtime_handle.clone();
        return apply_nack(snapshot, FailureClass::ResourceUnavailable, handle);
    }
    let hint = persisted_handle_hint(&snapshot.runtime_handle);
    ReconcileStep::ReconcileStart(StartReconciliation { snapshot, hint })
}

impl StartReconciliation {
    /// Exact RUNNING asks for a grant, a claim of an end is collected, and the rest is unresolved.
    pub open spec fn next(self, reply: Result<StartObservation, AdapterError>) -> ReconcileStep {
        match reply {
            Err(error) => left_unresolved(
                self.snapshot,
                invocation_class(error.kind_of()),
                self.snapshot.runtime_handle,
            ),
            Ok(observation) => match start_kind(observation) {
                StartObservationKind::ExactRunning => ReconcileStep::ConfirmRunning(
                    GrantRequest { snapshot: self.snapshot, handle: observation.runtime_handle },
                ),
                StartObservationKind::TerminalCandidate => ReconcileStep::CollectOutcome(
                    ReconcileCollection {
                        snapshot: self.snapshot,
                        handle: observation.runtime_handle,
                    },
                ),
                StartObservationKind::Unresolved { failure_class } => left_unresolved(
                    self.snapshot,
                    failure_class,
                    observation.runtime_handle,
                ),
            },
        }
    }

    pub fn resume(self, reply: Result<StartObservation, AdapterError>) -> (step: ReconcileStep)
        ensures
            step == self.next(reply),
    {
        match reply {
            Err(error) => {
                let handle = self.snapshot.runtime_handle.clone();
                apply_nack(self.snapshot, adapter_invocation_failure_class(&error), handle)
            },
            Ok(observation) => match normalize_start_observation(&observation) {
                StartObservationKind::ExactRunning => ReconcileStep::ConfirmRunning(
                    GrantRequest { snapshot: self.snapshot, handle: observation.runtime_handle },
                ),
                StartObservationKind::TerminalCandidate => ReconcileStep::CollectOutcome(
                    ReconcileCollection {
                        snapshot: self.snapshot,
                        handle: observation.runtime_handle,
                    },
                ),
                StartObservationKind::Unresolved { failure_class } => apply_nack(
                    self.snapshot,
                    failure_class,
                    observation.runtime_handle,
                ),
            },
        }
    }
}

impl GrantRequest {
    /// What the store is asked.
    pub open spec fn asks(self, command: ConfirmCommand) -> bool {
        command == (ConfirmCommand {
            attempt_id: self.snapshot.attempt_id,
            lease_epoch: self.snapshot.lease_epoch,
            execution_id: self.snapshot.execution_id,
            handle: self.handle,
        })
    }

    pub fn command(&self) -> (command: ConfirmCommand)
        ensures
            self.asks(command),
    {
        ConfirmCommand {
            attempt_id: self.snapshot.attempt_id.clone(),
            lease_epoch: self.snapshot.lease_epoch,
            execution_id: self.snapshot.execution_id.clone(),
            handle: self.handle.clone(),
        }
    }

    /// The identity that a grant confirms.
    pub open spec fn grant(self) -> SupervisionAdmissionSeed {
        SupervisionAdmissionSeed {
            execution_id: self.snapshot.execution_id,
            request_id: self.snapshot.request_id,
            attempt_id: self.snapshot.attempt_id,
            lease_epoch: self.snapshot.lease_epoch,
        }
    }

    /// Lost authority keeps the sighting as history.
    pub open spec fn next(self, reply: Result<(), Error>) -> ReconcileStep {
        match reply {
            Ok(_) => ReconcileStep::HandOver(AdmissionHandOver { grant: self.grant() }),
            Err(error) => if error.authority_lost() {
                ReconcileStep::RecordStale(
                    StaleHistory {
                        record: PhysicalRecord {
                            execution_id: self.snapshot.execution_id,
                            state: ExecutionState::Running,
                            handle: Some(self.handle),
                            payload: None,
                            failure_class: None,
                            terminal_confirmed: false,
                            quiescent_confirmed: false,
                        },
                    },
                )
            } else {
                ReconcileStep::Finished(Err(RecoveryError::of_kernel(error)))
            },
        }
    }

    pub fn resume(self, reply: Result<(), Error>) -> (step: ReconcileStep)
        ensures
            step == self.next(reply),
    {
        match reply {
            Ok(_) => ReconcileStep::HandOver(
                AdmissionHandOver {
                    grant: SupervisionAdmissionSeed {
                        execution_id: self.snapshot.execution_id,
                        request_id: self.snapshot.request_id,
                        attempt_id: self.snapshot.attempt_id,
                        lease_epoch: self.snapshot.lease_epoch,
                    },
                },
            ),
            Err(error) => {
                if error.is_authority_lost() {
                    ReconcileStep::RecordStale(
                        StaleHistory {
                            record: PhysicalRecord {
                                execution_id: self.snapshot.execution_id,
                                state: ExecutionState::Running,
                                handle: Some(self.handle),
                                payload: None,
                                failure_class: None,
                                terminal_confirmed: false,
                                quiescent_confirmed: false,
                            },
                        },
                    )
                } else {
                    ReconcileStep::Finished(Err(RecoveryError::from(error)))
                }
            },
        }
    }
}

impl AdmissionHandOver {
    pub open spec fn next(self, reply: Result<(), SupervisionError>) -> ReconcileStep {
        match reply {
            Ok(_) => ReconcileStep::Finished(Ok(ReconcileExecutionOutcome::Readmitted)),
            Err(error) => ReconcileStep::Finished(Err(RecoveryError::Supervision(error))),
        }
    }

    pub fn resume(self, reply: Result<(), SupervisionError>) -> (step: ReconcileStep)
        ensures
            step == self.next(reply),
    {
        match reply {
            Ok(_) => ReconcileStep::Finished(Ok(ReconcileExecutionOutcome::Readmitted)),
            Err(error) => ReconcileStep::Finished(Err(RecoveryError::Supervision(error))),
        }
    }
}

impl ReconcileCollection {
    /// A success and a failure are made durable before the task is told; the rest is unresolved.
    pub open spec fn next(self, reply: Result<ExecutionOutcome, AdapterError>) -> ReconcileStep {
        match reply {
            Err(error) => left_unresolved(
                self.snapshot,
                invocation_class(error.kind_of()),
                self.handle,
            ),
            Ok(outcome) => match outcome_kind(outcome) {
                ExecutionOutcomeKind::Unresolved { failure_class } => left_unresolved(
                    self.snapshot,
                    failure_class,
                    self.handle,
                ),
                ExecutionOutcomeKind::TerminalSuccess => ReconcileStep::RecordPendingSuccess(
                    PendingSuccess { snapshot: self.snapshot, handle: self.handle, outcome },
                ),
                ExecutionOutcomeKind::TerminalFailure { failure_class } => {
                    ReconcileStep::RecordPendingFailure(
                        PendingFailure {
                            snapshot: self.snapshot,
                            handle: self.handle,
                            outcome,
                            failure_class,
                        },
                    )
                },
            },
        }
    }

    pub fn resume(self, reply: Result<ExecutionOutcome, AdapterError>) -> (step: ReconcileStep)
        ensures
            step == self.next(reply),
    {
        match reply {
            Err(error) => apply_nack(
                self.snapshot,
                adapter_invocation_failure_class(&error),
                self.handle,
            ),
            Ok(outcome) => match normalize_execution_outcome(&outcome) {
                ExecutionOutcomeKind::Unresolved { failure_class } => apply_nack(
                    self.snapshot,
                    failure_class,
                    self.handle,
                ),
                ExecutionOutcomeKind::TerminalSuccess => ReconcileStep::RecordPendingSuccess(
                    PendingSuccess { snapshot: self.snapshot, handle: self.handle, outcome },
                ),
                ExecutionOutcomeKind::TerminalFailure { failure_class } => {
                    ReconcileStep::RecordPendingFailure(
                        PendingFailure {
                            snapshot: self.snapshot,
                            handle: self.handle,
                            outcome,
                            failure_class,
                        },
                    )
                },
            },
        }
    }
}

impl PendingSuccess {
    /// What the store is asked.
    pub open spec fn asks(self, command: PendingTerminalRecord) -> bool {
        command == (PendingTerminalRecord {
            execution_id: self.snapshot.execution_id,
            state: ExecutionState::Succeeded,
            handle: Some(self.handle),
            payload: self.outcome.payload,
            summary: self.outcome.summary,
            failure_class: None,
            quiescent_confirmed: self.outcome.quiescent_confirmed,
            incarnation_reusable: self.outcome.incarnation_reusable,
        })
    }

    pub fn command(&self) -> (command: PendingTerminalRecord)
        ensures
            self.asks(command),
    {
        PendingTerminalRecord {
            execution_id: self.snapshot.execution_id.clone(),
            state: ExecutionState::Succeeded,
            handle: Some(self.handle.clone()),
            payload: copy_json(&self.outcome.payload),
            summary: copy_text(&self.outcome.summary),
            failure_class: None,
            quiescent_confirmed: self.outcome.quiescent_confirmed,
            incarnation_reusable: self.outcome.incarnation_reusable,
        }
    }

    pub open spec fn next(self, reply: Result<(), Error>) -> ReconcileStep {
        match reply {
            Ok(_) => ReconcileStep::AckSuccess(
                ReconcileAck {
                    snapshot: self.snapshot,
                    handle: self.handle,
                    outcome: self.outcome,
                },
            ),
            Err(error) => ReconcileStep::Finished(Err(RecoveryError::of_kernel(error))),
        }
    }

    pub fn resume(self, reply: Result<(), Error>) -> (step: ReconcileStep)
        ensures
            step == self.next(reply),
    {
        match reply {
            Ok(_) => ReconcileStep::AckSuccess(
                ReconcileAck {
                    snapshot: self.snapshot,
                    handle: self.handle,
                    outcome: self.outcome,
                },
            ),
            Err(error) => ReconcileStep::Finished(Err(RecoveryError::from(error))),
        }
    }
}

impl PendingFailure {
    /// What the store is asked.
    pub open spec fn asks(self, command: PendingTerminalRecord) -> bool {
        command == (PendingTerminalRecord {
            execution_id: self.snapshot.execution_id,
            state: ExecutionState::Failed,
            handle: Some(self.handle),
            payload: None,
            summary: self.outcome.summary,
            failure_class: Some(self.failure_class),
            quiescent_confirmed: self.outcome.quiescent_confirmed,
            incarnation_reusable: self.outcome.incarnation_reusable,
        })
    }

    pub fn command(&self) -> (command: PendingTerminalRecord)
        ensures
            self.asks(command),
    {
        PendingTerminalRecord {
            execution_id: self.snapshot.execution_id.clone(),
            state: ExecutionState::Failed,
            handle: Some(self.handle.clone()),
            payload: None,
            summary: copy_text(&self.outcome.summary),
            failure_class: Some(self.failure_class),
            quiescent_confirmed: self.outcome.quiescent_confirmed,
            incarnation_reusable: self.outcome.incarnation_reusable,
        }
    }

    pub open spec fn next(self, reply: Result<(), Error>) -> ReconcileStep {
        match reply {
            Ok(_) => ReconcileStep::NackFailure(
                ReconcileNack {
                    snapshot: self.snapshot,
                    outcome: self.outcome,
                    failure_class: self.failure_class,
                },
            ),
            Err(error) => ReconcileStep::Finished(Err(RecoveryError::of_kernel(error))),
        }
    }

    pub fn resume(self, reply: Result<(), Error>) -> (step: ReconcileStep)
        ensures
            step == self.next(reply),
    {
        match reply {
            Ok(_) => ReconcileStep::NackFailure(
                ReconcileNack {
                    snapshot: self.snapshot,
                    outcome: self.outcome,
                    failure_class: self.failure_class,
                },
            ),
            Err(error) => ReconcileStep::Finished(Err(RecoveryError::from(error))),
        }
    }
}

impl ReconcileAck {
    /// What the store is asked.
    pub open spec fn asks(self, command: AckCommand) -> bool {
        &&& command.attempt_id == self.snapshot.attempt_id
        &&& command.lease_epoch == self.snapshot.lease_epoch
        &&& command.execution_id == self.snapshot.execution_id
        &&& command.payload@ == payload_text(self.outcome.payload)
        &&& command.summary == self.outcome.summary
        &&& command.quiescent_confirmed == self.outcome.quiescent_confirmed
        &&& command.incarnation_reusable == self.outcome.incarnation_reusable
    }

    pub fn command(&self) -> (command: AckCommand)
        ensures
            self.asks(command),
    {
        AckCommand {
            attempt_id: self.snapshot.attempt_id.clone(),
            lease_epoch: self.snapshot.lease_epoch,
            execution_id: self.snapshot.execution_id.clone(),
            payload: payload_or_null(&self.outcome.payload),
            summary: copy_text(&self.outcome.summary),
            quiescent_confirmed: self.outcome.quiescent_confirmed,
            incarnation_reusable: self.outcome.incarnation_reusable,
        }
    }

    /// Lost authority keeps the success as history.
    pub open spec fn next(self, reply: Result<Option<ResultId>, Error>) -> ReconcileStep {
        match reply {
            Ok(Some(result_id)) => ReconcileStep::Finished(
                Ok(ReconcileExecutionOutcome::TaskCompleted { result_id }),
            ),
            Ok(None) => ReconcileStep::Finished(
                Ok(ReconcileExecutionOutcome::WriterSafetySuspendedAfterSuccess),
            ),
            Err(error) => if error.authority_lost() {
                ReconcileStep::RecordStale(
                    StaleHistory {
                        record: PhysicalRecord {
                            execution_id: self.snapshot.execution_id,
                            state: ExecutionState::Succeeded,
                            handle: Some(self.handle),
                            payload: self.outcome.payload,
                            failure_class: None,
                            terminal_confirmed: true,
                            quiescent_confirmed: self.outcome.quiescent_confirmed,
                        },
                    },
                )
            } else {
                ReconcileStep::Finished(Err(RecoveryError::of_kernel(error)))
            },
        }
    }

    pub fn resume(self, reply: Result<Option<ResultId>, Error>) -> (step: ReconcileStep)
        ensures
            step == self.next(reply),
    {
        match reply {
            Ok(Some(result_id)) => ReconcileStep::Finished(
                Ok(ReconcileExecutionOutcome::TaskCompleted { result_id }),
            ),
            Ok(None) => ReconcileStep::Finished(
                Ok(ReconcileExecutionOutcome::WriterSafetySuspendedAfterSuccess),
            ),
            Err(error) => {
                if error.is_authority_lost() {
                    ReconcileStep::RecordStale(
                        StaleHistory {
                            record: PhysicalRecord {
                                execution_id: self.snapshot.execution_id,
                                state: ExecutionState::Succeeded,
                                handle: Some(self.handle),
                                payload: self.outcome.payload,
                                failure_class: None,
                                terminal_confirmed: true,
                                quiescent_confirmed: self.outcome.quiescent_confirmed,
                            },
                        },
                    )
                } else {
                    ReconcileStep::Finished(Err(RecoveryError::from(error)))
                }
            },
        }
    }
}

impl ReconcileNack {
    /// What the store is asked.
    pub open spec fn asks(self, command: NackCommand) -> bool {
        command == (NackCommand {
            attempt_id: self.snapshot.attempt_id,
            lease_epoch: self.snapshot.lease_epoch,
            failure_class: self.failure_class,
            execution_id: self.snapshot.execution_id,
            terminal_confirmed: true,
            quiescent_confirmed: self.outcome.quiescent_confirmed,
            incarnation_reusable: self.outcome.incarnation_reusable,
        })
    }

    pub fn command(&self) -> (command: NackCommand)
        ensures
            self.asks(command),
    {
        NackCommand {
            attempt_id: self.snapshot.attempt_id.clone(),
            lease_epoch: self.snapshot.lease_epoch,
            failure_class: self.failure_class,
            execution_id: self.snapshot.execution_id.clone(),
            terminal_confirmed: true,
            quiescent_confirmed: self.outcome.quiescent_confirmed,
            incarnation_reusable: self.outcome.incarnation_reusable,
        }
    }

    pub open spec fn next(self, reply: Result<(), Error>) -> ReconcileStep {
        match reply {
            Ok(_) => ReconcileStep::Finished(
                Ok(ReconcileExecutionOutcome::TerminalFailure { failure_class: self.failure_class }),
            ),
            Err(error) => if error.authority_lost() {
                ReconcileStep::Finished(Ok(ReconcileExecutionOutcome::PhysicalHistoryOnly))
            } else {
                ReconcileStep::Finished(Err(RecoveryError::of_kernel(error)))
            },
        }
    }

    pub fn resume(self, reply: Result<(), Error>) -> (step: ReconcileStep)
        ensures
            step == self.next(reply),
    {
        match reply {
            Ok(_) => ReconcileStep::Finished(
                Ok(ReconcileExecutionOutcome::TerminalFailure { failure_class: self.failure_class }),
            ),
            Err(error) => {
                if error.is_authority_lost() {
                    ReconcileStep::Finished(Ok(ReconcileExecutionOutcome::PhysicalHistoryOnly))
                } else {
                    ReconcileStep::Finished(Err(RecoveryError::from(error)))
                }
            },
        }
    }
}

impl UnresolvedRecord {
    pub open spec fn next(self, reply: Result<(), Error>) -> ReconcileStep {
        match reply {
            Ok(_) => ReconcileStep::NackUnresolved(self.nack),
            Err(error) => if error.authority_lost() {
                ReconcileStep::Finished(Ok(ReconcileExecutionOutcome::PhysicalHistoryOnly))
            } else {
                ReconcileStep::Finished(Err(RecoveryError::of_kernel(error)))
            },
        }
    }

    pub fn resume(self, reply: Result<(), Error>) -> (step: ReconcileStep)
        ensures
            step == self.next(reply),
    {
        match reply {
            Ok(_) => ReconcileStep::NackUnresolved(self.nack),
            Err(error) => {
                if error.is_authority_lost() {
                    ReconcileStep::Finished(Ok(ReconcileExecutionOutcome::PhysicalHistoryOnly))
                } else {
                    ReconcileStep::Finished(Err(RecoveryError::from(error)))
                }
            },
        }
    }
}

impl UnresolvedNack {
    /// What the store is asked: no proof, and no reuse.
    pub open spec fn asks(self, command: NackCommand) -> bool {
        command == (NackCommand {
            attempt_id: self.snapshot.attempt_id,
            lease_epoch: self.snapshot.lease_epoch,
            failure_class: self.failure_class,
            execution_id: self.snapshot.execution_id,
            terminal_confirmed: false,
            quiescent_confirmed: false,
            incarnation_reusable: false,
        })
    }

    pub fn command(&self) -> (command: NackCommand)
        ensures
            self.asks(command),
    {
        NackCommand {
            attempt_id: self.snapshot.attempt_id.clone(),
            lease_epoch: self.snapshot.lease_epoch,
            failure_class: self.failure_class,
            execution_id: self.snapshot.execution_id.clone(),
            terminal_confirmed: false,
            quiescent_confirmed: false,
            incarnation_reusable: false,
        }
    }

    pub open spec fn next(self, reply: Result<(), Error>) -> ReconcileStep {
        match reply {
            Ok(_) => ReconcileStep::Finished(
                Ok(ReconcileExecutionOutcome::Unresolved { failure_class: self.failure_class }),
            ),
            Err(error) => if error.authority_lost() {
                ReconcileStep::Finished(Ok(ReconcileExecutionOutcome::PhysicalHistoryOnly))
            } else {
                ReconcileStep::Finished(Err(RecoveryError::of_kernel(error)))
            },
        }
    }

    pub fn resume(self, reply: Result<(), Error>) -> (step: ReconcileStep)
        ensures
            step == self.next(reply),
    {
        match reply {
            Ok(_) => ReconcileStep::Finished(
                Ok(ReconcileExecutionOutcome::Unresolved { failure_class: self.failure_class }),
            ),
            Err(error) => {
                if error.is_authority_lost() {
                    ReconcileStep::Finished(Ok(ReconcileExecutionOutcome::PhysicalHistoryOnly))
                } else {
                    ReconcileStep::Finished(Err(RecoveryError::from(error)))
                }
            },
        }
    }
}

impl StaleHistory {
    pub open spec fn next(self, reply: Result<(), Error>) -> ReconcileStep {
        match reply {
            Ok(_) => ReconcileStep::Finished(Ok(ReconcileExecutionOutcome::PhysicalHistoryOnly)),
            Err(error) => ReconcileStep::Finished(Err(RecoveryError::of_kernel(error))),
        }
    }

    pub fn resume(self, reply: Result<(), Error>) -> (step: ReconcileStep)
        ensures
            step == self.next(reply),
    {
        match reply {
            Ok(_) => ReconcileStep::Finished(Ok(ReconcileExecutionOutcome::PhysicalHistoryOnly)),
            Err(error) => ReconcileStep::Finished(Err(RecoveryError::from(error))),
        }
    }
}

// ---------------------------------------------------------------------------------------------
// Laws
// ---------------------------------------------------------------------------------------------

/// Some reply to the call that step `a` names leads to step `b`.
pub open spec fn reconcile_follows(a: ReconcileStep, b: ReconcileStep) -> bool {
    match a {
        ReconcileStep::ReconcileStart(s) => exists|reply: Result<StartObservation, AdapterError>|
            b == #[trigger] s.next(reply),
        ReconcileStep::ConfirmRunning(s) => exists|reply: Result<(), Error>|
            b == #[trigger] s.next(reply),
        ReconcileStep::HandOver(s) => exists|reply: Result<(), SupervisionError>|
            b == #[trigger] s.next(reply),
        ReconcileStep::CollectOutcome(s) => exists|reply: Result<ExecutionOutcome, AdapterError>|
            b == #[trigger] s.next(reply),
        ReconcileStep::RecordPendingSuccess(s) => exists|reply: Result<(), Error>|
            b == #[trigger] s.next(reply),
        ReconcileStep::RecordPendingFailure(s) => exists|reply: Result<(), Error>|
            b == #[trigger] s.next(reply),
        ReconcileStep::AckSuccess(s) => exists|reply: Result<Option<ResultId>, Error>|
            b == #[trigger] s.next(reply),
        ReconcileStep::NackFailure(s) => exists|reply: Result<(), Error>|
            b == #[trigger] s.next(reply),
        ReconcileStep::RecordUnresolved(s) => exists|reply: Result<(), Error>|
            b == #[trigger] s.next(reply),
        ReconcileStep::NackUnresolved(s) => exists|reply: Result<(), Error>|
            b == #[trigger] s.next(reply),
        ReconcileStep::RecordStale(s) => exists|reply: Result<(), Error>|
            b == #[trigger] s.next(reply),
        ReconcileStep::Finished(_) => false,
    }
}

/// A reconciliation of one execution: it starts as that execution's does, and each step follows
/// from the one before, whatever the outside services replied.
pub open spec fn reconcile_run(
    snapshot: ExecutionReconciliationSnapshot,
    installed: bool,
    run: Seq<ReconcileStep>,
) -> bool {
    &&& run.len() > 0
    &&& reconcile_started(snapshot, installed, run[0])
    &&& forall|i: int|
        0 <= i && i + 1 < run.len() ==> reconcile_follows(#[trigger] run[i], run[i + 1])
}

/// The step concerns this execution and nothing else.
pub open spec fn concerns(step: ReconcileStep, snapshot: ExecutionReconciliationSnapshot) -> bool {
    match step {
        ReconcileStep::ReconcileStart(s) => s.snapshot == snapshot,
        ReconcileStep::ConfirmRunning(s) => s.snapshot == snapshot,
        ReconcileStep::HandOver(s) => s.grant.execution_id == snapshot.execution_id
            && s.grant.attempt_id == snapshot.attempt_id && s.grant.lease_epoch
            == snapshot.lease_epoch && s.grant.request_id == snapshot.request_id,
        ReconcileStep::CollectOutcome(s) => s.snapshot == snapshot,
        ReconcileStep::RecordPendingSuccess(s) => s.snapshot == snapshot && outcome_kind(s.outcome)
            is TerminalSuccess,
        ReconcileStep::RecordPendingFailure(s) => s.snapshot == snapshot && outcome_kind(s.outcome)
            == (ExecutionOutcomeKind::TerminalFailure { failure_class: s.failure_class }),
        ReconcileStep::AckSuccess(s) => s.snapshot == snapshot && outcome_kind(s.outcome)
            is TerminalSuccess,
        ReconcileStep::NackFailure(s) => s.snapshot == snapshot && outcome_kind(s.outcome)
            == (ExecutionOutcomeKind::TerminalFailure { failure_class: s.failure_class }),
        ReconcileStep::RecordUnresolved(s) => s.nack.snapshot == snapshot && s.record.execution_id
            == snapshot.execution_id && s.record.proofless() && s.record.handle is Some,
        ReconcileStep::NackUnresolved(s) => s.snapshot == snapshot,
        ReconcileStep::RecordStale(s) => s.record.execution_id == snapshot.execution_id,
        ReconcileStep::Finished(_) => true,
    }
}

proof fn lemma_unresolved_concerns(
    snapshot: ExecutionReconciliationSnapshot,
    failure_class: FailureClass,
    handle: JsonValue,
)
    ensures
        concerns(left_unresolved(snapshot, failure_class, handle), snapshot),
{
}

#[verifier::rlimit(40)]
#[verifier::spinoff_prover]
proof fn lemma_step_concerns(
    a: ReconcileStep,
    b: ReconcileStep,
    snapshot: ExecutionReconciliationSnapshot,
)
    requires
        concerns(a, snapshot),
        reconcile_follows(a, b),
    ensures
        concerns(b, snapshot),
{
    match a {
        ReconcileStep::ReconcileStart(s) => {
            let reply = choose|reply: Result<StartObservation, AdapterError>|
                b == #[trigger] s.next(reply);
            match reply {
                Err(error) => {
                    lemma_unresolved_concerns(
                        snapshot,
                        invocation_class(error.kind_of()),
                        snapshot.runtime_handle,
                    );
                },
                Ok(observation) => {
                    if let StartObservationKind::Unresolved { failure_class } = start_kind(
                        observation,
                    ) {
                        lemma_unresolved_concerns(
                            snapshot,
                            failure_class,
                            observation.runtime_handle,
                        );
                    }
                },
            }
        },
        ReconcileStep::CollectOutcome(s) => {
            let reply = choose|reply: Result<ExecutionOutcome, AdapterError>|
                b == #[trigger] s.next(reply);
            match reply {
                Err(error) => {
                    lemma_unresolved_concerns(
                        snapshot,
                        invocation_class(error.kind_of()),
                        s.handle,
                    );
                },
                Ok(outcome) => {
                    if let ExecutionOutcomeKind::Unresolved { failure_class } = outcome_kind(
                        outcome,
                    ) {
                        lemma_unresolved_concerns(snapshot, failure_class, s.handle);
                    }
                },
            }
        },
        _ => {},
    }
}

/// A reconciliation keeps the identity of its execution throughout.  There is no step that starts
/// an execution.
pub proof fn law_reconciliation_keeps_identity(
    snapshot: ExecutionReconciliationSnapshot,
    installed: bool,
    run: Seq<ReconcileStep>,
    j: int,
)
    requires
        reconcile_run(snapshot, installed, run),
        0 <= j < run.len(),
    ensures
        concerns(run[j], snapshot),
    decreases j,
{
    if j > 0 {
        law_reconciliation_keeps_identity(snapshot, installed, run, j - 1);
        assert(reconcile_follows(run[j - 1], run[j - 1 + 1]));
        lemma_step_concerns(run[j - 1], run[j], snapshot);
    } else {
        lemma_unresolved_concerns(
            snapshot,
            FailureClass::ExecutionLost,
            snapshot.runtime_handle,
        );
        lemma_unresolved_concerns(
            snapshot,
            FailureClass::ResourceUnavailable,
            snapshot.runtime_handle,
        );
    }
}

/// An execution is readmitted only after the store granted RUNNING afresh for it and supervision
/// took the admission.  A recorded RUNNING alone never suffices.
pub proof fn law_readmission_needs_fresh_grant(
    snapshot: ExecutionReconciliationSnapshot,
    installed: bool,
    run: Seq<ReconcileStep>,
    j: int,
)
    requires
        reconcile_run(snapshot, installed, run),
        0 <= j < run.len(),
        run[j] == ReconcileStep::Finished(Ok(ReconcileExecutionOutcome::Readmitted)),
    ensures
        j >= 3,
        run[j - 1] is HandOver,
        run[j - 2] is ConfirmRunning,
        run[j - 2]->ConfirmRunning_0.next(Ok(())) == run[j - 1],
        run[j - 3] is ReconcileStart,
{
    if j > 0 {
        assert(reconcile_follows(run[j - 1], run[j - 1 + 1]));
        assert(run[j - 1] is HandOver);
        if j > 1 {
            assert(reconcile_follows(run[j - 2], run[j - 2 + 1]));
            if j > 2 {
                assert(reconcile_follows(run[j - 3], run[j - 3 + 1]));
            }
        }
    }
}

/// A task is told of a success only once the success is durable, and only for an outcome that is
/// SUCCEEDED with terminal proof.
pub proof fn law_success_is_durable_before_ack(
    snapshot: ExecutionReconciliationSnapshot,
    installed: bool,
    run: Seq<ReconcileStep>,
    j: int,
)
    requires
        reconcile_run(snapshot, installed, run),
        0 <= j < run.len(),
        run[j] is AckSuccess,
    ensures
        j > 0,
        run[j - 1] is RecordPendingSuccess,
        run[j - 1]->RecordPendingSuccess_0.next(Ok(())) == run[j],
        run[j]->AckSuccess_0.outcome.state == ExecutionState::Succeeded,
        run[j]->AckSuccess_0.outcome.terminal_confirmed,
{
    law_reconciliation_keeps_identity(snapshot, installed, run, j);
    assert(reconcile_follows(run[j - 1], run[j - 1 + 1]));
}

/// How far a step is along the reconciliation.
pub open spec fn reconcile_rank(step: ReconcileStep) -> int {
    match step {
        ReconcileStep::ReconcileStart(_) => 0,
        ReconcileStep::ConfirmRunning(_) => 1,
        ReconcileStep::HandOver(_) => 2,
        ReconcileStep::CollectOutcome(_) => 1,
        ReconcileStep::RecordPendingSuccess(_) => 2,
        ReconcileStep::RecordPendingFailure(_) => 2,
        ReconcileStep::AckSuccess(_) => 3,
        ReconcileStep::NackFailure(_) => 3,
        ReconcileStep::RecordUnresolved(_) => 2,
        ReconcileStep::NackUnresolved(_) => 3,
        ReconcileStep::RecordStale(_) => 4,
        ReconcileStep::Finished(_) => 5,
    }
}

proof fn lemma_reconcile_ranks(
    snapshot: ExecutionReconciliationSnapshot,
    installed: bool,
    run: Seq<ReconcileStep>,
    j: int,
)
    requires
        reconcile_run(snapshot, installed, run),
        0 <= j < run.len(),
    ensures
        reconcile_rank(run[0]) + j <= reconcile_rank(run[j]) <= 5,
    decreases j,
{
    if j > 0 {
        lemma_reconcile_ranks(snapshot, installed, run, j - 1);
        assert(reconcile_follows(run[j - 1], run[j - 1 + 1]));
    }
}

/// A reconciliation ends: no run has more than six steps, whatever the outside services reply.
pub proof fn law_reconciliation_ends(
    snapshot: ExecutionReconciliationSnapshot,
    installed: bool,
    run: Seq<ReconcileStep>,
)
    requires
        reconcile_run(snapshot, installed, run),
    ensures
        run.len() <= 6,
{
    lemma_reconcile_ranks(snapshot, installed, run, run.len() - 1);
}

/// A missing adapter is no proof of anything: the execution is left unresolved as unavailable, and
/// no other adapter is asked.
pub proof fn law_missing_adapter_proves_nothing(
    snapshot: ExecutionReconciliationSnapshot,
    step: ReconcileStep,
)
    requires
        snapshot.persisted_state.active(),
        reconcile_started(snapshot, false, step),
    ensures
        step matches ReconcileStep::RecordUnresolved(s) && s.record.proofless() && s.record.handle
            == Some(snapshot.runtime_handle) && s.nack.failure_class
            == FailureClass::ResourceUnavailable,
{
}

/// What is left unresolved: of STARTING and UNKNOWN the handle is kept as unknown with the class,
/// of RUNNING as running without one, and of any other state nothing is recorded.  Then the attempt
/// is taken back with the class, and no record carries proof.
pub proof fn law_unresolved_execution_is_taken_back(
    snapshot: ExecutionReconciliationSnapshot,
    failure_class: FailureClass,
    handle: JsonValue,
)
    ensures
        ({
            let nack = UnresolvedNack { snapshot, failure_class };
            let step = left_unresolved(snapshot, failure_class, handle);
            match snapshot.persisted_state {
                ExecutionState::Starting | ExecutionState::Unknown => step
                    == ReconcileStep::RecordUnresolved(
                    UnresolvedRecord {
                        record: PhysicalRecord {
                            execution_id: snapshot.execution_id,
                            state: ExecutionState::Unknown,
                            handle: Some(handle),
                            payload: None,
                            failure_class: Some(failure_class),
                            terminal_confirmed: false,
                            quiescent_confirmed: false,
                        },
                        nack,
                    },
                ),
                ExecutionState::Running => step == ReconcileStep::RecordUnresolved(
                    UnresolvedRecord {
                        record: PhysicalRecord {
                            execution_id: snapshot.execution_id,
                            state: ExecutionState::Running,
                            handle: Some(handle),
                            payload: None,
                            failure_class: None,
                            terminal_confirmed: false,
                            quiescent_confirmed: false,
                        },
                        nack,
                    },
                ),
                ExecutionState::Lost | ExecutionState::Succeeded | ExecutionState::Failed
                | ExecutionState::Terminated => step == ReconcileStep::NackUnresolved(nack),
            }
        }),
{
}

/// Where a reconciliation begins: an execution at work is asked about where its adapter is
/// installed, with the recorded handle unless that says nothing; a lost one is closed where its
/// authority is current, and is history where it is not; and one that has ended is refused.
pub proof fn law_reconciliation_begins_by_state(
    snapshot: ExecutionReconciliationSnapshot,
    installed: bool,
    step: ReconcileStep,
)
    requires
        reconcile_started(snapshot, installed, step),
    ensures
        match snapshot.persisted_state {
            ExecutionState::Starting | ExecutionState::Running | ExecutionState::Unknown => {
                if installed {
                    step matches ReconcileStep::ReconcileStart(s) && s.snapshot == snapshot && (
                    s.hint is None <==> says_nothing(shape_of(snapshot.runtime_handle@))) && (
                    s.hint matches Some(handle) ==> handle == snapshot.runtime_handle)
                } else {
                    step == left_unresolved(
                        snapshot,
                        FailureClass::ResourceUnavailable,
                        snapshot.runtime_handle,
                    )
                }
            },
            ExecutionState::Lost => {
                if snapshot.structurally_current {
                    step == ReconcileStep::NackUnresolved(
                        UnresolvedNack { snapshot, failure_class: FailureClass::ExecutionLost },
                    )
                } else {
                    step == ReconcileStep::Finished(
                        Ok(ReconcileExecutionOutcome::PhysicalHistoryOnly),
                    )
                }
            },
            ExecutionState::Succeeded | ExecutionState::Failed | ExecutionState::Terminated => {
                step matches ReconcileStep::Finished(Err(RecoveryError::Invariant(m))) && m@
                    == "reconcile_one_execution called for terminal execution "@
                    + snapshot.execution_id@
            },
        },
{
}

/// What a reconciled start leads to: exact RUNNING to a grant and a claimed end to its collection,
/// each with the handle that was observed; and all else is unresolved with the observed handle, or
/// with the recorded one where the adapter failed.
pub proof fn law_reconciled_start_leads_on(
    start: StartReconciliation,
    observation: StartObservation,
    error: AdapterError,
)
    ensures
        ({
            let snapshot = start.snapshot;
            let handle = observation.runtime_handle;
            let step = start.next(Ok(observation));
            &&& match start_kind(observation) {
                StartObservationKind::ExactRunning => step == ReconcileStep::ConfirmRunning(
                    GrantRequest { snapshot, handle },
                ),
                StartObservationKind::TerminalCandidate => step == ReconcileStep::CollectOutcome(
                    ReconcileCollection { snapshot, handle },
                ),
                StartObservationKind::Unresolved { failure_class } => step == left_unresolved(
                    snapshot,
                    failure_class,
                    handle,
                ),
            }
            &&& start.next(Err(error)) == left_unresolved(
                snapshot,
                match error {
                    AdapterError::Unavailable(_) => FailureClass::ResourceUnavailable,
                    AdapterError::DeadlineExceeded(_) => FailureClass::Timeout,
                    AdapterError::Protocol(_) => FailureClass::AdapterProtocolFailure,
                    AdapterError::Other(_) => FailureClass::Unknown,
                },
                snapshot.runtime_handle,
            )
        }),
{
}

/// What a collected outcome leads to: what is proved is made durable first, a success as it was
/// collected and a failure with its class, and all else is unresolved with the observed handle.
pub proof fn law_reconciled_outcome_leads_on(
    collection: ReconcileCollection,
    outcome: ExecutionOutcome,
    error: AdapterError,
)
    ensures
        ({
            let snapshot = collection.snapshot;
            let handle = collection.handle;
            let step = collection.next(Ok(outcome));
            &&& match outcome_kind(outcome) {
                ExecutionOutcomeKind::TerminalSuccess => step
                    == ReconcileStep::RecordPendingSuccess(
                    PendingSuccess { snapshot, handle, outcome },
                ),
                ExecutionOutcomeKind::TerminalFailure { failure_class } => step
                    == ReconcileStep::RecordPendingFailure(
                    PendingFailure { snapshot, handle, outcome, failure_class },
                ),
                ExecutionOutcomeKind::Unresolved { failure_class } => step == left_unresolved(
                    snapshot,
                    failure_class,
                    handle,
                ),
            }
            &&& collection.next(Err(error)) == left_unresolved(
                snapshot,
                match error {
                    AdapterError::Unavailable(_) => FailureClass::ResourceUnavailable,
                    AdapterError::DeadlineExceeded(_) => FailureClass::Timeout,
                    AdapterError::Protocol(_) => FailureClass::AdapterProtocolFailure,
                    AdapterError::Other(_) => FailureClass::Unknown,
                },
                handle,
            )
        }),
{
}

/// A call that the store or supervision accepts leads on: a grant to the hand-over of the identity
/// that it was asked for, the hand-over to the readmission, what was made durable to the task, and
/// what was told to the task to its outcome.
pub proof fn law_accepted_calls_lead_on(
    grant: GrantRequest,
    hand_over: AdmissionHandOver,
    success: PendingSuccess,
    failure: PendingFailure,
    ack: ReconcileAck,
    nack: ReconcileNack,
    record: UnresolvedRecord,
    unresolved: UnresolvedNack,
    stale: StaleHistory,
    result_id: ResultId,
)
    ensures
        grant.next(Ok(())) == ReconcileStep::HandOver(
            AdmissionHandOver {
                grant: SupervisionAdmissionSeed {
                    execution_id: grant.snapshot.execution_id,
                    request_id: grant.snapshot.request_id,
                    attempt_id: grant.snapshot.attempt_id,
                    lease_epoch: grant.snapshot.lease_epoch,
                },
            },
        ),
        hand_over.next(Ok(())) == ReconcileStep::Finished(
            Ok(ReconcileExecutionOutcome::Readmitted),
        ),
        success.next(Ok(())) == ReconcileStep::AckSuccess(
            ReconcileAck {
                snapshot: success.snapshot,
                handle: success.handle,
                outcome: success.outcome,
            },
        ),
        failure.next(Ok(())) == ReconcileStep::NackFailure(
            ReconcileNack {
                snapshot: failure.snapshot,
                outcome: failure.outcome,
                failure_class: failure.failure_class,
            },
        ),
        ack.next(Ok(Some(result_id))) == ReconcileStep::Finished(
            Ok(ReconcileExecutionOutcome::TaskCompleted { result_id }),
        ),
        ack.next(Ok(None)) == ReconcileStep::Finished(
            Ok(ReconcileExecutionOutcome::WriterSafetySuspendedAfterSuccess),
        ),
        nack.next(Ok(())) == ReconcileStep::Finished(
            Ok(ReconcileExecutionOutcome::TerminalFailure { failure_class: nack.failure_class }),
        ),
        record.next(Ok(())) == ReconcileStep::NackUnresolved(record.nack),
        unresolved.next(Ok(())) == ReconcileStep::Finished(
            Ok(ReconcileExecutionOutcome::Unresolved { failure_class: unresolved.failure_class }),
        ),
        stale.next(Ok(())) == ReconcileStep::Finished(
            Ok(ReconcileExecutionOutcome::PhysicalHistoryOnly),
        ),
{
}

/// Lost authority admits nobody and tells the task nothing: a sighting and a success are kept as
/// history, and everything else is history already.
pub proof fn law_lost_authority_leaves_history(
    grant: GrantRequest,
    ack: ReconcileAck,
    nack: ReconcileNack,
    record: UnresolvedRecord,
    unresolved: UnresolvedNack,
    error: Error,
)
    requires
        error is StaleAuthority || error is InvalidAuthority,
    ensures
        ({
            let history = ReconcileStep::Finished(
                Ok(ReconcileExecutionOutcome::PhysicalHistoryOnly),
            );
            &&& grant.next(Err(error)) == ReconcileStep::RecordStale(
                StaleHistory {
                    record: PhysicalRecord {
                        execution_id: grant.snapshot.execution_id,
                        state: ExecutionState::Running,
                        handle: Some(grant.handle),
                        payload: None,
                        failure_class: None,
                        terminal_confirmed: false,
                        quiescent_confirmed: false,
                    },
                },
            )
            &&& ack.next(Err(error)) == ReconcileStep::RecordStale(
                StaleHistory {
                    record: PhysicalRecord {
                        execution_id: ack.snapshot.execution_id,
                        state: ExecutionState::Succeeded,
                        handle: Some(ack.handle),
                        payload: ack.outcome.payload,
                        failure_class: None,
                        terminal_confirmed: true,
                        quiescent_confirmed: ack.outcome.quiescent_confirmed,
                    },
                },
            )
            &&& nack.next(Err(error)) == history
            &&& record.next(Err(error)) == history
            &&& unresolved.next(Err(error)) == history
        }),
{
}

/// Any other refusal of the store is a fault of the recovery, wherever it comes, and so is a
/// refusal of supervision.
pub proof fn law_faults_end_the_reconciliation(
    grant: GrantRequest,
    hand_over: AdmissionHandOver,
    success: PendingSuccess,
    failure: PendingFailure,
    ack: ReconcileAck,
    nack: ReconcileNack,
    record: UnresolvedRecord,
    unresolved: UnresolvedNack,
    stale: StaleHistory,
    refusal: SupervisionError,
    error: Error,
)
    requires
        !(error is StaleAuthority),
        !(error is InvalidAuthority),
    ensures
        ({
            let fault = ReconcileStep::Finished(
                Err(
                    match error {
                        Error::InvariantViolation(m) => RecoveryError::Invariant(m),
                        _ => RecoveryError::Persistence(error),
                    },
                ),
            );
            &&& grant.next(Err(error)) == fault
            &&& success.next(Err(error)) == fault
            &&& failure.next(Err(error)) == fault
            &&& ack.next(Err(error)) == fault
            &&& nack.next(Err(error)) == fault
            &&& record.next(Err(error)) == fault
            &&& unresolved.next(Err(error)) == fault
            &&& stale.next(Err(error)) == fault
            &&& hand_over.next(Err(refusal)) == ReconcileStep::Finished(
                Err(RecoveryError::Supervision(refusal)),
            )
        }),
{
}

/// What is not made durable is not told to the task, whatever the store refused it for.
pub proof fn law_undurable_end_is_not_told(
    success: PendingSuccess,
    failure: PendingFailure,
    error: Error,
)
    ensures
        success.next(Err(error)) is Finished,
        success.next(Err(error))->Finished_0 is Err,
        failure.next(Err(error)) is Finished,
        failure.next(Err(error))->Finished_0 is Err,
{
}

/// What the store is asked about a proved end: a success is recorded and accepted as it was
/// collected, and a failure is recorded and taken back with its class and with terminal proof.
pub proof fn law_proved_end_is_asked_as_collected(
    success: PendingSuccess,
    failure: PendingFailure,
    ack: ReconcileAck,
    nack: ReconcileNack,
    recorded: PendingTerminalRecord,
    failed: PendingTerminalRecord,
    accept: AckCommand,
    refuse: NackCommand,
)
    requires
        success.asks(recorded),
        failure.asks(failed),
        ack.asks(accept),
        nack.asks(refuse),
    ensures
        recorded.execution_id == success.snapshot.execution_id,
        recorded.state == ExecutionState::Succeeded,
        recorded.handle == Some(success.handle),
        recorded.payload == success.outcome.payload,
        recorded.summary == success.outcome.summary,
        recorded.failure_class is None,
        recorded.quiescent_confirmed == success.outcome.quiescent_confirmed,
        recorded.incarnation_reusable == success.outcome.incarnation_reusable,
        failed.execution_id == failure.snapshot.execution_id,
        failed.state == ExecutionState::Failed,
        failed.handle == Some(failure.handle),
        failed.payload is None,
        failed.summary == failure.outcome.summary,
        failed.failure_class == Some(failure.failure_class),
        failed.quiescent_confirmed == failure.outcome.quiescent_confirmed,
        failed.incarnation_reusable == failure.outcome.incarnation_reusable,
        accept.attempt_id == ack.snapshot.attempt_id,
        accept.lease_epoch == ack.snapshot.lease_epoch,
        accept.execution_id == ack.snapshot.execution_id,
        match ack.outcome.payload {
            Some(document) => accept.payload@ == document@,
            None => accept.payload@ == "null"@,
        },
        accept.summary == ack.outcome.summary,
        accept.quiescent_confirmed == ack.outcome.quiescent_confirmed,
        accept.incarnation_reusable == ack.outcome.incarnation_reusable,
        refuse.attempt_id == nack.snapshot.attempt_id,
        refuse.lease_epoch == nack.snapshot.lease_epoch,
        refuse.execution_id == nack.snapshot.execution_id,
        refuse.failure_class == nack.failure_class,
        refuse.terminal_confirmed,
        refuse.quiescent_confirmed == nack.outcome.quiescent_confirmed,
        refuse.incarnation_reusable == nack.outcome.incarnation_reusable,
{
}

/// What the store is asked about an execution that runs or is unresolved: a grant for the recorded
/// identity with the observed handle, or the attempt back with the class and nothing else.
pub proof fn law_open_execution_is_asked_without_proof(
    grant: GrantRequest,
    unresolved: UnresolvedNack,
    confirm: ConfirmCommand,
    refuse: NackCommand,
)
    requires
        grant.asks(confirm),
        unresolved.asks(refuse),
    ensures
        confirm.attempt_id == grant.snapshot.attempt_id,
        confirm.lease_epoch == grant.snapshot.lease_epoch,
        confirm.execution_id == grant.snapshot.execution_id,
        confirm.handle == grant.handle,
        refuse.attempt_id == unresolved.snapshot.attempt_id,
        refuse.lease_epoch == unresolved.snapshot.lease_epoch,
        refuse.execution_id == unresolved.snapshot.execution_id,
        refuse.failure_class == unresolved.failure_class,
        !refuse.terminal_confirmed,
        !refuse.quiescent_confirmed,
        !refuse.incarnation_reusable,
{
}

} // verus!

//! Replay: the consequence of a terminal state that is durable is applied to the task.
//!
//! A crash may come after the end of an execution was recorded and before its task was told.  The
//! replay tells the task, once.  Only a recorded terminal state with terminal proof is replayed;
//! nothing is inferred from a payload.
use crate::domain::{
    copy_json, copy_text, payload_or_null, payload_text, AckCommand, AttemptId, Error, ExecutionId,
    ExecutionState, FailureClass, JsonValue, LeaseEpoch, NackCommand, RequestId, ResultId, TaskId,
};
use crate::notifier::NotifierError;
use crate::supervision::SupervisionError;
use crate::text::{join2, join3, join4};
use vstd::prelude::*;
use vstd::string::*;

verus! {

/// Faults that end a recovery.  What an adapter cannot say for sure is an outcome, not a fault.
#[derive(Debug, PartialEq, Eq)]
pub enum RecoveryError {
    Persistence(Error),
    Invariant(String),
    Supervision(SupervisionError),
    Notifier(NotifierError),
}

impl RecoveryError {
    /// A store error, with contradictions of the durable state told apart.
    pub open spec fn of_kernel(error: Error) -> RecoveryError {
        match error {
            Error::InvariantViolation(m) => RecoveryError::Invariant(m),
            other => RecoveryError::Persistence(other),
        }
    }

    /// The diagnostic, with the two leases of a lease mismatch as the caller writes them.
    pub open spec fn detail(self, configured: Seq<char>, kernel: Seq<char>) -> Seq<char> {
        match self {
            RecoveryError::Persistence(e) => "recovery persistence fault: "@ + e.detail(),
            RecoveryError::Invariant(m) => "recovery invariant violation: "@ + m@,
            RecoveryError::Supervision(e) => "recovery supervision fault: "@ + e.detail(
                configured,
                kernel,
            ),
            RecoveryError::Notifier(e) => "recovery notifier fault: "@ + e.detail(),
        }
    }

    pub fn message(&self, configured: &str, kernel: &str) -> (text: String)
        ensures
            text@ == self.detail(configured@, kernel@),
    {
        match self {
            RecoveryError::Persistence(e) => join2("recovery persistence fault: ", e.message()),
            RecoveryError::Invariant(m) => join2("recovery invariant violation: ", m.as_str()),
            RecoveryError::Supervision(e) => join2(
                "recovery supervision fault: ",
                e.message(configured, kernel).as_str(),
            ),
            RecoveryError::Notifier(e) => join2(
                "recovery notifier fault: ",
                e.message().as_str(),
            ),
        }
    }
}

impl From<Error> for RecoveryError {
    fn from(error: Error) -> (fault: Self) {
        match error {
            Error::InvariantViolation(m) => RecoveryError::Invariant(m),
            other => RecoveryError::Persistence(other),
        }
    }
}

impl vstd::std_specs::convert::FromSpecImpl<Error> for RecoveryError {
    open spec fn obeys_from_spec() -> bool {
        true
    }

    open spec fn from_spec(error: Error) -> Self {
        RecoveryError::of_kernel(error)
    }
}

/// What the store knows of an execution that may need reconciling.
#[derive(Debug, PartialEq, Eq)]
pub struct ExecutionReconciliationSnapshot {
    pub task_id: TaskId,
    pub execution_id: ExecutionId,
    pub attempt_id: AttemptId,
    pub lease_epoch: LeaseEpoch,
    pub request_id: RequestId,
    pub persisted_state: ExecutionState,
    pub terminal_confirmed: bool,
    pub quiescent_confirmed: bool,
    pub incarnation_reusable: bool,
    pub failure_class: Option<FailureClass>,
    pub outcome_json: Option<JsonValue>,
    pub summary: Option<String>,
    pub runtime_handle: JsonValue,
    pub adapter_kind: String,
    /// The attempt and its lease are the current ones of the task.
    pub structurally_current: bool,
}

impl Clone for ExecutionReconciliationSnapshot {
    fn clone(&self) -> (copy: Self)
        ensures
            copy == *self,
    {
        ExecutionReconciliationSnapshot {
            task_id: self.task_id.clone(),
            execution_id: self.execution_id.clone(),
            attempt_id: self.attempt_id.clone(),
            lease_epoch: self.lease_epoch,
            request_id: self.request_id.clone(),
            persisted_state: self.persisted_state,
            terminal_confirmed: self.terminal_confirmed,
            quiescent_confirmed: self.quiescent_confirmed,
            incarnation_reusable: self.incarnation_reusable,
            failure_class: self.failure_class,
            outcome_json: copy_json(&self.outcome_json),
            summary: copy_text(&self.summary),
            runtime_handle: self.runtime_handle.clone(),
            adapter_kind: self.adapter_kind.clone(),
            structurally_current: self.structurally_current,
        }
    }
}

/// How a replay ended.
#[derive(Debug, PartialEq, Eq)]
pub enum TerminalReplayOutcome {
    /// The execution is in no terminal state.
    NotApplicable,
    /// The success was acknowledged and made one result.
    ResultReplayed { result_id: ResultId },
    /// The success was acknowledged, and writer safety suspended the task.
    WriterSafetySuspended,
    /// The failure was told.
    FailureReplayed { failure_class: FailureClass },
    /// The task has its result already.
    AlreadyApplied { result_id: ResultId },
    /// Authority is gone: the task is not touched.
    PhysicalHistoryOnly,
}

/// Asks the store for the result of the task.
#[derive(Debug, PartialEq, Eq)]
pub struct ResultQuery {
    pub snapshot: ExecutionReconciliationSnapshot,
}

/// Asks the store to acknowledge the recorded success.
#[derive(Debug, PartialEq, Eq)]
pub struct ReplayAck {
    pub snapshot: ExecutionReconciliationSnapshot,
}

/// Asks the store to take the attempt of the recorded failure back, with terminal proof.
#[derive(Debug, PartialEq, Eq)]
pub struct ReplayNack {
    pub snapshot: ExecutionReconciliationSnapshot,
    pub failure_class: FailureClass,
}

/// Where a replay stands.
#[derive(Debug, PartialEq, Eq)]
pub enum ReplayStep {
    FindResult(ResultQuery),
    AckSuccess(ReplayAck),
    NackFailure(ReplayNack),
    Finished(Result<TerminalReplayOutcome, RecoveryError>),
}

/// Starts the replay of an execution.
pub fn replay_persisted_terminal_consequence(snapshot: ExecutionReconciliationSnapshot) -> (step:
    ReplayStep)
    ensures
        step == ReplayStep::FindResult(ResultQuery { snapshot }),
{
    ReplayStep::FindResult(ResultQuery { snapshot })
}

/// The way a flag is written in diagnostics.
pub open spec fn flag_text(flag: bool) -> Seq<char> {
    if flag {
        "true"@
    } else {
        "false"@
    }
}

/// The way an optional failure class is written in diagnostics.
pub open spec fn class_text(class: Option<FailureClass>) -> Seq<char> {
    match class {
        None => "None"@,
        Some(known) => "Some("@ + known.label() + ")"@,
    }
}

fn write_flag(flag: bool) -> (text: &'static str)
    ensures
        text@ == flag_text(flag),
{
    if flag {
        "true"
    } else {
        "false"
    }
}

fn write_class(class: Option<FailureClass>) -> (text: String)
    ensures
        text@ == class_text(class),
{
    match class {
        None => "None".to_string(),
        Some(known) => join3("Some(", known.name(), ")"),
    }
}

/// The recorded success is not consistent: it lacks terminal proof, or has a failure class.
pub open spec fn success_defect(snapshot: ExecutionReconciliationSnapshot) -> Option<Seq<char>> {
    if !snapshot.terminal_confirmed || snapshot.failure_class is Some {
        Some(
            "execution "@ + snapshot.execution_id@
                + " is SUCCEEDED with inconsistent terminal evidence (terminal_confirmed="@
                + flag_text(snapshot.terminal_confirmed) + ", failure_class="@ + class_text(
                snapshot.failure_class,
            ) + ")"@,
        )
    } else {
        None
    }
}

/// The recorded failure lacks terminal proof.
pub open spec fn failure_defect(snapshot: ExecutionReconciliationSnapshot) -> Option<Seq<char>> {
    if !snapshot.terminal_confirmed {
        Some(
            "execution "@ + snapshot.execution_id@ + " is "@ + snapshot.persisted_state.sql_name()
                + " without terminal_confirmed"@,
        )
    } else {
        None
    }
}

impl ResultQuery {
    /// What the task's result, or its absence, leads to.
    pub open spec fn leads_to(self, reply: Result<ResultId, Error>, step: ReplayStep) -> bool {
        match reply {
            Ok(result_id) => step == ReplayStep::Finished(
                Ok(TerminalReplayOutcome::AlreadyApplied { result_id }),
            ),
            Err(error) if !(error is NotFound) => step == ReplayStep::Finished(
                Err(RecoveryError::of_kernel(error)),
            ),
            Err(_) => match self.snapshot.persisted_state {
                ExecutionState::Succeeded => match success_defect(self.snapshot) {
                    Some(defect) => step matches ReplayStep::Finished(
                        Err(RecoveryError::Invariant(m)),
                    ) && m@ == defect,
                    None => step == ReplayStep::AckSuccess(ReplayAck { snapshot: self.snapshot }),
                },
                ExecutionState::Failed | ExecutionState::Terminated => match failure_defect(
                    self.snapshot,
                ) {
                    Some(defect) => step matches ReplayStep::Finished(
                        Err(RecoveryError::Invariant(m)),
                    ) && m@ == defect,
                    None => step == ReplayStep::NackFailure(
                        ReplayNack {
                            snapshot: self.snapshot,
                            failure_class: match self.snapshot.failure_class {
                                Some(class) => class,
                                None => FailureClass::StartFailure,
                            },
                        },
                    ),
                },
                _ => step == ReplayStep::Finished(Ok(TerminalReplayOutcome::NotApplicable)),
            },
        }
    }

    pub fn resume(self, reply: Result<ResultId, Error>) -> (step: ReplayStep)
        ensures
            self.leads_to(reply, step),
    {
        match reply {
            Ok(result_id) => ReplayStep::Finished(
                Ok(TerminalReplayOutcome::AlreadyApplied { result_id }),
            ),
            Err(error) => {
                if !matches!(error, Error::NotFound(_)) {
                    return ReplayStep::Finished(Err(RecoveryError::from(error)));
                }
                match self.snapshot.persisted_state {
                    ExecutionState::Succeeded => self.replay_success(),
                    ExecutionState::Failed => self.replay_failure(),
                    ExecutionState::Terminated => self.replay_failure(),
                    _ => ReplayStep::Finished(Ok(TerminalReplayOutcome::NotApplicable)),
                }
            },
        }
    }

    fn replay_success(self) -> (step: ReplayStep)
        ensures
            match success_defect(self.snapshot) {
                Some(defect) => step matches ReplayStep::Finished(Err(RecoveryError::Invariant(m)))
                    && m@ == defect,
                None => step == ReplayStep::AckSuccess(ReplayAck { snapshot: self.snapshot }),
            },
    {
        if !self.snapshot.terminal_confirmed || self.snapshot.failure_class.is_some() {
            let detail = join3(
                "execution ",
                self.snapshot.execution_id.text.as_str(),
                " is SUCCEEDED with inconsistent terminal evidence (terminal_confirmed=",
            ).concat(write_flag(self.snapshot.terminal_confirmed)).concat(", failure_class=").concat(
                write_class(self.snapshot.failure_class).as_str(),
            ).concat(")");
            return ReplayStep::Finished(Err(RecoveryError::Invariant(detail)));
        }
        ReplayStep::AckSuccess(ReplayAck { snapshot: self.snapshot })
    }

    fn replay_failure(self) -> (step: ReplayStep)
        ensures
            match failure_defect(self.snapshot) {
                Some(defect) => step matches ReplayStep::Finished(Err(RecoveryError::Invariant(m)))
                    && m@ == defect,
                None => step == ReplayStep::NackFailure(
                    ReplayNack {
                        snapshot: self.snapshot,
                        failure_class: match self.snapshot.failure_class {
                            Some(class) => class,
                            None => FailureClass::StartFailure,
                        },
                    },
                ),
            },
    {
        if !self.snapshot.terminal_confirmed {
            let detail = join4(
                "execution ",
                self.snapshot.execution_id.text.as_str(),
                " is ",
                self.snapshot.persisted_state.as_sql(),
            ).concat(" without terminal_confirmed");
            return ReplayStep::Finished(Err(RecoveryError::Invariant(detail)));
        }
        let failure_class = match self.snapshot.failure_class {
            Some(class) => class,
            None => FailureClass::StartFailure,
        };
        ReplayStep::NackFailure(ReplayNack { snapshot: self.snapshot, failure_class })
    }
}

impl ReplayAck {
    /// What the store is asked: the recorded success, with the recorded payload or `null`.
    pub open spec fn asks(self, command: AckCommand) -> bool {
        &&& command.attempt_id == self.snapshot.attempt_id
        &&& command.lease_epoch == self.snapshot.lease_epoch
        &&& command.execution_id == self.snapshot.execution_id
        &&& command.payload@ == payload_text(self.snapshot.outcome_json)
        &&& command.summary == self.snapshot.summary
        &&& command.quiescent_confirmed == self.snapshot.quiescent_confirmed
        &&& command.incarnation_reusable == self.snapshot.incarnation_reusable
    }

    pub fn command(&self) -> (command: AckCommand)
        ensures
            self.asks(command),
    {
        AckCommand {
            attempt_id: self.snapshot.attempt_id.clone(),
            lease_epoch: self.snapshot.lease_epoch,
            execution_id: self.snapshot.execution_id.clone(),
            payload: payload_or_null(&self.snapshot.outcome_json),
            summary: copy_text(&self.snapshot.summary),
            quiescent_confirmed: self.snapshot.quiescent_confirmed,
            incarnation_reusable: self.snapshot.incarnation_reusable,
        }
    }

    pub open spec fn next(self, reply: Result<Option<ResultId>, Error>) -> ReplayStep {
        match reply {
            Ok(Some(result_id)) => ReplayStep::Finished(
                Ok(TerminalReplayOutcome::ResultReplayed { result_id }),
            ),
            Ok(None) => ReplayStep::Finished(Ok(TerminalReplayOutcome::WriterSafetySuspended)),
            Err(error) => if error.authority_lost() {
                ReplayStep::Finished(Ok(TerminalReplayOutcome::PhysicalHistoryOnly))
            } else {
                ReplayStep::Finished(Err(RecoveryError::of_kernel(error)))
            },
        }
    }

    pub fn resume(self, reply: Result<Option<ResultId>, Error>) -> (step: ReplayStep)
        ensures
            step == self.next(reply),
    {
        match reply {
            Ok(Some(result_id)) => ReplayStep::Finished(
                Ok(TerminalReplayOutcome::ResultReplayed { result_id }),
            ),
            Ok(None) => ReplayStep::Finished(Ok(TerminalReplayOutcome::WriterSafetySuspended)),
            Err(error) => {
                if error.is_authority_lost() {
                    ReplayStep::Finished(Ok(TerminalReplayOutcome::PhysicalHistoryOnly))
                } else {
                    ReplayStep::Finished(Err(RecoveryError::from(error)))
                }
            },
        }
    }
}

impl ReplayNack {
    /// What the store is asked: the recorded failure, with terminal proof and with the quiescence
    /// that was recorded.
    pub open spec fn asks(self, command: NackCommand) -> bool {
        command == (NackCommand {
            attempt_id: self.snapshot.attempt_id,
            lease_epoch: self.snapshot.lease_epoch,
            failure_class: self.failure_class,
            execution_id: self.snapshot.execution_id,
            terminal_confirmed: true,
            quiescent_confirmed: self.snapshot.quiescent_confirmed,
            incarnation_reusable: self.snapshot.incarnation_reusable,
        })
    }

    pub fn command(&self) -> (command: NackCommand)
        ensures
            self.asks(command),
    {
        NackCommand {
            attempt_id: self.snapshot.attempt_id.clone(),
            lease_epoch: self.snapshot.lease_epoch,
            failure_class: self.failure_class,
            execution_id: self.snapshot.execution_id.clone(),
            terminal_confirmed: true,
            quiescent_confirmed: self.snapshot.quiescent_confirmed,
            incarnation_reusable: self.snapshot.incarnation_reusable,
        }
    }

    pub open spec fn next(self, reply: Result<(), Error>) -> ReplayStep {
        match reply {
            Ok(_) => ReplayStep::Finished(
                Ok(TerminalReplayOutcome::FailureReplayed { failure_class: self.failure_class }),
            ),
            Err(error) => if error.authority_lost() {
                ReplayStep::Finished(Ok(TerminalReplayOutcome::PhysicalHistoryOnly))
            } else {
                ReplayStep::Finished(Err(RecoveryError::of_kernel(error)))
            },
        }
    }

    pub fn resume(self, reply: Result<(), Error>) -> (step: ReplayStep)
        ensures
            step == self.next(reply),
    {
        match reply {
            Ok(_) => ReplayStep::Finished(
                Ok(TerminalReplayOutcome::FailureReplayed { failure_class: self.failure_class }),
            ),
            Err(error) => {
                if error.is_authority_lost() {
                    ReplayStep::Finished(Ok(TerminalReplayOutcome::PhysicalHistoryOnly))
                } else {
                    ReplayStep::Finished(Err(RecoveryError::from(error)))
                }
            },
        }
    }
}

/// A task that has its result is not told again.
pub proof fn law_replay_is_exactly_once(
    query: ResultQuery,
    result_id: ResultId,
    step: ReplayStep,
)
    requires
        query.leads_to(Ok(result_id), step),
    ensures
        step == ReplayStep::Finished(Ok(TerminalReplayOutcome::AlreadyApplied { result_id })),
{
}

/// A success is replayed only from SUCCEEDED, and a failure only from FAILED or TERMINATED, each
/// with terminal proof.  No other recorded state changes the task, whatever payload it carries.
pub proof fn law_replay_needs_terminal_evidence(
    query: ResultQuery,
    reply: Result<ResultId, Error>,
    step: ReplayStep,
)
    requires
        query.leads_to(reply, step),
    ensures
        step is AckSuccess ==> query.snapshot.persisted_state == ExecutionState::Succeeded
            && query.snapshot.terminal_confirmed && query.snapshot.failure_class is None,
        step is NackFailure ==> (query.snapshot.persisted_state == ExecutionState::Failed
            || query.snapshot.persisted_state == ExecutionState::Terminated)
            && query.snapshot.terminal_confirmed,
        !query.snapshot.persisted_state.terminal() ==> step is Finished,
{
}

/// Lost authority makes no result and tells no failure.
pub proof fn law_stale_replay_changes_no_task(error: Error, ack: ReplayAck, nack: ReplayNack)
    requires
        error.authority_lost(),
    ensures
        ack.next(Err(error)) == ReplayStep::Finished(Ok(TerminalReplayOutcome::PhysicalHistoryOnly)),
        nack.next(Err(error)) == ReplayStep::Finished(
            Ok(TerminalReplayOutcome::PhysicalHistoryOnly),
        ),
{
}

/// Without a result of the task, a recorded success with its proof and no failure is acknowledged,
/// and a recorded failure with its proof is told with its class, or as a start failure where none
/// was recorded; each for the recorded execution.
pub proof fn law_recorded_end_is_replayed(query: ResultQuery, missing: String, step: ReplayStep)
    requires
        query.leads_to(Err(Error::NotFound(missing)), step),
        query.snapshot.terminal_confirmed,
    ensures
        query.snapshot.persisted_state == ExecutionState::Succeeded && query.snapshot.failure_class
            is None ==> step == ReplayStep::AckSuccess(ReplayAck { snapshot: query.snapshot }),
        query.snapshot.persisted_state == ExecutionState::Failed || query.snapshot.persisted_state
            == ExecutionState::Terminated ==> step == ReplayStep::NackFailure(
            ReplayNack {
                snapshot: query.snapshot,
                failure_class: match query.snapshot.failure_class {
                    Some(class) => class,
                    None => FailureClass::StartFailure,
                },
            },
        ),
{
}

/// An execution whose record is not of an end has nothing to replay.
pub proof fn law_open_execution_is_not_replayed(
    query: ResultQuery,
    missing: String,
    step: ReplayStep,
)
    requires
        query.leads_to(Err(Error::NotFound(missing)), step),
        match query.snapshot.persisted_state {
            ExecutionState::Starting | ExecutionState::Running | ExecutionState::Unknown
            | ExecutionState::Lost => true,
            _ => false,
        },
    ensures
        step == ReplayStep::Finished(Ok(TerminalReplayOutcome::NotApplicable)),
{
}

/// Any answer to the query but a result or its absence is a fault; a contradiction of the durable
/// state is told apart from other faults.
pub proof fn law_query_faults_are_reported(query: ResultQuery, error: Error, step: ReplayStep)
    requires
        !(error is NotFound),
        query.leads_to(Err(error), step),
    ensures
        match error {
            Error::InvariantViolation(m) => step == ReplayStep::Finished(
                Err(RecoveryError::Invariant(m)),
            ),
            _ => step == ReplayStep::Finished(Err(RecoveryError::Persistence(error))),
        },
{
}

/// A record that contradicts itself is refused, and the diagnostic names the execution and what
/// contradicts: a success without its proof or with a failure, and a failure without its proof.
pub proof fn law_contradictory_record_is_refused(
    query: ResultQuery,
    missing: String,
    step: ReplayStep,
)
    requires
        query.leads_to(Err(Error::NotFound(missing)), step),
    ensures
        ({
            let snapshot = query.snapshot;
            let proof_text = if snapshot.terminal_confirmed {
                "true"@
            } else {
                "false"@
            };
            let class_words = match snapshot.failure_class {
                None => "None"@,
                Some(class) => "Some("@ + class.label() + ")"@,
            };
            &&& snapshot.persisted_state == ExecutionState::Succeeded && (
            !snapshot.terminal_confirmed || snapshot.failure_class is Some) ==> (step matches
                ReplayStep::Finished(Err(RecoveryError::Invariant(m))) && m@ == "execution "@
                + snapshot.execution_id@
                + " is SUCCEEDED with inconsistent terminal evidence (terminal_confirmed="@
                + proof_text + ", failure_class="@ + class_words + ")"@)
            &&& snapshot.persisted_state == ExecutionState::Failed && !snapshot.terminal_confirmed
                ==> (step matches ReplayStep::Finished(Err(RecoveryError::Invariant(m))) && m@
                == "execution "@ + snapshot.execution_id@ + " is "@ + "FAILED"@
                + " without terminal_confirmed"@)
            &&& snapshot.persisted_state == ExecutionState::Terminated
                && !snapshot.terminal_confirmed ==> (step matches ReplayStep::Finished(
                Err(RecoveryError::Invariant(m)),
            ) && m@ == "execution "@ + snapshot.execution_id@ + " is "@ + "TERMINATED"@
                + " without terminal_confirmed"@)
        }),
{
}

/// What the store answers to a replay is what the replay comes to.
pub proof fn law_replay_answers_are_read(
    ack: ReplayAck,
    nack: ReplayNack,
    result_id: ResultId,
    text: String,
    error: Error,
)
    requires
        !(error is StaleAuthority),
        !(error is InvalidAuthority),
        !(error is InvariantViolation),
    ensures
        ack.next(Ok(Some(result_id))) == ReplayStep::Finished(
            Ok(TerminalReplayOutcome::ResultReplayed { result_id }),
        ),
        ack.next(Ok(None)) == ReplayStep::Finished(
            Ok(TerminalReplayOutcome::WriterSafetySuspended),
        ),
        nack.next(Ok(())) == ReplayStep::Finished(
            Ok(TerminalReplayOutcome::FailureReplayed { failure_class: nack.failure_class }),
        ),
        ack.next(Err(error)) == ReplayStep::Finished(Err(RecoveryError::Persistence(error))),
        nack.next(Err(error)) == ReplayStep::Finished(Err(RecoveryError::Persistence(error))),
        ack.next(Err(Error::InvariantViolation(text))) == ReplayStep::Finished(
            Err(RecoveryError::Invariant(text)),
        ),
        nack.next(Err(Error::InvariantViolation(text))) == ReplayStep::Finished(
            Err(RecoveryError::Invariant(text)),
        ),
        ack.next(Err(Error::StaleAuthority(text))) == ReplayStep::Finished(
            Ok(TerminalReplayOutcome::PhysicalHistoryOnly),
        ),
        nack.next(Err(Error::InvalidAuthority(text))) == ReplayStep::Finished(
            Ok(TerminalReplayOutcome::PhysicalHistoryOnly),
        ),
{
}

/// A fault of the store is kept as it is, but for a contradiction of the durable state.
pub proof fn law_store_faults_are_told_apart(error: Error, text: String)
    ensures
        !(error is InvariantViolation) ==> RecoveryError::of_kernel(error)
            == RecoveryError::Persistence(error),
        RecoveryError::of_kernel(Error::InvariantViolation(text)) == RecoveryError::Invariant(text),
{
}

/// The texts of the errors of a recovery.
pub proof fn law_recovery_errors_are_told(
    error: Error,
    text: String,
    supervision: SupervisionError,
    notifier: NotifierError,
    first: Seq<char>,
    second: Seq<char>,
)
    ensures
        RecoveryError::Persistence(error).detail(first, second) == "recovery persistence fault: "@
            + error.detail(),
        RecoveryError::Invariant(text).detail(first, second) == "recovery invariant violation: "@
            + text@,
        RecoveryError::Supervision(supervision).detail(first, second)
            == "recovery supervision fault: "@ + supervision.detail(first, second),
        RecoveryError::Notifier(notifier).detail(first, second) == "recovery notifier fault: "@
            + notifier.detail(),
{
}

/// What the store is asked in a replay is what was recorded: the success with its payload, or the
/// failure with its class and with terminal proof, for the recorded attempt, epoch and execution,
/// with the recorded quiescence and reuse.
pub proof fn law_replay_asks_for_what_was_recorded(
    ack: ReplayAck,
    nack: ReplayNack,
    accept: AckCommand,
    refuse: NackCommand,
)
    requires
        ack.asks(accept),
        nack.asks(refuse),
    ensures
        accept.attempt_id == ack.snapshot.attempt_id,
        accept.lease_epoch == ack.snapshot.lease_epoch,
        accept.execution_id == ack.snapshot.execution_id,
        match ack.snapshot.outcome_json {
            Some(document) => accept.payload@ == document@,
            None => accept.payload@ == "null"@,
        },
        accept.summary == ack.snapshot.summary,
        accept.quiescent_confirmed == ack.snapshot.quiescent_confirmed,
        accept.incarnation_reusable == ack.snapshot.incarnation_reusable,
        refuse.attempt_id == nack.snapshot.attempt_id,
        refuse.lease_epoch == nack.snapshot.lease_epoch,
        refuse.execution_id == nack.snapshot.execution_id,
        refuse.failure_class == nack.failure_class,
        refuse.terminal_confirmed,
        refuse.quiescent_confirmed == nack.snapshot.quiescent_confirmed,
        refuse.incarnation_reusable == nack.snapshot.incarnation_reusable,
{
}

} // verus!

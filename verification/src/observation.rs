//! What adapter evidence means.  These functions decide nothing about the task: they never
//! acknowledge and never take back.
use crate::domain::{
    AdapterError, AdapterErrorKind, ExecutionOutcome, ExecutionState, FailureClass,
    StartObservation,
};
use vstd::prelude::*;

verus! {

/// What an adapter error says of an execution whose start is not in question: a generic error is
/// `Unknown`.  `StartFailure` takes a positively collected terminal failure.
pub open spec fn invocation_class(kind: AdapterErrorKind) -> FailureClass {
    match kind {
        AdapterErrorKind::Unavailable => FailureClass::ResourceUnavailable,
        AdapterErrorKind::DeadlineExceeded => FailureClass::Timeout,
        AdapterErrorKind::Protocol => FailureClass::AdapterProtocolFailure,
        AdapterErrorKind::Other => FailureClass::Unknown,
    }
}

/// Failure class of an adapter error.
pub fn adapter_invocation_failure_class(err: &AdapterError) -> (class: FailureClass)
    ensures
        class == invocation_class(err.kind_of()),
{
    match err.kind() {
        AdapterErrorKind::Unavailable => FailureClass::ResourceUnavailable,
        AdapterErrorKind::DeadlineExceeded => FailureClass::Timeout,
        AdapterErrorKind::Protocol => FailureClass::AdapterProtocolFailure,
        AdapterErrorKind::Other => FailureClass::Unknown,
    }
}

/// What a start observation means.
#[derive(Debug, Clone, Copy, PartialEq, Eq, Structural)]
pub enum StartObservationKind {
    /// RUNNING, consistent with itself: the only kind that may lead to a running grant.
    ExactRunning,
    /// The execution is said to have ended: the outcome must be collected first.
    TerminalCandidate,
    /// Nothing is resolved.
    Unresolved { failure_class: FailureClass },
}

/// Physical state of a collected execution environment.
#[derive(Debug, Clone, Copy, PartialEq, Eq, Structural)]
pub enum PhysicalState {
    Exited,
    Terminated,
    Unknown,
}

/// What an adapter collects of a process, without any authority over the task result.
#[derive(Debug, Clone, PartialEq, Eq)]
pub struct PhysicalExecutionOutcome {
    pub physical_state: PhysicalState,
    pub exit_status: Option<i32>,
    pub artifact_refs: Option<String>,
    pub diagnostic: Option<String>,
}

/// What a collected physical outcome means.
#[derive(Debug, Clone, Copy, PartialEq, Eq, Structural)]
pub enum CollectedOutcomeKind {
    /// The process ended.  That is no task result.
    PhysicalEnded,
    /// Nothing is resolved.
    Unresolved { failure_class: FailureClass },
}

/// What a collected execution outcome means for the task.
#[derive(Debug, Clone, Copy, PartialEq, Eq, Structural)]
pub enum ExecutionOutcomeKind {
    TerminalSuccess,
    TerminalFailure { failure_class: FailureClass },
    Unresolved { failure_class: FailureClass },
}

/// RUNNING, not ambiguous, yet claiming an end.
pub open spec fn contradicts_running(observation: StartObservation) -> bool {
    observation.state == ExecutionState::Running && !observation.ambiguous && (
    observation.terminal_confirmed || observation.quiescent_confirmed)
}

/// Kind of a start observation.  An ambiguous one, and one in STARTING, UNKNOWN or any state that
/// claims no end, is lost; a RUNNING that claims an end is a protocol failure.
pub open spec fn start_kind(observation: StartObservation) -> StartObservationKind {
    if contradicts_running(observation) {
        StartObservationKind::Unresolved { failure_class: FailureClass::AdapterProtocolFailure }
    } else if observation.ambiguous {
        StartObservationKind::Unresolved { failure_class: FailureClass::ExecutionLost }
    } else {
        match observation.state {
            ExecutionState::Running => StartObservationKind::ExactRunning,
            ExecutionState::Terminated => StartObservationKind::TerminalCandidate,
            ExecutionState::Starting | ExecutionState::Unknown => StartObservationKind::Unresolved {
                failure_class: FailureClass::ExecutionLost,
            },
            _ => if observation.terminal_confirmed {
                StartObservationKind::TerminalCandidate
            } else {
                StartObservationKind::Unresolved { failure_class: FailureClass::ExecutionLost }
            },
        }
    }
}

/// Classifies a start observation, or one of a reconciled start.
pub fn normalize_start_observation(observation: &StartObservation) -> (kind: StartObservationKind)
    ensures
        kind == start_kind(*observation),
{
    if observation.state == ExecutionState::Running && !observation.ambiguous && (
    observation.terminal_confirmed || observation.quiescent_confirmed) {
        return StartObservationKind::Unresolved {
            failure_class: FailureClass::AdapterProtocolFailure,
        };
    }
    if observation.state == ExecutionState::Running && !observation.ambiguous {
        return StartObservationKind::ExactRunning;
    }
    if observation.state == ExecutionState::Terminated && !observation.ambiguous {
        return StartObservationKind::TerminalCandidate;
    }
    if observation.ambiguous || matches!(
        observation.state,
        ExecutionState::Unknown | ExecutionState::Starting
    ) {
        return StartObservationKind::Unresolved { failure_class: FailureClass::ExecutionLost };
    }
    if observation.terminal_confirmed {
        return StartObservationKind::TerminalCandidate;
    }
    StartObservationKind::Unresolved { failure_class: FailureClass::ExecutionLost }
}

/// Kind of a collected physical outcome.
pub open spec fn collected_kind(state: PhysicalState) -> CollectedOutcomeKind {
    match state {
        PhysicalState::Exited => CollectedOutcomeKind::PhysicalEnded,
        PhysicalState::Terminated => CollectedOutcomeKind::PhysicalEnded,
        PhysicalState::Unknown => CollectedOutcomeKind::Unresolved {
            failure_class: FailureClass::ExecutionLost,
        },
    }
}

/// Classifies a collected physical outcome.
pub fn normalize_collected_outcome(outcome: &PhysicalExecutionOutcome) -> (kind:
    CollectedOutcomeKind)
    ensures
        kind == collected_kind(outcome.physical_state),
{
    match outcome.physical_state {
        PhysicalState::Exited => CollectedOutcomeKind::PhysicalEnded,
        PhysicalState::Terminated => CollectedOutcomeKind::PhysicalEnded,
        PhysicalState::Unknown => CollectedOutcomeKind::Unresolved {
            failure_class: FailureClass::ExecutionLost,
        },
    }
}

/// Kind of a collected execution outcome.  In this order: an active state with terminal proof, and
/// LOST with any proof, are protocol failures; success without terminal proof is an invalid
/// result; quiescence without terminal proof is a protocol failure; what has terminal proof is a
/// success or a failure; the rest is unresolved.
pub open spec fn outcome_kind(outcome: ExecutionOutcome) -> ExecutionOutcomeKind {
    if outcome.terminal_confirmed && outcome.state.active() || (outcome.state
        == ExecutionState::Lost && (outcome.terminal_confirmed || outcome.quiescent_confirmed)) {
        ExecutionOutcomeKind::Unresolved { failure_class: FailureClass::AdapterProtocolFailure }
    } else if outcome.state == ExecutionState::Succeeded && !outcome.terminal_confirmed {
        ExecutionOutcomeKind::Unresolved { failure_class: FailureClass::InvalidResult }
    } else if outcome.quiescent_confirmed && !outcome.terminal_confirmed {
        ExecutionOutcomeKind::Unresolved { failure_class: FailureClass::AdapterProtocolFailure }
    } else if !outcome.terminal_confirmed {
        ExecutionOutcomeKind::Unresolved {
            failure_class: match outcome.failure_class {
                Some(class) => class,
                None => FailureClass::ExecutionLost,
            },
        }
    } else if outcome.state == ExecutionState::Succeeded {
        ExecutionOutcomeKind::TerminalSuccess
    } else {
        ExecutionOutcomeKind::TerminalFailure {
            failure_class: match outcome.failure_class {
                Some(class) => class,
                None => FailureClass::StartFailure,
            },
        }
    }
}

/// Classifies a collected execution outcome.
pub fn normalize_execution_outcome(outcome: &ExecutionOutcome) -> (kind: ExecutionOutcomeKind)
    ensures
        kind == outcome_kind(*outcome),
{
    if outcome.terminal_confirmed && outcome.state.is_active_physical() {
        return ExecutionOutcomeKind::Unresolved {
            failure_class: FailureClass::AdapterProtocolFailure,
        };
    }
    if outcome.state == ExecutionState::Lost && (outcome.terminal_confirmed
        || outcome.quiescent_confirmed) {
        return ExecutionOutcomeKind::Unresolved {
            failure_class: FailureClass::AdapterProtocolFailure,
        };
    }
    if outcome.state == ExecutionState::Succeeded && !outcome.terminal_confirmed {
        return ExecutionOutcomeKind::Unresolved { failure_class: FailureClass::InvalidResult };
    }
    if outcome.quiescent_confirmed && !outcome.terminal_confirmed {
        return ExecutionOutcomeKind::Unresolved {
            failure_class: FailureClass::AdapterProtocolFailure,
        };
    }
    if !outcome.terminal_confirmed {
        return match outcome.failure_class {
            Some(failure_class) => ExecutionOutcomeKind::Unresolved { failure_class },
            None => ExecutionOutcomeKind::Unresolved { failure_class: FailureClass::ExecutionLost },
        };
    }
    if outcome.state == ExecutionState::Succeeded {
        return ExecutionOutcomeKind::TerminalSuccess;
    }
    match outcome.failure_class {
        Some(failure_class) => ExecutionOutcomeKind::TerminalFailure { failure_class },
        None => ExecutionOutcomeKind::TerminalFailure { failure_class: FailureClass::StartFailure },
    }
}

/// A running grant may be asked for exactly when the adapter reports RUNNING, without ambiguity
/// and without any claim of an end.
pub proof fn law_only_exact_running_may_grant(observation: StartObservation)
    ensures
        start_kind(observation) is ExactRunning <==> observation.state == ExecutionState::Running
            && !observation.ambiguous && !observation.terminal_confirmed
            && !observation.quiescent_confirmed,
{
}

/// A start that claims an end without ambiguity must be collected: TERMINATED always, and SUCCEEDED
/// or FAILED with terminal proof.
pub proof fn law_claimed_end_is_collected(observation: StartObservation)
    requires
        !observation.ambiguous,
        observation.state == ExecutionState::Terminated || (observation.terminal_confirmed && (
        observation.state == ExecutionState::Succeeded || observation.state
            == ExecutionState::Failed)),
    ensures
        start_kind(observation) is TerminalCandidate,
{
}

/// An ambiguous observation is unresolved, whatever else it claims.
pub proof fn law_ambiguity_is_unresolved(observation: StartObservation)
    requires
        observation.ambiguous,
    ensures
        start_kind(observation) is Unresolved,
{
}

/// Success takes SUCCEEDED and terminal proof, and nothing else is a success.
pub proof fn law_success_needs_terminal_proof(outcome: ExecutionOutcome)
    ensures
        outcome_kind(outcome) is TerminalSuccess <==> outcome.state == ExecutionState::Succeeded
            && outcome.terminal_confirmed,
{
}

/// What an outcome without terminal proof claims beside it is not inherited: it is unresolved.
pub proof fn law_nonterminal_outcome_is_unresolved(outcome: ExecutionOutcome)
    requires
        !outcome.terminal_confirmed,
    ensures
        outcome_kind(outcome) is Unresolved,
{
}

/// A generic adapter error is never a start failure.
pub proof fn law_generic_error_is_unknown(err: AdapterError)
    ensures
        invocation_class(err.kind_of()) != FailureClass::StartFailure,
        err is Other <==> invocation_class(err.kind_of()) == FailureClass::Unknown,
{
}

/// What a start observation is, for every observation: an ambiguous one is lost; a RUNNING that
/// claims an end breaks the protocol; and a state that says nothing of an end is lost unless it is
/// RUNNING.
pub proof fn law_start_observations_are_read(observation: StartObservation)
    ensures
        match observation.state {
            _ if observation.ambiguous => start_kind(observation)
                == (StartObservationKind::Unresolved { failure_class: FailureClass::ExecutionLost }),
            ExecutionState::Running => start_kind(observation) == if observation.terminal_confirmed
                || observation.quiescent_confirmed {
                StartObservationKind::Unresolved {
                    failure_class: FailureClass::AdapterProtocolFailure,
                }
            } else {
                StartObservationKind::ExactRunning
            },
            ExecutionState::Terminated => start_kind(observation)
                == StartObservationKind::TerminalCandidate,
            ExecutionState::Succeeded | ExecutionState::Failed | ExecutionState::Lost => start_kind(
                observation,
            ) == if observation.terminal_confirmed {
                StartObservationKind::TerminalCandidate
            } else {
                StartObservationKind::Unresolved { failure_class: FailureClass::ExecutionLost }
            },
            ExecutionState::Starting | ExecutionState::Unknown => start_kind(observation)
                == (StartObservationKind::Unresolved { failure_class: FailureClass::ExecutionLost }),
        },
{
}

/// A failure with terminal proof keeps the class that was collected, and is a start failure where
/// none was.
pub proof fn law_terminal_failure_keeps_its_class(outcome: ExecutionOutcome)
    requires
        outcome.terminal_confirmed,
        outcome.state == ExecutionState::Failed || outcome.state == ExecutionState::Terminated,
    ensures
        outcome.failure_class matches Some(class) ==> outcome_kind(outcome)
            == (ExecutionOutcomeKind::TerminalFailure { failure_class: class }),
        outcome.failure_class is None ==> outcome_kind(outcome)
            == (ExecutionOutcomeKind::TerminalFailure {
            failure_class: FailureClass::StartFailure,
        }),
{
}

/// The class of an outcome without terminal proof: a success that is not proved is an invalid
/// result, quiescence that is not proved breaks the protocol, and anything else keeps the class
/// that was collected, or is lost where none was.
pub proof fn law_unproved_outcome_is_classed(outcome: ExecutionOutcome)
    requires
        !outcome.terminal_confirmed,
    ensures
        outcome_kind(outcome) matches ExecutionOutcomeKind::Unresolved { failure_class } && (
        match (outcome.state, outcome.quiescent_confirmed, outcome.failure_class) {
            (ExecutionState::Succeeded, _, _) => failure_class == FailureClass::InvalidResult,
            (_, true, _) => failure_class == FailureClass::AdapterProtocolFailure,
            (_, false, Some(class)) => failure_class == class,
            (_, false, None) => failure_class == FailureClass::ExecutionLost,
        }),
{
}

/// Terminal proof of an execution that is said to be active or LOST breaks the protocol, whatever
/// class was collected with it.
pub proof fn law_proof_of_no_end_breaks_the_protocol(outcome: ExecutionOutcome)
    requires
        outcome.terminal_confirmed,
        match outcome.state {
            ExecutionState::Starting | ExecutionState::Running | ExecutionState::Unknown
            | ExecutionState::Lost => true,
            _ => false,
        },
    ensures
        outcome_kind(outcome) == (ExecutionOutcomeKind::Unresolved {
            failure_class: FailureClass::AdapterProtocolFailure,
        }),
{
}

/// A process that exited or was terminated has ended, and one of which nothing is known is lost.
pub proof fn law_collected_processes_are_read()
    ensures
        collected_kind(PhysicalState::Exited) == CollectedOutcomeKind::PhysicalEnded,
        collected_kind(PhysicalState::Terminated) == CollectedOutcomeKind::PhysicalEnded,
        collected_kind(PhysicalState::Unknown) == (CollectedOutcomeKind::Unresolved {
            failure_class: FailureClass::ExecutionLost,
        }),
{
}

/// The class of an adapter error whose start is not in question.
pub proof fn law_adapter_errors_are_classed(text: String)
    ensures
        invocation_class(AdapterError::Unavailable(text).kind_of())
            == FailureClass::ResourceUnavailable,
        invocation_class(AdapterError::DeadlineExceeded(text).kind_of()) == FailureClass::Timeout,
        invocation_class(AdapterError::Protocol(text).kind_of())
            == FailureClass::AdapterProtocolFailure,
        invocation_class(AdapterError::Other(text).kind_of()) == FailureClass::Unknown,
{
}

} // verus!

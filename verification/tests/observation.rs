use agentype_runtime::domain::{
    AdapterError, ExecutionOutcome, ExecutionState, FailureClass, JsonValue, StartObservation,
};
use agentype_runtime::observation::{
    adapter_invocation_failure_class, normalize_collected_outcome, normalize_execution_outcome,
    normalize_start_observation, CollectedOutcomeKind, ExecutionOutcomeKind,
    PhysicalExecutionOutcome, PhysicalState, StartObservationKind,
};

fn start(
    state: ExecutionState,
    ambiguous: bool,
    terminal: bool,
    quiescent: bool,
) -> StartObservation {
    StartObservation {
        state,
        runtime_handle: JsonValue::new("{\"h\":1}"),
        ambiguous,
        detail: None,
        terminal_confirmed: terminal,
        quiescent_confirmed: quiescent,
    }
}

fn physical(state: PhysicalState) -> PhysicalExecutionOutcome {
    PhysicalExecutionOutcome {
        physical_state: state,
        exit_status: None,
        artifact_refs: None,
        diagnostic: None,
    }
}

fn outcome(state: ExecutionState, terminal: bool, quiescent: bool) -> ExecutionOutcome {
    ExecutionOutcome {
        state,
        terminal_confirmed: terminal,
        quiescent_confirmed: quiescent,
        incarnation_reusable: false,
        payload: None,
        summary: None,
        failure_class: None,
    }
}

fn unresolved(failure_class: FailureClass) -> StartObservationKind {
    StartObservationKind::Unresolved { failure_class }
}

#[test]
fn exact_running_is_the_only_start_kind_that_may_grant() {
    assert_eq!(
        normalize_start_observation(&start(ExecutionState::Running, false, false, false)),
        StartObservationKind::ExactRunning
    );
}

#[test]
fn contradictory_running_is_unresolved_protocol_failure() {
    let mut obs = start(ExecutionState::Running, false, true, false);
    assert_eq!(
        normalize_start_observation(&obs),
        unresolved(FailureClass::AdapterProtocolFailure)
    );
    obs.terminal_confirmed = false;
    obs.quiescent_confirmed = true;
    assert_eq!(
        normalize_start_observation(&obs),
        unresolved(FailureClass::AdapterProtocolFailure)
    );
}

#[test]
fn ambiguous_and_unresolved_states_never_grant() {
    for state in [
        ExecutionState::Starting,
        ExecutionState::Unknown,
        ExecutionState::Lost,
    ] {
        assert_eq!(
            normalize_start_observation(&start(state, false, false, false)),
            unresolved(FailureClass::ExecutionLost)
        );
    }
    assert_eq!(
        normalize_start_observation(&start(ExecutionState::Running, true, false, false)),
        unresolved(FailureClass::ExecutionLost)
    );
}

#[test]
fn unknown_to_running_is_exact_running_on_the_observation() {
    assert_eq!(
        normalize_start_observation(&start(ExecutionState::Running, false, false, false)),
        StartObservationKind::ExactRunning
    );
}

#[test]
fn terminal_looking_start_requires_collect() {
    assert_eq!(
        normalize_start_observation(&start(ExecutionState::Succeeded, false, true, true)),
        StartObservationKind::TerminalCandidate
    );
    assert_eq!(
        normalize_start_observation(&start(ExecutionState::Failed, false, true, false)),
        StartObservationKind::TerminalCandidate
    );
    assert_eq!(
        normalize_start_observation(&start(ExecutionState::Terminated, false, false, false)),
        StartObservationKind::TerminalCandidate
    );
}

#[test]
fn collected_physical_exit_is_not_task_result() {
    assert_eq!(
        normalize_collected_outcome(&physical(PhysicalState::Exited)),
        CollectedOutcomeKind::PhysicalEnded
    );
    assert_eq!(
        normalize_collected_outcome(&physical(PhysicalState::Terminated)),
        CollectedOutcomeKind::PhysicalEnded
    );
    assert_eq!(
        normalize_collected_outcome(&physical(PhysicalState::Unknown)),
        CollectedOutcomeKind::Unresolved { failure_class: FailureClass::ExecutionLost }
    );
}

#[test]
fn nonterminal_collect_cannot_inherit_reconcile_proof() {
    assert_eq!(
        normalize_collected_outcome(&physical(PhysicalState::Unknown)),
        CollectedOutcomeKind::Unresolved { failure_class: FailureClass::ExecutionLost }
    );
}

#[test]
fn adapter_error_taxonomy() {
    assert_eq!(
        adapter_invocation_failure_class(&AdapterError::Unavailable("x".to_string())),
        FailureClass::ResourceUnavailable
    );
    assert_eq!(
        adapter_invocation_failure_class(&AdapterError::DeadlineExceeded("x".to_string())),
        FailureClass::Timeout
    );
    assert_eq!(
        adapter_invocation_failure_class(&AdapterError::Protocol("x".to_string())),
        FailureClass::AdapterProtocolFailure
    );
    assert_eq!(
        adapter_invocation_failure_class(&AdapterError::Other("x".to_string())),
        FailureClass::Unknown
    );
}

#[test]
fn invocation_other_is_unknown_and_start_failure_needs_positive_proof() {
    let class =
        adapter_invocation_failure_class(&AdapterError::Other("opaque failure".to_string()));
    assert_eq!(class, FailureClass::Unknown);
    assert_ne!(class, FailureClass::StartFailure);
    assert_eq!(
        normalize_collected_outcome(&physical(PhysicalState::Unknown)),
        CollectedOutcomeKind::Unresolved { failure_class: FailureClass::ExecutionLost }
    );
}

#[test]
fn adapter_cannot_author_scheduler_failure_class() {
    assert_eq!(
        adapter_invocation_failure_class(&AdapterError::Protocol(
            "scheduler-derived failure_class is not adapter-authored".to_string()
        )),
        FailureClass::AdapterProtocolFailure
    );
    assert_eq!(
        normalize_collected_outcome(&physical(PhysicalState::Exited)),
        CollectedOutcomeKind::PhysicalEnded
    );
}

#[test]
fn execution_outcome_kinds() {
    let protocol = FailureClass::AdapterProtocolFailure;
    let cases = [
        (outcome(ExecutionState::Succeeded, true, true), ExecutionOutcomeKind::TerminalSuccess),
        (
            outcome(ExecutionState::Succeeded, false, false),
            ExecutionOutcomeKind::Unresolved { failure_class: FailureClass::InvalidResult },
        ),
        (
            outcome(ExecutionState::Succeeded, false, true),
            ExecutionOutcomeKind::Unresolved { failure_class: FailureClass::InvalidResult },
        ),
        (outcome(ExecutionState::Running, true, false), ExecutionOutcomeKind::Unresolved { failure_class: protocol }),
        (outcome(ExecutionState::Starting, true, false), ExecutionOutcomeKind::Unresolved { failure_class: protocol }),
        (outcome(ExecutionState::Unknown, true, true), ExecutionOutcomeKind::Unresolved { failure_class: protocol }),
        (outcome(ExecutionState::Lost, true, false), ExecutionOutcomeKind::Unresolved { failure_class: protocol }),
        (outcome(ExecutionState::Lost, false, true), ExecutionOutcomeKind::Unresolved { failure_class: protocol }),
        (
            outcome(ExecutionState::Lost, false, false),
            ExecutionOutcomeKind::Unresolved { failure_class: FailureClass::ExecutionLost },
        ),
        (outcome(ExecutionState::Failed, false, true), ExecutionOutcomeKind::Unresolved { failure_class: protocol }),
        (
            outcome(ExecutionState::Failed, true, false),
            ExecutionOutcomeKind::TerminalFailure { failure_class: FailureClass::StartFailure },
        ),
        (
            outcome(ExecutionState::Terminated, true, true),
            ExecutionOutcomeKind::TerminalFailure { failure_class: FailureClass::StartFailure },
        ),
    ];
    for (given, kind) in cases {
        assert_eq!(normalize_execution_outcome(&given), kind, "{given:?}");
    }
    let mut classed = outcome(ExecutionState::Failed, true, true);
    classed.failure_class = Some(FailureClass::TransientExternal);
    assert_eq!(
        normalize_execution_outcome(&classed),
        ExecutionOutcomeKind::TerminalFailure { failure_class: FailureClass::TransientExternal }
    );
    classed.terminal_confirmed = false;
    classed.quiescent_confirmed = false;
    assert_eq!(
        normalize_execution_outcome(&classed),
        ExecutionOutcomeKind::Unresolved { failure_class: FailureClass::TransientExternal }
    );
}

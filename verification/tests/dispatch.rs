use agentype_runtime::adapters::{AdapterRegistry, AdapterRegistryError, AdapterUnavailable};
use agentype_runtime::dispatch::{
    resolve_physical_execution_environment, CompositionStep, DispatchError, DispatchOneOutcome,
    DispatchStep, Dispatcher, RequestAssembly, ResolvedPhysicalExecutionEnvironment,
};
use agentype_runtime::domain::{
    AckCommand, AdapterError, AttemptId, AuthoritativeExecutionBinding, Claim, ConfirmCommand,
    Error, ExecutionId, ExecutionLaunchSnapshot, ExecutionOutcome, ExecutionState, FailureClass,
    JsonValue, NackCommand, PhysicalRecord, RequestId, ResolutionError,
    ResolvedExecutionEnvironment, ResultId, StartObservation, TaskFacts, WorkspaceMode,
};
use agentype_runtime::launch::{
    prepare_execution_launch, ExecutionPreparationError, LaunchStep, PreparedExecutionLaunch,
};
use agentype_runtime::notifier::{
    DeliveryStep, NotifierRetryPolicy, NotifierService, OutboxDeliveryCandidate, OutboxEventId,
    OutboxState,
};
use agentype_runtime::time::Seconds;

const LEASE: u64 = 10;

#[derive(Debug, Clone, Copy, PartialEq, Eq)]
enum TaskState {
    Ready,
    Leased,
    Running,
    RetryWait,
    Suspended,
    Completed,
}

struct Task {
    payload: &'static str,
    acceptance: &'static str,
    write: bool,
    retry: Vec<FailureClass>,
    max_attempts: u64,
    state: TaskState,
    escalation: Option<FailureClass>,
    attempts: u64,
    result: Option<AckCommand>,
}

struct Attempt {
    task: usize,
    epoch: u64,
    expires_at: u64,
    active: bool,
}

struct Execution {
    task: usize,
    attempt: usize,
    state: ExecutionState,
    handle: Option<JsonValue>,
    terminal_confirmed: bool,
    quiescent_confirmed: bool,
    attempt_isolation: bool,
}

/// A store that keeps tasks, attempts and executions in memory.  Identities are positions.
struct Store {
    now: u64,
    target: &'static str,
    profile: &'static str,
    tasks: Vec<Task>,
    attempts: Vec<Attempt>,
    executions: Vec<Execution>,
}

fn position(text: &str) -> usize {
    text.rsplit('-').next().unwrap().parse().unwrap()
}

fn task() -> Task {
    Task {
        payload: "null",
        acceptance: "null",
        write: false,
        retry: Vec::new(),
        max_attempts: 1,
        state: TaskState::Ready,
        escalation: None,
        attempts: 0,
        result: None,
    }
}

fn retryable(write: bool) -> Task {
    Task {
        write,
        retry: vec![
            FailureClass::ExecutionLost,
            FailureClass::Timeout,
            FailureClass::TransientExternal,
        ],
        max_attempts: 3,
        ..task()
    }
}

fn config_retryable(write: bool) -> Task {
    Task {
        write,
        retry: vec![FailureClass::ResourceUnavailable, FailureClass::ExecutionLost],
        max_attempts: 2,
        ..task()
    }
}

impl Task {
    fn facts(&self) -> TaskFacts {
        TaskFacts {
            payload: JsonValue::new(self.payload),
            acceptance: JsonValue::new(self.acceptance),
            workstream_id: None,
            workspace_mode: if self.write { WorkspaceMode::Write } else { WorkspaceMode::ReadOnly },
        }
    }
}

impl Store {
    fn submit(&mut self, task: Task) -> usize {
        self.tasks.push(task);
        self.tasks.len() - 1
    }

    fn claim_next_available(&mut self) -> Option<Claim> {
        let task = self.tasks.iter().position(|task| task.state == TaskState::Ready)?;
        self.tasks[task].state = TaskState::Leased;
        self.tasks[task].attempts += 1;
        let epoch = self.tasks[task].attempts;
        self.attempts.push(Attempt { task, epoch, expires_at: self.now + LEASE, active: true });
        Some(Claim {
            attempt_id: AttemptId::new(&format!("attempt-{}", self.attempts.len() - 1)),
            lease_epoch: epoch,
            execution_target: self.target.to_string(),
            execution_profile: self.profile.to_string(),
            batch_id: "batch".to_string(),
            task: self.tasks[task].facts(),
        })
    }

    fn authority(&self, attempt_id: &AttemptId, epoch: u64) -> Result<usize, Error> {
        let attempt = position(&attempt_id.text);
        let row = &self.attempts[attempt];
        if !row.active || row.epoch != epoch || self.now >= row.expires_at {
            return Err(Error::StaleAuthority("lease is not current".to_string()));
        }
        Ok(attempt)
    }

    fn binding(&self, claim: &Claim) -> Result<AuthoritativeExecutionBinding, Error> {
        self.authority(&claim.attempt_id, claim.lease_epoch)?;
        if claim.execution_target != self.target || claim.execution_profile != self.profile {
            return Err(Error::InvalidAuthority("claim does not match its attempt".to_string()));
        }
        Ok(AuthoritativeExecutionBinding {
            attempt_id: claim.attempt_id.clone(),
            lease_epoch: claim.lease_epoch,
            execution_target: self.target.to_string(),
            execution_profile: self.profile.to_string(),
        })
    }

    fn create_execution(
        &mut self,
        claim: &Claim,
        environment: &ResolvedExecutionEnvironment,
    ) -> Result<ExecutionLaunchSnapshot, Error> {
        let attempt = self.authority(&claim.attempt_id, claim.lease_epoch)?;
        self.executions.push(Execution {
            task: self.attempts[attempt].task,
            attempt,
            state: ExecutionState::Starting,
            handle: None,
            terminal_confirmed: false,
            quiescent_confirmed: false,
            attempt_isolation: environment.attempt_isolation,
        });
        let number = self.executions.len() - 1;
        Ok(ExecutionLaunchSnapshot {
            execution_id: ExecutionId::new(&format!("execution-{number}")),
            request_id: RequestId::new(&format!("request-{number}")),
            task: self.tasks[self.executions[number].task].facts(),
        })
    }

    fn execution(&self, id: &ExecutionId) -> &Execution {
        &self.executions[position(&id.text)]
    }

    fn confirm(&mut self, command: &ConfirmCommand) -> Result<(), Error> {
        let attempt = self.authority(&command.attempt_id, command.lease_epoch)?;
        self.attempts[attempt].expires_at = self.now + LEASE;
        let task = self.attempts[attempt].task;
        self.tasks[task].state = TaskState::Running;
        let row = &mut self.executions[position(&command.execution_id.text)];
        row.state = ExecutionState::Running;
        row.handle = Some(command.handle.clone());
        Ok(())
    }

    fn ack(&mut self, command: AckCommand) -> Result<Option<ResultId>, Error> {
        let attempt = self.authority(&command.attempt_id, command.lease_epoch)?;
        self.attempts[attempt].active = false;
        let row = &mut self.executions[position(&command.execution_id.text)];
        row.state = ExecutionState::Succeeded;
        row.terminal_confirmed = true;
        row.quiescent_confirmed = command.quiescent_confirmed;
        let task = &mut self.tasks[self.attempts[attempt].task];
        task.state = TaskState::Completed;
        task.result = Some(command);
        Ok(Some(ResultId::new("result")))
    }

    fn fail_task(&mut self, attempt: usize, class: FailureClass, writer_at_large: bool) {
        self.attempts[attempt].active = false;
        let task = &mut self.tasks[self.attempts[attempt].task];
        if task.write && writer_at_large {
            task.state = TaskState::Suspended;
            task.escalation = Some(FailureClass::WriterQuiescenceUnknown);
        } else if task.retry.contains(&class) && task.attempts < task.max_attempts {
            task.state = TaskState::RetryWait;
        } else {
            task.state = TaskState::Suspended;
            task.escalation = Some(class);
        }
    }

    fn nack(&mut self, command: &NackCommand) -> Result<(), Error> {
        let attempt = self.authority(&command.attempt_id, command.lease_epoch)?;
        let quiescent = command.terminal_confirmed && command.quiescent_confirmed;
        let row = &mut self.executions[position(&command.execution_id.text)];
        row.state = if command.terminal_confirmed {
            ExecutionState::Failed
        } else {
            ExecutionState::Unknown
        };
        row.terminal_confirmed = command.terminal_confirmed;
        row.quiescent_confirmed = quiescent;
        let at_large = !quiescent && !row.attempt_isolation;
        self.fail_task(attempt, command.failure_class, at_large);
        Ok(())
    }

    fn nack_configuration(&mut self, claim: &Claim) -> Result<(), Error> {
        let attempt = self.authority(&claim.attempt_id, claim.lease_epoch)?;
        self.fail_task(attempt, FailureClass::ResourceUnavailable, false);
        Ok(())
    }

    fn record(&mut self, record: &PhysicalRecord) -> Result<(), Error> {
        let row = &mut self.executions[position(&record.execution_id.text)];
        row.state = record.state;
        if let Some(handle) = &record.handle {
            row.handle = Some(handle.clone());
        }
        row.terminal_confirmed = record.terminal_confirmed;
        row.quiescent_confirmed = record.quiescent_confirmed;
        Ok(())
    }
}

#[derive(Default)]
struct Registry {
    targets: Vec<(&'static str, &'static str, bool)>,
    profiles: Vec<(&'static str, Option<&'static str>)>,
}

impl Registry {
    fn resolve(
        &self,
        binding: &AuthoritativeExecutionBinding,
    ) -> Result<ResolvedExecutionEnvironment, ResolutionError> {
        let target = self
            .targets
            .iter()
            .find(|target| target.0 == binding.execution_target)
            .ok_or_else(|| ResolutionError::TargetNotFound(binding.execution_target.clone()))?;
        let profile = self
            .profiles
            .iter()
            .find(|profile| profile.0 == binding.execution_profile)
            .ok_or_else(|| ResolutionError::ProfileNotFound(binding.execution_profile.clone()))?;
        if profile.1.is_some() && profile.1 != Some(target.0) {
            return Err(ResolutionError::Incompatible(binding.execution_profile.clone()));
        }
        Ok(ResolvedExecutionEnvironment {
            execution_target: binding.execution_target.clone(),
            execution_profile: binding.execution_profile.clone(),
            adapter_kind: target.1.to_string(),
            attempt_isolation: target.2,
            target_options: JsonValue::new("{\"endpoint\":\"local://dispatch\"}"),
            profile_options: JsonValue::new("{\"model_tier\":\"standard\"}"),
            profile_timeout_seconds: Some(Seconds { bits: 30.0f64.to_bits() }),
        })
    }
}

#[derive(Default)]
struct FakeAdapter {
    last_request: Option<(TaskFacts, ResolvedExecutionEnvironment)>,
    starts: Vec<(ExecutionId, RequestId)>,
    next_start: Option<Result<StartObservation, AdapterError>>,
    next_outcome: Option<Result<ExecutionOutcome, AdapterError>>,
    advance_on_start: u64,
}

struct Env {
    store: Store,
    registry: Registry,
    adapters: AdapterRegistry<()>,
    fake: FakeAdapter,
}

fn store() -> Store {
    Store {
        now: 1_000,
        target: "local",
        profile: "default",
        tasks: Vec::new(),
        attempts: Vec::new(),
        executions: Vec::new(),
    }
}

fn installed(kind: &str) -> AdapterRegistry<()> {
    let mut adapters = AdapterRegistry::new();
    adapters.register(kind.to_string(), ()).unwrap();
    adapters
}

fn env() -> Env {
    Env {
        store: store(),
        registry: Registry {
            targets: vec![("local", "process", false)],
            profiles: vec![("default", None)],
        },
        adapters: installed("process"),
        fake: FakeAdapter::default(),
    }
}

fn running() -> StartObservation {
    StartObservation {
        state: ExecutionState::Running,
        runtime_handle: JsonValue::new("{}"),
        ambiguous: false,
        detail: None,
        terminal_confirmed: false,
        quiescent_confirmed: false,
    }
}

fn start(state: ExecutionState, handle: &str, terminal: bool, quiescent: bool) -> StartObservation {
    StartObservation {
        state,
        runtime_handle: JsonValue::new(handle),
        terminal_confirmed: terminal,
        quiescent_confirmed: quiescent,
        ..running()
    }
}

fn ambiguous_start() -> StartObservation {
    StartObservation {
        ambiguous: true,
        ..start(ExecutionState::Unknown, "{\"probe\":1}", false, false)
    }
}

fn outcome(
    state: ExecutionState,
    failure_class: Option<FailureClass>,
    terminal: bool,
    quiescent: bool,
) -> ExecutionOutcome {
    ExecutionOutcome {
        state,
        terminal_confirmed: terminal,
        quiescent_confirmed: quiescent,
        incarnation_reusable: false,
        payload: None,
        summary: None,
        failure_class,
    }
}

impl Env {
    fn dispatch_one(&mut self) -> Result<DispatchOneOutcome, DispatchError> {
        let first = Dispatcher::new(&self.adapters).dispatch_one();
        self.run(first)
    }

    fn dispatch_claim(&mut self, claim: Claim) -> Result<DispatchOneOutcome, DispatchError> {
        let first = Dispatcher::new(&self.adapters).dispatch_claim(claim);
        self.run(first)
    }

    fn run(&mut self, first: DispatchStep) -> Result<DispatchOneOutcome, DispatchError> {
        let dispatcher = Dispatcher::new(&self.adapters);
        let mut step = first;
        for _ in 0..12 {
            step = match step {
                DispatchStep::ClaimNext(call) => {
                    call.resume(Ok(self.store.claim_next_available()))
                }
                DispatchStep::ResolveBinding(query) => {
                    let reply = self.store.binding(&query.claim);
                    dispatcher.bound(query, reply)
                }
                DispatchStep::ResolveEnvironment(query) => {
                    let reply = self.registry.resolve(&query.binding);
                    dispatcher.configured(query, reply)
                }
                DispatchStep::ReportUnavailable(call) => {
                    assert_eq!(
                        call.report(),
                        "runtime composition unavailable (target/profile/adapter)"
                    );
                    let reply = self.store.nack_configuration(&call.claim);
                    call.resume(reply)
                }
                DispatchStep::CreateExecution(call) => {
                    let reply =
                        self.store.create_execution(&call.claim, &call.physical.environment);
                    call.resume(reply)
                }
                DispatchStep::AssembleRequest(call) => {
                    self.fake.last_request = Some(request(&call));
                    call.resume(Ok(()))
                }
                DispatchStep::StartPhysical(call) => {
                    self.store.now += self.fake.advance_on_start;
                    self.fake.starts.push((
                        call.launch.execution_id.clone(),
                        call.launch.request_id.clone(),
                    ));
                    let reply = self.fake.next_start.take().unwrap_or_else(|| Ok(running()));
                    call.resume(reply)
                }
                DispatchStep::ConfirmRunning(call) => {
                    let reply = self.store.confirm(&call.command());
                    call.resume(reply)
                }
                DispatchStep::CollectOutcome(call) => {
                    let reply = self.fake.next_outcome.take().expect("an outcome to collect");
                    call.resume(reply)
                }
                DispatchStep::AckSuccess(call) => {
                    let reply = self.store.ack(call.command());
                    call.resume(reply)
                }
                DispatchStep::NackStart(call) => {
                    let reply = self.store.nack(&call.command());
                    call.resume(reply)
                }
                DispatchStep::RecordHistory(call) => {
                    let reply = self.store.record(&call.record);
                    call.resume(reply)
                }
                DispatchStep::Finished(result) => return result,
            }
        }
        match step {
            DispatchStep::Finished(result) => result,
            other => panic!("the dispatch did not end: {other:?}"),
        }
    }

    fn compose(
        &self,
        claim: Claim,
    ) -> Result<ResolvedPhysicalExecutionEnvironment, DispatchError> {
        let mut step = resolve_physical_execution_environment(claim);
        loop {
            step = match step {
                CompositionStep::ResolveBinding(query) => {
                    let reply = self.store.binding(&query.claim);
                    query.resume(reply)
                }
                CompositionStep::ResolveEnvironment(query) => {
                    let reply = self.registry.resolve(&query.binding);
                    query.resume(reply, &self.adapters)
                }
                CompositionStep::Composed(_, physical) => return Ok(physical),
                CompositionStep::Refused(_, error) => return Err(error),
            }
        }
    }

    fn launch(
        &mut self,
        claim: Claim,
    ) -> Result<PreparedExecutionLaunch, ExecutionPreparationError> {
        let mut step = prepare_execution_launch(claim);
        loop {
            step = match step {
                LaunchStep::ResolveBinding(call) => {
                    let reply = self.store.binding(&call.claim);
                    call.resume(reply)
                }
                LaunchStep::ResolveEnvironment(call) => {
                    let reply = self.registry.resolve(&call.binding);
                    call.resume(reply)
                }
                LaunchStep::CreateExecution(call) => {
                    let reply = self.store.create_execution(&call.claim, &call.environment);
                    call.resume(reply)
                }
                LaunchStep::AssembleRequest(call) => call.resume(Ok(())),
                LaunchStep::Finished(result) => return result,
            }
        }
    }

    fn claim(&mut self) -> Claim {
        self.store.submit(task());
        self.store.claim_next_available().unwrap()
    }
}

/// A request takes over what it is assembled from.
fn request(call: &RequestAssembly) -> (TaskFacts, ResolvedExecutionEnvironment) {
    let task = &call.snapshot.task;
    let environment = &call.physical.environment;
    (
        TaskFacts {
            payload: task.payload.clone(),
            acceptance: task.acceptance.clone(),
            workstream_id: task.workstream_id.clone(),
            workspace_mode: task.workspace_mode,
        },
        ResolvedExecutionEnvironment {
            execution_target: environment.execution_target.clone(),
            execution_profile: environment.execution_profile.clone(),
            adapter_kind: environment.adapter_kind.clone(),
            attempt_isolation: environment.attempt_isolation,
            target_options: environment.target_options.clone(),
            profile_options: environment.profile_options.clone(),
            profile_timeout_seconds: environment.profile_timeout_seconds,
        },
    )
}

fn ambiguous(result: Result<DispatchOneOutcome, DispatchError>) -> ExecutionId {
    match result.unwrap() {
        DispatchOneOutcome::StartAmbiguous { execution_id, .. } => execution_id,
        other => panic!("expected StartAmbiguous, got {other:?}"),
    }
}

fn failed(result: Result<DispatchOneOutcome, DispatchError>, class: FailureClass) -> ExecutionId {
    match result.unwrap() {
        DispatchOneOutcome::StartFailed { execution_id, failure_class, .. } => {
            assert_eq!(failure_class, class);
            execution_id
        }
        other => panic!("expected StartFailed, got {other:?}"),
    }
}

fn assert_unresolved(env: &Env, id: &ExecutionId, handle: &str) {
    let row = env.store.execution(id);
    assert_eq!(row.state, ExecutionState::Unknown);
    assert!(!row.terminal_confirmed);
    assert!(!row.quiescent_confirmed);
    assert_eq!(row.handle, Some(JsonValue::new(handle)));
    assert!(env.store.tasks[row.task].result.is_none());
}

// Launch preparation

#[test]
fn end_to_end_launch_preserves_registry_isolation_fact() {
    for isolated in [false, true] {
        let mut env = env();
        env.registry.targets = vec![("local", "container", isolated)];
        let claim = env.claim();
        let launch = env.launch(claim).unwrap();
        assert_eq!(launch.resolved_environment().attempt_isolation, isolated);
        let row = env.store.execution(&launch.snapshot().execution_id);
        assert_eq!(row.attempt_isolation, isolated);
    }
}

#[test]
fn launch_binds_current_registry_state_not_a_stale_resolved_environment() {
    let mut env = env();
    env.registry.targets = vec![("local", "container", true)];
    let claim_a = env.claim();
    let launch_a = env.launch(claim_a).unwrap();
    assert!(launch_a.resolved_environment().attempt_isolation);
    env.registry.targets = vec![("local", "container", false)];
    let claim_b = env.claim();
    let launch_b = env.launch(claim_b).unwrap();
    assert!(!launch_b.resolved_environment().attempt_isolation);
    assert!(!env.store.execution(&launch_b.snapshot().execution_id).attempt_isolation);
    assert!(env.store.execution(&launch_a.snapshot().execution_id).attempt_isolation);
}

#[test]
fn preparation_errors_standardize_configuration_failures_as_resource_unavailable() {
    let mut env = env();
    env.store.submit(task());
    let claim = || Claim {
        attempt_id: AttemptId::new("attempt-0"),
        lease_epoch: 1,
        execution_target: "local".to_string(),
        execution_profile: "default".to_string(),
        batch_id: "batch".to_string(),
        task: task().facts(),
    };
    assert_eq!(env.store.claim_next_available(), Some(claim()));

    env.registry = Registry::default();
    let err = env.launch(claim()).unwrap_err();
    assert!(matches!(
        &err,
        ExecutionPreparationError::Configuration(ResolutionError::TargetNotFound(_))
    ));
    assert_eq!(err.standard_failure_class(), Some(FailureClass::ResourceUnavailable));
    assert_eq!(err.message(), "execution configuration unavailable: local");

    env.registry.targets = vec![("local", "process", false)];
    let err = env.launch(claim()).unwrap_err();
    assert!(matches!(
        &err,
        ExecutionPreparationError::Configuration(ResolutionError::ProfileNotFound(_))
    ));
    assert_eq!(err.standard_failure_class(), Some(FailureClass::ResourceUnavailable));

    let kernel_err = ExecutionPreparationError::Kernel(Error::NotFound("unreachable".to_string()));
    assert_eq!(kernel_err.standard_failure_class(), None);
    assert_eq!(kernel_err.message(), "execution launch rejected: unreachable");

    env.registry.profiles = vec![("default", None)];
    let prepared = env.launch(claim()).unwrap();
    let row = env.store.execution(&prepared.snapshot().execution_id);
    assert_eq!(row.attempt, 0);
}

#[test]
fn tampered_claim_target_yields_authority_rejection_not_resource_unavailable() {
    let mut env = env();
    let mut claim = env.claim();
    claim.execution_target = "missing-target".to_string();
    let err = env.launch(claim).unwrap_err();
    assert!(matches!(&err, ExecutionPreparationError::Kernel(Error::InvalidAuthority(_))));
    assert_eq!(err.standard_failure_class(), None);
}

#[test]
fn tampered_claim_profile_yields_authority_rejection_not_resource_unavailable() {
    let mut env = env();
    let mut claim = env.claim();
    claim.execution_profile = "missing-profile".to_string();
    let err = env.launch(claim).unwrap_err();
    assert!(matches!(&err, ExecutionPreparationError::Kernel(Error::InvalidAuthority(_))));
    assert_eq!(err.standard_failure_class(), None);
}

#[test]
fn stale_claim_authority_precedes_configuration_failure() {
    let mut env = env();
    env.registry = Registry::default();
    let claim = env.claim();
    env.store.now += 25;
    let err = env.launch(claim).unwrap_err();
    assert!(matches!(&err, ExecutionPreparationError::Kernel(Error::StaleAuthority(_))));
    assert_eq!(err.standard_failure_class(), None);
}

#[test]
fn a_request_that_cannot_be_assembled_is_an_authority_fault() {
    let mut env = env();
    let claim = env.claim();
    let mut step = prepare_execution_launch(claim);
    loop {
        step = match step {
            LaunchStep::ResolveBinding(call) => {
                let reply = env.store.binding(&call.claim);
                call.resume(reply)
            }
            LaunchStep::ResolveEnvironment(call) => {
                let reply = env.registry.resolve(&call.binding);
                call.resume(reply)
            }
            LaunchStep::CreateExecution(call) => {
                let reply = env.store.create_execution(&call.claim, &call.environment);
                call.resume(reply)
            }
            LaunchStep::AssembleRequest(call) => call.resume(Err("no prompt".to_string())),
            LaunchStep::Finished(result) => {
                assert_eq!(
                    result.unwrap_err(),
                    ExecutionPreparationError::Kernel(Error::InvalidAuthority(
                        "no prompt".to_string()
                    ))
                );
                return;
            }
        }
    }
}

// Composition

#[test]
fn physical_composition_resolves_binding_config_and_adapter() {
    let mut env = env();
    let claim = env.claim();
    let attempt_id = claim.attempt_id.clone();
    let epoch = claim.lease_epoch;
    let physical = env.compose(claim).unwrap();
    assert_eq!(physical.binding().attempt_id, attempt_id);
    assert_eq!(physical.binding().lease_epoch, epoch);
    assert_eq!(physical.environment().execution_target, "local");
    assert_eq!(physical.environment().adapter_kind, "process");
    assert_eq!(physical.environment().execution_profile, "default");
    assert!(!physical.attempt_isolation());
}

#[test]
fn physical_composition_fails_closed_on_missing_target() {
    let mut env = env();
    env.registry = Registry::default();
    let claim = env.claim();
    assert!(matches!(
        env.compose(claim).unwrap_err(),
        DispatchError::Configuration(ResolutionError::TargetNotFound(_))
    ));
}

#[test]
fn physical_composition_fails_closed_on_missing_adapter_kind() {
    let mut env = env();
    env.adapters = AdapterRegistry::new();
    let claim = env.claim();
    assert_eq!(
        env.compose(claim).unwrap_err(),
        DispatchError::AdapterAvailability(AdapterUnavailable {
            adapter_kind: "process".to_string()
        })
    );
}

#[test]
fn physical_composition_never_falls_back_to_another_installed_adapter() {
    let mut env = env();
    env.adapters = installed("other-frontend");
    let claim = env.claim();
    assert_eq!(
        env.compose(claim).unwrap_err(),
        DispatchError::AdapterAvailability(AdapterUnavailable {
            adapter_kind: "process".to_string()
        })
    );
}

#[test]
fn adapter_registry_registration_fails_closed() {
    let mut adapters = AdapterRegistry::new();
    assert_eq!(
        adapters.register("   ".to_string(), ()).unwrap_err(),
        AdapterRegistryError::InvalidKind("adapter kind cannot be empty".to_string())
    );
    adapters.register("process".to_string(), ()).unwrap();
    assert_eq!(
        adapters.register("process".to_string(), ()).unwrap_err(),
        AdapterRegistryError::DuplicateKind("process".to_string())
    );
    assert!(adapters.register("\u{2003}\u{a0}\n".to_string(), ()).is_err());
    assert!(adapters.resolve("process").is_ok());
    assert_eq!(adapters.resolve("Process").unwrap_err().adapter_kind, "Process");
}

#[test]
fn dispatch_error_standard_failure_classes() {
    let invocation = |error: AdapterError| {
        DispatchError::AdapterInvocation(error).standard_failure_class()
    };
    assert_eq!(
        DispatchError::Configuration(ResolutionError::TargetNotFound("t".to_string()))
            .standard_failure_class(),
        Some(FailureClass::ResourceUnavailable)
    );
    assert_eq!(
        DispatchError::AdapterAvailability(AdapterUnavailable { adapter_kind: "k".to_string() })
            .standard_failure_class(),
        Some(FailureClass::ResourceUnavailable)
    );
    assert_eq!(
        invocation(AdapterError::Unavailable("u".to_string())),
        Some(FailureClass::ResourceUnavailable)
    );
    assert_eq!(
        invocation(AdapterError::DeadlineExceeded("d".to_string())),
        Some(FailureClass::Timeout)
    );
    assert_eq!(
        invocation(AdapterError::Protocol("p".to_string())),
        Some(FailureClass::AdapterProtocolFailure)
    );
    assert_eq!(
        invocation(AdapterError::Other("o".to_string())),
        Some(FailureClass::StartFailure)
    );
    assert_eq!(
        DispatchError::Authority(Error::NotFound("x".to_string())).standard_failure_class(),
        None
    );
    assert_eq!(
        DispatchError::Persistence(Error::NotFound("x".to_string())).standard_failure_class(),
        None
    );
}

#[test]
fn dispatch_errors_read_as_documented() {
    let cases = [
        (
            DispatchError::Authority(Error::StaleAuthority("s".to_string())),
            "dispatch authority rejected: s",
        ),
        (
            DispatchError::Configuration(ResolutionError::Incompatible("i".to_string())),
            "dispatch configuration unavailable: i",
        ),
        (
            DispatchError::AdapterInvocation(AdapterError::Protocol("p".to_string())),
            "dispatch adapter invocation failed: p",
        ),
        (
            DispatchError::Persistence(Error::StorageFailure("d".to_string())),
            "dispatch persistence failed: d",
        ),
    ];
    for (error, text) in cases {
        assert_eq!(error.message(), text);
    }
}

// Dispatch

#[test]
fn dispatch_one_returns_no_work_without_claimable_tasks() {
    assert_eq!(env().dispatch_one().unwrap(), DispatchOneOutcome::NoWork);
}

#[test]
fn dispatch_one_starts_running_exactly_once() {
    let mut env = env();
    let task_id = env.store.submit(task());
    let admission = match env.dispatch_one().unwrap() {
        DispatchOneOutcome::StartedRunning { admission } => admission,
        other => panic!("expected StartedRunning, got {other:?}"),
    };
    assert_eq!(env.fake.starts.len(), 1);
    assert_eq!(&env.fake.starts[0].0, admission.execution_id());
    assert_eq!(&env.fake.starts[0].1, admission.request_id());
    let row = env.store.execution(admission.execution_id());
    assert_eq!(row.task, task_id);
    assert_eq!(admission.attempt_id(), &AttemptId::new(&format!("attempt-{}", row.attempt)));
    assert_eq!(admission.lease_epoch(), env.store.attempts[row.attempt].epoch);
    assert_eq!(row.state, ExecutionState::Running);
    assert_eq!(env.store.tasks[task_id].state, TaskState::Running);
}

#[test]
fn dispatch_missing_target_fails_closed_without_physical_start() {
    let mut env = env();
    env.registry = Registry::default();
    let task_id = env.store.submit(config_retryable(false));
    assert_eq!(
        env.dispatch_one().unwrap(),
        DispatchOneOutcome::ConfigurationUnavailable {
            detail: "dispatch configuration unavailable: local".to_string()
        }
    );
    assert_eq!(env.fake.starts.len(), 0);
    assert_eq!(env.store.tasks[task_id].state, TaskState::RetryWait);
}

#[test]
fn dispatch_missing_profile_fails_closed_without_physical_start() {
    let mut env = env();
    env.registry.profiles = Vec::new();
    let task_id = env.store.submit(config_retryable(false));
    assert!(matches!(
        env.dispatch_one().unwrap(),
        DispatchOneOutcome::ConfigurationUnavailable { .. }
    ));
    assert_eq!(env.fake.starts.len(), 0);
    assert_eq!(env.store.tasks[task_id].state, TaskState::RetryWait);
}

#[test]
fn dispatch_incompatible_pair_fails_closed_without_physical_start() {
    let mut env = env();
    env.registry.profiles = vec![("default", Some("remote"))];
    let task_id = env.store.submit(config_retryable(false));
    assert!(matches!(
        env.dispatch_one().unwrap(),
        DispatchOneOutcome::ConfigurationUnavailable { .. }
    ));
    assert_eq!(env.fake.starts.len(), 0);
    assert_eq!(env.store.tasks[task_id].state, TaskState::RetryWait);
}

#[test]
fn dispatch_missing_adapter_creates_no_writer_ambiguity() {
    let mut env = env();
    env.adapters = AdapterRegistry::new();
    let task_id = env.store.submit(config_retryable(true));
    assert!(matches!(
        env.dispatch_one().unwrap(),
        DispatchOneOutcome::ConfigurationUnavailable { .. }
    ));
    assert_eq!(env.fake.starts.len(), 0);
    assert!(env.store.executions.is_empty());
    assert_eq!(env.store.tasks[task_id].state, TaskState::RetryWait);
    assert_eq!(env.store.tasks[task_id].escalation, None);
}

#[test]
fn dispatch_tampered_claim_target_is_authority_rejected() {
    let mut env = env();
    let mut claim = env.claim();
    claim.execution_target = "missing-target".to_string();
    assert_eq!(env.dispatch_claim(claim).unwrap(), DispatchOneOutcome::AuthorityRejected);
    assert_eq!(env.fake.starts.len(), 0);
}

#[test]
fn dispatch_tampered_claim_profile_is_authority_rejected() {
    let mut env = env();
    let mut claim = env.claim();
    claim.execution_profile = "missing-profile".to_string();
    assert_eq!(env.dispatch_claim(claim).unwrap(), DispatchOneOutcome::AuthorityRejected);
    assert_eq!(env.fake.starts.len(), 0);
}

#[test]
fn dispatch_stale_claim_is_authority_rejected() {
    let mut env = env();
    let claim = env.claim();
    env.store.now += 25;
    assert_eq!(env.dispatch_claim(claim).unwrap(), DispatchOneOutcome::AuthorityRejected);
    assert_eq!(env.fake.starts.len(), 0);
}

#[test]
fn dispatch_ambiguous_start_is_persisted_and_never_restarted() {
    let mut env = env();
    let task_id = env.store.submit(retryable(false));
    env.fake.next_start = Some(Ok(ambiguous_start()));
    let execution_id = ambiguous(env.dispatch_one());
    assert_eq!(env.fake.starts.len(), 1);
    assert_unresolved(&env, &execution_id, "{\"probe\":1}");
    assert_eq!(env.store.tasks[task_id].state, TaskState::RetryWait);
    assert_eq!(env.dispatch_one().unwrap(), DispatchOneOutcome::NoWork);
    assert_eq!(env.fake.starts.len(), 1);
}

#[test]
fn dispatch_terminal_start_failure_follows_nack_rules() {
    let mut env = env();
    let task_id = env.store.submit(retryable(false));
    env.fake.next_start = Some(Ok(start(ExecutionState::Failed, "null", true, true)));
    env.fake.next_outcome =
        Some(Ok(outcome(ExecutionState::Failed, Some(FailureClass::Timeout), true, true)));
    let execution_id = failed(env.dispatch_one(), FailureClass::Timeout);
    let row = env.store.execution(&execution_id);
    assert_eq!(row.state, ExecutionState::Failed);
    assert!(row.terminal_confirmed);
    assert_eq!(env.store.tasks[task_id].state, TaskState::RetryWait);
}

#[test]
fn dispatch_synchronous_success_completes_authoritatively() {
    let mut env = env();
    let task_id = env.store.submit(task());
    env.fake.next_start = Some(Ok(start(ExecutionState::Succeeded, "{\"sync\":true}", true, true)));
    env.fake.next_outcome = Some(Ok(ExecutionOutcome {
        payload: Some(JsonValue::new("{\"ok\":true}")),
        summary: Some("done".to_string()),
        ..outcome(ExecutionState::Succeeded, None, true, true)
    }));
    match env.dispatch_one().unwrap() {
        DispatchOneOutcome::CompletedSynchronously { result_id, .. } => {
            assert!(result_id.is_some());
        }
        other => panic!("expected CompletedSynchronously, got {other:?}"),
    }
    assert_eq!(env.store.tasks[task_id].state, TaskState::Completed);
    let ack = env.store.tasks[task_id].result.as_ref().unwrap();
    assert_eq!(ack.payload, JsonValue::new("{\"ok\":true}"));
    assert_eq!(ack.summary, Some("done".to_string()));
    assert!(ack.quiescent_confirmed);
}

#[test]
fn a_success_without_payload_is_acknowledged_with_null() {
    let mut env = env();
    let task_id = env.store.submit(task());
    env.fake.next_start = Some(Ok(start(ExecutionState::Succeeded, "{}", true, true)));
    env.fake.next_outcome = Some(Ok(outcome(ExecutionState::Succeeded, None, true, false)));
    env.dispatch_one().unwrap();
    let ack = env.store.tasks[task_id].result.as_ref().unwrap();
    assert_eq!(ack.payload, JsonValue::null());
    assert!(!ack.quiescent_confirmed);
}

#[test]
fn dispatch_stale_authority_after_running_never_restores_task() {
    let mut env = env();
    env.fake.advance_on_start = 25;
    let task_id = env.store.submit(task());
    let execution_id = ambiguous(env.dispatch_one());
    assert_unresolved(&env, &execution_id, "{}");
    assert_eq!(env.store.tasks[task_id].state, TaskState::Leased);
}

#[test]
fn dispatch_stale_authority_after_failure_records_physical_history_only() {
    let mut env = env();
    env.fake.advance_on_start = 25;
    env.fake.next_start = Some(Ok(start(ExecutionState::Failed, "{\"stale\":7}", true, false)));
    env.fake.next_outcome = Some(Ok(outcome(
        ExecutionState::Failed,
        Some(FailureClass::StartFailure),
        true,
        false,
    )));
    let task_id = env.store.submit(task());
    let execution_id = failed(env.dispatch_one(), FailureClass::StartFailure);
    let row = env.store.execution(&execution_id);
    assert_eq!(row.state, ExecutionState::Failed);
    assert_eq!(row.handle, Some(JsonValue::new("{\"stale\":7}")));
    assert_eq!(env.store.tasks[task_id].state, TaskState::Leased);
}

#[test]
fn a_success_after_lost_authority_is_history_only() {
    let mut env = env();
    env.fake.advance_on_start = 25;
    env.fake.next_start = Some(Ok(start(ExecutionState::Succeeded, "{\"late\":1}", true, true)));
    env.fake.next_outcome = Some(Ok(outcome(ExecutionState::Succeeded, None, true, true)));
    let task_id = env.store.submit(task());
    let execution_id = ambiguous(env.dispatch_one());
    let row = env.store.execution(&execution_id);
    assert_eq!(row.state, ExecutionState::Succeeded);
    assert!(row.terminal_confirmed && row.quiescent_confirmed);
    assert_eq!(env.store.tasks[task_id].state, TaskState::Leased);
    assert!(env.store.tasks[task_id].result.is_none());
}

#[test]
fn dispatch_ambiguous_write_start_never_gains_quiescence() {
    let mut env = env();
    let task_id = env.store.submit(retryable(true));
    env.fake.next_start = Some(Ok(ambiguous_start()));
    let execution_id = ambiguous(env.dispatch_one());
    assert_unresolved(&env, &execution_id, "{\"probe\":1}");
    assert_eq!(env.store.tasks[task_id].state, TaskState::Suspended);
    assert_eq!(
        env.store.tasks[task_id].escalation,
        Some(FailureClass::WriterQuiescenceUnknown)
    );
    assert_eq!(env.fake.starts.len(), 1);
}

#[test]
fn dispatch_collect_overrides_start_success_with_failure() {
    let mut env = env();
    let task_id = env.store.submit(retryable(false));
    env.fake.next_start = Some(Ok(start(ExecutionState::Succeeded, "{\"sync\":true}", true, true)));
    env.fake.next_outcome =
        Some(Ok(outcome(ExecutionState::Failed, Some(FailureClass::Timeout), true, true)));
    let execution_id = failed(env.dispatch_one(), FailureClass::Timeout);
    assert_eq!(env.store.execution(&execution_id).state, ExecutionState::Failed);
    assert!(env.store.tasks[task_id].result.is_none());
    assert_eq!(env.store.tasks[task_id].state, TaskState::RetryWait);
}

#[test]
fn dispatch_collect_nonterminal_never_acks_or_inherits_proof() {
    let mut env = env();
    let task_id = env.store.submit(retryable(false));
    env.fake.next_start = Some(Ok(start(ExecutionState::Succeeded, "{\"sync\":true}", true, true)));
    env.fake.next_outcome = Some(Ok(ExecutionOutcome {
        payload: Some(JsonValue::new("{\"forged\":1}")),
        ..outcome(ExecutionState::Running, None, false, false)
    }));
    let execution_id = ambiguous(env.dispatch_one());
    assert_unresolved(&env, &execution_id, "{\"sync\":true}");
    assert_eq!(env.store.tasks[task_id].state, TaskState::RetryWait);
}

#[test]
fn dispatch_contradictory_success_collection_is_never_acked() {
    let mut env = env();
    let task_id = env.store.submit(retryable(false));
    env.fake.next_start = Some(Ok(start(ExecutionState::Succeeded, "{\"sync\":true}", true, true)));
    env.fake.next_outcome = Some(Ok(ExecutionOutcome {
        payload: Some(JsonValue::new("{\"forged\":1}")),
        summary: Some("forged".to_string()),
        ..outcome(ExecutionState::Succeeded, None, false, true)
    }));
    let execution_id = failed(env.dispatch_one(), FailureClass::InvalidResult);
    assert_unresolved(&env, &execution_id, "{\"sync\":true}");
    assert_eq!(env.store.tasks[task_id].state, TaskState::Suspended);
}

#[test]
fn dispatch_quiescence_without_terminal_is_protocol_failure() {
    let mut env = env();
    let task_id = env.store.submit(retryable(false));
    env.fake.next_start = Some(Ok(start(ExecutionState::Succeeded, "{\"sync\":true}", true, true)));
    env.fake.next_outcome = Some(Ok(outcome(ExecutionState::Running, None, false, true)));
    failed(env.dispatch_one(), FailureClass::AdapterProtocolFailure);
    assert!(env.store.tasks[task_id].result.is_none());
    assert_eq!(env.fake.starts.len(), 1);
}

#[test]
fn dispatch_start_failure_claim_never_bypasses_collect() {
    let mut env = env();
    let task_id = env.store.submit(retryable(true));
    env.fake.next_start = Some(Ok(start(ExecutionState::Failed, "{\"maybe\":1}", true, true)));
    env.fake.next_outcome = Some(Ok(outcome(ExecutionState::Running, None, false, false)));
    let execution_id = ambiguous(env.dispatch_one());
    assert_unresolved(&env, &execution_id, "{\"maybe\":1}");
    assert_eq!(env.store.tasks[task_id].state, TaskState::Suspended);
    assert_eq!(
        env.store.tasks[task_id].escalation,
        Some(FailureClass::WriterQuiescenceUnknown)
    );
    assert_eq!(env.fake.starts.len(), 1);
}

#[test]
fn dispatch_collected_success_overrides_start_failure_claim() {
    let mut env = env();
    let task_id = env.store.submit(task());
    env.fake.next_start = Some(Ok(start(ExecutionState::Failed, "{\"actually\":1}", true, false)));
    env.fake.next_outcome = Some(Ok(ExecutionOutcome {
        payload: Some(JsonValue::new("{\"ok\":true}")),
        summary: Some("done".to_string()),
        ..outcome(ExecutionState::Succeeded, None, true, true)
    }));
    assert!(matches!(
        env.dispatch_one().unwrap(),
        DispatchOneOutcome::CompletedSynchronously { result_id: Some(_), .. }
    ));
    assert_eq!(env.store.tasks[task_id].state, TaskState::Completed);
    assert!(env.store.tasks[task_id].result.is_some());
}

#[test]
fn dispatch_unusual_nonterminal_observation_keeps_observed_handle() {
    let mut env = env();
    let task_id = env.store.submit(retryable(false));
    env.fake.next_start = Some(Ok(start(ExecutionState::Lost, "{\"odd\":9}", false, false)));
    let execution_id = ambiguous(env.dispatch_one());
    assert_unresolved(&env, &execution_id, "{\"odd\":9}");
    assert_eq!(env.store.tasks[task_id].state, TaskState::RetryWait);
    assert_eq!(env.fake.starts.len(), 1);
}

fn contradictory_active_outcome(state: ExecutionState) -> ExecutionOutcome {
    ExecutionOutcome {
        payload: Some(JsonValue::new("{\"forged\":1}")),
        summary: Some("forged".to_string()),
        ..outcome(state, Some(FailureClass::Timeout), true, true)
    }
}

#[test]
fn dispatch_running_state_with_terminal_proof_is_protocol_failure() {
    let mut env = env();
    let task_id = env.store.submit(retryable(true));
    env.fake.next_start = Some(Ok(start(ExecutionState::Failed, "{\"live\":1}", true, true)));
    env.fake.next_outcome = Some(Ok(contradictory_active_outcome(ExecutionState::Running)));
    let execution_id = failed(env.dispatch_one(), FailureClass::AdapterProtocolFailure);
    assert_unresolved(&env, &execution_id, "{\"live\":1}");
    assert_eq!(env.store.tasks[task_id].state, TaskState::Suspended);
    assert_eq!(
        env.store.tasks[task_id].escalation,
        Some(FailureClass::WriterQuiescenceUnknown)
    );
    assert_eq!(env.fake.starts.len(), 1);
}

#[test]
fn dispatch_starting_state_with_terminal_proof_is_protocol_failure() {
    let mut env = env();
    env.store.submit(task());
    env.fake.next_start = Some(Ok(start(ExecutionState::Failed, "{\"live\":2}", true, true)));
    env.fake.next_outcome = Some(Ok(contradictory_active_outcome(ExecutionState::Starting)));
    let execution_id = failed(env.dispatch_one(), FailureClass::AdapterProtocolFailure);
    assert_unresolved(&env, &execution_id, "{\"live\":2}");
}

#[test]
fn dispatch_unknown_state_with_terminal_proof_is_protocol_failure() {
    let mut env = env();
    env.store.submit(task());
    env.fake.next_start = Some(Ok(start(ExecutionState::Failed, "{\"live\":3}", true, true)));
    env.fake.next_outcome = Some(Ok(contradictory_active_outcome(ExecutionState::Unknown)));
    let execution_id = failed(env.dispatch_one(), FailureClass::AdapterProtocolFailure);
    assert_unresolved(&env, &execution_id, "{\"live\":3}");
}

#[test]
fn dispatch_terminal_failure_without_quiescence_retains_handle() {
    let mut env = env();
    let task_id = env.store.submit(retryable(true));
    env.fake.next_start = Some(Ok(start(ExecutionState::Failed, "{\"cleanup\":5}", true, false)));
    env.fake.next_outcome =
        Some(Ok(outcome(ExecutionState::Failed, Some(FailureClass::Timeout), true, false)));
    let execution_id = failed(env.dispatch_one(), FailureClass::Timeout);
    let row = env.store.execution(&execution_id);
    assert_eq!(row.state, ExecutionState::Failed);
    assert!(row.terminal_confirmed);
    assert!(!row.quiescent_confirmed);
    assert_eq!(row.handle, Some(JsonValue::new("{\"cleanup\":5}")));
    assert_eq!(env.store.tasks[task_id].state, TaskState::Suspended);
}

#[test]
fn an_adapter_error_is_not_the_absence_of_an_execution() {
    for (error, class) in [
        (AdapterError::Unavailable("u".to_string()), FailureClass::ResourceUnavailable),
        (AdapterError::DeadlineExceeded("d".to_string()), FailureClass::Timeout),
        (AdapterError::Protocol("p".to_string()), FailureClass::AdapterProtocolFailure),
        (AdapterError::Other("o".to_string()), FailureClass::StartFailure),
    ] {
        let mut env = env();
        env.store.submit(task());
        env.fake.next_start = Some(Err(error));
        let execution_id = failed(env.dispatch_one(), class);
        let row = env.store.execution(&execution_id);
        assert_eq!(row.state, ExecutionState::Unknown);
        assert_eq!(row.handle, None);
        assert!(!row.terminal_confirmed);
    }
}

#[test]
fn a_failed_collection_inherits_nothing_from_the_start() {
    let mut env = env();
    env.store.submit(retryable(true));
    env.fake.next_start = Some(Ok(start(ExecutionState::Succeeded, "{\"h\":4}", true, true)));
    env.fake.next_outcome = Some(Err(AdapterError::DeadlineExceeded("late".to_string())));
    let execution_id = failed(env.dispatch_one(), FailureClass::Timeout);
    assert_unresolved(&env, &execution_id, "{\"h\":4}");
}

#[test]
fn slow_bridge_does_not_block_dispatch_one() {
    let service = NotifierService::new(
        NotifierRetryPolicy::new(
            Seconds { bits: 1.0f64.to_bits() },
            Seconds { bits: 8.0f64.to_bits() },
        )
        .unwrap(),
    );
    let mut step = service.deliver_one(OutboxDeliveryCandidate {
        event_id: OutboxEventId { text: "event".to_string() },
        event_type: "BATCH_RESULTS_READY".to_string(),
        aggregate_type: "batch".to_string(),
        aggregate_id: "batch".to_string(),
        payload: JsonValue::new("{}"),
        delivery_attempts: 0,
    });
    if let DeliveryStep::AssembleWakeup(call) = step {
        step = call.resume(Ok(()));
    }
    let delivery = match step {
        DeliveryStep::Deliver(call) => call,
        other => panic!("expected a delivery in flight, got {other:?}"),
    };

    let mut env = env();
    env.store.submit(task());
    assert!(matches!(
        env.dispatch_one().unwrap(),
        DispatchOneOutcome::StartedRunning { .. }
    ));

    match delivery.resume(Ok(()), &service.retry) {
        DeliveryStep::CommitSuccess(call) => {
            assert!(matches!(
                call.resume(Ok(OutboxState::Delivered)),
                DeliveryStep::Finished(Ok(_))
            ));
        }
        other => panic!("expected a commit, got {other:?}"),
    }
}

#[test]
fn a_running_start_that_claims_an_end_is_never_confirmed() {
    for (terminal, quiescent) in [(true, false), (false, true), (true, true)] {
        let mut env = env();
        let task_id = env.store.submit(retryable(true));
        let handle = "{\"both\":1}";
        env.fake.next_start = Some(Ok(start(ExecutionState::Running, handle, terminal, quiescent)));
        let execution_id = ambiguous(env.dispatch_one());
        assert_unresolved(&env, &execution_id, handle);
        assert_eq!(env.store.tasks[task_id].state, TaskState::Suspended);
        assert_eq!(
            env.store.tasks[task_id].escalation,
            Some(FailureClass::WriterQuiescenceUnknown)
        );
    }
    let mut env = env();
    let task_id = env.store.submit(task());
    env.fake.next_start = Some(Ok(start(ExecutionState::Running, "{}", true, false)));
    ambiguous(env.dispatch_one());
    assert_eq!(
        env.store.tasks[task_id].escalation,
        Some(FailureClass::AdapterProtocolFailure)
    );
}

#[test]
fn a_terminated_start_is_collected_even_without_proof() {
    let mut env = env();
    let task_id = env.store.submit(task());
    env.fake.next_start = Some(Ok(start(ExecutionState::Terminated, "{\"gone\":1}", false, false)));
    env.fake.next_outcome = Some(Ok(outcome(ExecutionState::Succeeded, None, true, true)));
    assert!(matches!(
        env.dispatch_one().unwrap(),
        DispatchOneOutcome::CompletedSynchronously { result_id: Some(_), .. }
    ));
    assert_eq!(env.store.tasks[task_id].state, TaskState::Completed);
}

#[test]
fn a_lost_outcome_with_proof_is_a_protocol_failure() {
    for (terminal, quiescent) in [(true, false), (false, true), (true, true)] {
        let mut env = env();
        let task_id = env.store.submit(retryable(true));
        env.fake.next_start = Some(Ok(start(ExecutionState::Failed, "{\"lost\":1}", true, true)));
        env.fake.next_outcome = Some(Ok(outcome(ExecutionState::Lost, None, terminal, quiescent)));
        let execution_id = failed(env.dispatch_one(), FailureClass::AdapterProtocolFailure);
        assert_unresolved(&env, &execution_id, "{\"lost\":1}");
        assert_eq!(env.store.tasks[task_id].state, TaskState::Suspended);
    }
}

#[test]
fn the_collected_outcome_alone_decides() {
    let claims = [
        start(ExecutionState::Succeeded, "{\"h\":1}", true, true),
        start(ExecutionState::Failed, "{\"h\":1}", true, false),
        start(ExecutionState::Terminated, "{\"h\":1}", true, true),
    ];
    for claim in claims {
        let mut env = env();
        let task_id = env.store.submit(retryable(false));
        env.fake.next_start = Some(Ok(claim));
        env.fake.next_outcome = Some(Ok(outcome(
            ExecutionState::Failed,
            Some(FailureClass::Timeout),
            true,
            true,
        )));
        failed(env.dispatch_one(), FailureClass::Timeout);
        assert_eq!(env.store.tasks[task_id].state, TaskState::RetryWait);
    }
}

#[test]
fn dispatch_claim_semantic_copies_cannot_alter_request() {
    let mut env = env();
    env.store.submit(Task {
        payload: "{\"objective\":\"durable\"}",
        acceptance: "{\"criteria\":\"durable\"}",
        ..task()
    });
    let mut claim = env.store.claim_next_available().unwrap();
    claim.task.payload = JsonValue::new("{\"objective\":\"FORGED\"}");
    claim.task.acceptance = JsonValue::new("{\"criteria\":\"FORGED\"}");
    claim.task.workstream_id = Some("forged".to_string());
    claim.batch_id = "forged".to_string();
    assert!(matches!(
        env.dispatch_claim(claim).unwrap(),
        DispatchOneOutcome::StartedRunning { .. }
    ));
    let (task, _) = env.fake.last_request.unwrap();
    assert_eq!(task.payload, JsonValue::new("{\"objective\":\"durable\"}"));
    assert_eq!(task.acceptance, JsonValue::new("{\"criteria\":\"durable\"}"));
    assert_eq!(task.workstream_id, None);
}

#[test]
fn dispatch_read_only_task_stays_read_only_even_if_claim_says_write() {
    let mut env = env();
    let mut claim = env.claim();
    claim.task.workspace_mode = WorkspaceMode::Write;
    assert!(matches!(
        env.dispatch_claim(claim).unwrap(),
        DispatchOneOutcome::StartedRunning { .. }
    ));
    assert_eq!(env.fake.last_request.unwrap().0.workspace_mode, WorkspaceMode::ReadOnly);
}

#[test]
fn dispatch_write_task_requests_write_from_durable_authority() {
    let mut env = env();
    env.store.submit(Task { write: true, ..task() });
    assert!(matches!(
        env.dispatch_one().unwrap(),
        DispatchOneOutcome::StartedRunning { .. }
    ));
    assert_eq!(env.fake.last_request.unwrap().0.workspace_mode, WorkspaceMode::Write);
}

#[test]
fn dispatch_request_carries_resolved_runtime_configuration() {
    let mut env = env();
    env.store.submit(task());
    assert!(matches!(
        env.dispatch_one().unwrap(),
        DispatchOneOutcome::StartedRunning { .. }
    ));
    let (_, environment) = env.fake.last_request.unwrap();
    assert_eq!(
        environment.target_options,
        JsonValue::new("{\"endpoint\":\"local://dispatch\"}")
    );
    assert_eq!(environment.profile_options, JsonValue::new("{\"model_tier\":\"standard\"}"));
    assert_eq!(
        environment.profile_timeout_seconds,
        Some(Seconds { bits: 30.0f64.to_bits() })
    );
}

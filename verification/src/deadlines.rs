//! How long each adapter operation may take, and the façade through which adapters are called.
use crate::adapters::{AdapterRegistry, AdapterRegistryError, AdapterUnavailable};
use crate::text::{blank, same_text};
use crate::time::Duration;
use vstd::prelude::*;

verus! {

/// The operations of an adapter.
#[derive(Debug, Clone, Copy, PartialEq, Eq, Structural)]
pub enum AdapterOperation {
    StartExecution,
    ReconcileStart,
    ObserveExecution,
    CollectOutcome,
    InterruptExecution,
    TerminateExecution,
}

/// Why a policy was refused: a deadline cannot lie no time ahead.
#[derive(Debug, Clone, Copy, PartialEq, Eq, Structural)]
pub enum DeadlineConfigError {
    ZeroDuration,
}

/// A positive latency bound for each operation.
#[derive(Debug, Clone, Copy, PartialEq, Eq)]
pub struct AdapterDeadlinePolicy {
    start_execution: Duration,
    reconcile_start: Duration,
    observe_execution: Duration,
    collect_outcome: Duration,
    interrupt_execution: Duration,
    terminate_execution: Duration,
}

impl AdapterDeadlinePolicy {
    #[verifier::type_invariant]
    closed spec fn all_positive(self) -> bool {
        forall|operation: AdapterOperation| (#[trigger] self.budget_of(operation)).nanos > 0
    }

    /// The bound of an operation.
    pub closed spec fn budget_of(self, operation: AdapterOperation) -> Duration {
        match operation {
            AdapterOperation::StartExecution => self.start_execution,
            AdapterOperation::ReconcileStart => self.reconcile_start,
            AdapterOperation::ObserveExecution => self.observe_execution,
            AdapterOperation::CollectOutcome => self.collect_outcome,
            AdapterOperation::InterruptExecution => self.interrupt_execution,
            AdapterOperation::TerminateExecution => self.terminate_execution,
        }
    }

    /// Accepts exactly the policies in which every bound is positive.
    pub fn new(
        start_execution: Duration,
        reconcile_start: Duration,
        observe_execution: Duration,
        collect_outcome: Duration,
        interrupt_execution: Duration,
        terminate_execution: Duration,
    ) -> (result: Result<Self, DeadlineConfigError>)
        ensures
            result is Ok <==> start_execution.nanos > 0 && reconcile_start.nanos > 0
                && observe_execution.nanos > 0 && collect_outcome.nanos > 0
                && interrupt_execution.nanos > 0 && terminate_execution.nanos > 0,
            result matches Ok(policy) ==> {
                &&& policy.budget_of(AdapterOperation::StartExecution) == start_execution
                &&& policy.budget_of(AdapterOperation::ReconcileStart) == reconcile_start
                &&& policy.budget_of(AdapterOperation::ObserveExecution) == observe_execution
                &&& policy.budget_of(AdapterOperation::CollectOutcome) == collect_outcome
                &&& policy.budget_of(AdapterOperation::InterruptExecution) == interrupt_execution
                &&& policy.budget_of(AdapterOperation::TerminateExecution) == terminate_execution
            },
    {
        if start_execution.is_zero() || reconcile_start.is_zero() || observe_execution.is_zero()
            || collect_outcome.is_zero() || interrupt_execution.is_zero()
            || terminate_execution.is_zero() {
            return Err(DeadlineConfigError::ZeroDuration);
        }
        Ok(
            AdapterDeadlinePolicy {
                start_execution,
                reconcile_start,
                observe_execution,
                collect_outcome,
                interrupt_execution,
                terminate_execution,
            },
        )
    }

    /// The same bound for every operation.
    pub fn uniform(timeout: Duration) -> (result: Result<Self, DeadlineConfigError>)
        ensures
            result is Ok <==> timeout.nanos > 0,
            result matches Ok(policy) ==> forall|operation: AdapterOperation| #[trigger]
                policy.budget_of(operation) == timeout,
    {
        Self::new(timeout, timeout, timeout, timeout, timeout, timeout)
    }

    pub fn budget(&self, op: AdapterOperation) -> (budget: Duration)
        ensures
            budget == self.budget_of(op),
            budget.nanos > 0,
    {
        proof {
            use_type_invariant(self);
            assert(self.budget_of(op).nanos > 0);
        }
        match op {
            AdapterOperation::StartExecution => self.start_execution,
            AdapterOperation::ReconcileStart => self.reconcile_start,
            AdapterOperation::ObserveExecution => self.observe_execution,
            AdapterOperation::CollectOutcome => self.collect_outcome,
            AdapterOperation::InterruptExecution => self.interrupt_execution,
            AdapterOperation::TerminateExecution => self.terminate_execution,
        }
    }
}

/// Thirty seconds for every operation.
pub fn test_deadlines() -> (policy: AdapterDeadlinePolicy)
    ensures
        forall|operation: AdapterOperation| #[trigger]
            policy.budget_of(operation) == (Duration { nanos: 30_000_000_000 }),
{
    AdapterDeadlinePolicy::uniform(Duration::from_secs(30)).unwrap()
}

/// Names the installation that an adapter belongs to.
#[derive(Debug, PartialEq, Eq)]
pub struct AdapterBindingKey {
    pub text: String,
}

impl View for AdapterBindingKey {
    type V = Seq<char>;

    open spec fn view(&self) -> Seq<char> {
        self.text@
    }
}

impl AdapterBindingKey {
    pub fn new(text: &str) -> (key: Self)
        ensures
            key@ == text@,
    {
        AdapterBindingKey { text: text.to_string() }
    }
}

/// One permitted adapter call: the adapter, the operation, and the time it has.
pub struct AdapterCall<'a, A> {
    pub adapter: &'a A,
    pub operation: AdapterOperation,
    pub budget: Duration,
}

/// An installed adapter with its policy.  The adapter is reached only through a call that has a
/// positive budget.
pub struct ResolvedAdapterBinding<A> {
    adapter_kind: String,
    adapter_binding_key: AdapterBindingKey,
    adapter: A,
    deadlines: AdapterDeadlinePolicy,
}

impl<A> ResolvedAdapterBinding<A> {
    pub closed spec fn kind(self) -> Seq<char> {
        self.adapter_kind@
    }

    pub closed spec fn key(self) -> Seq<char> {
        self.adapter_binding_key@
    }

    pub closed spec fn installed(self) -> A {
        self.adapter
    }

    pub closed spec fn deadlines(self) -> AdapterDeadlinePolicy {
        self.deadlines
    }

    pub fn new(
        adapter_kind: String,
        adapter_binding_key: AdapterBindingKey,
        adapter: A,
        deadlines: AdapterDeadlinePolicy,
    ) -> (binding: Self)
        ensures
            binding.kind() == adapter_kind@,
            binding.key() == adapter_binding_key@,
            binding.installed() == adapter,
            binding.deadlines() == deadlines,
    {
        ResolvedAdapterBinding { adapter_kind, adapter_binding_key, adapter, deadlines }
    }

    pub fn adapter_kind(&self) -> (kind: &str)
        ensures
            kind@ == self.kind(),
    {
        self.adapter_kind.as_str()
    }

    pub fn adapter_binding_key(&self) -> (key: &AdapterBindingKey)
        ensures
            key@ == self.key(),
    {
        &self.adapter_binding_key
    }

    pub fn policy(&self) -> (policy: AdapterDeadlinePolicy)
        ensures
            policy == self.deadlines(),
    {
        self.deadlines
    }

    /// The call of an operation, with the budget of exactly that operation.
    pub fn call(&self, operation: AdapterOperation) -> (call: AdapterCall<'_, A>)
        ensures
            *call.adapter == self.installed(),
            call.operation == operation,
            call.budget == self.deadlines().budget_of(operation),
            call.budget.nanos > 0,
    {
        AdapterCall { adapter: &self.adapter, operation, budget: self.deadlines.budget(operation) }
    }
}

impl<A> AdapterRegistry<ResolvedAdapterBinding<A>> {
    /// Installs an adapter with its policy, under the given installation.
    pub fn register_kind(
        &mut self,
        adapter_kind: String,
        adapter_binding_key: AdapterBindingKey,
        adapter: A,
        deadlines: AdapterDeadlinePolicy,
    ) -> (result: Result<(), AdapterRegistryError>)
        ensures
            blank(adapter_kind@) ==> (result matches Err(AdapterRegistryError::InvalidKind(m)) && m@
                == "adapter kind cannot be empty"@),
            !blank(adapter_kind@) && old(self).installs(adapter_kind@) ==> (result matches Err(
                AdapterRegistryError::DuplicateKind(k),
            ) && k@ == adapter_kind@),
            result is Ok <==> !blank(adapter_kind@) && !old(self).installs(adapter_kind@),
            result is Err ==> *final(self) == *old(self),
            result is Ok ==> {
                &&& final(self).lookup(adapter_kind@) matches Some(binding) && binding.kind()
                    == adapter_kind@ && binding.key() == adapter_binding_key@ && binding.installed()
                    == adapter && binding.deadlines() == deadlines
                &&& forall|kind: Seq<char>|
                    kind != adapter_kind@ ==> #[trigger] final(self).lookup(kind) == old(
                        self,
                    ).lookup(kind)
            },
    {
        let name = adapter_kind.clone();
        let binding = ResolvedAdapterBinding::new(
            name,
            adapter_binding_key,
            adapter,
            deadlines,
        );
        self.register(adapter_kind, binding)
    }

    /// The binding of a kind.
    pub fn resolve_unique(&self, adapter_kind: &str) -> (result: Result<
        &ResolvedAdapterBinding<A>,
        AdapterUnavailable,
    >)
        ensures
            match result {
                Ok(binding) => self.lookup(adapter_kind@) == Some(*binding),
                Err(refusal) => self.lookup(adapter_kind@) is None && refusal.adapter_kind@
                    == adapter_kind@,
            },
    {
        self.resolve(adapter_kind)
    }

    /// Whether an adapter of this kind is installed under exactly this key.
    pub open spec fn installs_exactly(self, kind: Seq<char>, key: Seq<char>) -> bool {
        self.lookup(kind) matches Some(binding) && binding.key() == key
    }

    /// The binding of a kind, if it is installed under exactly this key.
    pub fn resolve_exact(&self, adapter_kind: &str, key: &AdapterBindingKey) -> (result: Result<
        &ResolvedAdapterBinding<A>,
        AdapterUnavailable,
    >)
        ensures
            match result {
                Ok(binding) => self.installs_exactly(adapter_kind@, key@) && self.lookup(
                    adapter_kind@,
                ) == Some(*binding),
                Err(refusal) => !self.installs_exactly(adapter_kind@, key@) && refusal.adapter_kind@
                    == adapter_kind@,
            },
    {
        match self.resolve(adapter_kind) {
            Ok(binding) => {
                if same_text(binding.adapter_binding_key.text.as_str(), key.text.as_str()) {
                    Ok(binding)
                } else {
                    Err(AdapterUnavailable { adapter_kind: adapter_kind.to_string() })
                }
            },
            Err(refusal) => Err(refusal),
        }
    }
}

// ---------------------------------------------------------------------------------------------
// Laws
// ---------------------------------------------------------------------------------------------

/// An adapter counts as installed under a key exactly if the one of its kind was installed under
/// that key: no other key will do.
pub proof fn law_installation_is_exact<A>(
    registry: AdapterRegistry<ResolvedAdapterBinding<A>>,
    kind: Seq<char>,
    key: Seq<char>,
    other: Seq<char>,
)
    ensures
        registry.lookup(kind) is None ==> !registry.installs_exactly(kind, key),
        registry.lookup(kind) is Some ==> (registry.installs_exactly(kind, key) <==> registry.lookup(
            kind,
        )->0.key() == key),
        registry.installs_exactly(kind, key) && registry.installs_exactly(kind, other) ==> key
            == other,
{
}

} // verus!

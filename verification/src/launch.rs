//! Launch preparation: a claim becomes a durable execution with its resolved environment.
use crate::domain::{
    AuthoritativeExecutionBinding, Claim, Error, ExecutionLaunchSnapshot, FailureClass,
    ResolutionError, ResolvedExecutionEnvironment,
};
use crate::text::join2;
use vstd::prelude::*;

verus! {

/// Why a launch could not be prepared.
#[derive(Debug, PartialEq, Eq)]
pub enum ExecutionPreparationError {
    /// The configuration lacks the target or the profile, or they do not go together.
    Configuration(ResolutionError),
    /// The store rejected the claim or the creation.
    Kernel(Error),
}

impl ExecutionPreparationError {
    /// A missing configuration is `ResourceUnavailable`; a rejection by the store is no task
    /// failure.
    pub open spec fn failure_class(self) -> Option<FailureClass> {
        if self is Configuration {
            Some(FailureClass::ResourceUnavailable)
        } else {
            None
        }
    }

    pub fn standard_failure_class(&self) -> (class: Option<FailureClass>)
        ensures
            class == self.failure_class(),
    {
        match self {
            ExecutionPreparationError::Configuration(_) => Some(FailureClass::ResourceUnavailable),
            ExecutionPreparationError::Kernel(_) => None,
        }
    }

    pub open spec fn detail(self) -> Seq<char> {
        match self {
            ExecutionPreparationError::Configuration(e) => "execution configuration unavailable: "@
                + e.detail(),
            ExecutionPreparationError::Kernel(e) => "execution launch rejected: "@ + e.detail(),
        }
    }

    pub fn message(&self) -> (text: String)
        ensures
            text@ == self.detail(),
    {
        match self {
            ExecutionPreparationError::Configuration(e) => join2(
                "execution configuration unavailable: ",
                e.message(),
            ),
            ExecutionPreparationError::Kernel(e) => join2(
                "execution launch rejected: ",
                e.message(),
            ),
        }
    }
}

/// A launch that exists durably, with the environment that its safety fact was frozen from.
#[derive(Debug, PartialEq, Eq)]
pub struct PreparedExecutionLaunch {
    pub snapshot: ExecutionLaunchSnapshot,
    pub resolved_environment: ResolvedExecutionEnvironment,
}

impl PreparedExecutionLaunch {
    pub fn snapshot(&self) -> (snapshot: &ExecutionLaunchSnapshot)
        ensures
            *snapshot == self.snapshot,
    {
        &self.snapshot
    }

    pub fn resolved_environment(&self) -> (environment: &ResolvedExecutionEnvironment)
        ensures
            *environment == self.resolved_environment,
    {
        &self.resolved_environment
    }
}

/// Asks the store to validate the claim and derive its durable binding.
#[derive(Debug, PartialEq, Eq)]
pub struct LaunchBinding {
    pub claim: Claim,
}

/// Asks the configuration for the environment of the durable binding.
#[derive(Debug, PartialEq, Eq)]
pub struct LaunchEnvironment {
    pub claim: Claim,
    pub binding: AuthoritativeExecutionBinding,
}

/// Asks the store to revalidate the claim and create the execution with the safety fact of the
/// environment.
#[derive(Debug, PartialEq, Eq)]
pub struct LaunchCreation {
    pub claim: Claim,
    pub environment: ResolvedExecutionEnvironment,
}

/// Asks for the worker request.
#[derive(Debug, PartialEq, Eq)]
pub struct LaunchRequest {
    pub snapshot: ExecutionLaunchSnapshot,
    pub environment: ResolvedExecutionEnvironment,
}

/// Where a preparation stands.
#[derive(Debug, PartialEq, Eq)]
pub enum LaunchStep {
    ResolveBinding(LaunchBinding),
    ResolveEnvironment(LaunchEnvironment),
    CreateExecution(LaunchCreation),
    AssembleRequest(LaunchRequest),
    Finished(Result<PreparedExecutionLaunch, ExecutionPreparationError>),
}

/// Starts the preparation of a launch: authority first, then configuration keyed by the durable
/// binding, then the fenced creation.
pub fn prepare_execution_launch(claim: Claim) -> (step: LaunchStep)
    ensures
        step == LaunchStep::ResolveBinding(LaunchBinding { claim }),
{
    LaunchStep::ResolveBinding(LaunchBinding { claim })
}

impl LaunchBinding {
    pub open spec fn next(self, reply: Result<AuthoritativeExecutionBinding, Error>) -> LaunchStep {
        match reply {
            Ok(binding) => LaunchStep::ResolveEnvironment(
                LaunchEnvironment { claim: self.claim, binding },
            ),
            Err(error) => LaunchStep::Finished(Err(ExecutionPreparationError::Kernel(error))),
        }
    }

    pub fn resume(self, reply: Result<AuthoritativeExecutionBinding, Error>) -> (step: LaunchStep)
        ensures
            step == self.next(reply),
    {
        match reply {
            Ok(binding) => LaunchStep::ResolveEnvironment(
                LaunchEnvironment { claim: self.claim, binding },
            ),
            Err(error) => LaunchStep::Finished(Err(ExecutionPreparationError::Kernel(error))),
        }
    }
}

impl LaunchEnvironment {
    pub open spec fn next(
        self,
        reply: Result<ResolvedExecutionEnvironment, ResolutionError>,
    ) -> LaunchStep {
        match reply {
            Ok(environment) => LaunchStep::CreateExecution(
                LaunchCreation { claim: self.claim, environment },
            ),
            Err(error) => LaunchStep::Finished(
                Err(ExecutionPreparationError::Configuration(error)),
            ),
        }
    }

    pub fn resume(self, reply: Result<ResolvedExecutionEnvironment, ResolutionError>) -> (step:
        LaunchStep)
        ensures
            step == self.next(reply),
    {
        match reply {
            Ok(environment) => LaunchStep::CreateExecution(
                LaunchCreation { claim: self.claim, environment },
            ),
            Err(error) => LaunchStep::Finished(
                Err(ExecutionPreparationError::Configuration(error)),
            ),
        }
    }
}

impl LaunchCreation {
    pub open spec fn next(self, reply: Result<ExecutionLaunchSnapshot, Error>) -> LaunchStep {
        match reply {
            Ok(snapshot) => LaunchStep::AssembleRequest(
                LaunchRequest { snapshot, environment: self.environment },
            ),
            Err(error) => LaunchStep::Finished(Err(ExecutionPreparationError::Kernel(error))),
        }
    }

    pub fn resume(self, reply: Result<ExecutionLaunchSnapshot, Error>) -> (step: LaunchStep)
        ensures
            step == self.next(reply),
    {
        match reply {
            Ok(snapshot) => LaunchStep::AssembleRequest(
                LaunchRequest { snapshot, environment: self.environment },
            ),
            Err(error) => LaunchStep::Finished(Err(ExecutionPreparationError::Kernel(error))),
        }
    }
}

impl LaunchRequest {
    /// A request that cannot be assembled is an authority fault, with the assembler's detail.
    pub open spec fn next(self, reply: Result<(), String>) -> LaunchStep {
        match reply {
            Ok(_) => LaunchStep::Finished(
                Ok(
                    PreparedExecutionLaunch {
                        snapshot: self.snapshot,
                        resolved_environment: self.environment,
                    },
                ),
            ),
            Err(detail) => LaunchStep::Finished(
                Err(ExecutionPreparationError::Kernel(Error::InvalidAuthority(detail))),
            ),
        }
    }

    pub fn resume(self, reply: Result<(), String>) -> (step: LaunchStep)
        ensures
            step == self.next(reply),
    {
        match reply {
            Ok(_) => LaunchStep::Finished(
                Ok(
                    PreparedExecutionLaunch {
                        snapshot: self.snapshot,
                        resolved_environment: self.environment,
                    },
                ),
            ),
            Err(detail) => LaunchStep::Finished(
                Err(ExecutionPreparationError::Kernel(Error::InvalidAuthority(detail))),
            ),
        }
    }
}

/// A claim that the store rejects is an authority rejection, never a configuration failure, and
/// configuration is not consulted.
pub proof fn law_tampered_claim_is_no_configuration_failure(query: LaunchBinding, error: Error)
    ensures
        query.next(Err(error)) matches LaunchStep::Finished(Err(cause)) && cause
            == ExecutionPreparationError::Kernel(error) && cause.failure_class() is None,
{
}

/// The environment of a prepared launch is the one that its execution was created from, and it was
/// looked up by the binding that the store derived.
pub proof fn law_prepared_environment_is_the_frozen_one(
    query: LaunchBinding,
    binding: AuthoritativeExecutionBinding,
    environment: ResolvedExecutionEnvironment,
    snapshot: ExecutionLaunchSnapshot,
)
    ensures
        query.next(Ok(binding)) matches LaunchStep::ResolveEnvironment(a) && (a.binding == binding
            && (a.next(Ok(environment)) matches LaunchStep::CreateExecution(b) && (b.claim
            == query.claim && b.environment == environment && (b.next(Ok(snapshot)) matches
            LaunchStep::AssembleRequest(c) && c.next(Ok(())) == LaunchStep::Finished(
            Ok(PreparedExecutionLaunch { snapshot, resolved_environment: environment }),
        ))))),
{
}

/// What keeps a launch from being prepared: a refusal of the store as it is, a missing
/// configuration as it is, and a request that cannot be assembled as invalid authority with the
/// assembler's words.
pub proof fn law_unprepared_launch_tells_why(
    binding: LaunchBinding,
    environment: LaunchEnvironment,
    creation: LaunchCreation,
    request: LaunchRequest,
    error: Error,
    missing: ResolutionError,
    detail: String,
)
    ensures
        binding.next(Err(error)) == LaunchStep::Finished(
            Err(ExecutionPreparationError::Kernel(error)),
        ),
        environment.next(Err(missing)) == LaunchStep::Finished(
            Err(ExecutionPreparationError::Configuration(missing)),
        ),
        creation.next(Err(error)) == LaunchStep::Finished(
            Err(ExecutionPreparationError::Kernel(error)),
        ),
        request.next(Err(detail)) == LaunchStep::Finished(
            Err(ExecutionPreparationError::Kernel(Error::InvalidAuthority(detail))),
        ),
{
}

/// A launch is prepared step by step for one claim.
pub proof fn law_launch_keeps_its_claim(
    binding: LaunchBinding,
    environment: LaunchEnvironment,
    creation: LaunchCreation,
    request: LaunchRequest,
    durable: AuthoritativeExecutionBinding,
    resolved: ResolvedExecutionEnvironment,
    snapshot: ExecutionLaunchSnapshot,
)
    ensures
        binding.next(Ok(durable)) == LaunchStep::ResolveEnvironment(
            LaunchEnvironment { claim: binding.claim, binding: durable },
        ),
        environment.next(Ok(resolved)) == LaunchStep::CreateExecution(
            LaunchCreation { claim: environment.claim, environment: resolved },
        ),
        creation.next(Ok(snapshot)) == LaunchStep::AssembleRequest(
            LaunchRequest { snapshot, environment: creation.environment },
        ),
        request.next(Ok(())) == LaunchStep::Finished(
            Ok(
                PreparedExecutionLaunch {
                    snapshot: request.snapshot,
                    resolved_environment: request.environment,
                },
            ),
        ),
{
}

/// A missing configuration is an unavailable resource, and a refusal of the store no failure of the
/// task; each text says which, and then the cause.
pub proof fn law_preparation_errors_are_classed(missing: ResolutionError, error: Error)
    ensures
        ExecutionPreparationError::Configuration(missing).failure_class() == Some(
            FailureClass::ResourceUnavailable,
        ),
        ExecutionPreparationError::Kernel(error).failure_class() is None,
        ExecutionPreparationError::Configuration(missing).detail()
            == "execution configuration unavailable: "@ + missing.detail(),
        ExecutionPreparationError::Kernel(error).detail() == "execution launch rejected: "@
            + error.detail(),
{
}

} // verus!

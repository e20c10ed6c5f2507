//! The heartbeat: renewing what is supervised, and the life of the loop that does it.
use crate::domain::{Error, ExecutionId};
use crate::supervision::{
    admitted, after_drop, after_renewal, consumed_after_drop, is_current, RenewalOutcome, Supervised,
    supervises_generation, SupervisedExecution, SupervisedRenewal, SupervisionAdmission,
    SupervisionError, SupervisionRegistry,
};
use crate::text::join2;
use crate::time::{Duration, Seconds, UnixTime};
use crate::timing::RuntimeTimingConfig;
use vstd::prelude::*;

verus! {

/// Renews supervised executions through single steps.
pub struct SupervisionService {
    pub registry: SupervisionRegistry,
    pub heartbeat_interval: Duration,
    /// How long ago an execution may last have been seen running and still be renewed.
    pub freshness_limit: Option<Duration>,
}

/// Where accepted admissions go.
pub trait AdmissionSink {
    fn admit_execution(&mut self, admission: SupervisionAdmission, now: UnixTime) -> (result:
        Result<(), SupervisionError>)
        requires
            old(self).ready(),
        ensures
            final(self).ready(),
    ;

    /// The sink is in a state in which it can be used.
    spec fn ready(&self) -> bool;
}

/// What the renewal of an admission needs.
#[derive(Debug, PartialEq, Eq)]
pub enum RenewalStep {
    /// Ask the store to renew this admission.
    Call(SupervisionAdmission),
    /// No call is made.
    Settled(RenewalOutcome),
    /// The execution is not supervised under this admission any more.
    Gone,
}

/// The renewals that are due: those still to do, and what came of the others.
#[derive(Debug, PartialEq, Eq)]
pub struct RenewalBatch {
    pub pending: Vec<SupervisionAdmission>,
    pub outcomes: Vec<RenewalOutcome>,
}

/// The execution was seen running recently enough, and its renewal was not stopped.
pub open spec fn may_renew(
    entry: SupervisedExecution,
    freshness_limit: Option<Duration>,
    now: UnixTime,
) -> bool {
    &&& entry.renewal_eligible
    &&& freshness_limit matches Some(limit) ==> now.nanos <= entry.last_positive_observed_at.nanos
        + limit.nanos
}

/// What the renewal of an admission needs, as the registry stands.
pub open spec fn renewal_step(
    supervised: Supervised,
    freshness_limit: Option<Duration>,
    now: UnixTime,
    admission: SupervisionAdmission,
) -> RenewalStep {
    if !is_current(supervised, admission) {
        RenewalStep::Gone
    } else if may_renew(supervised[admission.execution_id@], freshness_limit, now) {
        RenewalStep::Call(admission)
    } else {
        RenewalStep::Settled(
            RenewalOutcome::FreshnessStale { execution_id: admission.execution_id },
        )
    }
}

/// What the store's reply to a renewal means.
pub open spec fn renewal_outcome(
    admission: SupervisionAdmission,
    reply: Result<SupervisedRenewal, Error>,
) -> Result<RenewalOutcome, SupervisionError> {
    let execution_id = admission.execution_id;
    match reply {
        Ok(SupervisedRenewal::Renewed(new_expires_at)) => Ok(
            RenewalOutcome::Renewed { execution_id, new_expires_at },
        ),
        Ok(SupervisedRenewal::NotRunning) => Ok(RenewalOutcome::NoLongerRunning { execution_id }),
        Err(error) => if error.authority_lost() || error is NotFound {
            Ok(RenewalOutcome::AuthorityLost { execution_id })
        } else {
            Err(SupervisionError::Fatal(error))
        },
    }
}

/// The registry after the store's reply: a renewal is noted, a loss gives the execution up, and a
/// fault changes nothing.  A reply for an admission that is not current changes nothing either.
pub open spec fn supervised_after(
    supervised: Supervised,
    admission: SupervisionAdmission,
    reply: Result<SupervisedRenewal, Error>,
    now: UnixTime,
) -> Supervised {
    match renewal_outcome(admission, reply) {
        Ok(RenewalOutcome::Renewed { .. }) => after_renewal(supervised, admission, now),
        Ok(_) => after_drop(supervised, admission),
        Err(_) => supervised,
    }
}

/// The used-up generations after the store's reply.
pub open spec fn consumed_after(
    supervised: Supervised,
    consumed: Set<u64>,
    admission: SupervisionAdmission,
    reply: Result<SupervisedRenewal, Error>,
) -> Set<u64> {
    match renewal_outcome(admission, reply) {
        Ok(RenewalOutcome::Renewed { .. }) => consumed,
        Ok(_) => consumed_after_drop(supervised, consumed, admission),
        Err(_) => consumed,
    }
}

/// Works off a list of due admissions from its end, up to the next one that needs a call: what is
/// left, what was settled on the way, and the call.
pub open spec fn skim(
    supervised: Supervised,
    freshness_limit: Option<Duration>,
    now: UnixTime,
    pending: Seq<SupervisionAdmission>,
) -> (Seq<SupervisionAdmission>, Seq<RenewalOutcome>, Option<SupervisionAdmission>)
    decreases pending.len(),
{
    if pending.len() == 0 {
        (pending, Seq::empty(), None)
    } else {
        let rest = pending.drop_last();
        match renewal_step(supervised, freshness_limit, now, pending.last()) {
            RenewalStep::Call(admission) => (rest, Seq::empty(), Some(admission)),
            RenewalStep::Gone => skim(supervised, freshness_limit, now, rest),
            RenewalStep::Settled(outcome) => {
                let (left, settled, call) = skim(supervised, freshness_limit, now, rest);
                (left, seq![outcome] + settled, call)
            },
        }
    }
}

/// Every execution was given up, and with it its admission was used up.
pub open spec fn given_up(before: SupervisionRegistry, after: SupervisionRegistry) -> bool {
    &&& after@ == Supervised::empty()
    &&& forall|generation: u64| #[trigger]
        after.consumed().contains(generation) <==> before.consumed().contains(generation)
            || supervises_generation(before@, generation)
}

impl RenewalBatch {
    /// The batch after the store's reply to one of its renewals: the outcome is noted, and a fault
    /// leaves the batch as it was.
    pub open spec fn settles_to(
        self,
        admission: SupervisionAdmission,
        reply: Result<SupervisedRenewal, Error>,
        after: RenewalBatch,
        result: Result<(), SupervisionError>,
    ) -> bool {
        &&& after.pending == self.pending
        &&& match renewal_outcome(admission, reply) {
            Ok(outcome) => result == Ok::<(), SupervisionError>(()) && after.outcomes@
                == self.outcomes@.push(outcome),
            Err(error) => result == Err::<(), SupervisionError>(error) && after.outcomes
                == self.outcomes,
        }
    }
}

impl SupervisionService {
    pub open spec fn wf(self) -> bool {
        self.registry.wf()
    }

    /// A service with an empty registry.  The configured lease must be the store's lease.
    pub fn new(timing: &RuntimeTimingConfig, kernel_lease_seconds: Seconds) -> (result: Result<
        Self,
        SupervisionError,
    >)
        requires
            timing.lease_of().same_number(kernel_lease_seconds)
                ==> timing.heartbeat_of().representable(),
        ensures
            match result {
                Ok(service) => {
                    &&& timing.lease_of().same_number(kernel_lease_seconds)
                    &&& service.wf()
                    &&& service.registry@ == Supervised::empty()
                    &&& service.registry.consumed() == Set::<u64>::empty()
                    &&& service.heartbeat_interval.nanos == timing.heartbeat_of().nanos()
                    &&& service.freshness_limit is None
                },
                Err(error) => !timing.lease_of().same_number(kernel_lease_seconds) && error
                    == (SupervisionError::LeaseAuthorityMismatch {
                    configured: timing.lease_of(),
                    kernel: kernel_lease_seconds,
                }),
            },
    {
        let lease = timing.lease_seconds();
        if !lease.is_same_number(&kernel_lease_seconds) {
            return Err(
                SupervisionError::LeaseAuthorityMismatch {
                    configured: lease,
                    kernel: kernel_lease_seconds,
                },
            );
        }
        Ok(
            SupervisionService {
                registry: SupervisionRegistry::new(),
                heartbeat_interval: timing.heartbeat_interval(),
                freshness_limit: None,
            },
        )
    }

    /// From now on an execution is renewed only while it was seen running within the limit.
    pub fn enable_freshness_gate(&mut self, limit: Duration)
        ensures
            final(self).registry == old(self).registry,
            final(self).heartbeat_interval == old(self).heartbeat_interval,
            final(self).freshness_limit == Some(limit),
    {
        self.freshness_limit = Some(limit);
    }

    fn may_renew_entry(&self, entry: &SupervisedExecution, now: UnixTime) -> (may: bool)
        ensures
            may == may_renew(*entry, self.freshness_limit, now),
    {
        if !entry.renewal_eligible {
            return false;
        }
        match self.freshness_limit {
            None => true,
            Some(limit) => {
                let seen: u128 = entry.last_positive_observed_at.nanos;
                now.nanos <= seen || now.nanos - seen <= limit.nanos
            },
        }
    }

    /// What the renewal of an admission needs.
    pub fn begin_renewal(&self, admission: SupervisionAdmission, now: UnixTime) -> (step:
        RenewalStep)
        requires
            self.wf(),
        ensures
            step == renewal_step(self.registry@, self.freshness_limit, now, admission),
    {
        match self.registry.entry(&admission.execution_id) {
            None => RenewalStep::Gone,
            Some(entry) => {
                if entry.admission.generation != admission.generation {
                    RenewalStep::Gone
                } else if self.may_renew_entry(entry, now) {
                    RenewalStep::Call(admission)
                } else {
                    RenewalStep::Settled(
                        RenewalOutcome::FreshnessStale { execution_id: admission.execution_id },
                    )
                }
            },
        }
    }

    /// Starts the renewal of one supervised execution.
    pub fn renew_one(&self, execution_id: &ExecutionId, now: UnixTime) -> (result: Result<
        RenewalStep,
        SupervisionError,
    >)
        requires
            self.wf(),
        ensures
            if self.registry@.contains_key(execution_id@) {
                result == Ok::<RenewalStep, SupervisionError>(
                    renewal_step(
                        self.registry@,
                        self.freshness_limit,
                        now,
                        self.registry@[execution_id@].admission,
                    ),
                ) && !(result->Ok_0 is Gone)
            } else {
                result == Err::<RenewalStep, SupervisionError>(SupervisionError::NoSuchEntry)
            },
    {
        match self.registry.entry_admission(execution_id) {
            None => Err(SupervisionError::NoSuchEntry),
            Some(admission) => {
                proof {
                    self.registry.lemma_keyed_by_execution(execution_id@);
                }
                Ok(self.begin_renewal(admission, now))
            },
        }
    }

    /// The renewals that are due.
    pub fn renew_due(&self, now: UnixTime) -> (batch: RenewalBatch)
        requires
            self.wf(),
        ensures
            batch.outcomes@.len() == 0,
            forall|i: int|
                0 <= i < batch.pending@.len() ==> {
                    let id = (#[trigger] batch.pending@[i]).execution_id@;
                    self.registry@.contains_key(id) && self.registry@[id].admission
                        == batch.pending@[i] && now.reached(
                        self.registry@[id].last_renewal_at,
                        self.heartbeat_interval,
                    )
                },
            forall|id: Seq<char>|
                self.registry@.contains_key(id) && now.reached(
                    (#[trigger] self.registry@[id]).last_renewal_at,
                    self.heartbeat_interval,
                ) ==> batch.pending@.contains(self.registry@[id].admission),
            forall|i: int, j: int|
                0 <= i < j < batch.pending@.len() ==> (#[trigger] batch.pending@[i]).execution_id@
                    != (#[trigger] batch.pending@[j]).execution_id@,
    {
        RenewalBatch {
            pending: self.registry.due(now, self.heartbeat_interval),
            outcomes: Vec::new(),
        }
    }

    /// The next admission of the batch that the store must be asked about.
    pub fn next_due(&self, batch: &mut RenewalBatch, now: UnixTime) -> (call: Option<
        SupervisionAdmission,
    >)
        requires
            self.wf(),
        ensures
            ({
                let (left, settled, next) = skim(
                    self.registry@,
                    self.freshness_limit,
                    now,
                    old(batch).pending@,
                );
                final(batch).pending@ == left && final(batch).outcomes@ == old(batch).outcomes@
                    + settled && call == next
            }),
    {
        let ghost done = batch.outcomes@;
        let ghost target = skim(self.registry@, self.freshness_limit, now, batch.pending@);
        while batch.pending.len() > 0
            invariant
                self.wf(),
                done == old(batch).outcomes@,
                target == skim(self.registry@, self.freshness_limit, now, old(batch).pending@),
                target == ({
                    let (left, settled, next) = skim(
                        self.registry@,
                        self.freshness_limit,
                        now,
                        batch.pending@,
                    );
                    (left, batch.outcomes@.skip(done.len() as int) + settled, next)
                }),
                done.len() <= batch.outcomes@.len(),
                batch.outcomes@.take(done.len() as int) == done,
            decreases batch.pending.len(),
        {
            let ghost before = batch.pending@;
            let ghost so_far = batch.outcomes@;
            match batch.pending.pop() {
                None => {},
                Some(admission) => {
                    proof {
                        assert(admission == before.last());
                        assert(batch.pending@ =~= before.drop_last());
                    }
                    match self.begin_renewal(admission, now) {
                        RenewalStep::Gone => {},
                        RenewalStep::Call(call) => {
                            proof {
                                assert(target.0 =~= batch.pending@);
                                assert(target.1 =~= batch.outcomes@.skip(done.len() as int));
                                assert(batch.outcomes@ =~= batch.outcomes@.take(done.len() as int)
                                    + target.1);
                                assert(target.2 == Some(call));
                            }
                            return Some(call);
                        },
                        RenewalStep::Settled(outcome) => {
                            batch.outcomes.push(outcome);
                            proof {
                                let (left, settled, next) = skim(
                                    self.registry@,
                                    self.freshness_limit,
                                    now,
                                    batch.pending@,
                                );
                                assert(so_far.skip(done.len() as int) + (seq![outcome] + settled)
                                    =~= batch.outcomes@.skip(done.len() as int) + settled);
                                assert(batch.outcomes@.take(done.len() as int) =~= so_far.take(
                                    done.len() as int,
                                ));
                            }
                        },
                    }
                },
            }
        }
        proof {
            assert(target.1 =~= batch.outcomes@.skip(done.len() as int));
            assert(batch.outcomes@ =~= done + target.1);
            assert(batch.pending@ =~= target.0);
        }
        None
    }

    /// Applies the store's reply to a renewal.
    pub fn renew_admission(
        &mut self,
        admission: SupervisionAdmission,
        reply: Result<SupervisedRenewal, Error>,
        now: UnixTime,
    ) -> (result: Result<RenewalOutcome, SupervisionError>)
        requires
            old(self).wf(),
        ensures
            result == renewal_outcome(admission, reply),
            final(self).wf(),
            final(self).registry@ == supervised_after(old(self).registry@, admission, reply, now),
            final(self).registry.consumed() == consumed_after(
                old(self).registry@,
                old(self).registry.consumed(),
                admission,
                reply,
            ),
            final(self).heartbeat_interval == old(self).heartbeat_interval,
            final(self).freshness_limit == old(self).freshness_limit,
    {
        match reply {
            Ok(SupervisedRenewal::Renewed(new_expires_at)) => {
                self.registry.record_renewal(&admission, now);
                Ok(RenewalOutcome::Renewed { execution_id: admission.execution_id, new_expires_at })
            },
            Ok(SupervisedRenewal::NotRunning) => {
                self.registry.remove_if_current(&admission);
                Ok(RenewalOutcome::NoLongerRunning { execution_id: admission.execution_id })
            },
            Err(error) => {
                if error.is_authority_lost() || matches!(error, Error::NotFound(_)) {
                    self.registry.remove_if_current(&admission);
                    Ok(RenewalOutcome::AuthorityLost { execution_id: admission.execution_id })
                } else {
                    Err(SupervisionError::Fatal(error))
                }
            },
        }
    }

    /// Applies the store's reply to a renewal of the batch.  A fault ends the batch.
    pub fn settle(
        &mut self,
        batch: &mut RenewalBatch,
        admission: SupervisionAdmission,
        reply: Result<SupervisedRenewal, Error>,
        now: UnixTime,
    ) -> (result: Result<(), SupervisionError>)
        requires
            old(self).wf(),
        ensures
            final(self).wf(),
            final(self).registry@ == supervised_after(old(self).registry@, admission, reply, now),
            final(self).registry.consumed() == consumed_after(
                old(self).registry@,
                old(self).registry.consumed(),
                admission,
                reply,
            ),
            final(self).heartbeat_interval == old(self).heartbeat_interval,
            final(self).freshness_limit == old(self).freshness_limit,
            old(batch).settles_to(admission, reply, *final(batch), result),
    {
        match self.renew_admission(admission, reply, now) {
            Ok(outcome) => {
                batch.outcomes.push(outcome);
                Ok(())
            },
            Err(error) => Err(error),
        }
    }

    /// Gives up one execution.
    pub fn remove(&mut self, execution_id: &ExecutionId) -> (result: Result<(), SupervisionError>)
        requires
            old(self).wf(),
        ensures
            final(self).wf(),
            final(self).registry@ == old(self).registry@.remove(execution_id@),
            final(self).registry.consumed() == if old(self).registry@.contains_key(execution_id@) {
                old(self).registry.consumed().insert(
                    old(self).registry@[execution_id@].admission.generation,
                )
            } else {
                old(self).registry.consumed()
            },
            result is Ok <==> old(self).registry@.contains_key(execution_id@),
            result matches Err(error) ==> error is NoSuchEntry,
            final(self).heartbeat_interval == old(self).heartbeat_interval,
            final(self).freshness_limit == old(self).freshness_limit,
    {
        let result = self.registry.remove(execution_id);
        proof {
            if !old(self).registry@.contains_key(execution_id@) {
                assert(old(self).registry@.remove(execution_id@) =~= old(self).registry@);
            }
        }
        result
    }

    pub fn contains(&self, execution_id: &ExecutionId) -> (found: bool)
        requires
            self.wf(),
        ensures
            found == self.registry@.contains_key(execution_id@),
    {
        self.registry.contains(execution_id)
    }

    pub fn active_count(&self) -> (count: usize)
        requires
            self.wf(),
        ensures
            count == self.registry@.len(),
    {
        self.registry.active_count()
    }

    /// When an execution was last seen running.
    pub fn last_positive_observed_at(&self, execution_id: &ExecutionId) -> (at: Option<UnixTime>)
        requires
            self.wf(),
        ensures
            match at {
                Some(time) => self.registry@.contains_key(execution_id@) && time
                    == self.registry@[execution_id@].last_positive_observed_at,
                None => !self.registry@.contains_key(execution_id@),
            },
    {
        match self.registry.entry(execution_id) {
            Some(entry) => Some(entry.last_positive_observed_at),
            None => None,
        }
    }

    /// Whether renewal of an execution was not stopped.
    pub fn renewal_eligible(&self, execution_id: &ExecutionId) -> (eligible: Option<bool>)
        requires
            self.wf(),
        ensures
            match eligible {
                Some(flag) => self.registry@.contains_key(execution_id@) && flag
                    == self.registry@[execution_id@].renewal_eligible,
                None => !self.registry@.contains_key(execution_id@),
            },
    {
        match self.registry.entry(execution_id) {
            Some(entry) => Some(entry.renewal_eligible),
            None => None,
        }
    }

    /// Gives up every execution.  No lease is revoked: leases just run out.
    pub fn clear(&mut self)
        requires
            old(self).wf(),
        ensures
            final(self).wf(),
            given_up(old(self).registry, final(self).registry),
            final(self).heartbeat_interval == old(self).heartbeat_interval,
            final(self).freshness_limit == old(self).freshness_limit,
    {
        self.registry.clear();
    }
}

impl AdmissionSink for SupervisionService {
    open spec fn ready(&self) -> bool {
        self.wf()
    }

    fn admit_execution(&mut self, admission: SupervisionAdmission, now: UnixTime) -> (result: Result<
        (),
        SupervisionError,
    >)
        ensures
            admitted(old(self).registry, final(self).registry, admission, now, result),
            final(self).heartbeat_interval == old(self).heartbeat_interval,
            final(self).freshness_limit == old(self).freshness_limit,
    {
        self.registry.admit_execution(admission, now)
    }
}

/// What the heartbeat thread does next.
#[derive(Debug, Clone, Copy, PartialEq, Eq, Structural)]
pub enum HeartbeatStep {
    /// Renew what is due.
    Renew,
    /// Wait for the interval, or for a signal.
    Wait(Duration),
    /// Leave the loop.
    Exit,
}

/// The heartbeat loop: the service, and whether it is still to run.
pub struct SupervisionRunner {
    pub service: SupervisionService,
    pub shutting_down: bool,
    pub fatal: Option<SupervisionError>,
}

impl SupervisionRunner {
    pub open spec fn wf(self) -> bool {
        self.service.wf()
    }

    /// The runner takes admissions.
    pub open spec fn accepting(self) -> bool {
        !self.shutting_down && self.fatal is None
    }

    /// Composes the runner.  A lease that is not the store's fails before any loop runs.
    pub fn start(timing: &RuntimeTimingConfig, kernel_lease_seconds: Seconds) -> (result: Result<
        Self,
        SupervisionError,
    >)
        requires
            timing.lease_of().same_number(kernel_lease_seconds)
                ==> timing.heartbeat_of().representable(),
        ensures
            match result {
                Ok(runner) => {
                    &&& timing.lease_of().same_number(kernel_lease_seconds)
                    &&& runner.wf()
                    &&& runner.accepting()
                    &&& runner.service.registry@ == Supervised::empty()
                    &&& runner.service.registry.consumed() == Set::<u64>::empty()
                    &&& runner.service.heartbeat_interval.nanos == timing.heartbeat_of().nanos()
                    &&& runner.service.freshness_limit is None
                },
                Err(error) => !timing.lease_of().same_number(kernel_lease_seconds) && error
                    == (SupervisionError::LeaseAuthorityMismatch {
                    configured: timing.lease_of(),
                    kernel: kernel_lease_seconds,
                }),
            },
    {
        match SupervisionService::new(timing, kernel_lease_seconds) {
            Ok(service) => Ok(SupervisionRunner { service, shutting_down: false, fatal: None }),
            Err(error) => Err(error),
        }
    }

    /// The fault of a heartbeat thread that could not be spawned.
    pub fn spawn_failed(cause: &str) -> (error: SupervisionError)
        ensures
            error matches SupervisionError::Fatal(fault) && fault is InvariantViolation
                && fault.detail() == "failed to spawn the supervision heartbeat thread: "@ + cause@,
    {
        SupervisionError::Fatal(
            Error::InvariantViolation(
                join2("failed to spawn the supervision heartbeat thread: ", cause),
            ),
        )
    }

    pub open spec fn first_step(self) -> HeartbeatStep {
        if self.shutting_down {
            HeartbeatStep::Exit
        } else {
            HeartbeatStep::Renew
        }
    }

    /// The top of the loop, and where it stands again after each wait.
    pub fn next_step(&self) -> (step: HeartbeatStep)
        ensures
            step == self.first_step(),
    {
        if self.shutting_down {
            HeartbeatStep::Exit
        } else {
            HeartbeatStep::Renew
        }
    }

    /// What follows a round of renewals.
    pub open spec fn goes_on(
        self,
        round: Result<(), SupervisionError>,
        after: SupervisionRunner,
        step: HeartbeatStep,
    ) -> bool {
        &&& after.service == self.service
        &&& after.shutting_down == self.shutting_down
        &&& match round {
            Ok(_) => after.fatal == self.fatal && step == (if self.shutting_down {
                HeartbeatStep::Exit
            } else {
                HeartbeatStep::Wait(self.service.heartbeat_interval)
            }),
            Err(error) => step == HeartbeatStep::Exit && after.fatal == (match self.fatal {
                Some(first) => Some(first),
                None => Some(error),
            }),
        }
    }

    /// Goes on after a round of renewals.  A fault is kept, the first one, and ends the loop.
    pub fn renewed(&mut self, round: Result<(), SupervisionError>) -> (step: HeartbeatStep)
        ensures
            old(self).goes_on(round, *final(self), step),
    {
        match round {
            Ok(_) => {
                if self.shutting_down {
                    HeartbeatStep::Exit
                } else {
                    HeartbeatStep::Wait(self.service.heartbeat_interval)
                }
            },
            Err(error) => {
                if self.fatal.is_none() {
                    self.fatal = Some(error);
                }
                HeartbeatStep::Exit
            },
        }
    }

    /// The loop is left: every execution is given up.
    pub fn exited(&mut self)
        requires
            old(self).wf(),
        ensures
            final(self).wf(),
            given_up(old(self).service.registry, final(self).service.registry),
            final(self).service.heartbeat_interval == old(self).service.heartbeat_interval,
            final(self).service.freshness_limit == old(self).service.freshness_limit,
            final(self).shutting_down == old(self).shutting_down,
            final(self).fatal == old(self).fatal,
    {
        self.service.clear();
    }

    pub fn request_stop(&mut self)
        ensures
            final(self).service == old(self).service,
            final(self).shutting_down,
            final(self).fatal == old(self).fatal,
    {
        self.shutting_down = true;
    }

    pub fn contains(&self, execution_id: &ExecutionId) -> (found: bool)
        requires
            self.wf(),
        ensures
            found == self.service.registry@.contains_key(execution_id@),
    {
        self.service.contains(execution_id)
    }

    pub fn active_count(&self) -> (count: usize)
        requires
            self.wf(),
        ensures
            count == self.service.registry@.len(),
    {
        self.service.active_count()
    }

    /// Gives up one execution.
    pub fn remove(&mut self, execution_id: &ExecutionId) -> (result: Result<(), SupervisionError>)
        requires
            old(self).wf(),
        ensures
            final(self).wf(),
            final(self).service.registry@ == old(self).service.registry@.remove(execution_id@),
            final(self).service.registry.consumed() == if old(
                self).service.registry@.contains_key(execution_id@) {
                old(self).service.registry.consumed().insert(
                    old(self).service.registry@[execution_id@].admission.generation,
                )
            } else {
                old(self).service.registry.consumed()
            },
            final(self).service.heartbeat_interval == old(self).service.heartbeat_interval,
            final(self).service.freshness_limit == old(self).service.freshness_limit,
            result is Ok <==> old(self).service.registry@.contains_key(execution_id@),
            result matches Err(error) ==> error is NoSuchEntry,
            final(self).shutting_down == old(self).shutting_down,
            final(self).fatal == old(self).fatal,
    {
        self.service.remove(execution_id)
    }

    pub fn is_failed(&self) -> (failed: bool)
        ensures
            failed == self.fatal is Some,
    {
        self.fatal.is_some()
    }

    /// The fault that ended the loop.
    pub fn take_fatal(&self) -> (fatal: Option<SupervisionError>)
        ensures
            fatal == self.fatal,
    {
        match &self.fatal {
            Some(error) => Some(error.clone()),
            None => None,
        }
    }

    /// The runner after its end, and what its end reports.
    pub open spec fn ends(
        self,
        panicked: bool,
        after: SupervisionRunner,
        result: Result<(), SupervisionError>,
    ) -> bool {
        &&& after.shutting_down
        &&& panicked ==> {
            &&& result matches Err(SupervisionError::Fatal(fault)) && fault is InvariantViolation
                && fault.detail() == "the supervision heartbeat thread panicked"@
            &&& after.service == self.service
        }
        &&& !panicked ==> {
            &&& given_up(self.service.registry, after.service.registry)
            &&& after.service.heartbeat_interval == self.service.heartbeat_interval
            &&& after.service.freshness_limit == self.service.freshness_limit
            &&& result == match self.fatal {
                Some(error) => Err::<(), SupervisionError>(error),
                None => Ok::<(), SupervisionError>(()),
            }
        }
        &&& after.fatal == self.fatal
    }

    /// Ends the runner once its thread was joined: gives every execution up and reports the fault.
    pub fn shutdown(&mut self, panicked: bool) -> (result: Result<(), SupervisionError>)
        requires
            old(self).wf(),
        ensures
            final(self).wf(),
            old(self).ends(panicked, *final(self), result),
    {
        self.shutting_down = true;
        if panicked {
            return Err(
                SupervisionError::Fatal(
                    Error::InvariantViolation(
                        "the supervision heartbeat thread panicked".to_string(),
                    ),
                ),
            );
        }
        self.service.clear();
        match self.take_fatal() {
            Some(error) => Err(error),
            None => Ok(()),
        }
    }
}

impl AdmissionSink for SupervisionRunner {
    open spec fn ready(&self) -> bool {
        self.wf()
    }

    /// A runner that stopped or failed refuses every admission.
    fn admit_execution(&mut self, admission: SupervisionAdmission, now: UnixTime) -> (result: Result<
        (),
        SupervisionError,
    >)
        ensures
            final(self).shutting_down == old(self).shutting_down,
            final(self).fatal == old(self).fatal,
            if old(self).accepting() {
                &&& admitted(
                    old(self).service.registry,
                    final(self).service.registry,
                    admission,
                    now,
                    result,
                )
                &&& final(self).service.heartbeat_interval == old(self).service.heartbeat_interval
                &&& final(self).service.freshness_limit == old(self).service.freshness_limit
            } else {
                &&& result matches Err(SupervisionError::RunnerStopped(reason)) && reason@
                    == "no admissions are taken"@
                &&& final(self).service == old(self).service
            },
    {
        if self.shutting_down || self.fatal.is_some() {
            return Err(SupervisionError::RunnerStopped("no admissions are taken".to_string()));
        }
        self.service.admit_execution(admission, now)
    }
}

// ---------------------------------------------------------------------------------------------
// Laws
// ---------------------------------------------------------------------------------------------

/// A reply that comes for an admission which is not current any more changes nothing.
pub proof fn law_late_reply_changes_nothing(
    supervised: Supervised,
    consumed: Set<u64>,
    admission: SupervisionAdmission,
    reply: Result<SupervisedRenewal, Error>,
    now: UnixTime,
)
    requires
        !is_current(supervised, admission),
    ensures
        supervised_after(supervised, admission, reply, now) == supervised,
        consumed_after(supervised, consumed, admission, reply) == consumed,
{
}

/// No reply of the store brings an execution into supervision, and the other executions stay as
/// they are.
pub proof fn law_replies_bring_nothing_in(
    supervised: Supervised,
    admission: SupervisionAdmission,
    reply: Result<SupervisedRenewal, Error>,
    now: UnixTime,
    id: Seq<char>,
)
    requires
        supervised_after(supervised, admission, reply, now).contains_key(id),
    ensures
        supervised.contains_key(id),
        id != admission.execution_id@ ==> supervised_after(supervised, admission, reply, now)[id]
            == supervised[id],
        supervised_after(supervised, admission, reply, now)[id].admission
            == supervised[id].admission,
{
}

/// When the store rejects the authority of a supervised execution, the execution leaves
/// supervision and its admission is used up for good: presenting it again is refused.
pub proof fn law_lost_admission_never_returns(
    before: SupervisionRegistry,
    after: SupervisionRegistry,
    later: SupervisionRegistry,
    admission: SupervisionAdmission,
    error: Error,
    now: UnixTime,
    result: Result<(), SupervisionError>,
)
    requires
        is_current(before@, admission),
        error.authority_lost() || error is NotFound,
        after@ == supervised_after(before@, admission, Err(error), now),
        after.consumed() == consumed_after(before@, before.consumed(), admission, Err(error)),
        admitted(after, later, admission, now, result),
    ensures
        !after@.contains_key(admission.execution_id@),
        result == Err::<(), SupervisionError>(SupervisionError::AdmissionConsumed),
        later@ == after@,
{
}

/// A fault of the store is never taken for a loss of authority, and leaves supervision as it was.
pub proof fn law_fault_is_no_authority_loss(
    supervised: Supervised,
    admission: SupervisionAdmission,
    error: Error,
    now: UnixTime,
)
    requires
        !error.authority_lost(),
        !(error is NotFound),
    ensures
        renewal_outcome(admission, Err(error)) == Err::<RenewalOutcome, SupervisionError>(
            SupervisionError::Fatal(error),
        ),
        supervised_after(supervised, admission, Err(error), now) == supervised,
{
}

/// Taking the same admission twice is the same as taking it once.
pub proof fn law_admission_is_idempotent(
    before: SupervisionRegistry,
    once: SupervisionRegistry,
    twice: SupervisionRegistry,
    admission: SupervisionAdmission,
    now: UnixTime,
    later: UnixTime,
    second: Result<(), SupervisionError>,
)
    requires
        admitted(before, once, admission, now, Ok(())),
        admitted(once, twice, admission, later, second),
    ensures
        second is Ok,
        twice@ == once@,
        twice.consumed() == once.consumed(),
{
}

/// The execution is supervised under this very admission.
pub open spec fn held(supervised: Supervised, admission: SupervisionAdmission) -> bool {
    supervised.contains_key(admission.execution_id@)
        && supervised[admission.execution_id@].admission.generation == admission.generation
}

/// The execution may be renewed: nobody stopped it, and the last sighting is no older than the
/// limit, where there is one.
pub open spec fn renewable(
    supervised: Supervised,
    freshness_limit: Option<Duration>,
    now: UnixTime,
    admission: SupervisionAdmission,
) -> bool {
    let entry = supervised[admission.execution_id@];
    held(supervised, admission) && entry.renewal_eligible && match freshness_limit {
        None => true,
        Some(limit) => now.nanos - entry.last_positive_observed_at.nanos <= limit.nanos,
    }
}

/// The execution that an outcome is about.
pub open spec fn outcome_id(outcome: RenewalOutcome) -> Seq<char> {
    match outcome {
        RenewalOutcome::Renewed { execution_id, .. } => execution_id@,
        RenewalOutcome::NoLongerRunning { execution_id } => execution_id@,
        RenewalOutcome::AuthorityLost { execution_id } => execution_id@,
        RenewalOutcome::FreshnessStale { execution_id } => execution_id@,
    }
}

/// How many of the outcomes are about an execution.
pub open spec fn outcomes_about(outcomes: Seq<RenewalOutcome>, id: Seq<char>) -> nat
    decreases outcomes.len(),
{
    if outcomes.len() == 0 {
        0
    } else {
        outcomes_about(outcomes.drop_last(), id) + if outcome_id(outcomes.last()) == id {
            1nat
        } else {
            0nat
        }
    }
}

proof fn lemma_outcomes_add(a: Seq<RenewalOutcome>, b: Seq<RenewalOutcome>, id: Seq<char>)
    ensures
        outcomes_about(a + b, id) == outcomes_about(a, id) + outcomes_about(b, id),
    decreases b.len(),
{
    if b.len() == 0 {
        assert(a + b =~= a);
    } else {
        assert((a + b).drop_last() =~= a + b.drop_last());
        lemma_outcomes_add(a, b.drop_last(), id);
    }
}

proof fn lemma_one_outcome(outcome: RenewalOutcome, id: Seq<char>)
    ensures
        outcomes_about(seq![outcome], id) == if outcome_id(outcome) == id {
            1nat
        } else {
            0nat
        },
{
    assert(seq![outcome].drop_last() =~= Seq::<RenewalOutcome>::empty());
    assert(outcomes_about(seq![outcome].drop_last(), id) == 0);
}

/// What the renewal of an admission needs: nothing where the execution is not supervised under it
/// any more, a call where it may be renewed, and else it is stale.
pub proof fn law_renewal_goes_by_freshness(
    supervised: Supervised,
    freshness_limit: Option<Duration>,
    now: UnixTime,
    admission: SupervisionAdmission,
)
    ensures
        !held(supervised, admission) <==> renewal_step(supervised, freshness_limit, now, admission)
            == RenewalStep::Gone,
        renewable(supervised, freshness_limit, now, admission) <==> renewal_step(
            supervised,
            freshness_limit,
            now,
            admission,
        ) == RenewalStep::Call(admission),
        held(supervised, admission) && !renewable(supervised, freshness_limit, now, admission)
            <==> renewal_step(supervised, freshness_limit, now, admission) == RenewalStep::Settled(
            RenewalOutcome::FreshnessStale { execution_id: admission.execution_id },
        ),
{
}

proof fn lemma_filter_one(admission: SupervisionAdmission, kept: spec_fn(SupervisionAdmission) -> bool)
    ensures
        seq![admission].filter(kept) == if kept(admission) {
            seq![admission]
        } else {
            Seq::empty()
        },
{
    reveal(Seq::filter);
    let none = seq![admission].drop_last();
    assert(none =~= Seq::<SupervisionAdmission>::empty());
    assert(none.filter(kept) =~= Seq::<SupervisionAdmission>::empty());
    assert(none.push(admission) =~= seq![admission]);
}

proof fn lemma_filter_none(kept: spec_fn(SupervisionAdmission) -> bool)
    ensures
        Seq::<SupervisionAdmission>::empty().filter(kept) == Seq::<SupervisionAdmission>::empty(),
{
    reveal(Seq::filter);
}

/// The stale ones among some admissions are told, the others are passed over.
proof fn lemma_told_in_order(
    supervised: Supervised,
    last: SupervisionAdmission,
    front: Seq<SupervisionAdmission>,
)
    ensures
        ({
            let kept = |a: SupervisionAdmission| held(supervised, a);
            let told = |a: SupervisionAdmission|
                RenewalOutcome::FreshnessStale { execution_id: a.execution_id };
            (seq![last] + front).filter(kept).map_values(told) == (if held(supervised, last) {
                seq![RenewalOutcome::FreshnessStale { execution_id: last.execution_id }]
            } else {
                Seq::empty()
            }) + front.filter(kept).map_values(told)
        }),
{
    let kept = |a: SupervisionAdmission| held(supervised, a);
    let told = |a: SupervisionAdmission|
        RenewalOutcome::FreshnessStale { execution_id: a.execution_id };
    Seq::filter_distributes_over_add(seq![last], front, kept);
    lemma_filter_one(last, kept);
    let behind = front.filter(kept);
    assert((seq![last].filter(kept) + behind).map_values(told) =~= seq![last].filter(
        kept,
    ).map_values(told) + behind.map_values(told));
    if held(supervised, last) {
        assert(seq![last].map_values(told) =~= seq![told(last)]);
    } else {
        assert(Seq::<SupervisionAdmission>::empty().map_values(told) =~= Seq::empty());
    }
}

/// The next call is taken from the end of the list, and nothing else is thrown away: what is left
/// stands before it, and every entry behind it may not be renewed.  Each of those that is still
/// supervised is told stale, in the order in which they are taken.
pub proof fn law_next_call_loses_nothing(
    supervised: Supervised,
    freshness_limit: Option<Duration>,
    now: UnixTime,
    pending: Seq<SupervisionAdmission>,
)
    ensures
        ({
            let (left, settled, call) = skim(supervised, freshness_limit, now, pending);
            let taken = match call {
                Some(_) => left.len() as int + 1,
                None => left.len() as int,
            };
            let passed = pending.skip(taken);
            &&& taken <= pending.len()
            &&& left == pending.take(left.len() as int)
            &&& match call {
                Some(admission) => admission == pending[left.len() as int] && renewable(
                    supervised,
                    freshness_limit,
                    now,
                    admission,
                ),
                None => left.len() == 0,
            }
            &&& forall|i: int|
                taken <= i < pending.len() ==> !renewable(
                    supervised,
                    freshness_limit,
                    now,
                    #[trigger] pending[i],
                )
            &&& settled == passed.reverse().filter(
                |a: SupervisionAdmission| held(supervised, a),
            ).map_values(
                |a: SupervisionAdmission|
                    RenewalOutcome::FreshnessStale { execution_id: a.execution_id },
            )
        }),
    decreases pending.len(),
{
    let kept = |a: SupervisionAdmission| held(supervised, a);
    let told = |a: SupervisionAdmission|
        RenewalOutcome::FreshnessStale { execution_id: a.execution_id };
    let (left, settled, call) = skim(supervised, freshness_limit, now, pending);
    let taken = match call {
        Some(_) => left.len() as int + 1,
        None => left.len() as int,
    };
    lemma_filter_none(kept);
    assert(Seq::<SupervisionAdmission>::empty().map_values(told) =~= Seq::empty());
    if pending.len() == 0 {
        assert(pending.skip(0).reverse() =~= Seq::empty());
        assert(pending.take(0) =~= pending);
    } else {
        let rest = pending.drop_last();
        let last = pending.last();
        if renewable(supervised, freshness_limit, now, last) {
            assert(left =~= pending.take(left.len() as int));
            assert(pending.skip(taken).reverse() =~= Seq::empty());
        } else {
            law_next_call_loses_nothing(supervised, freshness_limit, now, rest);
            let (rest_left, rest_settled, rest_call) = skim(supervised, freshness_limit, now, rest);
            assert(rest.take(left.len() as int) =~= pending.take(left.len() as int));
            let front = rest.skip(taken);
            assert(pending.skip(taken).reverse() =~= seq![last] + front.reverse());
            lemma_told_in_order(supervised, last, front.reverse());
            if held(supervised, last) {
                assert(settled =~= seq![told(last)] + rest_settled);
            } else {
                assert(settled =~= Seq::empty() + rest_settled);
            }
            assert forall|i: int| taken <= i < pending.len() implies !renewable(
                supervised,
                freshness_limit,
                now,
                #[trigger] pending[i],
            ) by {
                if i < rest.len() {
                    assert(rest[i] == pending[i]);
                }
            }
        }
    }
}

/// What each reply of the store to a renewal comes to, and for which execution.
pub proof fn law_renewal_replies_are_read(
    admission: SupervisionAdmission,
    new_expires_at: UnixTime,
    text: String,
)
    ensures
        renewal_outcome(admission, Ok(SupervisedRenewal::Renewed(new_expires_at))) == Ok::<
            RenewalOutcome,
            SupervisionError,
        >(RenewalOutcome::Renewed { execution_id: admission.execution_id, new_expires_at }),
        renewal_outcome(admission, Ok(SupervisedRenewal::NotRunning)) == Ok::<
            RenewalOutcome,
            SupervisionError,
        >(RenewalOutcome::NoLongerRunning { execution_id: admission.execution_id }),
        renewal_outcome(admission, Err(Error::StaleAuthority(text))) == Ok::<
            RenewalOutcome,
            SupervisionError,
        >(RenewalOutcome::AuthorityLost { execution_id: admission.execution_id }),
        renewal_outcome(admission, Err(Error::InvalidAuthority(text))) == Ok::<
            RenewalOutcome,
            SupervisionError,
        >(RenewalOutcome::AuthorityLost { execution_id: admission.execution_id }),
        renewal_outcome(admission, Err(Error::NotFound(text))) == Ok::<
            RenewalOutcome,
            SupervisionError,
        >(RenewalOutcome::AuthorityLost { execution_id: admission.execution_id }),
{
}

/// What each reply does to the registry: a renewal notes its time and nothing else, and any other
/// answer takes the execution out of supervision and uses its admission up.
pub proof fn law_renewal_replies_are_applied(
    supervised: Supervised,
    consumed: Set<u64>,
    admission: SupervisionAdmission,
    new_expires_at: UnixTime,
    now: UnixTime,
    text: String,
)
    requires
        held(supervised, admission),
    ensures
        ({
            let id = admission.execution_id@;
            let renewed = Ok(SupervisedRenewal::Renewed(new_expires_at));
            let after = supervised_after(supervised, admission, renewed, now);
            &&& after.dom() == supervised.dom()
            &&& after[id].last_renewal_at == now
            &&& after[id].admission == supervised[id].admission
            &&& after[id].last_positive_observed_at == supervised[id].last_positive_observed_at
            &&& after[id].renewal_eligible == supervised[id].renewal_eligible
            &&& forall|other: Seq<char>|
                other != id && supervised.contains_key(other) ==> #[trigger] after[other]
                    == supervised[other]
            &&& consumed_after(supervised, consumed, admission, renewed) == consumed
        }),
        ({
            let gone = supervised.remove(admission.execution_id@);
            let used = consumed.insert(admission.generation);
            let stopped = Ok(SupervisedRenewal::NotRunning);
            let stale = Err(Error::StaleAuthority(text));
            let invalid = Err(Error::InvalidAuthority(text));
            let missing = Err(Error::NotFound(text));
            &&& supervised_after(supervised, admission, stopped, now) == gone
            &&& supervised_after(supervised, admission, stale, now) == gone
            &&& supervised_after(supervised, admission, invalid, now) == gone
            &&& supervised_after(supervised, admission, missing, now) == gone
            &&& consumed_after(supervised, consumed, admission, stopped) == used
            &&& consumed_after(supervised, consumed, admission, stale) == used
            &&& consumed_after(supervised, consumed, admission, invalid) == used
            &&& consumed_after(supervised, consumed, admission, missing) == used
        }),
{
    let renewed = Ok(SupervisedRenewal::Renewed(new_expires_at));
    assert(supervised_after(supervised, admission, renewed, now).dom() =~= supervised.dom());
}

/// Where a round of renewals stands: what is supervised, what is pending, and the outcomes.
pub type RoundState = (Supervised, Seq<SupervisionAdmission>, Seq<RenewalOutcome>);

/// The round after its next call was answered, unless there is no further call or the answer is a
/// fault.
pub open spec fn round_after(
    freshness_limit: Option<Duration>,
    state: RoundState,
    now: UnixTime,
    reply: Result<SupervisedRenewal, Error>,
) -> Option<RoundState> {
    let (left, settled, call) = skim(state.0, freshness_limit, now, state.1);
    match call {
        None => None,
        Some(admission) => match renewal_outcome(admission, reply) {
            Err(_) => None,
            Ok(outcome) => Some(
                (
                    supervised_after(state.0, admission, reply, now),
                    left,
                    state.2 + settled + seq![outcome],
                ),
            ),
        },
    }
}

/// The outcomes of a round that has no further call.
pub open spec fn round_done(
    freshness_limit: Option<Duration>,
    state: RoundState,
    now: UnixTime,
) -> Option<Seq<RenewalOutcome>> {
    let (left, settled, call) = skim(state.0, freshness_limit, now, state.1);
    match call {
        None => Some(state.2 + settled),
        Some(_) => None,
    }
}

/// A round of renewals without a fault, up to where it stands: it starts with these admissions and
/// no outcomes, and each state follows from the one before by an answer of the store.
pub open spec fn renewal_round(
    freshness_limit: Option<Duration>,
    states: Seq<RoundState>,
    nows: Seq<UnixTime>,
    replies: Seq<Result<SupervisedRenewal, Error>>,
) -> bool {
    &&& states.len() == nows.len() + 1
    &&& nows.len() == replies.len()
    &&& states[0].2.len() == 0
    &&& forall|k: int|
        0 <= k < nows.len() ==> #[trigger] round_after(
            freshness_limit,
            states[k],
            nows[k],
            replies[k],
        ) == Some(states[k + 1])
}

/// No two of the admissions are of one execution.
pub open spec fn of_distinct_executions(pending: Seq<SupervisionAdmission>) -> bool {
    forall|i: int, j: int|
        0 <= i < j < pending.len() ==> (#[trigger] pending[i]).execution_id@ != (
        #[trigger] pending[j]).execution_id@
}

/// What is settled without a call is about the admissions that were passed over, once for each of
/// them that is held.
proof fn lemma_settled_once(
    supervised: Supervised,
    freshness_limit: Option<Duration>,
    now: UnixTime,
    pending: Seq<SupervisionAdmission>,
    q: int,
)
    requires
        of_distinct_executions(pending),
        0 <= q < pending.len(),
        held(supervised, pending[q]),
    ensures
        ({
            let (left, settled, call) = skim(supervised, freshness_limit, now, pending);
            let taken = match call {
                Some(_) => left.len() as int + 1,
                None => left.len() as int,
            };
            outcomes_about(settled, pending[q].execution_id@) == if q >= taken {
                1nat
            } else {
                0nat
            }
        }),
    decreases pending.len(),
{
    let id = pending[q].execution_id@;
    let rest = pending.drop_last();
    let last = pending.last();
    assert(of_distinct_executions(rest)) by {
        assert forall|i: int, j: int| 0 <= i < j < rest.len() implies (
        #[trigger] rest[i]).execution_id@ != (#[trigger] rest[j]).execution_id@ by {
            assert(rest[i] == pending[i] && rest[j] == pending[j]);
        }
    }
    if !renewable(supervised, freshness_limit, now, last) {
        let (left, settled, call) = skim(supervised, freshness_limit, now, rest);
        law_next_call_loses_nothing(supervised, freshness_limit, now, rest);
        if held(supervised, last) {
            let outcome = RenewalOutcome::FreshnessStale { execution_id: last.execution_id };
            lemma_outcomes_add(seq![outcome], settled, id);
            lemma_one_outcome(outcome, id);
        }
        if q < rest.len() {
            assert(rest[q] == pending[q]);
            lemma_settled_once(supervised, freshness_limit, now, rest, q);
        } else {
            lemma_none_settled(supervised, freshness_limit, now, rest, id);
        }
    } else {
        assert(outcomes_about(Seq::empty(), id) == 0);
    }
}

proof fn lemma_none_settled(
    supervised: Supervised,
    freshness_limit: Option<Duration>,
    now: UnixTime,
    pending: Seq<SupervisionAdmission>,
    id: Seq<char>,
)
    requires
        forall|i: int| 0 <= i < pending.len() ==> (#[trigger] pending[i]).execution_id@ != id,
    ensures
        outcomes_about(skim(supervised, freshness_limit, now, pending).1, id) == 0,
    decreases pending.len(),
{
    if pending.len() > 0 {
        let rest = pending.drop_last();
        let last = pending.last();
        assert(last == pending[pending.len() - 1]);
        let (left, settled, call) = skim(supervised, freshness_limit, now, rest);
        assert forall|i: int| 0 <= i < rest.len() implies (#[trigger] rest[i]).execution_id@
            != id by {
            assert(rest[i] == pending[i]);
        }
        lemma_none_settled(supervised, freshness_limit, now, rest, id);
        let outcome = RenewalOutcome::FreshnessStale { execution_id: last.execution_id };
        lemma_outcomes_add(seq![outcome], settled, id);
        lemma_one_outcome(outcome, id);
    }
}

/// One call of a round: what was passed over or asked about has its one outcome now, and what is
/// left is as it was.
proof fn lemma_round_step(
    freshness_limit: Option<Duration>,
    state: RoundState,
    now: UnixTime,
    reply: Result<SupervisedRenewal, Error>,
    next: RoundState,
    q: int,
)
    requires
        round_after(freshness_limit, state, now, reply) == Some(next),
        of_distinct_executions(state.1),
        0 <= q < state.1.len(),
        held(state.0, state.1[q]),
    ensures
        next.1.len() < state.1.len(),
        next.1 == state.1.take(next.1.len() as int),
        outcomes_about(next.2, state.1[q].execution_id@) == outcomes_about(
            state.2,
            state.1[q].execution_id@,
        ) + if q >= next.1.len() {
            1nat
        } else {
            0nat
        },
        q < next.1.len() ==> held(next.0, state.1[q]),
{
    let (left, settled, call) = skim(state.0, freshness_limit, now, state.1);
    let admission = call->0;
    let outcome = renewal_outcome(admission, reply)->Ok_0;
    let id = state.1[q].execution_id@;
    law_next_call_loses_nothing(state.0, freshness_limit, now, state.1);
    lemma_settled_once(state.0, freshness_limit, now, state.1, q);
    lemma_outcomes_add(state.2, settled, id);
    lemma_outcomes_add(state.2 + settled, seq![outcome], id);
    lemma_one_outcome(outcome, id);
    assert(admission == state.1[left.len() as int]);
    assert(outcome_id(outcome) == admission.execution_id@);
}

/// One more state of a round: an admission that was passed over or asked about keeps its outcome.
proof fn lemma_round_keeps(
    freshness_limit: Option<Duration>,
    state: RoundState,
    now: UnixTime,
    reply: Result<SupervisedRenewal, Error>,
    next: RoundState,
    id: Seq<char>,
)
    requires
        round_after(freshness_limit, state, now, reply) == Some(next),
        forall|i: int| 0 <= i < state.1.len() ==> (#[trigger] state.1[i]).execution_id@ != id,
    ensures
        next.1.len() < state.1.len(),
        next.1 == state.1.take(next.1.len() as int),
        outcomes_about(next.2, id) == outcomes_about(state.2, id),
{
    let (left, settled, call) = skim(state.0, freshness_limit, now, state.1);
    let admission = call->0;
    let outcome = renewal_outcome(admission, reply)->Ok_0;
    law_next_call_loses_nothing(state.0, freshness_limit, now, state.1);
    lemma_none_settled(state.0, freshness_limit, now, state.1, id);
    lemma_outcomes_add(state.2, settled, id);
    lemma_outcomes_add(state.2 + settled, seq![outcome], id);
    lemma_one_outcome(outcome, id);
    assert(admission == state.1[left.len() as int]);
    assert(outcome_id(outcome) == admission.execution_id@);
}

proof fn lemma_round(
    freshness_limit: Option<Duration>,
    states: Seq<RoundState>,
    nows: Seq<UnixTime>,
    replies: Seq<Result<SupervisedRenewal, Error>>,
    k: int,
    q: int,
)
    requires
        renewal_round(freshness_limit, states, nows, replies),
        of_distinct_executions(states[0].1),
        0 <= k < states.len(),
        0 <= q < states[0].1.len(),
        held(states[0].0, states[0].1[q]),
    ensures
        ({
            let pending = states[0].1;
            let left = states[k].1;
            let about = outcomes_about(states[k].2, pending[q].execution_id@);
            &&& left.len() <= pending.len()
            &&& left == pending.take(left.len() as int)
            &&& of_distinct_executions(left)
            &&& q < left.len() ==> about == 0 && held(states[k].0, pending[q])
            &&& q >= left.len() ==> about == 1
        }),
    decreases k,
{
    let pending = states[0].1;
    let id = pending[q].execution_id@;
    if k == 0 {
        assert(pending.take(pending.len() as int) =~= pending);
        assert(outcomes_about(states[0].2, id) == 0);
    } else {
        lemma_round(freshness_limit, states, nows, replies, k - 1, q);
        let before = states[k - 1];
        let left = states[k].1;
        assert(round_after(freshness_limit, states[k - 1], nows[k - 1], replies[k - 1]) == Some(
            states[k - 1 + 1],
        ));
        if q < before.1.len() {
            assert(before.1[q] == pending[q]);
            lemma_round_step(freshness_limit, before, nows[k - 1], replies[k - 1], states[k], q);
        } else {
            assert forall|i: int| 0 <= i < before.1.len() implies (
            #[trigger] before.1[i]).execution_id@ != id by {
                assert(before.1[i] == pending[i]);
                assert(pending[i].execution_id@ != pending[q].execution_id@);
            }
            lemma_round_keeps(freshness_limit, before, nows[k - 1], replies[k - 1], states[k], id);
        }
        assert(left =~= pending.take(left.len() as int));
        assert forall|i: int, j: int| 0 <= i < j < left.len() implies (
        #[trigger] left[i]).execution_id@ != (#[trigger] left[j]).execution_id@ by {
            assert(left[i] == pending[i] && left[j] == pending[j]);
        }
    }
}

/// A round of renewals is complete: without a fault, every admission that it started with and that
/// was held then has exactly one outcome when no further call is due.
pub proof fn law_round_settles_every_admission_once(
    freshness_limit: Option<Duration>,
    states: Seq<RoundState>,
    nows: Seq<UnixTime>,
    replies: Seq<Result<SupervisedRenewal, Error>>,
    now: UnixTime,
    outcomes: Seq<RenewalOutcome>,
    q: int,
)
    requires
        renewal_round(freshness_limit, states, nows, replies),
        of_distinct_executions(states[0].1),
        round_done(freshness_limit, states.last(), now) == Some(outcomes),
        0 <= q < states[0].1.len(),
        held(states[0].0, states[0].1[q]),
    ensures
        outcomes_about(outcomes, states[0].1[q].execution_id@) == 1,
{
    let k = states.len() - 1;
    lemma_round(freshness_limit, states, nows, replies, k, q);
    let state = states[k];
    let pending = states[0].1;
    let id = pending[q].execution_id@;
    let (left, settled, call) = skim(state.0, freshness_limit, now, state.1);
    law_next_call_loses_nothing(state.0, freshness_limit, now, state.1);
    lemma_outcomes_add(state.2, settled, id);
    if q < state.1.len() {
        assert(state.1[q] == pending[q]);
        lemma_settled_once(state.0, freshness_limit, now, state.1, q);
    } else {
        assert forall|i: int| 0 <= i < state.1.len() implies (
        #[trigger] state.1[i]).execution_id@ != id by {
            assert(state.1[i] == pending[i]);
            assert(pending[i].execution_id@ != pending[q].execution_id@);
        }
        lemma_none_settled(state.0, freshness_limit, now, state.1, id);
    }
}

/// A loop that is to stop leaves, and any other renews; it takes admissions exactly while it is
/// neither to stop nor failed.
pub proof fn law_runner_goes_by_its_flags(runner: SupervisionRunner)
    ensures
        runner.shutting_down ==> runner.first_step() == HeartbeatStep::Exit && !runner.accepting(),
        !runner.shutting_down ==> runner.first_step() == HeartbeatStep::Renew,
        !runner.shutting_down && runner.fatal is None ==> runner.accepting(),
        runner.fatal is Some ==> !runner.accepting(),
{
}

/// After everything was given up nothing is supervised, no admission that was used up before is
/// free again, and each that was held is used up.
pub proof fn law_given_up_means_used_up(
    before: SupervisionRegistry,
    after: SupervisionRegistry,
    id: Seq<char>,
    generation: u64,
)
    requires
        given_up(before, after),
    ensures
        !after@.contains_key(id),
        before.consumed().contains(generation) ==> after.consumed().contains(generation),
        before@.contains_key(id) ==> after.consumed().contains(before@[id].admission.generation),
{
}

/// A reply notes one outcome of the batch, for the admission that was asked about, and takes none of
/// the pending ones; a fault of the store notes nothing and is handed on.
pub proof fn law_reply_settles_one_renewal(
    batch: RenewalBatch,
    admission: SupervisionAdmission,
    reply: Result<SupervisedRenewal, Error>,
    after: RenewalBatch,
    result: Result<(), SupervisionError>,
)
    requires
        batch.settles_to(admission, reply, after, result),
    ensures
        after.pending == batch.pending,
        result is Ok ==> after.outcomes@.len() == batch.outcomes@.len() + 1
            && after.outcomes@.drop_last() == batch.outcomes@ && outcome_id(after.outcomes@.last())
            == admission.execution_id@,
        result is Err ==> after == batch,
        reply matches Ok(SupervisedRenewal::Renewed(at)) ==> result is Ok && after.outcomes@.last()
            == (RenewalOutcome::Renewed {
            execution_id: admission.execution_id,
            new_expires_at: at,
        }),
        reply matches Ok(SupervisedRenewal::NotRunning) ==> result is Ok && after.outcomes@.last()
            == (RenewalOutcome::NoLongerRunning { execution_id: admission.execution_id }),
        reply matches Err(error) ==> (result is Ok <==> error is StaleAuthority
            || error is InvalidAuthority || error is NotFound),
        result is Err ==> reply is Err && result == Err::<(), SupervisionError>(
            SupervisionError::Fatal(reply->Err_0),
        ),
{
    if result is Ok {
        assert(after.outcomes@.drop_last() =~= batch.outcomes@);
    }
}

/// After a round the loop waits for its interval, unless it is to stop or the round faulted; then it
/// leaves.  The first fault is the one that is kept, and nothing that is supervised changes.
pub proof fn law_loop_waits_between_rounds(
    runner: SupervisionRunner,
    round: Result<(), SupervisionError>,
    after: SupervisionRunner,
    step: HeartbeatStep,
)
    requires
        runner.goes_on(round, after, step),
    ensures
        round is Ok && !runner.shutting_down ==> step == HeartbeatStep::Wait(
            runner.service.heartbeat_interval,
        ),
        round is Err || runner.shutting_down ==> step == HeartbeatStep::Exit,
        round is Ok ==> after == runner,
        round is Err && runner.fatal is None ==> after.fatal == Some(round->Err_0),
        runner.fatal is Some ==> after.fatal == runner.fatal,
        after.service == runner.service,
        after.shutting_down == runner.shutting_down,
{
}

/// A runner that has ended takes no admissions and reports its fault, or that its thread panicked;
/// without a panic nothing is supervised any more.
pub proof fn law_ended_runner_supervises_nothing(
    runner: SupervisionRunner,
    panicked: bool,
    after: SupervisionRunner,
    result: Result<(), SupervisionError>,
)
    requires
        runner.ends(panicked, after, result),
    ensures
        !after.accepting(),
        after.fatal == runner.fatal,
        panicked ==> (result matches Err(SupervisionError::Fatal(Error::InvariantViolation(m)))
            && m@ == "the supervision heartbeat thread panicked"@),
        !panicked ==> after.service.registry@ == Supervised::empty(),
        !panicked && runner.fatal is None ==> result == Ok::<(), SupervisionError>(()),
        !panicked && runner.fatal is Some ==> result == Err::<(), SupervisionError>(
            runner.fatal->0,
        ),
{
}

/// Giving everything up uses up no admission but those that were held.
pub proof fn law_giving_up_uses_up_no_other(
    before: SupervisionRegistry,
    after: SupervisionRegistry,
    generation: u64,
)
    requires
        given_up(before, after),
        after.consumed().contains(generation),
        !before.consumed().contains(generation),
    ensures
        exists|id: Seq<char>|
            before@.contains_key(id) && (#[trigger] before@[id]).admission.generation == generation,
{
}

} // verus!

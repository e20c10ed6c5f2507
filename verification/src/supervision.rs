//! Supervision: which executions this runtime may renew, and what a renewal leads to.
//!
//! Presence in the registry means one thing: this runtime intends to renew this admitted
//! authority.  The registry starts empty, is never restored from the store, and is entered only
//! through an admission.  The store decides whether a renewal succeeds.
use crate::dispatch::SupervisionAdmissionSeed;
use crate::domain::{AttemptId, Error, ExecutionId, LeaseEpoch, RequestId};
use crate::text::{join2, join3};
use crate::time::{Duration, Seconds, UnixTime};
use crate::timing::RuntimeTimingConfig;
use std::collections::HashSet;
use vstd::prelude::*;
use vstd::string::*;

verus! {

broadcast use vstd::std_specs::hash::group_hash_axioms;

/// Permission to supervise one execution, minted once for one confirmed RUNNING transaction.
#[derive(Debug, PartialEq, Eq)]
pub struct SupervisionAdmission {
    pub execution_id: ExecutionId,
    pub request_id: RequestId,
    pub attempt_id: AttemptId,
    pub lease_epoch: LeaseEpoch,
    /// Distinguishes this admission from every other one of this runtime.
    pub generation: u64,
}

/// The identity by which an observation refers to an admission.
pub type SupervisionIdentity = SupervisionAdmission;

impl Clone for SupervisionAdmission {
    fn clone(&self) -> (copy: Self)
        ensures
            copy == *self,
    {
        SupervisionAdmission {
            execution_id: self.execution_id.clone(),
            request_id: self.request_id.clone(),
            attempt_id: self.attempt_id.clone(),
            lease_epoch: self.lease_epoch,
            generation: self.generation,
        }
    }
}

impl SupervisionAdmission {
    /// Same execution, attempt, epoch and request.
    pub open spec fn same_authority(self, other: SupervisionAdmission) -> bool {
        &&& self.execution_id@ == other.execution_id@
        &&& self.attempt_id@ == other.attempt_id@
        &&& self.lease_epoch == other.lease_epoch
        &&& self.request_id@ == other.request_id@
    }

    pub fn same_identity(&self, other: &SupervisionAdmission) -> (same: bool)
        ensures
            same == self.same_authority(*other),
    {
        self.execution_id.same(&other.execution_id) && self.attempt_id.same(&other.attempt_id)
            && self.lease_epoch == other.lease_epoch && self.request_id.same(&other.request_id)
    }

    pub fn execution_id(&self) -> (id: &ExecutionId)
        ensures
            *id == self.execution_id,
    {
        &self.execution_id
    }

    pub fn request_id(&self) -> (id: &RequestId)
        ensures
            *id == self.request_id,
    {
        &self.request_id
    }

    pub fn attempt_id(&self) -> (id: &AttemptId)
        ensures
            *id == self.attempt_id,
    {
        &self.attempt_id
    }

    pub fn lease_epoch(&self) -> (epoch: LeaseEpoch)
        ensures
            epoch == self.lease_epoch,
    {
        self.lease_epoch
    }

    pub fn generation(&self) -> (generation: u64)
        ensures
            generation == self.generation,
    {
        self.generation
    }
}

/// Source of admissions.  Each mint takes the next generation.
#[derive(Debug)]
pub struct AdmissionMint {
    next: u64,
}

impl AdmissionMint {
    /// The generations from this one on have not been used.
    pub closed spec fn unused(self) -> u64 {
        self.next
    }

    pub fn new() -> (mint: Self)
        ensures
            mint.unused() == 0,
    {
        AdmissionMint { next: 0 }
    }

    /// Whether another admission can be minted.
    pub fn has_room(&self) -> (room: bool)
        ensures
            room == (self.unused() < u64::MAX),
    {
        self.next < u64::MAX
    }

    /// The admission that is minted for a grant, and the mint after it.
    pub open spec fn mints(
        self,
        grant: SupervisionAdmissionSeed,
        admission: SupervisionAdmission,
        after: AdmissionMint,
    ) -> bool {
        &&& admission == (SupervisionAdmission {
            execution_id: grant.execution_id,
            request_id: grant.request_id,
            attempt_id: grant.attempt_id,
            lease_epoch: grant.lease_epoch,
            generation: self.unused(),
        })
        &&& after.unused() == self.unused() + 1
    }

    /// The admission of a confirmed RUNNING transaction, with a generation never used before.
    pub fn mint(&mut self, grant: SupervisionAdmissionSeed) -> (admission: SupervisionAdmission)
        requires
            old(self).unused() < u64::MAX,
        ensures
            old(self).mints(grant, admission, *final(self)),
    {
        let generation: u64 = self.next;
        self.next = generation + 1;
        SupervisionAdmission {
            execution_id: grant.execution_id,
            request_id: grant.request_id,
            attempt_id: grant.attempt_id,
            lease_epoch: grant.lease_epoch,
            generation,
        }
    }
}

/// What one renewal came to.
#[derive(Debug, PartialEq, Eq)]
pub enum RenewalOutcome {
    /// The lease runs on.
    Renewed { execution_id: ExecutionId, new_expires_at: UnixTime },
    /// The store rejected the authority.  That is no proof that the execution stopped.
    AuthorityLost { execution_id: ExecutionId },
    /// The authority holds, but the execution is not RUNNING any more.
    NoLongerRunning { execution_id: ExecutionId },
    /// The execution was not seen running recently enough to be renewed.  It stays supervised.
    FreshnessStale { execution_id: ExecutionId },
}

/// What the store replies to a renewal.
#[derive(Debug, Clone, Copy, PartialEq, Eq, Structural)]
pub enum SupervisedRenewal {
    Renewed(UnixTime),
    NotRunning,
}

/// Failures of supervision.
#[derive(Debug, PartialEq, Eq)]
pub enum SupervisionError {
    /// The admission was used up: its execution left supervision.
    AdmissionConsumed,
    /// The execution is supervised under another attempt, epoch or request.
    AdmissionIdentityConflict,
    NoSuchEntry,
    /// The configured lease is not the store's lease.
    LeaseAuthorityMismatch { configured: Seconds, kernel: Seconds },
    /// The runner stopped or failed, and takes no admissions.
    RunnerStopped(String),
    /// The store failed.  Never ordinary loss of authority.
    Fatal(Error),
}

impl Clone for SupervisionError {
    fn clone(&self) -> (copy: Self)
        ensures
            copy == *self,
    {
        match self {
            SupervisionError::AdmissionConsumed => SupervisionError::AdmissionConsumed,
            SupervisionError::AdmissionIdentityConflict => {
                SupervisionError::AdmissionIdentityConflict
            },
            SupervisionError::NoSuchEntry => SupervisionError::NoSuchEntry,
            SupervisionError::LeaseAuthorityMismatch { configured, kernel } => {
                SupervisionError::LeaseAuthorityMismatch {
                    configured: *configured,
                    kernel: *kernel,
                }
            },
            SupervisionError::RunnerStopped(m) => SupervisionError::RunnerStopped(m.clone()),
            SupervisionError::Fatal(e) => SupervisionError::Fatal(e.clone()),
        }
    }
}

impl SupervisionError {
    /// The diagnostic, with the two leases as the caller writes them.
    pub open spec fn detail(self, configured: Seq<char>, kernel: Seq<char>) -> Seq<char> {
        match self {
            SupervisionError::AdmissionConsumed => {
                "supervision admission token was already consumed"@
            },
            SupervisionError::AdmissionIdentityConflict => {
                "supervision admission identity conflicts with the existing entry"@
            },
            SupervisionError::NoSuchEntry => "no supervision entry for this execution"@,
            SupervisionError::LeaseAuthorityMismatch { .. } => "configured lease_seconds ("@
                + configured + ") does not match the Kernel lease authority ("@ + kernel + ")"@,
            SupervisionError::RunnerStopped(m) => "supervision runner is not running: "@ + m@,
            SupervisionError::Fatal(e) => "fatal supervision persistence fault: "@ + e.detail(),
        }
    }

    pub fn message(&self, configured: &str, kernel: &str) -> (text: String)
        ensures
            text@ == self.detail(configured@, kernel@),
    {
        match self {
            SupervisionError::AdmissionConsumed => {
                "supervision admission token was already consumed".to_string()
            },
            SupervisionError::AdmissionIdentityConflict => {
                "supervision admission identity conflicts with the existing entry".to_string()
            },
            SupervisionError::NoSuchEntry => "no supervision entry for this execution".to_string(),
            SupervisionError::LeaseAuthorityMismatch { .. } => join3(
                "configured lease_seconds (",
                configured,
                ") does not match the Kernel lease authority (",
            ).concat(kernel).concat(")"),
            SupervisionError::RunnerStopped(m) => join2(
                "supervision runner is not running: ",
                m.as_str(),
            ),
            SupervisionError::Fatal(e) => join2("fatal supervision persistence fault: ", e.message()),
        }
    }
}

/// One supervised execution.
#[derive(Debug, PartialEq, Eq)]
pub struct SupervisedExecution {
    pub admission: SupervisionAdmission,
    pub last_renewal_at: UnixTime,
    /// When the execution was last seen running.
    pub last_positive_observed_at: UnixTime,
    pub renewal_eligible: bool,
}

/// What an observer sees of a supervised execution.
#[derive(Debug, PartialEq, Eq)]
pub struct ObservationSnapshot {
    pub identity: SupervisionIdentity,
    pub last_positive_observed_at: UnixTime,
    pub renewal_eligible: bool,
}

/// The supervised executions, by execution.
pub type Supervised = Map<Seq<char>, SupervisedExecution>;

/// The executions that this runtime supervises, and the generations that are used up.
pub struct SupervisionRegistry {
    entries: Vec<SupervisedExecution>,
    consumed_generations: HashSet<u64>,
}

spec fn id_of(entry: SupervisedExecution) -> Seq<char> {
    entry.admission.execution_id@
}

spec fn distinct(entries: Seq<SupervisedExecution>) -> bool {
    forall|i: int, j: int|
        0 <= i < j < entries.len() ==> id_of(#[trigger] entries[i]) != id_of(#[trigger] entries[j])
}

spec fn as_map(entries: Seq<SupervisedExecution>) -> Supervised
    decreases entries.len(),
{
    if entries.len() == 0 {
        Map::empty()
    } else {
        as_map(entries.drop_last()).insert(id_of(entries.last()), entries.last())
    }
}

proof fn lemma_map(entries: Seq<SupervisedExecution>)
    requires
        distinct(entries),
    ensures
        as_map(entries).dom().finite(),
        as_map(entries).len() == entries.len(),
        forall|i: int|
            0 <= i < entries.len() ==> as_map(entries).contains_key(id_of(#[trigger] entries[i]))
                && as_map(entries)[id_of(entries[i])] == entries[i],
        forall|id: Seq<char>| #[trigger]
            as_map(entries).contains_key(id) ==> exists|i: int|
                0 <= i < entries.len() && id_of(#[trigger] entries[i]) == id,
    decreases entries.len(),
{
    if entries.len() > 0 {
        let rest = entries.drop_last();
        let last = entries.last();
        assert forall|i: int, j: int| 0 <= i < j < rest.len() implies id_of(#[trigger] rest[i])
            != id_of(#[trigger] rest[j]) by {
            assert(id_of(entries[i]) != id_of(entries[j]));
        }
        lemma_map(rest);
        assert(!as_map(rest).contains_key(id_of(last))) by {
            if as_map(rest).contains_key(id_of(last)) {
                let i = choose|i: int|
                    0 <= i < rest.len() && id_of(#[trigger] rest[i]) == id_of(last);
                assert(id_of(entries[i]) != id_of(entries[entries.len() - 1]));
            }
        }
        assert forall|i: int| 0 <= i < entries.len() implies as_map(entries).contains_key(
            id_of(#[trigger] entries[i]),
        ) && as_map(entries)[id_of(entries[i])] == entries[i] by {
            if i < rest.len() {
                assert(rest[i] == entries[i]);
                assert(id_of(entries[i]) != id_of(entries[entries.len() - 1]));
            }
        }
        assert forall|id: Seq<char>| #[trigger] as_map(entries).contains_key(id) implies exists|
            i: int,
        | 0 <= i < entries.len() && id_of(#[trigger] entries[i]) == id by {
            if id == id_of(last) {
                assert(id_of(entries[entries.len() - 1]) == id);
            } else {
                let i = choose|i: int| 0 <= i < rest.len() && id_of(#[trigger] rest[i]) == id;
                assert(id_of(entries[i]) == id);
            }
        }
    }
}

/// Two lists with distinct executions and the same members make the same map.
proof fn lemma_update(entries: Seq<SupervisedExecution>, at: int, entry: SupervisedExecution)
    requires
        distinct(entries),
        0 <= at < entries.len(),
        id_of(entry) == id_of(entries[at]),
    ensures
        distinct(entries.update(at, entry)),
        as_map(entries.update(at, entry)) == as_map(entries).insert(id_of(entry), entry),
{
    let after = entries.update(at, entry);
    assert forall|i: int, j: int| 0 <= i < j < after.len() implies id_of(#[trigger] after[i])
        != id_of(#[trigger] after[j]) by {
        assert(id_of(entries[i]) != id_of(entries[j]));
    }
    lemma_map(entries);
    lemma_map(after);
    let expected = as_map(entries).insert(id_of(entry), entry);
    assert forall|id: Seq<char>| as_map(after).contains_key(id) == expected.contains_key(id) by {
        if as_map(after).contains_key(id) {
            let i = choose|i: int| 0 <= i < after.len() && id_of(#[trigger] after[i]) == id;
            assert(id_of(entries[i]) == id);
        }
        if expected.contains_key(id) {
            if id == id_of(entry) {
                assert(id_of(after[at]) == id);
            } else {
                let i = choose|i: int| 0 <= i < entries.len() && id_of(#[trigger] entries[i]) == id;
                assert(id_of(after[i]) == id);
            }
        }
    }
    assert forall|id: Seq<char>| as_map(after).contains_key(id) implies as_map(after)[id]
        == expected[id] by {
        let i = choose|i: int| 0 <= i < after.len() && id_of(#[trigger] after[i]) == id;
        assert(as_map(after)[id_of(after[i])] == after[i]);
        if i != at {
            assert(as_map(entries)[id_of(entries[i])] == entries[i]);
            assert(id_of(entries[i]) != id_of(entries[at]));
        }
    }
    assert(as_map(after) =~= expected);
}

proof fn lemma_remove(entries: Seq<SupervisedExecution>, at: int)
    requires
        distinct(entries),
        0 <= at < entries.len(),
    ensures
        distinct(entries.remove(at)),
        as_map(entries.remove(at)) == as_map(entries).remove(id_of(entries[at])),
{
    let after = entries.remove(at);
    assert forall|i: int, j: int| 0 <= i < j < after.len() implies id_of(#[trigger] after[i])
        != id_of(#[trigger] after[j]) by {
        let a = if i < at { i } else { i + 1 };
        let b = if j < at { j } else { j + 1 };
        assert(id_of(entries[a]) != id_of(entries[b]));
    }
    lemma_map(entries);
    lemma_map(after);
    let expected = as_map(entries).remove(id_of(entries[at]));
    assert forall|id: Seq<char>| as_map(after).contains_key(id) == expected.contains_key(id) by {
        if as_map(after).contains_key(id) {
            let i = choose|i: int| 0 <= i < after.len() && id_of(#[trigger] after[i]) == id;
            let a = if i < at { i } else { i + 1 };
            assert(id_of(entries[a]) == id);
            assert(id_of(entries[a]) != id_of(entries[at]));
        }
        if expected.contains_key(id) {
            let i = choose|i: int| 0 <= i < entries.len() && id_of(#[trigger] entries[i]) == id;
            let b = if i < at { i } else { i - 1 };
            assert(id_of(after[b]) == id);
        }
    }
    assert forall|id: Seq<char>| as_map(after).contains_key(id) implies as_map(after)[id]
        == expected[id] by {
        let i = choose|i: int| 0 <= i < after.len() && id_of(#[trigger] after[i]) == id;
        let a = if i < at { i } else { i + 1 };
        assert(as_map(after)[id_of(after[i])] == after[i]);
        assert(as_map(entries)[id_of(entries[a])] == entries[a]);
    }
    assert(as_map(after) =~= expected);
}

/// The admission is the one that its execution is supervised under.
pub open spec fn is_current(supervised: Supervised, admission: SupervisionAdmission) -> bool {
    supervised.contains_key(admission.execution_id@)
        && supervised[admission.execution_id@].admission.generation == admission.generation
}

/// The registry after a renewal: the entry of a current admission notes the time.
pub open spec fn after_renewal(
    supervised: Supervised,
    admission: SupervisionAdmission,
    at: UnixTime,
) -> Supervised {
    let id = admission.execution_id@;
    if is_current(supervised, admission) {
        supervised.insert(id, (SupervisedExecution { last_renewal_at: at, ..supervised[id] }))
    } else {
        supervised
    }
}

/// The registry after an execution was seen running.
pub open spec fn after_refresh(
    supervised: Supervised,
    admission: SupervisionAdmission,
    at: UnixTime,
) -> Supervised {
    let id = admission.execution_id@;
    if is_current(supervised, admission) {
        supervised.insert(
            id,
            (SupervisedExecution {
                last_positive_observed_at: at,
                renewal_eligible: true,
                ..supervised[id]
            }),
        )
    } else {
        supervised
    }
}

/// The registry after renewal was stopped for an execution.
pub open spec fn after_stop(supervised: Supervised, admission: SupervisionAdmission) -> Supervised {
    let id = admission.execution_id@;
    if is_current(supervised, admission) {
        supervised.insert(id, (SupervisedExecution { renewal_eligible: false, ..supervised[id] }))
    } else {
        supervised
    }
}

/// The registry after ownership was dropped for a current admission.
pub open spec fn after_drop(supervised: Supervised, admission: SupervisionAdmission) -> Supervised {
    if is_current(supervised, admission) {
        supervised.remove(admission.execution_id@)
    } else {
        supervised
    }
}

/// The used-up generations after ownership was dropped for a current admission.
pub open spec fn consumed_after_drop(
    supervised: Supervised,
    consumed: Set<u64>,
    admission: SupervisionAdmission,
) -> Set<u64> {
    if is_current(supervised, admission) {
        consumed.insert(admission.generation)
    } else {
        consumed
    }
}

/// Some execution is supervised under this generation.
pub open spec fn supervises_generation(supervised: Supervised, generation: u64) -> bool {
    exists|id: Seq<char>|
        supervised.contains_key(id) && (#[trigger] supervised[id]).admission.generation
            == generation
}

/// A new entry, with the admission as its first sighting.
pub open spec fn fresh_entry(admission: SupervisionAdmission, now: UnixTime) -> SupervisedExecution {
    SupervisedExecution {
        admission,
        last_renewal_at: now,
        last_positive_observed_at: now,
        renewal_eligible: true,
    }
}

/// What taking an admission does to a registry.
pub open spec fn admitted(
    before: SupervisionRegistry,
    after: SupervisionRegistry,
    admission: SupervisionAdmission,
    now: UnixTime,
    result: Result<(), SupervisionError>,
) -> bool {
    let id = admission.execution_id@;
    &&& after.consumed() == before.consumed()
    &&& if before.consumed().contains(admission.generation) {
        result == Err::<(), SupervisionError>(SupervisionError::AdmissionConsumed) && after@
            == before@
    } else if !before@.contains_key(id) {
        result == Ok::<(), SupervisionError>(()) && after@ == before@.insert(
            id,
            fresh_entry(admission, now),
        )
    } else if before@[id].admission.same_authority(admission) {
        result == Ok::<(), SupervisionError>(()) && after@ == before@
    } else {
        result == Err::<(), SupervisionError>(SupervisionError::AdmissionIdentityConflict) && after@
            == before@
    }
}

impl View for SupervisionRegistry {
    type V = Supervised;

    closed spec fn view(&self) -> Supervised {
        as_map(self.entries@)
    }
}

impl SupervisionRegistry {
    /// No execution has two entries.
    pub closed spec fn wf(self) -> bool {
        distinct(self.entries@)
    }

    /// An entry is found under its own execution.
    pub proof fn lemma_keyed_by_execution(self, id: Seq<char>)
        requires
            self.wf(),
            self@.contains_key(id),
        ensures
            self@[id].admission.execution_id@ == id,
    {
        lemma_map(self.entries@);
        let i = choose|i: int| 0 <= i < self.entries@.len() && id_of(#[trigger] self.entries@[i]) == id;
        assert(self@[id_of(self.entries@[i])] == self.entries@[i]);
    }

    /// The generations that are used up.
    pub closed spec fn consumed(self) -> Set<u64> {
        self.consumed_generations@
    }

    pub fn new() -> (registry: Self)
        ensures
            registry.wf(),
            registry@ == Supervised::empty(),
            registry.consumed() == Set::<u64>::empty(),
    {
        SupervisionRegistry { entries: Vec::new(), consumed_generations: HashSet::new() }
    }

    fn position(&self, execution_id: &ExecutionId) -> (found: Option<usize>)
        requires
            self.wf(),
        ensures
            match found {
                Some(i) => i < self.entries@.len() && id_of(self.entries@[i as int])
                    == execution_id@ && self@.contains_key(execution_id@)
                    && self@[execution_id@] == self.entries@[i as int],
                None => !self@.contains_key(execution_id@),
            },
    {
        proof {
            lemma_map(self.entries@);
        }
        let mut i: usize = 0;
        while i < self.entries.len()
            invariant
                i <= self.entries@.len(),
                forall|j: int| 0 <= j < i ==> id_of(#[trigger] self.entries@[j]) != execution_id@,
                forall|j: int|
                    0 <= j < self.entries@.len() ==> self@.contains_key(
                        id_of(#[trigger] self.entries@[j]),
                    ) && self@[id_of(self.entries@[j])] == self.entries@[j],
            decreases self.entries.len() - i,
        {
            if self.entries[i].admission.execution_id.same(execution_id) {
                assert(id_of(self.entries@[i as int]) == execution_id@);
                return Some(i);
            }
            i += 1;
        }
        None
    }

    /// Takes an execution into supervision.
    ///
    /// A used-up admission is refused.  An execution that is supervised under the same authority
    /// stays as it is; under another authority it is a conflict.
    pub fn admit_execution(&mut self, admission: SupervisionAdmission, now: UnixTime) -> (result: Result<
        (),
        SupervisionError,
    >)
        requires
            old(self).wf(),
        ensures
            final(self).wf(),
            admitted(*old(self), *final(self), admission, now, result),
    {
        if self.consumed_generations.contains(&admission.generation) {
            return Err(SupervisionError::AdmissionConsumed);
        }
        match self.position(&admission.execution_id) {
            Some(i) => {
                if self.entries[i].admission.same_identity(&admission) {
                    Ok(())
                } else {
                    Err(SupervisionError::AdmissionIdentityConflict)
                }
            },
            None => {
                let ghost before = self.entries@;
                let entry = SupervisedExecution {
                    admission,
                    last_renewal_at: now,
                    last_positive_observed_at: now,
                    renewal_eligible: true,
                };
                proof {
                    lemma_map(before);
                    assert forall|i: int| 0 <= i < before.len() implies id_of(#[trigger] before[i])
                        != id_of(entry) by {
                        assert(self@.contains_key(id_of(before[i])));
                    }
                }
                self.entries.push(entry);
                proof {
                    assert(self.entries@.drop_last() =~= before);
                }
                Ok(())
            },
        }
    }

    /// The registry after an execution was given up.
    pub open spec fn removes_to(
        self,
        id: Seq<char>,
        after: SupervisionRegistry,
        result: Result<(), SupervisionError>,
    ) -> bool {
        if self@.contains_key(id) {
            result == Ok::<(), SupervisionError>(()) && after@ == self@.remove(id)
                && after.consumed() == self.consumed().insert(self@[id].admission.generation)
        } else {
            result == Err::<(), SupervisionError>(SupervisionError::NoSuchEntry) && after@ == self@
                && after.consumed() == self.consumed()
        }
    }

    /// Gives up an execution and uses up its admission.
    pub fn remove(&mut self, execution_id: &ExecutionId) -> (result: Result<(), SupervisionError>)
        requires
            old(self).wf(),
        ensures
            final(self).wf(),
            old(self).removes_to(execution_id@, *final(self), result),
    {
        match self.position(execution_id) {
            None => Err(SupervisionError::NoSuchEntry),
            Some(i) => {
                proof {
                    lemma_remove(self.entries@, i as int);
                }
                let entry = self.entries.remove(i);
                self.consumed_generations.insert(entry.admission.generation);
                Ok(())
            },
        }
    }

    /// Gives up every execution and uses up every admission.
    pub fn clear(&mut self)
        requires
            old(self).wf(),
        ensures
            final(self).wf(),
            final(self)@ == Supervised::empty(),
            forall|generation: u64| #[trigger]
                final(self).consumed().contains(generation) <==> old(self).consumed().contains(
                    generation,
                ) || supervises_generation(old(self)@, generation),
    {
        let ghost before = self.entries@;
        let ghost used = self.consumed_generations@;
        proof {
            lemma_map(before);
        }
        let mut i: usize = 0;
        while i < self.entries.len()
            invariant
                i <= self.entries@.len(),
                self.entries@ == before,
                forall|generation: u64| #[trigger]
                    self.consumed_generations@.contains(generation) <==> used.contains(generation)
                        || exists|j: int|
                        0 <= j < i && (#[trigger] before[j]).admission.generation == generation,
            decreases self.entries.len() - i,
        {
            let generation: u64 = self.entries[i].admission.generation;
            let ghost prior = self.consumed_generations@;
            self.consumed_generations.insert(generation);
            proof {
                assert forall|g: u64| #[trigger]
                    self.consumed_generations@.contains(g) <==> used.contains(g) || exists|j: int|
                        0 <= j < i + 1 && (#[trigger] before[j]).admission.generation == g by {
                    assert(self.consumed_generations@.contains(g) <==> prior.contains(g) || g
                        == generation);
                    if g == generation {
                        assert(before[i as int].admission.generation == g);
                    }
                    if prior.contains(g) && !used.contains(g) {
                        let j = choose|j: int|
                            0 <= j < i && (#[trigger] before[j]).admission.generation == g;
                        assert(0 <= j < i + 1 && before[j].admission.generation == g);
                    }
                }
            }
            i += 1;
        }
        self.entries.clear();
        proof {
            let map = as_map(before);
            assert forall|g: u64| #[trigger]
                self.consumed().contains(g) <==> used.contains(g) || supervises_generation(map, g) by {
                assert(self.consumed_generations@.contains(g) <==> used.contains(g) || exists|
                    j: int,
                |
                    0 <= j < before.len() && (#[trigger] before[j]).admission.generation == g);
                if exists|j: int|
                    0 <= j < before.len() && (#[trigger] before[j]).admission.generation == g {
                    let j = choose|j: int|
                        0 <= j < before.len() && (#[trigger] before[j]).admission.generation == g;
                    assert(map[id_of(before[j])] == before[j]);
                }
                if supervises_generation(map, g) {
                    let id = choose|id: Seq<char>|
                        map.contains_key(id) && (#[trigger] map[id]).admission.generation == g;
                    let j = choose|j: int|
                        0 <= j < before.len() && id_of(#[trigger] before[j]) == id;
                    assert(map[id_of(before[j])] == before[j]);
                }
            }
        }
    }

    pub fn contains(&self, execution_id: &ExecutionId) -> (found: bool)
        requires
            self.wf(),
        ensures
            found == self@.contains_key(execution_id@),
    {
        self.position(execution_id).is_some()
    }

    pub fn active_count(&self) -> (count: usize)
        requires
            self.wf(),
        ensures
            count == self@.len(),
    {
        proof {
            lemma_map(self.entries@);
        }
        self.entries.len()
    }

    pub fn is_empty(&self) -> (empty: bool)
        requires
            self.wf(),
        ensures
            empty == (self@ == Supervised::empty()),
    {
        proof {
            lemma_map(self.entries@);
            if self.entries@.len() == 0 {
                assert(as_map(self.entries@) =~= Supervised::empty());
            } else {
                assert(self@.contains_key(id_of(self.entries@[0])));
            }
        }
        self.entries.len() == 0
    }

    /// The entry of an execution.
    pub fn entry(&self, execution_id: &ExecutionId) -> (entry: Option<&SupervisedExecution>)
        requires
            self.wf(),
        ensures
            match entry {
                Some(found) => self@.contains_key(execution_id@) && *found == self@[execution_id@],
                None => !self@.contains_key(execution_id@),
            },
    {
        match self.position(execution_id) {
            Some(i) => Some(&self.entries[i]),
            None => None,
        }
    }

    /// The admission of an execution.
    pub fn entry_admission(&self, execution_id: &ExecutionId) -> (admission: Option<
        SupervisionAdmission,
    >)
        requires
            self.wf(),
        ensures
            match admission {
                Some(found) => self@.contains_key(execution_id@) && found
                    == self@[execution_id@].admission,
                None => !self@.contains_key(execution_id@),
            },
    {
        match self.position(execution_id) {
            Some(i) => Some(self.entries[i].admission.clone()),
            None => None,
        }
    }

    /// The admissions whose last renewal lies an interval back: each of them once, and no others.
    pub fn due(&self, now: UnixTime, interval: Duration) -> (due: Vec<SupervisionAdmission>)
        requires
            self.wf(),
        ensures
            forall|i: int|
                0 <= i < due@.len() ==> {
                    let id = (#[trigger] due@[i]).execution_id@;
                    self@.contains_key(id) && self@[id].admission == due@[i] && now.reached(
                        self@[id].last_renewal_at,
                        interval,
                    )
                },
            forall|id: Seq<char>|
                self@.contains_key(id) && now.reached(
                    (#[trigger] self@[id]).last_renewal_at,
                    interval,
                ) ==> due@.contains(self@[id].admission),
            forall|i: int, j: int|
                0 <= i < j < due@.len() ==> (#[trigger] due@[i]).execution_id@ != (
                #[trigger] due@[j]).execution_id@,
    {
        proof {
            lemma_map(self.entries@);
        }
        let mut due: Vec<SupervisionAdmission> = Vec::new();
        let mut from: Ghost<Seq<int>> = Ghost(Seq::empty());
        let mut i: usize = 0;
        while i < self.entries.len()
            invariant
                i <= self.entries@.len(),
                self.wf(),
                from@.len() == due@.len(),
                forall|k: int|
                    0 <= k < from@.len() ==> 0 <= #[trigger] from@[k] < i && due@[k]
                        == self.entries@[from@[k]].admission && now.reached(
                        self.entries@[from@[k]].last_renewal_at,
                        interval,
                    ),
                forall|k: int, l: int| 0 <= k < l < from@.len() ==> from@[k] < from@[l],
                forall|j: int|
                    0 <= j < i && now.reached(
                        (#[trigger] self.entries@[j]).last_renewal_at,
                        interval,
                    ) ==> due@.contains(self.entries@[j].admission),
            decreases self.entries.len() - i,
        {
            if now.has_reached(self.entries[i].last_renewal_at, interval) {
                let ghost before = due@;
                due.push(self.entries[i].admission.clone());
                proof {
                    from@ = from@.push(i as int);
                    assert forall|a: SupervisionAdmission| before.contains(a) implies due@.contains(
                        a,
                    ) by {
                        let k = choose|k: int| 0 <= k < before.len() && before[k] == a;
                        assert(due@[k] == a);
                    }
                    assert(due@[due@.len() - 1] == self.entries@[i as int].admission);
                }
            }
            i += 1;
        }
        proof {
            assert forall|k: int, l: int| 0 <= k < l < due@.len() implies (
            #[trigger] due@[k]).execution_id@ != (#[trigger] due@[l]).execution_id@ by {
                assert(from@[k] < from@[l]);
                assert(id_of(self.entries@[from@[k]]) != id_of(self.entries@[from@[l]]));
            }
            assert forall|k: int| 0 <= k < due@.len() implies ({
                let id = (#[trigger] due@[k]).execution_id@;
                self@.contains_key(id) && self@[id].admission == due@[k] && now.reached(
                    self@[id].last_renewal_at,
                    interval,
                )
            }) by {
                let j = from@[k];
                assert(self@[id_of(self.entries@[j])] == self.entries@[j]);
            }
            assert forall|id: Seq<char>|
                self@.contains_key(id) && now.reached(
                    (#[trigger] self@[id]).last_renewal_at,
                    interval,
                ) implies due@.contains(self@[id].admission) by {
                let j = choose|j: int|
                    0 <= j < self.entries@.len() && id_of(#[trigger] self.entries@[j]) == id;
                assert(self@[id_of(self.entries@[j])] == self.entries@[j]);
            }
        }
        due
    }

    fn current_position(&self, admission: &SupervisionAdmission) -> (found: Option<usize>)
        requires
            self.wf(),
        ensures
            match found {
                Some(i) => i < self.entries@.len() && id_of(self.entries@[i as int])
                    == admission.execution_id@ && is_current(self@, *admission)
                    && self@[admission.execution_id@] == self.entries@[i as int],
                None => !is_current(self@, *admission),
            },
    {
        match self.position(&admission.execution_id) {
            Some(i) => {
                if self.entries[i].admission.generation == admission.generation {
                    Some(i)
                } else {
                    None
                }
            },
            None => None,
        }
    }

    /// Replaces the entry at a position by one of the same execution.
    fn replace(&mut self, at: usize, entry: SupervisedExecution)
        requires
            old(self).wf(),
            at < old(self).entries@.len(),
            id_of(entry) == id_of(old(self).entries@[at as int]),
        ensures
            final(self).wf(),
            final(self)@ == old(self)@.insert(id_of(entry), entry),
            final(self).consumed() == old(self).consumed(),
    {
        proof {
            lemma_update(self.entries@, at as int, entry);
        }
        self.entries.set(at, entry);
    }

    /// Notes a successful renewal, if the admission is still current.
    pub fn record_renewal(&mut self, admission: &SupervisionAdmission, at: UnixTime)
        requires
            old(self).wf(),
        ensures
            final(self).wf(),
            final(self)@ == after_renewal(old(self)@, *admission, at),
            final(self).consumed() == old(self).consumed(),
    {
        if let Some(i) = self.current_position(admission) {
            let entry = SupervisedExecution {
                admission: self.entries[i].admission.clone(),
                last_renewal_at: at,
                last_positive_observed_at: self.entries[i].last_positive_observed_at,
                renewal_eligible: self.entries[i].renewal_eligible,
            };
            self.replace(i, entry);
        }
    }

    /// Notes that the execution was seen running, if the admission is still current.
    pub fn refresh_freshness(&mut self, admission: &SupervisionAdmission, at: UnixTime)
        requires
            old(self).wf(),
        ensures
            final(self).wf(),
            final(self)@ == after_refresh(old(self)@, *admission, at),
            final(self).consumed() == old(self).consumed(),
    {
        if let Some(i) = self.current_position(admission) {
            let entry = SupervisedExecution {
                admission: self.entries[i].admission.clone(),
                last_renewal_at: self.entries[i].last_renewal_at,
                last_positive_observed_at: at,
                renewal_eligible: true,
            };
            self.replace(i, entry);
        }
    }

    /// Stops renewal of the execution, if the admission is still current.
    pub fn stop_renewal_eligibility(&mut self, admission: &SupervisionAdmission)
        requires
            old(self).wf(),
        ensures
            final(self).wf(),
            final(self)@ == after_stop(old(self)@, *admission),
            final(self).consumed() == old(self).consumed(),
    {
        if let Some(i) = self.current_position(admission) {
            let entry = SupervisedExecution {
                admission: self.entries[i].admission.clone(),
                last_renewal_at: self.entries[i].last_renewal_at,
                last_positive_observed_at: self.entries[i].last_positive_observed_at,
                renewal_eligible: false,
            };
            self.replace(i, entry);
        }
    }

    /// Gives up the execution and uses up the admission, if it is still current.
    pub fn remove_if_current(&mut self, admission: &SupervisionAdmission)
        requires
            old(self).wf(),
        ensures
            final(self).wf(),
            final(self)@ == after_drop(old(self)@, *admission),
            final(self).consumed() == consumed_after_drop(
                old(self)@,
                old(self).consumed(),
                *admission,
            ),
    {
        if let Some(i) = self.current_position(admission) {
            proof {
                lemma_remove(self.entries@, i as int);
            }
            self.entries.remove(i);
            self.consumed_generations.insert(admission.generation);
        }
    }

    /// Whether the admission is the one that its execution is supervised under.
    pub fn generation_current(&self, admission: &SupervisionAdmission) -> (current: bool)
        requires
            self.wf(),
        ensures
            current == is_current(self@, *admission),
    {
        self.current_position(admission).is_some()
    }

    /// What an observer sees: each supervised execution once, and nothing else.
    pub fn observation_snapshots(&self) -> (snapshots: Vec<ObservationSnapshot>)
        requires
            self.wf(),
        ensures
            snapshots@.len() == self@.len(),
            forall|i: int|
                0 <= i < snapshots@.len() ==> {
                    let snapshot = #[trigger] snapshots@[i];
                    let id = snapshot.identity.execution_id@;
                    self@.contains_key(id) && snapshot.identity == self@[id].admission
                        && snapshot.last_positive_observed_at == self@[id].last_positive_observed_at
                        && snapshot.renewal_eligible == self@[id].renewal_eligible
                },
            forall|i: int, j: int|
                0 <= i < j < snapshots@.len() ==> (#[trigger] snapshots@[i]).identity.execution_id@
                    != (#[trigger] snapshots@[j]).identity.execution_id@,
            forall|id: Seq<char>| #[trigger]
                self@.contains_key(id) ==> exists|i: int|
                    0 <= i < snapshots@.len() && (
                    #[trigger] snapshots@[i]).identity.execution_id@ == id,
    {
        proof {
            lemma_map(self.entries@);
        }
        let mut snapshots: Vec<ObservationSnapshot> = Vec::new();
        let mut i: usize = 0;
        while i < self.entries.len()
            invariant
                i <= self.entries@.len(),
                snapshots@.len() == i,
                forall|j: int|
                    0 <= j < i ==> (#[trigger] snapshots@[j]).identity == self.entries@[j].admission
                        && snapshots@[j].last_positive_observed_at
                        == self.entries@[j].last_positive_observed_at
                        && snapshots@[j].renewal_eligible == self.entries@[j].renewal_eligible,
            decreases self.entries.len() - i,
        {
            snapshots.push(
                ObservationSnapshot {
                    identity: self.entries[i].admission.clone(),
                    last_positive_observed_at: self.entries[i].last_positive_observed_at,
                    renewal_eligible: self.entries[i].renewal_eligible,
                },
            );
            i += 1;
        }
        proof {
            assert forall|j: int| 0 <= j < snapshots@.len() implies ({
                let snapshot = #[trigger] snapshots@[j];
                let id = snapshot.identity.execution_id@;
                self@.contains_key(id) && snapshot.identity == self@[id].admission
                    && snapshot.last_positive_observed_at == self@[id].last_positive_observed_at
                    && snapshot.renewal_eligible == self@[id].renewal_eligible
            }) by {
                assert(self@[id_of(self.entries@[j])] == self.entries@[j]);
            }
            assert forall|j: int, k: int| 0 <= j < k < snapshots@.len() implies (
            #[trigger] snapshots@[j]).identity.execution_id@ != (
            #[trigger] snapshots@[k]).identity.execution_id@ by {
                assert(id_of(self.entries@[j]) != id_of(self.entries@[k]));
            }
            assert forall|id: Seq<char>| #[trigger] self@.contains_key(id) implies exists|j: int|
                0 <= j < snapshots@.len() && (#[trigger] snapshots@[j]).identity.execution_id@
                    == id by {
                let j = choose|j: int|
                    0 <= j < self.entries@.len() && id_of(#[trigger] self.entries@[j]) == id;
                assert(snapshots@[j].identity.execution_id@ == id);
            }
        }
        snapshots
    }
}

// ---------------------------------------------------------------------------------------------
// Laws
// ---------------------------------------------------------------------------------------------

/// An admission is current exactly if its execution is supervised under its generation.
pub proof fn law_current_means_same_generation(
    supervised: Supervised,
    admission: SupervisionAdmission,
)
    ensures
        !supervised.contains_key(admission.execution_id@) ==> !is_current(supervised, admission),
        supervised.contains_key(admission.execution_id@) ==> (is_current(supervised, admission)
            <==> supervised[admission.execution_id@].admission.generation == admission.generation),
{
}

/// Taking an admission: one that was used up is refused; an execution that is not supervised is
/// taken in under it, seen and renewed now and open for renewal, and no other execution changes; an
/// execution that is supervised stays as it is, without an error where execution, attempt, epoch
/// and request are the same and as a conflict where one of them differs.
pub proof fn law_admissions_are_taken_once(
    before: SupervisionRegistry,
    after: SupervisionRegistry,
    admission: SupervisionAdmission,
    now: UnixTime,
    result: Result<(), SupervisionError>,
)
    requires
        admitted(before, after, admission, now, result),
    ensures
        ({
            let id = admission.execution_id@;
            let used = before.consumed().contains(admission.generation);
            let known = before@.contains_key(id);
            let holder = before@[id].admission;
            let same = holder.execution_id@ == admission.execution_id@ && holder.attempt_id@
                == admission.attempt_id@ && holder.request_id@ == admission.request_id@
                && holder.lease_epoch == admission.lease_epoch;
            &&& after.consumed() == before.consumed()
            &&& used ==> result == Err::<(), SupervisionError>(SupervisionError::AdmissionConsumed)
            &&& !used && known && same ==> result == Ok::<(), SupervisionError>(())
            &&& !used && known && !same ==> result == Err::<(), SupervisionError>(
                SupervisionError::AdmissionIdentityConflict,
            )
            &&& used || known ==> after@ == before@
            &&& !used && !known ==> {
                &&& result == Ok::<(), SupervisionError>(())
                &&& after@.contains_key(id)
                &&& after@[id].admission == admission
                &&& after@[id].last_renewal_at == now
                &&& after@[id].last_positive_observed_at == now
                &&& after@[id].renewal_eligible
                &&& after@.remove(id) == before@
            }
        }),
{
    let id = admission.execution_id@;
    if !before.consumed().contains(admission.generation) && !before@.contains_key(id) {
        assert(after@.remove(id) =~= before@);
    }
}

/// What is noted of a current admission is noted in its entry and nowhere else: a renewal changes
/// its time, a sighting changes its time and opens renewal, and a stop closes renewal.
pub proof fn law_notes_change_one_entry(
    supervised: Supervised,
    admission: SupervisionAdmission,
    at: UnixTime,
)
    requires
        is_current(supervised, admission),
    ensures
        ({
            let id = admission.execution_id@;
            let entry = supervised[id];
            &&& after_renewal(supervised, admission, at)[id] == (SupervisedExecution {
                admission: entry.admission,
                last_renewal_at: at,
                last_positive_observed_at: entry.last_positive_observed_at,
                renewal_eligible: entry.renewal_eligible,
            })
            &&& after_refresh(supervised, admission, at)[id] == (SupervisedExecution {
                admission: entry.admission,
                last_renewal_at: entry.last_renewal_at,
                last_positive_observed_at: at,
                renewal_eligible: true,
            })
            &&& after_stop(supervised, admission)[id] == (SupervisedExecution {
                admission: entry.admission,
                last_renewal_at: entry.last_renewal_at,
                last_positive_observed_at: entry.last_positive_observed_at,
                renewal_eligible: false,
            })
            &&& after_renewal(supervised, admission, at).remove(id) == supervised.remove(id)
            &&& after_refresh(supervised, admission, at).remove(id) == supervised.remove(id)
            &&& after_stop(supervised, admission).remove(id) == supervised.remove(id)
            &&& after_renewal(supervised, admission, at).contains_key(id)
            &&& after_refresh(supervised, admission, at).contains_key(id)
            &&& after_stop(supervised, admission).contains_key(id)
        }),
{
    let id = admission.execution_id@;
    assert(after_renewal(supervised, admission, at).remove(id) =~= supervised.remove(id));
    assert(after_refresh(supervised, admission, at).remove(id) =~= supervised.remove(id));
    assert(after_stop(supervised, admission).remove(id) =~= supervised.remove(id));
}

/// A current admission that is dropped takes its execution, and no other, out of supervision, and
/// is used up.
pub proof fn law_dropped_admission_is_used_up(
    supervised: Supervised,
    consumed: Set<u64>,
    admission: SupervisionAdmission,
)
    requires
        is_current(supervised, admission),
    ensures
        after_drop(supervised, admission) == supervised.remove(admission.execution_id@),
        consumed_after_drop(supervised, consumed, admission) == consumed.insert(
            admission.generation,
        ),
{
}

/// Nothing is noted of an admission that is not current.
pub proof fn law_outdated_admission_changes_nothing(
    supervised: Supervised,
    consumed: Set<u64>,
    admission: SupervisionAdmission,
    at: UnixTime,
)
    requires
        !is_current(supervised, admission),
    ensures
        after_renewal(supervised, admission, at) == supervised,
        after_refresh(supervised, admission, at) == supervised,
        after_stop(supervised, admission) == supervised,
        after_drop(supervised, admission) == supervised,
        consumed_after_drop(supervised, consumed, admission) == consumed,
{
}

/// The texts of the errors of supervision.
pub proof fn law_supervision_errors_are_told(
    configured: Seconds,
    kernel: Seconds,
    first: Seq<char>,
    second: Seq<char>,
    text: String,
    error: Error,
)
    ensures
        SupervisionError::AdmissionConsumed.detail(first, second)
            == "supervision admission token was already consumed"@,
        SupervisionError::AdmissionIdentityConflict.detail(first, second)
            == "supervision admission identity conflicts with the existing entry"@,
        SupervisionError::NoSuchEntry.detail(first, second)
            == "no supervision entry for this execution"@,
        (SupervisionError::LeaseAuthorityMismatch { configured, kernel }).detail(first, second)
            == "configured lease_seconds ("@ + first
            + ") does not match the Kernel lease authority ("@ + second + ")"@,
        SupervisionError::RunnerStopped(text).detail(first, second)
            == "supervision runner is not running: "@ + text@,
        SupervisionError::Fatal(error).detail(first, second)
            == "fatal supervision persistence fault: "@ + error.detail(),
{
}

/// An admission is minted for the identity of its grant, with the generation just before those that
/// are unused after it.
pub proof fn law_admission_is_of_its_grant(
    mint: AdmissionMint,
    grant: SupervisionAdmissionSeed,
    admission: SupervisionAdmission,
    after: AdmissionMint,
)
    requires
        mint.mints(grant, admission, after),
    ensures
        admission.execution_id == grant.execution_id,
        admission.request_id == grant.request_id,
        admission.attempt_id == grant.attempt_id,
        admission.lease_epoch == grant.lease_epoch,
        after.unused() == admission.generation + 1,
{
}

proof fn lemma_mint_grows(
    mints: Seq<AdmissionMint>,
    grants: Seq<SupervisionAdmissionSeed>,
    admissions: Seq<SupervisionAdmission>,
    i: int,
    j: int,
)
    requires
        minting(mints, grants, admissions),
        0 <= i <= j <= admissions.len(),
    ensures
        mints[i].unused() + (j - i) <= mints[j].unused(),
    decreases j - i,
{
    if i < j {
        lemma_mint_grows(mints, grants, admissions, i, j - 1);
        assert(mints[j - 1].mints(grants[j - 1], admissions[j - 1], mints[j - 1 + 1]));
    }
}

/// A mint and the admissions that come out of it.
pub open spec fn minting(
    mints: Seq<AdmissionMint>,
    grants: Seq<SupervisionAdmissionSeed>,
    admissions: Seq<SupervisionAdmission>,
) -> bool {
    &&& mints.len() == admissions.len() + 1
    &&& grants.len() == admissions.len()
    &&& forall|k: int|
        0 <= k < admissions.len() ==> (#[trigger] mints[k]).mints(
            grants[k],
            admissions[k],
            mints[k + 1],
        )
}

/// No two admissions of one mint have the same generation: later ones have greater ones.
pub proof fn law_generations_are_never_used_twice(
    mints: Seq<AdmissionMint>,
    grants: Seq<SupervisionAdmissionSeed>,
    admissions: Seq<SupervisionAdmission>,
    i: int,
    j: int,
)
    requires
        minting(mints, grants, admissions),
        0 <= i < j < admissions.len(),
    ensures
        admissions[i].generation < admissions[j].generation,
{
    lemma_mint_grows(mints, grants, admissions, i, j);
    assert(mints[i].mints(grants[i], admissions[i], mints[i + 1]));
    assert(mints[j].mints(grants[j], admissions[j], mints[j + 1]));
}

/// An execution that is given up leaves supervision, and the admission that it was supervised under
/// is refused from then on; one that is not supervised cannot be given up, and nothing changes.
pub proof fn law_removed_execution_cannot_be_readmitted(
    before: SupervisionRegistry,
    id: Seq<char>,
    after: SupervisionRegistry,
    result: Result<(), SupervisionError>,
    later: SupervisionRegistry,
    now: UnixTime,
    readmitted: Result<(), SupervisionError>,
)
    requires
        before.removes_to(id, after, result),
        admitted(after, later, before@[id].admission, now, readmitted),
    ensures
        before@.contains_key(id) ==> {
            &&& result == Ok::<(), SupervisionError>(())
            &&& !after@.contains_key(id)
            &&& after@ == before@.remove(id)
            &&& readmitted == Err::<(), SupervisionError>(SupervisionError::AdmissionConsumed)
        },
        !before@.contains_key(id) ==> {
            &&& result == Err::<(), SupervisionError>(SupervisionError::NoSuchEntry)
            &&& after@ == before@
            &&& after.consumed() == before.consumed()
        },
{
}

} // verus!

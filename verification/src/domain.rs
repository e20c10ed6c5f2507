//! Vocabulary of the runtime: identities, physical states, failure classes, store errors, and the
//! commands that the runtime sends to the store.
use crate::time::Seconds;
use vstd::prelude::*;

verus! {

/// Fencing token of a lease.  A later lease of the same attempt has a larger epoch.
pub type LeaseEpoch = u64;

/// Identity of one physical execution.
#[derive(Debug, PartialEq, Eq)]
pub struct ExecutionId {
    pub text: String,
}

/// Identity of the start request that an adapter deduplicates by.
#[derive(Debug, PartialEq, Eq)]
pub struct RequestId {
    pub text: String,
}

/// Identity of one attempt at a task.
#[derive(Debug, PartialEq, Eq)]
pub struct AttemptId {
    pub text: String,
}

/// Identity of a task.
#[derive(Debug, PartialEq, Eq)]
pub struct TaskId {
    pub text: String,
}

/// Identity of a task result.
#[derive(Debug, PartialEq, Eq)]
pub struct ResultId {
    pub text: String,
}

impl View for ExecutionId {
    type V = Seq<char>;

    open spec fn view(&self) -> Seq<char> {
        self.text@
    }
}

impl View for RequestId {
    type V = Seq<char>;

    open spec fn view(&self) -> Seq<char> {
        self.text@
    }
}

impl View for AttemptId {
    type V = Seq<char>;

    open spec fn view(&self) -> Seq<char> {
        self.text@
    }
}

impl View for TaskId {
    type V = Seq<char>;

    open spec fn view(&self) -> Seq<char> {
        self.text@
    }
}

impl View for ResultId {
    type V = Seq<char>;

    open spec fn view(&self) -> Seq<char> {
        self.text@
    }
}

impl Clone for ExecutionId {
    fn clone(&self) -> (copy: Self)
        ensures
            copy == *self,
    {
        ExecutionId { text: self.text.clone() }
    }
}

impl Clone for RequestId {
    fn clone(&self) -> (copy: Self)
        ensures
            copy == *self,
    {
        RequestId { text: self.text.clone() }
    }
}

impl Clone for AttemptId {
    fn clone(&self) -> (copy: Self)
        ensures
            copy == *self,
    {
        AttemptId { text: self.text.clone() }
    }
}

impl Clone for TaskId {
    fn clone(&self) -> (copy: Self)
        ensures
            copy == *self,
    {
        TaskId { text: self.text.clone() }
    }
}

impl Clone for ResultId {
    fn clone(&self) -> (copy: Self)
        ensures
            copy == *self,
    {
        ResultId { text: self.text.clone() }
    }
}

impl ExecutionId {
    pub fn new(text: &str) -> (id: Self)
        ensures
            id@ == text@,
    {
        ExecutionId { text: text.to_string() }
    }

    /// Whether both name the same execution.
    pub fn same(&self, other: &Self) -> (same: bool)
        ensures
            same == (self@ == other@),
    {
        self.text == other.text
    }
}

impl RequestId {
    pub fn new(text: &str) -> (id: Self)
        ensures
            id@ == text@,
    {
        RequestId { text: text.to_string() }
    }

    /// Whether both name the same start request.
    pub fn same(&self, other: &Self) -> (same: bool)
        ensures
            same == (self@ == other@),
    {
        self.text == other.text
    }
}

impl AttemptId {
    pub fn new(text: &str) -> (id: Self)
        ensures
            id@ == text@,
    {
        AttemptId { text: text.to_string() }
    }

    /// Whether both name the same attempt.
    pub fn same(&self, other: &Self) -> (same: bool)
        ensures
            same == (self@ == other@),
    {
        self.text == other.text
    }
}

impl TaskId {
    pub fn new(text: &str) -> (id: Self)
        ensures
            id@ == text@,
    {
        TaskId { text: text.to_string() }
    }
}

impl ResultId {
    pub fn new(text: &str) -> (id: Self)
        ensures
            id@ == text@,
    {
        ResultId { text: text.to_string() }
    }
}

/// Recorded state of one physical execution.
#[derive(Debug, Clone, Copy, PartialEq, Eq, Structural)]
pub enum ExecutionState {
    Starting,
    Running,
    Unknown,
    Lost,
    Succeeded,
    Failed,
    Terminated,
}

impl ExecutionState {
    /// States in which the physical execution may still be at work.
    pub open spec fn active(self) -> bool {
        self == ExecutionState::Starting || self == ExecutionState::Running || self
            == ExecutionState::Unknown
    }

    /// States that carry a terminal consequence.
    pub open spec fn terminal(self) -> bool {
        self == ExecutionState::Succeeded || self == ExecutionState::Failed || self
            == ExecutionState::Terminated
    }

    pub fn is_active_physical(&self) -> (active: bool)
        ensures
            active == self.active(),
    {
        matches!(self, ExecutionState::Starting | ExecutionState::Running | ExecutionState::Unknown)
    }

    /// Name of the state as the store writes it.
    pub open spec fn sql_name(self) -> Seq<char> {
        match self {
            ExecutionState::Starting => "STARTING"@,
            ExecutionState::Running => "RUNNING"@,
            ExecutionState::Unknown => "UNKNOWN"@,
            ExecutionState::Lost => "LOST"@,
            ExecutionState::Succeeded => "SUCCEEDED"@,
            ExecutionState::Failed => "FAILED"@,
            ExecutionState::Terminated => "TERMINATED"@,
        }
    }

    pub fn as_sql(&self) -> (name: &'static str)
        ensures
            name@ == self.sql_name(),
    {
        match self {
            ExecutionState::Starting => "STARTING",
            ExecutionState::Running => "RUNNING",
            ExecutionState::Unknown => "UNKNOWN",
            ExecutionState::Lost => "LOST",
            ExecutionState::Succeeded => "SUCCEEDED",
            ExecutionState::Failed => "FAILED",
            ExecutionState::Terminated => "TERMINATED",
        }
    }
}

/// Standard classes of task failure.
#[derive(Debug, Clone, Copy, PartialEq, Eq, Structural)]
pub enum FailureClass {
    ResourceUnavailable,
    Timeout,
    AdapterProtocolFailure,
    StartFailure,
    ExecutionLost,
    InvalidResult,
    TransientExternal,
    WriterQuiescenceUnknown,
    Unknown,
}

impl FailureClass {
    /// Name of the class as it appears in diagnostics.
    pub open spec fn label(self) -> Seq<char> {
        match self {
            FailureClass::ResourceUnavailable => "ResourceUnavailable"@,
            FailureClass::Timeout => "Timeout"@,
            FailureClass::AdapterProtocolFailure => "AdapterProtocolFailure"@,
            FailureClass::StartFailure => "StartFailure"@,
            FailureClass::ExecutionLost => "ExecutionLost"@,
            FailureClass::InvalidResult => "InvalidResult"@,
            FailureClass::TransientExternal => "TransientExternal"@,
            FailureClass::WriterQuiescenceUnknown => "WriterQuiescenceUnknown"@,
            FailureClass::Unknown => "Unknown"@,
        }
    }

    pub fn name(&self) -> (name: &'static str)
        ensures
            name@ == self.label(),
    {
        match self {
            FailureClass::ResourceUnavailable => "ResourceUnavailable",
            FailureClass::Timeout => "Timeout",
            FailureClass::AdapterProtocolFailure => "AdapterProtocolFailure",
            FailureClass::StartFailure => "StartFailure",
            FailureClass::ExecutionLost => "ExecutionLost",
            FailureClass::InvalidResult => "InvalidResult",
            FailureClass::TransientExternal => "TransientExternal",
            FailureClass::WriterQuiescenceUnknown => "WriterQuiescenceUnknown",
            FailureClass::Unknown => "Unknown",
        }
    }
}

/// What a failed store call reports.
#[derive(Debug, PartialEq, Eq)]
pub enum Error {
    /// The lease or epoch is no longer current.
    StaleAuthority(String),
    /// The authority presented does not match the durable attempt.
    InvalidAuthority(String),
    NotFound(String),
    InvalidTransition(String),
    /// The durable state contradicts itself.
    InvariantViolation(String),
    StorageFailure(String),
    Other(String),
}

impl Error {
    pub open spec fn detail(self) -> Seq<char> {
        match self {
            Error::StaleAuthority(m) => m@,
            Error::InvalidAuthority(m) => m@,
            Error::NotFound(m) => m@,
            Error::InvalidTransition(m) => m@,
            Error::InvariantViolation(m) => m@,
            Error::StorageFailure(m) => m@,
            Error::Other(m) => m@,
        }
    }

    /// Authority was lost: nothing about the task may be changed any more.
    pub open spec fn authority_lost(self) -> bool {
        self is StaleAuthority || self is InvalidAuthority
    }

    pub fn is_authority_lost(&self) -> (lost: bool)
        ensures
            lost == self.authority_lost(),
    {
        match self {
            Error::StaleAuthority(_) => true,
            Error::InvalidAuthority(_) => true,
            _ => false,
        }
    }

    pub fn message(&self) -> (text: &str)
        ensures
            text@ == self.detail(),
    {
        match self {
            Error::StaleAuthority(m) => m.as_str(),
            Error::InvalidAuthority(m) => m.as_str(),
            Error::NotFound(m) => m.as_str(),
            Error::InvalidTransition(m) => m.as_str(),
            Error::InvariantViolation(m) => m.as_str(),
            Error::StorageFailure(m) => m.as_str(),
            Error::Other(m) => m.as_str(),
        }
    }
}

impl Clone for Error {
    fn clone(&self) -> (copy: Self)
        ensures
            copy == *self,
    {
        match self {
            Error::StaleAuthority(m) => Error::StaleAuthority(m.clone()),
            Error::InvalidAuthority(m) => Error::InvalidAuthority(m.clone()),
            Error::NotFound(m) => Error::NotFound(m.clone()),
            Error::InvalidTransition(m) => Error::InvalidTransition(m.clone()),
            Error::InvariantViolation(m) => Error::InvariantViolation(m.clone()),
            Error::StorageFailure(m) => Error::StorageFailure(m.clone()),
            Error::Other(m) => Error::Other(m.clone()),
        }
    }
}

/// What a failed adapter call reports.
#[derive(Debug, PartialEq, Eq)]
pub enum AdapterError {
    Unavailable(String),
    DeadlineExceeded(String),
    Protocol(String),
    Other(String),
}

/// The kinds of [`AdapterError`].
#[derive(Debug, Clone, Copy, PartialEq, Eq, Structural)]
pub enum AdapterErrorKind {
    Unavailable,
    DeadlineExceeded,
    Protocol,
    Other,
}

impl AdapterError {
    pub open spec fn kind_of(self) -> AdapterErrorKind {
        match self {
            AdapterError::Unavailable(_) => AdapterErrorKind::Unavailable,
            AdapterError::DeadlineExceeded(_) => AdapterErrorKind::DeadlineExceeded,
            AdapterError::Protocol(_) => AdapterErrorKind::Protocol,
            AdapterError::Other(_) => AdapterErrorKind::Other,
        }
    }

    pub open spec fn detail(self) -> Seq<char> {
        match self {
            AdapterError::Unavailable(m) => m@,
            AdapterError::DeadlineExceeded(m) => m@,
            AdapterError::Protocol(m) => m@,
            AdapterError::Other(m) => m@,
        }
    }

    pub fn kind(&self) -> (kind: AdapterErrorKind)
        ensures
            kind == self.kind_of(),
    {
        match self {
            AdapterError::Unavailable(_) => AdapterErrorKind::Unavailable,
            AdapterError::DeadlineExceeded(_) => AdapterErrorKind::DeadlineExceeded,
            AdapterError::Protocol(_) => AdapterErrorKind::Protocol,
            AdapterError::Other(_) => AdapterErrorKind::Other,
        }
    }

    pub fn message(&self) -> (text: &str)
        ensures
            text@ == self.detail(),
    {
        match self {
            AdapterError::Unavailable(m) => m.as_str(),
            AdapterError::DeadlineExceeded(m) => m.as_str(),
            AdapterError::Protocol(m) => m.as_str(),
            AdapterError::Other(m) => m.as_str(),
        }
    }
}

/// A JSON document, held as its text.
#[derive(Debug, PartialEq, Eq)]
pub struct JsonValue {
    pub text: String,
}

impl View for JsonValue {
    type V = Seq<char>;

    open spec fn view(&self) -> Seq<char> {
        self.text@
    }
}

impl Clone for JsonValue {
    fn clone(&self) -> (copy: Self)
        ensures
            copy == *self,
    {
        JsonValue { text: self.text.clone() }
    }
}

impl JsonValue {
    pub fn new(text: &str) -> (value: Self)
        ensures
            value@ == text@,
    {
        JsonValue { text: text.to_string() }
    }

    /// The document `null`.
    pub fn null() -> (value: Self)
        ensures
            value@ == "null"@,
    {
        JsonValue { text: "null".to_string() }
    }
}

/// Copies an optional document.
pub fn copy_json(value: &Option<JsonValue>) -> (copy: Option<JsonValue>)
    ensures
        copy == *value,
{
    match value {
        Some(document) => Some(document.clone()),
        None => None,
    }
}

/// Copies an optional text.
pub fn copy_text(value: &Option<String>) -> (copy: Option<String>)
    ensures
        copy == *value,
{
    match value {
        Some(text) => Some(text.clone()),
        None => None,
    }
}

/// Whether a task may change its workspace.
#[derive(Debug, Clone, Copy, PartialEq, Eq, Structural)]
pub enum WorkspaceMode {
    ReadOnly,
    Write,
}

/// What a worker is told of its task.
#[derive(Debug, PartialEq, Eq)]
pub struct TaskFacts {
    pub payload: JsonValue,
    pub acceptance: JsonValue,
    pub workstream_id: Option<String>,
    pub workspace_mode: WorkspaceMode,
}

/// A scheduler claim: the authority receipt for one attempt.  The target, the profile and what it
/// says of the task are copies; the durable attempt and the durable task are what counts.
#[derive(Debug, PartialEq, Eq)]
pub struct Claim {
    pub attempt_id: AttemptId,
    pub lease_epoch: LeaseEpoch,
    pub execution_target: String,
    pub execution_profile: String,
    pub batch_id: String,
    pub task: TaskFacts,
}

/// Target and profile of an attempt as the store froze them, with the authority they were read
/// under.
#[derive(Debug, PartialEq, Eq)]
pub struct AuthoritativeExecutionBinding {
    pub attempt_id: AttemptId,
    pub lease_epoch: LeaseEpoch,
    pub execution_target: String,
    pub execution_profile: String,
}

/// The configured environment that a binding resolves to.
#[derive(Debug, PartialEq, Eq)]
pub struct ResolvedExecutionEnvironment {
    pub execution_target: String,
    pub execution_profile: String,
    pub adapter_kind: String,
    /// The safety fact that is frozen with the execution.
    pub attempt_isolation: bool,
    pub target_options: JsonValue,
    pub profile_options: JsonValue,
    pub profile_timeout_seconds: Option<Seconds>,
}

/// Why a binding does not resolve.  The text is the diagnostic of the configuration registry.
#[derive(Debug, PartialEq, Eq)]
pub enum ResolutionError {
    TargetNotFound(String),
    ProfileNotFound(String),
    Incompatible(String),
}

impl ResolutionError {
    pub open spec fn detail(self) -> Seq<char> {
        match self {
            ResolutionError::TargetNotFound(m) => m@,
            ResolutionError::ProfileNotFound(m) => m@,
            ResolutionError::Incompatible(m) => m@,
        }
    }

    pub fn message(&self) -> (text: &str)
        ensures
            text@ == self.detail(),
    {
        match self {
            ResolutionError::TargetNotFound(m) => m.as_str(),
            ResolutionError::ProfileNotFound(m) => m.as_str(),
            ResolutionError::Incompatible(m) => m.as_str(),
        }
    }
}

/// What the store froze when it created an execution: its identities, and the durable task.
#[derive(Debug, PartialEq, Eq)]
pub struct ExecutionLaunchSnapshot {
    pub execution_id: ExecutionId,
    pub request_id: RequestId,
    pub task: TaskFacts,
}

/// What an adapter reports of a start, or of a reconciled start.
#[derive(Debug, PartialEq, Eq)]
pub struct StartObservation {
    pub state: ExecutionState,
    pub runtime_handle: JsonValue,
    pub ambiguous: bool,
    pub detail: Option<String>,
    pub terminal_confirmed: bool,
    pub quiescent_confirmed: bool,
}

/// What an adapter collects of an execution that is said to have ended.
#[derive(Debug, PartialEq, Eq)]
pub struct ExecutionOutcome {
    pub state: ExecutionState,
    pub terminal_confirmed: bool,
    pub quiescent_confirmed: bool,
    pub incarnation_reusable: bool,
    pub payload: Option<JsonValue>,
    pub summary: Option<String>,
    pub failure_class: Option<FailureClass>,
}

/// One entry of physical history, as the store takes it.
#[derive(Debug, PartialEq, Eq)]
pub struct PhysicalRecord {
    pub execution_id: ExecutionId,
    pub state: ExecutionState,
    pub handle: Option<JsonValue>,
    pub payload: Option<JsonValue>,
    pub failure_class: Option<FailureClass>,
    pub terminal_confirmed: bool,
    pub quiescent_confirmed: bool,
}

impl PhysicalRecord {
    /// The record proves nothing about the end of the execution.
    pub open spec fn proofless(self) -> bool {
        !self.terminal_confirmed && !self.quiescent_confirmed
    }
}

/// Arguments of the store call that takes an attempt back.
#[derive(Debug, PartialEq, Eq)]
pub struct NackCommand {
    pub attempt_id: AttemptId,
    pub lease_epoch: LeaseEpoch,
    pub failure_class: FailureClass,
    pub execution_id: ExecutionId,
    pub terminal_confirmed: bool,
    pub quiescent_confirmed: bool,
    pub incarnation_reusable: bool,
}

/// Arguments of the store call that acknowledges a success.
#[derive(Debug, PartialEq, Eq)]
pub struct AckCommand {
    pub attempt_id: AttemptId,
    pub lease_epoch: LeaseEpoch,
    pub execution_id: ExecutionId,
    pub payload: JsonValue,
    pub summary: Option<String>,
    pub quiescent_confirmed: bool,
    pub incarnation_reusable: bool,
}

/// Arguments of the fenced store call that confirms RUNNING and renews the lease.
#[derive(Debug, PartialEq, Eq)]
pub struct ConfirmCommand {
    pub attempt_id: AttemptId,
    pub lease_epoch: LeaseEpoch,
    pub execution_id: ExecutionId,
    pub handle: JsonValue,
}

/// Arguments of the store call that makes a terminal outcome durable before the task is told.
#[derive(Debug, PartialEq, Eq)]
pub struct PendingTerminalRecord {
    pub execution_id: ExecutionId,
    pub state: ExecutionState,
    pub handle: Option<JsonValue>,
    pub payload: Option<JsonValue>,
    pub summary: Option<String>,
    pub failure_class: Option<FailureClass>,
    pub quiescent_confirmed: bool,
    pub incarnation_reusable: bool,
}

/// The text of a payload as the store is given it: an absent one is `null`.
pub open spec fn payload_text(payload: Option<JsonValue>) -> Seq<char> {
    match payload {
        Some(document) => document@,
        None => "null"@,
    }
}

/// The payload as the store is given it.
pub fn payload_or_null(payload: &Option<JsonValue>) -> (document: JsonValue)
    ensures
        document@ == payload_text(*payload),
{
    match payload {
        Some(found) => found.clone(),
        None => JsonValue::null(),
    }
}

// ---------------------------------------------------------------------------------------------
// Laws
// ---------------------------------------------------------------------------------------------

/// A state is active, ended or LOST, and one of these only.
pub proof fn law_states_are_told_apart(state: ExecutionState)
    ensures
        match state {
            ExecutionState::Starting | ExecutionState::Running | ExecutionState::Unknown => {
                state.active() && !state.terminal()
            },
            ExecutionState::Succeeded | ExecutionState::Failed | ExecutionState::Terminated => {
                state.terminal() && !state.active()
            },
            ExecutionState::Lost => !state.active() && !state.terminal(),
        },
{
}

/// The store knows each state by its own name.
pub proof fn law_states_have_names()
    ensures
        ExecutionState::Starting.sql_name() == "STARTING"@,
        ExecutionState::Running.sql_name() == "RUNNING"@,
        ExecutionState::Unknown.sql_name() == "UNKNOWN"@,
        ExecutionState::Lost.sql_name() == "LOST"@,
        ExecutionState::Succeeded.sql_name() == "SUCCEEDED"@,
        ExecutionState::Failed.sql_name() == "FAILED"@,
        ExecutionState::Terminated.sql_name() == "TERMINATED"@,
{
}

/// Each failure class has a name of its own.
pub proof fn law_classes_have_names()
    ensures
        FailureClass::ResourceUnavailable.label() == "ResourceUnavailable"@,
        FailureClass::Timeout.label() == "Timeout"@,
        FailureClass::AdapterProtocolFailure.label() == "AdapterProtocolFailure"@,
        FailureClass::StartFailure.label() == "StartFailure"@,
        FailureClass::ExecutionLost.label() == "ExecutionLost"@,
        FailureClass::InvalidResult.label() == "InvalidResult"@,
        FailureClass::TransientExternal.label() == "TransientExternal"@,
        FailureClass::WriterQuiescenceUnknown.label() == "WriterQuiescenceUnknown"@,
        FailureClass::Unknown.label() == "Unknown"@,
{
}

/// Authority is lost by a stale or an invalid one and by no other error.  Whatever the error, its
/// text is what the store said.
pub proof fn law_authority_is_lost_by_stale_or_invalid(error: Error)
    ensures
        match error {
            Error::StaleAuthority(m) => error.authority_lost() && error.detail() == m@,
            Error::InvalidAuthority(m) => error.authority_lost() && error.detail() == m@,
            Error::NotFound(m) => !error.authority_lost() && error.detail() == m@,
            Error::InvalidTransition(m) => !error.authority_lost() && error.detail() == m@,
            Error::InvariantViolation(m) => !error.authority_lost() && error.detail() == m@,
            Error::StorageFailure(m) => !error.authority_lost() && error.detail() == m@,
            Error::Other(m) => !error.authority_lost() && error.detail() == m@,
        },
{
}

/// An adapter error is of its own kind and keeps the adapter's words.
pub proof fn law_adapter_errors_keep_their_kind(text: String)
    ensures
        AdapterError::Unavailable(text).kind_of() == AdapterErrorKind::Unavailable,
        AdapterError::DeadlineExceeded(text).kind_of() == AdapterErrorKind::DeadlineExceeded,
        AdapterError::Protocol(text).kind_of() == AdapterErrorKind::Protocol,
        AdapterError::Other(text).kind_of() == AdapterErrorKind::Other,
        AdapterError::Unavailable(text).detail() == text@,
        AdapterError::DeadlineExceeded(text).detail() == text@,
        AdapterError::Protocol(text).detail() == text@,
        AdapterError::Other(text).detail() == text@,
        ResolutionError::TargetNotFound(text).detail() == text@,
        ResolutionError::ProfileNotFound(text).detail() == text@,
        ResolutionError::Incompatible(text).detail() == text@,
{
}

/// A payload is given to the store as it was collected, and as `null` where there was none.
pub proof fn law_payload_is_kept(document: JsonValue)
    ensures
        payload_text(Some(document)) == document.text@,
        payload_text(None) == "null"@,
{
}

/// A record without proof claims neither an end nor quiescence.
pub proof fn law_proofless_records_claim_nothing(record: PhysicalRecord)
    ensures
        record.proofless() <==> record.terminal_confirmed == false && record.quiescent_confirmed
            == false,
{
}

} // verus!

//! The timing of the runtime loops.
//!
//! Normative is the chain `0 < dispatcher poll <= heartbeat < lease`.  A configuration that breaks
//! it is refused when it is made.
use crate::domain::Error;
use crate::text::{join3, join4};
use crate::time::{law_numbers_compare, Duration, Seconds};
use vstd::prelude::*;
use vstd::string::*;

verus! {

/// Timing that satisfies the chain.
#[derive(Debug, Clone, Copy, PartialEq, Eq)]
pub struct RuntimeTimingConfig {
    dispatcher_poll: Seconds,
    heartbeat: Seconds,
    lease: Seconds,
}

/// Why a timing was refused.
#[derive(Debug, Clone, Copy, PartialEq, Eq)]
pub enum TimingConfigError {
    NonPositiveDuration { field: &'static str, value: Seconds },
    PollExceedsHeartbeat { poll: Seconds, heartbeat: Seconds },
    HeartbeatNotBelowLease { heartbeat: Seconds, lease: Seconds },
}

impl TimingConfigError {
    /// The diagnostic, with the numbers as the caller writes them, in the order of the fields.
    pub open spec fn detail(self, first: Seq<char>, second: Seq<char>) -> Seq<char> {
        match self {
            TimingConfigError::NonPositiveDuration { field, .. } => "timing "@ + field@
                + " must be positive, got "@ + first,
            TimingConfigError::PollExceedsHeartbeat { .. } => "dispatcher_poll_seconds ("@ + first
                + ") must be <= heartbeat_seconds ("@ + second + ")"@,
            TimingConfigError::HeartbeatNotBelowLease { .. } => "heartbeat_seconds ("@ + first
                + ") must be < lease_seconds ("@ + second + ")"@,
        }
    }

    pub fn message(&self, first: &str, second: &str) -> (text: String)
        ensures
            text@ == self.detail(first@, second@),
    {
        match self {
            TimingConfigError::NonPositiveDuration { field, .. } => join4(
                "timing ",
                field,
                " must be positive, got ",
                first,
            ),
            TimingConfigError::PollExceedsHeartbeat { .. } => join3(
                "dispatcher_poll_seconds (",
                first,
                ") must be <= heartbeat_seconds (",
            ).concat(second).concat(")"),
            TimingConfigError::HeartbeatNotBelowLease { .. } => join3(
                "heartbeat_seconds (",
                first,
                ") must be < lease_seconds (",
            ).concat(second).concat(")"),
        }
    }
}

/// `0 < poll <= heartbeat < lease`.
pub open spec fn timing_chain(poll: Seconds, heartbeat: Seconds, lease: Seconds) -> bool {
    poll.positive() && heartbeat.positive() && lease.positive() && !heartbeat.less(poll)
        && heartbeat.less(lease)
}

impl RuntimeTimingConfig {
    #[verifier::type_invariant]
    closed spec fn chained(self) -> bool {
        timing_chain(self.dispatcher_poll, self.heartbeat, self.lease)
    }

    pub closed spec fn poll_of(self) -> Seconds {
        self.dispatcher_poll
    }

    pub closed spec fn heartbeat_of(self) -> Seconds {
        self.heartbeat
    }

    pub closed spec fn lease_of(self) -> Seconds {
        self.lease
    }

    /// Accepts exactly the timings that satisfy the chain.  The first field that is not positive
    /// is named; then the poll is held against the heartbeat, then the heartbeat against the lease.
    pub fn new(dispatcher_poll_seconds: Seconds, heartbeat_seconds: Seconds, lease_seconds: Seconds)
        -> (result: Result<Self, TimingConfigError>)
        ensures
            result is Ok <==> timing_chain(
                dispatcher_poll_seconds,
                heartbeat_seconds,
                lease_seconds,
            ),
            match result {
                Ok(timing) => timing.poll_of() == dispatcher_poll_seconds && timing.heartbeat_of()
                    == heartbeat_seconds && timing.lease_of() == lease_seconds,
                Err(TimingConfigError::NonPositiveDuration { field, value }) => {
                    ||| !dispatcher_poll_seconds.positive() && value == dispatcher_poll_seconds
                        && field@ == "dispatcher_poll_seconds"@
                    ||| dispatcher_poll_seconds.positive() && !heartbeat_seconds.positive() && value
                        == heartbeat_seconds && field@ == "heartbeat_seconds"@
                    ||| dispatcher_poll_seconds.positive() && heartbeat_seconds.positive()
                        && !lease_seconds.positive() && value == lease_seconds && field@
                        == "lease_seconds"@
                },
                Err(TimingConfigError::PollExceedsHeartbeat { poll, heartbeat }) => {
                    &&& poll == dispatcher_poll_seconds && heartbeat == heartbeat_seconds
                    &&& poll.positive() && heartbeat.positive() && lease_seconds.positive()
                    &&& heartbeat.less(poll)
                },
                Err(TimingConfigError::HeartbeatNotBelowLease { heartbeat, lease }) => {
                    &&& heartbeat == heartbeat_seconds && lease == lease_seconds
                    &&& dispatcher_poll_seconds.positive() && heartbeat.positive()
                        && lease.positive()
                    &&& !heartbeat.less(dispatcher_poll_seconds) && !heartbeat.less(lease)
                },
            },
    {
        if !dispatcher_poll_seconds.is_positive() {
            return Err(
                TimingConfigError::NonPositiveDuration {
                    field: "dispatcher_poll_seconds",
                    value: dispatcher_poll_seconds,
                },
            );
        }
        if !heartbeat_seconds.is_positive() {
            return Err(
                TimingConfigError::NonPositiveDuration {
                    field: "heartbeat_seconds",
                    value: heartbeat_seconds,
                },
            );
        }
        if !lease_seconds.is_positive() {
            return Err(
                TimingConfigError::NonPositiveDuration {
                    field: "lease_seconds",
                    value: lease_seconds,
                },
            );
        }
        if heartbeat_seconds.is_less(&dispatcher_poll_seconds) {
            return Err(
                TimingConfigError::PollExceedsHeartbeat {
                    poll: dispatcher_poll_seconds,
                    heartbeat: heartbeat_seconds,
                },
            );
        }
        if !heartbeat_seconds.is_less(&lease_seconds) {
            return Err(
                TimingConfigError::HeartbeatNotBelowLease {
                    heartbeat: heartbeat_seconds,
                    lease: lease_seconds,
                },
            );
        }
        Ok(
            RuntimeTimingConfig {
                dispatcher_poll: dispatcher_poll_seconds,
                heartbeat: heartbeat_seconds,
                lease: lease_seconds,
            },
        )
    }

    pub fn dispatcher_poll_seconds(&self) -> (poll: Seconds)
        ensures
            poll == self.poll_of(),
            poll.usable(),
            !self.heartbeat_of().less(poll),
    {
        proof {
            use_type_invariant(self);
        }
        self.dispatcher_poll
    }

    pub fn heartbeat_seconds(&self) -> (heartbeat: Seconds)
        ensures
            heartbeat == self.heartbeat_of(),
            heartbeat.usable(),
            heartbeat.less(self.lease_of()),
    {
        proof {
            use_type_invariant(self);
        }
        self.heartbeat
    }

    pub fn lease_seconds(&self) -> (lease: Seconds)
        ensures
            lease == self.lease_of(),
            lease.positive(),
    {
        proof {
            use_type_invariant(self);
        }
        self.lease
    }

    /// The heartbeat as an interval, for a heartbeat within the range of an interval.
    pub fn heartbeat_interval(&self) -> (interval: Duration)
        requires
            self.heartbeat_of().representable(),
        ensures
            interval.nanos == self.heartbeat_of().nanos(),
    {
        self.heartbeat.to_duration().unwrap()
    }

    /// The dispatcher poll as an interval, for a poll within the range of an interval.
    pub fn dispatcher_poll_interval(&self) -> (interval: Duration)
        requires
            self.poll_of().representable(),
        ensures
            interval.nanos == self.poll_of().nanos(),
    {
        self.dispatcher_poll.to_duration().unwrap()
    }
}

/// The configured lease must be the store's lease exactly.  `configured` and `actual` are the two
/// numbers as the caller writes them; they appear in the diagnostic.
pub fn validate_lease_authority_match(
    timing: &RuntimeTimingConfig,
    kernel_lease_seconds: Seconds,
    configured: &str,
    actual: &str,
) -> (result: Result<(), Error>)
    ensures
        result is Ok <==> timing.lease_of().same_number(kernel_lease_seconds),
        result matches Err(error) ==> error is InvariantViolation && error.detail()
            == "timing configuration lease_seconds ("@ + configured@
            + ") does not match the Kernel lease authority ("@ + actual@ + ")"@,
{
    if timing.lease.is_same_number(&kernel_lease_seconds) {
        return Ok(());
    }
    Err(
        Error::InvariantViolation(
            join3(
                "timing configuration lease_seconds (",
                configured,
                ") does not match the Kernel lease authority (",
            ).concat(actual).concat(")"),
        ),
    )
}

// ---------------------------------------------------------------------------------------------
// Laws
// ---------------------------------------------------------------------------------------------

/// The chain holds of finite numbers exactly if their values are in order: the poll above zero and
/// no more than the heartbeat, and the heartbeat below the lease.  A lease may also be infinite.
pub proof fn law_chain_orders_the_values(poll: Seconds, heartbeat: Seconds, lease: Seconds)
    ensures
        poll.finite() && heartbeat.finite() && lease.finite() ==> (timing_chain(
            poll,
            heartbeat,
            lease,
        ) <==> 0 < poll.units() <= heartbeat.units() < lease.units()),
        poll.finite() && heartbeat.finite() && lease.bits == 0x7ff0_0000_0000_0000 ==> (
        timing_chain(poll, heartbeat, lease) <==> 0 < poll.units() <= heartbeat.units()),
        timing_chain(poll, heartbeat, lease) ==> poll.usable() && heartbeat.usable(),
{
    law_numbers_compare(heartbeat, poll);
    law_numbers_compare(heartbeat, lease);
    law_numbers_compare(poll, heartbeat);
    law_numbers_compare(lease, heartbeat);
}

/// The texts of the errors of a timing.
pub proof fn law_timing_errors_are_told(
    field: &'static str,
    a: Seconds,
    b: Seconds,
    first: Seq<char>,
    second: Seq<char>,
)
    ensures
        (TimingConfigError::NonPositiveDuration { field, value: a }).detail(first, second)
            == "timing "@ + field@ + " must be positive, got "@ + first,
        (TimingConfigError::PollExceedsHeartbeat { poll: a, heartbeat: b }).detail(first, second)
            == "dispatcher_poll_seconds ("@ + first + ") must be <= heartbeat_seconds ("@ + second
            + ")"@,
        (TimingConfigError::HeartbeatNotBelowLease { heartbeat: a, lease: b }).detail(first, second)
            == "heartbeat_seconds ("@ + first + ") must be < lease_seconds ("@ + second + ")"@,
{
}

} // verus!

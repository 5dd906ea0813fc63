//! Per-target probe outcomes and the classification of connection
//! events into them.

use vstd::prelude::*;
use crate::target::Target;

verus! {

/// The failure category of an unreachable target.
#[derive(Clone, Copy, Debug, PartialEq, Eq, Structural)]
pub enum UnreachableReason {
    /// The endpoint actively refused the connection.
    Refused,
    /// No route to the host exists.
    NoRoute,
    /// The host name could not be resolved.
    ResolutionFailed,
    /// Any other definitive failure.
    Other,
}

/// The terminal classification of one probe.
#[derive(Clone, Copy, Debug, PartialEq, Eq, Structural)]
pub enum ProbeStatus {
    /// The connection attempt succeeded within the timeout.
    Reachable,
    /// The attempt failed definitively before the timeout elapsed.
    Unreachable(UnreachableReason),
    /// No definitive response arrived before the timeout elapsed.
    TimedOut,
}

/// What one connection attempt observed, as reported by a
/// [`crate::prober::Connector`]: the raw event, before it is held
/// against the configured timeout.
#[derive(Clone, Copy, Debug, PartialEq, Eq, Structural)]
pub enum ProbeEvent {
    /// The connection was established after `elapsed_ms` milliseconds.
    Connected { elapsed_ms: u64 },
    /// The attempt failed definitively after `elapsed_ms` milliseconds.
    Failed { reason: UnreachableReason, elapsed_ms: u64 },
    /// The attempt was abandoned because the timeout elapsed first.
    TimedOut,
}

/// The result of probing one target: the target itself, its status,
/// and the elapsed duration in milliseconds. Created once per probe
/// attempt and not mutated afterwards.
#[derive(Debug)]
pub struct ProbeOutcome {
    pub target: Target,
    pub status: ProbeStatus,
    pub elapsed_ms: u64,
}

/// The status that a connection event earns under a given timeout: a
/// connection or a definitive failure observed before the timeout
/// counts as such; anything at or past the timeout is a timeout.
pub open spec fn classify_status(event: ProbeEvent, timeout_ms: u64) -> ProbeStatus {
    match event {
        ProbeEvent::Connected { elapsed_ms } => if elapsed_ms < timeout_ms {
            ProbeStatus::Reachable
        } else {
            ProbeStatus::TimedOut
        },
        ProbeEvent::Failed { reason, elapsed_ms } => if elapsed_ms < timeout_ms {
            ProbeStatus::Unreachable(reason)
        } else {
            ProbeStatus::TimedOut
        },
        ProbeEvent::TimedOut => ProbeStatus::TimedOut,
    }
}

/// The elapsed time recorded for a connection event under a given
/// timeout: the observed duration where the event was definitive in
/// time, and the timeout itself where the attempt timed out.
pub open spec fn classify_elapsed(event: ProbeEvent, timeout_ms: u64) -> u64 {
    match event {
        ProbeEvent::Connected { elapsed_ms } => if elapsed_ms < timeout_ms {
            elapsed_ms
        } else {
            timeout_ms
        },
        ProbeEvent::Failed { reason, elapsed_ms } => if elapsed_ms < timeout_ms {
            elapsed_ms
        } else {
            timeout_ms
        },
        ProbeEvent::TimedOut => timeout_ms,
    }
}

/// Internal consistency of an outcome under a given timeout: reachable
/// and unreachable outcomes were observed strictly before the timeout,
/// and a timed-out outcome records exactly the timeout.
pub open spec fn outcome_consistent(o: ProbeOutcome, timeout_ms: u64) -> bool {
    match o.status {
        ProbeStatus::Reachable => o.elapsed_ms < timeout_ms,
        ProbeStatus::Unreachable(_) => o.elapsed_ms < timeout_ms,
        ProbeStatus::TimedOut => o.elapsed_ms == timeout_ms,
    }
}

/// Builds the outcome for one target from the event its connection
/// attempt reported. A connection within the timeout is `Reachable`
/// with the observed elapsed time; a definitive failure within the
/// timeout is `Unreachable` with its reason and elapsed time; anything
/// else is `TimedOut` with the timeout as the elapsed time.
pub fn outcome_of_event(target: Target, event: ProbeEvent, timeout_ms: u64) -> (o: ProbeOutcome)
    requires
        timeout_ms >= 1,
    ensures
        o.target@ == target@,
        o.status == classify_status(event, timeout_ms),
        o.elapsed_ms == classify_elapsed(event, timeout_ms),
        outcome_consistent(o, timeout_ms),
{
    match event {
        ProbeEvent::Connected { elapsed_ms } => if elapsed_ms < timeout_ms {
            ProbeOutcome { target, status: ProbeStatus::Reachable, elapsed_ms }
        } else {
            ProbeOutcome { target, status: ProbeStatus::TimedOut, elapsed_ms: timeout_ms }
        },
        ProbeEvent::Failed { reason, elapsed_ms } => if elapsed_ms < timeout_ms {
            ProbeOutcome { target, status: ProbeStatus::Unreachable(reason), elapsed_ms }
        } else {
            ProbeOutcome { target, status: ProbeStatus::TimedOut, elapsed_ms: timeout_ms }
        },
        ProbeEvent::TimedOut => ProbeOutcome {
            target,
            status: ProbeStatus::TimedOut,
            elapsed_ms: timeout_ms,
        },
    }
}

} // verus!

//! Probing rounds: one connection attempt per target, aggregated into
//! a report with exactly one outcome per target.

use vstd::prelude::*;
use crate::outcome::{
    classify_elapsed,
    classify_status,
    outcome_consistent,
    outcome_of_event,
    ProbeEvent,
    ProbeOutcome,
};
use crate::target::{target_wf, Target, TargetView};

verus! {

/// A configuration error that aborts a probing round before any
/// probing starts. Per-target failures are never reported this way;
/// they are recorded as data in the report.
#[derive(Clone, Copy, Debug, PartialEq, Eq, Structural)]
pub enum ProbeError {
    /// The timeout was not a positive duration.
    InvalidConfiguration,
}

/// The textual description of a configuration error.
pub open spec fn probe_error_text(e: ProbeError) -> Seq<char> {
    match e {
        ProbeError::InvalidConfiguration => "invalid configuration: timeout must be positive"@,
    }
}

impl ProbeError {
    /// Describes this configuration error in words.
    pub fn describe(&self) -> (r: &'static str)
        ensures
            r@ == probe_error_text(*self),
    {
        match self {
            ProbeError::InvalidConfiguration => "invalid configuration: timeout must be positive",
        }
    }
}

/// The aggregate of all outcomes of one probing round, in input order:
/// the outcome at each position belongs to the target at the same
/// position of the probed list.
#[derive(Debug)]
pub struct ProbeReport {
    pub outcomes: Vec<ProbeOutcome>,
}

impl View for ProbeReport {
    type V = Seq<ProbeOutcome>;

    open spec fn view(&self) -> Seq<ProbeOutcome> {
        self.outcomes@
    }
}

/// The relation between a probed list of targets and the outcomes of
/// its round: one outcome per target (none dropped, none invented), in
/// input order, each carrying its own target and an elapsed time
/// consistent with the timeout.
pub open spec fn report_matches(
    targets: Seq<Target>,
    outcomes: Seq<ProbeOutcome>,
    timeout_ms: u64,
) -> bool {
    &&& outcomes.len() == targets.len()
    &&& forall|i: int|
        0 <= i < targets.len() ==> (#[trigger] outcomes[i]).target@ == targets[i]@
    &&& forall|i: int|
        0 <= i < targets.len() ==> outcome_consistent(#[trigger] outcomes[i], timeout_ms)
}

/// Duplicate targets are preserved, never merged: when the same
/// endpoint stands at two positions of the probed list, the report of
/// the round holds a distinct outcome at each of the two positions,
/// both carrying that endpoint.
pub proof fn lemma_duplicates_preserved(
    targets: Seq<Target>,
    outcomes: Seq<ProbeOutcome>,
    timeout_ms: u64,
    i: int,
    j: int,
)
    requires
        report_matches(targets, outcomes, timeout_ms),
        0 <= i < targets.len(),
        0 <= j < targets.len(),
        i != j,
        targets[i]@ == targets[j]@,
    ensures
        outcomes.len() == targets.len(),
        outcomes[i].target@ == targets[i]@,
        outcomes[j].target@ == targets[i]@,
{
}

/// The capability of attempting one connection. A real TCP connector
/// and a scripted one for tests both implement it; a probing round is
/// polymorphic over the choice.
pub trait Connector {
    /// Attempts one connection to `target`, giving up once `timeout_ms`
    /// milliseconds have elapsed, and reports what it observed.
    fn attempt(&self, target: &Target, timeout_ms: u64) -> ProbeEvent
        requires
            timeout_ms >= 1,
            target_wf(target@),
    ;
}

/// Assembles the report of one round from the events that the
/// connection attempts reported, one event per target in input order.
/// Each outcome is exactly the classification of its target's event
/// under the timeout.
pub fn assemble_report(targets: &Vec<Target>, events: &Vec<ProbeEvent>, timeout_ms: u64) -> (rep:
    ProbeReport)
    requires
        timeout_ms >= 1,
        events@.len() == targets@.len(),
    ensures
        report_matches(targets@, rep@, timeout_ms),
        forall|i: int|
            0 <= i < targets@.len() ==> (#[trigger] rep@[i]).status == classify_status(
                events@[i],
                timeout_ms,
            ),
        forall|i: int|
            0 <= i < targets@.len() ==> (#[trigger] rep@[i]).elapsed_ms == classify_elapsed(
                events@[i],
                timeout_ms,
            ),
{
    let mut outcomes: Vec<ProbeOutcome> = Vec::new();
    let n = targets.len();
    let mut i: usize = 0;
    while i < n
        invariant
            n == targets@.len(),
            events@.len() == targets@.len(),
            timeout_ms >= 1,
            i <= n,
            outcomes@.len() == i,
            forall|j: int|
                0 <= j < i ==> (#[trigger] outcomes@[j]).target@ == targets@[j]@,
            forall|j: int|
                0 <= j < i ==> (#[trigger] outcomes@[j]).status == classify_status(
                    events@[j],
                    timeout_ms,
                ),
            forall|j: int|
                0 <= j < i ==> (#[trigger] outcomes@[j]).elapsed_ms == classify_elapsed(
                    events@[j],
                    timeout_ms,
                ),
            forall|j: int|
                0 <= j < i ==> outcome_consistent(#[trigger] outcomes@[j], timeout_ms),
        decreases n - i,
    {
        let o = outcome_of_event(targets[i].duplicate(), events[i], timeout_ms);
        outcomes.push(o);
        i = i + 1;
    }
    ProbeReport { outcomes }
}

/// Probes every target of the list: one independent connection attempt
/// per target, each bounded by `timeout_ms`. Fails with
/// `InvalidConfiguration` exactly when the timeout is not positive;
/// otherwise returns a report holding exactly one outcome per target,
/// in input order — an empty report for an empty list, never partial
/// results. Per-target failures and timeouts are recorded in the
/// report, never raised as errors of the round.
pub fn probe_all<C: Connector>(connector: &C, targets: &Vec<Target>, timeout_ms: u64) -> (r:
    Result<ProbeReport, ProbeError>)
    requires
        forall|i: int| 0 <= i < targets@.len() ==> target_wf((#[trigger] targets@[i])@),
    ensures
        r is Err <==> timeout_ms == 0,
        timeout_ms == 0 ==> r == Err::<ProbeReport, ProbeError>(ProbeError::InvalidConfiguration),
        r matches Ok(rep) ==> report_matches(targets@, rep@, timeout_ms),
{
    if timeout_ms == 0 {
        return Err(ProbeError::InvalidConfiguration);
    }
    let mut events: Vec<ProbeEvent> = Vec::new();
    let n = targets.len();
    let mut i: usize = 0;
    while i < n
        invariant
            n == targets@.len(),
            timeout_ms >= 1,
            i <= n,
            events@.len() == i,
            forall|k: int| 0 <= k < targets@.len() ==> target_wf((#[trigger] targets@[k])@),
        decreases n - i,
    {
        let e = connector.attempt(&targets[i], timeout_ms);
        events.push(e);
        i = i + 1;
    }
    Ok(assemble_report(targets, &events, timeout_ms))
}

/// The event that a scripted connector hands back for a target: the
/// event of the first script entry whose target is the same endpoint,
/// or the script's default event when no entry matches.
pub open spec fn scripted_event(
    entries: Seq<(Target, ProbeEvent)>,
    t: TargetView,
    default: ProbeEvent,
) -> ProbeEvent
    decreases entries.len(),
{
    if entries.len() == 0 {
        default
    } else if entries[0].0@ == t {
        entries[0].1
    } else {
        scripted_event(entries.drop_first(), t, default)
    }
}

proof fn lemma_scripted_event_skip(
    entries: Seq<(Target, ProbeEvent)>,
    t: TargetView,
    default: ProbeEvent,
    i: int,
)
    requires
        0 <= i <= entries.len(),
        forall|j: int| 0 <= j < i ==> (#[trigger] entries[j]).0@ != t,
    ensures
        scripted_event(entries, t, default) == scripted_event(entries.skip(i), t, default),
    decreases i,
{
    if i > 0 {
        assert(entries.drop_first() =~= entries.skip(1));
        lemma_scripted_event_skip(entries.drop_first(), t, default, i - 1);
        assert(entries.drop_first().skip(i - 1) =~= entries.skip(i));
    } else {
        assert(entries.skip(0) =~= entries);
    }
}

/// A connector that answers from a script instead of the network, for
/// tests: each entry pairs a target with the event its attempt shall
/// report; targets off the script get the default event.
pub struct ScriptedConnector {
    entries: Vec<(Target, ProbeEvent)>,
    default_event: ProbeEvent,
}

impl View for ScriptedConnector {
    type V = (Seq<(Target, ProbeEvent)>, ProbeEvent);

    closed spec fn view(&self) -> (Seq<(Target, ProbeEvent)>, ProbeEvent) {
        (self.entries@, self.default_event)
    }
}

impl ScriptedConnector {
    /// Builds a scripted connector from its script and default event.
    pub fn new(entries: Vec<(Target, ProbeEvent)>, default_event: ProbeEvent) -> (c:
        ScriptedConnector)
        ensures
            c@ == (entries@, default_event),
    {
        ScriptedConnector { entries, default_event }
    }

    /// Looks a target up in the script: the event of the first entry
    /// for the same endpoint, or the default event.
    pub fn lookup(&self, target: &Target) -> (e: ProbeEvent)
        ensures
            e == scripted_event(self@.0, target@, self@.1),
    {
        let n = self.entries.len();
        let mut i: usize = 0;
        while i < n
            invariant
                n == self.entries@.len(),
                i <= n,
                forall|j: int| 0 <= j < i ==> (#[trigger] self.entries@[j]).0@ != target@,
            decreases n - i,
        {
            if self.entries[i].0.same_endpoint(target) {
                proof {
                    lemma_scripted_event_skip(self.entries@, target@, self.default_event, i as int);
                    assert(self.entries@.skip(i as int)[0] == self.entries@[i as int]);
                }
                return self.entries[i].1;
            }
            i = i + 1;
        }
        proof {
            lemma_scripted_event_skip(self.entries@, target@, self.default_event, n as int);
            assert(self.entries@.skip(n as int).len() == 0);
        }
        self.default_event
    }
}

impl Connector for ScriptedConnector {
    fn attempt(&self, target: &Target, timeout_ms: u64) -> ProbeEvent {
        self.lookup(target)
    }
}

} // verus!

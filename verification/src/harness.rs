//! The scenario harness: it drives a pool through scripted operations,
//! records what the pool publishes, and judges the record against what the
//! scenario expects.
//!
//! The harness does no waiting of its own. Where an operation cannot be
//! completed at once, `Operation::execute` says what remains to be done, and
//! the runner that owns the clock, the threads and the transports does it.

use vstd::prelude::*;
use crate::event::{Event, event_name};
use crate::matching::{Mismatch, event_match};
use crate::text::same_text;

verus! {

/// How long, in milliseconds, the runner waits for an event before it gives
/// up. Events are published by tasks of their own, which may take a while to
/// be scheduled; the time is chosen generously.
pub const EVENT_TIMEOUT: u64 = 3000;

/// Which events a reader of the record wants to see.
#[derive(Debug)]
pub enum EventFilter {
    /// Every event.
    Any,
    /// Every event but those published under one of these names.
    NotNamed(Vec<String>),
    /// The `CheckedIn` events of one connection.
    CheckedInOf(u32),
    /// The `PoolClosed` events.
    PoolClosed,
}

/// Whether `name` is one of `names`.
pub open spec fn names_contain(names: Seq<String>, name: Seq<char>) -> bool {
    exists|i: int| 0 <= i < names.len() && (#[trigger] names[i])@ == name
}

/// Whether the filter lets the event through.
pub open spec fn accepts(filter: EventFilter, e: Event) -> bool {
    match filter {
        EventFilter::Any => true,
        EventFilter::NotNamed(names) => !names_contain(names@, event_name(e)),
        EventFilter::CheckedInOf(id) => e == (Event::CheckedIn { connection_id: id }),
        EventFilter::PoolClosed => e is PoolClosed,
    }
}

/// The events that the filter lets through, in order.
pub open spec fn accepted(events: Seq<Event>, filter: EventFilter) -> Seq<Event>
    decreases events.len(),
{
    if events.len() == 0 {
        Seq::empty()
    } else if accepts(filter, events.last()) {
        accepted(events.drop_last(), filter).push(events.last())
    } else {
        accepted(events.drop_last(), filter)
    }
}

/// The index of the first event at or after `from` that the filter lets
/// through, or the number of events if there is none.
pub open spec fn first_accepted(events: Seq<Event>, from: int, filter: EventFilter) -> int
    decreases events.len() - from,
{
    if from < 0 || from >= events.len() {
        events.len() as int
    } else if accepts(filter, events[from]) {
        from
    } else {
        first_accepted(events, from + 1, filter)
    }
}

/// How many of the events are published under `name`.
pub open spec fn named_count(events: Seq<Event>, name: Seq<char>) -> nat
    decreases events.len(),
{
    if events.len() == 0 {
        0
    } else {
        named_count(events.drop_last(), name) + if event_name(events.last()) == name {
            1nat
        } else {
            0nat
        }
    }
}

impl EventFilter {
    /// Whether the filter lets the event through.
    pub fn accepts(&self, e: &Event) -> (r: bool)
        ensures
            r == accepts(*self, *e),
    {
        match self {
            EventFilter::Any => true,
            EventFilter::NotNamed(names) => {
                let name = e.name();
                let n = names.len();
                let mut i: usize = 0;
                while i < n
                    invariant
                        0 <= i <= n,
                        n == names@.len(),
                        *self == EventFilter::NotNamed(*names),
                        name@ == event_name(*e),
                        forall|j: int| 0 <= j < i ==> (#[trigger] names@[j])@ != name@,
                    decreases n - i,
                {
                    if same_text(names[i].as_str(), name) {
                        return false;
                    }
                    i = i + 1;
                }
                true
            },
            EventFilter::CheckedInOf(id) => match e {
                Event::CheckedIn { connection_id } => *connection_id == *id,
                _ => false,
            },
            EventFilter::PoolClosed => matches!(e, Event::PoolClosed),
        }
    }
}

/// The record of everything a pool has published, oldest first.
#[derive(Debug)]
pub struct EventHandler {
    pub events: Vec<Event>,
}

/// A reader of the record. It remembers how far it has read.
#[derive(Debug)]
pub struct EventSubscriber {
    /// The number of events read so far.
    pub cursor: usize,
}

impl EventHandler {
    /// An empty record.
    pub fn new() -> (r: EventHandler)
        ensures
            r.events@.len() == 0,
    {
        EventHandler { events: Vec::new() }
    }

    /// Appends what an operation emitted.
    pub fn record(&mut self, emitted: &Vec<Event>)
        ensures
            final(self).events@ == old(self).events@ + emitted@,
    {
        let n = emitted.len();
        let mut i: usize = 0;
        while i < n
            invariant
                0 <= i <= n,
                n == emitted@.len(),
                self.events@ == old(self).events@ + emitted@.take(i as int),
            decreases n - i,
        {
            self.events.push(emitted[i]);
            i = i + 1;
        }
    }

    /// A reader that sees the events recorded from now on.
    pub fn subscribe(&self) -> (r: EventSubscriber)
        ensures
            r.cursor == self.events@.len(),
    {
        EventSubscriber { cursor: self.events.len() }
    }

    /// Counts the events of the given type that have occurred so far.
    pub fn count_events(&self, event_type: &str) -> (r: usize)
        ensures
            r == named_count(self.events@, event_type@),
    {
        let n = self.events.len();
        let mut count: usize = 0;
        let mut i: usize = 0;
        while i < n
            invariant
                0 <= i <= n,
                n == self.events@.len(),
                count == named_count(self.events@.take(i as int), event_type@),
                count <= i,
            decreases n - i,
        {
            proof {
                assert(self.events@.take(i + 1).drop_last() =~= self.events@.take(i as int));
            }
            if same_text(self.events[i].name(), event_type) {
                count = count + 1;
            }
            i = i + 1;
        }
        proof {
            assert(self.events@.take(n as int) =~= self.events@);
        }
        count
    }
}

impl EventSubscriber {
    /// The next event that the filter lets through, if one has been
    /// recorded. Events that the filter holds back are read past; if none is
    /// let through, the reader has read everything.
    pub fn next_event(&mut self, handler: &EventHandler, filter: &EventFilter) -> (r: Option<Event>)
        requires
            old(self).cursor <= handler.events@.len(),
        ensures
            ({
                let i = first_accepted(handler.events@, old(self).cursor as int, *filter);
                if i < handler.events@.len() {
                    r == Some(handler.events@[i]) && final(self).cursor == i + 1
                } else {
                    r is None && final(self).cursor == handler.events@.len()
                }
            }),
    {
        let n = handler.events.len();
        while self.cursor < n
            invariant
                old(self).cursor <= self.cursor <= n,
                n == handler.events@.len(),
                first_accepted(handler.events@, old(self).cursor as int, *filter) == first_accepted(
                    handler.events@,
                    self.cursor as int,
                    *filter,
                ),
            decreases n - self.cursor,
        {
            let e = handler.events[self.cursor];
            self.cursor = self.cursor + 1;
            if filter.accepts(&e) {
                return Some(e);
            }
        }
        None
    }

    /// All events that have been recorded and not read yet, as far as the
    /// filter lets them through. Afterwards the reader has read everything.
    pub fn all(&mut self, handler: &EventHandler, filter: &EventFilter) -> (r: Vec<Event>)
        requires
            old(self).cursor <= handler.events@.len(),
        ensures
            r@ == accepted(handler.events@.skip(old(self).cursor as int), *filter),
            final(self).cursor == handler.events@.len(),
    {
        let ghost unread = handler.events@.skip(self.cursor as int);
        let ghost start = self.cursor as int;
        let n = handler.events.len();
        let mut found: Vec<Event> = Vec::new();
        while self.cursor < n
            invariant
                0 <= start <= self.cursor <= n,
                n == handler.events@.len(),
                unread == handler.events@.skip(start),
                unread.len() == n - start,
                found@ == accepted(unread.take(self.cursor - start), *filter),
            decreases n - self.cursor,
        {
            let e = handler.events[self.cursor];
            proof {
                let k = self.cursor - start;
                assert(unread.take(k + 1).drop_last() =~= unread.take(k));
            }
            if filter.accepts(&e) {
                found.push(e);
            }
            self.cursor = self.cursor + 1;
        }
        proof {
            assert(unread.take(n - start) =~= unread);
        }
        found
    }
}

/// Why the record of a scenario is not what the scenario expects.
#[derive(Clone, Copy, Debug, PartialEq, Eq, Structural)]
pub enum EventVerdict {
    /// The expected event at this index was never published.
    Missing { index: usize },
    /// The event published for the expected event at this index does not
    /// match it.
    Mismatched { index: usize, mismatch: Mismatch },
    /// This many events were published beyond the expected ones.
    Unexpected { count: usize },
}

/// How the published events `actual`, from the index `k` on, compare with
/// the expected ones: each expected event needs a published one that matches
/// it, in order, and none may be left over.
pub open spec fn judge_events_from(actual: Seq<Event>, expected: Seq<Event>, k: int) -> Result<
    (),
    EventVerdict,
>
    decreases expected.len() - k,
{
    if k < 0 || k >= expected.len() {
        if actual.len() > expected.len() {
            Err(EventVerdict::Unexpected { count: (actual.len() - expected.len()) as usize })
        } else {
            Ok(())
        }
    } else if k >= actual.len() {
        Err(EventVerdict::Missing { index: k as usize })
    } else {
        match event_match(actual[k], expected[k]) {
            Err(mismatch) => Err(EventVerdict::Mismatched { index: k as usize, mismatch }),
            Ok(()) => judge_events_from(actual, expected, k + 1),
        }
    }
}

/// How a record compares with what a scenario expects, once the events
/// published under an ignored name are left out.
pub open spec fn judge_events(record: Seq<Event>, expected: Seq<Event>, ignored: Vec<String>) -> Result<
    (),
    EventVerdict,
> {
    judge_events_from(accepted(record, EventFilter::NotNamed(ignored)), expected, 0)
}

/// Compares a record with what a scenario expects. Events published under
/// one of the names `ignored` do not count. The first expected event that no
/// published event matches decides; if every expected event is matched, no
/// published event may be left over.
pub fn check_events(record: &EventHandler, expected: &Vec<Event>, ignored: Vec<String>) -> (r: Result<
    (),
    EventVerdict,
>)
    ensures
        r == judge_events(record.events@, expected@, ignored),
{
    let filter = EventFilter::NotNamed(ignored);
    let mut reader = EventSubscriber { cursor: 0 };
    let actual = reader.all(record, &filter);
    proof {
        assert(record.events@.skip(0) =~= record.events@);
    }
    let n = expected.len();
    let mut k: usize = 0;
    assert(judge_events(record.events@, expected@, ignored) == judge_events_from(
        actual@,
        expected@,
        0,
    ));
    while k < n
        invariant
            0 <= k <= n,
            n == expected@.len(),
            judge_events(record.events@, expected@, ignored) == judge_events_from(
                actual@,
                expected@,
                0,
            ),
            judge_events_from(actual@, expected@, 0) == judge_events_from(
                actual@,
                expected@,
                k as int,
            ),
        decreases n - k,
    {
        if k >= actual.len() {
            return Err(EventVerdict::Missing { index: k });
        }
        match actual[k].content_matches(&expected[k]) {
            Err(mismatch) => {
                return Err(EventVerdict::Mismatched { index: k, mismatch });
            },
            Ok(()) => {},
        }
        k = k + 1;
    }
    if actual.len() > n {
        Err(EventVerdict::Unexpected { count: actual.len() - n })
    } else {
        Ok(())
    }
}

/// Why the outcome of a scenario is not what the scenario expects.
#[derive(Clone, Copy, Debug, PartialEq, Eq, Structural)]
pub enum ErrorVerdict {
    /// An error was expected and none occurred.
    ExpectedErrorMissing,
    /// No error was expected and one occurred.
    UnexpectedError,
}

/// The error a scenario ends with: the first one that occurred.
pub fn first_error<E>(so_far: Option<E>, next: Option<E>) -> (r: Option<E>)
    ensures
        r == if so_far is Some {
            so_far
        } else {
            next
        },
{
    if so_far.is_none() {
        next
    } else {
        so_far
    }
}

/// Judges whether a scenario ended as expected: with an error if one was
/// expected, without one if none was.
pub fn judge_error(expected: bool, occurred: bool) -> (r: Result<(), ErrorVerdict>)
    ensures
        r == if expected && !occurred {
            Err::<(), ErrorVerdict>(ErrorVerdict::ExpectedErrorMissing)
        } else if !expected && occurred {
            Err::<(), ErrorVerdict>(ErrorVerdict::UnexpectedError)
        } else {
            Ok::<(), ErrorVerdict>(())
        },
{
    if expected && !occurred {
        Err(ErrorVerdict::ExpectedErrorMissing)
    } else if !expected && occurred {
        Err(ErrorVerdict::UnexpectedError)
    } else {
        Ok(())
    }
}

/// Whether a scenario with this description is left out: the harness drives
/// pools that are dropped when they are closed, and does not support a
/// timeout of the wait queue.
pub open spec fn is_skipped(description: Seq<char>) -> bool {
    ||| description == "must destroy checked in connection if pool has been closed"@
    ||| description == "must throw error if checkOut is called on a closed pool"@
    ||| description == "must aggressively timeout threads enqueued longer than waitQueueTimeoutMS"@
    ||| description == "waiting on maxConnecting is limited by WaitQueueTimeoutMS"@
    ||| description == "error during minPoolSize population clears pool"@
}

/// Whether a scenario with this description is left out.
pub fn should_skip(description: &str) -> (r: bool)
    ensures
        r == is_skipped(description@),
{
    same_text(description, "must destroy checked in connection if pool has been closed")
        || same_text(description, "must throw error if checkOut is called on a closed pool")
        || same_text(
        description,
        "must aggressively timeout threads enqueued longer than waitQueueTimeoutMS",
    ) || same_text(description, "waiting on maxConnecting is limited by WaitQueueTimeoutMS")
        || same_text(description, "error during minPoolSize population clears pool")
}

/// Why a scenario is not run.
#[derive(Clone, Copy, Debug, PartialEq, Eq, Structural)]
pub enum SkipReason {
    /// Its description is on the list of those left out.
    Description,
    /// The deployment is behind a load balancer.
    LoadBalanced,
    /// None of its requirements is met by the deployment.
    RunOn,
}

/// What to do with a scenario.
#[derive(Clone, Copy, Debug, PartialEq, Eq, Structural)]
pub enum TestPlan {
    /// Leave it out.
    Skip(SkipReason),
    /// Run it, with the fail point configured before and switched off after
    /// if the scenario has one.
    Run { fail_point: bool },
}

/// Whether one of the requirements is met.
pub open spec fn any_met(requirements: Seq<bool>) -> bool {
    exists|i: int| 0 <= i < requirements.len() && requirements[i]
}

/// What is done with a scenario: it is skipped for its description, else
/// for a load-balanced deployment, else if it has requirements and none is
/// met; otherwise it is run.
pub open spec fn plan(
    description: Seq<char>,
    load_balanced: Option<bool>,
    run_on: Option<Seq<bool>>,
    fail_point: bool,
) -> TestPlan {
    if is_skipped(description) {
        TestPlan::Skip(SkipReason::Description)
    } else if load_balanced == Some(true) {
        TestPlan::Skip(SkipReason::LoadBalanced)
    } else if run_on matches Some(requirements) && !any_met(requirements) {
        TestPlan::Skip(SkipReason::RunOn)
    } else {
        TestPlan::Run { fail_point }
    }
}

/// Decides what to do with a scenario. `run_on` says of each requirement of
/// the scenario whether the deployment meets it.
pub fn plan_test(
    description: &str,
    load_balanced: Option<bool>,
    run_on: &Option<Vec<bool>>,
    fail_point: bool,
) -> (r: TestPlan)
    ensures
        r == plan(
            description@,
            load_balanced,
            match *run_on {
                Some(requirements) => Some(requirements@),
                None => None,
            },
            fail_point,
        ),
{
    if should_skip(description) {
        return TestPlan::Skip(SkipReason::Description);
    }
    match load_balanced {
        Some(true) => {
            return TestPlan::Skip(SkipReason::LoadBalanced);
        },
        _ => {},
    }
    match run_on {
        Some(requirements) => {
            let n = requirements.len();
            let mut i: usize = 0;
            let mut met = false;
            while i < n && !met
                invariant
                    0 <= i <= n,
                    n == requirements@.len(),
                    met ==> any_met(requirements@),
                    !met ==> forall|j: int| 0 <= j < i ==> !requirements@[j],
                decreases n - i,
            {
                if requirements[i] {
                    met = true;
                }
                i = i + 1;
            }
            if !met {
                return TestPlan::Skip(SkipReason::RunOn);
            }
        },
        None => {},
    }
    TestPlan::Run { fail_point }
}

} // verus!

//! Scripted scenarios: the operations a scenario is made of, the state they
//! act on, and the executor that holds a scenario together.

use vstd::prelude::*;
use crate::connection::Connection;
use crate::event::{CheckOutFailedReason, Event};
use crate::harness::{EVENT_TIMEOUT, EventHandler, named_count};
use crate::model::{CheckOut, Disposition, PoolState, Wakeup, created};
use crate::options::{ConnectionPoolOptions, TlsOptions};
use crate::pool::{ApplicationError, ConnectionPool, PoolCommand};
use crate::text::same_text;

verus! {

/// One operation of a scenario.
#[derive(Debug)]
pub enum Operation {
    /// Start a thread under the name `target`.
    Start { target: String },
    /// Let `ms` milliseconds pass.
    Wait { ms: u64 },
    /// Wait until the thread `target` has run all its operations.
    WaitForThread { target: String },
    /// Wait until `count` events named `event` have been published, for
    /// `timeout` milliseconds at most.
    WaitForEvent { event: String, count: usize, timeout: Option<u64> },
    /// Check a connection out and keep it under `label`.
    CheckOut { label: Option<String> },
    /// Check the connection kept under `connection` in.
    CheckIn { connection: String },
    /// Clear the pool.
    Clear,
    /// Mark the pool as ready.
    Ready,
    /// Close the pool.
    Close,
}

/// An operation and the thread that is to run it, if it is not the main one.
#[derive(Debug)]
pub struct ThreadedOperation {
    pub type_: Operation,
    pub thread: Option<String>,
}

/// The error a scenario expects.
#[derive(Debug)]
pub struct ExpectedError {
    pub type_: String,
    pub message: String,
    pub address: Option<String>,
}

/// A scenario as it is written down.
#[derive(Debug)]
pub struct TestFile {
    pub description: String,
    pub pool_options: Option<ConnectionPoolOptions>,
    pub operations: Vec<ThreadedOperation>,
    pub error: Option<ExpectedError>,
    pub events: Vec<Event>,
    pub ignore: Vec<String>,
}

/// A connection and the name a scenario knows it by.
#[derive(Debug)]
pub struct LabeledConnection {
    pub label: String,
    pub connection: Connection,
}

/// What the operations of a scenario act on.
pub struct State {
    /// The record of what the pool published.
    pub handler: EventHandler,
    /// The connections the scenario holds under a name.
    pub connections: Vec<LabeledConnection>,
    /// The connections the scenario holds without a name.
    pub unlabeled_connections: Vec<Connection>,
    /// The names of the threads that were started and not yet waited for.
    pub threads: Vec<String>,
    /// The pool, until it is closed.
    pub pool: Option<ConnectionPool>,
    /// The pool once it is closed: connections that are still out come back
    /// to it.
    pub retired: Option<ConnectionPool>,
}

/// What is left to do for the runner once an operation has been executed.
#[derive(Debug)]
pub enum Directive {
    /// Nothing.
    Done,
    /// Sleep for `ms` milliseconds.
    Sleep { ms: u64 },
    /// Start a thread that runs the operations sent to `target`.
    Spawn { target: String },
    /// Hang up on the thread `target` and wait for it to finish.
    Join { target: String },
    /// Look again every 100 milliseconds until `count` events named `event`
    /// are on record, and give up after `timeout` milliseconds.
    AwaitEvents { event: String, count: usize, timeout: u64 },
    /// Establish a connection, report the outcome under `request`, and keep
    /// the connection under `label`.
    Establish { request: u64, label: Option<String> },
    /// Wait for the notification for `request`, and keep the connection it
    /// brings under `label`.
    AwaitConnection { request: u64, label: Option<String> },
}

/// What executing an operation came to.
#[derive(Debug)]
pub struct Executed {
    /// What is left to do.
    pub directive: Directive,
    /// The notifications to deliver to suspended requests.
    pub wakeups: Vec<Wakeup>,
    /// A connection that lost its name to another and is to be released.
    pub displaced: Option<Connection>,
    /// The connection that came back and is to be closed, with what became
    /// of it, after a check-in.
    pub disposition: Option<Disposition>,
}

/// Why an operation could not be executed.
#[derive(Clone, Copy, Debug, PartialEq, Eq, Structural)]
pub enum HarnessError {
    /// No thread of that name was started.
    UnknownThread,
    /// No connection is kept under that name.
    UnknownConnection,
    /// The connection is not one the pool handed out and has not got back.
    NotIssued,
    /// The check-out failed.
    CheckOutFailed(CheckOutFailedReason),
    /// A counter of the pool has run out.
    Exhausted,
}

/// Whether `i` is the first index at which a connection is kept under `label`.
pub open spec fn labelled_at(cs: Seq<LabeledConnection>, label: Seq<char>, i: int) -> bool {
    &&& 0 <= i < cs.len()
    &&& cs[i].label@ == label
    &&& forall|j: int| 0 <= j < i ==> (#[trigger] cs[j]).label@ != label
}

/// Whether no connection is kept under `label`.
pub open spec fn unlabelled(cs: Seq<LabeledConnection>, label: Seq<char>) -> bool {
    forall|j: int| 0 <= j < cs.len() ==> (#[trigger] cs[j]).label@ != label
}

/// Whether `i` is the first index at which `name` stands.
pub open spec fn named_at(names: Seq<String>, name: Seq<char>, i: int) -> bool {
    &&& 0 <= i < names.len()
    &&& names[i]@ == name
    &&& forall|j: int| 0 <= j < i ==> (#[trigger] names[j])@ != name
}

/// Whether `name` is none of `names`.
pub open spec fn unnamed(names: Seq<String>, name: Seq<char>) -> bool {
    forall|j: int| 0 <= j < names.len() ==> (#[trigger] names[j])@ != name
}

/// The first index at which a connection is kept under `label`.
fn find_label(cs: &Vec<LabeledConnection>, label: &str) -> (r: Option<usize>)
    ensures
        match r {
            Some(i) => labelled_at(cs@, label@, i as int),
            None => unlabelled(cs@, label@),
        },
{
    let n = cs.len();
    let mut i: usize = 0;
    while i < n
        invariant
            0 <= i <= n,
            n == cs@.len(),
            forall|j: int| 0 <= j < i ==> (#[trigger] cs@[j]).label@ != label@,
        decreases n - i,
    {
        if same_text(cs[i].label.as_str(), label) {
            return Some(i);
        }
        i = i + 1;
    }
    None
}

/// The first index at which `name` stands.
fn find_name(names: &Vec<String>, name: &str) -> (r: Option<usize>)
    ensures
        match r {
            Some(i) => named_at(names@, name@, i as int),
            None => unnamed(names@, name@),
        },
{
    let n = names.len();
    let mut i: usize = 0;
    while i < n
        invariant
            0 <= i <= n,
            n == names@.len(),
            forall|j: int| 0 <= j < i ==> (#[trigger] names@[j])@ != name@,
        decreases n - i,
    {
        if same_text(names[i].as_str(), name) {
            return Some(i);
        }
        i = i + 1;
    }
    None
}

/// Whether `post` holds the connections of `pre` and `connection` besides:
/// under `label`, in place of the connection `displaced` that was kept under
/// it before, if one was; or without a name.
pub open spec fn kept(
    pre: State,
    label: Option<String>,
    connection: Connection,
    post: State,
    displaced: Option<Connection>,
) -> bool {
    match label {
        None => {
            &&& displaced is None
            &&& post.connections == pre.connections
            &&& post.unlabeled_connections@ == pre.unlabeled_connections@.push(connection)
        },
        Some(name) => {
            &&& post.unlabeled_connections == pre.unlabeled_connections
            &&& match displaced {
                Some(c) => exists|i: int|
                    {
                        &&& labelled_at(pre.connections@, name@, i)
                        &&& c == pre.connections@[i].connection
                        &&& post.connections@.len() == pre.connections@.len()
                        &&& labelled_at(post.connections@, name@, i)
                        &&& post.connections@[i].connection == connection
                        &&& forall|j: int|
                            0 <= j < pre.connections@.len() && j != i ==> post.connections@[j]
                                == pre.connections@[j]
                    },
                None => {
                    &&& unlabelled(pre.connections@, name@)
                    &&& post.connections@.len() == pre.connections@.len() + 1
                    &&& post.connections@.last().label@ == name@
                    &&& post.connections@.last().connection == connection
                    &&& post.connections@.drop_last() == pre.connections@
                },
            }
        },
    }
}

/// Whether two optional texts read the same.
pub open spec fn same_label(a: Option<String>, b: Option<String>) -> bool {
    match (a, b) {
        (Some(x), Some(y)) => x@ == y@,
        (None, None) => true,
        _ => false,
    }
}

/// Whether `post` holds the same connections and threads as `pre`.
pub open spec fn same_holdings(pre: State, post: State) -> bool {
    &&& post.connections == pre.connections
    &&& post.unlabeled_connections == pre.unlabeled_connections
    &&& post.threads == pre.threads
}

/// Whether nothing is left to do and nobody is to be told anything.
pub open spec fn nothing_left(x: Executed) -> bool {
    &&& x.directive is Done
    &&& x.wakeups@.len() == 0
    &&& x.displaced is None
    &&& x.disposition is None
}

/// What a check-out at time `now`, for a connection to be kept under
/// `label`, comes to.
///
/// Without a pool nothing happens. A pool that cannot number the request
/// gives `Exhausted`. Otherwise the pool is asked, for a request that waits
/// as long as it takes, and what it published is
/// recorded: a connection that is handed out at once is kept; leave to
/// establish one, or a place in the queue, is passed on to the runner; a
/// refusal is the error of the operation.
pub open spec fn check_out_outcome(
    pre: State,
    label: Option<String>,
    now: u64,
    post: State,
    r: Result<Executed, HarnessError>,
) -> bool {
    match pre.pool {
        None => {
            &&& post == pre
            &&& r matches Ok(x)
            &&& nothing_left(x)
        },
        Some(p) => if p@.next_request_id >= u64::MAX {
            post == pre && r == Err::<Executed, HarnessError>(HarnessError::Exhausted)
        } else {
            let out = crate::model::check_out(p@, now, None);
            &&& post.pool matches Some(q) && q@ == out.post
            &&& post.retired is None
            &&& post.threads == pre.threads
            &&& match out.result {
                CheckOut::Connection(c) => {
                    &&& r matches Ok(x)
                    &&& x.directive is Done
                    &&& x.wakeups@.len() == 0
                    &&& x.disposition is None
                    &&& kept(pre, label, c, post, x.displaced)
                },
                CheckOut::Establish(request) => {
                    &&& same_holdings(pre, post)
                    &&& r matches Ok(x)
                    &&& x.wakeups@.len() == 0
                    &&& x.displaced is None
                    &&& x.disposition is None
                    &&& x.directive matches Directive::Establish { request: q, label: l }
                    &&& q == request
                    &&& same_label(l, label)
                },
                CheckOut::Waiting(request) => {
                    &&& same_holdings(pre, post)
                    &&& r matches Ok(x)
                    &&& x.wakeups@.len() == 0
                    &&& x.displaced is None
                    &&& x.disposition is None
                    &&& x.directive matches Directive::AwaitConnection { request: q, label: l }
                    &&& q == request
                    &&& same_label(l, label)
                },
                CheckOut::Failed(reason) => same_holdings(pre, post) && r == Err::<
                    Executed,
                    HarnessError,
                >(HarnessError::CheckOutFailed(reason)),
            }
        },
    }
}

/// What a check-in at time `now` of the connection kept under `label` comes
/// to.
///
/// Without such a connection the operation fails with `UnknownConnection`.
/// Otherwise the connection leaves the state. It goes back to the pool, or
/// to the retired pool if the pool is closed, and what the pool published is
/// recorded; if neither has it on its books, the operation fails with
/// `NotIssued`.
pub open spec fn check_in_outcome(
    pre: State,
    label: Seq<char>,
    now: u64,
    post: State,
    r: Result<Executed, HarnessError>,
) -> bool {
    if unlabelled(pre.connections@, label) {
        post == pre && r == Err::<Executed, HarnessError>(HarnessError::UnknownConnection)
    } else {
        exists|i: int|
            {
                &&& labelled_at(pre.connections@, label, i)
                &&& post.connections@ == pre.connections@.remove(i)
                &&& post.unlabeled_connections == pre.unlabeled_connections
                &&& post.threads == pre.threads
                &&& pool_took_back(pre, pre.connections@[i].connection, now, post, r)
            }
    }
}

/// The pool a connection goes back to: the pool, or the retired pool.
pub open spec fn home(s: State) -> Option<ConnectionPool> {
    if s.pool is Some {
        s.pool
    } else {
        s.retired
    }
}

/// What giving `c` back to its pool at time `now` comes to.
pub open spec fn pool_took_back(
    pre: State,
    c: Connection,
    now: u64,
    post: State,
    r: Result<Executed, HarnessError>,
) -> bool {
    match home(pre) {
        Some(p) if p@.has_issued(c) => {
            let back = crate::model::check_in(p@, c, now);
            &&& home(post) matches Some(q) && q@ == back.post
            &&& (post.pool is Some) == (pre.pool is Some)
            &&& (post.retired is Some) == (pre.retired is Some)
            &&& r matches Ok(x)
            &&& x.directive is Done
            &&& x.wakeups@ == back.wakeups
            &&& x.displaced is None
            &&& x.disposition == Some(back.disposition)
        },
        _ => post.pool == pre.pool && post.retired == pre.retired && post.handler == pre.handler
            && r == Err::<Executed, HarnessError>(HarnessError::NotIssued),
    }
}

impl State {
    /// Whether the state is as it should be: at most one of the pool and the
    /// retired pool is there, the one that is there is as a pool should be,
    /// the retired pool is closed, and the record holds exactly what the
    /// pool has published.
    pub open spec fn wf(&self) -> bool {
        &&& self.pool matches Some(p) ==> p.wf() && self.retired is None && self.handler.events@
            == p@.history
        &&& self.retired matches Some(p) ==> p.wf() && p@.state == PoolState::Closed
            && self.handler.events@ == p@.history
    }

    /// A state without a pool, without connections and with an empty record.
    pub fn new() -> (r: State)
        ensures
            r.wf(),
            r.pool is None,
            r.retired is None,
            r.handler.events@.len() == 0,
            r.connections@.len() == 0,
            r.unlabeled_connections@.len() == 0,
            r.threads@.len() == 0,
    {
        State {
            handler: EventHandler::new(),
            connections: Vec::new(),
            unlabeled_connections: Vec::new(),
            threads: Vec::new(),
            pool: None,
            retired: None,
        }
    }

    /// Creates the pool of the scenario and records its `PoolCreated`.
    pub fn create_pool(&mut self, address: String, options: &ConnectionPoolOptions)
        requires
            old(self).pool is None,
            old(self).retired is None,
            old(self).handler.events@.len() == 0,
        ensures
            final(self).wf(),
            final(self).pool matches Some(p) && p@ == created(
                address@,
                options.limits_spec(),
                options.event_options_spec(),
            ),
            final(self).retired is None,
            final(self).connections == old(self).connections,
            final(self).unlabeled_connections == old(self).unlabeled_connections,
            final(self).threads == old(self).threads,
    {
        let (pool, events) = ConnectionPool::new(address, options);
        self.handler.record(&events);
        self.pool = Some(pool);
    }

    /// Counts the events of the given type that have occurred so far.
    pub fn count_events(&self, event_type: &str) -> (r: usize)
        ensures
            r == named_count(self.handler.events@, event_type@),
    {
        self.handler.count_events(event_type)
    }

    /// Keeps a connection: under `label`, in place of the connection that
    /// was kept under it before, if one was, which is returned; or without
    /// a name.
    pub fn keep(&mut self, label: Option<String>, connection: Connection) -> (displaced: Option<
        Connection,
    >)
        ensures
            final(self).handler == old(self).handler,
            final(self).threads == old(self).threads,
            final(self).pool == old(self).pool,
            final(self).retired == old(self).retired,
            kept(*old(self), label, connection, *final(self), displaced),
    {
        match label {
            None => {
                self.unlabeled_connections.push(connection);
                None
            },
            Some(name) => match find_label(&self.connections, name.as_str()) {
                Some(i) => {
                    let old_entry = self.connections.remove(i);
                    self.connections.insert(i, LabeledConnection { label: name, connection });
                    proof {
                        assert(labelled_at(final(self).connections@, name@, i as int)) by {
                            assert forall|j: int| 0 <= j < i implies (#[trigger] self.connections@[j]).label@
                                != name@ by {
                            }
                        }
                        assert forall|j: int|
                            0 <= j < old(self).connections@.len() && j != i implies self.connections@[j]
                            == old(self).connections@[j] by {}
                    }
                    Some(old_entry.connection)
                },
                None => {
                    self.connections.push(LabeledConnection { label: name, connection });
                    proof {
                        assert(self.connections@.drop_last() =~= old(self).connections@);
                    }
                    None
                },
            },
        }
    }

    /// Takes the connection that is kept under `label`, the first if there
    /// are several.
    pub fn take(&mut self, label: &str) -> (r: Option<Connection>)
        ensures
            final(self).handler == old(self).handler,
            final(self).threads == old(self).threads,
            final(self).pool == old(self).pool,
            final(self).retired == old(self).retired,
            final(self).unlabeled_connections == old(self).unlabeled_connections,
            match r {
                Some(c) => exists|i: int|
                    {
                        &&& labelled_at(old(self).connections@, label@, i)
                        &&& c == old(self).connections@[i].connection
                        &&& final(self).connections@ == old(self).connections@.remove(i)
                    },
                None => unlabelled(old(self).connections@, label@) && final(self).connections
                    == old(self).connections,
            },
    {
        match find_label(&self.connections, label) {
            Some(i) => {
                let entry = self.connections.remove(i);
                Some(entry.connection)
            },
            None => None,
        }
    }
}

/// A notification-free result with nothing left to do.
fn done() -> (x: Executed)
    ensures
        nothing_left(x),
{
    Executed { directive: Directive::Done, wakeups: Vec::new(), displaced: None, disposition: None }
}

/// A notification-free result that leaves `directive` to do.
fn left(directive: Directive) -> (x: Executed)
    ensures
        x.directive == directive,
        x.wakeups@.len() == 0,
        x.displaced is None,
        x.disposition is None,
{
    Executed { directive, wakeups: Vec::new(), displaced: None, disposition: None }
}

/// What clearing the pool of a scenario because of `cause` comes to: without
/// a pool nothing happens; a pool that cannot be cleared any more gives
/// `Exhausted`; any other pool is cleared, and paused if `pause` says so, and
/// what it published is recorded.
pub open spec fn clear_outcome(
    pre: State,
    cause: Seq<char>,
    pause: bool,
    post: State,
    r: Result<Executed, HarnessError>,
) -> bool {
    &&& same_holdings(pre, post)
    &&& post.retired == pre.retired
    &&& match pre.pool {
        None => {
            &&& post == pre
            &&& r matches Ok(x)
            &&& nothing_left(x)
        },
        Some(p) => if p@.generation < u32::MAX {
            &&& post.pool matches Some(q) && q@ == crate::model::clear(p@, cause, pause)
            &&& r matches Ok(x)
            &&& nothing_left(x)
        } else {
            post == pre && r == Err::<Executed, HarnessError>(HarnessError::Exhausted)
        },
    }
}

/// What marking the pool of a scenario as ready at time `now` comes to.
pub open spec fn ready_outcome(pre: State, now: u64, post: State, x: Executed) -> bool {
    &&& same_holdings(pre, post)
    &&& post.retired == pre.retired
    &&& x.directive is Done
    &&& x.displaced is None
    &&& x.disposition is None
    &&& match pre.pool {
        None => post == pre && x.wakeups@.len() == 0,
        Some(p) => {
            &&& post.pool matches Some(q) && q@ == crate::model::mark_as_ready(p@, now).post
            &&& x.wakeups@ == crate::model::mark_as_ready(p@, now).wakeups
        },
    }
}

/// What closing the pool of a scenario comes to: the pool is closed and
/// retired.
pub open spec fn close_outcome(pre: State, post: State, x: Executed) -> bool {
    &&& same_holdings(pre, post)
    &&& post.pool is None
    &&& x.directive is Done
    &&& x.displaced is None
    &&& x.disposition is None
    &&& match pre.pool {
        None => post == pre && x.wakeups@.len() == 0,
        Some(p) => {
            &&& post.retired matches Some(q) && q@ == crate::model::close(p@).post
            &&& x.wakeups@ == crate::model::close(p@).wakeups
        },
    }
}

/// What starting a thread comes to: its name is noted, and the runner is to
/// spawn it.
pub open spec fn start_outcome(pre: State, target: Seq<char>, post: State, x: Executed) -> bool {
    &&& post.handler == pre.handler
    &&& post.connections == pre.connections
    &&& post.unlabeled_connections == pre.unlabeled_connections
    &&& post.pool == pre.pool
    &&& post.retired == pre.retired
    &&& post.threads@.len() == pre.threads@.len() + 1
    &&& post.threads@.drop_last() == pre.threads@
    &&& post.threads@.last()@ == target
    &&& x.directive matches Directive::Spawn { target: t } && t@ == target
    &&& x.wakeups@.len() == 0
    &&& x.displaced is None
    &&& x.disposition is None
}

/// What waiting for a thread comes to: a thread that was started is struck
/// off the list, and the runner is to join it; a name that was never
/// started gives `UnknownThread`.
pub open spec fn wait_for_thread_outcome(
    pre: State,
    target: Seq<char>,
    post: State,
    r: Result<Executed, HarnessError>,
) -> bool {
    &&& post.handler == pre.handler
    &&& post.connections == pre.connections
    &&& post.unlabeled_connections == pre.unlabeled_connections
    &&& post.pool == pre.pool
    &&& post.retired == pre.retired
    &&& if unnamed(pre.threads@, target) {
        post.threads == pre.threads && r == Err::<Executed, HarnessError>(
            HarnessError::UnknownThread,
        )
    } else {
        &&& exists|i: int|
            named_at(pre.threads@, target, i) && post.threads@ == pre.threads@.remove(i)
        &&& r matches Ok(x)
        &&& x.directive matches Directive::Join { target: t }
        &&& t@ == target
        &&& x.wakeups@.len() == 0
        &&& x.displaced is None
        &&& x.disposition is None
    }
}

/// What waiting for events comes to: nothing is left to do if `count` events
/// named `event` are on record; else the runner is to wait for them, for
/// `timeout` milliseconds or, if none is given, for `EVENT_TIMEOUT`.
pub open spec fn wait_for_event_outcome(
    s: State,
    event: Seq<char>,
    count: usize,
    timeout: Option<u64>,
    x: Executed,
) -> bool {
    &&& x.wakeups@.len() == 0
    &&& x.displaced is None
    &&& x.disposition is None
    &&& if named_count(s.handler.events@, event) >= count {
        x.directive is Done
    } else {
        &&& x.directive matches Directive::AwaitEvents { event: e, count: c, timeout: t }
        &&& e@ == event
        &&& c == count
        &&& t == match timeout {
            Some(ms) => ms,
            None => EVENT_TIMEOUT,
        }
    }
}

/// The text a scenario's clear gives as its cause.
pub open spec fn test_cause() -> Seq<char> {
    "test error"@
}

impl State {
    /// Checks a connection out at time `now`, to be kept under `label`.
    pub fn check_out(&mut self, label: Option<String>, now: u64) -> (r: Result<
        Executed,
        HarnessError,
    >)
        requires
            old(self).wf(),
        ensures
            final(self).wf(),
            check_out_outcome(*old(self), label, now, *final(self), r),
    {
        if self.pool.is_none() {
            return Ok(done());
        }
        let mut pool = self.pool.take().unwrap();
        if !pool.can_number_requests() {
            self.pool = Some(pool);
            return Err(HarnessError::Exhausted);
        }
        let (result, events) = pool.check_out(now, None);
        self.handler.record(&events);
        self.pool = Some(pool);
        match result {
            CheckOut::Connection(c) => {
                let displaced = self.keep(label, c);
                Ok(
                    Executed {
                        directive: Directive::Done,
                        wakeups: Vec::new(),
                        displaced,
                        disposition: None,
                    },
                )
            },
            CheckOut::Establish(request) => Ok(left(Directive::Establish { request, label })),
            CheckOut::Waiting(request) => Ok(left(Directive::AwaitConnection { request, label })),
            CheckOut::Failed(reason) => Err(HarnessError::CheckOutFailed(reason)),
        }
    }

    /// Gives `c` back, at time `now`, to the pool or, if that is closed, to
    /// the retired pool.
    pub fn release(&mut self, c: Connection, now: u64) -> (r: Result<Executed, HarnessError>)
        requires
            old(self).wf(),
        ensures
            final(self).wf(),
            same_holdings(*old(self), *final(self)),
            pool_took_back(*old(self), c, now, *final(self), r),
    {
        if self.pool.is_some() {
            let mut pool = self.pool.take().unwrap();
            if !pool.has_issued(&c) {
                self.pool = Some(pool);
                return Err(HarnessError::NotIssued);
            }
            let (disposition, fx) = pool.check_in(c, now);
            self.handler.record(&fx.events);
            self.pool = Some(pool);
            Ok(
                Executed {
                    directive: Directive::Done,
                    wakeups: fx.wakeups,
                    displaced: None,
                    disposition: Some(disposition),
                },
            )
        } else if self.retired.is_some() {
            let mut pool = self.retired.take().unwrap();
            if !pool.has_issued(&c) {
                self.retired = Some(pool);
                return Err(HarnessError::NotIssued);
            }
            proof {
                crate::invariants::lemma_check_in(pool@, c, now);
            }
            let (disposition, fx) = pool.check_in(c, now);
            self.handler.record(&fx.events);
            self.retired = Some(pool);
            Ok(
                Executed {
                    directive: Directive::Done,
                    wakeups: fx.wakeups,
                    displaced: None,
                    disposition: Some(disposition),
                },
            )
        } else {
            Err(HarnessError::NotIssued)
        }
    }

    /// Checks the connection that is kept under `label` in at time `now`.
    pub fn check_in(&mut self, label: &str, now: u64) -> (r: Result<Executed, HarnessError>)
        requires
            old(self).wf(),
        ensures
            final(self).wf(),
            check_in_outcome(*old(self), label@, now, *final(self), r),
    {
        match self.take(label) {
            None => Err(HarnessError::UnknownConnection),
            Some(c) => {
                self.release(c, now)
            },
        }
    }

    /// Clears the pool, if there is one, because of `cause`, and pauses it if
    /// `pause` says so. A pool that cannot be cleared any more gives
    /// `Exhausted`.
    pub fn clear_because(&mut self, cause: String, pause: bool) -> (r: Result<
        Executed,
        HarnessError,
    >)
        requires
            old(self).wf(),
        ensures
            final(self).wf(),
            clear_outcome(*old(self), cause@, pause, *final(self), r),
    {
        if self.pool.is_none() {
            return Ok(done());
        }
        let mut pool = self.pool.take().unwrap();
        if !pool.can_clear() {
            self.pool = Some(pool);
            return Err(HarnessError::Exhausted);
        }
        let events = pool.clear(cause, pause);
        self.handler.record(&events);
        self.pool = Some(pool);
        Ok(done())
    }

    /// Clears the pool, if there is one, giving "test error" as the cause.
    /// A pool that cannot be cleared any more gives `Exhausted`.
    pub fn clear(&mut self) -> (r: Result<Executed, HarnessError>)
        requires
            old(self).wf(),
        ensures
            final(self).wf(),
            clear_outcome(*old(self), test_cause(), false, *final(self), r),
    {
        self.clear_because("test error".to_owned(), false)
    }

    /// Carries out a control command of the topology monitor at time `now`:
    /// a clear as `clear_because` does, a mark as ready as `ready` does.
    pub fn handle(&mut self, command: PoolCommand, now: u64) -> (r: Result<Executed, HarnessError>)
        requires
            old(self).wf(),
        ensures
            final(self).wf(),
            match command {
                PoolCommand::Clear { cause, pause } => clear_outcome(
                    *old(self),
                    cause@,
                    pause,
                    *final(self),
                    r,
                ),
                PoolCommand::MarkAsReady => r matches Ok(x) && ready_outcome(
                    *old(self),
                    now,
                    *final(self),
                    x,
                ),
            },
    {
        match command {
            PoolCommand::Clear { cause, pause } => self.clear_because(cause, pause),
            PoolCommand::MarkAsReady => Ok(self.ready(now)),
        }
    }

    /// Marks the pool, if there is one, as ready at time `now`.
    pub fn ready(&mut self, now: u64) -> (x: Executed)
        requires
            old(self).wf(),
        ensures
            final(self).wf(),
            ready_outcome(*old(self), now, *final(self), x),
    {
        if self.pool.is_none() {
            return done();
        }
        let mut pool = self.pool.take().unwrap();
        let fx = pool.mark_as_ready(now);
        self.handler.record(&fx.events);
        self.pool = Some(pool);
        Executed {
            directive: Directive::Done,
            wakeups: fx.wakeups,
            displaced: None,
            disposition: None,
        }
    }

    /// Closes the pool, if there is one, and retires it.
    pub fn close(&mut self) -> (x: Executed)
        requires
            old(self).wf(),
        ensures
            final(self).wf(),
            close_outcome(*old(self), *final(self), x),
    {
        if self.pool.is_none() {
            return done();
        }
        let mut pool = self.pool.take().unwrap();
        proof {
            crate::invariants::lemma_close(pool@);
        }
        let fx = pool.close();
        self.handler.record(&fx.events);
        self.retired = Some(pool);
        Executed {
            directive: Directive::Done,
            wakeups: fx.wakeups,
            displaced: None,
            disposition: None,
        }
    }

    /// Notes that a thread was started under the name `target`.
    pub fn start(&mut self, target: String) -> (x: Executed)
        ensures
            start_outcome(*old(self), target@, *final(self), x),
    {
        self.threads.push(target.clone());
        proof {
            assert(self.threads@.drop_last() =~= old(self).threads@);
        }
        left(Directive::Spawn { target })
    }

    /// Strikes the thread `target` off the list of those started, the first
    /// if the name stands there more than once.
    pub fn wait_for_thread(&mut self, target: String) -> (r: Result<Executed, HarnessError>)
        ensures
            wait_for_thread_outcome(*old(self), target@, *final(self), r),
    {
        match find_name(&self.threads, target.as_str()) {
            None => Err(HarnessError::UnknownThread),
            Some(i) => {
                let _ = self.threads.remove(i);
                Ok(left(Directive::Join { target }))
            },
        }
    }

    /// Says whether `count` events named `event` are on record and, if not,
    /// for how long the runner is to wait for them: `timeout` milliseconds,
    /// or `EVENT_TIMEOUT` if none is given.
    pub fn wait_for_event(&self, event: String, count: usize, timeout: Option<u64>) -> (x: Executed)
        ensures
            wait_for_event_outcome(*self, event@, count, timeout, x),
    {
        if self.count_events(event.as_str()) >= count {
            done()
        } else {
            let timeout = match timeout {
                Some(ms) => ms,
                None => EVENT_TIMEOUT,
            };
            left(Directive::AwaitEvents { event, count, timeout })
        }
    }

    /// Reports, at time `now`, that the connection for `request` has been
    /// established, and keeps it under `label` if it goes to the request.
    /// Returns `None`, and changes nothing, unless the pool or the retired
    /// pool has an establishment under way under `request` and can number the
    /// connection.
    pub fn established(&mut self, request: u64, label: Option<String>, now: u64) -> (r: Option<
        Executed,
    >)
        requires
            old(self).wf(),
        ensures
            final(self).wf(),
            final(self).threads == old(self).threads,
            match home(*old(self)) {
                Some(p) if p@.is_connecting(request) && p@.next_connection_id < u32::MAX => {
                    let made = crate::model::established(p@, request, now);
                    &&& home(*final(self)) matches Some(q) && q@ == made.post
                    &&& (final(self).pool is Some) == (old(self).pool is Some)
                    &&& r matches Some(x)
                    &&& x.directive is Done
                    &&& x.wakeups@ == made.wakeups
                    &&& x.disposition is None
                    &&& match made.connection {
                        Some(c) => kept(*old(self), label, c, *final(self), x.displaced),
                        None => x.displaced is None && final(self).connections == old(
                            self,
                        ).connections && final(self).unlabeled_connections == old(
                            self,
                        ).unlabeled_connections,
                    }
                },
                _ => r is None && *final(self) == *old(self),
            },
    {
        let active = self.pool.is_some();
        let mut pool = if active {
            self.pool.take().unwrap()
        } else if self.retired.is_some() {
            self.retired.take().unwrap()
        } else {
            return None;
        };
        if !pool.is_connecting(request) || !pool.can_number_connections() {
            if active {
                self.pool = Some(pool);
            } else {
                self.retired = Some(pool);
            }
            return None;
        }
        proof {
            crate::invariants::lemma_established(pool@, request, now);
        }
        let (connection, fx) = pool.connection_established(request, now);
        self.handler.record(&fx.events);
        if active {
            self.pool = Some(pool);
        } else {
            self.retired = Some(pool);
        }
        let displaced = match connection {
            Some(c) => self.keep(label, c),
            None => None,
        };
        Some(
            Executed { directive: Directive::Done, wakeups: fx.wakeups, displaced, disposition: None },
        )
    }

    /// Reports, at time `now`, that the connection for `request` could not be
    /// established because of `cause`. Returns the report for the topology
    /// monitor, if one is due, and the notifications; `None`, and changes
    /// nothing, unless the pool or the retired pool has an establishment
    /// under way under `request`.
    pub fn establish_failed(&mut self, request: u64, cause: String, now: u64) -> (r: Option<
        (Option<ApplicationError>, Vec<Wakeup>),
    >)
        requires
            old(self).wf(),
        ensures
            final(self).wf(),
            same_holdings(*old(self), *final(self)),
            match home(*old(self)) {
                Some(p) if p@.is_connecting(request) => {
                    let failed = crate::model::establish_failed(p@, request, now);
                    &&& home(*final(self)) matches Some(q) && q@ == failed.post
                    &&& (final(self).pool is Some) == (old(self).pool is Some)
                    &&& r matches Some(x)
                    &&& (x.0 is Some) == failed.report
                    &&& x.0 matches Some(report) ==> report.cause@ == cause@ && report.address@
                        == p@.address && report.generation == p@.generation
                        && report.connection_id is None
                    &&& x.1@ == failed.wakeups
                },
                _ => r is None && *final(self) == *old(self),
            },
    {
        let active = self.pool.is_some();
        let mut pool = if active {
            self.pool.take().unwrap()
        } else if self.retired.is_some() {
            self.retired.take().unwrap()
        } else {
            return None;
        };
        if !pool.is_connecting(request) {
            if active {
                self.pool = Some(pool);
            } else {
                self.retired = Some(pool);
            }
            return None;
        }
        proof {
            crate::invariants::lemma_establish_failed(pool@, request, now);
        }
        let (report, fx) = pool.establishment_failed(request, cause, now);
        self.handler.record(&fx.events);
        if active {
            self.pool = Some(pool);
        } else {
            self.retired = Some(pool);
        }
        Some((report, fx.wakeups))
    }
}

impl Operation {
    /// Executes this operation on `state` at time `now`, as far as that can
    /// be done at once, and says what is left to do.
    ///
    /// `Wait` leaves the runner to sleep. `Start` and `WaitForThread` keep
    /// the list of threads and leave the runner to spawn and to join.
    /// `WaitForEvent` consults the record. `CheckOut`, `CheckIn`, `Clear`,
    /// `Ready` and `Close` are carried out on the pool, and what the pool
    /// published is recorded.
    pub fn execute(self, state: &mut State, now: u64) -> (r: Result<Executed, HarnessError>)
        requires
            old(state).wf(),
        ensures
            final(state).wf(),
            match self {
                Operation::Wait { ms } => {
                    &&& *final(state) == *old(state)
                    &&& r matches Ok(x)
                    &&& x.directive == (Directive::Sleep { ms })
                    &&& x.wakeups@.len() == 0
                    &&& x.displaced is None
                    &&& x.disposition is None
                },
                Operation::Start { target } => r matches Ok(x) && start_outcome(
                    *old(state),
                    target@,
                    *final(state),
                    x,
                ),
                Operation::WaitForThread { target } => wait_for_thread_outcome(
                    *old(state),
                    target@,
                    *final(state),
                    r,
                ),
                Operation::WaitForEvent { event, count, timeout } => {
                    &&& *final(state) == *old(state)
                    &&& r matches Ok(x)
                    &&& wait_for_event_outcome(*old(state), event@, count, timeout, x)
                },
                Operation::CheckOut { label } => check_out_outcome(
                    *old(state),
                    label,
                    now,
                    *final(state),
                    r,
                ),
                Operation::CheckIn { connection } => check_in_outcome(
                    *old(state),
                    connection@,
                    now,
                    *final(state),
                    r,
                ),
                Operation::Clear => clear_outcome(
                    *old(state),
                    test_cause(),
                    false,
                    *final(state),
                    r,
                ),
                Operation::Ready => r matches Ok(x) && ready_outcome(
                    *old(state),
                    now,
                    *final(state),
                    x,
                ),
                Operation::Close => r matches Ok(x) && close_outcome(*old(state), *final(state), x),
            },
    {
        match self {
            Operation::Wait { ms } => Ok(left(Directive::Sleep { ms })),
            Operation::Start { target } => Ok(state.start(target)),
            Operation::WaitForThread { target } => state.wait_for_thread(target),
            Operation::WaitForEvent { event, count, timeout } => Ok(
                state.wait_for_event(event, count, timeout),
            ),
            Operation::CheckOut { label } => state.check_out(label, now),
            Operation::CheckIn { connection } => state.check_in(connection.as_str(), now),
            Operation::Clear => state.clear(),
            Operation::Ready => Ok(state.ready(now)),
            Operation::Close => Ok(state.close()),
        }
    }
}

/// A scenario that is ready to be executed.
pub struct Executor {
    pub description: String,
    pub operations: Vec<ThreadedOperation>,
    pub error: Option<ExpectedError>,
    pub events: Vec<Event>,
    pub state: State,
    pub ignored_event_names: Vec<String>,
    pub pool_options: ConnectionPoolOptions,
}

impl Executor {
    /// Prepares a scenario: the pool options are those of the scenario, or
    /// the defaults if it gives none, with the TLS options of the deployment
    /// put in; the state is fresh.
    pub fn new(test_file: TestFile, tls_options: Option<TlsOptions>) -> (r: Executor)
        ensures
            r.description == test_file.description,
            r.operations == test_file.operations,
            r.error == test_file.error,
            r.events == test_file.events,
            r.ignored_event_names == test_file.ignore,
            r.pool_options.tls_options == tls_options,
            match test_file.pool_options {
                Some(o) => {
                    &&& r.pool_options.max_pool_size == o.max_pool_size
                    &&& r.pool_options.min_pool_size == o.min_pool_size
                    &&& r.pool_options.max_idle_time == o.max_idle_time
                    &&& r.pool_options.max_connecting == o.max_connecting
                },
                None => {
                    &&& r.pool_options.max_pool_size is None
                    &&& r.pool_options.min_pool_size is None
                    &&& r.pool_options.max_idle_time is None
                    &&& r.pool_options.max_connecting is None
                },
            },
            r.state.wf(),
            r.state.pool is None,
            r.state.retired is None,
            r.state.handler.events@.len() == 0,
            r.state.connections@.len() == 0,
            r.state.unlabeled_connections@.len() == 0,
            r.state.threads@.len() == 0,
    {
        let mut pool_options = match test_file.pool_options {
            Some(options) => options,
            None => ConnectionPoolOptions::default(),
        };
        pool_options.tls_options = tls_options;
        Executor {
            description: test_file.description,
            operations: test_file.operations,
            error: test_file.error,
            events: test_file.events,
            state: State::new(),
            ignored_event_names: test_file.ignore,
            pool_options,
        }
    }

    /// Creates the pool of the scenario for the server at `address`.
    pub fn start(&mut self, address: String)
        requires
            old(self).state.pool is None,
            old(self).state.retired is None,
            old(self).state.handler.events@.len() == 0,
        ensures
            final(self).state.wf(),
            final(self).state.pool matches Some(p) && p@ == created(
                address@,
                old(self).pool_options.limits_spec(),
                old(self).pool_options.event_options_spec(),
            ),
            final(self).state.connections == old(self).state.connections,
            final(self).state.unlabeled_connections == old(self).state.unlabeled_connections,
            final(self).state.threads == old(self).state.threads,
            final(self).description == old(self).description,
            final(self).operations == old(self).operations,
            final(self).error == old(self).error,
            final(self).events == old(self).events,
            final(self).ignored_event_names == old(self).ignored_event_names,
            final(self).pool_options == old(self).pool_options,
    {
        self.state.create_pool(address, &self.pool_options);
    }
}

} // verus!

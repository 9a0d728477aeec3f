//! The pool as a mathematical state machine.
//!
//! A `PoolView` is everything the pool knows; each operation of the pool is a
//! function from a view and the operation's arguments to the next view and
//! what the operation hands back. The executable pool refines these functions
//! one for one, and the laws of the pool are proved about them.

use vstd::prelude::*;
use crate::connection::{Connection, is_stale, is_usable, touched};
use crate::event::{CheckOutFailedReason, ConnectionClosedReason, Event};
use crate::options::{EventOptions, Limits};

verus! {

/// Whether a pool serves check-outs.
#[derive(Clone, Copy, Debug, PartialEq, Eq, Structural)]
pub enum PoolState {
    /// Not yet, or no longer, cleared to serve: check-outs are parked.
    Paused,
    /// Serving.
    Ready,
    /// Shut down for good.
    Closed,
}

/// A check-out request that has not been served yet.
#[derive(Clone, Copy, Debug, PartialEq, Eq, Structural)]
pub struct Waiter {
    /// The request's identity, in order of arrival.
    pub request: u64,
    /// The time after which the request gives up, if it ever does.
    pub deadline: Option<u64>,
    /// Whether `CheckOutStarted` has been emitted for it. A request that
    /// arrived while the pool was paused starts when the pool becomes ready.
    pub started: bool,
}

/// A connection that is being established.
#[derive(Clone, Copy, Debug, PartialEq, Eq, Structural)]
pub struct Establishment {
    /// The request the connection is for, or the number background
    /// maintenance drew for it.
    pub id: u64,
    /// Whether nobody is waiting for the result.
    pub background: bool,
}

/// What a suspended request is told.
#[derive(Debug)]
pub enum Grant {
    /// Here is your connection.
    Connection(Connection),
    /// Establish a connection and report back under your request number.
    Establish,
    /// The check-out failed.
    Failed(CheckOutFailedReason),
}

/// A notification for a suspended request.
#[derive(Debug)]
pub struct Wakeup {
    pub request: u64,
    pub grant: Grant,
}

/// Everything a pool knows.
#[verifier::ext_equal]
pub struct PoolView {
    /// The address of the server the pool connects to.
    pub address: Seq<char>,
    pub limits: Limits,
    pub state: PoolState,
    /// Bumped by every clear.
    pub generation: u32,
    /// The cause of the latest clear, kept for diagnostics.
    pub last_clear_cause: Option<Seq<char>>,
    /// Idle connections, most recently returned first.
    pub idle: Seq<Connection>,
    /// The connections callers hold.
    pub checked_out: Seq<Connection>,
    /// The connections being established.
    pub connecting: Seq<Establishment>,
    /// Unserved requests, longest waiting first.
    pub wait_queue: Seq<Waiter>,
    /// The id the next connection gets.
    pub next_connection_id: u32,
    /// The number the next request gets.
    pub next_request_id: u64,
    /// Every event emitted so far.
    pub history: Seq<Event>,
}

impl PoolView {
    /// The connections that count against `max_pool_size`: idle, checked out
    /// and in the making.
    pub open spec fn total_established(self) -> nat {
        self.idle.len() + self.checked_out.len() + self.connecting.len()
    }

    /// Whether one more connection may be started right now.
    pub open spec fn has_capacity(self) -> bool {
        self.total_established() < self.limits.max_pool_size && self.connecting.len()
            < self.limits.max_connecting
    }

    /// Whether an establishment runs under `id`.
    pub open spec fn is_connecting(self, id: u64) -> bool {
        exists|i: int| 0 <= i < self.connecting.len() && (#[trigger] self.connecting[i]).id == id
    }

    /// Whether `c` is one of the connections callers hold.
    pub open spec fn has_issued(self, c: Connection) -> bool {
        self.checked_out.contains(c)
    }

    /// The same pool after emitting `e`.
    pub open spec fn emit(self, e: Event) -> PoolView {
        PoolView { history: self.history.push(e), ..self }
    }

    /// The same pool after emitting `es` in order.
    pub open spec fn emit_all(self, es: Seq<Event>) -> PoolView {
        PoolView { history: self.history + es, ..self }
    }

    /// The same pool with `c` at the head of the idle store.
    pub open spec fn store(self, c: Connection) -> PoolView {
        PoolView { idle: seq![c] + self.idle, ..self }
    }

    /// The same pool after handing `c` to a caller, with `CheckedOut`.
    pub open spec fn lend(self, c: Connection) -> PoolView {
        PoolView { checked_out: self.checked_out.push(c), ..self }.emit(
            Event::CheckedOut { connection_id: c.id },
        )
    }

    /// The same pool after a caller gave back what stands at `i` among the
    /// connections callers hold, with `CheckedIn`.
    pub open spec fn take_back(self, i: int) -> PoolView {
        PoolView { checked_out: self.checked_out.remove(i), ..self }.emit(
            Event::CheckedIn { connection_id: self.checked_out[i].id },
        )
    }

    /// The same pool with one more establishment under way.
    pub open spec fn begin(self, e: Establishment) -> PoolView {
        PoolView { connecting: self.connecting.push(e), ..self }
    }

    /// The same pool without the establishment at `i`.
    pub open spec fn finish(self, i: int) -> PoolView {
        PoolView { connecting: self.connecting.remove(i), ..self }
    }

    /// The same pool with `w` at the back of the wait queue.
    pub open spec fn enqueue(self, w: Waiter) -> PoolView {
        PoolView { wait_queue: self.wait_queue.push(w), ..self }
    }

    /// The same pool without the first `k` idle connections, each closed with
    /// the reason it is unusable for.
    pub open spec fn discard(self, k: int) -> PoolView {
        PoolView { idle: self.idle.skip(k), ..self }.emit_all(
            discard_events(self.idle.take(k), self.generation),
        )
    }

    /// The connection that is established next, at time `now`.
    pub open spec fn fresh(self, now: u64) -> Connection {
        Connection {
            id: self.next_connection_id,
            generation: self.generation,
            created_at: now,
            last_used_at: now,
        }
    }

    /// The same pool after the connection `self.fresh(..)` was made, with
    /// `ConnectionCreated` and `ConnectionReady`.
    pub open spec fn make(self) -> PoolView {
        PoolView { next_connection_id: (self.next_connection_id + 1) as u32, ..self }.emit(
            Event::ConnectionCreated { connection_id: self.next_connection_id },
        ).emit(Event::ConnectionReady { connection_id: self.next_connection_id })
    }
}

/// The state of a pool that was just created.
pub open spec fn created(address: Seq<char>, limits: Limits, options: EventOptions) -> PoolView {
    PoolView {
        address,
        limits,
        state: PoolState::Paused,
        generation: 0,
        last_clear_cause: None,
        idle: Seq::empty(),
        checked_out: Seq::empty(),
        connecting: Seq::empty(),
        wait_queue: Seq::empty(),
        next_connection_id: 1,
        next_request_id: 1,
        history: seq![Event::PoolCreated { options: Some(options) }],
    }
}

/// Why an unusable connection is closed: staleness takes precedence.
pub open spec fn close_reason(c: Connection, generation: u32) -> ConnectionClosedReason {
    if is_stale(c, generation) {
        ConnectionClosedReason::Stale
    } else {
        ConnectionClosedReason::Idle
    }
}

/// One `ConnectionClosed` per connection, in order, each with the reason it
/// is unusable for.
pub open spec fn discard_events(cs: Seq<Connection>, generation: u32) -> Seq<Event> {
    Seq::new(
        cs.len(),
        |i: int|
            Event::ConnectionClosed {
                connection_id: cs[i].id,
                reason: close_reason(cs[i], generation),
            },
    )
}

/// One `ConnectionClosed` per connection, in order, all with the same reason.
pub open spec fn closing_events(cs: Seq<Connection>, reason: ConnectionClosedReason) -> Seq<Event> {
    Seq::new(cs.len(), |i: int| Event::ConnectionClosed { connection_id: cs[i].id, reason })
}

/// `n` times the same event.
pub open spec fn repeated(e: Event, n: nat) -> Seq<Event> {
    Seq::new(n, |i: int| e)
}

/// How many connections at the front of the idle store cannot be used.
pub open spec fn unusable_prefix(
    idle: Seq<Connection>,
    generation: u32,
    max_idle_time: Option<u64>,
    now: u64,
) -> nat
    decreases idle.len(),
{
    if idle.len() == 0 || is_usable(idle[0], generation, max_idle_time, now) {
        0
    } else {
        1 + unusable_prefix(idle.drop_first(), generation, max_idle_time, now)
    }
}

/// What trying to serve one started request comes to.
#[verifier::ext_equal]
pub struct Admission {
    pub post: PoolView,
    /// `None` if the request has to wait.
    pub grant: Option<Grant>,
}

/// Tries to serve one started request: the first usable idle connection if
/// there is one, else leave to establish a connection if the limits allow
/// it. Unusable idle connections met on the way are closed.
pub open spec fn serve(s: PoolView, request: u64, now: u64) -> Admission {
    let k = unusable_prefix(s.idle, s.generation, s.limits.max_idle_time, now) as int;
    let s1 = s.discard(k);
    if s1.idle.len() > 0 {
        let c = touched(s1.idle[0], now);
        Admission {
            post: PoolView { idle: s1.idle.drop_first(), ..s1 }.lend(c),
            grant: Some(Grant::Connection(c)),
        }
    } else if s1.has_capacity() {
        Admission {
            post: s1.begin(Establishment { id: request, background: false }),
            grant: Some(Grant::Establish),
        }
    } else {
        Admission { post: s1, grant: None }
    }
}

/// A state together with the notifications that led to it.
#[verifier::ext_equal]
pub struct Settled {
    pub post: PoolView,
    pub wakeups: Seq<Wakeup>,
}

/// Serves waiting requests, longest waiting first, until the pool is not
/// ready, nobody waits, or the request at the head cannot be served.
pub open spec fn settle(s: PoolView, now: u64) -> Settled
    decreases s.wait_queue.len(),
{
    if s.state != PoolState::Ready || s.wait_queue.len() == 0 {
        Settled { post: s, wakeups: Seq::empty() }
    } else {
        let head = s.wait_queue[0];
        let a = serve(s, head.request, now);
        match a.grant {
            None => Settled { post: a.post, wakeups: Seq::empty() },
            Some(grant) => {
                let rest = settle(
                    PoolView { wait_queue: s.wait_queue.drop_first(), ..a.post },
                    now,
                );
                Settled {
                    post: rest.post,
                    wakeups: seq![Wakeup { request: head.request, grant }] + rest.wakeups,
                }
            },
        }
    }
}

/// The deadline of a request that arrives at `now`. A deadline that does not
/// fit the clock never comes.
pub open spec fn deadline_at(now: u64, timeout: Option<u64>) -> Option<u64> {
    match timeout {
        Some(t) => if now + t <= u64::MAX {
            Some((now + t) as u64)
        } else {
            None
        },
        None => None,
    }
}

/// Whether a waiting request has reached its deadline.
pub open spec fn is_due(w: Waiter, now: u64) -> bool {
    match w.deadline {
        Some(d) => d <= now,
        None => false,
    }
}

/// The same waiter, started.
pub open spec fn started(w: Waiter) -> Waiter {
    Waiter { request: w.request, deadline: w.deadline, started: true }
}

/// The same establishment with nobody waiting for it.
pub open spec fn orphaned(e: Establishment) -> Establishment {
    Establishment { id: e.id, background: true }
}

/// How many of the waiting requests have started.
pub open spec fn started_count(q: Seq<Waiter>) -> nat
    decreases q.len(),
{
    if q.len() == 0 {
        0
    } else {
        started_count(q.drop_last()) + if q.last().started {
            1nat
        } else {
            0nat
        }
    }
}

/// How many of the establishments were asked for by a request.
pub open spec fn asked_count(c: Seq<Establishment>) -> nat
    decreases c.len(),
{
    if c.len() == 0 {
        0
    } else {
        asked_count(c.drop_last()) + if c.last().background {
            0nat
        } else {
            1nat
        }
    }
}

/// The establishments that were asked for by a request, in order.
pub open spec fn asked(c: Seq<Establishment>) -> Seq<Establishment>
    decreases c.len(),
{
    if c.len() == 0 {
        Seq::empty()
    } else if c.last().background {
        asked(c.drop_last())
    } else {
        asked(c.drop_last()).push(c.last())
    }
}

/// The waiting requests whose deadline has come (`want`) or has not (`!want`),
/// in order.
pub open spec fn by_deadline(q: Seq<Waiter>, now: u64, want: bool) -> Seq<Waiter>
    decreases q.len(),
{
    if q.len() == 0 {
        Seq::empty()
    } else if is_due(q.last(), now) == want {
        by_deadline(q.drop_last(), now, want).push(q.last())
    } else {
        by_deadline(q.drop_last(), now, want)
    }
}

/// Every waiter, started.
pub open spec fn start_all(q: Seq<Waiter>) -> Seq<Waiter> {
    Seq::new(q.len(), |i: int| started(q[i]))
}

/// Every establishment with nobody waiting for it.
pub open spec fn orphan_all(c: Seq<Establishment>) -> Seq<Establishment> {
    Seq::new(c.len(), |i: int| orphaned(c[i]))
}

/// The notification that fails a waiting request.
pub open spec fn failure(request: u64, reason: CheckOutFailedReason) -> Wakeup {
    Wakeup { request, grant: Grant::Failed(reason) }
}

/// One failure per waiting request, in order.
pub open spec fn fail_waiters(q: Seq<Waiter>, reason: CheckOutFailedReason) -> Seq<Wakeup> {
    Seq::new(q.len(), |i: int| failure(q[i].request, reason))
}

/// One failure per establishment, in order, for the request that asked for it.
pub open spec fn fail_establishments(c: Seq<Establishment>, reason: CheckOutFailedReason) -> Seq<
    Wakeup,
> {
    Seq::new(c.len(), |i: int| failure(c[i].id, reason))
}

/// What a check-out comes to at once.
#[derive(Debug)]
pub enum CheckOut {
    /// A connection was idle.
    Connection(Connection),
    /// The caller is to establish a connection and report back under this
    /// request number.
    Establish(u64),
    /// The request waits under this number.
    Waiting(u64),
    /// The check-out failed.
    Failed(CheckOutFailedReason),
}

/// A state together with the immediate result of a check-out.
#[verifier::ext_equal]
pub struct CheckedOut {
    pub post: PoolView,
    pub result: CheckOut,
}

/// A check-out at time `now` that is willing to wait for `timeout`
/// milliseconds, or for ever if none is given.
///
/// A closed pool refuses. A paused pool parks the request. A ready pool
/// starts the request and serves it unless earlier requests still wait, in
/// which case it queues behind them.
pub open spec fn check_out(s: PoolView, now: u64, timeout: Option<u64>) -> CheckedOut {
    let request = s.next_request_id;
    let deadline = deadline_at(now, timeout);
    let numbered = PoolView { next_request_id: (request + 1) as u64, ..s };
    match s.state {
        PoolState::Closed => CheckedOut {
            post: s,
            result: CheckOut::Failed(CheckOutFailedReason::PoolClosed),
        },
        PoolState::Paused => CheckedOut {
            post: numbered.enqueue(Waiter { request, deadline, started: false }),
            result: CheckOut::Waiting(request),
        },
        PoolState::Ready => {
            let begun = numbered.emit(Event::CheckOutStarted);
            let waiter = Waiter { request, deadline, started: true };
            if s.wait_queue.len() > 0 {
                CheckedOut { post: begun.enqueue(waiter), result: CheckOut::Waiting(request) }
            } else {
                let a = serve(begun, request, now);
                match a.grant {
                    Some(Grant::Connection(c)) => CheckedOut {
                        post: a.post,
                        result: CheckOut::Connection(c),
                    },
                    Some(Grant::Establish) => CheckedOut {
                        post: a.post,
                        result: CheckOut::Establish(request),
                    },
                    _ => CheckedOut {
                        post: a.post.enqueue(waiter),
                        result: CheckOut::Waiting(request),
                    },
                }
            }
        },
    }
}

/// The pool is told that it may serve.
///
/// A paused pool becomes ready, starts every parked request and serves what
/// it can. A pool that is ready or closed stays as it is.
pub open spec fn mark_as_ready(s: PoolView, now: u64) -> Settled {
    if s.state == PoolState::Paused {
        let parked = (s.wait_queue.len() - started_count(s.wait_queue)) as nat;
        settle(
            PoolView {
                state: PoolState::Ready,
                wait_queue: start_all(s.wait_queue),
                ..s
            }.emit(Event::PoolReady).emit_all(repeated(Event::CheckOutStarted, parked)),
            now,
        )
    } else {
        Settled { post: s, wakeups: Seq::empty() }
    }
}

/// What became of a connection that came back.
#[derive(Clone, Copy, Debug, PartialEq, Eq, Structural)]
pub enum Disposition {
    /// The pool took it back; it is idle or already with the next request.
    Kept,
    /// The caller is to close it.
    Closed(ConnectionClosedReason),
}

/// A state, what became of the returned connection, and the notifications.
#[verifier::ext_equal]
pub struct CheckedIn {
    pub post: PoolView,
    pub disposition: Disposition,
    pub wakeups: Seq<Wakeup>,
}

/// The index of the first occurrence of `c` among the connections callers hold.
pub open spec fn issued_index(s: PoolView, c: Connection) -> int {
    choose|i: int|
        0 <= i < s.checked_out.len() && s.checked_out[i] == c && forall|j: int|
            0 <= j < i ==> s.checked_out[j] != c
}

/// A connection comes back at time `now`.
///
/// `CheckedIn` is emitted whatever happens next. A closed pool has the
/// connection closed without a further event. An unusable connection is
/// closed with the reason it is unusable for. A usable one goes to the head
/// of the idle store, from where the longest-waiting request takes it at once
/// if there is one and the pool is ready.
pub open spec fn check_in(s: PoolView, c: Connection, now: u64) -> CheckedIn {
    let returned = s.take_back(issued_index(s, c));
    if s.state == PoolState::Closed {
        CheckedIn {
            post: returned,
            disposition: Disposition::Closed(ConnectionClosedReason::PoolClosed),
            wakeups: Seq::empty(),
        }
    } else if !is_usable(c, s.generation, s.limits.max_idle_time, now) {
        let reason = close_reason(c, s.generation);
        let settled = settle(
            returned.emit(Event::ConnectionClosed { connection_id: c.id, reason }),
            now,
        );
        CheckedIn {
            post: settled.post,
            disposition: Disposition::Closed(reason),
            wakeups: settled.wakeups,
        }
    } else {
        let settled = settle(returned.store(touched(c, now)), now);
        CheckedIn { post: settled.post, disposition: Disposition::Kept, wakeups: settled.wakeups }
    }
}

/// The index of the first establishment that runs under `id`.
pub open spec fn connecting_index(s: PoolView, id: u64) -> int {
    choose|i: int|
        0 <= i < s.connecting.len() && s.connecting[i].id == id && forall|j: int|
            0 <= j < i ==> s.connecting[j].id != id
}

/// A state, the new connection if it goes to the request that asked for it,
/// and the notifications.
#[verifier::ext_equal]
pub struct Established {
    pub post: PoolView,
    pub connection: Option<Connection>,
    pub wakeups: Seq<Wakeup>,
}

/// The establishment that runs under `id` has succeeded at time `now`.
///
/// A closed pool drops the result without a word. Otherwise the connection
/// gets the next id and the generation of this moment, `ConnectionCreated`
/// and `ConnectionReady` are emitted, and it goes to the request that asked
/// for it, with `CheckedOut`, or, if nobody did, to the head of the idle
/// store. The permit is free again, so waiting requests are served.
pub open spec fn established(s: PoolView, id: u64, now: u64) -> Established {
    let i = connecting_index(s, id);
    let done = s.finish(i);
    if s.state == PoolState::Closed {
        Established { post: done, connection: None, wakeups: Seq::empty() }
    } else {
        let c = s.fresh(now);
        if s.connecting[i].background {
            let settled = settle(done.make().store(c), now);
            Established { post: settled.post, connection: None, wakeups: settled.wakeups }
        } else {
            let settled = settle(done.make().lend(c), now);
            Established { post: settled.post, connection: Some(c), wakeups: settled.wakeups }
        }
    }
}

/// A state, whether the failure is to be reported to the topology monitor,
/// and the notifications.
#[verifier::ext_equal]
pub struct EstablishFailed {
    pub post: PoolView,
    pub report: bool,
    pub wakeups: Seq<Wakeup>,
}

/// The establishment that runs under `id` has failed.
///
/// The slot and the permit are free again. Unless the pool is closed, the
/// failure is reported upstream, the request that asked for the connection,
/// if one did, fails with `CheckOutFailed`, and waiting requests are served.
pub open spec fn establish_failed(s: PoolView, id: u64, now: u64) -> EstablishFailed {
    let i = connecting_index(s, id);
    let done = s.finish(i);
    if s.state == PoolState::Closed {
        EstablishFailed { post: done, report: false, wakeups: Seq::empty() }
    } else {
        let told = if s.connecting[i].background {
            done
        } else {
            done.emit(Event::CheckOutFailed { reason: CheckOutFailedReason::ConnectionError })
        };
        let settled = settle(told, now);
        EstablishFailed { post: settled.post, report: true, wakeups: settled.wakeups }
    }
}

/// The pool is cleared.
///
/// The generation moves on, every idle connection is closed as stale,
/// `PoolCleared` is emitted and the cause is kept. Connections that callers
/// hold are not touched:
/// they are found stale when they come back. The pool is paused only if
/// `pause` asks for it. A closed pool stays as it is.
pub open spec fn clear(s: PoolView, cause: Seq<char>, pause: bool) -> PoolView {
    if s.state == PoolState::Closed {
        s
    } else {
        PoolView {
            generation: (s.generation + 1) as u32,
            last_clear_cause: Some(cause),
            state: if pause {
                PoolState::Paused
            } else {
                s.state
            },
            idle: Seq::empty(),
            ..s
        }.emit_all(closing_events(s.idle, ConnectionClosedReason::Stale)).emit(Event::PoolCleared)
    }
}

/// The pool is closed.
///
/// Every idle connection is closed, every request that waits or is having a
/// connection established fails, `PoolClosed` is emitted last, and the pool
/// is closed for good. Establishments under way are left to finish; nobody
/// waits for them any more. A closed pool stays as it is.
pub open spec fn close(s: PoolView) -> Settled {
    if s.state == PoolState::Closed {
        Settled { post: s, wakeups: Seq::empty() }
    } else {
        let begun = started_count(s.wait_queue) + asked_count(s.connecting);
        Settled {
            post: PoolView {
                state: PoolState::Closed,
                idle: Seq::empty(),
                wait_queue: Seq::empty(),
                connecting: orphan_all(s.connecting),
                ..s
            }.emit_all(closing_events(s.idle, ConnectionClosedReason::PoolClosed)).emit_all(
                repeated(Event::CheckOutFailed { reason: CheckOutFailedReason::PoolClosed }, begun),
            ).emit(Event::PoolClosed),
            wakeups: fail_waiters(s.wait_queue, CheckOutFailedReason::PoolClosed)
                + fail_establishments(asked(s.connecting), CheckOutFailedReason::PoolClosed),
        }
    }
}

/// Time has moved on to `now`.
///
/// Every waiting request whose deadline has come fails with a timeout and
/// leaves the queue; the others keep their places. `CheckOutFailed` is
/// emitted for those that had started.
pub open spec fn expire(s: PoolView, now: u64) -> Settled {
    let due = by_deadline(s.wait_queue, now, true);
    Settled {
        post: PoolView { wait_queue: by_deadline(s.wait_queue, now, false), ..s }.emit_all(
            repeated(
                Event::CheckOutFailed { reason: CheckOutFailedReason::Timeout },
                started_count(due),
            ),
        ),
        wakeups: fail_waiters(due, CheckOutFailedReason::Timeout),
    }
}

/// How many connections background maintenance may start right now: as
/// many as are missing up to `min_pool_size`, within `max_pool_size` and
/// `max_connecting`, and none unless the pool is ready.
pub open spec fn demand(s: PoolView) -> nat {
    let wanted = if s.limits.min_pool_size <= s.limits.max_pool_size {
        s.limits.min_pool_size
    } else {
        s.limits.max_pool_size
    };
    let missing = wanted - s.total_established();
    let permits = s.limits.max_connecting - s.connecting.len();
    if s.state != PoolState::Ready || missing <= 0 || permits <= 0 {
        0
    } else if missing <= permits {
        missing as nat
    } else {
        permits as nat
    }
}

/// A state together with the numbers under which background maintenance is
/// to establish connections.
#[verifier::ext_equal]
pub struct Populated {
    pub post: PoolView,
    pub ids: Seq<u64>,
}

/// Background maintenance starts as many establishments as `demand` allows,
/// each under a fresh number.
pub open spec fn populate(s: PoolView) -> Populated {
    let n = demand(s);
    Populated {
        post: PoolView {
            connecting: s.connecting + background(s.next_request_id, n),
            next_request_id: (s.next_request_id + n) as u64,
            ..s
        },
        ids: Seq::new(n, |i: int| (s.next_request_id + i) as u64),
    }
}

/// `n` background establishments, numbered from `first` on.
pub open spec fn background(first: u64, n: nat) -> Seq<Establishment> {
    Seq::new(n, |i: int| Establishment { id: (first + i) as u64, background: true })
}

} // verus!

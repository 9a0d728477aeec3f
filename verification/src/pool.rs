//! The connection pool.
//!
//! `ConnectionPool` is the executable counterpart of `model::PoolView`: every
//! operation changes the pool exactly as the model's function of the same
//! name says, and hands back the events it emitted together with the
//! notifications owed to suspended check-outs. The pool performs no I/O and
//! reads no clock. The caller establishes and closes transports, delivers
//! notifications, reports failures to the topology monitor, and says what time
//! it is.

use std::collections::VecDeque;
use vstd::prelude::*;
use crate::connection::{Connection, is_usable, touched};
use crate::event::{CheckOutFailedReason, ConnectionClosedReason, Event};
use crate::invariants::{inv, lemma_created};
use crate::model::{
    CheckOut, Disposition, Establishment, Grant, PoolState, PoolView, Waiter, Wakeup, asked,
    asked_count, background, by_deadline, closing_events, connecting_index, created, demand,
    discard_events, fail_establishments, fail_waiters, issued_index, orphan_all, repeated, serve,
    settle, start_all, started_count, unusable_prefix,
};
use crate::options::{ConnectionPoolOptions, Limits};

verus! {

/// Whether `emitted` holds exactly what was added to a history since it was
/// `mark`.
pub open spec fn tracks(emitted: Seq<Event>, history: Seq<Event>, mark: Seq<Event>) -> bool {
    history == mark + emitted
}

/// What an operation gives rise to: the events it emitted, in order, and the
/// notifications for suspended requests, in the order they are to be
/// delivered.
#[derive(Debug)]
pub struct Effects {
    pub events: Vec<Event>,
    pub wakeups: Vec<Wakeup>,
}

/// A pool of connections to one server.
pub struct ConnectionPool {
    address: String,
    limits: Limits,
    state: PoolState,
    generation: u32,
    idle: VecDeque<Connection>,
    checked_out: Vec<Connection>,
    connecting: Vec<Establishment>,
    wait_queue: VecDeque<Waiter>,
    next_connection_id: u32,
    next_request_id: u64,
    last_clear_cause: Option<String>,
    history: Ghost<Seq<Event>>,
}

impl View for ConnectionPool {
    type V = PoolView;

    closed spec fn view(&self) -> PoolView {
        PoolView {
            address: self.address@,
            limits: self.limits,
            state: self.state,
            generation: self.generation,
            last_clear_cause: match self.last_clear_cause {
                Some(cause) => Some(cause@),
                None => None,
            },
            idle: self.idle@,
            checked_out: self.checked_out@,
            connecting: self.connecting@,
            wait_queue: self.wait_queue@,
            next_connection_id: self.next_connection_id,
            next_request_id: self.next_request_id,
            history: self.history@,
        }
    }
}

impl ConnectionPool {
    /// Whether the pool is as a pool should be. Every constructor establishes
    /// this and every operation keeps it.
    pub open spec fn wf(&self) -> bool {
        inv(self@)
    }

    /// Creates a pool for the server at `address`.
    ///
    /// The pool starts paused, in generation 0 and without connections, and
    /// emits `PoolCreated` with the options that were given.
    pub fn new(address: String, options: &ConnectionPoolOptions) -> (r: (ConnectionPool, Vec<Event>))
        ensures
            r.0@ == created(address@, options.limits_spec(), options.event_options_spec()),
            r.0.wf(),
            r.1@ == r.0@.history,
    {
        let ghost address_view = address@;
        let created_event = Event::PoolCreated { options: Some(options.event_options()) };
        let mut events: Vec<Event> = Vec::new();
        events.push(created_event);
        let ghost history = seq![created_event];
        let pool = ConnectionPool {
            address,
            limits: options.limits(),
            state: PoolState::Paused,
            generation: 0,
            idle: VecDeque::new(),
            checked_out: Vec::new(),
            connecting: Vec::new(),
            wait_queue: VecDeque::new(),
            next_connection_id: 1,
            next_request_id: 1,
            last_clear_cause: None,
            history: Ghost(history),
        };
        proof {
            lemma_created(address_view, options.limits_spec(), options.event_options_spec());
        }
        (pool, events)
    }

    /// The address of the server the pool connects to.
    pub fn address(&self) -> (r: &String)
        ensures
            r@ == self@.address,
    {
        &self.address
    }

    /// The limits the pool enforces.
    pub fn limits(&self) -> (r: Limits)
        ensures
            r == self@.limits,
    {
        self.limits
    }

    /// Whether the pool serves check-outs.
    pub fn state(&self) -> (r: PoolState)
        ensures
            r == self@.state,
    {
        self.state
    }

    /// The number of clears so far.
    pub fn generation(&self) -> (r: u32)
        ensures
            r == self@.generation,
    {
        self.generation
    }

    /// The number of idle connections.
    pub fn idle_count(&self) -> (r: usize)
        ensures
            r == self@.idle.len(),
    {
        self.idle.len()
    }

    /// The number of connections callers hold.
    pub fn checked_out_count(&self) -> (r: usize)
        ensures
            r == self@.checked_out.len(),
    {
        self.checked_out.len()
    }

    /// The number of connections that are being established.
    pub fn connecting_count(&self) -> (r: usize)
        ensures
            r == self@.connecting.len(),
    {
        self.connecting.len()
    }

    /// The number of requests that wait.
    pub fn wait_queue_len(&self) -> (r: usize)
        ensures
            r == self@.wait_queue.len(),
    {
        self.wait_queue.len()
    }

    /// The number of connections that count against `max_pool_size`.
    pub fn total_established(&self) -> (r: usize)
        requires
            self.wf(),
        ensures
            r == self@.total_established(),
            r <= self@.limits.max_pool_size,
    {
        self.idle.len() + self.checked_out.len() + self.connecting.len()
    }

    /// Whether one more connection may be started right now.
    fn has_capacity(&self) -> (r: bool)
        requires
            self@.total_established() <= u32::MAX,
        ensures
            r == self@.has_capacity(),
    {
        let total: usize = self.idle.len() + self.checked_out.len() + self.connecting.len();
        let max_pool_size: u32 = self.limits.max_pool_size;
        let max_connecting: u32 = self.limits.max_connecting;
        total < max_pool_size as usize && self.connecting.len() < max_connecting as usize
    }

    /// Emits one event.
    fn emit(&mut self, e: Event, emitted: &mut Vec<Event>, Ghost(mark): Ghost<Seq<Event>>)
        requires
            tracks(old(emitted)@, old(self)@.history, mark),
        ensures
            final(self)@ == old(self)@.emit(e),
            tracks(final(emitted)@, final(self)@.history, mark),
    {
        emitted.push(e);
        let ghost history = self.history@.push(e);
        self.history = Ghost(history);
    }
}

impl ConnectionPool {
    /// Whether the connection at the head of the idle store is unusable.
    fn front_unusable(&self, now: u64) -> (r: bool)
        ensures
            r == (self@.idle.len() > 0 && !is_usable(
                self@.idle[0],
                self@.generation,
                self@.limits.max_idle_time,
                now,
            )),
    {
        self.idle.len() > 0 && !self.idle[0].is_usable(
            self.generation,
            self.limits.max_idle_time,
            now,
        )
    }

    /// Tries to serve one started request.
    fn serve(
        &mut self,
        request: u64,
        now: u64,
        emitted: &mut Vec<Event>,
        Ghost(mark): Ghost<Seq<Event>>,
    ) -> (grant: Option<Grant>)
        requires
            tracks(old(emitted)@, old(self)@.history, mark),
            old(self)@.total_established() <= u32::MAX,
        ensures
            final(self)@ == serve(old(self)@, request, now).post,
            grant == serve(old(self)@, request, now).grant,
            tracks(final(emitted)@, final(self)@.history, mark),
            final(self)@.total_established() <= u32::MAX,
    {
        let ghost s0 = self@;
        let ghost mut n: int = 0;
        while self.front_unusable(now)
            invariant
                0 <= n <= s0.idle.len(),
                self@ == s0.discard(n),
                unusable_prefix(s0.idle, s0.generation, s0.limits.max_idle_time, now) == n
                    + unusable_prefix(
                    s0.idle.skip(n),
                    s0.generation,
                    s0.limits.max_idle_time,
                    now,
                ),
                tracks(emitted@, self@.history, mark),
            decreases s0.idle.len() - n,
        {
            let c = self.idle.pop_front().unwrap();
            let reason = if c.is_stale(self.generation) {
                ConnectionClosedReason::Stale
            } else {
                ConnectionClosedReason::Idle
            };
            self.emit(Event::ConnectionClosed { connection_id: c.id, reason }, emitted, Ghost(mark));
            proof {
                assert(s0.idle.skip(n).drop_first() =~= s0.idle.skip(n + 1));
                assert(discard_events(s0.idle.take(n + 1), s0.generation) =~= discard_events(
                    s0.idle.take(n),
                    s0.generation,
                ).push(Event::ConnectionClosed { connection_id: c.id, reason }));
                n = n + 1;
            }
        }
        proof {
            assert(s0.idle.skip(n).len() == 0 ==> unusable_prefix(
                s0.idle.skip(n),
                s0.generation,
                s0.limits.max_idle_time,
                now,
            ) == 0);
        }
        if self.idle.len() > 0 {
            let head = self.idle.pop_front().unwrap();
            let c = Connection {
                id: head.id,
                generation: head.generation,
                created_at: head.created_at,
                last_used_at: now,
            };
            self.checked_out.push(c.record());
            self.emit(Event::CheckedOut { connection_id: c.id }, emitted, Ghost(mark));
            Some(Grant::Connection(c))
        } else if self.has_capacity() {
            self.connecting.push(Establishment { id: request, background: false });
            Some(Grant::Establish)
        } else {
            None
        }
    }

    /// Serves waiting requests, longest waiting first, for as long as it can.
    fn settle(
        &mut self,
        now: u64,
        emitted: &mut Vec<Event>,
        wakeups: &mut Vec<Wakeup>,
        Ghost(mark): Ghost<Seq<Event>>,
    )
        requires
            tracks(old(emitted)@, old(self)@.history, mark),
            old(self)@.total_established() <= u32::MAX,
        ensures
            final(self)@ == settle(old(self)@, now).post,
            final(wakeups)@ == old(wakeups)@ + settle(old(self)@, now).wakeups,
            tracks(final(emitted)@, final(self)@.history, mark),
    {
        let ghost s0 = self@;
        let ghost w0 = wakeups@;
        loop
            invariant_except_break
                settle(s0, now).post == settle(self@, now).post,
                w0 + settle(s0, now).wakeups == wakeups@ + settle(self@, now).wakeups,
                self@.total_established() <= u32::MAX,
            invariant
                tracks(emitted@, self@.history, mark),
            ensures
                self@ == settle(s0, now).post,
                wakeups@ == w0 + settle(s0, now).wakeups,
            decreases self@.wait_queue.len(),
        {
            if !matches!(self.state, PoolState::Ready) || self.wait_queue.len() == 0 {
                break ;
            }
            let head = self.wait_queue[0];
            match self.serve(head.request, now, emitted, Ghost(mark)) {
                None => {
                    break ;
                },
                Some(grant) => {
                    let _ = self.wait_queue.pop_front();
                    wakeups.push(Wakeup { request: head.request, grant });
                },
            }
        }
    }

    /// The deadline of a request that arrives at `now` and is willing to
    /// wait for `timeout`.
    fn deadline(now: u64, timeout: Option<u64>) -> (r: Option<u64>)
        ensures
            r == crate::model::deadline_at(now, timeout),
    {
        match timeout {
            Some(timeout) => now.checked_add(timeout),
            None => None,
        }
    }

    /// Asks for a connection at time `now`, willing to wait for `timeout`
    /// milliseconds, or for ever if none is given.
    ///
    /// A closed pool refuses with `PoolClosed`. A paused pool parks the
    /// request until the pool is marked as ready. A ready pool emits
    /// `CheckOutStarted` and, unless earlier requests still wait, hands out
    /// the first usable idle connection, closing the unusable ones it meets,
    /// or else tells the caller to establish a connection if the limits leave
    /// room for one. A request that cannot be served waits in line, until it
    /// is served, the pool is closed, or `expire` finds that its time has run
    /// out. Returns what the request came to and the events emitted.
    pub fn check_out(&mut self, now: u64, timeout: Option<u64>) -> (r: (CheckOut, Vec<Event>))
        requires
            old(self).wf(),
            old(self)@.next_request_id < u64::MAX,
        ensures
            final(self)@ == crate::model::check_out(old(self)@, now, timeout).post,
            r.0 == crate::model::check_out(old(self)@, now, timeout).result,
            final(self)@.history == old(self)@.history + r.1@,
            final(self).wf(),
    {
        let ghost s0 = self@;
        let ghost mark = s0.history;
        let mut emitted: Vec<Event> = Vec::new();
        proof {
            crate::invariants::lemma_check_out(s0, now, timeout);
        }
        if matches!(self.state, PoolState::Closed) {
            return (CheckOut::Failed(CheckOutFailedReason::PoolClosed), emitted);
        }
        let request = self.next_request_id;
        let deadline = Self::deadline(now, timeout);
        self.next_request_id = request + 1;
        if matches!(self.state, PoolState::Paused) {
            self.wait_queue.push_back(Waiter { request, deadline, started: false });
            return (CheckOut::Waiting(request), emitted);
        }
        self.emit(Event::CheckOutStarted, &mut emitted, Ghost(mark));
        let waiter = Waiter { request, deadline, started: true };
        if self.wait_queue.len() > 0 {
            self.wait_queue.push_back(waiter);
            return (CheckOut::Waiting(request), emitted);
        }
        let result = match self.serve(request, now, &mut emitted, Ghost(mark)) {
            Some(Grant::Connection(c)) => CheckOut::Connection(c),
            Some(Grant::Establish) => CheckOut::Establish(request),
            _ => {
                self.wait_queue.push_back(waiter);
                CheckOut::Waiting(request)
            },
        };
        (result, emitted)
    }
}

/// An error observed while establishing or using a connection, as it is
/// reported to the topology monitor. The monitor decides whether the pool is
/// cleared.
#[derive(Debug)]
pub struct ApplicationError {
    /// The server the pool connects to.
    pub address: String,
    /// What went wrong.
    pub cause: String,
    /// The generation the error belongs to: that of the connection it was
    /// observed on or, if none was established, that of the pool when the
    /// establishment failed.
    pub generation: u32,
    /// The connection the error was observed on, if one was established.
    pub connection_id: Option<u32>,
}

impl ConnectionPool {
    /// Marks the pool as ready at time `now`.
    ///
    /// A paused pool becomes ready and emits `PoolReady`; every parked
    /// request starts, with `CheckOutStarted`, and is served if it can be. A
    /// pool that is ready or closed stays as it is and emits nothing.
    pub fn mark_as_ready(&mut self, now: u64) -> (fx: Effects)
        requires
            old(self).wf(),
        ensures
            final(self)@ == crate::model::mark_as_ready(old(self)@, now).post,
            fx.wakeups@ == crate::model::mark_as_ready(old(self)@, now).wakeups,
            final(self)@.history == old(self)@.history + fx.events@,
            final(self).wf(),
    {
        let ghost s0 = self@;
        let ghost mark = s0.history;
        let mut emitted: Vec<Event> = Vec::new();
        let mut wakeups: Vec<Wakeup> = Vec::new();
        proof {
            crate::invariants::lemma_mark_as_ready(s0, now);
        }
        if !matches!(self.state, PoolState::Paused) {
            return Effects { events: emitted, wakeups };
        }
        self.state = PoolState::Ready;
        self.emit(Event::PoolReady, &mut emitted, Ghost(mark));
        let ghost s1 = self@;
        let n = self.wait_queue.len();
        let mut queue: VecDeque<Waiter> = VecDeque::new();
        let mut i: usize = 0;
        while i < n
            invariant
                0 <= i <= n,
                n == s0.wait_queue.len(),
                s1 == (PoolView { state: PoolState::Ready, ..s0 }).emit(Event::PoolReady),
                started_count(s0.wait_queue.take(i as int)) <= i,
                self@ == s1.emit_all(
                    repeated(
                        Event::CheckOutStarted,
                        (i - started_count(s0.wait_queue.take(i as int))) as nat,
                    ),
                ),
                queue@ == start_all(s0.wait_queue.take(i as int)),
                tracks(emitted@, self@.history, mark),
            decreases n - i,
        {
            let w = self.wait_queue[i];
            let ghost parked = (i - started_count(s0.wait_queue.take(i as int))) as nat;
            proof {
                assert(s0.wait_queue.take(i + 1).drop_last() =~= s0.wait_queue.take(i as int));
            }
            if !w.started {
                self.emit(Event::CheckOutStarted, &mut emitted, Ghost(mark));
                proof {
                    assert(repeated(Event::CheckOutStarted, parked).push(Event::CheckOutStarted)
                        =~= repeated(Event::CheckOutStarted, parked + 1));
                }
            }
            queue.push_back(Waiter { request: w.request, deadline: w.deadline, started: true });
            i = i + 1;
        }
        proof {
            assert(s0.wait_queue.take(n as int) =~= s0.wait_queue);
        }
        self.wait_queue = queue;
        proof {
            let parked = (s0.wait_queue.len() - started_count(s0.wait_queue)) as nat;
            assert(self@ =~= (PoolView {
                state: PoolState::Ready,
                wait_queue: start_all(s0.wait_queue),
                ..s0
            }).emit(Event::PoolReady).emit_all(repeated(Event::CheckOutStarted, parked)));
        }
        self.settle(now, &mut emitted, &mut wakeups, Ghost(mark));
        Effects { events: emitted, wakeups }
    }

    /// The index of the first record of `c` among the connections callers
    /// hold.
    fn find_issued(&self, c: &Connection) -> (r: Option<usize>)
        ensures
            match r {
                Some(i) => i < self@.checked_out.len() && self@.checked_out[i as int] == *c
                    && forall|j: int| 0 <= j < i ==> self@.checked_out[j] != *c,
                None => !self@.has_issued(*c),
            },
    {
        let n = self.checked_out.len();
        let mut i: usize = 0;
        while i < n
            invariant
                0 <= i <= n,
                n == self@.checked_out.len(),
                forall|j: int| 0 <= j < i ==> self@.checked_out[j] != *c,
            decreases n - i,
        {
            let held = &self.checked_out[i];
            if held.id == c.id && held.generation == c.generation && held.created_at
                == c.created_at && held.last_used_at == c.last_used_at {
                return Some(i);
            }
            i = i + 1;
        }
        None
    }

    /// Whether `c` is a connection that this pool handed out and has not got
    /// back.
    pub fn has_issued(&self, c: &Connection) -> (r: bool)
        ensures
            r == self@.has_issued(*c),
    {
        self.find_issued(c).is_some()
    }

    /// Takes back a connection at time `now`.
    ///
    /// `CheckedIn` is emitted first, whatever happens next. A closed pool
    /// tells the caller to close the connection and emits nothing more. A
    /// connection that is stale or has gone unused for too long is closed,
    /// with `ConnectionClosed`, and the room it leaves goes to the longest
    /// waiting request. Any other connection goes to the head of the idle
    /// store, from where the longest waiting request takes it at once if the
    /// pool is ready.
    ///
    /// Only a connection that this pool handed out and has not got back may
    /// be returned: ask `has_issued`.
    pub fn check_in(&mut self, c: Connection, now: u64) -> (r: (Disposition, Effects))
        requires
            old(self).wf(),
            old(self)@.has_issued(c),
        ensures
            final(self)@ == crate::model::check_in(old(self)@, c, now).post,
            r.0 == crate::model::check_in(old(self)@, c, now).disposition,
            r.1.wakeups@ == crate::model::check_in(old(self)@, c, now).wakeups,
            final(self)@.history == old(self)@.history + r.1.events@,
            final(self).wf(),
    {
        let ghost s0 = self@;
        let ghost mark = s0.history;
        let mut emitted: Vec<Event> = Vec::new();
        let mut wakeups: Vec<Wakeup> = Vec::new();
        proof {
            crate::invariants::lemma_check_in(s0, c, now);
            crate::invariants::lemma_issued_index(s0, c);
        }
        let i = self.find_issued(&c).unwrap();
        let _ = self.checked_out.remove(i);
        self.emit(Event::CheckedIn { connection_id: c.id }, &mut emitted, Ghost(mark));
        if matches!(self.state, PoolState::Closed) {
            return (
                Disposition::Closed(ConnectionClosedReason::PoolClosed),
                Effects { events: emitted, wakeups },
            );
        }
        if !c.is_usable(self.generation, self.limits.max_idle_time, now) {
            let reason = if c.is_stale(self.generation) {
                ConnectionClosedReason::Stale
            } else {
                ConnectionClosedReason::Idle
            };
            self.emit(
                Event::ConnectionClosed { connection_id: c.id, reason },
                &mut emitted,
                Ghost(mark),
            );
            self.settle(now, &mut emitted, &mut wakeups, Ghost(mark));
            return (Disposition::Closed(reason), Effects { events: emitted, wakeups });
        }
        self.idle.push_front(
            Connection {
                id: c.id,
                generation: c.generation,
                created_at: c.created_at,
                last_used_at: now,
            },
        );
        self.settle(now, &mut emitted, &mut wakeups, Ghost(mark));
        (Disposition::Kept, Effects { events: emitted, wakeups })
    }

    /// The index of the first establishment that runs under `id`.
    fn find_connecting(&self, id: u64) -> (r: Option<usize>)
        ensures
            match r {
                Some(i) => i < self@.connecting.len() && self@.connecting[i as int].id == id
                    && forall|j: int| 0 <= j < i ==> self@.connecting[j].id != id,
                None => !self@.is_connecting(id),
            },
    {
        let n = self.connecting.len();
        let mut i: usize = 0;
        while i < n
            invariant
                0 <= i <= n,
                n == self@.connecting.len(),
                forall|j: int| 0 <= j < i ==> self@.connecting[j].id != id,
            decreases n - i,
        {
            if self.connecting[i].id == id {
                return Some(i);
            }
            i = i + 1;
        }
        None
    }

    /// Whether an establishment runs under `id`.
    pub fn is_connecting(&self, id: u64) -> (r: bool)
        ensures
            r == self@.is_connecting(id),
    {
        self.find_connecting(id).is_some()
    }

    /// Records, at time `now`, that the establishment that runs under `id`
    /// has succeeded.
    ///
    /// The new connection gets the next id and the generation of this
    /// moment; `ConnectionCreated` and `ConnectionReady` are emitted. If a
    /// request asked for it, it is handed out, with `CheckedOut`, and
    /// returned; if background maintenance did, it goes to the head of the
    /// idle store and `None` is returned. The permit is free again, so
    /// waiting requests are served. A closed pool emits nothing and returns
    /// `None`: the caller closes the transport.
    ///
    /// `id` must be a number under which an establishment runs: ask
    /// `is_connecting`.
    pub fn connection_established(&mut self, id: u64, now: u64) -> (r: (
        Option<Connection>,
        Effects,
    ))
        requires
            old(self).wf(),
            old(self)@.is_connecting(id),
            old(self)@.next_connection_id < u32::MAX,
        ensures
            final(self)@ == crate::model::established(old(self)@, id, now).post,
            r.0 == crate::model::established(old(self)@, id, now).connection,
            r.1.wakeups@ == crate::model::established(old(self)@, id, now).wakeups,
            final(self)@.history == old(self)@.history + r.1.events@,
            final(self).wf(),
    {
        let ghost s0 = self@;
        let ghost mark = s0.history;
        let mut emitted: Vec<Event> = Vec::new();
        let mut wakeups: Vec<Wakeup> = Vec::new();
        proof {
            crate::invariants::lemma_established(s0, id, now);
            crate::invariants::lemma_connecting_index(s0, id);
        }
        let i = self.find_connecting(id).unwrap();
        let entry = self.connecting.remove(i);
        if matches!(self.state, PoolState::Closed) {
            return (None, Effects { events: emitted, wakeups });
        }
        let c = Connection {
            id: self.next_connection_id,
            generation: self.generation,
            created_at: now,
            last_used_at: now,
        };
        self.next_connection_id = self.next_connection_id + 1;
        self.emit(Event::ConnectionCreated { connection_id: c.id }, &mut emitted, Ghost(mark));
        self.emit(Event::ConnectionReady { connection_id: c.id }, &mut emitted, Ghost(mark));
        if entry.background {
            self.idle.push_front(c);
            self.settle(now, &mut emitted, &mut wakeups, Ghost(mark));
            (None, Effects { events: emitted, wakeups })
        } else {
            self.checked_out.push(c.record());
            self.emit(Event::CheckedOut { connection_id: c.id }, &mut emitted, Ghost(mark));
            self.settle(now, &mut emitted, &mut wakeups, Ghost(mark));
            (Some(c), Effects { events: emitted, wakeups })
        }
    }

    /// Records, at time `now`, that the establishment that runs under `id`
    /// has failed because of `cause`.
    ///
    /// The slot and the permit are free again. Unless the pool is closed,
    /// the failure is returned as a report for the topology monitor, the
    /// request that asked for the connection, if one did, fails with
    /// `CheckOutFailed` and the reason `ConnectionError`, and waiting
    /// requests are served. The request itself is told by the caller, who
    /// holds its number.
    ///
    /// `id` must be a number under which an establishment runs: ask
    /// `is_connecting`.
    pub fn establishment_failed(&mut self, id: u64, cause: String, now: u64) -> (r: (
        Option<ApplicationError>,
        Effects,
    ))
        requires
            old(self).wf(),
            old(self)@.is_connecting(id),
        ensures
            final(self)@ == crate::model::establish_failed(old(self)@, id, now).post,
            r.0 is Some == crate::model::establish_failed(old(self)@, id, now).report,
            r.0 matches Some(report) ==> report.address@ == old(self)@.address && report.cause@
                == cause@ && report.generation == old(self)@.generation && report.connection_id
                is None,
            r.1.wakeups@ == crate::model::establish_failed(old(self)@, id, now).wakeups,
            final(self)@.history == old(self)@.history + r.1.events@,
            final(self).wf(),
    {
        let ghost s0 = self@;
        let ghost mark = s0.history;
        let mut emitted: Vec<Event> = Vec::new();
        let mut wakeups: Vec<Wakeup> = Vec::new();
        proof {
            crate::invariants::lemma_establish_failed(s0, id, now);
            crate::invariants::lemma_connecting_index(s0, id);
        }
        let i = self.find_connecting(id).unwrap();
        let entry = self.connecting.remove(i);
        if matches!(self.state, PoolState::Closed) {
            return (None, Effects { events: emitted, wakeups });
        }
        let report = ApplicationError {
            address: self.address.clone(),
            cause,
            generation: self.generation,
            connection_id: None,
        };
        if !entry.background {
            self.emit(
                Event::CheckOutFailed { reason: CheckOutFailedReason::ConnectionError },
                &mut emitted,
                Ghost(mark),
            );
        }
        self.settle(now, &mut emitted, &mut wakeups, Ghost(mark));
        (Some(report), Effects { events: emitted, wakeups })
    }

    /// Clears the pool because of `cause`.
    ///
    /// The generation moves on by one, every idle connection is closed as
    /// stale, with `ConnectionClosed`, then `PoolCleared` is emitted, and the
    /// cause is kept for diagnostics. Connections that callers hold are left
    /// alone: they are found stale when they come back. The pool is paused
    /// only if `pause` asks for it. A closed pool stays as it is and emits
    /// nothing. Returns the events emitted.
    pub fn clear(&mut self, cause: String, pause: bool) -> (events: Vec<Event>)
        requires
            old(self).wf(),
            old(self)@.generation < u32::MAX,
        ensures
            final(self)@ == crate::model::clear(old(self)@, cause@, pause),
            final(self)@.history == old(self)@.history + events@,
            final(self).wf(),
    {
        let ghost s0 = self@;
        let ghost mark = s0.history;
        let mut emitted: Vec<Event> = Vec::new();
        proof {
            crate::invariants::lemma_clear(s0, cause@, pause);
        }
        if matches!(self.state, PoolState::Closed) {
            return emitted;
        }
        self.drain_idle(ConnectionClosedReason::Stale, &mut emitted, Ghost(mark));
        self.generation = self.generation + 1;
        self.last_clear_cause = Some(cause);
        if pause {
            self.state = PoolState::Paused;
        }
        self.emit(Event::PoolCleared, &mut emitted, Ghost(mark));
        emitted
    }

    /// Closes every idle connection for the same reason.
    fn drain_idle(
        &mut self,
        reason: ConnectionClosedReason,
        emitted: &mut Vec<Event>,
        Ghost(mark): Ghost<Seq<Event>>,
    )
        requires
            tracks(old(emitted)@, old(self)@.history, mark),
        ensures
            final(self)@ == (PoolView { idle: Seq::empty(), ..old(self)@ }).emit_all(
                closing_events(old(self)@.idle, reason),
            ),
            tracks(final(emitted)@, final(self)@.history, mark),
    {
        let ghost s0 = self@;
        let ghost mut n: int = 0;
        proof {
            assert(self@ =~= (PoolView { idle: s0.idle.skip(0), ..s0 }).emit_all(
                closing_events(s0.idle.take(0), reason),
            ));
        }
        while self.idle.len() > 0
            invariant
                0 <= n <= s0.idle.len(),
                self@ == (PoolView { idle: s0.idle.skip(n), ..s0 }).emit_all(
                    closing_events(s0.idle.take(n), reason),
                ),
                tracks(emitted@, self@.history, mark),
            decreases s0.idle.len() - n,
        {
            let c = self.idle.pop_front().unwrap();
            self.emit(Event::ConnectionClosed { connection_id: c.id, reason }, emitted, Ghost(mark));
            proof {
                assert(closing_events(s0.idle.take(n + 1), reason) =~= closing_events(
                    s0.idle.take(n),
                    reason,
                ).push(Event::ConnectionClosed { connection_id: c.id, reason }));
                assert(self@ =~= (PoolView { idle: s0.idle.skip(n + 1), ..s0 }).emit_all(
                    closing_events(s0.idle.take(n + 1), reason),
                ));
                n = n + 1;
            }
        }
    }
}

impl ConnectionPool {
    /// Closes the pool.
    ///
    /// Every idle connection is closed, with `ConnectionClosed`; every
    /// request that waits, and every request that is having a connection
    /// established, fails with the reason `PoolClosed`, with `CheckOutFailed`
    /// if it had started; `PoolClosed` is emitted last. Establishments under
    /// way are left to finish on their own. A closed pool stays as it is and
    /// emits nothing.
    pub fn close(&mut self) -> (fx: Effects)
        requires
            old(self).wf(),
        ensures
            final(self)@ == crate::model::close(old(self)@).post,
            fx.wakeups@ == crate::model::close(old(self)@).wakeups,
            final(self)@.history == old(self)@.history + fx.events@,
            final(self).wf(),
    {
        let ghost s0 = self@;
        let ghost mark = s0.history;
        let mut emitted: Vec<Event> = Vec::new();
        let mut wakeups: Vec<Wakeup> = Vec::new();
        proof {
            crate::invariants::lemma_close(s0);
        }
        if matches!(self.state, PoolState::Closed) {
            return Effects { events: emitted, wakeups };
        }
        self.drain_idle(ConnectionClosedReason::PoolClosed, &mut emitted, Ghost(mark));
        let ghost s1 = self@;
        let failed = Event::CheckOutFailed { reason: CheckOutFailedReason::PoolClosed };
        let ghost mut n: int = 0;
        proof {
            assert(self@ =~= (PoolView { wait_queue: s0.wait_queue.skip(0), ..s1 }).emit_all(
                repeated(failed, 0),
            ));
        }
        while self.wait_queue.len() > 0
            invariant
                0 <= n <= s0.wait_queue.len(),
                s1.wait_queue == s0.wait_queue,
                failed == (Event::CheckOutFailed { reason: CheckOutFailedReason::PoolClosed }),
                self@ == (PoolView { wait_queue: s0.wait_queue.skip(n), ..s1 }).emit_all(
                    repeated(failed, started_count(s0.wait_queue.take(n))),
                ),
                wakeups@ == fail_waiters(s0.wait_queue.take(n), CheckOutFailedReason::PoolClosed),
                tracks(emitted@, self@.history, mark),
            decreases s0.wait_queue.len() - n,
        {
            let w = self.wait_queue.pop_front().unwrap();
            wakeups.push(
                Wakeup { request: w.request, grant: Grant::Failed(CheckOutFailedReason::PoolClosed) },
            );
            let ghost before = started_count(s0.wait_queue.take(n));
            if w.started {
                self.emit(failed, &mut emitted, Ghost(mark));
            }
            proof {
                assert(s0.wait_queue.take(n + 1).drop_last() =~= s0.wait_queue.take(n));
                assert(self@ =~= (PoolView { wait_queue: s0.wait_queue.skip(n + 1), ..s1 }).emit_all(
                    repeated(failed, started_count(s0.wait_queue.take(n + 1))),
                ));
                assert(wakeups@ =~= fail_waiters(
                    s0.wait_queue.take(n + 1),
                    CheckOutFailedReason::PoolClosed,
                ));
                n = n + 1;
            }
        }
        let ghost s2 = self@;
        let ghost w2 = wakeups@;
        let count = self.connecting.len();
        let mut i: usize = 0;
        proof {
            assert(self@ =~= (PoolView {
                connecting: orphan_all(s0.connecting.take(0)) + s0.connecting.skip(0),
                ..s2
            }).emit_all(repeated(failed, 0)));
            assert(wakeups@ =~= w2 + fail_establishments(
                asked(s0.connecting.take(0)),
                CheckOutFailedReason::PoolClosed,
            ));
        }
        while i < count
            invariant
                0 <= i <= count,
                count == s0.connecting.len(),
                s2.connecting == s0.connecting,
                failed == (Event::CheckOutFailed { reason: CheckOutFailedReason::PoolClosed }),
                self@ == (PoolView {
                    connecting: orphan_all(s0.connecting.take(i as int)) + s0.connecting.skip(
                        i as int,
                    ),
                    ..s2
                }).emit_all(repeated(failed, asked_count(s0.connecting.take(i as int)))),
                wakeups@ == w2 + fail_establishments(
                    asked(s0.connecting.take(i as int)),
                    CheckOutFailedReason::PoolClosed,
                ),
                tracks(emitted@, self@.history, mark),
            decreases count - i,
        {
            let e = self.connecting[i];
            proof {
                assert(s0.connecting.take(i + 1).drop_last() =~= s0.connecting.take(i as int));
            }
            if !e.background {
                wakeups.push(
                    Wakeup { request: e.id, grant: Grant::Failed(CheckOutFailedReason::PoolClosed) },
                );
                self.emit(failed, &mut emitted, Ghost(mark));
                self.connecting.set(i, Establishment { id: e.id, background: true });
            }
            proof {
                assert(self@.connecting =~= orphan_all(s0.connecting.take(i + 1))
                    + s0.connecting.skip(i + 1));
                assert(self@ =~= (PoolView {
                    connecting: orphan_all(s0.connecting.take(i + 1)) + s0.connecting.skip(i + 1),
                    ..s2
                }).emit_all(repeated(failed, asked_count(s0.connecting.take(i + 1)))));
                assert(wakeups@ =~= w2 + fail_establishments(
                    asked(s0.connecting.take(i + 1)),
                    CheckOutFailedReason::PoolClosed,
                ));
            }
            i = i + 1;
        }
        self.state = PoolState::Closed;
        self.emit(Event::PoolClosed, &mut emitted, Ghost(mark));
        proof {
            let a = started_count(s0.wait_queue);
            let b = asked_count(s0.connecting);
            assert(self@ =~= crate::model::close(s0).post);
        }
        Effects { events: emitted, wakeups }
    }

    /// Lets time move on to `now`.
    ///
    /// Every waiting request whose deadline has come fails with the reason
    /// `Timeout` and leaves the queue, with `CheckOutFailed` if it had
    /// started. The others keep their places.
    pub fn expire(&mut self, now: u64) -> (fx: Effects)
        requires
            old(self).wf(),
        ensures
            final(self)@ == crate::model::expire(old(self)@, now).post,
            fx.wakeups@ == crate::model::expire(old(self)@, now).wakeups,
            final(self)@.history == old(self)@.history + fx.events@,
            final(self).wf(),
    {
        let ghost s0 = self@;
        let ghost mark = s0.history;
        let mut emitted: Vec<Event> = Vec::new();
        let mut wakeups: Vec<Wakeup> = Vec::new();
        let failed = Event::CheckOutFailed { reason: CheckOutFailedReason::Timeout };
        let count = self.wait_queue.len();
        let mut kept: VecDeque<Waiter> = VecDeque::new();
        let mut i: usize = 0;
        proof {
            crate::invariants::lemma_expire(s0, now);
        }
        while i < count
            invariant
                0 <= i <= count,
                count == s0.wait_queue.len(),
                failed == (Event::CheckOutFailed { reason: CheckOutFailedReason::Timeout }),
                self@ == s0.emit_all(
                    repeated(
                        failed,
                        started_count(by_deadline(s0.wait_queue.take(i as int), now, true)),
                    ),
                ),
                kept@ == by_deadline(s0.wait_queue.take(i as int), now, false),
                wakeups@ == fail_waiters(
                    by_deadline(s0.wait_queue.take(i as int), now, true),
                    CheckOutFailedReason::Timeout,
                ),
                tracks(emitted@, self@.history, mark),
            decreases count - i,
        {
            let w = self.wait_queue[i];
            let due = match w.deadline {
                Some(deadline) => deadline <= now,
                None => false,
            };
            let ghost before = by_deadline(s0.wait_queue.take(i as int), now, true);
            proof {
                assert(s0.wait_queue.take(i + 1).drop_last() =~= s0.wait_queue.take(i as int));
            }
            if due {
                wakeups.push(
                    Wakeup { request: w.request, grant: Grant::Failed(CheckOutFailedReason::Timeout) },
                );
                if w.started {
                    self.emit(failed, &mut emitted, Ghost(mark));
                }
                proof {
                    assert(before.push(w).drop_last() =~= before);
                    assert(repeated(failed, started_count(before)).push(failed) =~= repeated(
                        failed,
                        started_count(before) + 1,
                    ));
                }
            } else {
                kept.push_back(w);
            }
            proof {
                assert(self@ =~= s0.emit_all(
                    repeated(
                        failed,
                        started_count(by_deadline(s0.wait_queue.take(i + 1), now, true)),
                    ),
                ));
            }
            i = i + 1;
        }
        proof {
            assert(s0.wait_queue.take(count as int) =~= s0.wait_queue);
        }
        self.wait_queue = kept;
        Effects { events: emitted, wakeups }
    }

    /// How many connections background maintenance may start right now.
    pub fn demand(&self) -> (n: u32)
        requires
            self.wf(),
        ensures
            n == demand(self@),
    {
        if !matches!(self.state, PoolState::Ready) {
            return 0;
        }
        let wanted: u32 = if self.limits.min_pool_size <= self.limits.max_pool_size {
            self.limits.min_pool_size
        } else {
            self.limits.max_pool_size
        };
        let total: usize = self.idle.len() + self.checked_out.len() + self.connecting.len();
        let connecting: usize = self.connecting.len();
        let max_connecting: u32 = self.limits.max_connecting;
        if total >= wanted as usize || connecting >= max_connecting as usize {
            return 0;
        }
        let missing: u32 = wanted - total as u32;
        let permits: u32 = max_connecting - connecting as u32;
        if missing <= permits {
            missing
        } else {
            permits
        }
    }

    /// Starts background maintenance on as many connections as `demand`
    /// allows.
    ///
    /// Returns the numbers under which the caller is to establish the
    /// connections and to report each outcome, with `connection_established`
    /// or `establishment_failed`.
    pub fn populate(&mut self) -> (ids: Vec<u64>)
        requires
            old(self).wf(),
            old(self)@.next_request_id + demand(old(self)@) <= u64::MAX,
        ensures
            final(self)@ == crate::model::populate(old(self)@).post,
            ids@ == crate::model::populate(old(self)@).ids,
            final(self).wf(),
    {
        let ghost s0 = self@;
        proof {
            crate::invariants::lemma_populate(s0);
        }
        let n = self.demand();
        let first = self.next_request_id;
        let mut ids: Vec<u64> = Vec::new();
        let mut i: u32 = 0;
        while i < n
            invariant
                0 <= i <= n,
                first + n <= u64::MAX,
                first == s0.next_request_id,
                self@ == (PoolView {
                    connecting: s0.connecting + background(first, i as nat),
                    ..s0
                }),
                ids@ == Seq::new(i as nat, |j: int| (first + j) as u64),
            decreases n - i,
        {
            let id: u64 = first + i as u64;
            self.connecting.push(Establishment { id, background: true });
            ids.push(id);
            proof {
                assert(self@ =~= (PoolView {
                    connecting: s0.connecting + background(first, (i + 1) as nat),
                    ..s0
                }));
            }
            i = i + 1;
        }
        self.next_request_id = first + n as u64;
        ids
    }
}

impl ConnectionPool {
    /// Whether the pool can still number a request. It cannot after
    /// 2^64 - 2 requests and background establishments.
    pub fn can_number_requests(&self) -> (r: bool)
        ensures
            r == (self@.next_request_id < u64::MAX),
    {
        self.next_request_id < u64::MAX
    }

    /// Whether the pool can still number a connection. It cannot after
    /// 2^32 - 2 connections.
    pub fn can_number_connections(&self) -> (r: bool)
        ensures
            r == (self@.next_connection_id < u32::MAX),
    {
        self.next_connection_id < u32::MAX
    }

    /// Whether the pool can still be cleared. It cannot after 2^32 - 1
    /// clears.
    pub fn can_clear(&self) -> (r: bool)
        ensures
            r == (self@.generation < u32::MAX),
    {
        self.generation < u32::MAX
    }

    /// Whether the pool can number the establishments that background
    /// maintenance may start right now.
    pub fn can_populate(&self) -> (r: bool)
        requires
            self.wf(),
        ensures
            r == (self@.next_request_id + demand(self@) <= u64::MAX),
    {
        let n = self.demand();
        n as u64 <= u64::MAX - self.next_request_id
    }

    /// The cause of the latest clear, if the pool was ever cleared.
    pub fn last_clear_cause(&self) -> (r: &Option<String>)
        ensures
            match *r {
                Some(cause) => self@.last_clear_cause == Some(cause@),
                None => self@.last_clear_cause is None,
            },
    {
        &self.last_clear_cause
    }

    /// The report of an error that a caller observed while using the
    /// connection `c`. The pool is not changed: whether it is cleared is for
    /// the monitor to decide, and the connection is judged when it comes
    /// back.
    pub fn usage_error(&self, c: &Connection, cause: String) -> (report: ApplicationError)
        ensures
            report.address@ == self@.address,
            report.cause@ == cause@,
            report.generation == c.generation,
            report.connection_id == Some(c.id),
    {
        ApplicationError {
            address: self.address.clone(),
            cause,
            generation: c.generation,
            connection_id: Some(c.id),
        }
    }

    /// A handle for the topology monitor, which issues control commands
    /// without holding the pool.
    pub fn manager(&self) -> (r: PoolManager)
        ensures
            r.address@ == self@.address,
    {
        PoolManager { address: self.address.clone() }
    }

    /// Carries out a control command at time `now`. Returns what the
    /// operation that the command stands for gives rise to.
    pub fn handle(&mut self, command: PoolCommand, now: u64) -> (fx: Effects)
        requires
            old(self).wf(),
            command is Clear ==> old(self)@.generation < u32::MAX,
        ensures
            final(self).wf(),
            final(self)@.history == old(self)@.history + fx.events@,
            match command {
                PoolCommand::Clear { cause, pause } => final(self)@ == crate::model::clear(
                    old(self)@,
                    cause@,
                    pause,
                ) && fx.wakeups@.len() == 0,
                PoolCommand::MarkAsReady => final(self)@ == crate::model::mark_as_ready(
                    old(self)@,
                    now,
                ).post && fx.wakeups@ == crate::model::mark_as_ready(old(self)@, now).wakeups,
            },
    {
        match command {
            PoolCommand::Clear { cause, pause } => {
                let events = self.clear(cause, pause);
                Effects { events, wakeups: Vec::new() }
            },
            PoolCommand::MarkAsReady => self.mark_as_ready(now),
        }
    }
}

/// A control command for a pool.
#[derive(Debug)]
pub enum PoolCommand {
    /// Clear the pool because of `cause`, and pause it if `pause` says so.
    Clear { cause: String, pause: bool },
    /// Mark the pool as ready.
    MarkAsReady,
}

/// A handle with which the topology monitor controls a pool. It holds the
/// pool's address and nothing of its state: it turns what the monitor wants
/// into commands, which whoever owns the pool passes to `handle`. Handles
/// can be copied freely.
#[derive(Debug)]
pub struct PoolManager {
    pub address: String,
}

impl Clone for PoolManager {
    fn clone(&self) -> (r: PoolManager)
        ensures
            r.address@ == self.address@,
    {
        PoolManager { address: self.address.clone() }
    }
}

impl PoolManager {
    /// The command that clears the pool because of `cause`, without pausing
    /// it.
    pub fn clear(&self, cause: String) -> (r: PoolCommand)
        ensures
            r matches PoolCommand::Clear { cause: c, pause } && c@ == cause@ && !pause,
    {
        PoolCommand::Clear { cause, pause: false }
    }

    /// The command that clears the pool because of `cause` and pauses it.
    pub fn clear_and_pause(&self, cause: String) -> (r: PoolCommand)
        ensures
            r matches PoolCommand::Clear { cause: c, pause } && c@ == cause@ && pause,
    {
        PoolCommand::Clear { cause, pause: true }
    }

    /// The command that marks the pool as ready.
    pub fn mark_as_ready(&self) -> (r: PoolCommand)
        ensures
            r is MarkAsReady,
    {
        PoolCommand::MarkAsReady
    }
}

/// A message for the topology monitor.
#[derive(Debug)]
pub enum UpdateMessage {
    /// An error observed while establishing or using a connection.
    ApplicationError(ApplicationError),
    /// An error observed by the monitor's own connection.
    MonitorError { address: String, cause: String },
}

impl UpdateMessage {
    /// What a monitor that clears on every application error does about this
    /// message: the command to clear the pool because of the error, if the
    /// message reports one for the pool of `manager`, and nothing else.
    pub fn reaction(self, manager: &PoolManager) -> (r: Option<PoolCommand>)
        ensures
            match self {
                UpdateMessage::ApplicationError(e) => if e.address@ == manager.address@ {
                    r matches Some(PoolCommand::Clear { cause, pause }) && cause@ == e.cause@
                        && !pause
                } else {
                    r is None
                },
                UpdateMessage::MonitorError { .. } => r is None,
            },
    {
        match self {
            UpdateMessage::ApplicationError(e) => {
                if e.address == manager.address {
                    Some(manager.clear(e.cause))
                } else {
                    None
                }
            },
            UpdateMessage::MonitorError { .. } => None,
        }
    }
}

} // verus!

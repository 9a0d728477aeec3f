//! The laws of the pool: what holds of every pool, whatever is done to it.
//!
//! A run is a sequence of operations, each applied to the state the one
//! before it left. The laws speak of every run in which each operation is
//! given what it asks for: a connection that is checked in was handed out
//! and is still out, an establishment that is reported back is under way, and
//! no counter has run out.

use vstd::prelude::*;
use crate::connection::{Connection, is_usable, touched};
use crate::event::Event;
use crate::history::{
    Pattern, holders, lemma_holders_absent, lemma_tally_add_all, lemma_tally_discard_all,
    lemma_tally_push_all, tally,
};
use crate::invariants::{
    copies, in_arrival_order, inv, lease_balanced, lemma_check_in, lemma_check_out, lemma_clear,
    lemma_close, lemma_created, lemma_establish_failed, lemma_established, lemma_expire,
    lemma_issued_index, lemma_mark_as_ready, lemma_populate, lemma_settle,
};
use crate::model::{
    CheckOut, Grant, PoolState, PoolView, Wakeup, asked_count, check_in, check_out, clear, close,
    close_reason, created, demand, discard_events, establish_failed, established, expire,
    issued_index, mark_as_ready, populate, serve, settle, started_count, unusable_prefix,
};
use crate::options::{EventOptions, Limits};

verus! {

/// An operation on a pool, with its arguments.
pub enum Input {
    MarkAsReady { now: u64 },
    CheckOut { now: u64, timeout: Option<u64> },
    CheckIn { connection: Connection, now: u64 },
    Established { id: u64, now: u64 },
    EstablishFailed { id: u64, now: u64 },
    Clear { cause: Seq<char>, pause: bool },
    Close,
    Expire { now: u64 },
    Populate,
}

/// Whether the operation is given what it asks for in state `s`.
pub open spec fn enabled(s: PoolView, input: Input) -> bool {
    match input {
        Input::MarkAsReady { .. } => true,
        Input::CheckOut { .. } => s.next_request_id < u64::MAX,
        Input::CheckIn { connection, .. } => s.has_issued(connection),
        Input::Established { id, .. } => s.is_connecting(id) && s.next_connection_id < u32::MAX,
        Input::EstablishFailed { id, .. } => s.is_connecting(id),
        Input::Clear { .. } => s.generation < u32::MAX,
        Input::Close => true,
        Input::Expire { .. } => true,
        Input::Populate => s.next_request_id + demand(s) <= u64::MAX,
    }
}

/// The state the operation leaves.
pub open spec fn step(s: PoolView, input: Input) -> PoolView {
    match input {
        Input::MarkAsReady { now } => mark_as_ready(s, now).post,
        Input::CheckOut { now, timeout } => check_out(s, now, timeout).post,
        Input::CheckIn { connection, now } => check_in(s, connection, now).post,
        Input::Established { id, now } => established(s, id, now).post,
        Input::EstablishFailed { id, now } => establish_failed(s, id, now).post,
        Input::Clear { cause, pause } => clear(s, cause, pause),
        Input::Close => close(s).post,
        Input::Expire { now } => expire(s, now).post,
        Input::Populate => populate(s).post,
    }
}

/// The notifications the operation gives rise to.
pub open spec fn notifications(s: PoolView, input: Input) -> Seq<Wakeup> {
    match input {
        Input::MarkAsReady { now } => mark_as_ready(s, now).wakeups,
        Input::CheckIn { connection, now } => check_in(s, connection, now).wakeups,
        Input::Established { id, now } => established(s, id, now).wakeups,
        Input::EstablishFailed { id, now } => establish_failed(s, id, now).wakeups,
        Input::Close => close(s).wakeups,
        Input::Expire { now } => expire(s, now).wakeups,
        _ => Seq::empty(),
    }
}

/// Whether the operation hands the connection `c` to a caller: as the result
/// of a check-out, as the result of an establishment, or in a notification.
pub open spec fn hands_out(s: PoolView, input: Input, c: Connection) -> bool {
    ||| input matches Input::CheckOut { now, timeout } && check_out(s, now, timeout).result
        == CheckOut::Connection(c)
    ||| input matches Input::Established { id, now } && established(s, id, now).connection == Some(
        c,
    )
    ||| exists|i: int|
        0 <= i < notifications(s, input).len() && (#[trigger] notifications(s, input)[i]).grant
            == Grant::Connection(c)
}

/// The state after the operations `inputs`, applied in order.
pub open spec fn run(s: PoolView, inputs: Seq<Input>) -> PoolView
    decreases inputs.len(),
{
    if inputs.len() == 0 {
        s
    } else {
        step(run(s, inputs.drop_last()), inputs.last())
    }
}

/// Whether every operation of `inputs` is given what it asks for when its
/// turn comes.
pub open spec fn runnable(s: PoolView, inputs: Seq<Input>) -> bool
    decreases inputs.len(),
{
    inputs.len() == 0 || (runnable(s, inputs.drop_last()) && enabled(
        run(s, inputs.drop_last()),
        inputs.last(),
    ))
}

/// One operation keeps what holds of a pool. It leaves the limits alone, and
/// the generation can only grow.
pub proof fn lemma_step(s: PoolView, input: Input)
    requires
        inv(s),
        enabled(s, input),
    ensures
        inv(step(s, input)),
        step(s, input).limits == s.limits,
        step(s, input).generation >= s.generation,
        forall|c: Connection|
            hands_out(s, input, c) ==> c.generation == #[trigger] step(s, input).generation,
{
    match input {
        Input::MarkAsReady { now } => {
            lemma_mark_as_ready(s, now);
        },
        Input::CheckOut { now, timeout } => {
            lemma_check_out(s, now, timeout);
        },
        Input::CheckIn { connection, now } => {
            lemma_check_in(s, connection, now);
        },
        Input::Established { id, now } => {
            lemma_established(s, id, now);
        },
        Input::EstablishFailed { id, now } => {
            lemma_establish_failed(s, id, now);
        },
        Input::Clear { cause, pause } => {
            lemma_clear(s, cause, pause);
        },
        Input::Close => {
            lemma_close(s);
        },
        Input::Expire { now } => {
            lemma_expire(s, now);
        },
        Input::Populate => {
            lemma_populate(s);
        },
    }
}

/// A run keeps what holds of a pool. It leaves the limits alone, and the
/// generation can only grow.
pub proof fn lemma_run(s: PoolView, inputs: Seq<Input>)
    requires
        inv(s),
        runnable(s, inputs),
    ensures
        inv(run(s, inputs)),
        run(s, inputs).limits == s.limits,
        run(s, inputs).generation >= s.generation,
    decreases inputs.len(),
{
    if inputs.len() > 0 {
        lemma_run(s, inputs.drop_last());
        lemma_step(run(s, inputs.drop_last()), inputs.last());
    }
}

/// Whatever is done to a pool, it never holds more connections than
/// `max_pool_size`: idle, checked out and in the making together. In
/// particular the idle and the checked-out connections never exceed it, and
/// no more than `max_connecting` are in the making at a time.
pub proof fn law_capacity_is_never_exceeded(
    address: Seq<char>,
    limits: Limits,
    options: EventOptions,
    inputs: Seq<Input>,
)
    requires
        runnable(created(address, limits, options), inputs),
    ensures
        ({
            let s = run(created(address, limits, options), inputs);
            &&& s.total_established() <= limits.max_pool_size
            &&& s.idle.len() + s.checked_out.len() <= limits.max_pool_size
            &&& s.connecting.len() <= limits.max_connecting
        }),
{
    lemma_created(address, limits, options);
    lemma_run(created(address, limits, options), inputs);
}

/// The generation of a pool never decreases, and a clear of a pool that is
/// not closed moves it on by exactly one.
pub proof fn law_generation_only_grows(s: PoolView, inputs: Seq<Input>, cause: Seq<char>, pause: bool)
    requires
        inv(s),
        runnable(s, inputs),
    ensures
        run(s, inputs).generation >= s.generation,
        s.state != PoolState::Closed && s.generation < u32::MAX ==> clear(s, cause, pause).generation
            == s.generation + 1,
{
    lemma_run(s, inputs);
}

/// After a clear, whatever is done to the pool next, no operation hands out
/// a connection of a generation older than the one the clear began: not as
/// the result of a check-out, not as the result of an establishment, and not
/// in a notification to a request that waited. A connection that was idle
/// when the pool was cleared is never handed out again.
pub proof fn law_nothing_stale_after_clear(
    s: PoolView,
    cause: Seq<char>,
    pause: bool,
    inputs: Seq<Input>,
    next: Input,
    c: Connection,
)
    requires
        inv(s),
        s.state != PoolState::Closed,
        s.generation < u32::MAX,
        runnable(clear(s, cause, pause), inputs),
        enabled(run(clear(s, cause, pause), inputs), next),
        hands_out(run(clear(s, cause, pause), inputs), next, c),
    ensures
        c.generation >= clear(s, cause, pause).generation,
        c.generation > s.generation,
        clear(s, cause, pause).idle.len() == 0,
        forall|i: int| 0 <= i < s.idle.len() ==> c != #[trigger] s.idle[i],
{
    let cleared = clear(s, cause, pause);
    lemma_clear(s, cause, pause);
    lemma_run(cleared, inputs);
    lemma_step(run(cleared, inputs), next);
}

/// Serving an idle connection or giving leave to establish one emits no
/// `CheckedIn`.
pub proof fn lemma_serve_checks_nothing_in(s: PoolView, request: u64, now: u64, p: Pattern)
    requires
        p is CheckedIn || p is CheckedInOf,
    ensures
        tally(serve(s, request, now).post.history, p) == tally(s.history, p),
{
    let k = unusable_prefix(s.idle, s.generation, s.limits.max_idle_time, now) as int;
    let discards = discard_events(s.idle.take(k), s.generation);
    lemma_tally_add_all(s.history, discards);
    lemma_tally_discard_all(s.idle.take(k), s.generation);
    let s1 = s.discard(k);
    if s1.idle.len() > 0 {
        let c = touched(s1.idle[0], now);
        lemma_tally_push_all(s1.history, Event::CheckedOut { connection_id: c.id });
    }
}

/// Serving the waiting requests emits no `CheckedIn`.
pub proof fn lemma_settle_checks_nothing_in(s: PoolView, now: u64, p: Pattern)
    requires
        p is CheckedIn || p is CheckedInOf,
    ensures
        tally(settle(s, now).post.history, p) == tally(s.history, p),
    decreases s.wait_queue.len(),
{
    if s.state != PoolState::Ready || s.wait_queue.len() == 0 {
    } else {
        let head = s.wait_queue[0];
        let a = serve(s, head.request, now);
        lemma_serve_checks_nothing_in(s, head.request, now, p);
        if a.grant is Some {
            lemma_settle_checks_nothing_in(
                PoolView { wait_queue: s.wait_queue.drop_first(), ..a.post },
                now,
                p,
            );
        }
    }
}

/// What is emitted once a connection is back and `CheckedIn` is out holds no
/// further `CheckedIn`.
pub proof fn lemma_check_in_checks_in_once(s: PoolView, c: Connection, now: u64, p: Pattern)
    requires
        s.has_issued(c),
        p is CheckedIn || p is CheckedInOf,
    ensures
        tally(check_in(s, c, now).post.history, p) == tally(
            s.history.push(Event::CheckedIn { connection_id: c.id }),
            p,
        ),
{
    lemma_issued_index(s, c);
    let returned = s.take_back(issued_index(s, c));
    if s.state == PoolState::Closed {
    } else if !is_usable(c, s.generation, s.limits.max_idle_time, now) {
        let e = Event::ConnectionClosed {
            connection_id: c.id,
            reason: close_reason(c, s.generation),
        };
        lemma_tally_push_all(returned.history, e);
        lemma_settle_checks_nothing_in(returned.emit(e), now, p);
    } else {
        lemma_settle_checks_nothing_in(returned.store(touched(c, now)), now, p);
    }
}

/// A connection that comes back is checked in exactly once: the check-in
/// emits one `CheckedIn`, for this connection, whether the connection is
/// kept, closed or handed on, and whether or not the pool is closed.
pub proof fn law_check_in_emits_exactly_one_checked_in(s: PoolView, c: Connection, now: u64)
    requires
        s.has_issued(c),
    ensures
        ({
            let post = check_in(s, c, now).post;
            &&& tally(post.history, Pattern::CheckedIn) == tally(s.history, Pattern::CheckedIn) + 1
            &&& tally(post.history, Pattern::CheckedInOf(c.id)) == tally(
                s.history,
                Pattern::CheckedInOf(c.id),
            ) + 1
            &&& forall|id: u32|
                id != c.id ==> #[trigger] tally(post.history, Pattern::CheckedInOf(id)) == tally(
                    s.history,
                    Pattern::CheckedInOf(id),
                )
        }),
{
    let post = check_in(s, c, now).post;
    lemma_tally_push_all(s.history, Event::CheckedIn { connection_id: c.id });
    lemma_check_in_checks_in_once(s, c, now, Pattern::CheckedIn);
    lemma_check_in_checks_in_once(s, c, now, Pattern::CheckedInOf(c.id));
    assert forall|id: u32| id != c.id implies #[trigger] tally(
        post.history,
        Pattern::CheckedInOf(id),
    ) == tally(s.history, Pattern::CheckedInOf(id)) by {
        lemma_check_in_checks_in_once(s, c, now, Pattern::CheckedInOf(id));
    }
}

/// Whatever is done to a pool, every connection has been checked in as
/// often as it has been checked out, less once if a caller holds it: no
/// check-out is left without its `CheckedIn` once the connection is back,
/// and none has more than one.
pub proof fn law_every_check_out_is_checked_in_once(
    address: Seq<char>,
    limits: Limits,
    options: EventOptions,
    inputs: Seq<Input>,
    id: u32,
)
    requires
        runnable(created(address, limits, options), inputs),
    ensures
        ({
            let s = run(created(address, limits, options), inputs);
            &&& tally(s.history, Pattern::CheckedOutOf(id)) == tally(
                s.history,
                Pattern::CheckedInOf(id),
            ) + holders(s.checked_out, id)
            &&& tally(s.history, Pattern::CheckedOut) == tally(s.history, Pattern::CheckedIn)
                + s.checked_out.len()
        }),
{
    lemma_created(address, limits, options);
    lemma_run(created(address, limits, options), inputs);
    assert(lease_balanced(run(created(address, limits, options), inputs), id));
}

/// Whatever is done to a pool, every `CheckOutStarted` is followed by one
/// `CheckedOut` or one `CheckOutFailed`, but for the requests that still wait
/// or are having a connection established.
pub proof fn law_every_started_check_out_ends_once(
    address: Seq<char>,
    limits: Limits,
    options: EventOptions,
    inputs: Seq<Input>,
)
    requires
        runnable(created(address, limits, options), inputs),
    ensures
        ({
            let s = run(created(address, limits, options), inputs);
            tally(s.history, Pattern::CheckOutStarted) == tally(s.history, Pattern::CheckedOut)
                + tally(s.history, Pattern::CheckOutFailed) + started_count(s.wait_queue)
                + asked_count(s.connecting)
        }),
{
    lemma_created(address, limits, options);
    lemma_run(created(address, limits, options), inputs);
}

/// Whatever is done to a pool, `PoolClosed` is emitted once if the pool is
/// closed and never before, and nothing follows it but the `CheckedIn` of
/// connections that were out when the pool closed.
pub proof fn law_pool_closed_is_final(
    address: Seq<char>,
    limits: Limits,
    options: EventOptions,
    inputs: Seq<Input>,
)
    requires
        runnable(created(address, limits, options), inputs),
    ensures
        ({
            let s = run(created(address, limits, options), inputs);
            &&& tally(s.history, Pattern::PoolClosed) == if s.state == PoolState::Closed {
                1nat
            } else {
                0nat
            }
            &&& forall|i: int, j: int|
                #![trigger s.history[i], s.history[j]]
                0 <= i < j < s.history.len() && s.history[i] is PoolClosed
                    ==> s.history[j] is CheckedIn
        }),
{
    lemma_created(address, limits, options);
    lemma_run(created(address, limits, options), inputs);
}

/// Whatever is done to a pool, no two of its connections, idle or with a
/// caller, have the same id, and every id in use was drawn from the counter,
/// which only grows.
pub proof fn law_connection_ids_are_unique(
    address: Seq<char>,
    limits: Limits,
    options: EventOptions,
    inputs: Seq<Input>,
    id: u32,
)
    requires
        runnable(created(address, limits, options), inputs),
    ensures
        ({
            let s = run(created(address, limits, options), inputs);
            &&& holders(s.idle, id) + holders(s.checked_out, id) <= 1
            &&& id >= s.next_connection_id ==> holders(s.idle, id) + holders(s.checked_out, id) == 0
        }),
{
    let s = run(created(address, limits, options), inputs);
    lemma_created(address, limits, options);
    lemma_run(created(address, limits, options), inputs);
    assert(copies(s, id) <= 1);
    if id >= s.next_connection_id {
        lemma_holders_absent(s.idle, id);
        lemma_holders_absent(s.checked_out, id);
    }
}

/// Requests are served in the order in which they wait: whenever waiting
/// requests are served, the notifications go to the requests at the head of
/// the queue, one each and in the order of the queue, and the others stay
/// as they were.
pub proof fn law_waiters_are_served_in_arrival_order(s: PoolView, now: u64)
    requires
        inv(s),
    ensures
        in_arrival_order(settle(s, now).wakeups, s.wait_queue),
        settle(s, now).post.wait_queue == s.wait_queue.skip(settle(s, now).wakeups.len() as int),
{
    lemma_settle(s, now);
}

} // verus!

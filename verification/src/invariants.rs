//! What holds of a pool at all times, and why every operation keeps it.

use vstd::prelude::*;
use crate::connection::{Connection, is_usable, touched};
use crate::event::{CheckOutFailedReason, ConnectionClosedReason, Event};
use crate::history::{
    Pattern, holders, lemma_holders_absent, lemma_holders_add, lemma_holders_push,
    lemma_holders_remove, lemma_holders_single, lemma_holders_split, lemma_tally_add_all,
    lemma_tally_closing_all, lemma_tally_discard_all, lemma_tally_push_all,
    lemma_tally_repeated_all, tally,
};
use crate::model::{
    CheckOut, Establishment, Grant, PoolState, PoolView, Waiter, Wakeup, asked_count, background,
    by_deadline, check_in, check_out, clear, close, close_reason, closing_events,
    connecting_index, created, deadline_at, demand, discard_events, establish_failed,
    established, expire, is_due, issued_index, mark_as_ready, orphan_all, populate, repeated,
    serve, settle, start_all, started_count, unusable_prefix,
};
use crate::options::{EventOptions, Limits};

verus! {

/// The pool never holds more connections than `max_pool_size`, nor makes
/// more at a time than `max_connecting`.
pub open spec fn within_limits(s: PoolView) -> bool {
    &&& s.total_established() <= s.limits.max_pool_size
    &&& s.connecting.len() <= s.limits.max_connecting
}

/// No idle connection is stale, and no connection is from the future.
pub open spec fn generations_ok(s: PoolView) -> bool {
    &&& forall|i: int|
        0 <= i < s.idle.len() ==> (#[trigger] s.idle[i]).generation == s.generation
    &&& forall|i: int|
        0 <= i < s.checked_out.len() ==> (#[trigger] s.checked_out[i]).generation
            <= s.generation
}

/// Every id and request number in use was drawn from the counters.
pub open spec fn numbers_ok(s: PoolView) -> bool {
    &&& s.next_connection_id >= 1
    &&& s.next_request_id >= 1
    &&& forall|i: int| 0 <= i < s.idle.len() ==> (#[trigger] s.idle[i]).id < s.next_connection_id
    &&& forall|i: int|
        0 <= i < s.checked_out.len() ==> (#[trigger] s.checked_out[i]).id < s.next_connection_id
    &&& forall|i: int|
        0 <= i < s.wait_queue.len() ==> (#[trigger] s.wait_queue[i]).request < s.next_request_id
    &&& forall|i: int|
        0 <= i < s.connecting.len() ==> (#[trigger] s.connecting[i]).id < s.next_request_id
}

/// A closed pool holds nothing and nobody waits for it; in a ready pool every
/// waiting request has started.
pub open spec fn state_ok(s: PoolView) -> bool {
    &&& s.state == PoolState::Closed ==> {
        &&& s.idle.len() == 0
        &&& s.wait_queue.len() == 0
        &&& forall|i: int| 0 <= i < s.connecting.len() ==> (#[trigger] s.connecting[i]).background
    }
    &&& s.state == PoolState::Ready ==> forall|i: int|
        0 <= i < s.wait_queue.len() ==> (#[trigger] s.wait_queue[i]).started
}

/// Nobody waits while a ready pool could serve: if a request waits, no
/// connection is idle and no connection may be started.
pub open spec fn work_conserving(s: PoolView) -> bool {
    s.state == PoolState::Ready && s.wait_queue.len() > 0 ==> s.idle.len() == 0
        && !s.has_capacity()
}

/// The connection `id` was checked out once more than it was checked in if a
/// caller holds it, and as often if not.
pub open spec fn lease_balanced(s: PoolView, id: u32) -> bool {
    tally(s.history, Pattern::CheckedOutOf(id)) == tally(s.history, Pattern::CheckedInOf(id))
        + holders(s.checked_out, id)
}

/// Every `CheckedOut` has its `CheckedIn`, but for the connections callers
/// still hold: in total and for each connection.
pub open spec fn leases_balanced(s: PoolView) -> bool {
    &&& tally(s.history, Pattern::CheckedOut) == tally(s.history, Pattern::CheckedIn)
        + s.checked_out.len()
    &&& forall|id: u32| #[trigger] lease_balanced(s, id)
}

/// The started requests that have neither been served nor failed, less those
/// that wait or have a connection established for them.
pub open spec fn unsettled_requests(s: PoolView) -> int {
    tally(s.history, Pattern::CheckOutStarted) - tally(s.history, Pattern::CheckedOut) - tally(
        s.history,
        Pattern::CheckOutFailed,
    ) - started_count(s.wait_queue) - asked_count(s.connecting)
}

/// `PoolClosed` is emitted exactly when the pool closes, once, and only
/// `CheckedIn` events follow it.
pub open spec fn closed_for_good(s: PoolView) -> bool {
    &&& tally(s.history, Pattern::PoolClosed) == if s.state == PoolState::Closed {
        1nat
    } else {
        0nat
    }
    &&& quiet_after_close(s.history)
}

/// Whatever follows a `PoolClosed` is a `CheckedIn`.
pub open spec fn quiet_after_close(h: Seq<Event>) -> bool {
    forall|i: int, j: int|
        #![trigger h[i], h[j]]
        0 <= i < j < h.len() && h[i] is PoolClosed ==> h[j] is CheckedIn
}

/// A history without `PoolClosed` has it at no index.
pub proof fn lemma_no_pool_closed(h: Seq<Event>, i: int)
    requires
        tally(h, Pattern::PoolClosed) == 0,
    ensures
        0 <= i < h.len() ==> !(h[i] is PoolClosed),
    decreases h.len(),
{
    if 0 <= i < h.len() {
        if i < h.len() - 1 {
            lemma_no_pool_closed(h.drop_last(), i);
        }
    }
}

/// In a history without `PoolClosed` nothing follows one.
pub proof fn lemma_quiet_unclosed(h: Seq<Event>)
    requires
        tally(h, Pattern::PoolClosed) == 0,
    ensures
        quiet_after_close(h),
{
    assert forall|i: int, j: int|
        #![trigger h[i], h[j]]
        0 <= i < j < h.len() && h[i] is PoolClosed implies h[j] is CheckedIn by {
        lemma_no_pool_closed(h, i);
    }
}

/// The first `PoolClosed` of a history has nothing after it.
pub proof fn lemma_quiet_closing(h: Seq<Event>)
    requires
        tally(h, Pattern::PoolClosed) == 0,
    ensures
        quiet_after_close(h.push(Event::PoolClosed)),
{
    let g = h.push(Event::PoolClosed);
    assert forall|i: int, j: int|
        #![trigger g[i], g[j]]
        0 <= i < j < g.len() && g[i] is PoolClosed implies g[j] is CheckedIn by {
        lemma_no_pool_closed(h, i);
    }
}

/// A `CheckedIn` may follow a `PoolClosed`.
pub proof fn lemma_quiet_check_in(h: Seq<Event>, id: u32)
    requires
        quiet_after_close(h),
    ensures
        quiet_after_close(h.push(Event::CheckedIn { connection_id: id })),
{
    let g = h.push(Event::CheckedIn { connection_id: id });
    assert forall|i: int, j: int|
        #![trigger g[i], g[j]]
        0 <= i < j < g.len() && g[i] is PoolClosed implies g[j] is CheckedIn by {
        if j < h.len() {
            assert(h[i] is PoolClosed);
            assert(h[j] is CheckedIn);
        }
    }
}

/// How many connections of the pool, idle or with a caller, have the id `id`.
pub open spec fn copies(s: PoolView, id: u32) -> nat {
    holders(s.idle, id) + holders(s.checked_out, id)
}

/// No two connections of the pool have the same id.
pub open spec fn ids_unique(s: PoolView) -> bool {
    forall|id: u32| #[trigger] copies(s, id) <= 1
}

/// Everything but `work_conserving`, with `unsettled` started requests being
/// served at this very moment.
pub open spec fn inv_while_serving(s: PoolView, unsettled: int) -> bool {
    &&& within_limits(s)
    &&& generations_ok(s)
    &&& numbers_ok(s)
    &&& ids_unique(s)
    &&& state_ok(s)
    &&& leases_balanced(s)
    &&& unsettled_requests(s) == unsettled
    &&& closed_for_good(s)
}

/// What holds of a pool between any two operations.
pub open spec fn inv(s: PoolView) -> bool {
    &&& inv_while_serving(s, 0)
    &&& work_conserving(s)
}

/// The unusable prefix is a prefix, nothing in it is usable, and what
/// follows it, if anything, is.
pub proof fn lemma_unusable_prefix(
    idle: Seq<Connection>,
    generation: u32,
    max_idle_time: Option<u64>,
    now: u64,
)
    ensures
        unusable_prefix(idle, generation, max_idle_time, now) <= idle.len(),
        forall|i: int|
            0 <= i < unusable_prefix(idle, generation, max_idle_time, now) ==> !is_usable(
                #[trigger] idle[i],
                generation,
                max_idle_time,
                now,
            ),
        unusable_prefix(idle, generation, max_idle_time, now) < idle.len() ==> is_usable(
            idle[unusable_prefix(idle, generation, max_idle_time, now) as int],
            generation,
            max_idle_time,
            now,
        ),
    decreases idle.len(),
{
    if idle.len() == 0 || is_usable(idle[0], generation, max_idle_time, now) {
    } else {
        let rest = idle.drop_first();
        lemma_unusable_prefix(rest, generation, max_idle_time, now);
        let k = unusable_prefix(rest, generation, max_idle_time, now) as int;
        assert forall|i: int| 0 <= i < k + 1 implies !is_usable(
            #[trigger] idle[i],
            generation,
            max_idle_time,
            now,
        ) by {
            if i > 0 {
                assert(idle[i] == rest[i - 1]);
            }
        }
        if k < rest.len() {
            assert(idle[k + 1] == rest[k]);
        }
    }
}

/// Where every request has started, the started requests are all of them.
pub proof fn lemma_all_started(q: Seq<Waiter>)
    requires
        forall|i: int| 0 <= i < q.len() ==> (#[trigger] q[i]).started,
    ensures
        started_count(q) == q.len(),
    decreases q.len(),
{
    if q.len() > 0 {
        lemma_all_started(q.drop_last());
    }
}

/// Where nobody asked for any establishment, none counts as asked for.
pub proof fn lemma_none_asked(c: Seq<Establishment>)
    requires
        forall|i: int| 0 <= i < c.len() ==> (#[trigger] c[i]).background,
    ensures
        asked_count(c) == 0,
    decreases c.len(),
{
    if c.len() > 0 {
        lemma_none_asked(c.drop_last());
    }
}

/// Whether an event is counted under no pattern.
pub open spec fn uncounted(e: Event) -> bool {
    e is PoolCreated || e is PoolReady || e is PoolCleared || e is ConnectionCreated
        || e is ConnectionReady || e is ConnectionClosed
}

/// Emitting an event that nothing counts changes nothing that holds.
pub proof fn lemma_emit(s: PoolView, e: Event, k: int)
    requires
        inv_while_serving(s, k),
        s.state != PoolState::Closed,
        uncounted(e),
    ensures
        inv_while_serving(s.emit(e), k),
{
    lemma_tally_push_all(s.history, e);
    lemma_quiet_unclosed(s.emit(e).history);
    assert forall|id: u32| #[trigger] lease_balanced(s.emit(e), id) by {
        assert(lease_balanced(s, id));
    }
    assert forall|id: u32| #[trigger] copies(s.emit(e), id) <= 1 by {
        assert(copies(s, id) <= 1);
    }
}

/// Emitting `CheckOutStarted` leaves one more request to settle.
pub proof fn lemma_emit_started(s: PoolView, k: int)
    requires
        inv_while_serving(s, k),
        s.state != PoolState::Closed,
    ensures
        inv_while_serving(s.emit(Event::CheckOutStarted), k + 1),
{
    let e = Event::CheckOutStarted;
    lemma_tally_push_all(s.history, e);
    lemma_quiet_unclosed(s.emit(e).history);
    assert forall|id: u32| #[trigger] lease_balanced(s.emit(e), id) by {
        assert(lease_balanced(s, id));
    }
    assert forall|id: u32| #[trigger] copies(s.emit(e), id) <= 1 by {
        assert(copies(s, id) <= 1);
    }
}

/// Emitting `CheckOutFailed` settles one request.
pub proof fn lemma_emit_failed(s: PoolView, reason: CheckOutFailedReason, k: int)
    requires
        inv_while_serving(s, k),
        s.state != PoolState::Closed,
    ensures
        inv_while_serving(s.emit(Event::CheckOutFailed { reason }), k - 1),
{
    let e = Event::CheckOutFailed { reason };
    lemma_tally_push_all(s.history, e);
    lemma_quiet_unclosed(s.emit(e).history);
    assert forall|id: u32| #[trigger] lease_balanced(s.emit(e), id) by {
        assert(lease_balanced(s, id));
    }
    assert forall|id: u32| #[trigger] copies(s.emit(e), id) <= 1 by {
        assert(copies(s, id) <= 1);
    }
}

/// Emitting `n` times `CheckOutStarted` leaves `n` more requests to settle.
pub proof fn lemma_emit_all_started(s: PoolView, n: nat, k: int)
    requires
        inv_while_serving(s, k),
        s.state != PoolState::Closed,
    ensures
        inv_while_serving(s.emit_all(repeated(Event::CheckOutStarted, n)), k + n),
{
    let es = repeated(Event::CheckOutStarted, n);
    lemma_tally_add_all(s.history, es);
    lemma_tally_repeated_all(Event::CheckOutStarted, n);
    lemma_quiet_unclosed(s.emit_all(es).history);
    assert forall|id: u32| #[trigger] lease_balanced(s.emit_all(es), id) by {
        assert(lease_balanced(s, id));
    }
    assert forall|id: u32| #[trigger] copies(s.emit_all(es), id) <= 1 by {
        assert(copies(s, id) <= 1);
    }
}

/// Emitting `ConnectionClosed` events changes nothing that holds.
pub proof fn lemma_emit_all_closing(
    s: PoolView,
    cs: Seq<Connection>,
    reason: ConnectionClosedReason,
    k: int,
)
    requires
        inv_while_serving(s, k),
        s.state != PoolState::Closed,
    ensures
        inv_while_serving(s.emit_all(closing_events(cs, reason)), k),
{
    let es = closing_events(cs, reason);
    lemma_tally_add_all(s.history, es);
    lemma_tally_closing_all(cs, reason);
    lemma_quiet_unclosed(s.emit_all(es).history);
    assert forall|id: u32| #[trigger] lease_balanced(s.emit_all(es), id) by {
        assert(lease_balanced(s, id));
    }
    assert forall|id: u32| #[trigger] copies(s.emit_all(es), id) <= 1 by {
        assert(copies(s, id) <= 1);
    }
}

/// Closing the first `n` idle connections changes nothing else that holds.
pub proof fn lemma_discard(s: PoolView, n: int, k: int)
    requires
        inv_while_serving(s, k),
        s.state != PoolState::Closed,
        0 <= n <= s.idle.len(),
    ensures
        inv_while_serving(s.discard(n), k),
{
    let es = discard_events(s.idle.take(n), s.generation);
    let post = s.discard(n);
    lemma_holders_split(s.idle, n);
    lemma_tally_add_all(s.history, es);
    lemma_tally_discard_all(s.idle.take(n), s.generation);
    lemma_quiet_unclosed(post.history);
    assert forall|id: u32| #[trigger] lease_balanced(post, id) by {
        assert(lease_balanced(s, id));
    }
    assert forall|id: u32| #[trigger] copies(post, id) <= 1 by {
        assert(copies(s, id) <= 1);
    }
    assert forall|i: int| 0 <= i < post.idle.len() implies (#[trigger] post.idle[i]).generation
        == post.generation && post.idle[i].id < post.next_connection_id by {
        assert(post.idle[i] == s.idle[n + i]);
    }
}

/// Handing the first idle connection to a caller settles one request.
pub proof fn lemma_lend_idle(s: PoolView, now: u64, k: int)
    requires
        inv_while_serving(s, k),
        s.state != PoolState::Closed,
        s.idle.len() > 0,
    ensures
        inv_while_serving(
            PoolView { idle: s.idle.drop_first(), ..s }.lend(touched(s.idle[0], now)),
            k - 1,
        ),
{
    let c = touched(s.idle[0], now);
    let t = PoolView { idle: s.idle.drop_first(), ..s };
    let post = t.lend(c);
    lemma_holders_split(s.idle, 1);
    assert(s.idle.take(1) =~= seq![s.idle[0]]);
    assert(s.idle.skip(1) =~= s.idle.drop_first());
    lemma_holders_single(s.idle[0]);
    lemma_tally_push_all(s.history, Event::CheckedOut { connection_id: c.id });
    lemma_holders_push(s.checked_out, c);
    lemma_quiet_unclosed(post.history);
    assert forall|id: u32| #[trigger] lease_balanced(post, id) by {
        assert(lease_balanced(s, id));
    }
    assert forall|id: u32| #[trigger] copies(post, id) <= 1 by {
        assert(copies(s, id) <= 1);
    }
    assert forall|i: int| 0 <= i < post.idle.len() implies (#[trigger] post.idle[i]).generation
        == post.generation && post.idle[i].id < post.next_connection_id by {
        assert(post.idle[i] == s.idle[i + 1]);
    }
}

/// Handing a new connection to a caller settles one request.
pub proof fn lemma_lend(s: PoolView, c: Connection, k: int)
    requires
        inv_while_serving(s, k),
        s.state != PoolState::Closed,
        s.total_established() < s.limits.max_pool_size,
        c.generation <= s.generation,
        c.id < s.next_connection_id,
        copies(s, c.id) == 0,
    ensures
        inv_while_serving(s.lend(c), k - 1),
{
    let post = s.lend(c);
    lemma_tally_push_all(s.history, Event::CheckedOut { connection_id: c.id });
    lemma_holders_push(s.checked_out, c);
    assert(copies(s, c.id) == 0);
    lemma_quiet_unclosed(post.history);
    assert forall|id: u32| #[trigger] lease_balanced(post, id) by {
        assert(lease_balanced(s, id));
    }
    assert forall|id: u32| #[trigger] copies(post, id) <= 1 by {
        assert(copies(s, id) <= 1);
    }
}

/// Taking a connection back changes nothing else that holds.
pub proof fn lemma_take_back(s: PoolView, i: int, k: int)
    requires
        inv_while_serving(s, k),
        0 <= i < s.checked_out.len(),
    ensures
        inv_while_serving(s.take_back(i), k),
        s.checked_out[i].generation <= s.generation,
        s.checked_out[i].id < s.next_connection_id,
        s.take_back(i).total_established() < s.limits.max_pool_size,
        copies(s.take_back(i), s.checked_out[i].id) == 0,
{
    let id0 = s.checked_out[i].id;
    let e = Event::CheckedIn { connection_id: id0 };
    let post = s.take_back(i);
    lemma_tally_push_all(s.history, e);
    lemma_holders_remove(s.checked_out, i);
    lemma_quiet_check_in(s.history, id0);
    assert(copies(s, id0) <= 1);
    assert(holders(post.checked_out, id0) + 1 == holders(s.checked_out, id0));
    assert forall|id: u32| #[trigger] lease_balanced(post, id) by {
        assert(lease_balanced(s, id));
    }
    assert forall|id: u32| #[trigger] copies(post, id) <= 1 by {
        assert(copies(s, id) <= 1);
    }
}

/// Putting a fresh connection at the head of the idle store changes nothing
/// else that holds.
pub proof fn lemma_store(s: PoolView, c: Connection, k: int)
    requires
        inv_while_serving(s, k),
        s.state != PoolState::Closed,
        s.total_established() < s.limits.max_pool_size,
        c.generation == s.generation,
        c.id < s.next_connection_id,
        copies(s, c.id) == 0,
    ensures
        inv_while_serving(s.store(c), k),
{
    let post = s.store(c);
    lemma_holders_add(seq![c], s.idle);
    lemma_holders_single(c);
    assert forall|id: u32| #[trigger] lease_balanced(post, id) by {
        assert(lease_balanced(s, id));
    }
    assert forall|id: u32| #[trigger] copies(post, id) <= 1 by {
        assert(copies(s, id) <= 1);
    }
    assert forall|i: int| 0 <= i < post.idle.len() implies (#[trigger] post.idle[i]).generation
        == post.generation && post.idle[i].id < post.next_connection_id by {
        if i > 0 {
            assert(post.idle[i] == s.idle[i - 1]);
        }
    }
}

/// Starting an establishment for a request settles the request.
pub proof fn lemma_begin(s: PoolView, request: u64, k: int)
    requires
        inv_while_serving(s, k),
        s.state != PoolState::Closed,
        s.has_capacity(),
        request < s.next_request_id,
    ensures
        inv_while_serving(s.begin(Establishment { id: request, background: false }), k - 1),
{
    let e = Establishment { id: request, background: false };
    let post = s.begin(e);
    lemma_asked_push(s.connecting, e);
    assert forall|id: u32| #[trigger] lease_balanced(post, id) by {
        assert(lease_balanced(s, id));
    }
    assert forall|id: u32| #[trigger] copies(post, id) <= 1 by {
        assert(copies(s, id) <= 1);
    }
}

/// An establishment that ends leaves its request, if it has one, to settle.
pub proof fn lemma_finish(s: PoolView, i: int, k: int)
    requires
        inv_while_serving(s, k),
        0 <= i < s.connecting.len(),
    ensures
        inv_while_serving(
            s.finish(i),
            k + if s.connecting[i].background {
                0int
            } else {
                1int
            },
        ),
        s.finish(i).total_established() < s.limits.max_pool_size,
        s.state == PoolState::Closed ==> s.connecting[i].background,
{
    let post = s.finish(i);
    lemma_asked_remove(s.connecting, i);
    assert forall|id: u32| #[trigger] lease_balanced(post, id) by {
        assert(lease_balanced(s, id));
    }
    assert forall|id: u32| #[trigger] copies(post, id) <= 1 by {
        assert(copies(s, id) <= 1);
    }
    assert forall|j: int| 0 <= j < post.connecting.len() implies (#[trigger] post.connecting[j]).id
        < post.next_request_id && (s.state == PoolState::Closed ==> post.connecting[j].background) by {
        if j < i {
            assert(post.connecting[j] == s.connecting[j]);
        } else {
            assert(post.connecting[j] == s.connecting[j + 1]);
        }
    }
}

/// A request that joins the queue is settled for now if it had started.
pub proof fn lemma_enqueue(s: PoolView, w: Waiter, k: int)
    requires
        inv_while_serving(s, k),
        s.state != PoolState::Closed,
        s.state == PoolState::Ready ==> w.started,
        w.request < s.next_request_id,
    ensures
        inv_while_serving(
            s.enqueue(w),
            k - if w.started {
                1int
            } else {
                0int
            },
        ),
{
    let post = s.enqueue(w);
    lemma_started_push(s.wait_queue, w);
    assert forall|id: u32| #[trigger] lease_balanced(post, id) by {
        assert(lease_balanced(s, id));
    }
    assert forall|id: u32| #[trigger] copies(post, id) <= 1 by {
        assert(copies(s, id) <= 1);
    }
}

/// Drawing a request number changes nothing that holds.
pub proof fn lemma_number(s: PoolView, k: int)
    requires
        inv_while_serving(s, k),
        s.next_request_id < u64::MAX,
    ensures
        inv_while_serving(PoolView { next_request_id: (s.next_request_id + 1) as u64, ..s }, k),
{
    let post = PoolView { next_request_id: (s.next_request_id + 1) as u64, ..s };
    assert forall|id: u32| #[trigger] lease_balanced(post, id) by {
        assert(lease_balanced(s, id));
    }
    assert forall|id: u32| #[trigger] copies(post, id) <= 1 by {
        assert(copies(s, id) <= 1);
    }
}

/// Making a connection changes nothing that holds, and the new connection
/// has an id that was drawn.
pub proof fn lemma_make(s: PoolView, now: u64, k: int)
    requires
        inv_while_serving(s, k),
        s.state != PoolState::Closed,
        s.next_connection_id < u32::MAX,
    ensures
        inv_while_serving(s.make(), k),
        s.fresh(now).id < s.make().next_connection_id,
        s.fresh(now).generation == s.make().generation,
        s.make().total_established() == s.total_established(),
        copies(s.make(), s.fresh(now).id) == 0,
{
    lemma_holders_absent(s.idle, s.next_connection_id);
    lemma_holders_absent(s.checked_out, s.next_connection_id);
    let t = PoolView { next_connection_id: (s.next_connection_id + 1) as u32, ..s };
    assert forall|id: u32| #[trigger] lease_balanced(t, id) by {
        assert(lease_balanced(s, id));
    }
    assert forall|id: u32| #[trigger] copies(t, id) <= 1 by {
        assert(copies(s, id) <= 1);
    }
    assert(inv_while_serving(t, k));
    let e1 = Event::ConnectionCreated { connection_id: s.next_connection_id };
    let e2 = Event::ConnectionReady { connection_id: s.next_connection_id };
    lemma_emit(t, e1, k);
    lemma_emit(t.emit(e1), e2, k);
}

/// Serving one started request keeps what holds of a pool, and settles the
/// request if it is served.
pub proof fn lemma_serve(s: PoolView, request: u64, now: u64)
    requires
        inv_while_serving(s, 1),
        s.state == PoolState::Ready,
        request < s.next_request_id,
    ensures
        ({
            let a = serve(s, request, now);
            &&& a.grant is Some ==> inv_while_serving(a.post, 0)
            &&& a.grant is None ==> inv_while_serving(a.post, 1) && a.post.idle.len() == 0
                && !a.post.has_capacity()
            &&& a.grant matches Some(Grant::Connection(c)) ==> c.generation == s.generation
                && a.post.checked_out.len() > 0 && a.post.checked_out.last() == c
            &&& a.grant matches Some(Grant::Establish) ==> a.post.connecting.len() > 0
                && a.post.connecting.last().id == request
            &&& !(a.grant matches Some(Grant::Failed(_)))
            &&& a.post.limits == s.limits
            &&& a.post.state == s.state
            &&& a.post.generation == s.generation
            &&& a.post.wait_queue == s.wait_queue
            &&& a.post.next_connection_id == s.next_connection_id
            &&& a.post.next_request_id == s.next_request_id
        }),
{
    let k = unusable_prefix(s.idle, s.generation, s.limits.max_idle_time, now) as int;
    lemma_unusable_prefix(s.idle, s.generation, s.limits.max_idle_time, now);
    lemma_discard(s, k, 1);
    let s1 = s.discard(k);
    if s1.idle.len() > 0 {
        assert(s1.idle[0] == s.idle[k]);
        lemma_lend_idle(s1, now, 1);
    } else if s1.has_capacity() {
        lemma_begin(s1, request, 1);
    }
}

/// Whether a notification hands out nothing stale: if it carries a
/// connection, the connection is of generation `generation`. A notification
/// from serving a request never fails it.
pub open spec fn fresh_grant(w: Wakeup, generation: u32) -> bool {
    &&& w.grant matches Grant::Connection(c) ==> c.generation == generation
    &&& !(w.grant is Failed)
}

/// Whether every notification hands out nothing stale.
pub open spec fn fresh_grants(ws: Seq<Wakeup>, generation: u32) -> bool {
    forall|i: int| 0 <= i < ws.len() ==> fresh_grant(#[trigger] ws[i], generation)
}

/// Whether the notifications go to the first requests of the queue, one
/// each and in the order of the queue.
pub open spec fn in_arrival_order(ws: Seq<Wakeup>, queue: Seq<Waiter>) -> bool {
    &&& ws.len() <= queue.len()
    &&& forall|i: int| 0 <= i < ws.len() ==> (#[trigger] ws[i]).request == queue[i].request
}

/// Serving the waiting requests keeps what holds of a pool and leaves
/// nobody waiting who could be served. The requests are served in the order
/// in which they wait, and none gets a stale connection.
pub proof fn lemma_settle(s: PoolView, now: u64)
    requires
        inv_while_serving(s, 0),
    ensures
        ({
            let r = settle(s, now);
            &&& inv(r.post)
            &&& r.post.address == s.address
            &&& r.post.limits == s.limits
            &&& r.post.state == s.state
            &&& r.post.generation == s.generation
            &&& r.post.last_clear_cause == s.last_clear_cause
            &&& r.post.next_connection_id == s.next_connection_id
            &&& r.post.next_request_id == s.next_request_id
            &&& fresh_grants(r.wakeups, s.generation)
            &&& in_arrival_order(r.wakeups, s.wait_queue)
            &&& r.post.wait_queue == s.wait_queue.skip(r.wakeups.len() as int)
        }),
    decreases s.wait_queue.len(),
{
    let r = settle(s, now);
    if s.state != PoolState::Ready || s.wait_queue.len() == 0 {
        assert(s.wait_queue.skip(0) =~= s.wait_queue);
    } else {
        let head = s.wait_queue[0];
        let rest_queue = s.wait_queue.drop_first();
        let waiting = PoolView { wait_queue: rest_queue, ..s };
        lemma_all_started(s.wait_queue);
        lemma_all_started(rest_queue);
        assert forall|id: u32| #[trigger] lease_balanced(waiting, id) by {
            assert(lease_balanced(s, id));
        }
        assert forall|id: u32| #[trigger] copies(waiting, id) <= 1 by {
            assert(copies(s, id) <= 1);
        }
        lemma_serve(waiting, head.request, now);
        let a = serve(s, head.request, now);
        let b = serve(waiting, head.request, now);
        assert(a.grant == b.grant);
        assert(a.post == PoolView { wait_queue: s.wait_queue, ..b.post });
        match a.grant {
            None => {
                assert forall|id: u32| #[trigger] lease_balanced(a.post, id) by {
                    assert(lease_balanced(b.post, id));
                }
                assert forall|id: u32| #[trigger] copies(a.post, id) <= 1 by {
                    assert(copies(b.post, id) <= 1);
                }
                assert(s.wait_queue.skip(0) =~= s.wait_queue);
            },
            Some(grant) => {
                assert(PoolView { wait_queue: rest_queue, ..a.post } == b.post);
                lemma_settle(b.post, now);
                let rest = settle(b.post, now);
                let first = Wakeup { request: head.request, grant };
                assert(r.wakeups == seq![first] + rest.wakeups);
                assert forall|i: int| 0 <= i < r.wakeups.len() implies fresh_grant(
                    #[trigger] r.wakeups[i],
                    s.generation,
                ) && r.wakeups[i].request == s.wait_queue[i].request by {
                    if i > 0 {
                        assert(r.wakeups[i] == rest.wakeups[i - 1]);
                        assert(rest_queue[i - 1] == s.wait_queue[i]);
                    }
                }
                assert(rest_queue.skip(rest.wakeups.len() as int) =~= s.wait_queue.skip(
                    r.wakeups.len() as int,
                ));
            },
        }
    }
}

/// A connection that occurs among those callers hold has a first occurrence.
pub proof fn lemma_first_issued(cs: Seq<Connection>, c: Connection, n: int)
    requires
        0 <= n < cs.len(),
        cs[n] == c,
    ensures
        exists|i: int|
            0 <= i < cs.len() && cs[i] == c && forall|j: int| 0 <= j < i ==> cs[j] != c,
    decreases n,
{
    if exists|m: int| 0 <= m < n && cs[m] == c {
        let m = choose|m: int| 0 <= m < n && cs[m] == c;
        lemma_first_issued(cs, c, m);
    } else {
        assert(forall|j: int| 0 <= j < n ==> cs[j] != c);
    }
}

/// The index under which a returned connection is found is one at which it
/// stands.
pub proof fn lemma_issued_index(s: PoolView, c: Connection)
    requires
        s.has_issued(c),
    ensures
        0 <= issued_index(s, c) < s.checked_out.len(),
        s.checked_out[issued_index(s, c)] == c,
{
    let n = choose|n: int| 0 <= n < s.checked_out.len() && s.checked_out[n] == c;
    lemma_first_issued(s.checked_out, c, n);
}

/// An establishment that runs under a number has a first entry.
pub proof fn lemma_first_connecting(es: Seq<Establishment>, id: u64, n: int)
    requires
        0 <= n < es.len(),
        es[n].id == id,
    ensures
        exists|i: int|
            0 <= i < es.len() && es[i].id == id && forall|j: int| 0 <= j < i ==> es[j].id != id,
    decreases n,
{
    if exists|m: int| 0 <= m < n && es[m].id == id {
        let m = choose|m: int| 0 <= m < n && es[m].id == id;
        lemma_first_connecting(es, id, m);
    } else {
        assert(forall|j: int| 0 <= j < n ==> es[j].id != id);
    }
}

/// The index under which an establishment is found is one at which it stands.
pub proof fn lemma_connecting_index(s: PoolView, id: u64)
    requires
        s.is_connecting(id),
    ensures
        0 <= connecting_index(s, id) < s.connecting.len(),
        s.connecting[connecting_index(s, id)].id == id,
{
    let n = choose|n: int| 0 <= n < s.connecting.len() && (#[trigger] s.connecting[n]).id == id;
    lemma_first_connecting(s.connecting, id, n);
}

/// One more waiting request adds one to the started ones if it has started.
pub proof fn lemma_started_push(q: Seq<Waiter>, w: Waiter)
    ensures
        started_count(q.push(w)) == started_count(q) + if w.started {
            1nat
        } else {
            0nat
        },
{
    assert(q.push(w).drop_last() =~= q);
}

/// One more establishment adds one to those asked for unless it runs in the
/// background.
pub proof fn lemma_asked_push(c: Seq<Establishment>, e: Establishment)
    ensures
        asked_count(c.push(e)) == asked_count(c) + if e.background {
            0nat
        } else {
            1nat
        },
{
    assert(c.push(e).drop_last() =~= c);
}

/// One establishment fewer takes one from those asked for unless it ran in
/// the background.
pub proof fn lemma_asked_remove(c: Seq<Establishment>, i: int)
    requires
        0 <= i < c.len(),
    ensures
        asked_count(c.remove(i)) + (if c[i].background {
            0nat
        } else {
            1nat
        }) == asked_count(c),
    decreases c.len(),
{
    if i == c.len() - 1 {
        assert(c.remove(i) =~= c.drop_last());
    } else {
        assert(c.remove(i).drop_last() =~= c.drop_last().remove(i));
        assert(c.remove(i).last() == c.last());
        lemma_asked_remove(c.drop_last(), i);
    }
}

/// Establishments that run in the background add nothing to those asked for.
pub proof fn lemma_asked_add_background(c: Seq<Establishment>, more: Seq<Establishment>)
    requires
        forall|i: int| 0 <= i < more.len() ==> (#[trigger] more[i]).background,
    ensures
        asked_count(c + more) == asked_count(c),
    decreases more.len(),
{
    if more.len() == 0 {
        assert(c + more =~= c);
    } else {
        assert((c + more).drop_last() =~= c + more.drop_last());
        lemma_asked_add_background(c, more.drop_last());
    }
}

/// Sorting the waiting requests by deadline loses none and invents none.
pub proof fn lemma_by_deadline(q: Seq<Waiter>, now: u64)
    ensures
        by_deadline(q, now, true).len() + by_deadline(q, now, false).len() == q.len(),
        started_count(by_deadline(q, now, true)) + started_count(by_deadline(q, now, false))
            == started_count(q),
        forall|i: int|
            0 <= i < by_deadline(q, now, true).len() ==> q.contains(
                #[trigger] by_deadline(q, now, true)[i],
            ),
        forall|i: int|
            0 <= i < by_deadline(q, now, false).len() ==> q.contains(
                #[trigger] by_deadline(q, now, false)[i],
            ),
    decreases q.len(),
{
    if q.len() > 0 {
        let front = q.drop_last();
        lemma_by_deadline(front, now);
        let due = by_deadline(q, now, true);
        let kept = by_deadline(q, now, false);
        if is_due(q.last(), now) {
            lemma_started_push(by_deadline(front, now, true), q.last());
        } else {
            lemma_started_push(by_deadline(front, now, false), q.last());
        }
        assert forall|i: int| 0 <= i < due.len() implies q.contains(#[trigger] due[i]) by {
            if i < by_deadline(front, now, true).len() {
                let w = by_deadline(front, now, true)[i];
                assert(front.contains(w));
                let j = choose|j: int| 0 <= j < front.len() && front[j] == w;
                assert(q[j] == w);
            } else {
                assert(q[q.len() - 1] == due[i]);
            }
        }
        assert forall|i: int| 0 <= i < kept.len() implies q.contains(#[trigger] kept[i]) by {
            if i < by_deadline(front, now, false).len() {
                let w = by_deadline(front, now, false)[i];
                assert(front.contains(w));
                let j = choose|j: int| 0 <= j < front.len() && front[j] == w;
                assert(q[j] == w);
            } else {
                assert(q[q.len() - 1] == kept[i]);
            }
        }
    }
}

/// A pool that was just created is as a pool should be.
pub proof fn lemma_created(address: Seq<char>, limits: Limits, options: EventOptions)
    ensures
        inv(created(address, limits, options)),
{
    let s = created(address, limits, options);
    let e = Event::PoolCreated { options: Some(options) };
    assert(s.history =~= Seq::<Event>::empty().push(e));
    lemma_tally_push_all(Seq::<Event>::empty(), e);
    lemma_quiet_unclosed(s.history);
    assert forall|id: u32| #[trigger] lease_balanced(s, id) by {}
    assert forall|id: u32| #[trigger] copies(s, id) <= 1 by {}
}

/// A check-out keeps what holds of a pool, hands out no stale connection and
/// leaves the generation alone.
pub proof fn lemma_check_out(s: PoolView, now: u64, timeout: Option<u64>)
    requires
        inv(s),
        s.next_request_id < u64::MAX,
    ensures
        ({
            let r = check_out(s, now, timeout);
            &&& inv(r.post)
            &&& r.post.limits == s.limits
            &&& r.post.state == s.state
            &&& r.post.generation == s.generation
            &&& r.result matches CheckOut::Connection(c) ==> c.generation == s.generation
                && r.post.has_issued(c)
            &&& r.result matches CheckOut::Establish(id) ==> r.post.is_connecting(id)
        }),
{
    let request = s.next_request_id;
    let deadline = deadline_at(now, timeout);
    let numbered = PoolView { next_request_id: (request + 1) as u64, ..s };
    lemma_number(s, 0);
    match s.state {
        PoolState::Closed => {},
        PoolState::Paused => {
            lemma_enqueue(numbered, Waiter { request, deadline, started: false }, 0);
        },
        PoolState::Ready => {
            let begun = numbered.emit(Event::CheckOutStarted);
            lemma_emit_started(numbered, 0);
            let w = Waiter { request, deadline, started: true };
            if s.wait_queue.len() > 0 {
                lemma_enqueue(begun, w, 1);
            } else {
                lemma_serve(begun, request, now);
                let a = serve(begun, request, now);
                match a.grant {
                    Some(Grant::Connection(c)) => {
                        assert(a.post.checked_out[a.post.checked_out.len() - 1] == c);
                    },
                    Some(Grant::Establish) => {
                        assert(a.post.connecting[a.post.connecting.len() - 1].id == request);
                    },
                    _ => {
                        lemma_enqueue(a.post, w, 1);
                    },
                }
            }
        },
    }
}

/// No more requests have started than there are.
pub proof fn lemma_started_bound(q: Seq<Waiter>)
    ensures
        started_count(q) <= q.len(),
    decreases q.len(),
{
    if q.len() > 0 {
        lemma_started_bound(q.drop_last());
    }
}

/// Marking a pool as ready keeps what holds of it and leaves the generation
/// alone.
pub proof fn lemma_mark_as_ready(s: PoolView, now: u64)
    requires
        inv(s),
    ensures
        ({
            let r = mark_as_ready(s, now);
            &&& inv(r.post)
            &&& r.post.limits == s.limits
            &&& r.post.generation == s.generation
            &&& fresh_grants(r.wakeups, s.generation)
            &&& r.post.state == if s.state == PoolState::Paused {
                PoolState::Ready
            } else {
                s.state
            }
        }),
{
    if s.state == PoolState::Paused {
        let parked = (s.wait_queue.len() - started_count(s.wait_queue)) as nat;
        lemma_started_bound(s.wait_queue);
        let s0 = PoolView { state: PoolState::Ready, wait_queue: start_all(s.wait_queue), ..s };
        lemma_all_started(s0.wait_queue);
        assert forall|id: u32| #[trigger] lease_balanced(s0, id) by {
            assert(lease_balanced(s, id));
        }
        assert forall|id: u32| #[trigger] copies(s0, id) <= 1 by {
            assert(copies(s, id) <= 1);
        }
        assert(inv_while_serving(s0, -parked));
        lemma_emit(s0, Event::PoolReady, -parked);
        lemma_emit_all_started(s0.emit(Event::PoolReady), parked, -parked);
        lemma_settle(s0.emit(Event::PoolReady).emit_all(repeated(Event::CheckOutStarted, parked)), now);
    }
}

/// Taking a connection back keeps what holds of a pool and leaves the
/// generation alone.
pub proof fn lemma_check_in(s: PoolView, c: Connection, now: u64)
    requires
        inv(s),
        s.has_issued(c),
    ensures
        ({
            let r = check_in(s, c, now);
            &&& inv(r.post)
            &&& r.post.limits == s.limits
            &&& r.post.state == s.state
            &&& r.post.generation == s.generation
            &&& fresh_grants(r.wakeups, s.generation)
            &&& in_arrival_order(r.wakeups, s.wait_queue)
        }),
{
    lemma_issued_index(s, c);
    let i = issued_index(s, c);
    let returned = s.take_back(i);
    lemma_take_back(s, i, 0);
    assert(s.checked_out[i] == c);
    if s.state == PoolState::Closed {
    } else if !is_usable(c, s.generation, s.limits.max_idle_time, now) {
        let e = Event::ConnectionClosed {
            connection_id: c.id,
            reason: close_reason(c, s.generation),
        };
        lemma_emit(returned, e, 0);
        lemma_settle(returned.emit(e), now);
    } else {
        let back = touched(c, now);
        assert(back.id == c.id && back.generation == s.generation);
        assert(copies(returned, back.id) == 0);
        lemma_store(returned, back, 0);
        lemma_settle(returned.store(back), now);
    }
}

/// A finished establishment keeps what holds of a pool, stamps the new
/// connection with the generation of the moment and leaves the generation
/// alone.
pub proof fn lemma_established(s: PoolView, id: u64, now: u64)
    requires
        inv(s),
        s.is_connecting(id),
        s.next_connection_id < u32::MAX,
    ensures
        ({
            let r = established(s, id, now);
            &&& inv(r.post)
            &&& r.post.limits == s.limits
            &&& r.post.state == s.state
            &&& r.post.generation == s.generation
            &&& r.connection matches Some(c) ==> c.generation == s.generation
            &&& fresh_grants(r.wakeups, s.generation)
            &&& in_arrival_order(r.wakeups, s.wait_queue)
        }),
{
    lemma_connecting_index(s, id);
    let i = connecting_index(s, id);
    let done = s.finish(i);
    lemma_finish(s, i, 0);
    if s.state == PoolState::Closed {
    } else {
        let c = s.fresh(now);
        assert(c == done.fresh(now));
        if s.connecting[i].background {
            lemma_make(done, now, 0);
            lemma_store(done.make(), c, 0);
            lemma_settle(done.make().store(c), now);
        } else {
            lemma_make(done, now, 1);
            lemma_lend(done.make(), c, 1);
            lemma_settle(done.make().lend(c), now);
        }
    }
}

/// A failed establishment keeps what holds of a pool and leaves the
/// generation alone.
pub proof fn lemma_establish_failed(s: PoolView, id: u64, now: u64)
    requires
        inv(s),
        s.is_connecting(id),
    ensures
        ({
            let r = establish_failed(s, id, now);
            &&& inv(r.post)
            &&& r.post.limits == s.limits
            &&& r.post.state == s.state
            &&& r.post.generation == s.generation
            &&& fresh_grants(r.wakeups, s.generation)
            &&& in_arrival_order(r.wakeups, s.wait_queue)
        }),
{
    lemma_connecting_index(s, id);
    let i = connecting_index(s, id);
    let done = s.finish(i);
    lemma_finish(s, i, 0);
    if s.state == PoolState::Closed {
    } else {
        if s.connecting[i].background {
            lemma_settle(done, now);
        } else {
            lemma_emit_failed(done, CheckOutFailedReason::ConnectionError, 1);
            lemma_settle(
                done.emit(Event::CheckOutFailed { reason: CheckOutFailedReason::ConnectionError }),
                now,
            );
        }
    }
}

/// A clear keeps what holds of a pool, moves the generation on by one unless
/// the pool is closed, and empties the idle store.
pub proof fn lemma_clear(s: PoolView, cause: Seq<char>, pause: bool)
    requires
        inv(s),
        s.generation < u32::MAX,
    ensures
        ({
            let post = clear(s, cause, pause);
            &&& inv(post)
            &&& post.limits == s.limits
            &&& post.idle.len() == 0
            &&& post.generation == if s.state == PoolState::Closed {
                s.generation
            } else {
                (s.generation + 1) as u32
            }
        }),
{
    if s.state != PoolState::Closed {
        let s0 = PoolView {
            generation: (s.generation + 1) as u32,
            last_clear_cause: Some(cause),
            state: if pause {
                PoolState::Paused
            } else {
                s.state
            },
            idle: Seq::empty(),
            ..s
        };
        assert forall|id: u32| #[trigger] lease_balanced(s0, id) by {
            assert(lease_balanced(s, id));
        }
        assert forall|id: u32| #[trigger] copies(s0, id) <= 1 by {
            assert(copies(s, id) <= 1);
        }
        assert(inv_while_serving(s0, 0));
        lemma_emit_all_closing(s0, s.idle, ConnectionClosedReason::Stale, 0);
        lemma_emit(
            s0.emit_all(closing_events(s.idle, ConnectionClosedReason::Stale)),
            Event::PoolCleared,
            0,
        );
    }
}

/// Closing keeps what holds of a pool and leaves the generation alone.
pub proof fn lemma_close(s: PoolView)
    requires
        inv(s),
    ensures
        ({
            let r = close(s);
            &&& inv(r.post)
            &&& r.post.limits == s.limits
            &&& r.post.state == PoolState::Closed
            &&& r.post.generation == s.generation
        }),
{
    let r = close(s);
    if s.state != PoolState::Closed {
        let closing = closing_events(s.idle, ConnectionClosedReason::PoolClosed);
        let begun = started_count(s.wait_queue) + asked_count(s.connecting);
        let e = Event::CheckOutFailed { reason: CheckOutFailedReason::PoolClosed };
        let failed = repeated(e, begun);
        let h1 = s.history + closing;
        let h2 = h1 + failed;
        lemma_tally_add_all(s.history, closing);
        lemma_tally_closing_all(s.idle, ConnectionClosedReason::PoolClosed);
        lemma_tally_add_all(h1, failed);
        lemma_tally_repeated_all(e, begun);
        lemma_tally_push_all(h2, Event::PoolClosed);
        lemma_quiet_closing(h2);
        lemma_none_asked(orphan_all(s.connecting));
        assert(r.post.history == h2.push(Event::PoolClosed));
        assert forall|id: u32| #[trigger] lease_balanced(r.post, id) by {
            assert(lease_balanced(s, id));
        }
        assert forall|id: u32| #[trigger] copies(r.post, id) <= 1 by {
            assert(copies(s, id) <= 1);
        }
    }
}

/// Letting time pass keeps what holds of a pool and leaves the generation
/// alone.
pub proof fn lemma_expire(s: PoolView, now: u64)
    requires
        inv(s),
    ensures
        ({
            let r = expire(s, now);
            &&& inv(r.post)
            &&& r.post.limits == s.limits
            &&& r.post.state == s.state
            &&& r.post.generation == s.generation
        }),
{
    let r = expire(s, now);
    let due = by_deadline(s.wait_queue, now, true);
    let kept = by_deadline(s.wait_queue, now, false);
    lemma_by_deadline(s.wait_queue, now);
    let e = Event::CheckOutFailed { reason: CheckOutFailedReason::Timeout };
    lemma_tally_add_all(s.history, repeated(e, started_count(due)));
    lemma_tally_repeated_all(e, started_count(due));
    if s.state == PoolState::Closed {
        assert(started_count(due) == 0);
        assert(r.post.history =~= s.history);
    } else {
        lemma_quiet_unclosed(r.post.history);
    }
    assert forall|i: int| 0 <= i < kept.len() implies (#[trigger] kept[i]).request
        < s.next_request_id && (s.state == PoolState::Ready ==> kept[i].started) by {
        assert(s.wait_queue.contains(kept[i]));
        let j = choose|j: int| 0 <= j < s.wait_queue.len() && s.wait_queue[j] == kept[i];
        assert(s.wait_queue[j].request < s.next_request_id);
    }
    assert forall|id: u32| #[trigger] lease_balanced(r.post, id) by {
        assert(lease_balanced(s, id));
    }
    assert forall|id: u32| #[trigger] copies(r.post, id) <= 1 by {
        assert(copies(s, id) <= 1);
    }
}

/// Background maintenance never starts more than the limits leave room for.
pub proof fn lemma_demand(s: PoolView)
    requires
        within_limits(s),
    ensures
        s.total_established() + demand(s) <= s.limits.max_pool_size,
        s.connecting.len() + demand(s) <= s.limits.max_connecting,
        demand(s) > 0 ==> s.state == PoolState::Ready && s.has_capacity()
            && s.total_established() + demand(s) <= s.limits.min_pool_size,
{
}

/// Starting background establishments keeps what holds of a pool and leaves
/// the generation alone.
pub proof fn lemma_populate(s: PoolView)
    requires
        inv(s),
        s.next_request_id + demand(s) <= u64::MAX,
    ensures
        ({
            let r = populate(s);
            &&& inv(r.post)
            &&& r.post.limits == s.limits
            &&& r.post.state == s.state
            &&& r.post.generation == s.generation
        }),
{
    let r = populate(s);
    let n = demand(s);
    lemma_demand(s);
    lemma_asked_add_background(s.connecting, background(s.next_request_id, n));
    assert forall|id: u32| #[trigger] lease_balanced(r.post, id) by {
        assert(lease_balanced(s, id));
    }
    assert forall|id: u32| #[trigger] copies(r.post, id) <= 1 by {
        assert(copies(s, id) <= 1);
    }
}

} // verus!

//! Counting events in a history.

use vstd::prelude::*;
use crate::connection::Connection;
use crate::event::{ConnectionClosedReason, Event};
use crate::model::{closing_events, discard_events, repeated};

verus! {

/// What to count.
pub enum Pattern {
    /// Every `CheckOutStarted`.
    CheckOutStarted,
    /// Every `CheckedOut`.
    CheckedOut,
    /// Every `CheckOutFailed`.
    CheckOutFailed,
    /// Every `CheckedIn`.
    CheckedIn,
    /// The `CheckedOut` events of one connection.
    CheckedOutOf(u32),
    /// The `CheckedIn` events of one connection.
    CheckedInOf(u32),
    /// Every `PoolClosed`.
    PoolClosed,
}

/// Whether an event is one of those that `p` counts.
pub open spec fn fits(e: Event, p: Pattern) -> bool {
    match p {
        Pattern::CheckOutStarted => e is CheckOutStarted,
        Pattern::CheckedOut => e is CheckedOut,
        Pattern::CheckOutFailed => e is CheckOutFailed,
        Pattern::CheckedIn => e is CheckedIn,
        Pattern::CheckedOutOf(id) => e == (Event::CheckedOut { connection_id: id }),
        Pattern::CheckedInOf(id) => e == (Event::CheckedIn { connection_id: id }),
        Pattern::PoolClosed => e is PoolClosed,
    }
}

/// How many events of `h` fit `p`.
pub open spec fn tally(h: Seq<Event>, p: Pattern) -> nat
    decreases h.len(),
{
    if h.len() == 0 {
        0
    } else {
        tally(h.drop_last(), p) + if fits(h.last(), p) {
            1nat
        } else {
            0nat
        }
    }
}

/// One more event adds one to the count if it fits.
pub proof fn lemma_tally_push(h: Seq<Event>, e: Event, p: Pattern)
    ensures
        tally(h.push(e), p) == tally(h, p) + if fits(e, p) {
            1nat
        } else {
            0nat
        },
{
    assert(h.push(e).drop_last() =~= h);
}

/// The count of a concatenation is the sum of the counts.
pub proof fn lemma_tally_add(a: Seq<Event>, b: Seq<Event>, p: Pattern)
    ensures
        tally(a + b, p) == tally(a, p) + tally(b, p),
    decreases b.len(),
{
    if b.len() == 0 {
        assert(a + b =~= a);
    } else {
        assert((a + b).drop_last() =~= a + b.drop_last());
        lemma_tally_add(a, b.drop_last(), p);
    }
}

/// A history in which nothing fits counts zero.
pub proof fn lemma_tally_none(h: Seq<Event>, p: Pattern)
    requires
        forall|i: int| 0 <= i < h.len() ==> !fits(#[trigger] h[i], p),
    ensures
        tally(h, p) == 0,
    decreases h.len(),
{
    if h.len() > 0 {
        lemma_tally_none(h.drop_last(), p);
    }
}

/// A history in which everything fits counts its length.
pub proof fn lemma_tally_all(h: Seq<Event>, p: Pattern)
    requires
        forall|i: int| 0 <= i < h.len() ==> fits(#[trigger] h[i], p),
    ensures
        tally(h, p) == h.len(),
    decreases h.len(),
{
    if h.len() > 0 {
        lemma_tally_all(h.drop_last(), p);
    }
}

/// The same event `n` times counts `n` or nothing.
pub proof fn lemma_tally_repeated(e: Event, n: nat, p: Pattern)
    ensures
        tally(repeated(e, n), p) == if fits(e, p) {
            n
        } else {
            0
        },
{
    if fits(e, p) {
        lemma_tally_all(repeated(e, n), p);
    } else {
        lemma_tally_none(repeated(e, n), p);
    }
}

/// `ConnectionClosed` events fit none of the patterns.
pub proof fn lemma_tally_closing(cs: Seq<Connection>, reason: ConnectionClosedReason, p: Pattern)
    ensures
        tally(closing_events(cs, reason), p) == 0,
{
    lemma_tally_none(closing_events(cs, reason), p);
}

/// `ConnectionClosed` events fit none of the patterns.
pub proof fn lemma_tally_discard(cs: Seq<Connection>, generation: u32, p: Pattern)
    ensures
        tally(discard_events(cs, generation), p) == 0,
{
    lemma_tally_none(discard_events(cs, generation), p);
}

/// `lemma_tally_push` for every pattern at once.
pub proof fn lemma_tally_push_all(h: Seq<Event>, e: Event)
    ensures
        forall|p: Pattern|
            #[trigger] tally(h.push(e), p) == tally(h, p) + if fits(e, p) {
                1nat
            } else {
                0nat
            },
{
    assert forall|p: Pattern|
        #[trigger] tally(h.push(e), p) == tally(h, p) + if fits(e, p) {
            1nat
        } else {
            0nat
        } by {
        lemma_tally_push(h, e, p);
    }
}

/// `lemma_tally_add` for every pattern at once.
pub proof fn lemma_tally_add_all(a: Seq<Event>, b: Seq<Event>)
    ensures
        forall|p: Pattern| #[trigger] tally(a + b, p) == tally(a, p) + tally(b, p),
{
    assert forall|p: Pattern| #[trigger] tally(a + b, p) == tally(a, p) + tally(b, p) by {
        lemma_tally_add(a, b, p);
    }
}

/// `lemma_tally_repeated` for every pattern at once.
pub proof fn lemma_tally_repeated_all(e: Event, n: nat)
    ensures
        forall|p: Pattern|
            #[trigger] tally(repeated(e, n), p) == if fits(e, p) {
                n
            } else {
                0
            },
{
    assert forall|p: Pattern|
        #[trigger] tally(repeated(e, n), p) == if fits(e, p) {
            n
        } else {
            0
        } by {
        lemma_tally_repeated(e, n, p);
    }
}

/// `lemma_tally_closing` for every pattern at once.
pub proof fn lemma_tally_closing_all(cs: Seq<Connection>, reason: ConnectionClosedReason)
    ensures
        forall|p: Pattern| #[trigger] tally(closing_events(cs, reason), p) == 0,
{
    assert forall|p: Pattern| #[trigger] tally(closing_events(cs, reason), p) == 0 by {
        lemma_tally_closing(cs, reason, p);
    }
}

/// `lemma_tally_discard` for every pattern at once.
pub proof fn lemma_tally_discard_all(cs: Seq<Connection>, generation: u32)
    ensures
        forall|p: Pattern| #[trigger] tally(discard_events(cs, generation), p) == 0,
{
    assert forall|p: Pattern| #[trigger] tally(discard_events(cs, generation), p) == 0 by {
        lemma_tally_discard(cs, generation, p);
    }
}

/// How many of the connections have the id `id`.
pub open spec fn holders(cs: Seq<Connection>, id: u32) -> nat
    decreases cs.len(),
{
    if cs.len() == 0 {
        0
    } else {
        holders(cs.drop_last(), id) + if cs.last().id == id {
            1nat
        } else {
            0nat
        }
    }
}

/// One more connection adds one holder of its id.
pub proof fn lemma_holders_push(cs: Seq<Connection>, c: Connection)
    ensures
        forall|id: u32|
            #[trigger] holders(cs.push(c), id) == holders(cs, id) + if c.id == id {
                1nat
            } else {
                0nat
            },
{
    assert(cs.push(c).drop_last() =~= cs);
}

/// One connection fewer takes one holder of its id away.
pub proof fn lemma_holders_remove_one(cs: Seq<Connection>, i: int, id: u32)
    requires
        0 <= i < cs.len(),
    ensures
        holders(cs.remove(i), id) + (if cs[i].id == id {
            1nat
        } else {
            0nat
        }) == holders(cs, id),
    decreases cs.len(),
{
    if i == cs.len() - 1 {
        assert(cs.remove(i) =~= cs.drop_last());
    } else {
        assert(cs.remove(i).drop_last() =~= cs.drop_last().remove(i));
        assert(cs.remove(i).last() == cs.last());
        lemma_holders_remove_one(cs.drop_last(), i, id);
    }
}

/// `lemma_holders_remove_one` for every id at once.
pub proof fn lemma_holders_remove(cs: Seq<Connection>, i: int)
    requires
        0 <= i < cs.len(),
    ensures
        forall|id: u32|
            #[trigger] holders(cs.remove(i), id) + (if cs[i].id == id {
                1nat
            } else {
                0nat
            }) == holders(cs, id),
{
    assert forall|id: u32|
        #[trigger] holders(cs.remove(i), id) + (if cs[i].id == id {
            1nat
        } else {
            0nat
        }) == holders(cs, id) by {
        lemma_holders_remove_one(cs, i, id);
    }
}

/// The holders of an id among two runs of connections are those among the
/// first and those among the second.
pub proof fn lemma_holders_add_one(a: Seq<Connection>, b: Seq<Connection>, id: u32)
    ensures
        holders(a + b, id) == holders(a, id) + holders(b, id),
    decreases b.len(),
{
    if b.len() == 0 {
        assert(a + b =~= a);
    } else {
        assert((a + b).drop_last() =~= a + b.drop_last());
        lemma_holders_add_one(a, b.drop_last(), id);
    }
}

/// `lemma_holders_add_one` for every id at once.
pub proof fn lemma_holders_add(a: Seq<Connection>, b: Seq<Connection>)
    ensures
        forall|id: u32| #[trigger] holders(a + b, id) == holders(a, id) + holders(b, id),
{
    assert forall|id: u32| #[trigger] holders(a + b, id) == holders(a, id) + holders(b, id) by {
        lemma_holders_add_one(a, b, id);
    }
}

/// A single connection holds its own id once and no other.
pub proof fn lemma_holders_single(c: Connection)
    ensures
        forall|id: u32|
            #[trigger] holders(seq![c], id) == if c.id == id {
                1nat
            } else {
                0nat
            },
{
    assert(seq![c] =~= Seq::<Connection>::empty().push(c));
    lemma_holders_push(Seq::<Connection>::empty(), c);
}

/// Cutting connections off the front leaves, for every id, the holders
/// among those that stay, and takes away those among the ones cut off.
pub proof fn lemma_holders_split(cs: Seq<Connection>, k: int)
    requires
        0 <= k <= cs.len(),
    ensures
        forall|id: u32|
            #[trigger] holders(cs.skip(k), id) + holders(cs.take(k), id) == holders(cs, id),
{
    assert(cs =~= cs.take(k) + cs.skip(k));
    lemma_holders_add(cs.take(k), cs.skip(k));
}

/// An id that no connection has has no holder.
pub proof fn lemma_holders_absent(cs: Seq<Connection>, id: u32)
    requires
        forall|i: int| 0 <= i < cs.len() ==> (#[trigger] cs[i]).id != id,
    ensures
        holders(cs, id) == 0,
    decreases cs.len(),
{
    if cs.len() > 0 {
        lemma_holders_absent(cs.drop_last(), id);
    }
}

} // verus!

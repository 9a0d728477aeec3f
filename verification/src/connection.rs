//! A pooled connection: its identity and the stamps the pool judges it by.

use vstd::prelude::*;

verus! {

/// One connection, as the pool sees it. The transport handle stays with the
/// caller, keyed by `id`; the pool only ever reads the stamps.
///
/// A connection is owned by whoever holds the value: the pool while it is
/// idle, the caller after a check-out. It is deliberately not `Clone`.
#[derive(Debug)]
pub struct Connection {
    /// Unique within the pool, in order of establishment.
    pub id: u32,
    /// The pool's generation when the connection was established.
    pub generation: u32,
    /// When the connection was established, in milliseconds.
    pub created_at: u64,
    /// When the connection last changed hands, in milliseconds.
    pub last_used_at: u64,
}

/// How long `c` has gone unused at time `now`; zero if `now` lies before its
/// last use.
pub open spec fn age(c: Connection, now: u64) -> int {
    if now >= c.last_used_at {
        now - c.last_used_at
    } else {
        0
    }
}

/// A connection is stale once the pool's generation has moved past its own.
pub open spec fn is_stale(c: Connection, generation: u32) -> bool {
    c.generation < generation
}

/// A connection has expired once it has gone unused for longer than the pool
/// allows. Without a limit nothing expires.
pub open spec fn is_expired(c: Connection, max_idle_time: Option<u64>, now: u64) -> bool {
    match max_idle_time {
        Some(limit) => age(c, now) > limit,
        None => false,
    }
}

/// A connection may be handed out or kept only if it is neither stale nor
/// expired.
pub open spec fn is_usable(c: Connection, generation: u32, max_idle_time: Option<u64>, now: u64) -> bool {
    !is_stale(c, generation) && !is_expired(c, max_idle_time, now)
}

/// The same connection with a new time of last use.
pub open spec fn touched(c: Connection, now: u64) -> Connection {
    Connection { id: c.id, generation: c.generation, created_at: c.created_at, last_used_at: now }
}

impl Connection {
    /// Whether the pool has been cleared since this connection was made.
    pub fn is_stale(&self, generation: u32) -> (r: bool)
        ensures
            r == is_stale(*self, generation),
    {
        self.generation < generation
    }

    /// Whether this connection has gone unused for longer than `max_idle_time`.
    pub fn is_expired(&self, max_idle_time: Option<u64>, now: u64) -> (r: bool)
        ensures
            r == is_expired(*self, max_idle_time, now),
    {
        match max_idle_time {
            Some(limit) => now >= self.last_used_at && now - self.last_used_at > limit,
            None => false,
        }
    }

    /// Whether this connection may still be handed out.
    pub fn is_usable(&self, generation: u32, max_idle_time: Option<u64>, now: u64) -> (r: bool)
        ensures
            r == is_usable(*self, generation, max_idle_time, now),
    {
        !self.is_stale(generation) && !self.is_expired(max_idle_time, now)
    }

    /// A second record of the same connection, for the pool's own books.
    pub(crate) fn record(&self) -> (r: Connection)
        ensures
            r == *self,
    {
        Connection {
            id: self.id,
            generation: self.generation,
            created_at: self.created_at,
            last_used_at: self.last_used_at,
        }
    }
}

} // verus!

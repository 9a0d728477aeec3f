//! The lifecycle events a pool emits.

use vstd::prelude::*;
use crate::options::EventOptions;

verus! {

/// Why a connection was closed.
#[derive(Clone, Copy, Debug, PartialEq, Eq, Structural)]
pub enum ConnectionClosedReason {
    /// The pool was cleared after the connection was established.
    Stale,
    /// The connection went unused for longer than the pool allows.
    Idle,
    /// The connection failed while in use.
    Error,
    /// The pool was closed.
    PoolClosed,
}

/// Why a check-out failed.
#[derive(Clone, Copy, Debug, PartialEq, Eq, Structural)]
pub enum CheckOutFailedReason {
    /// The request waited in the queue past its deadline.
    Timeout,
    /// The pool was closed.
    PoolClosed,
    /// A connection could not be established.
    ConnectionError,
}

/// A lifecycle event.
#[allow(inconsistent_fields)]
#[derive(Clone, Copy, Debug, PartialEq, Eq, Structural)]
pub enum Event {
    PoolCreated { options: Option<EventOptions> },
    PoolReady,
    PoolCleared,
    PoolClosed,
    ConnectionCreated { connection_id: u32 },
    ConnectionReady { connection_id: u32 },
    ConnectionClosed { connection_id: u32, reason: ConnectionClosedReason },
    CheckOutStarted,
    CheckedOut { connection_id: u32 },
    CheckOutFailed { reason: CheckOutFailedReason },
    CheckedIn { connection_id: u32 },
}

/// The name an event is published and filtered under.
pub open spec fn event_name(e: Event) -> Seq<char> {
    match e {
        Event::PoolCreated { .. } => "ConnectionPoolCreated"@,
        Event::PoolReady => "ConnectionPoolReady"@,
        Event::PoolCleared => "ConnectionPoolCleared"@,
        Event::PoolClosed => "ConnectionPoolClosed"@,
        Event::ConnectionCreated { .. } => "ConnectionCreated"@,
        Event::ConnectionReady { .. } => "ConnectionReady"@,
        Event::ConnectionClosed { .. } => "ConnectionClosed"@,
        Event::CheckOutStarted => "ConnectionCheckOutStarted"@,
        Event::CheckedOut { .. } => "ConnectionCheckedOut"@,
        Event::CheckOutFailed { .. } => "ConnectionCheckOutFailed"@,
        Event::CheckedIn { .. } => "ConnectionCheckedIn"@,
    }
}

impl Event {
    /// The name this event is published and filtered under.
    pub fn name(&self) -> (r: &'static str)
        ensures
            r@ == event_name(*self),
    {
        match self {
            Event::PoolCreated { .. } => "ConnectionPoolCreated",
            Event::PoolReady => "ConnectionPoolReady",
            Event::PoolCleared => "ConnectionPoolCleared",
            Event::PoolClosed => "ConnectionPoolClosed",
            Event::ConnectionCreated { .. } => "ConnectionCreated",
            Event::ConnectionReady { .. } => "ConnectionReady",
            Event::ConnectionClosed { .. } => "ConnectionClosed",
            Event::CheckOutStarted => "ConnectionCheckOutStarted",
            Event::CheckedOut { .. } => "ConnectionCheckedOut",
            Event::CheckOutFailed { .. } => "ConnectionCheckOutFailed",
            Event::CheckedIn { .. } => "ConnectionCheckedIn",
        }
    }
}

} // verus!

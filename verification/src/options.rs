//! Pool options as a caller gives them, and the limits a pool runs with.

use vstd::prelude::*;

verus! {

/// The number of connections a pool may hold when no limit is given.
pub const DEFAULT_MAX_POOL_SIZE: u32 = 10;

/// The number of connections a pool may be establishing at once when no limit
/// is given.
pub const DEFAULT_MAX_CONNECTING: u32 = 2;

/// Options for securing the transport. The pool hands them on untouched.
#[derive(Debug)]
pub struct TlsOptions {
    pub allow_invalid_certificates: Option<bool>,
    pub ca_file_path: Option<String>,
    pub cert_key_file_path: Option<String>,
}

/// The options a pool is created with. A field left `None` takes its default.
#[derive(Debug)]
pub struct ConnectionPoolOptions {
    /// The most connections the pool holds, idle, checked out and in the making.
    pub max_pool_size: Option<u32>,
    /// The number of connections background maintenance keeps available.
    pub min_pool_size: Option<u32>,
    /// How long, in milliseconds, a connection may sit unused before it is closed.
    pub max_idle_time: Option<u64>,
    /// The most connections that may be in the making at the same time.
    pub max_connecting: Option<u32>,
    /// Transport security options, opaque to the pool.
    pub tls_options: Option<TlsOptions>,
}

/// The part of the pool options that a `PoolCreated` event carries.
#[derive(Clone, Copy, Debug, PartialEq, Eq, Structural)]
pub struct EventOptions {
    pub max_idle_time: Option<u64>,
    pub max_pool_size: Option<u32>,
    pub min_pool_size: Option<u32>,
}

/// The limits a pool enforces, with every default filled in.
#[derive(Clone, Copy, Debug, PartialEq, Eq, Structural)]
pub struct Limits {
    pub max_pool_size: u32,
    pub min_pool_size: u32,
    pub max_idle_time: Option<u64>,
    pub max_connecting: u32,
}

impl Default for ConnectionPoolOptions {
    fn default() -> (r: ConnectionPoolOptions)
        ensures
            r.max_pool_size is None,
            r.min_pool_size is None,
            r.max_idle_time is None,
            r.max_connecting is None,
            r.tls_options is None,
    {
        ConnectionPoolOptions {
            max_pool_size: None,
            min_pool_size: None,
            max_idle_time: None,
            max_connecting: None,
            tls_options: None,
        }
    }
}

impl ConnectionPoolOptions {
    /// The limits these options stand for.
    pub open spec fn limits_spec(&self) -> Limits {
        Limits {
            max_pool_size: match self.max_pool_size {
                Some(n) => n,
                None => DEFAULT_MAX_POOL_SIZE,
            },
            min_pool_size: match self.min_pool_size {
                Some(n) => n,
                None => 0,
            },
            max_idle_time: self.max_idle_time,
            max_connecting: match self.max_connecting {
                Some(n) => n,
                None => DEFAULT_MAX_CONNECTING,
            },
        }
    }

    /// The part of these options that is published with `PoolCreated`.
    pub open spec fn event_options_spec(&self) -> EventOptions {
        EventOptions {
            max_idle_time: self.max_idle_time,
            max_pool_size: self.max_pool_size,
            min_pool_size: self.min_pool_size,
        }
    }

    /// Fills in the defaults.
    pub fn limits(&self) -> (r: Limits)
        ensures
            r == self.limits_spec(),
    {
        Limits {
            max_pool_size: match self.max_pool_size {
                Some(n) => n,
                None => DEFAULT_MAX_POOL_SIZE,
            },
            min_pool_size: match self.min_pool_size {
                Some(n) => n,
                None => 0,
            },
            max_idle_time: self.max_idle_time,
            max_connecting: match self.max_connecting {
                Some(n) => n,
                None => DEFAULT_MAX_CONNECTING,
            },
        }
    }

    /// Picks the fields that a `PoolCreated` event publishes.
    pub fn event_options(&self) -> (r: EventOptions)
        ensures
            r == self.event_options_spec(),
    {
        EventOptions {
            max_idle_time: self.max_idle_time,
            max_pool_size: self.max_pool_size,
            min_pool_size: self.min_pool_size,
        }
    }
}

} // verus!

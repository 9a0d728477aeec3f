//! The errors of the pool.

use vstd::prelude::*;
use crate::event::CheckOutFailedReason;

verus! {

/// What can go wrong with a pool.
#[derive(Debug)]
pub enum Error {
    /// A check-out waited in the queue past its deadline.
    WaitQueueTimeout,
    /// An operation was attempted after the pool was closed.
    PoolClosed,
    /// A check-out failed. This is what the caller of a check-out sees,
    /// whatever the cause.
    CheckOutFailed { reason: CheckOutFailedReason },
    /// The transport could not be established. The pool does not look into
    /// the failure; it only knows that the establishment failed.
    Establish { message: String },
}

/// The reason a check-out fails for when `error` is what stopped it.
pub open spec fn reason_for(error: Error) -> CheckOutFailedReason {
    match error {
        Error::WaitQueueTimeout => CheckOutFailedReason::Timeout,
        Error::PoolClosed => CheckOutFailedReason::PoolClosed,
        Error::CheckOutFailed { reason } => reason,
        Error::Establish { .. } => CheckOutFailedReason::ConnectionError,
    }
}

impl Error {
    /// The reason a check-out fails for when this error is what stopped it.
    pub fn reason(&self) -> (r: CheckOutFailedReason)
        ensures
            r == reason_for(*self),
    {
        match self {
            Error::WaitQueueTimeout => CheckOutFailedReason::Timeout,
            Error::PoolClosed => CheckOutFailedReason::PoolClosed,
            Error::CheckOutFailed { reason } => *reason,
            Error::Establish { .. } => CheckOutFailedReason::ConnectionError,
        }
    }

    /// The error the caller of a check-out sees when this error is what
    /// stopped it: always a `CheckOutFailed`, with the reason that applies.
    pub fn into_check_out_failed(self) -> (r: Error)
        ensures
            r == (Error::CheckOutFailed { reason: reason_for(self) }),
    {
        let reason = self.reason();
        Error::CheckOutFailed { reason }
    }
}

impl CheckOutFailedReason {
    /// The error that stopped a check-out which failed for this reason, as
    /// far as the reason tells: a failed establishment has the cause that the
    /// transport gave, which is not the pool's to know.
    pub fn cause(&self) -> (r: Option<Error>)
        ensures
            r == match *self {
                CheckOutFailedReason::Timeout => Some(Error::WaitQueueTimeout),
                CheckOutFailedReason::PoolClosed => Some(Error::PoolClosed),
                CheckOutFailedReason::ConnectionError => None::<Error>,
            },
    {
        match self {
            CheckOutFailedReason::Timeout => Some(Error::WaitQueueTimeout),
            CheckOutFailedReason::PoolClosed => Some(Error::PoolClosed),
            CheckOutFailedReason::ConnectionError => None,
        }
    }
}

} // verus!

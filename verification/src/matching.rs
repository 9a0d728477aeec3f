//! Matching what a pool published against what a scenario expects.
//!
//! An expectation may leave things open: an absent value expects nothing,
//! and the number 42, or the text `42` or the empty text, stands for any
//! value. Everything else has to be met exactly. A mismatch names the first
//! thing that was not met.

use vstd::prelude::*;
use crate::event::Event;
use crate::options::{EventOptions, TlsOptions};
use crate::text::same_text;

verus! {

/// The number that stands for any number in an expectation.
pub const PLACEHOLDER: u32 = 42;

/// The first thing in which a value falls short of what was expected.
#[derive(Clone, Copy, Debug, PartialEq, Eq, Structural)]
pub enum Mismatch {
    /// `allow_invalid_certificates` of the TLS options.
    AllowInvalidCertificates,
    /// `ca_file_path` of the TLS options.
    CaFilePath,
    /// `cert_key_file_path` of the TLS options.
    CertKeyFilePath,
    /// `max_idle_time` of the pool options.
    MaxIdleTime,
    /// `max_pool_size` of the pool options.
    MaxPoolSize,
    /// `min_pool_size` of the pool options.
    MinPoolSize,
    /// Options were expected and none were published.
    Options,
    /// The id of the connection.
    ConnectionId,
    /// The reason a connection was closed or a check-out failed for.
    Reason,
    /// The events are of different kinds.
    Kind,
}

/// Whether an expected number leaves the actual one open.
pub open spec fn open_number(expected: Option<u32>) -> bool {
    expected is None || expected == Some(PLACEHOLDER)
}

/// Whether an actual number meets an expected one.
pub open spec fn number_matches(actual: Option<u32>, expected: Option<u32>) -> bool {
    open_number(expected) || actual == expected
}

/// Whether an actual time meets an expected one. No time stands for any
/// other.
pub open spec fn time_matches(actual: Option<u64>, expected: Option<u64>) -> bool {
    expected is None || actual == expected
}

/// Whether an actual flag meets an expected one.
pub open spec fn flag_matches(actual: Option<bool>, expected: Option<bool>) -> bool {
    expected is None || actual == expected
}

/// Whether an expected text leaves the actual one open.
pub open spec fn open_text(expected: Option<Seq<char>>) -> bool {
    match expected {
        None => true,
        Some(text) => text == "42"@ || text.len() == 0,
    }
}

/// Whether an actual text meets an expected one.
pub open spec fn text_matches(actual: Option<Seq<char>>, expected: Option<Seq<char>>) -> bool {
    open_text(expected) || actual == expected
}

/// The view of an optional text.
pub open spec fn text_view(text: Option<String>) -> Option<Seq<char>> {
    match text {
        Some(t) => Some(t@),
        None => None,
    }
}

/// How actual TLS options compare with expected ones: field by field, in the
/// order of the fields.
pub open spec fn tls_options_match(actual: TlsOptions, expected: TlsOptions) -> Result<(), Mismatch> {
    if !flag_matches(actual.allow_invalid_certificates, expected.allow_invalid_certificates) {
        Err(Mismatch::AllowInvalidCertificates)
    } else if !text_matches(text_view(actual.ca_file_path), text_view(expected.ca_file_path)) {
        Err(Mismatch::CaFilePath)
    } else if !text_matches(
        text_view(actual.cert_key_file_path),
        text_view(expected.cert_key_file_path),
    ) {
        Err(Mismatch::CertKeyFilePath)
    } else {
        Ok(())
    }
}

/// How actual pool options compare with expected ones: field by field, in
/// the order idle time, largest size, smallest size.
pub open spec fn event_options_match(actual: EventOptions, expected: EventOptions) -> Result<
    (),
    Mismatch,
> {
    if !time_matches(actual.max_idle_time, expected.max_idle_time) {
        Err(Mismatch::MaxIdleTime)
    } else if !number_matches(actual.max_pool_size, expected.max_pool_size) {
        Err(Mismatch::MaxPoolSize)
    } else if !number_matches(actual.min_pool_size, expected.min_pool_size) {
        Err(Mismatch::MinPoolSize)
    } else {
        Ok(())
    }
}

/// Whether an actual connection id meets an expected one.
pub open spec fn connection_id_matches(actual: u32, expected: u32) -> bool {
    expected == PLACEHOLDER || actual == expected
}

/// How an id compares with an expected one.
pub open spec fn id_match(actual: u32, expected: u32) -> Result<(), Mismatch> {
    if connection_id_matches(actual, expected) {
        Ok(())
    } else {
        Err(Mismatch::ConnectionId)
    }
}

/// How an actual event compares with an expected one. Events of different
/// kinds never match. Events of the same kind match if the ids match, the
/// reasons are the same, and the options, where some are expected, match.
pub open spec fn event_match(actual: Event, expected: Event) -> Result<(), Mismatch> {
    match (actual, expected) {
        (Event::PoolCreated { options: a }, Event::PoolCreated { options: e }) => match (a, e) {
            (_, None) => Ok(()),
            (Some(a), Some(e)) => event_options_match(a, e),
            (None, Some(_)) => Err(Mismatch::Options),
        },
        (
            Event::ConnectionCreated { connection_id: a },
            Event::ConnectionCreated { connection_id: e },
        ) => id_match(a, e),
        (
            Event::ConnectionReady { connection_id: a },
            Event::ConnectionReady { connection_id: e },
        ) => id_match(a, e),
        (
            Event::ConnectionClosed { connection_id: a, reason: ar },
            Event::ConnectionClosed { connection_id: e, reason: er },
        ) => if ar != er {
            Err(Mismatch::Reason)
        } else {
            id_match(a, e)
        },
        (Event::CheckedOut { connection_id: a }, Event::CheckedOut { connection_id: e }) => id_match(
            a,
            e,
        ),
        (Event::CheckedIn { connection_id: a }, Event::CheckedIn { connection_id: e }) => id_match(
            a,
            e,
        ),
        (Event::CheckOutFailed { reason: ar }, Event::CheckOutFailed { reason: er }) => if ar == er {
            Ok(())
        } else {
            Err(Mismatch::Reason)
        },
        (Event::CheckOutStarted, Event::CheckOutStarted) => Ok(()),
        (Event::PoolCleared, Event::PoolCleared) => Ok(()),
        (Event::PoolReady, Event::PoolReady) => Ok(()),
        (Event::PoolClosed, Event::PoolClosed) => Ok(()),
        _ => Err(Mismatch::Kind),
    }
}

/// Whether an actual number meets an expected one.
fn number_meets(actual: Option<u32>, expected: Option<u32>) -> (r: bool)
    ensures
        r == number_matches(actual, expected),
{
    match expected {
        None => true,
        Some(e) => e == PLACEHOLDER || match actual {
            Some(a) => a == e,
            None => false,
        },
    }
}

/// Whether an actual time meets an expected one.
fn time_meets(actual: Option<u64>, expected: Option<u64>) -> (r: bool)
    ensures
        r == time_matches(actual, expected),
{
    match expected {
        None => true,
        Some(e) => match actual {
            Some(a) => a == e,
            None => false,
        },
    }
}

/// Whether an actual flag meets an expected one.
fn flag_meets(actual: Option<bool>, expected: Option<bool>) -> (r: bool)
    ensures
        r == flag_matches(actual, expected),
{
    match expected {
        None => true,
        Some(e) => match actual {
            Some(a) => a == e,
            None => false,
        },
    }
}

/// Whether an actual text meets an expected one.
fn text_meets(actual: &Option<String>, expected: &Option<String>) -> (r: bool)
    ensures
        r == text_matches(text_view(*actual), text_view(*expected)),
{
    match expected {
        None => true,
        Some(e) => {
            if same_text(e.as_str(), "42") || e.as_str().unicode_len() == 0 {
                true
            } else {
                match actual {
                    Some(a) => {
                        let same = same_text(a.as_str(), e.as_str());
                        proof {
                            assert(same == (text_view(*actual) == text_view(*expected)));
                        }
                        same
                    },
                    None => false,
                }
            }
        },
    }
}

/// How an id compares with an expected one.
fn id_meets(actual: u32, expected: u32) -> (r: Result<(), Mismatch>)
    ensures
        r == id_match(actual, expected),
{
    if expected == PLACEHOLDER || actual == expected {
        Ok(())
    } else {
        Err(Mismatch::ConnectionId)
    }
}

impl TlsOptions {
    /// Compares these options with the expected ones.
    pub fn content_matches(&self, expected: &TlsOptions) -> (r: Result<(), Mismatch>)
        ensures
            r == tls_options_match(*self, *expected),
    {
        if !flag_meets(self.allow_invalid_certificates, expected.allow_invalid_certificates) {
            Err(Mismatch::AllowInvalidCertificates)
        } else if !text_meets(&self.ca_file_path, &expected.ca_file_path) {
            Err(Mismatch::CaFilePath)
        } else if !text_meets(&self.cert_key_file_path, &expected.cert_key_file_path) {
            Err(Mismatch::CertKeyFilePath)
        } else {
            Ok(())
        }
    }
}

impl EventOptions {
    /// Compares these options with the expected ones.
    pub fn content_matches(&self, expected: &EventOptions) -> (r: Result<(), Mismatch>)
        ensures
            r == event_options_match(*self, *expected),
    {
        if !time_meets(self.max_idle_time, expected.max_idle_time) {
            Err(Mismatch::MaxIdleTime)
        } else if !number_meets(self.max_pool_size, expected.max_pool_size) {
            Err(Mismatch::MaxPoolSize)
        } else if !number_meets(self.min_pool_size, expected.min_pool_size) {
            Err(Mismatch::MinPoolSize)
        } else {
            Ok(())
        }
    }
}

impl Event {
    /// Compares this event with the expected one.
    pub fn content_matches(&self, expected: &Event) -> (r: Result<(), Mismatch>)
        ensures
            r == event_match(*self, *expected),
    {
        match (self, expected) {
            (Event::PoolCreated { options: a }, Event::PoolCreated { options: e }) => match (a, e) {
                (_, None) => Ok(()),
                (Some(a), Some(e)) => a.content_matches(e),
                (None, Some(_)) => Err(Mismatch::Options),
            },
            (
                Event::ConnectionCreated { connection_id: a },
                Event::ConnectionCreated { connection_id: e },
            ) => id_meets(*a, *e),
            (
                Event::ConnectionReady { connection_id: a },
                Event::ConnectionReady { connection_id: e },
            ) => id_meets(*a, *e),
            (
                Event::ConnectionClosed { connection_id: a, reason: ar },
                Event::ConnectionClosed { connection_id: e, reason: er },
            ) => if *ar != *er {
                Err(Mismatch::Reason)
            } else {
                id_meets(*a, *e)
            },
            (
                Event::CheckedOut { connection_id: a },
                Event::CheckedOut { connection_id: e },
            ) => id_meets(*a, *e),
            (Event::CheckedIn { connection_id: a }, Event::CheckedIn { connection_id: e }) => id_meets(
                *a,
                *e,
            ),
            (Event::CheckOutFailed { reason: ar }, Event::CheckOutFailed { reason: er }) => if *ar
                == *er {
                Ok(())
            } else {
                Err(Mismatch::Reason)
            },
            (Event::CheckOutStarted, Event::CheckOutStarted) => Ok(()),
            (Event::PoolCleared, Event::PoolCleared) => Ok(()),
            (Event::PoolReady, Event::PoolReady) => Ok(()),
            (Event::PoolClosed, Event::PoolClosed) => Ok(()),
            _ => Err(Mismatch::Kind),
        }
    }
}

} // verus!

use cmap_pool::event::{CheckOutFailedReason, ConnectionClosedReason, Event};
use cmap_pool::matching::{Mismatch, PLACEHOLDER};
use cmap_pool::options::{EventOptions, TlsOptions};

fn tls(flag: Option<bool>, ca: Option<&str>, key: Option<&str>) -> TlsOptions {
    TlsOptions {
        allow_invalid_certificates: flag,
        ca_file_path: ca.map(|s| s.to_string()),
        cert_key_file_path: key.map(|s| s.to_string()),
    }
}

fn options(idle: Option<u64>, max: Option<u32>, min: Option<u32>) -> EventOptions {
    EventOptions { max_idle_time: idle, max_pool_size: max, min_pool_size: min }
}

#[test]
fn placeholder_is_forty_two() {
    assert_eq!(PLACEHOLDER, 42);
}

#[test]
fn tls_options_match_field_by_field() {
    let actual = tls(Some(true), Some("/etc/ca.pem"), Some("/etc/key.pem"));
    assert_eq!(actual.content_matches(&tls(None, None, None)), Ok(()));
    assert_eq!(actual.content_matches(&tls(Some(true), Some("/etc/ca.pem"), Some("/etc/key.pem"))), Ok(()));
    assert_eq!(
        actual.content_matches(&tls(Some(false), Some("/other"), Some("/other"))),
        Err(Mismatch::AllowInvalidCertificates)
    );
    assert_eq!(actual.content_matches(&tls(Some(true), Some("/other"), Some("/other"))), Err(Mismatch::CaFilePath));
    assert_eq!(
        actual.content_matches(&tls(Some(true), Some("/etc/ca.pem"), Some("/other"))),
        Err(Mismatch::CertKeyFilePath)
    );
    // The text 42 and the empty text stand for any text, also for none.
    assert_eq!(actual.content_matches(&tls(None, Some("42"), Some(""))), Ok(()));
    assert_eq!(tls(None, None, None).content_matches(&tls(None, Some("42"), Some(""))), Ok(()));
    // An expected value needs an actual one.
    assert_eq!(
        tls(None, None, None).content_matches(&tls(Some(true), None, None)),
        Err(Mismatch::AllowInvalidCertificates)
    );
    assert_eq!(tls(None, None, None).content_matches(&tls(None, Some("/x"), None)), Err(Mismatch::CaFilePath));
}

#[test]
fn event_options_match_field_by_field() {
    let actual = options(Some(1000), Some(7), Some(3));
    assert_eq!(actual.content_matches(&options(None, None, None)), Ok(()));
    assert_eq!(actual.content_matches(&options(Some(1000), Some(7), Some(3))), Ok(()));
    assert_eq!(actual.content_matches(&options(Some(1000), Some(42), Some(42))), Ok(()));
    assert_eq!(actual.content_matches(&options(Some(42), Some(7), Some(3))), Err(Mismatch::MaxIdleTime));
    assert_eq!(actual.content_matches(&options(Some(999), Some(8), Some(4))), Err(Mismatch::MaxIdleTime));
    assert_eq!(actual.content_matches(&options(None, Some(8), Some(4))), Err(Mismatch::MaxPoolSize));
    assert_eq!(actual.content_matches(&options(None, Some(7), Some(4))), Err(Mismatch::MinPoolSize));
    assert_eq!(options(None, None, None).content_matches(&options(None, Some(7), None)), Err(Mismatch::MaxPoolSize));
    assert_eq!(options(None, None, None).content_matches(&options(None, Some(42), Some(42))), Ok(()));
}

#[test]
fn events_of_the_same_kind_match_by_content() {
    let created = Event::PoolCreated { options: Some(options(None, Some(5), None)) };
    assert_eq!(created.content_matches(&Event::PoolCreated { options: None }), Ok(()));
    assert_eq!(created.content_matches(&Event::PoolCreated { options: Some(options(None, Some(5), None)) }), Ok(()));
    assert_eq!(
        created.content_matches(&Event::PoolCreated { options: Some(options(None, Some(6), None)) }),
        Err(Mismatch::MaxPoolSize)
    );
    assert_eq!(
        Event::PoolCreated { options: None }
            .content_matches(&Event::PoolCreated { options: Some(options(None, None, None)) }),
        Err(Mismatch::Options)
    );

    for (actual, same, placeholder, other) in [
        (
            Event::ConnectionCreated { connection_id: 3 },
            Event::ConnectionCreated { connection_id: 3 },
            Event::ConnectionCreated { connection_id: 42 },
            Event::ConnectionCreated { connection_id: 4 },
        ),
        (
            Event::ConnectionReady { connection_id: 3 },
            Event::ConnectionReady { connection_id: 3 },
            Event::ConnectionReady { connection_id: 42 },
            Event::ConnectionReady { connection_id: 4 },
        ),
        (
            Event::CheckedOut { connection_id: 3 },
            Event::CheckedOut { connection_id: 3 },
            Event::CheckedOut { connection_id: 42 },
            Event::CheckedOut { connection_id: 4 },
        ),
        (
            Event::CheckedIn { connection_id: 3 },
            Event::CheckedIn { connection_id: 3 },
            Event::CheckedIn { connection_id: 42 },
            Event::CheckedIn { connection_id: 4 },
        ),
    ] {
        assert_eq!(actual.content_matches(&same), Ok(()));
        assert_eq!(actual.content_matches(&placeholder), Ok(()));
        assert_eq!(actual.content_matches(&other), Err(Mismatch::ConnectionId));
    }
}

#[test]
fn closed_and_failed_events_need_the_same_reason() {
    let closed = Event::ConnectionClosed { connection_id: 1, reason: ConnectionClosedReason::Stale };
    assert_eq!(
        closed.content_matches(&Event::ConnectionClosed { connection_id: 42, reason: ConnectionClosedReason::Stale }),
        Ok(())
    );
    assert_eq!(
        closed.content_matches(&Event::ConnectionClosed { connection_id: 1, reason: ConnectionClosedReason::Idle }),
        Err(Mismatch::Reason)
    );
    // The reason is looked at before the id.
    assert_eq!(
        closed.content_matches(&Event::ConnectionClosed { connection_id: 2, reason: ConnectionClosedReason::Idle }),
        Err(Mismatch::Reason)
    );
    assert_eq!(
        closed.content_matches(&Event::ConnectionClosed { connection_id: 2, reason: ConnectionClosedReason::Stale }),
        Err(Mismatch::ConnectionId)
    );
    let failed = Event::CheckOutFailed { reason: CheckOutFailedReason::Timeout };
    assert_eq!(failed.content_matches(&Event::CheckOutFailed { reason: CheckOutFailedReason::Timeout }), Ok(()));
    assert_eq!(
        failed.content_matches(&Event::CheckOutFailed { reason: CheckOutFailedReason::PoolClosed }),
        Err(Mismatch::Reason)
    );
}

#[test]
fn events_without_content_match_their_kind_only() {
    let plain = [Event::CheckOutStarted, Event::PoolCleared, Event::PoolReady, Event::PoolClosed];
    for (i, a) in plain.iter().enumerate() {
        for (j, e) in plain.iter().enumerate() {
            let expected = if i == j { Ok(()) } else { Err(Mismatch::Kind) };
            assert_eq!(a.content_matches(e), expected);
        }
    }
    assert_eq!(
        Event::CheckedOut { connection_id: 1 }.content_matches(&Event::CheckedIn { connection_id: 1 }),
        Err(Mismatch::Kind)
    );
    assert_eq!(
        Event::ConnectionCreated { connection_id: 1 }.content_matches(&Event::ConnectionReady { connection_id: 42 }),
        Err(Mismatch::Kind)
    );
}

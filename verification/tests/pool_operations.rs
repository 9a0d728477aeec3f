use cmap_pool::connection::Connection;
use cmap_pool::error::Error;
use cmap_pool::event::{CheckOutFailedReason, ConnectionClosedReason, Event};
use cmap_pool::model::{CheckOut, Disposition, Grant, PoolState};
use cmap_pool::options::{ConnectionPoolOptions, Limits, DEFAULT_MAX_CONNECTING, DEFAULT_MAX_POOL_SIZE};
use cmap_pool::pool::{ConnectionPool, PoolCommand, UpdateMessage};

fn pool_with(options: ConnectionPoolOptions) -> ConnectionPool {
    let (mut pool, _) = ConnectionPool::new("a.example:27017".to_string(), &options);
    pool.mark_as_ready(0);
    pool
}

fn sized(max_pool_size: u32, max_connecting: u32) -> ConnectionPoolOptions {
    ConnectionPoolOptions {
        max_pool_size: Some(max_pool_size),
        min_pool_size: None,
        max_idle_time: None,
        max_connecting: Some(max_connecting),
        tls_options: None,
    }
}

fn request_of(step: CheckOut) -> u64 {
    match step {
        CheckOut::Establish(request) => request,
        CheckOut::Waiting(request) => request,
        other => panic!("no request number in {:?}", other),
    }
}

fn connect(pool: &mut ConnectionPool, now: u64) -> Connection {
    let (step, _) = pool.check_out(now, None);
    assert!(matches!(step, CheckOut::Establish(_)));
    let (conn, _) = pool.connection_established(request_of(step), now);
    conn.unwrap()
}

#[test]
fn defaults_fill_the_limits() {
    let options = ConnectionPoolOptions::default();
    assert_eq!(
        options.limits(),
        Limits {
            max_pool_size: DEFAULT_MAX_POOL_SIZE,
            min_pool_size: 0,
            max_idle_time: None,
            max_connecting: DEFAULT_MAX_CONNECTING,
            }
    );
    assert_eq!(DEFAULT_MAX_POOL_SIZE, 10);
    assert_eq!(DEFAULT_MAX_CONNECTING, 2);
    let (pool, _) = ConnectionPool::new("x".to_string(), &options);
    assert_eq!(pool.limits().max_pool_size, 10);
}

#[test]
fn staleness_and_expiry_of_a_connection() {
    let c = Connection { id: 7, generation: 2, created_at: 10, last_used_at: 100 };
    assert!(!c.is_stale(2));
    assert!(c.is_stale(3));
    assert!(!c.is_stale(1));
    assert!(!c.is_expired(None, u64::MAX));
    assert!(!c.is_expired(Some(50), 150));
    assert!(c.is_expired(Some(50), 151));
    assert!(!c.is_expired(Some(50), 20));
    assert!(c.is_usable(2, Some(50), 150));
    assert!(!c.is_usable(3, Some(50), 150));
    assert!(!c.is_usable(2, Some(50), 200));
}

#[test]
fn idle_connections_are_reused_most_recently_returned_first() {
    let mut pool = pool_with(sized(3, 3));
    let a = connect(&mut pool, 1);
    let b = connect(&mut pool, 1);
    let c = connect(&mut pool, 1);
    assert_eq!((a.id, b.id, c.id), (1, 2, 3));
    pool.check_in(b, 5);
    pool.check_in(a, 6);
    pool.check_in(c, 7);
    let (step, events) = pool.check_out(8, None);
    match step {
        CheckOut::Connection(conn) => {
            assert_eq!(conn.id, 3);
            assert_eq!(conn.last_used_at, 8);
        }
        other => panic!("unexpected {:?}", other),
    }
    assert_eq!(events, vec![Event::CheckOutStarted, Event::CheckedOut { connection_id: 3 }]);
    let (step, _) = pool.check_out(9, None);
    assert!(matches!(step, CheckOut::Connection(Connection { id: 1, .. })));
    let (step, _) = pool.check_out(9, None);
    assert!(matches!(step, CheckOut::Connection(Connection { id: 2, .. })));
}

#[test]
fn expired_idle_connections_are_closed_on_the_way() {
    let mut options = sized(3, 3);
    options.max_idle_time = Some(100);
    let mut pool = pool_with(options);
    let a = connect(&mut pool, 0);
    let b = connect(&mut pool, 0);
    pool.check_in(a, 10);
    pool.check_in(b, 95);
    // At 150 connection 2 (returned at 95) is fine, at 196 it has expired too.
    let (step, events) = pool.check_out(196, None);
    assert_eq!(
        events,
        vec![
            Event::CheckOutStarted,
            Event::ConnectionClosed { connection_id: 2, reason: ConnectionClosedReason::Idle },
            Event::ConnectionClosed { connection_id: 1, reason: ConnectionClosedReason::Idle },
        ]
    );
    assert!(matches!(step, CheckOut::Establish(_)));
    assert_eq!(pool.idle_count(), 0);
    assert_eq!(pool.total_established(), 1);
}

#[test]
fn idle_connection_at_the_limit_is_still_usable() {
    let mut options = sized(3, 3);
    options.max_idle_time = Some(100);
    let mut pool = pool_with(options);
    let a = connect(&mut pool, 0);
    pool.check_in(a, 10);
    let (step, events) = pool.check_out(110, None);
    assert!(matches!(step, CheckOut::Connection(Connection { id: 1, .. })));
    assert_eq!(events, vec![Event::CheckOutStarted, Event::CheckedOut { connection_id: 1 }]);
}

#[test]
fn returned_connection_that_sat_out_too_long_is_closed() {
    let mut options = sized(3, 3);
    options.max_idle_time = Some(100);
    let mut pool = pool_with(options);
    let a = connect(&mut pool, 0);
    let (disposition, fx) = pool.check_in(a, 101);
    assert_eq!(disposition, Disposition::Closed(ConnectionClosedReason::Idle));
    assert_eq!(
        fx.events,
        vec![
            Event::CheckedIn { connection_id: 1 },
            Event::ConnectionClosed { connection_id: 1, reason: ConnectionClosedReason::Idle },
        ]
    );
    assert_eq!(pool.total_established(), 0);
}

#[test]
fn stale_connection_is_closed_when_it_comes_back() {
    let mut pool = pool_with(sized(2, 2));
    let a = connect(&mut pool, 1);
    let events = pool.clear("boom".to_string(), false);
    assert_eq!(events, vec![Event::PoolCleared]);
    assert_eq!(pool.last_clear_cause(), &Some("boom".to_string()));
    assert!(pool.has_issued(&a));
    let (disposition, fx) = pool.check_in(a, 2);
    assert_eq!(disposition, Disposition::Closed(ConnectionClosedReason::Stale));
    assert_eq!(
        fx.events,
        vec![
            Event::CheckedIn { connection_id: 1 },
            Event::ConnectionClosed { connection_id: 1, reason: ConnectionClosedReason::Stale },
        ]
    );
    assert_eq!(pool.idle_count(), 0);
    assert_eq!(pool.total_established(), 0);
}

#[test]
fn max_connecting_bounds_establishments_in_flight() {
    let mut pool = pool_with(sized(5, 2));
    let (first, _) = pool.check_out(1, None);
    let (second, _) = pool.check_out(1, None);
    let (third, _) = pool.check_out(1, None);
    assert!(matches!(first, CheckOut::Establish(_)));
    assert!(matches!(second, CheckOut::Establish(_)));
    let third = match third {
        CheckOut::Waiting(request) => request,
        other => panic!("unexpected {:?}", other),
    };
    assert_eq!(pool.connecting_count(), 2);
    assert_eq!(pool.wait_queue_len(), 1);
    // The first establishment finishes: its permit goes to the waiter.
    let (conn, fx) = pool.connection_established(request_of(first), 2);
    assert_eq!(conn.unwrap().id, 1);
    assert_eq!(fx.wakeups.len(), 1);
    assert_eq!(fx.wakeups[0].request, third);
    assert!(matches!(fx.wakeups[0].grant, Grant::Establish));
    assert_eq!(pool.connecting_count(), 2);
    assert!(pool.is_connecting(third));
}

#[test]
fn waiters_are_served_in_arrival_order() {
    let mut pool = pool_with(sized(2, 2));
    let a = connect(&mut pool, 1);
    let b = connect(&mut pool, 1);
    let (w1, _) = pool.check_out(2, None);
    let (w2, _) = pool.check_out(3, None);
    let (w3, _) = pool.check_out(4, None);
    let (w1, w2, w3) = (request_of(w1), request_of(w2), request_of(w3));
    assert!(w1 < w2 && w2 < w3);
    assert_eq!(pool.wait_queue_len(), 3);
    let (_, fx) = pool.check_in(b, 5);
    assert_eq!(fx.wakeups.len(), 1);
    assert_eq!(fx.wakeups[0].request, w1);
    assert!(matches!(fx.wakeups[0].grant, Grant::Connection(Connection { id: 2, .. })));
    let (_, fx) = pool.check_in(a, 6);
    assert_eq!(fx.wakeups[0].request, w2);
    assert!(matches!(fx.wakeups[0].grant, Grant::Connection(Connection { id: 1, .. })));
    assert_eq!(pool.wait_queue_len(), 1);
    // A newcomer queues behind the one that still waits.
    let (w4, _) = pool.check_out(7, None);
    assert!(matches!(w4, CheckOut::Waiting(r) if r > w3));
    assert_eq!(pool.wait_queue_len(), 2);
}

#[test]
fn expire_fails_only_the_requests_that_are_due() {
    let mut pool = pool_with(sized(1, 1));
    let _held = connect(&mut pool, 0);
    let (early, _) = pool.check_out(10, Some(50));
    let (late, _) = pool.check_out(40, Some(50));
    let (patient, _) = pool.check_out(41, None);
    let patient = request_of(patient);
    let (early, late) = (request_of(early), request_of(late));
    let fx = pool.expire(59);
    assert!(fx.events.is_empty() && fx.wakeups.is_empty());
    let fx = pool.expire(60);
    assert_eq!(fx.events, vec![Event::CheckOutFailed { reason: CheckOutFailedReason::Timeout }]);
    assert_eq!(fx.wakeups.len(), 1);
    assert_eq!(fx.wakeups[0].request, early);
    assert!(matches!(fx.wakeups[0].grant, Grant::Failed(CheckOutFailedReason::Timeout)));
    assert_eq!(pool.wait_queue_len(), 2);
    let fx = pool.expire(90);
    assert_eq!(fx.wakeups.len(), 1);
    assert_eq!(fx.wakeups[0].request, late);
    // The request without a deadline waits on.
    assert_eq!(pool.wait_queue_len(), 1);
    assert!(pool.expire(u64::MAX).wakeups.is_empty());
    assert!(patient > late);
}

#[test]
fn deadline_that_does_not_fit_the_clock_never_comes() {
    let mut pool = pool_with(sized(1, 1));
    let _held = connect(&mut pool, 5);
    let (step, _) = pool.check_out(5, Some(u64::MAX));
    assert!(matches!(step, CheckOut::Waiting(_)));
    let fx = pool.expire(u64::MAX);
    assert!(fx.wakeups.is_empty());
    assert_eq!(pool.wait_queue_len(), 1);
}

#[test]
fn failed_establishment_is_reported_and_fails_the_check_out() {
    let mut pool = pool_with(sized(1, 1));
    let (step, _) = pool.check_out(1, None);
    let request = request_of(step);
    let (waiting, _) = pool.check_out(2, None);
    let waiting = request_of(waiting);
    let (report, fx) = pool.establishment_failed(request, "connection refused".to_string(), 3);
    let report = report.expect("the failure is reported upstream");
    assert_eq!(report.address, "a.example:27017");
    assert_eq!(report.cause, "connection refused");
    assert_eq!(report.generation, 0);
    assert_eq!(report.connection_id, None);
    assert_eq!(
        fx.events,
        vec![Event::CheckOutFailed { reason: CheckOutFailedReason::ConnectionError }]
    );
    // The slot is free again and goes to the request that waited.
    assert_eq!(fx.wakeups.len(), 1);
    assert_eq!(fx.wakeups[0].request, waiting);
    assert!(matches!(fx.wakeups[0].grant, Grant::Establish));
    assert!(!pool.is_connecting(request));
    assert!(pool.is_connecting(waiting));
}

#[test]
fn failed_background_establishment_is_reported_without_an_event() {
    let mut options = sized(4, 2);
    options.min_pool_size = Some(1);
    let mut pool = pool_with(options);
    let ids = pool.populate();
    assert_eq!(ids.len(), 1);
    let (report, fx) = pool.establishment_failed(ids[0], "timeout".to_string(), 1);
    assert!(report.is_some());
    assert!(fx.events.is_empty());
    assert!(fx.wakeups.is_empty());
    assert_eq!(pool.total_established(), 0);
    assert_eq!(pool.demand(), 1);
}

#[test]
fn demand_respects_every_limit() {
    // min above max: max decides.
    let mut options = sized(2, 5);
    options.min_pool_size = Some(4);
    let mut pool = pool_with(options);
    assert_eq!(pool.demand(), 2);
    // max_connecting decides.
    let mut options = sized(10, 3);
    options.min_pool_size = Some(7);
    let mut pool2 = pool_with(options);
    assert_eq!(pool2.demand(), 3);
    let ids = pool2.populate();
    assert_eq!(ids, vec![1, 2, 3]);
    assert_eq!(pool2.demand(), 0);
    pool2.connection_established(2, 1);
    assert_eq!(pool2.demand(), 1);
    assert_eq!(pool2.idle_count(), 1);
    // A paused pool wants nothing.
    let mut options = sized(10, 3);
    options.min_pool_size = Some(7);
    let (paused, _) = ConnectionPool::new("x".to_string(), &options);
    assert_eq!(paused.demand(), 0);
    assert!(pool.populate().len() == 2);
}

#[test]
fn close_fails_waiters_and_requests_in_flight() {
    let mut pool = pool_with(sized(2, 1));
    let a = connect(&mut pool, 1);
    let b = connect(&mut pool, 1);
    pool.check_in(b, 2);
    let held = match pool.check_out(3, None).0 {
        CheckOut::Connection(c) => c,
        other => panic!("unexpected {:?}", other),
    };
    pool.check_in(held, 4);
    // One idle (id 2), one out (id 1). Fill the pool and queue a waiter.
    let c2 = match pool.check_out(5, None).0 {
        CheckOut::Connection(c) => c,
        other => panic!("unexpected {:?}", other),
    };
    let (waiter, _) = pool.check_out(6, None);
    let waiter = request_of(waiter);
    pool.check_in(c2, 7);
    // The waiter took connection 2 at once; queue another and put one idle.
    let (waiter2, _) = pool.check_out(8, None);
    let waiter2 = request_of(waiter2);
    assert!(waiter2 > waiter);
    let fx = pool.close();
    assert_eq!(
        fx.events,
        vec![Event::CheckOutFailed { reason: CheckOutFailedReason::PoolClosed }, Event::PoolClosed]
    );
    assert_eq!(fx.wakeups.len(), 1);
    assert_eq!(fx.wakeups[0].request, waiter2);
    assert!(matches!(fx.wakeups[0].grant, Grant::Failed(CheckOutFailedReason::PoolClosed)));
    assert_eq!(pool.state(), PoolState::Closed);
    // Closing again changes nothing.
    let again = pool.close();
    assert!(again.events.is_empty() && again.wakeups.is_empty());
    // The connection that is still out is checked in and closed without a further event.
    let (disposition, fx) = pool.check_in(a, 9);
    assert_eq!(disposition, Disposition::Closed(ConnectionClosedReason::PoolClosed));
    assert_eq!(fx.events, vec![Event::CheckedIn { connection_id: 1 }]);
}

#[test]
fn close_drains_idle_connections_and_orphans_establishments() {
    let mut pool = pool_with(sized(3, 2));
    let a = connect(&mut pool, 1);
    pool.check_in(a, 2);
    let (step, _) = pool.check_out(3, None);
    assert!(matches!(step, CheckOut::Connection(_)));
    let (in_flight, _) = pool.check_out(3, None);
    let in_flight = request_of(in_flight);
    if let CheckOut::Connection(c) = step {
        pool.check_in(c, 4);
    }
    let fx = pool.close();
    assert_eq!(
        fx.events,
        vec![
            Event::ConnectionClosed { connection_id: 1, reason: ConnectionClosedReason::PoolClosed },
            Event::CheckOutFailed { reason: CheckOutFailedReason::PoolClosed },
            Event::PoolClosed,
        ]
    );
    assert_eq!(fx.wakeups.len(), 1);
    assert_eq!(fx.wakeups[0].request, in_flight);
    // The establishment finishes after the close: nothing is published.
    assert!(pool.is_connecting(in_flight));
    let (conn, fx) = pool.connection_established(in_flight, 5);
    assert!(conn.is_none());
    assert!(fx.events.is_empty());
    assert_eq!(pool.total_established(), 0);
}

#[test]
fn closed_pool_ignores_ready_and_clear() {
    let mut pool = pool_with(sized(1, 1));
    pool.close();
    assert!(pool.mark_as_ready(1).events.is_empty());
    assert!(pool.clear("late".to_string(), true).is_empty());
    assert_eq!(pool.state(), PoolState::Closed);
    assert_eq!(pool.generation(), 0);
    assert_eq!(pool.last_clear_cause(), &None);
}

#[test]
fn mark_as_ready_twice_is_idempotent() {
    let (mut pool, _) = ConnectionPool::new("x".to_string(), &sized(1, 1));
    assert_eq!(pool.mark_as_ready(1).events, vec![Event::PoolReady]);
    let fx = pool.mark_as_ready(2);
    assert!(fx.events.is_empty() && fx.wakeups.is_empty());
    assert_eq!(pool.state(), PoolState::Ready);
}

#[test]
fn clear_with_pause_parks_new_requests_until_ready() {
    let mut pool = pool_with(sized(2, 2));
    let a = connect(&mut pool, 1);
    pool.check_in(a, 2);
    let events = pool.clear("primary stepped down".to_string(), true);
    assert_eq!(
        events,
        vec![
            Event::ConnectionClosed { connection_id: 1, reason: ConnectionClosedReason::Stale },
            Event::PoolCleared,
        ]
    );
    assert_eq!(pool.state(), PoolState::Paused);
    assert_eq!(pool.generation(), 1);
    let (step, events) = pool.check_out(3, None);
    let parked = request_of(step);
    assert!(events.is_empty());
    let fx = pool.mark_as_ready(4);
    assert_eq!(fx.events, vec![Event::PoolReady, Event::CheckOutStarted]);
    assert_eq!(fx.wakeups[0].request, parked);
    assert!(matches!(fx.wakeups[0].grant, Grant::Establish));
}

#[test]
fn parked_request_that_times_out_fails_without_an_event() {
    let (mut pool, _) = ConnectionPool::new("x".to_string(), &sized(1, 1));
    let (step, _) = pool.check_out(0, Some(10));
    let parked = request_of(step);
    let fx = pool.expire(10);
    assert!(fx.events.is_empty());
    assert_eq!(fx.wakeups.len(), 1);
    assert_eq!(fx.wakeups[0].request, parked);
    assert!(matches!(fx.wakeups[0].grant, Grant::Failed(CheckOutFailedReason::Timeout)));
}

#[test]
fn connection_established_after_a_clear_carries_the_new_generation() {
    let mut pool = pool_with(sized(2, 2));
    let (step, _) = pool.check_out(1, None);
    let request = request_of(step);
    pool.clear("reset".to_string(), false);
    let (conn, _) = pool.connection_established(request, 2);
    let conn = conn.unwrap();
    assert_eq!(conn.generation, 1);
    assert_eq!(pool.generation(), 1);
    let (disposition, _) = pool.check_in(conn, 3);
    assert_eq!(disposition, Disposition::Kept);
}

#[test]
fn forged_connection_is_not_on_the_books() {
    let mut pool = pool_with(sized(2, 2));
    let a = connect(&mut pool, 1);
    let forged = Connection { id: 9, generation: 0, created_at: 1, last_used_at: 1 };
    assert!(!pool.has_issued(&forged));
    assert!(pool.has_issued(&a));
    pool.check_in(a, 2);
    let again = Connection { id: 1, generation: 0, created_at: 1, last_used_at: 1 };
    assert!(!pool.has_issued(&again));
    assert!(!pool.is_connecting(77));
}

#[test]
fn counters_are_far_from_exhausted() {
    let pool = pool_with(sized(2, 2));
    assert!(pool.can_number_requests());
    assert!(pool.can_number_connections());
    assert!(pool.can_clear());
    assert!(pool.can_populate());
}

#[test]
fn manager_commands_funnel_through_the_pool() {
    let mut pool = pool_with(sized(2, 2));
    let manager = pool.manager();
    let copy = manager.clone();
    assert_eq!(copy.address, "a.example:27017");
    let a = connect(&mut pool, 1);
    pool.check_in(a, 2);
    let fx = pool.handle(manager.clear("why".to_string()), 3);
    assert_eq!(fx.events.last(), Some(&Event::PoolCleared));
    assert_eq!(pool.generation(), 1);
    assert_eq!(pool.state(), PoolState::Ready);
    let fx = pool.handle(copy.clear_and_pause("again".to_string()), 4);
    assert_eq!(fx.events, vec![Event::PoolCleared]);
    assert_eq!(pool.state(), PoolState::Paused);
    let fx = pool.handle(copy.mark_as_ready(), 5);
    assert_eq!(fx.events, vec![Event::PoolReady]);
    assert!(matches!(manager.mark_as_ready(), PoolCommand::MarkAsReady));
}

#[test]
fn monitor_clears_on_application_errors_of_its_pool_only() {
    let mut pool = pool_with(sized(1, 1));
    let (step, _) = pool.check_out(1, None);
    let (report, _) = pool.establishment_failed(request_of(step), "refused".to_string(), 2);
    let manager = pool.manager();
    let command = UpdateMessage::ApplicationError(report.unwrap()).reaction(&manager);
    match command {
        Some(PoolCommand::Clear { cause, pause }) => {
            assert_eq!(cause, "refused");
            assert!(!pause);
        }
        other => panic!("unexpected {:?}", other),
    }
    let other_pool = ConnectionPool::new("b.example:27017".to_string(), &sized(1, 1)).0;
    let (step, _) = pool.check_out(3, None);
    let (report, _) = pool.establishment_failed(request_of(step), "refused".to_string(), 4);
    assert!(UpdateMessage::ApplicationError(report.unwrap()).reaction(&other_pool.manager()).is_none());
    let monitor = UpdateMessage::MonitorError { address: "a.example:27017".to_string(), cause: "x".to_string() };
    assert!(monitor.reaction(&manager).is_none());
}

#[test]
fn usage_errors_name_the_connection() {
    let mut pool = pool_with(sized(2, 2));
    let a = connect(&mut pool, 1);
    pool.clear("first".to_string(), false);
    let report = pool.usage_error(&a, "broken pipe".to_string());
    assert_eq!(report.address, "a.example:27017");
    assert_eq!(report.cause, "broken pipe");
    assert_eq!(report.generation, 0);
    assert_eq!(report.connection_id, Some(1));
    assert_eq!(pool.generation(), 1);
    assert!(pool.has_issued(&a));
}

#[test]
fn error_taxonomy_maps_to_reasons() {
    assert_eq!(Error::WaitQueueTimeout.reason(), CheckOutFailedReason::Timeout);
    assert_eq!(Error::PoolClosed.reason(), CheckOutFailedReason::PoolClosed);
    assert_eq!(Error::Establish { message: "x".to_string() }.reason(), CheckOutFailedReason::ConnectionError);
    assert_eq!(
        Error::CheckOutFailed { reason: CheckOutFailedReason::Timeout }.reason(),
        CheckOutFailedReason::Timeout
    );
    assert!(matches!(
        Error::Establish { message: "x".to_string() }.into_check_out_failed(),
        Error::CheckOutFailed { reason: CheckOutFailedReason::ConnectionError }
    ));
    assert!(matches!(CheckOutFailedReason::Timeout.cause(), Some(Error::WaitQueueTimeout)));
    assert!(matches!(CheckOutFailedReason::PoolClosed.cause(), Some(Error::PoolClosed)));
    assert!(CheckOutFailedReason::ConnectionError.cause().is_none());
}

#[test]
fn event_names() {
    let names: Vec<&str> = vec![
        Event::PoolCreated { options: None },
        Event::PoolReady,
        Event::PoolCleared,
        Event::PoolClosed,
        Event::ConnectionCreated { connection_id: 1 },
        Event::ConnectionReady { connection_id: 1 },
        Event::ConnectionClosed { connection_id: 1, reason: ConnectionClosedReason::Error },
        Event::CheckOutStarted,
        Event::CheckedOut { connection_id: 1 },
        Event::CheckOutFailed { reason: CheckOutFailedReason::Timeout },
        Event::CheckedIn { connection_id: 1 },
    ]
    .iter()
    .map(|e| e.name())
    .collect();
    assert_eq!(
        names,
        vec![
            "ConnectionPoolCreated",
            "ConnectionPoolReady",
            "ConnectionPoolCleared",
            "ConnectionPoolClosed",
            "ConnectionCreated",
            "ConnectionReady",
            "ConnectionClosed",
            "ConnectionCheckOutStarted",
            "ConnectionCheckedOut",
            "ConnectionCheckOutFailed",
            "ConnectionCheckedIn",
        ]
    );
}

use cmap_pool::event::{CheckOutFailedReason, ConnectionClosedReason, Event};
use cmap_pool::harness::{
    check_events, first_error, judge_error, plan_test, should_skip, ErrorVerdict, EventFilter, EventHandler,
    EventSubscriber, EventVerdict, SkipReason, TestPlan, EVENT_TIMEOUT,
};
use cmap_pool::matching::Mismatch;

fn record(events: Vec<Event>) -> EventHandler {
    let mut handler = EventHandler::new();
    handler.record(&events);
    handler
}

fn sample() -> Vec<Event> {
    vec![
        Event::PoolCreated { options: None },
        Event::PoolReady,
        Event::CheckOutStarted,
        Event::ConnectionCreated { connection_id: 1 },
        Event::ConnectionReady { connection_id: 1 },
        Event::CheckedOut { connection_id: 1 },
        Event::CheckedIn { connection_id: 1 },
        Event::CheckOutStarted,
        Event::CheckedOut { connection_id: 1 },
    ]
}

#[test]
fn event_timeout_is_three_seconds() {
    assert_eq!(EVENT_TIMEOUT, 3000);
}

#[test]
fn count_events_counts_by_name() {
    let handler = record(sample());
    assert_eq!(handler.count_events("ConnectionCheckOutStarted"), 2);
    assert_eq!(handler.count_events("ConnectionCheckedOut"), 2);
    assert_eq!(handler.count_events("ConnectionCheckedIn"), 1);
    assert_eq!(handler.count_events("ConnectionPoolCreated"), 1);
    assert_eq!(handler.count_events("ConnectionPoolClosed"), 0);
    assert_eq!(handler.count_events("CheckedOut"), 0);
    assert_eq!(EventHandler::new().count_events("ConnectionReady"), 0);
}

#[test]
fn record_appends_in_order() {
    let mut handler = record(vec![Event::PoolReady]);
    handler.record(&vec![Event::PoolCleared, Event::PoolClosed]);
    handler.record(&vec![]);
    assert_eq!(handler.events, vec![Event::PoolReady, Event::PoolCleared, Event::PoolClosed]);
}

#[test]
fn filters_accept_what_they_say() {
    let names = EventFilter::NotNamed(vec!["ConnectionReady".to_string(), "ConnectionCreated".to_string()]);
    assert!(!names.accepts(&Event::ConnectionReady { connection_id: 1 }));
    assert!(!names.accepts(&Event::ConnectionCreated { connection_id: 9 }));
    assert!(names.accepts(&Event::CheckedOut { connection_id: 1 }));
    assert!(EventFilter::NotNamed(vec![]).accepts(&Event::PoolReady));
    assert!(EventFilter::Any.accepts(&Event::PoolClosed));
    assert!(EventFilter::CheckedInOf(4).accepts(&Event::CheckedIn { connection_id: 4 }));
    assert!(!EventFilter::CheckedInOf(4).accepts(&Event::CheckedIn { connection_id: 5 }));
    assert!(!EventFilter::CheckedInOf(4).accepts(&Event::CheckedOut { connection_id: 4 }));
    assert!(EventFilter::PoolClosed.accepts(&Event::PoolClosed));
    assert!(!EventFilter::PoolClosed.accepts(&Event::PoolCleared));
}

#[test]
fn subscriber_sees_only_what_is_recorded_after_it_subscribed() {
    let mut handler = record(vec![Event::PoolReady, Event::CheckOutStarted]);
    let mut reader = handler.subscribe();
    assert_eq!(reader.cursor, 2);
    assert_eq!(reader.next_event(&handler, &EventFilter::Any), None);
    handler.record(&vec![
        Event::CheckedOut { connection_id: 1 },
        Event::CheckedIn { connection_id: 2 },
        Event::CheckedIn { connection_id: 1 },
        Event::PoolClosed,
    ]);
    // Events that the filter holds back are read past.
    assert_eq!(
        reader.next_event(&handler, &EventFilter::CheckedInOf(1)),
        Some(Event::CheckedIn { connection_id: 1 })
    );
    assert_eq!(reader.cursor, 5);
    assert_eq!(reader.next_event(&handler, &EventFilter::CheckedInOf(2)), None);
    assert_eq!(reader.cursor, 6);
}

#[test]
fn subscriber_collects_all_that_is_buffered() {
    let handler = record(sample());
    let mut reader = EventSubscriber { cursor: 3 };
    let filter = EventFilter::NotNamed(vec!["ConnectionCheckOutStarted".to_string()]);
    assert_eq!(
        reader.all(&handler, &filter),
        vec![
            Event::ConnectionCreated { connection_id: 1 },
            Event::ConnectionReady { connection_id: 1 },
            Event::CheckedOut { connection_id: 1 },
            Event::CheckedIn { connection_id: 1 },
            Event::CheckedOut { connection_id: 1 },
        ]
    );
    assert_eq!(reader.cursor, 9);
    assert_eq!(reader.all(&handler, &EventFilter::Any), vec![]);
}

#[test]
fn check_events_accepts_a_matching_record() {
    let handler = record(sample());
    let expected = vec![
        Event::PoolCreated { options: None },
        Event::PoolReady,
        Event::CheckOutStarted,
        Event::CheckedOut { connection_id: 42 },
        Event::CheckedIn { connection_id: 42 },
        Event::CheckOutStarted,
        Event::CheckedOut { connection_id: 1 },
    ];
    let ignored = vec!["ConnectionCreated".to_string(), "ConnectionReady".to_string()];
    assert_eq!(check_events(&handler, &expected, ignored), Ok(()));
}

#[test]
fn check_events_names_the_first_failure() {
    let handler = record(sample());
    let ignored = || vec!["ConnectionCreated".to_string(), "ConnectionReady".to_string()];
    let mut expected = vec![
        Event::PoolCreated { options: None },
        Event::PoolReady,
        Event::CheckOutStarted,
        Event::CheckedOut { connection_id: 2 },
        Event::CheckedOut { connection_id: 3 },
    ];
    assert_eq!(
        check_events(&handler, &expected, ignored()),
        Err(EventVerdict::Mismatched { index: 3, mismatch: Mismatch::ConnectionId })
    );
    expected[3] = Event::CheckedOut { connection_id: 1 };
    assert_eq!(
        check_events(&handler, &expected, ignored()),
        Err(EventVerdict::Mismatched { index: 4, mismatch: Mismatch::Kind })
    );
    expected.truncate(4);
    assert_eq!(check_events(&handler, &expected, ignored()), Err(EventVerdict::Unexpected { count: 3 }));
    // Nothing is ignored: the event at 3 is ConnectionCreated.
    assert_eq!(
        check_events(&handler, &expected, vec![]),
        Err(EventVerdict::Mismatched { index: 3, mismatch: Mismatch::Kind })
    );
    let short = record(vec![Event::PoolCreated { options: None }]);
    assert_eq!(check_events(&short, &expected, vec![]), Err(EventVerdict::Missing { index: 1 }));
    assert_eq!(check_events(&EventHandler::new(), &vec![], vec![]), Ok(()));
    assert_eq!(
        check_events(&short, &vec![], vec!["ConnectionPoolCreated".to_string()]),
        Ok(())
    );
    let closed = record(vec![Event::ConnectionClosed { connection_id: 1, reason: ConnectionClosedReason::Idle }]);
    assert_eq!(
        check_events(
            &closed,
            &vec![Event::ConnectionClosed { connection_id: 1, reason: ConnectionClosedReason::Stale }],
            vec![]
        ),
        Err(EventVerdict::Mismatched { index: 0, mismatch: Mismatch::Reason })
    );
    let failed = record(vec![Event::CheckOutFailed { reason: CheckOutFailedReason::Timeout }]);
    assert_eq!(
        check_events(&failed, &vec![Event::CheckOutFailed { reason: CheckOutFailedReason::Timeout }], vec![]),
        Ok(())
    );
}

#[test]
fn first_error_wins() {
    assert_eq!(first_error(None::<u8>, None), None);
    assert_eq!(first_error(None, Some(2u8)), Some(2));
    assert_eq!(first_error(Some(1u8), Some(2)), Some(1));
    assert_eq!(first_error(Some(1u8), None), Some(1));
}

#[test]
fn error_expectations() {
    assert_eq!(judge_error(true, false), Err(ErrorVerdict::ExpectedErrorMissing));
    assert_eq!(judge_error(false, true), Err(ErrorVerdict::UnexpectedError));
    assert_eq!(judge_error(true, true), Ok(()));
    assert_eq!(judge_error(false, false), Ok(()));
}

#[test]
fn skipped_descriptions() {
    for description in [
        "must destroy checked in connection if pool has been closed",
        "must throw error if checkOut is called on a closed pool",
        "must aggressively timeout threads enqueued longer than waitQueueTimeoutMS",
        "waiting on maxConnecting is limited by WaitQueueTimeoutMS",
        "error during minPoolSize population clears pool",
    ] {
        assert!(should_skip(description));
    }
    assert!(!should_skip("must be able to check out a connection"));
    assert!(!should_skip(""));
    assert!(!should_skip("error during minPoolSize population clears pool "));
}

#[test]
fn plans() {
    let run = "must be able to check out a connection";
    assert_eq!(plan_test(run, None, &None, false), TestPlan::Run { fail_point: false });
    assert_eq!(plan_test(run, Some(false), &Some(vec![false, true]), true), TestPlan::Run { fail_point: true });
    assert_eq!(plan_test(run, Some(true), &None, true), TestPlan::Skip(SkipReason::LoadBalanced));
    assert_eq!(plan_test(run, None, &Some(vec![false, false]), true), TestPlan::Skip(SkipReason::RunOn));
    assert_eq!(plan_test(run, None, &Some(vec![]), false), TestPlan::Skip(SkipReason::RunOn));
    assert_eq!(
        plan_test("must throw error if checkOut is called on a closed pool", Some(true), &Some(vec![]), false),
        TestPlan::Skip(SkipReason::Description)
    );
    assert_eq!(plan_test(run, Some(true), &Some(vec![false]), false), TestPlan::Skip(SkipReason::LoadBalanced));
}

use cmap_pool::connection::Connection;
use cmap_pool::event::Event;
use cmap_pool::model::{CheckOut, Grant, PoolState, Wakeup};
use cmap_pool::options::ConnectionPoolOptions;
use cmap_pool::pool::{ConnectionPool, Effects};

/// A driver that plays the caller's part: it keeps the connections that were
/// handed out, the establishments under way, and the whole record.
struct Driver {
    pool: ConnectionPool,
    record: Vec<Event>,
    held: Vec<Connection>,
    establishing: Vec<u64>,
    clock: u64,
    max_pool_size: usize,
    max_connecting: usize,
}

impl Driver {
    fn new(max_pool_size: u32, min_pool_size: u32, max_connecting: u32) -> Driver {
        let options = ConnectionPoolOptions {
            max_pool_size: Some(max_pool_size),
            min_pool_size: Some(min_pool_size),
            max_idle_time: Some(40),
            max_connecting: Some(max_connecting),
            tls_options: None,
        };
        let (pool, events) = ConnectionPool::new("law.example:1".to_string(), &options);
        Driver {
            pool,
            record: events,
            held: Vec::new(),
            establishing: Vec::new(),
            clock: 0,
            max_pool_size: max_pool_size as usize,
            max_connecting: max_connecting as usize,
        }
    }

    fn deliver(&mut self, wakeups: Vec<Wakeup>) {
        for w in wakeups {
            match w.grant {
                Grant::Connection(c) => {
                    assert_eq!(c.generation, self.pool.generation());
                    self.held.push(c);
                }
                Grant::Establish => self.establishing.push(w.request),
                Grant::Failed(_) => self.establishing.retain(|r| *r != w.request),
            }
        }
    }

    fn absorb(&mut self, fx: Effects) {
        self.record.extend(fx.events);
        self.deliver(fx.wakeups);
    }

    fn step(&mut self, choice: u64) {
        self.clock += choice % 7;
        let now = self.clock;
        match choice % 9 {
            0 => {
                let fx = self.pool.mark_as_ready(now);
                self.absorb(fx);
            }
            1 | 2 => {
                let (step, events) = self.pool.check_out(now, Some(25));
                self.record.extend(events);
                match step {
                    CheckOut::Connection(c) => {
                        assert_eq!(c.generation, self.pool.generation());
                        self.held.push(c);
                    }
                    CheckOut::Establish(r) => self.establishing.push(r),
                    CheckOut::Waiting(_) | CheckOut::Failed(_) => {}
                }
            }
            3 => {
                if !self.held.is_empty() {
                    let c = self.held.remove((choice as usize / 9) % self.held.len());
                    assert!(self.pool.has_issued(&c));
                    let id = c.id;
                    let (_, fx) = self.pool.check_in(c, now);
                    let checked_in = fx.events.iter().filter(|e| matches!(e, Event::CheckedIn { .. })).count();
                    assert_eq!(checked_in, 1);
                    assert_eq!(fx.events[0], Event::CheckedIn { connection_id: id });
                    self.absorb(fx);
                }
            }
            4 => {
                if !self.establishing.is_empty() {
                    let r = self.establishing.remove(0);
                    assert!(self.pool.is_connecting(r));
                    let (conn, fx) = self.pool.connection_established(r, now);
                    if let Some(c) = conn {
                        assert_eq!(c.generation, self.pool.generation());
                        self.held.push(c);
                    }
                    self.absorb(fx);
                }
            }
            5 => {
                if !self.establishing.is_empty() {
                    let r = self.establishing.remove(0);
                    let (_, fx) = self.pool.establishment_failed(r, "no route".to_string(), now);
                    self.absorb(fx);
                }
            }
            6 => {
                let before = self.pool.generation();
                let was_closed = self.pool.state() == PoolState::Closed;
                let events = self.pool.clear("law".to_string(), choice % 2 == 0);
                self.record.extend(events);
                assert_eq!(self.pool.generation(), if was_closed { before } else { before + 1 });
                assert_eq!(self.pool.idle_count(), 0);
            }
            7 => {
                let fx = self.pool.expire(now);
                self.absorb(fx);
                let ids = self.pool.populate();
                self.establishing.extend(ids);
            }
            _ => {
                if choice % 63 == 8 {
                    let fx = self.pool.close();
                    // Requests in flight were told that they failed; their
                    // establishments still run.
                    self.record.extend(fx.events);
                }
            }
        }
        self.check();
    }

    fn count(&self, pick: fn(&Event) -> bool) -> usize {
        self.record.iter().filter(|e| pick(e)).count()
    }

    fn check(&self) {
        let pool = &self.pool;
        // Capacity.
        assert!(pool.total_established() <= self.max_pool_size);
        assert!(pool.idle_count() + pool.checked_out_count() <= self.max_pool_size);
        assert!(pool.connecting_count() <= self.max_connecting);
        assert_eq!(
            pool.total_established(),
            pool.idle_count() + pool.checked_out_count() + pool.connecting_count()
        );
        // The books agree with the caller's.
        assert_eq!(pool.checked_out_count(), self.held.len());
        // Every check-out has its check-in, but for what is held.
        let out = self.count(|e| matches!(e, Event::CheckedOut { .. }));
        let back = self.count(|e| matches!(e, Event::CheckedIn { .. }));
        assert_eq!(out, back + self.held.len());
        for id in 1..=20u32 {
            let out = self.record.iter().filter(|e| **e == Event::CheckedOut { connection_id: id }).count();
            let back = self.record.iter().filter(|e| **e == Event::CheckedIn { connection_id: id }).count();
            let held = self.held.iter().filter(|c| c.id == id).count();
            assert!(held <= 1);
            assert_eq!(out, back + held);
        }
        // Every started check-out has ended, waits, or is being connected.
        let started = self.count(|e| matches!(e, Event::CheckOutStarted));
        let failed = self.count(|e| matches!(e, Event::CheckOutFailed { .. }));
        assert!(started >= out + failed);
        assert!(started <= out + failed + pool.wait_queue_len() + pool.connecting_count());
        // PoolClosed is final but for check-ins.
        let closed_at = self.record.iter().position(|e| *e == Event::PoolClosed);
        assert_eq!(closed_at.is_some(), pool.state() == PoolState::Closed);
        if let Some(at) = closed_at {
            assert!(self.record[at + 1..].iter().all(|e| matches!(e, Event::CheckedIn { .. })));
        }
        // Nobody waits while the pool could serve.
        if pool.state() == PoolState::Ready && pool.wait_queue_len() > 0 {
            assert_eq!(pool.idle_count(), 0);
            assert!(
                pool.total_established() >= self.max_pool_size
                    || pool.connecting_count() >= self.max_connecting
            );
        }
    }
}

fn run(seed: u64, steps: usize, max_pool_size: u32, min_pool_size: u32, max_connecting: u32) {
    let mut driver = Driver::new(max_pool_size, min_pool_size, max_connecting);
    let mut x = seed;
    for _ in 0..steps {
        x = x.wrapping_mul(6364136223846793005).wrapping_add(1442695040888963407);
        driver.step(x >> 33);
    }
}

#[test]
fn laws_hold_along_long_runs_of_a_small_pool() {
    for seed in 0..40u64 {
        run(seed, 400, 2, 1, 1);
    }
}

#[test]
fn laws_hold_along_long_runs_of_a_larger_pool() {
    for seed in 100..130u64 {
        run(seed, 400, 5, 3, 2);
    }
}

#[test]
fn laws_hold_when_min_exceeds_max() {
    for seed in 200..220u64 {
        run(seed, 300, 3, 6, 4);
    }
}

#[test]
fn capacity_is_never_exceeded_by_greedy_callers() {
    let mut driver = Driver::new(3, 0, 2);
    let fx = driver.pool.mark_as_ready(0);
    driver.absorb(fx);
    for round in 0..50u64 {
        for _ in 0..5 {
            let (step, _) = driver.pool.check_out(round, None);
            match step {
                CheckOut::Connection(c) => driver.held.push(c),
                CheckOut::Establish(r) => driver.establishing.push(r),
                _ => {}
            }
            assert!(driver.pool.total_established() <= 3);
        }
        while let Some(r) = driver.establishing.pop() {
            let (conn, fx) = driver.pool.connection_established(r, round);
            if let Some(c) = conn {
                driver.held.push(c);
            }
            driver.deliver(fx.wakeups);
            assert!(driver.pool.total_established() <= 3);
        }
        assert!(driver.held.len() <= 3);
        while let Some(c) = driver.held.pop() {
            let (_, fx) = driver.pool.check_in(c, round);
            driver.deliver(fx.wakeups);
            if driver.pool.wait_queue_len() == 0 {
                break;
            }
        }
        let fx = driver.pool.expire(round + 100);
        driver.deliver(fx.wakeups);
    }
}

#[test]
fn cleared_connection_is_never_handed_out_again() {
    let mut driver = Driver::new(2, 0, 2);
    let fx = driver.pool.mark_as_ready(0);
    driver.absorb(fx);
    let (step, _) = driver.pool.check_out(1, None);
    let request = match step {
        CheckOut::Establish(r) => r,
        other => panic!("unexpected {:?}", other),
    };
    let (conn, _) = driver.pool.connection_established(request, 1);
    let old = conn.unwrap();
    let old_id = old.id;
    driver.pool.check_in(old, 2);
    driver.pool.clear("law".to_string(), false);
    for now in 3..10u64 {
        let (step, _) = driver.pool.check_out(now, None);
        match step {
            CheckOut::Connection(c) => {
                assert_ne!(c.id, old_id);
                assert!(c.generation >= 1);
                driver.pool.check_in(c, now);
            }
            CheckOut::Establish(r) => {
                let (c, _) = driver.pool.connection_established(r, now);
                let c = c.unwrap();
                assert_ne!(c.id, old_id);
                assert_eq!(c.generation, 1);
                driver.pool.check_in(c, now);
            }
            other => panic!("unexpected {:?}", other),
        }
    }
}

//! Scenarios of a pool whose opens are scripted.

use std::collections::HashMap;

use clickhouse_pool::{
    pending_open_limit, ClientHandle, Delay, Dropped, Host, OpenPoll, Options, OptionsSource, Pool,
    PoolBinding, PoolId, Returned, Settled, Step, Transport, PENDING_OPEN_POLL_BUDGET,
};

/// Why a scripted open fails.
#[derive(Clone, Copy, Debug, PartialEq)]
enum Failure {
    Timeout,
    Refused,
}

/// What a scripted open does when it is polled.
enum Script {
    /// Needs more time, and counts how often it was asked.
    Pending,
    /// Reports what the pool says of itself meanwhile, and needs more time.
    Observe,
    /// Ends.
    Ready(Result<ClientHandle, Failure>),
}

/// A way to sweep: step by step, or with one call.
type SweepFn = fn(&mut Driver) -> Result<(), Failure>;

const SWEEPS: [SweepFn; 2] = [Driver::handle_futures, Driver::handle_futures_at_once];

/// What a task gets.
#[derive(Debug)]
enum Outcome {
    Ready(Result<ClientHandle, Failure>),
    Pending,
}

/// A pool, with its scripted opens and a count of the wake-ups of each task.
struct Driver {
    pool: Pool,
    opens: HashMap<u64, Script>,
    next_ticket: u64,
    wakes: HashMap<u64, usize>,
    polls: usize,
    observed: Option<(usize, usize, usize)>,
    closed: Vec<ClientHandle>,
}

fn options(pool_min: usize, pool_max: usize) -> Options {
    Options {
        addr: Host::parse("tcp://127.0.0.1:9000").unwrap(),
        alt_hosts: Vec::new(),
        pool_min,
        pool_max,
        send_retries: 3,
        retry_timeout: Delay { secs: 5, nanos: 0 },
    }
}

impl Driver {
    fn new(pool_min: usize, pool_max: usize) -> Driver {
        Driver {
            pool: Pool::new(PoolId(1), options(pool_min, pool_max)),
            opens: HashMap::new(),
            next_ticket: 100,
            wakes: HashMap::new(),
            polls: 0,
            observed: None,
            closed: Vec::new(),
        }
    }

    fn wake(&mut self, task: u64) {
        *self.wakes.entry(task).or_insert(0) += 1;
    }

    fn wake_tasks(&mut self) {
        while let Some(task) = self.pool.inner_mut().next_task() {
            self.wake(task);
        }
    }

    fn woken(&self, task: u64) -> usize {
        self.wakes.get(&task).copied().unwrap_or(0)
    }

    fn ticket(&mut self) -> u64 {
        self.next_ticket += 1;
        self.next_ticket
    }

    fn reserve_conn(&mut self, max: usize) {
        assert!(self.pool.inner_mut().try_reserve_conn(max));
    }

    fn reserve_pending_open(&mut self, max: usize) {
        self.reserve_conn(max);
        let limit = self.pool.pending_open_limit();
        assert!(self.pool.inner_mut().try_reserve_pending_open(limit));
    }

    fn push_open(&mut self, script: Script) {
        let ticket = self.ticket();
        self.opens.insert(ticket, script);
        assert!(self.pool.inner_mut().push_new(ticket).is_ok());
    }

    fn replace_pending_open_with(&mut self, script: Script) {
        let ticket = self.pool.inner_mut().pop_new().unwrap();
        self.opens.remove(&ticket);
        self.push_open(script);
    }

    fn handle_futures(&mut self) -> Result<(), Failure> {
        let mut sweep = self.pool.begin_sweep::<Failure>();
        while let Some(ticket) = self.pool.next_open(&mut sweep) {
            self.polls += 1;
            let polled = match self.opens.remove(&ticket).unwrap() {
                Script::Pending => {
                    self.opens.insert(ticket, Script::Pending);
                    OpenPoll::Pending
                }
                Script::Observe => {
                    self.observed = Some((
                        self.pool.info().new_len,
                        self.pool.pending_open_count(),
                        self.pool.pending_open_limit(),
                    ));
                    self.opens.insert(ticket, Script::Observe);
                    OpenPoll::Pending
                }
                Script::Ready(result) => OpenPoll::Ready(result),
            };
            match self.pool.settle_open(&mut sweep, ticket, polled) {
                Settled::Close(client) => self.closed.push(client),
                Settled::Dropped(ticket) => {
                    self.opens.remove(&ticket);
                }
                _ => {}
            }
        }
        let (result, wake) = sweep.finish();
        if wake {
            self.wake_tasks();
        }
        result
    }

    /// Sweeps with one call: what the opens will give is read off their scripts first.
    fn handle_futures_at_once(&mut self) -> Result<(), Failure> {
        let waiting = self.pool.info().new_len;
        let mut polls = Vec::new();
        for polled in 0..waiting {
            let ticket = self.pool.inner_mut().pop_new().unwrap();
            assert!(self.pool.inner_mut().push_new(ticket).is_ok());
            if polled < PENDING_OPEN_POLL_BUDGET {
                polls.push(match self.opens.remove(&ticket).unwrap() {
                    Script::Ready(result) => OpenPoll::Ready(result),
                    again => {
                        self.opens.insert(ticket, again);
                        OpenPoll::Pending
                    }
                });
            }
        }
        self.polls += polls.len();
        let swept = self.pool.handle_futures(polls, Vec::new());
        for task in swept.woken {
            self.wake(task);
        }
        for ticket in swept.dropped {
            self.opens.remove(&ticket);
        }
        self.closed.extend(swept.closed);
        swept.result
    }

    fn poll_with_hook(&mut self, task: u64, hook: impl FnOnce(&mut Driver)) -> Outcome {
        let swept = self.handle_futures();
        let ticket = self.ticket();
        match self.pool.poll_step(swept, ticket) {
            Step::Use(client, _) => Outcome::Ready(Ok(client)),
            Step::Fail(error) => Outcome::Ready(Err(error)),
            Step::Open(open) => {
                assert_eq!(open.pool, Some(PoolId(1)));
                self.opens.insert(ticket, Script::Pending);
                self.wake(task);
                Outcome::Pending
            }
            Step::Wait => {
                hook(self);
                if self.pool.register_task(task) {
                    self.wake(task);
                }
                Outcome::Pending
            }
        }
    }

    fn poll(&mut self, task: u64) -> Outcome {
        self.poll_with_hook(task, |_| {})
    }

    fn drop_handle(&mut self, handle: ClientHandle) {
        if let Dropped::Returned(returned) = self.pool.drop_handle(handle) {
            if returned.wakes() {
                self.wake_tasks();
            }
            match returned {
                Returned::NotOngoing(client)
                | Returned::Refused(client)
                | Returned::Close(client) => self.closed.push(client),
                Returned::Kept => {}
            }
        }
    }
}

fn synthetic_idle_client(stream: u64) -> ClientHandle {
    ClientHandle {
        inner: Some(Transport {
            stream,
            inside: true,
        }),
        context: 7,
        pool: PoolBinding::Detached(PoolId(1)),
        used: false,
    }
}

#[test]
fn test_get_addr() {
    let mut pool = Pool::new(
        PoolId(1),
        Options {
            addr: Host::parse("tcp://host1:9000").unwrap(),
            alt_hosts: vec![
                Host::parse("tcp://host2:9000").unwrap(),
                Host::parse("tcp://host3:9000").unwrap(),
            ],
            ..options(5, 10)
        },
    );

    assert_eq!(pool.get_addr(), &Host::parse("tcp://host1:9000").unwrap());
    assert_eq!(pool.get_addr(), &Host::parse("tcp://host2:9000").unwrap());
    assert_eq!(pool.get_addr(), &Host::parse("tcp://host3:9000").unwrap());
    assert_eq!(pool.get_addr(), &Host::parse("tcp://host1:9000").unwrap());
}

#[test]
fn test_get_handle_limits_pending_connections_during_cold_burst() {
    let pool_max = 16;
    let mut driver = Driver::new(0, pool_max);

    for _ in 0..3 {
        for task in 0..pool_max as u64 {
            let _ = driver.poll(task);
        }
    }

    let pending_limit = driver.pool.pending_open_limit();
    assert_eq!(driver.pool.info().new_len, pending_limit);
    assert_eq!(driver.pool.inner().pending_open_count(), pending_limit);
    assert_eq!(driver.pool.inner().conn_count(), pending_limit);
    assert!(pending_limit < pool_max);
}

#[test]
fn test_get_handle_bounds_pending_open_polling_during_cold_burst() {
    let pool_max = 16;
    let mut driver = Driver::new(0, pool_max);
    let pending_limit = driver.pool.pending_open_limit();

    for _ in 0..pending_limit {
        driver.reserve_pending_open(pool_max);
        driver.push_open(Script::Pending);
    }

    for task in 0..pool_max as u64 {
        assert!(matches!(driver.poll(task), Outcome::Pending));
    }

    let poll_count = driver.polls;
    assert_eq!(driver.pool.info().new_len, pending_limit);
    assert_eq!(driver.pool.inner().pending_open_count(), pending_limit);
    assert!(poll_count <= pool_max * PENDING_OPEN_POLL_BUDGET);
    assert!(poll_count < pool_max * pool_max);
}

#[test]
fn test_pending_open_capacity_race_self_wakes_after_registration() {
    let pool_max = 16;
    let mut driver = Driver::new(0, pool_max);
    let pending_limit = driver.pool.pending_open_limit();

    for _ in 0..pending_limit {
        driver.reserve_pending_open(pool_max);
        driver.push_open(Script::Pending);
    }

    let outcome = driver.poll_with_hook(1, |driver| {
        assert!(driver.pool.inner_mut().pop_new().is_some());
        driver.pool.inner_mut().release_pending_open();
        driver.pool.inner_mut().release_conn_slot();
        driver.wake_tasks();
    });
    assert!(matches!(outcome, Outcome::Pending));

    let info = driver.pool.info();
    assert_eq!(driver.woken(1), 1);
    assert_eq!(info.tasks_len, 1);
    assert_eq!(info.new_len, pending_limit - 1);
    assert_eq!(driver.pool.pending_open_count(), pending_limit - 1);
    assert!(driver.pool.pending_open_count() < driver.pool.pending_open_limit());
}

#[test]
fn test_max_capacity_race_self_wakes_after_registration() {
    let mut driver = Driver::new(0, 1);
    driver.reserve_conn(1);

    let outcome = driver.poll_with_hook(1, |driver| {
        driver.pool.inner_mut().release_conn_slot();
        driver.wake_tasks();
    });
    assert!(matches!(outcome, Outcome::Pending));

    let info = driver.pool.info();
    assert_eq!(driver.woken(1), 1);
    assert_eq!(info.tasks_len, 1);
    assert_eq!(driver.pool.inner().conn_count(), 0);
    assert_eq!(driver.pool.pending_open_count(), 0);
}

#[test]
fn test_pool_diagnostics_report_in_flight_pending_opens_and_limit() {
    let mut driver = Driver::new(0, 16);
    let pending_limit = driver.pool.pending_open_limit();
    driver.reserve_pending_open(16);
    driver.push_open(Script::Observe);

    driver.handle_futures().unwrap();

    assert_eq!(driver.observed, Some((0, 1, pending_limit)));

    let info = driver.pool.info();
    assert_eq!(info.new_len, 1);
    assert_eq!(driver.pool.pending_open_count(), 1);
    assert_eq!(driver.pool.pending_open_limit(), pending_limit);

    driver.handle_futures_at_once().unwrap();

    let info = driver.pool.info();
    assert_eq!(info.new_len, 1);
    assert_eq!(driver.pool.pending_open_count(), 1);
    assert_eq!(driver.pool.pending_open_limit(), pending_limit);

    let debug = driver.pool.debug_text();
    assert!(debug.contains("pending open connections count"));
    assert!(debug.contains("pending open connections limit"));
    assert_eq!(
        debug,
        "Pool { min: 0, max: 16, new connections count: 1, pending open connections count: 1, \
         pending open connections limit: 4, idle connections count: 0, tasks count: 0, \
         ongoing connections count: 0 }"
    );
}

#[test]
fn test_completed_pending_open_wakes_parked_waiter() {
    for handle_futures in SWEEPS {
        let mut driver = Driver::new(0, 1);
        driver.reserve_pending_open(1);
        driver.push_open(Script::Pending);

        assert!(matches!(driver.poll(1), Outcome::Pending));
        assert_eq!(driver.pool.info().tasks_len, 1);
        assert_eq!(driver.woken(1), 0);

        driver.replace_pending_open_with(Script::Ready(Ok(synthetic_idle_client(3))));
        handle_futures(&mut driver).unwrap();

        assert_eq!(driver.woken(1), 1);
        let handle = match driver.poll(1) {
            Outcome::Ready(Ok(handle)) => handle,
            _ => panic!("waiter did not acquire the completed pending connection"),
        };
        assert_eq!(driver.pool.info().ongoing, 1);
        driver.drop_handle(handle);
        assert_eq!(driver.pool.info().ongoing, 0);
        assert_eq!(driver.pool.inner().conn_count(), 0);
        assert_eq!(driver.pool.inner().pending_open_count(), 0);
    }
}

#[test]
fn test_pending_failure_wakes_live_waiter_after_stale_waiter() {
    for handle_futures in SWEEPS {
        let mut driver = Driver::new(0, 1);
        driver.reserve_pending_open(1);
        driver.push_open(Script::Pending);

        let stale = 1;
        let live = 2;
        assert!(matches!(driver.poll(stale), Outcome::Pending));
        assert!(matches!(driver.poll(live), Outcome::Pending));
        assert_eq!(driver.pool.info().tasks_len, 2);

        driver.replace_pending_open_with(Script::Ready(Err(Failure::Timeout)));
        assert!(handle_futures(&mut driver).is_err());

        assert_eq!(driver.woken(stale), 1);
        assert_eq!(driver.woken(live), 1);
        assert_eq!(driver.pool.info().tasks_len, 0);
        assert_eq!(driver.pool.inner().conn_count(), 0);
        assert_eq!(driver.pool.inner().pending_open_count(), 0);
    }
}

#[test]
fn test_pending_open_wakes_parked_waiter() {
    for handle_futures in SWEEPS {
        let pool_max = 2;
        let mut driver = Driver::new(0, pool_max);
        for _ in 0..pool_max {
            driver.reserve_pending_open(pool_max);
            driver.push_open(Script::Pending);
        }

        // Both waiters share one waker.
        for _ in 0..pool_max {
            assert!(matches!(driver.poll(1), Outcome::Pending));
        }
        assert_eq!(driver.pool.info().tasks_len, pool_max);
        assert_eq!(driver.woken(1), 0);

        for _ in 0..pool_max {
            driver.replace_pending_open_with(Script::Ready(Err(Failure::Timeout)));
        }

        assert!(handle_futures(&mut driver).is_err());

        assert_eq!(driver.woken(1), pool_max);
        assert_eq!(driver.pool.info().tasks_len, 0);
        assert_eq!(driver.pool.info().new_len, 0);
        assert_eq!(driver.pool.inner().conn_count(), 0);
        assert_eq!(driver.pool.inner().pending_open_count(), 0);
    }
}

#[test]
fn test_returned_to_idle_retains_conn_slot_when_pool_min_keeps_idle() {
    let mut driver = Driver::new(1, 2);
    driver.reserve_conn(2);
    assert!(driver
        .pool
        .inner_mut()
        .push_idle(synthetic_idle_client(3))
        .is_ok());

    let handle = match driver.poll(1) {
        Outcome::Ready(Ok(handle)) => handle,
        other => panic!("no handle: {:?}", other),
    };
    assert_eq!(driver.pool.info().idle_len, 0);
    assert_eq!(driver.pool.info().ongoing, 1);
    assert_eq!(driver.pool.inner().conn_count(), 1);

    driver.drop_handle(handle);

    assert_eq!(driver.pool.info().ongoing, 0);
    assert_eq!(driver.pool.info().idle_len, 1);
    assert_eq!(driver.pool.inner().conn_count(), 1);
}

#[test]
fn test_get_handle_returns_idle_when_pending_connection_fails() {
    let mut driver = Driver::new(0, 10);
    driver.reserve_conn(10);
    assert!(driver
        .pool
        .inner_mut()
        .push_idle(synthetic_idle_client(3))
        .is_ok());
    driver.reserve_pending_open(10);
    driver.push_open(Script::Ready(Err(Failure::Timeout)));

    let handle = match driver.poll(1) {
        Outcome::Ready(Ok(handle)) => handle,
        other => panic!("no handle: {:?}", other),
    };

    let info = driver.pool.info();
    assert_eq!(info.new_len, 0);
    assert_eq!(info.idle_len, 0);
    assert_eq!(info.ongoing, 1);
    assert_eq!(driver.pool.inner().conn_count(), 1);
    driver.drop_handle(handle);
    assert_eq!(driver.pool.info().ongoing, 0);
    assert_eq!(driver.pool.inner().conn_count(), 0);
    assert_eq!(driver.pool.inner().pending_open_count(), 0);
}

#[test]
fn test_handle_futures_drops_ready_connection_when_idle_full() {
    for handle_futures in SWEEPS {
        let pool_max = 2;
        let mut driver = Driver::new(0, pool_max);

        for stream in 0..pool_max as u64 {
            driver.reserve_conn(pool_max);
            assert!(driver
                .pool
                .inner_mut()
                .push_idle(synthetic_idle_client(stream))
                .is_ok());
        }

        // One connection more than the pool allows.
        driver.reserve_conn(pool_max + 1);
        let limit = driver.pool.pending_open_limit();
        assert!(driver.pool.inner_mut().try_reserve_pending_open(limit));
        driver.push_open(Script::Ready(Ok(synthetic_idle_client(9))));

        driver.pool.inner_mut().push_task(1);

        assert_eq!(driver.pool.info().tasks_len, 1);
        handle_futures(&mut driver).unwrap();

        let info = driver.pool.info();
        assert_eq!(info.new_len, 0);
        assert_eq!(info.idle_len, pool_max);
        assert_eq!(info.tasks_len, 0);
        assert_eq!(driver.woken(1), 1);
        assert_eq!(driver.pool.inner().conn_count(), pool_max);
        assert_eq!(driver.pool.inner().pending_open_count(), 0);
        assert_eq!(driver.closed, vec![synthetic_idle_client(9)]);
    }
}

#[test]
fn a_used_connection_is_idle_again() {
    let mut driver = Driver::new(5, 10);
    assert!(matches!(driver.poll(1), Outcome::Pending));
    driver.replace_pending_open_with(Script::Ready(Ok(synthetic_idle_client(3))));
    let handle = match driver.poll(1) {
        Outcome::Ready(Ok(handle)) => handle,
        other => panic!("no handle: {:?}", other),
    };
    assert_eq!(
        handle,
        ClientHandle {
            inner: Some(Transport {
                stream: 3,
                inside: false
            }),
            context: 7,
            pool: PoolBinding::Attached(PoolId(1)),
            used: true,
        }
    );
    driver.drop_handle(handle);

    let info = driver.pool.info();
    assert_eq!(info.ongoing, 0);
    assert_eq!(info.idle_len, 1);
    assert_eq!(
        driver.pool.inner_mut().pop_idle(),
        Some(ClientHandle {
            inner: Some(Transport {
                stream: 3,
                inside: true
            }),
            context: 7,
            pool: PoolBinding::Unbound,
            used: false,
        })
    );
}

#[test]
fn a_detached_connection_is_closed() {
    let mut driver = Driver::new(5, 10);
    assert!(matches!(driver.poll(1), Outcome::Pending));
    driver.replace_pending_open_with(Script::Ready(Ok(synthetic_idle_client(3))));
    let mut handle = match driver.poll(1) {
        Outcome::Ready(Ok(handle)) => handle,
        other => panic!("no handle: {:?}", other),
    };
    handle.pool.detach();
    driver.drop_handle(handle);
    assert_eq!(driver.pool.info().idle_len, 0);
    assert_eq!(driver.pool.info().ongoing, 0);
    assert_eq!(driver.pool.inner().conn_count(), 0);
    assert_eq!(driver.closed.len(), 1);
}

#[test]
fn only_the_minimum_of_connections_stays_idle() {
    let (pool_min, pool_max) = (6, 12);
    let mut driver = Driver::new(pool_min, pool_max);
    let mut handles = Vec::new();
    for stream in 0..pool_max as u64 {
        assert!(matches!(driver.poll(stream), Outcome::Pending));
        driver.replace_pending_open_with(Script::Ready(Ok(synthetic_idle_client(stream))));
        match driver.poll(stream) {
            Outcome::Ready(Ok(handle)) => handles.push(handle),
            other => panic!("no handle: {:?}", other),
        }
    }
    assert_eq!(driver.pool.info().ongoing, pool_max);
    assert!(matches!(driver.poll(99), Outcome::Pending));
    assert_eq!(driver.pool.info().tasks_len, 1);
    assert_eq!(driver.woken(99), 0);

    for handle in handles {
        driver.drop_handle(handle);
    }
    assert_eq!(driver.woken(99), 1);
    assert_eq!(driver.pool.info().idle_len, 6);
    assert_eq!(driver.pool.info().ongoing, 0);
    assert_eq!(driver.pool.inner().conn_count(), 6);
}

#[test]
fn a_lost_connection_frees_its_slot() {
    let mut driver = Driver::new(5, 10);
    driver.reserve_conn(10);
    assert!(driver
        .pool
        .inner_mut()
        .push_idle(synthetic_idle_client(3))
        .is_ok());
    let mut handle = match driver.poll(1) {
        Outcome::Ready(Ok(handle)) => handle,
        other => panic!("no handle: {:?}", other),
    };
    driver.pool.inner_mut().push_task(8);
    driver.pool.inner_mut().push_task(9);
    handle.inner = None;
    assert!(driver.pool.inner_mut().release_conn());
    assert_eq!(driver.pool.inner_mut().wake_tasks(Vec::new()), vec![8, 9]);
    assert!(matches!(driver.pool.drop_handle(handle), Dropped::Nothing));

    let info = driver.pool.info();
    assert_eq!(info.ongoing, 0);
    assert_eq!(info.tasks_len, 0);
    assert_eq!(info.idle_len, 0);
    assert_eq!(driver.pool.inner().conn_count(), 0);
    assert!(!driver.pool.inner_mut().release_conn());
}

#[test]
fn a_client_that_nobody_took_is_not_counted() {
    let mut driver = Driver::new(5, 10);
    let client = ClientHandle {
        pool: PoolBinding::Attached(PoolId(1)),
        ..synthetic_idle_client(3)
    };
    assert!(matches!(
        driver.pool.return_conn(client),
        Returned::NotOngoing(_)
    ));
    assert_eq!(driver.pool.info().idle_len, 0);

    assert!(matches!(
        driver.pool.drop_handle(synthetic_idle_client(4)),
        Dropped::CloseUnused(Transport { stream: 4, .. })
    ));
    assert!(matches!(
        driver.pool.drop_handle(ClientHandle {
            pool: PoolBinding::Unbound,
            ..synthetic_idle_client(5)
        }),
        Dropped::Close(Transport { stream: 5, .. })
    ));
}

#[test]
fn the_first_of_several_errors_is_returned() {
    let mut driver = Driver::new(0, 4);
    for failure in [Failure::Refused, Failure::Timeout] {
        driver.reserve_pending_open(4);
        driver.push_open(Script::Ready(Err(failure)));
    }
    match driver.poll(1) {
        Outcome::Ready(Err(error)) => assert_eq!(error, Failure::Refused),
        other => panic!("no error: {:?}", other),
    }
    assert_eq!(driver.pool.inner().conn_count(), 0);
    assert_eq!(driver.pool.pending_open_count(), 0);
}

#[test]
fn a_whole_poll_in_one_call() {
    let mut pool = Pool::new(PoolId(4), options(1, 2));
    let asked = pool.poll::<Failure>(Vec::new(), Vec::new(), 11, 1);
    assert!(asked.result.is_none());
    assert!(asked.wake_self);
    let open = asked.opened.unwrap();
    assert_eq!(open.max_attempts, 3);
    assert_eq!(open.retry_timeout, Delay { secs: 5, nanos: 0 });
    assert_eq!(pool.info().new_len, 1);

    let asked = pool.poll::<Failure>(vec![OpenPoll::Pending], Vec::new(), 12, 2);
    assert!(asked.opened.is_some());
    let asked = pool.poll::<Failure>(
        vec![OpenPoll::Pending, OpenPoll::Pending],
        Vec::new(),
        13,
        3,
    );
    assert!(asked.result.is_none() && asked.opened.is_none() && !asked.wake_self);
    assert_eq!(pool.info().tasks_len, 1);

    let asked = pool.poll::<Failure>(
        vec![
            OpenPoll::Ready(Ok(synthetic_idle_client(3))),
            OpenPoll::Ready(Err(Failure::Timeout)),
        ],
        vec![vec![7], Vec::new(), vec![8]],
        14,
        4,
    );
    // The task that a waker put back is woken too.
    assert_eq!(asked.woken, vec![3, 7]);
    assert_eq!(pool.info().tasks_len, 0);
    assert!(matches!(asked.result, Some(Ok(_))));
    assert_eq!(asked.passed_over, vec![Failure::Timeout]);
    assert_eq!(pool.inner().conn_count(), 1);
    assert_eq!(pool.info().new_len, 0);

    // The failed open left room for another one.
    let asked = pool.poll::<Failure>(Vec::new(), Vec::new(), 15, 5);
    assert!(asked.opened.is_some());
    let asked = pool.poll(
        vec![OpenPoll::Ready(Err(Failure::Refused))],
        Vec::new(),
        16,
        6,
    );
    assert!(matches!(asked.result, Some(Err(Failure::Refused))));
}

#[test]
fn opens_are_polled_in_turn_and_wait_again_in_order() {
    let mut pool = Pool::new(PoolId(1), options(0, 16));
    for ticket in 1..5 {
        assert!(pool.inner_mut().try_reserve_conn(16));
        assert!(pool.inner_mut().try_reserve_pending_open(4));
        assert!(pool.inner_mut().push_new(ticket).is_ok());
    }
    assert!(!pool.inner_mut().try_reserve_pending_open(4));
    assert_eq!(pool.inner_mut().push_new(5), Err(5));
    let swept = pool.handle_futures::<Failure>(
        vec![
            OpenPoll::Pending,
            OpenPoll::Ready(Ok(synthetic_idle_client(3))),
            OpenPoll::Pending,
            OpenPoll::Pending,
        ],
        Vec::new(),
    );
    assert!(swept.result.is_ok() && swept.woken.is_empty());
    assert!(swept.closed.is_empty() && swept.dropped.is_empty());
    assert_eq!(pool.pending_open_count(), 3);
    assert_eq!(pool.info().idle_len, 1);
    assert_eq!(pool.inner_mut().pop_new(), Some(1));
    assert_eq!(pool.inner_mut().pop_new(), Some(3));
    assert_eq!(pool.inner_mut().pop_new(), Some(4));
    assert_eq!(pool.inner_mut().pop_new(), None);
}

#[test]
fn a_sweep_without_news_changes_nothing() {
    let mut pool = Pool::new(PoolId(1), options(0, 3));
    for ticket in 1..4 {
        assert!(pool.inner_mut().try_reserve_conn(3));
        assert!(pool.inner_mut().try_reserve_pending_open(3));
        assert!(pool.inner_mut().push_new(ticket).is_ok());
    }
    pool.inner_mut().push_task(9);
    let before = pool.debug_text();
    let swept = pool.handle_futures::<Failure>(
        vec![
            OpenPoll::Pending,
            OpenPoll::Pending,
            OpenPoll::Pending,
        ],
        Vec::new(),
    );
    assert!(swept.result.is_ok() && swept.woken.is_empty());
    assert_eq!(pool.debug_text(), before);
    for ticket in 1..4 {
        assert_eq!(pool.inner_mut().pop_new(), Some(ticket));
    }
}

#[test]
fn a_sweep_reports_what_it_cannot_keep() {
    let mut pool = Pool::new(PoolId(1), options(0, 3));
    for stream in 0..3 {
        assert!(pool.inner_mut().push_idle(synthetic_idle_client(stream)).is_ok());
    }
    assert_eq!(
        pool.inner_mut().push_idle(synthetic_idle_client(8)),
        Err(synthetic_idle_client(8))
    );
    for ticket in 1..4 {
        assert!(pool.inner_mut().push_new(ticket).is_ok());
    }
    let swept = pool.handle_futures(
        vec![
            OpenPoll::Ready(Err(Failure::Refused)),
            OpenPoll::Ready(Ok(synthetic_idle_client(9))),
            OpenPoll::Ready(Err(Failure::Timeout)),
        ],
        Vec::new(),
    );
    assert_eq!(swept.result, Err(Failure::Refused));
    assert_eq!(swept.later_errors, vec![Failure::Timeout]);
    assert_eq!(swept.closed, vec![synthetic_idle_client(9)]);
    assert!(swept.dropped.is_empty());
    assert_eq!(pool.inner().conn_count(), 0);
    assert_eq!(pool.pending_open_count(), 0);
}

#[test]
fn slots_are_taken_up_to_the_limit_and_freed() {
    let mut pool = Pool::new(PoolId(1), options(0, 2));
    assert!(!pool.inner_mut().release_conn_slot());
    assert!(pool.inner_mut().try_reserve_conn(2));
    assert!(pool.inner_mut().try_reserve_conn(2));
    assert!(!pool.inner_mut().try_reserve_conn(2));
    assert_eq!(pool.inner().conn_count(), 2);
    assert!(pool.inner_mut().release_conn_slot());
    assert_eq!(pool.inner().conn_count(), 1);
    assert!(!pool.inner_mut().release_pending_open());
    assert!(pool.inner_mut().try_reserve_pending_open(1));
    assert!(!pool.inner_mut().try_reserve_pending_open(1));
    assert!(pool.inner_mut().release_pending_open());
    assert_eq!(pool.pending_open_count(), 0);
}

#[test]
fn idle_clients_and_tasks_come_out_in_order() {
    let mut pool = Pool::new(PoolId(1), options(0, 4));
    for key in 1..4 {
        assert!(pool.inner_mut().push_idle(synthetic_idle_client(key)).is_ok());
        pool.inner_mut().push_task(key);
    }
    assert_eq!(pool.inner_mut().wake_tasks(Vec::new()), vec![1, 2, 3]);
    assert!(pool.inner_mut().wake_tasks(Vec::new()).is_empty());
    assert_eq!(pool.inner_mut().next_task(), None);
    for key in 1..4 {
        let client = pool.take_conn().unwrap();
        assert_eq!(client.inner.unwrap().stream, key);
        assert_eq!(client.pool, PoolBinding::Attached(PoolId(1)));
    }
    assert_eq!(pool.inner().ongoing_count(), 3);
}

#[test]
fn a_task_that_is_put_back_while_it_is_woken_is_woken_again() {
    let mut driver = Driver::new(0, 2);
    driver.pool.inner_mut().push_task(1);
    driver.pool.inner_mut().push_task(2);
    let mut put_back = 2;
    let mut order = Vec::new();
    while let Some(task) = driver.pool.inner_mut().next_task() {
        order.push(task);
        if task == 1 && put_back > 0 {
            put_back -= 1;
            assert!(driver.pool.register_task(task));
        }
    }
    assert_eq!(order, vec![1, 2, 1, 1]);
    assert_eq!(driver.pool.info().tasks_len, 0);

    driver.pool.inner_mut().push_task(1);
    driver.pool.inner_mut().push_task(2);
    let parks = vec![vec![1], Vec::new(), vec![1]];
    assert_eq!(driver.pool.inner_mut().wake_tasks(parks), vec![1, 2, 1, 1]);
    assert_eq!(driver.pool.info().tasks_len, 0);

    // Nobody is woken, so nothing is put back.
    assert!(driver.pool.inner_mut().wake_tasks(vec![vec![1]]).is_empty());
    assert_eq!(driver.pool.info().tasks_len, 0);
}

#[test]
fn a_surplus_connection_is_closed() {
    let mut driver = Driver::new(1, 3);
    for stream in 0..3 {
        driver.reserve_conn(3);
        assert!(driver.pool.inner_mut().push_idle(synthetic_idle_client(stream)).is_ok());
    }
    let taken = driver.pool.take_conn().unwrap();
    match driver.pool.return_conn(taken) {
        Returned::Close(client) => assert_eq!(client.inner.unwrap().stream, 0),
        other => panic!("not closed: {:?}", other),
    }
    assert_eq!(driver.pool.info().idle_len, 2);
    assert_eq!(driver.pool.info().ongoing, 0);
    assert_eq!(driver.pool.inner().conn_count(), 2);
}

#[test]
fn a_returned_connection_without_room_is_refused() {
    let mut driver = Driver::new(5, 1);
    driver.reserve_conn(1);
    assert!(driver.pool.inner_mut().push_idle(synthetic_idle_client(3)).is_ok());
    let taken = driver.pool.take_conn().unwrap();
    assert!(driver.pool.inner_mut().push_idle(synthetic_idle_client(4)).is_ok());
    match driver.pool.return_conn(taken) {
        Returned::Refused(client) => assert_eq!(client.inner.unwrap().stream, 3),
        other => panic!("not refused: {:?}", other),
    }
    assert_eq!(driver.pool.info().ongoing, 0);
    assert_eq!(driver.pool.info().idle_len, 1);
    assert_eq!(driver.pool.inner().conn_count(), 0);
}

#[test]
fn an_open_without_room_is_given_up() {
    let mut pool = Pool::new(PoolId(1), options(0, 1));
    assert!(pool.inner_mut().try_reserve_conn(1));
    assert!(pool.inner_mut().try_reserve_pending_open(1));
    assert!(pool.inner_mut().push_new(1).is_ok());
    let mut sweep = pool.begin_sweep::<Failure>();
    assert_eq!(pool.next_open(&mut sweep), Some(1));
    assert!(pool.inner_mut().push_new(2).is_ok());
    pool.inner_mut().push_task(6);
    assert!(matches!(
        pool.settle_open(&mut sweep, 1, OpenPoll::Pending),
        Settled::Dropped(1)
    ));
    assert_eq!(pool.next_open(&mut sweep), None);
    let (result, wake) = sweep.finish();
    assert!(result.is_ok() && wake);
    assert_eq!(pool.inner_mut().wake_tasks(Vec::new()), vec![6]);
    assert_eq!(pool.inner().conn_count(), 0);
    assert_eq!(pool.pending_open_count(), 0);
}

#[test]
fn a_pool_without_options_has_defaults() {
    let pool = Pool::new(PoolId(2), OptionsSource::Invalid);
    assert_eq!(
        pool.debug_fields()[..2],
        [("min", 5), ("max", 10)]
    );
    let open = pool.new_connection();
    assert_eq!(open.max_attempts, 0);
    assert_eq!(open.retry_timeout, Delay { secs: 0, nanos: 0 });
    assert!(!pool.names_text_port());
    assert_eq!(pool.get_handle().pool, PoolId(2));
}

#[test]
fn the_limit_on_opens() {
    assert_eq!(pending_open_limit(0), 0);
    assert_eq!(pending_open_limit(3), 3);
    assert_eq!(pending_open_limit(4), 4);
    assert_eq!(pending_open_limit(16), 4);
}

#[test]
fn numbers_are_written_in_decimal() {
    let pool = Pool::new(PoolId(1), options(1203, 65536));
    assert!(pool.debug_text().starts_with("Pool { min: 1203, max: 65536, new"));
}

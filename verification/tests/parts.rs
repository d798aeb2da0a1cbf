//! The parts that a pool is made of.

use clickhouse_pool::{
    Attempt, ClientHandle, Delay, HandleDrop, Host, IntoOptions, InvalidOptions, InvalidUrl,
    IoErrorKind, Options, OptionsSource, Pool, PoolBinding, PoolId, Retry, RetryOpen, Transport,
};

fn opening(max_attempts: usize) -> RetryOpen {
    RetryOpen {
        pool: Some(PoolId(1)),
        attempt: 0,
        max_attempts,
        retry_timeout: Delay { secs: 2, nanos: 5 },
    }
}

#[test]
fn a_refused_connection_is_tried_again() {
    let mut open = opening(2);
    let sleep = Retry::Sleep(Delay { secs: 2, nanos: 5 });
    assert_eq!(
        open.retry_open(Attempt::Io(IoErrorKind::ConnectionRefused)),
        sleep
    );
    assert_eq!(open.attempt, 1);
    assert_eq!(open.retry_open(Attempt::Io(IoErrorKind::BrokenPipe)), sleep);
    assert_eq!(open.attempt, 2);
    assert_eq!(
        open.retry_open(Attempt::Io(IoErrorKind::BrokenPipe)),
        Retry::Return
    );
    assert_eq!(open.attempt, 2);
}

#[test]
fn without_retries_a_refusal_is_returned() {
    let mut open = opening(0);
    assert_eq!(
        open.retry_open(Attempt::Io(IoErrorKind::ConnectionRefused)),
        Retry::Return
    );
}

#[test]
fn other_ends_of_an_attempt() {
    let mut open = opening(2);
    assert_eq!(open.retry_open(Attempt::Connected), Retry::Return);
    assert_eq!(open.retry_open(Attempt::Failed), Retry::Return);
    assert_eq!(
        open.retry_open(Attempt::Io(IoErrorKind::Other)),
        Retry::Again
    );
    assert_eq!(open, opening(2));
}

#[test]
fn bindings_are_attached_and_detached() {
    let mut binding = PoolBinding::Attached(PoolId(3));
    assert!(binding.is_attached() && binding.is_some());
    binding.detach();
    assert_eq!(binding, PoolBinding::Detached(PoolId(3)));
    assert!(!binding.is_attached() && binding.is_some());
    binding.attach();
    assert_eq!(binding, PoolBinding::Attached(PoolId(3)));

    assert_eq!(Option::from(binding.clone()), Some(PoolId(3)));
    assert_eq!(
        Option::from(PoolBinding::Detached(PoolId(4))),
        Some(PoolId(4))
    );
    assert_eq!(Option::<PoolId>::from(PoolBinding::Unbound), None);

    assert_eq!(binding.take(), PoolBinding::Attached(PoolId(3)));
    assert_eq!(binding, PoolBinding::Unbound);
    assert!(!binding.is_some());
}

#[test]
fn a_client_that_goes_out_of_scope() {
    let mut client = ClientHandle {
        inner: Some(Transport {
            stream: 8,
            inside: false,
        }),
        context: 2,
        pool: PoolBinding::Detached(PoolId(1)),
        used: true,
    };
    assert_eq!(
        client.on_drop(),
        HandleDrop::GiveBack(ClientHandle {
            inner: Some(Transport {
                stream: 8,
                inside: false
            }),
            context: 2,
            pool: PoolBinding::Detached(PoolId(1)),
            used: false,
        })
    );
    assert_eq!(client.inner, None);
    assert_eq!(client.pool, PoolBinding::Unbound);
    assert_eq!(client.on_drop(), HandleDrop::Nothing);
}

#[test]
fn addresses_are_brought_to_normal_form() {
    let host = Host::parse("TCP://host1:8123").unwrap();
    assert_eq!(host.url(), "tcp://host1:8123");
    assert_eq!(host.port(), Some(8123));
    assert_eq!(Host::parse("tcp://host1").unwrap().port(), None);
    assert_eq!(Host::parse("no url"), Err(InvalidUrl));
}

#[test]
fn the_port_of_the_text_protocol_is_noticed() {
    let options = |alt: &str| Options {
        addr: Host::parse("tcp://host1:9000").unwrap(),
        alt_hosts: vec![Host::parse(alt).unwrap()],
        pool_min: 1,
        pool_max: 1,
        send_retries: 0,
        retry_timeout: Delay { secs: 0, nanos: 0 },
    };
    assert!(Pool::new(PoolId(1), options("tcp://host2:8123")).names_text_port());
    assert!(!Pool::new(PoolId(1), options("tcp://host2:9000")).names_text_port());
    let source = options("tcp://host2:9000").into_options_src();
    assert_eq!(source.get().unwrap().pool_max, 1);
    assert_eq!(
        OptionsSource::Invalid.get().err(),
        Some(InvalidOptions)
    );
}

#[test]
fn a_binding_gives_a_client_back() {
    let mut pool = Pool::new(PoolId(1), OptionsSource::Invalid);
    let client = || ClientHandle {
        inner: Some(Transport {
            stream: 8,
            inside: false,
        }),
        context: 2,
        pool: PoolBinding::Attached(PoolId(1)),
        used: true,
    };
    assert!(PoolBinding::Unbound.return_conn(&mut pool, client()).is_none());
    assert!(pool.inner_mut().push_idle(client()).is_ok());
    assert!(pool.inner_mut().try_reserve_conn(10));
    let taken = pool.take_conn().unwrap();
    assert_eq!(pool.info().ongoing, 1);
    assert!(PoolBinding::Attached(PoolId(1)).return_conn(&mut pool, taken).is_some());
    assert_eq!(pool.info().ongoing, 0);
    assert_eq!(pool.info().idle_len, 1);
    assert!(pool.take_conn().is_some());
    assert!(pool.take_conn().is_none());
}

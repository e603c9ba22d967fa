use hkcp::{ConnectionPool, ConnectionPoolConfig, GetStep, HkcpError, InitStep};

#[derive(Debug, PartialEq)]
struct FakeConnection {
    id: u32,
}

/// What opening a connection with a driver that answers after
/// `connect_millis` gives, under a connect timeout of `timeout_millis`.
fn fake_connect(id: u32, connect_millis: u32, timeout_millis: u32) -> Result<FakeConnection, HkcpError> {
    if connect_millis <= timeout_millis {
        Ok(FakeConnection { id })
    } else {
        Err(HkcpError::new(String::from("timed out waiting on channel")))
    }
}

/// Builds a pool through a driver that answers after `connect_millis`,
/// opening connections while the pool asks for them; returns the pool (or
/// the error) and how many connections were attempted.
fn build(
    mut pool: ConnectionPool<FakeConnection>,
    connect_millis: u32,
    fail_from: u32,
) -> (Result<ConnectionPool<FakeConnection>, HkcpError>, u32) {
    let timeout = pool.config().connect_timeout_millis;
    let mut attempts: u32 = 0;
    let mut step = pool.initial_step();
    loop {
        step = match step {
            InitStep::Connect => {
                attempts += 1;
                let outcome = if attempts >= fail_from {
                    Err(HkcpError::new(String::from("refused")))
                } else {
                    fake_connect(attempts, connect_millis, timeout)
                };
                pool.initial_connection_created(outcome)
            }
            InitStep::Done => return (Ok(pool), attempts),
            InitStep::Failed(e) => return (Err(e), attempts),
        }
    }
}

/// A pool that opened its initial connections through a driver that answers
/// after `connect_millis`.
fn new_pool(
    connect_millis: u32,
    config: ConnectionPoolConfig,
) -> Result<ConnectionPool<FakeConnection>, HkcpError> {
    build(ConnectionPool::new_with_config(config), connect_millis, u32::MAX).0
}

/// A request for a connection in a single thread, where every connection
/// is valid and nobody gives a connection back during a wait, so that a
/// wait times out.
fn get(pool: &mut ConnectionPool<FakeConnection>, id: u32, connect_millis: u32) -> Result<FakeConnection, HkcpError> {
    let timeout = pool.config().connect_timeout_millis;
    let mut step = pool.get_connection();
    loop {
        step = match step {
            GetStep::Ready(conn) => return Ok(conn),
            GetStep::Failed(e) => return Err(e),
            GetStep::Validate(conn) => pool.check_connection(conn, true),
            GetStep::ValidateAfterWait(conn) => pool.check_waited_connection(conn, true),
            GetStep::Connect => {
                return pool.connection_created(fake_connect(id, connect_millis, timeout));
            }
            GetStep::Wait => pool.wait_finished(true),
        }
    }
}

fn default_pool() -> ConnectionPool<FakeConnection> {
    build(ConnectionPool::new(), 0, u32::MAX).0.unwrap()
}

#[test]
fn test_pool_max_size_ok() {
    let mut my_pool = default_pool();

    let mut conns = vec![];
    for i in 0..2 {
        conns.push(get(&mut my_pool, 10 + i, 0).ok().unwrap());
    }
}

#[test]
fn test_pool_acquire_release() {
    let mut my_pool = default_pool();

    let conn1 = get(&mut my_pool, 10, 0).ok().unwrap();
    let conn2 = get(&mut my_pool, 11, 0).ok().unwrap();
    my_pool.release_connection(conn1);
    let conn3 = get(&mut my_pool, 12, 0).ok().unwrap();
    my_pool.release_connection(conn2);
    my_pool.release_connection(conn3);
}

#[test]
fn initial_connect_timeout_err() {
    let new_result = new_pool(150, ConnectionPoolConfig::new(1, 1, 100, 100));
    assert!(new_result.is_err())
}

#[test]
fn connect_timeout_err() {
    let new_result = new_pool(150, ConnectionPoolConfig::new(0, 1, 100, 100));
    assert!(new_result.is_ok());
    let fail_first = get(&mut new_result.unwrap(), 1, 150);
    assert!(fail_first.is_err());
}

#[test]
fn connect_timeout_ok() {
    let new_result = new_pool(80, ConnectionPoolConfig::new(1, 1, 100, 100));
    assert!(new_result.is_ok())
}

#[test]
fn config_new_keeps_values() {
    let config = ConnectionPoolConfig::new(3, 7, 250, 900);
    assert_eq!(config.initial_connections, 3);
    assert_eq!(config.max_connections, 7);
    assert_eq!(config.connect_timeout_millis, 250);
    assert_eq!(config.get_timeout_millis, 900);
}

#[test]
fn default_config() {
    let pool: ConnectionPool<FakeConnection> = ConnectionPool::new();
    let config = pool.config();
    assert_eq!(config.initial_connections, 1);
    assert_eq!(config.max_connections, 2);
    assert_eq!(config.connect_timeout_millis, 500);
    assert_eq!(config.get_timeout_millis, 5000);
    assert_eq!(pool.current_connections_num(), 0);
    assert_eq!(pool.idle_connections(), 0);
}

#[test]
fn initial_connections_are_idle_and_counted() {
    let pool = new_pool(0, ConnectionPoolConfig::new(3, 5, 100, 100)).unwrap();
    assert_eq!(pool.current_connections_num(), 3);
    assert_eq!(pool.connections_opened(), 3);
    assert_eq!(pool.idle_connections(), 3);
}

#[test]
fn idle_connection_is_reused_before_connecting() {
    let mut pool = new_pool(0, ConnectionPoolConfig::new(1, 5, 100, 100)).unwrap();
    match pool.get_connection() {
        GetStep::Validate(conn) => assert_eq!(conn, FakeConnection { id: 1 }),
        _ => panic!("an idle connection is validated first"),
    }
    assert_eq!(pool.idle_connections(), 0);
    assert_eq!(pool.current_connections_num(), 1);
}

#[test]
fn new_connection_counted_twice() {
    let mut pool = new_pool(0, ConnectionPoolConfig::new(1, 5, 100, 100)).unwrap();
    let first = get(&mut pool, 10, 0).unwrap();
    assert_eq!(first, FakeConnection { id: 1 });
    let second = get(&mut pool, 20, 0).unwrap();
    assert_eq!(second, FakeConnection { id: 20 });
    assert_eq!(pool.current_connections_num(), 3);
    assert_eq!(pool.connections_opened(), 2);
    assert_eq!(pool.idle_connections(), 0);
}

#[test]
fn released_connection_is_handed_out_again() {
    let mut pool = new_pool(0, ConnectionPoolConfig::new(1, 1, 100, 100)).unwrap();
    let conn = get(&mut pool, 10, 0).unwrap();
    assert_eq!(conn, FakeConnection { id: 1 });
    pool.release_connection(conn);
    assert_eq!(pool.idle_connections(), 1);
    let again = get(&mut pool, 11, 0).unwrap();
    assert_eq!(again, FakeConnection { id: 1 });
}

#[test]
fn get_waits_at_max_then_times_out() {
    let mut pool = new_pool(0, ConnectionPoolConfig::new(1, 1, 100, 100)).unwrap();
    let succeeds_immediately = get(&mut pool, 10, 0);
    assert!(succeeds_immediately.is_ok());
    // The pool is at its maximum: the next request waits.
    match pool.get_connection() {
        GetStep::Wait => {}
        _ => panic!("a pool at its maximum waits"),
    }
    // A connection comes back during the wait.
    pool.release_connection(succeeds_immediately.unwrap());
    let conn = match pool.wait_finished(false) {
        GetStep::ValidateAfterWait(conn) => conn,
        _ => panic!("the connection given back is validated"),
    };
    let succeeds_delayed = match pool.check_waited_connection(conn, true) {
        GetStep::Ready(conn) => conn,
        _ => panic!("a valid connection is handed out"),
    };
    assert_eq!(succeeds_delayed, FakeConnection { id: 1 });
    // Nobody gives a connection back now: the wait times out.
    let fails = get(&mut pool, 11, 0);
    let err = fails.unwrap_err();
    assert_eq!(err.to_string(), String::from("No available connection in pool"));
}

#[test]
fn wait_without_release_fails() {
    let mut pool = new_pool(0, ConnectionPoolConfig::new(0, 0, 100, 100)).unwrap();
    match pool.wait_finished(false) {
        GetStep::Failed(e) => assert_eq!(e.description(), "No available connection in pool"),
        _ => panic!("an empty bag fails the request"),
    }
}

#[test]
fn invalid_connection_is_discarded() {
    let mut pool = new_pool(0, ConnectionPoolConfig::new(1, 1, 100, 100)).unwrap();
    let conn = match pool.get_connection() {
        GetStep::Validate(conn) => conn,
        _ => panic!("the idle connection is validated"),
    };
    // The factory finds it invalid: it is dropped, one fewer is counted and
    // the request starts over, with room for a new connection.
    match pool.check_connection(conn, false) {
        GetStep::Connect => {}
        _ => panic!("the request opens a new connection"),
    }
    assert_eq!(pool.current_connections_num(), 0);
}

#[test]
fn invalid_connection_after_wait_is_discarded() {
    let mut pool = new_pool(0, ConnectionPoolConfig::new(1, 1, 100, 100)).unwrap();
    let conn = get(&mut pool, 10, 0).unwrap();
    pool.release_connection(conn);
    let conn = match pool.wait_finished(false) {
        GetStep::ValidateAfterWait(conn) => conn,
        _ => panic!("the connection given back is validated"),
    };
    match pool.check_waited_connection(conn, false) {
        GetStep::Connect => {}
        _ => panic!("with room again the request opens a new connection"),
    }
    assert_eq!(pool.current_connections_num(), 0);
}

#[test]
fn connect_failure_keeps_message() {
    let mut pool = new_pool(0, ConnectionPoolConfig::new(0, 1, 100, 100)).unwrap();
    let r = pool.connection_created(Err(HkcpError::new(String::from("refused"))));
    assert_eq!(r.unwrap_err().to_string(), String::from("refused"));
    assert_eq!(pool.current_connections_num(), 0);
    assert_eq!(pool.connections_opened(), 0);
}

#[test]
fn initial_connection_failure_keeps_message() {
    let mut pool: ConnectionPool<FakeConnection> =
        ConnectionPool::new_with_config(ConnectionPoolConfig::new(1, 1, 100, 100));
    match pool.initial_connection_created(Err(HkcpError::new(String::from("no route")))) {
        InitStep::Failed(e) => assert_eq!(e.description(), "no route"),
        _ => panic!("a failed initial connection fails the building"),
    }
    assert_eq!(pool.idle_connections(), 0);
}

#[test]
fn building_opens_exactly_the_initial_connections() {
    let (pool, attempts) = build(
        ConnectionPool::new_with_config(ConnectionPoolConfig::new(4, 6, 100, 100)),
        0,
        u32::MAX,
    );
    let pool = pool.unwrap();
    assert_eq!(attempts, 4);
    assert_eq!(pool.idle_connections(), 4);
    assert_eq!(pool.current_connections_num(), 4);
    assert_eq!(pool.lent_connections(), 0);
}

#[test]
fn building_stops_at_first_failure() {
    let (pool, attempts) = build(
        ConnectionPool::new_with_config(ConnectionPoolConfig::new(5, 6, 100, 100)),
        0,
        3,
    );
    assert_eq!(attempts, 3);
    assert_eq!(pool.err().unwrap().to_string(), String::from("refused"));
}

#[test]
fn building_without_initial_connections_attempts_none() {
    let (pool, attempts) = build(
        ConnectionPool::new_with_config(ConnectionPoolConfig::new(0, 6, 100, 100)),
        0,
        1,
    );
    assert!(pool.is_ok());
    assert_eq!(attempts, 0);
}

#[test]
fn never_more_than_max_connections() {
    let mut pool = new_pool(0, ConnectionPoolConfig::new(1, 3, 100, 100)).unwrap();
    let mut conns = vec![];
    // Each connection opened on demand is counted twice, so after the first
    // one the count reaches the maximum.
    for i in 0..5 {
        if let Ok(conn) = get(&mut pool, 10 + i, 0) {
            conns.push(conn);
        }
        assert!(pool.idle_connections() + pool.lent_connections() as usize <= 3);
    }
    assert_eq!(conns.len(), 2);
    assert_eq!(pool.lent_connections(), 2);
    for conn in conns {
        pool.release_connection(conn);
    }
    assert_eq!(pool.lent_connections(), 0);
    assert_eq!(pool.idle_connections(), 2);
}

#[test]
fn error_message() {
    let e = HkcpError::new(String::from("boom"));
    assert_eq!(e.description(), "boom");
    assert_eq!(e.to_string(), String::from("boom"));
    assert_eq!(e.clone().description(), "boom");
}

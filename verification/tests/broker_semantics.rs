use putty_core::connection_manager::{ConnectionManager, StepEvent};
use putty_core::connections::fake::FakeConnection;
use putty_core::connections::errors::ConnectionError;

#[test]
fn fan_out_two_subscribers_each_receive_their_own_copy() {
    let mut manager = ConnectionManager::new();
    let mut fake = FakeConnection::new();
    fake.push_incoming(b"broadcast".to_vec());

    manager
        .add_connection("port".into(), fake)
        .expect("registration should succeed");

    let first = manager.subscribe("port").expect("first subscribe");
    let second = manager.subscribe("port").expect("second subscribe");

    assert!(matches!(
        manager.step_session("port"),
        StepEvent::Received(_)
    ));

    let for_first = manager.recv(&first).expect("first copy");
    let for_second = manager.recv(&second).expect("second copy");
    assert_eq!(for_first, b"broadcast");
    assert_eq!(for_second, b"broadcast");

    // Neither receive consumed the other's copy, and nothing is left over.
    assert!(manager.recv(&first).is_none());
    assert!(manager.recv(&second).is_none());
}

#[test]
fn subscribing_after_a_broadcast_replays_no_history() {
    let mut manager = ConnectionManager::new();
    let mut fake = FakeConnection::new();
    fake.push_incoming(b"early".to_vec());

    manager
        .add_connection("port".into(), fake)
        .expect("registration should succeed");

    let early_subscriber = manager.subscribe("port").expect("subscribe");
    assert!(matches!(
        manager.step_session("port"),
        StepEvent::Received(_)
    ));

    // A subscription taken after the broadcast starts empty.
    let late_subscriber = manager.subscribe("port").expect("late subscribe");
    assert!(manager.recv(&late_subscriber).is_none());

    // The earlier subscription still has its copy.
    assert_eq!(manager.recv(&early_subscriber).expect("copy"), b"early");
}

#[test]
fn registering_a_duplicate_identifier_is_rejected() {
    let mut manager = ConnectionManager::new();
    manager
        .add_connection("dup".into(), FakeConnection::new())
        .expect("first registration should succeed");

    let error = manager
        .add_connection("dup".into(), FakeConnection::new())
        .expect_err("second registration under a live id must be rejected");
    assert_eq!(
        error,
        ConnectionError::Other("Connection id 'dup' is already registered".into())
    );

    // The first registration is untouched.
    assert!(manager.subscribe("dup").is_some());
}

#[test]
fn operations_on_an_unknown_identifier_report_not_found() {
    let mut manager = ConnectionManager::<FakeConnection>::new();

    let write_error = manager.write_bytes("ghost", b"x").expect_err("write");
    assert_eq!(
        write_error,
        ConnectionError::Other("No connection with id 'ghost'".into())
    );
    assert_eq!(
        write_error.message(),
        "Other error: No connection with id 'ghost'"
    );

    assert!(manager.subscribe("ghost").is_none());
    assert!(matches!(
        manager.step_session("ghost"),
        StepEvent::NotFound
    ));

    let stop_error = manager.stop_connection("ghost").expect_err("stop");
    assert_eq!(
        stop_error,
        ConnectionError::Other("No connection with id 'ghost'".into())
    );
}

#[test]
fn subscribe_and_write_after_stop_report_not_found() {
    let mut manager = ConnectionManager::new();
    manager
        .add_connection("gone".into(), FakeConnection::new())
        .expect("registration should succeed");
    manager.stop_connection("gone").expect("stop should succeed");

    assert!(manager.subscribe("gone").is_none());
    let error = manager.write_bytes("gone", b"x").expect_err("write");
    assert_eq!(
        error,
        ConnectionError::Other("No connection with id 'gone'".into())
    );
}

#[test]
fn read_failure_ends_the_session_but_not_the_registry_entry() {
    let mut manager = ConnectionManager::new();
    let mut fake = FakeConnection::new();
    fake.push_incoming(b"last words".to_vec());
    fake.fail_when_exhausted();

    manager
        .add_connection("dying".into(), fake)
        .expect("registration should succeed");
    let subscriber = manager.subscribe("dying").expect("subscribe");

    // The scripted chunk still arrives ...
    assert!(matches!(
        manager.step_session("dying"),
        StepEvent::Received(_)
    ));
    assert_eq!(manager.recv(&subscriber).expect("chunk"), b"last words");

    // ... then the transport breaks: the session self-terminates.
    assert!(matches!(manager.step_session("dying"), StepEvent::Failed));
    assert!(matches!(manager.step_session("dying"), StepEvent::Ended));

    // Writes now report the closed control plane; the entry is still
    // registered until stop reaps it, and stop succeeds exactly once.
    let error = manager.write_bytes("dying", b"x").expect_err("write");
    assert_eq!(error, ConnectionError::Other("Channel closed".into()));
    manager.stop_connection("dying").expect("reap");
    assert!(manager.stop_connection("dying").is_err());
}

#[test]
fn queued_writes_are_served_before_reads_in_fifo_order() {
    let mut manager = ConnectionManager::new();
    let mut fake = FakeConnection::new();
    fake.push_incoming(b"in".to_vec());

    manager
        .add_connection("port".into(), fake)
        .expect("registration should succeed");

    assert_eq!(manager.write_bytes("port", b"first").expect("write"), 5);
    assert_eq!(manager.write_bytes("port", b"second").expect("write"), 6);

    // Two pending control commands are served first, then the read.
    assert!(matches!(manager.step_session("port"), StepEvent::Wrote));
    assert!(matches!(manager.step_session("port"), StepEvent::Wrote));
    assert!(matches!(
        manager.step_session("port"),
        StepEvent::Received(_)
    ));
    // The script is exhausted: polling finds no data.
    assert!(matches!(manager.step_session("port"), StepEvent::Idle));
}

#[test]
fn a_lagging_subscriber_skips_the_oldest_chunks() {
    let mut manager = ConnectionManager::new();
    let mut fake = FakeConnection::new();
    let total: usize = 300;
    for i in 0..total {
        fake.push_incoming(vec![(i % 256) as u8, (i / 256) as u8]);
    }

    manager
        .add_connection("fast".into(), fake)
        .expect("registration should succeed");
    let laggard = manager.subscribe("fast").expect("subscribe");

    for _ in 0..total {
        assert!(matches!(
            manager.step_session("fast"),
            StepEvent::Received(_)
        ));
    }

    // The queue holds 256 chunks: the oldest 44 were dropped, and what
    // remains arrives in order, most recent chunks last.
    let mut received = Vec::new();
    while let Some(chunk) = manager.recv(&laggard) {
        received.push(chunk);
    }
    assert_eq!(received.len(), 256);
    assert_eq!(received[0], vec![44u8, 0u8]);
    assert_eq!(received[255], vec![(299 % 256) as u8, 1u8]);
}

#[test]
fn handle_delegates_write_and_stop() {
    let mut manager = ConnectionManager::new();
    let handle = manager
        .add_connection("held".into(), FakeConnection::new())
        .expect("registration should succeed");
    let spare = handle.clone();

    assert_eq!(handle.write_bytes(&mut manager, b"hi").expect("write"), 2);
    handle.stop(&mut manager).expect("stop through handle");

    // The handle was consumed and the registry entry is gone; a spare
    // handle for the same session reports the same not-found errors the
    // manager would.
    assert_eq!(
        spare.write_bytes(&mut manager, b"x").expect_err("write after stop"),
        ConnectionError::Other("No connection with id 'held'".into())
    );
    assert_eq!(
        spare.stop(&mut manager).expect_err("second stop"),
        ConnectionError::Other("No connection with id 'held'".into())
    );
}

#[test]
fn handle_write_reports_the_closed_control_plane() {
    let mut manager = ConnectionManager::new();
    let mut fake = FakeConnection::new();
    fake.fail_when_exhausted();
    let handle = manager
        .add_connection("dead".into(), fake)
        .expect("registration should succeed");

    // The transport breaks on the first poll: the loop ends, the record
    // stays, and a write through the handle reports the closed channel.
    assert!(matches!(manager.step_session("dead"), StepEvent::Failed));
    assert_eq!(
        handle.write_bytes(&mut manager, b"x").expect_err("write"),
        ConnectionError::Other("Channel closed".into())
    );
    handle.stop(&mut manager).expect("reap");
}

#[test]
fn default_manager_is_empty() {
    let mut manager = ConnectionManager::<FakeConnection>::default();
    assert!(manager.subscribe("anything").is_none());
}

use putty_core::connection_manager::{ConnectionManager, StepEvent};
use putty_core::connections::fake::FakeConnection;

#[test]
fn roundtrip_and_write_path() {
    // ── Setup ────────────────────────────────────────────────────────────
    let mut connection_manager = ConnectionManager::new();
    let mut fake_connection = FakeConnection::new();
    let incoming_bytes = b"hello\n".to_vec();
    fake_connection.push_incoming(incoming_bytes.clone());

    connection_manager
        .add_connection("fakePort".into(), fake_connection)
        .expect("add_connection should succeed");

    let subscriber = connection_manager
        .subscribe("fakePort")
        .expect("subscribe should succeed");

    // ── Round-trip path (device → manager → subscriber) ──────────────────
    match connection_manager.step_session("fakePort") {
        StepEvent::Received(chunk) => assert_eq!(chunk, incoming_bytes),
        _ => panic!("the event loop should read the injected chunk"),
    }

    let echoed_bytes = connection_manager
        .recv(&subscriber)
        .expect("broadcast channel closed unexpectedly");

    assert_eq!(
        echoed_bytes, incoming_bytes,
        "subscriber should receive the exact bytes injected into the fake connection"
    );

    // ── Write path (subscriber → manager → device) ───────────────────────
    let bytes_written = connection_manager
        .write_bytes("fakePort", b"AT\r")
        .expect("write_bytes should succeed");

    assert_eq!(
        bytes_written, 3,
        "write_bytes should report the number of bytes handed to the connection"
    );
}

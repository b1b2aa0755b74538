use putty_core::connection_manager::ConnectionManager;
use putty_core::connections::fake::FakeConnection;

#[test]
fn stop_connection_removes_handle_and_second_call_errors() {
    let mut connection_manager = ConnectionManager::new();
    let fake_connection = FakeConnection::new();
    let connection_id = "test_id";

    connection_manager
        .add_connection(connection_id.into(), fake_connection)
        .expect("adding the connection should succeed");

    // ── Act ─ first stop should succeed and clean up the registry entry ──────
    connection_manager
        .stop_connection(connection_id)
        .expect("first stop should succeed");

    // ── Assert ─ a second stop must fail because the entry is gone ────────────
    let second_stop_error = connection_manager
        .stop_connection(connection_id)
        .expect_err("second stop should fail; the connection is already removed");

    assert!(
        second_stop_error.message().contains("No connection"),
        "error message should mention that the connection no longer exists"
    );
}

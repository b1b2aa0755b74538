use putty_core::connection_manager::{ConnectionManager, StepEvent};
use putty_core::connections::fake::FakeConnection;

#[test]
fn bytes_from_two_independent_connections_do_not_get_mixed() {
    let mut connection_manager = ConnectionManager::new();

    // Build two independent fake connections, each with its own byte
    // already arriving from its "device".
    let mut fake_connection_port_a = FakeConnection::new();
    fake_connection_port_a.push_incoming(b"a".to_vec());

    let mut fake_connection_port_b = FakeConnection::new();
    fake_connection_port_b.push_incoming(b"b".to_vec());

    // Register connections in the manager
    connection_manager
        .add_connection("PortA".into(), fake_connection_port_a)
        .expect("adding PortA should succeed");

    connection_manager
        .add_connection("PortB".into(), fake_connection_port_b)
        .expect("adding PortB should succeed");

    // Subscribe to each connection's broadcast stream
    let receiver_port_a = connection_manager
        .subscribe("PortA")
        .expect("PortA must exist");

    let receiver_port_b = connection_manager
        .subscribe("PortB")
        .expect("PortB must exist");

    // Drive one event-loop turn per session, delivering each byte
    assert!(matches!(
        connection_manager.step_session("PortA"),
        StepEvent::Received(_)
    ));
    assert!(matches!(
        connection_manager.step_session("PortB"),
        StepEvent::Received(_)
    ));

    // Receive the bytes through the manager's broadcast planes
    let packet_from_port_a = connection_manager
        .recv(&receiver_port_a)
        .expect("broadcast channel for PortA closed unexpectedly");

    let packet_from_port_b = connection_manager
        .recv(&receiver_port_b)
        .expect("broadcast channel for PortB closed unexpectedly");

    // Assert that the streams never got crossed ────────────────────────
    assert_eq!(
        packet_from_port_a, b"a",
        "PortA should receive only its own bytes"
    );
    assert_eq!(
        packet_from_port_b, b"b",
        "PortB should receive only its own bytes"
    );

    // And that neither subscriber has anything else pending
    assert!(connection_manager.recv(&receiver_port_a).is_none());
    assert!(connection_manager.recv(&receiver_port_b).is_none());
}

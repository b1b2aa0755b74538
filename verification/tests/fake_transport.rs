use putty_core::connections::connection::Connection;
use putty_core::connections::fake::FakeConnection;

#[test]
fn fake_serves_its_script_in_order_and_records_writes() {
    let mut fake = FakeConnection::new();
    fake.push_incoming(b"one".to_vec());
    fake.push_incoming(b"two".to_vec());

    fake.connect().expect("connect");
    assert!(fake.connected);

    assert_eq!(fake.read().expect("first chunk"), b"one");
    assert_eq!(fake.read().expect("second chunk"), b"two");
    // Script exhausted: "no data now", not an error.
    assert_eq!(fake.read().expect("no data"), Vec::<u8>::new());

    assert_eq!(fake.write(b"sent").expect("write"), 4);
    assert_eq!(fake.write_history, vec![b"sent".to_vec()]);

    fake.disconnect().expect("disconnect");
    assert!(fake.disconnected);
}

#[test]
fn fake_read_fails_once_exhausted_when_told_to() {
    let mut fake = FakeConnection::new();
    fake.push_incoming(b"only".to_vec());
    fake.fail_when_exhausted();

    assert_eq!(fake.read().expect("scripted chunk"), b"only");
    assert!(fake.read().is_err());
}

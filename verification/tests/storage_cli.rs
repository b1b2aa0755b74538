use putty_core::cli::{profile_to_save, protocol_for, session_id, KeyAction, KeystrokeFilter, Protocol, StorageAction};
use putty_core::storage::profile::{find_profile, Profile};
use putty_core::storage::store::ProfileStore;
use putty_core::connections::errors::ConnectionError;

#[test]
fn profile_name_returns_the_identifier_of_either_variant() {
    let serial = Profile::Serial {
        name: "dbg".into(),
        port: "/dev/ttyUSB0".into(),
        baud: 115200,
    };
    assert_eq!(serial.name(), "dbg");

    let ssh = Profile::Ssh {
        name: "lab".into(),
        host: "example.net".into(),
        port: 22,
        username: "me".into(),
        password: "pw".into(),
    };
    assert_eq!(ssh.name(), "lab");
}

#[test]
fn find_profile_returns_the_first_match_by_name() {
    let profiles = vec![
        Profile::Serial {
            name: "a".into(),
            port: "/dev/pts/3".into(),
            baud: 9600,
        },
        Profile::Ssh {
            name: "b".into(),
            host: "h".into(),
            port: 22,
            username: "u".into(),
            password: "p".into(),
        },
    ];
    assert_eq!(find_profile(&profiles, "b"), Some(1));
    assert_eq!(find_profile(&profiles, "a"), Some(0));
    assert_eq!(find_profile(&profiles, "missing"), None);
}

#[test]
fn file_for_joins_directory_name_and_extension() {
    let store = ProfileStore::new("/home/user/.config/putty_rs/profiles".into());
    assert_eq!(
        store.file_for("dbg"),
        "/home/user/.config/putty_rs/profiles/dbg.json"
    );
}

#[test]
fn save_actions_carry_their_profile_and_others_do_not() {
    let saved = profile_to_save(StorageAction::SaveSerial {
        name: "dbg".into(),
        port: "/dev/pts/3".into(),
        baud: 115200,
    });
    match saved {
        Some(Profile::Serial { name, port, baud }) => {
            assert_eq!(name, "dbg");
            assert_eq!(port, "/dev/pts/3");
            assert_eq!(baud, 115200);
        }
        _ => panic!("a serial save must carry a serial profile"),
    }

    assert!(profile_to_save(StorageAction::List).is_none());
    assert!(profile_to_save(StorageAction::Delete { name: "x".into() }).is_none());
    assert!(profile_to_save(StorageAction::UseProfile {
        profile: "x".into()
    })
    .is_none());
}

#[test]
fn a_stored_preset_opens_with_exactly_the_stored_parameters() {
    let preset = Profile::Ssh {
        name: "lab".into(),
        host: "example.net".into(),
        port: 2222,
        username: "me".into(),
        password: "pw".into(),
    };
    match protocol_for(preset) {
        Protocol::Ssh {
            host,
            port,
            username,
            password,
        } => {
            assert_eq!(host, "example.net");
            assert_eq!(port, 2222);
            assert_eq!(username, "me");
            assert_eq!(password, "pw");
        }
        _ => panic!("an SSH preset must open an SSH connection"),
    }
}

#[test]
fn the_session_identifier_is_the_port_or_the_host() {
    let serial = Protocol::Serial {
        port: "/dev/pts/3".into(),
        baud: 115200,
    };
    assert_eq!(session_id(&serial), Some(&"/dev/pts/3".to_string()));

    let ssh = Protocol::Ssh {
        host: "example.net".into(),
        port: 22,
        username: "me".into(),
        password: "pw".into(),
    };
    assert_eq!(session_id(&ssh), Some(&"example.net".to_string()));

    let storage = Protocol::Storage {
        action: StorageAction::List,
    };
    assert_eq!(session_id(&storage), None);
}

#[test]
fn error_messages_carry_their_category_prefix() {
    assert_eq!(
        ConnectionError::IoError("broken pipe".into()).message(),
        "IO error: broken pipe"
    );
    assert_eq!(
        ConnectionError::PortError("no such port".into()).message(),
        "Port error: no such port"
    );
    assert_eq!(
        ConnectionError::Other("odd".into()).message(),
        "Other error: odd"
    );
}

#[test]
fn ctrl_a_then_x_exits_and_other_bytes_are_forwarded() {
    let mut filter = KeystrokeFilter::new();

    // Ordinary bytes pass through unchanged.
    match filter.on_byte(b'h') {
        KeyAction::Forward(bytes) => assert_eq!(bytes, b"h"),
        _ => panic!("an ordinary byte must be forwarded"),
    }
    match filter.on_byte(b'\r') {
        KeyAction::Forward(bytes) => assert_eq!(bytes, b"\r"),
        _ => panic!("a carriage return must be forwarded"),
    }

    // An 'x' without a preceding Ctrl+A is just a byte.
    match filter.on_byte(b'x') {
        KeyAction::Forward(bytes) => assert_eq!(bytes, b"x"),
        _ => panic!("a bare 'x' must be forwarded"),
    }

    // Ctrl+A arms the detector and is swallowed; a following byte other
    // than 'x' is forwarded normally.
    assert!(matches!(filter.on_byte(0x01), KeyAction::Ignore));
    match filter.on_byte(b'q') {
        KeyAction::Forward(bytes) => assert_eq!(bytes, b"q"),
        _ => panic!("Ctrl+A followed by another byte forwards that byte"),
    }

    // Ctrl+A then 'x' exits.
    assert!(matches!(filter.on_byte(0x01), KeyAction::Ignore));
    assert!(matches!(filter.on_byte(b'x'), KeyAction::Exit));
}

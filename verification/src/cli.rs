//! The request model of the command-line front end.
//!
//! Argument parsing itself is shell business; what is verified here is
//! the meaning of a parsed request: which session identifier a
//! connection request registers under, which preset a storage command
//! saves, and which connection request a stored preset stands for.

use vstd::prelude::*;
use crate::storage::profile::Profile;

verus! {

/// A parsed top-level request.
#[derive(Debug, Clone)]
pub enum Protocol {
    /// Open a serial connection.
    Serial { port: String, baud: u32 },
    /// Open an SSH connection.
    Ssh { host: String, port: u16, username: String, password: String },
    /// Manage saved connection presets.
    Storage { action: StorageAction },
}

/// A parsed preset-management request.
#[derive(Debug, Clone)]
pub enum StorageAction {
    List,
    SaveSerial { name: String, port: String, baud: u32 },
    SaveSsh { name: String, host: String, port: u16, username: String, password: String },
    Delete { name: String },
    UseProfile { profile: String },
}

/// The identifier a connection request registers its session under: the
/// port path of a serial request, the host of an SSH request. A storage
/// request opens no session.
pub fn session_id(protocol: &Protocol) -> (r: Option<&String>)
    ensures
        (match protocol {
            Protocol::Serial { port, .. } => r matches Some(s) && s@ == port@,
            Protocol::Ssh { host, .. } => r matches Some(s) && s@ == host@,
            Protocol::Storage { .. } => r is None,
        }),
{
    match protocol {
        Protocol::Serial { port, .. } => Some(port),
        Protocol::Ssh { host, .. } => Some(host),
        Protocol::Storage { .. } => None,
    }
}

/// The preset a storage command saves: the save commands carry the full
/// preset, every other storage command saves nothing.
pub fn profile_to_save(action: StorageAction) -> (r: Option<Profile>)
    ensures
        (match action {
            StorageAction::SaveSerial { name, port, baud } => r == Some(
                Profile::Serial { name, port, baud },
            ),
            StorageAction::SaveSsh { name, host, port, username, password } => r == Some(
                Profile::Ssh { name, host, port, username, password },
            ),
            _ => r is None,
        }),
{
    match action {
        StorageAction::SaveSerial { name, port, baud } => Some(
            Profile::Serial { name, port, baud },
        ),
        StorageAction::SaveSsh { name, host, port, username, password } => Some(
            Profile::Ssh { name, host, port, username, password },
        ),
        _ => None,
    }
}

/// The connection request a stored preset stands for: opening a preset
/// connects with exactly the stored transport parameters.
pub fn protocol_for(preset: Profile) -> (r: Protocol)
    ensures
        (match preset {
            Profile::Serial { name, port, baud } => r == (Protocol::Serial { port, baud }),
            Profile::Ssh { name, host, port, username, password } => r == (Protocol::Ssh {
                host,
                port,
                username,
                password,
            }),
        }),
{
    match preset {
        Profile::Serial { name: _, port, baud } => Protocol::Serial { port, baud },
        Profile::Ssh { name: _, host, port, username, password } => Protocol::Ssh {
            host,
            port,
            username,
            password,
        },
    }
}

/// What the terminal loop should do with one keystroke byte.
pub enum KeyAction {
    /// Swallow the byte (it armed the escape sequence).
    Ignore,
    /// Leave the terminal loop.
    Exit,
    /// Forward exactly these bytes to the session.
    Forward(Vec<u8>),
}

/// The escape-sequence detector of the interactive loop: typing Ctrl+A
/// and then `x` leaves the loop; every other byte is forwarded to the
/// session, and a Ctrl+A followed by anything else is forwarded like an
/// ordinary byte.
pub struct KeystrokeFilter {
    armed: bool,
}

impl KeystrokeFilter {
    /// Whether the previous byte was Ctrl+A, so that an `x` now exits.
    pub closed spec fn armed_spec(&self) -> bool {
        self.armed
    }

    /// A detector that has seen nothing yet.
    pub fn new() -> (r: KeystrokeFilter)
        ensures
            !r.armed_spec(),
    {
        KeystrokeFilter { armed: false }
    }

    /// Decide what one keystroke byte means. Ctrl+A (byte 0x01) arms the
    /// detector and is swallowed; an `x` right after an arming Ctrl+A
    /// exits; everything else disarms the detector and is forwarded
    /// unchanged.
    pub fn on_byte(&mut self, ch: u8) -> (r: KeyAction)
        ensures
            (ch == 0x01 ==> final(self).armed_spec() && r is Ignore),
            (ch != 0x01 && old(self).armed_spec() && ch == 0x78 ==> r is Exit),
            (ch != 0x01 && !(old(self).armed_spec() && ch == 0x78) ==> !final(self).armed_spec()
                && (r matches KeyAction::Forward(b) && b@ == seq![ch])),
    {
        if ch == 0x01 {
            self.armed = true;
            KeyAction::Ignore
        } else if self.armed && ch == 0x78 {
            KeyAction::Exit
        } else {
            self.armed = false;
            let mut forwarded: Vec<u8> = Vec::new();
            forwarded.push(ch);
            proof {
                assert(forwarded@ =~= seq![ch]);
            }
            KeyAction::Forward(forwarded)
        }
    }
}

} // verus!

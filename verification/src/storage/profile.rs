//! A user-named connection preset.

use vstd::prelude::*;

verus! {

/// A saved preset: the human-chosen name plus the transport parameters
/// needed to reconstruct the connection (serial: port path and baud
/// rate; SSH: host, port, username and credential).
#[derive(Debug, Clone)]
pub enum Profile {
    Serial { name: String, port: String, baud: u32 },
    Ssh { name: String, host: String, port: u16, username: String, password: String },
}

impl Profile {
    /// The unique, human-readable identifier of the preset.
    pub open spec fn name_spec(&self) -> Seq<char> {
        match self {
            Profile::Serial { name, .. } => name@,
            Profile::Ssh { name, .. } => name@,
        }
    }

    /// Returns the unique, human-readable identifier.
    pub fn name(&self) -> (r: &str)
        ensures
            r@ == self.name_spec(),
    {
        match self {
            Profile::Serial { name, .. } => name.as_str(),
            Profile::Ssh { name, .. } => name.as_str(),
        }
    }
}

/// The position of the first preset called `name`, if any preset of the
/// list carries that name.
pub fn find_profile(profiles: &Vec<Profile>, name: &str) -> (r: Option<usize>)
    ensures
        (r matches Some(i) ==> i < profiles@.len() && profiles@[i as int].name_spec() == name@
            && (forall|j: int| 0 <= j < i ==> profiles@[j].name_spec() != name@)),
        (r is None ==> forall|j: int|
            0 <= j < profiles@.len() ==> profiles@[j].name_spec() != name@),
{
    let key: String = name.to_owned();
    let n: usize = profiles.len();
    let mut i: usize = 0;
    while i < n
        invariant
            i <= n,
            n == profiles@.len(),
            key@ == name@,
            forall|j: int| 0 <= j < i ==> profiles@[j].name_spec() != name@,
        decreases n - i,
    {
        let candidate: String = profiles[i].name().to_owned();
        if candidate == key {
            return Some(i);
        }
        i = i + 1;
    }
    None
}

} // verus!

//! The naming scheme of the on-disk preset store.
//!
//! A store keeps one JSON file per preset inside one directory. Locating
//! the platform configuration directory, and reading, writing and
//! deleting the files, is I/O and lives in the shell around this crate;
//! what is verified here is the mapping from preset name to file path
//! that both sides rely on.

use vstd::prelude::*;
use vstd::string::StringExecFns;

verus! {

/// A preset store rooted at one directory.
#[derive(Debug, Clone)]
pub struct ProfileStore {
    dir: String,
}

impl ProfileStore {
    /// The directory that holds the preset files.
    pub closed spec fn dir_spec(&self) -> Seq<char> {
        self.dir@
    }

    /// A store rooted at the given directory (the shell locates the
    /// platform configuration directory and creates it before handing it
    /// over).
    pub fn new(dir: String) -> (r: ProfileStore)
        ensures
            r.dir_spec() == dir@,
    {
        ProfileStore { dir }
    }

    /// The directory the store is rooted at.
    pub fn dir(&self) -> (r: &str)
        ensures
            r@ == self.dir_spec(),
    {
        self.dir.as_str()
    }

    /// The file that holds the preset called `name`: `<dir>/<name>.json`.
    pub fn file_for(&self, name: &str) -> (r: String)
        ensures
            r@ == self.dir_spec() + "/"@ + name@ + ".json"@,
    {
        self.dir.clone().concat("/").concat(name).concat(".json")
    }
}

} // verus!

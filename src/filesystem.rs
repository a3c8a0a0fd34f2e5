//! Access to the files that the server publishes.

use vstd::prelude::*;

verus! {

/// Where the published files are and how to read them.
pub trait FileSystem {
    /// The full path of a file given relative to the published directory.
    fn get_full_path(&self, file_path: &str) -> String;

    /// The contents of a published file; `None` where it cannot be read or
    /// lies outside the published directory.
    fn read_file(&self, file_path: &str) -> Option<String>;
}

} // verus!

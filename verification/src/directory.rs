//! Options for gathering files from a directory tree. The traversal
//! itself is filesystem work and lives in the front end; it hands each
//! found file's content and relative path to the builders of this crate.

use vstd::prelude::*;

verus! {

/// Settings for searching a directory recursively.
#[derive(Debug)]
pub struct SearchOptions {
    /// Whether to follow links while traversing directories.
    pub follow_links: bool,
}

impl Default for SearchOptions {
    /// Links are followed.
    fn default() -> (r: Self)
        ensures
            r.follow_links,
    {
        Self { follow_links: true }
    }
}

} // verus!

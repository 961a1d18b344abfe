//! The manifest that marks a directory as a finished install.

use vstd::prelude::*;

use crate::paths::{join_spec, path_join};

verus! {

pub const MANIFEST_FILE: &'static str = ".shipyard-install.json";

/// The contents of `.shipyard-install.json`. `installed_at` is the install
/// time as RFC 3339 text.
#[derive(Debug, Clone, PartialEq, Eq)]
pub struct InstallManifest {
    pub tag: String,
    pub game_slug: String,
    pub installed_at: String,
    pub archive_sha256: Option<String>,
}

impl InstallManifest {
    /// Where the manifest of the install in `dir` lives.
    pub fn path_in(dir: &str) -> (r: String)
        ensures
            r@ == join_spec(dir@, MANIFEST_FILE@),
    {
        path_join(dir, MANIFEST_FILE)
    }
}

} // verus!

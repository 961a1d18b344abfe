//! The host platforms: where Shipyard keeps its data, and which release
//! asset matches the platform.

use vstd::prelude::*;

use crate::paths::{join_spec, path_join};
use crate::text::seq_ends_with;

pub mod linux;
pub mod macos;

verus! {

/// Whether `p` is a directory that `directories` gives Shipyard: a path whose
/// last component is the project directory, `shipyard` on Linux (the
/// application name in lower case) or `Shipyard` on macOS (the bundle id).
/// Shipyard supports those two systems only.
pub open spec fn is_shipyard_dir(p: Seq<char>) -> bool {
    seq_ends_with(p, "/shipyard"@) || seq_ends_with(p, "/Shipyard"@)
}

/// Shipyard's per-user data, configuration and cache directories, as text.
pub struct ProjectPaths {
    pub data: String,
    pub config: String,
    pub cache: String,
}

/// Calls `directories::ProjectDirs::from("", "", "Shipyard")` and reads its
/// data, configuration and cache directories as text. `None` means no home
/// directory was found. Each directory is a base directory taken from the
/// environment (`$HOME`, `$XDG_*`) joined with the project directory, so each
/// ends with `/shipyard` (Linux) or `/Shipyard` (macOS); which base directory,
/// and whether a home directory is found, depends on the environment and is
/// not stated. The library's paths are text: a base directory that is not
/// valid Unicode is read with `to_string_lossy`, each invalid byte sequence
/// becoming U+FFFD; the project directory at the end is ASCII and comes
/// through unchanged.
#[verifier::external_body]
fn shipyard_project_dirs() -> (r: Option<ProjectPaths>)
    ensures
        r matches Some(d) ==> is_shipyard_dir(d.data@) && is_shipyard_dir(d.config@)
            && is_shipyard_dir(d.cache@),
{
    directories::ProjectDirs::from("", "", "Shipyard").map(|d| ProjectPaths {
        data: d.data_dir().to_string_lossy().into_owned(),
        config: d.config_dir().to_string_lossy().into_owned(),
        cache: d.cache_dir().to_string_lossy().into_owned(),
    })
}

/// Shipyard's per-user data directory, when a home directory is known.
pub fn data_dir() -> (r: Option<String>)
    ensures
        r matches Some(p) ==> is_shipyard_dir(p@),
{
    match shipyard_project_dirs() {
        Some(d) => Some(d.data),
        None => None,
    }
}

/// Shipyard's per-user configuration directory, when a home directory is known.
pub fn config_dir() -> (r: Option<String>)
    ensures
        r matches Some(p) ==> is_shipyard_dir(p@),
{
    match shipyard_project_dirs() {
        Some(d) => Some(d.config),
        None => None,
    }
}

/// Shipyard's per-user cache directory, when a home directory is known.
pub fn cache_dir() -> (r: Option<String>)
    ensures
        r matches Some(p) ==> is_shipyard_dir(p@),
{
    match shipyard_project_dirs() {
        Some(d) => Some(d.cache),
        None => None,
    }
}

/// Installs live under `<data_dir>/versions` unless the user picks another root.
pub fn library_root_under(data_dir: &str) -> (r: String)
    ensures
        r@ == join_spec(data_dir@, "versions"@),
{
    path_join(data_dir, "versions")
}

/// A host platform.
pub trait Platform {
    /// The word that names this platform in release asset file names.
    spec fn spec_asset_keyword(&self) -> Seq<char>;

    /// The word that names this platform in release asset file names.
    fn asset_keyword(&self) -> (r: &'static str)
        ensures
            r@ == self.spec_asset_keyword(),
    ;

    /// Default root for installs: `<data_dir>/versions`.
    fn default_library_root(&self) -> (r: Option<String>)
        ensures
            r matches Some(p) ==> exists|d: Seq<char>|
                is_shipyard_dir(d) && p@ == join_spec(d, "versions"@),
    ;

    /// Shipyard's configuration directory on this platform.
    fn config_dir(&self) -> (r: Option<String>)
        ensures
            r matches Some(p) ==> is_shipyard_dir(p@),
    ;

    /// Shipyard's cache directory on this platform.
    fn cache_dir(&self) -> (r: Option<String>)
        ensures
            r matches Some(p) ==> is_shipyard_dir(p@),
    ;
}

/// The platform of an operating system, named as `std::env::consts::OS`
/// names it; `None` for a system Shipyard does not support.
pub fn current(os: &str) -> (r: Option<HostPlatform>)
    ensures
        r == (if os@ == "macos"@ {
            Some(HostPlatform::MacOs)
        } else if os@ == "linux"@ {
            Some(HostPlatform::Linux)
        } else {
            None
        }),
{
    if crate::text::str_eq(os, "macos") {
        Some(HostPlatform::MacOs)
    } else if crate::text::str_eq(os, "linux") {
        Some(HostPlatform::Linux)
    } else {
        None
    }
}

/// The platform a program runs on, told apart by its asset keyword.
#[derive(Debug, Clone, Copy, PartialEq, Eq)]
pub enum HostPlatform {
    Linux,
    MacOs,
}

impl Platform for HostPlatform {
    open spec fn spec_asset_keyword(&self) -> Seq<char> {
        match self {
            HostPlatform::Linux => "Linux"@,
            HostPlatform::MacOs => "Mac"@,
        }
    }

    fn asset_keyword(&self) -> (r: &'static str) {
        match self {
            HostPlatform::Linux => linux::Linux.asset_keyword(),
            HostPlatform::MacOs => macos::MacOs.asset_keyword(),
        }
    }

    fn default_library_root(&self) -> (r: Option<String>) {
        match data_dir() {
            Some(d) => Some(library_root_under(&d)),
            None => None,
        }
    }

    fn config_dir(&self) -> (r: Option<String>) {
        config_dir()
    }

    fn cache_dir(&self) -> (r: Option<String>) {
        cache_dir()
    }
}

} // verus!

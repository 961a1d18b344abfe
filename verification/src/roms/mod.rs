//! The ROM library: imported ROM files, the cached archives games build from
//! them, and the per-install symlinks that point games at their ROMs.

pub mod cached_assets;
pub mod library;
pub mod wiring;

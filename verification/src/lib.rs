//! Release, install and ROM-library management for the HarbourMasters N64 ports.

pub mod text;
pub mod paths;
pub mod strmap;
pub mod config;
pub mod games;
pub mod github;
pub mod platform;
pub mod roms;
pub mod library;
pub mod app;
pub mod launcher;

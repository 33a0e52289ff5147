//! Verified core of a computational electromagnetics workbench.
pub mod app;
pub mod assets;
pub mod clipboard;
pub mod composers;
pub mod config;
pub mod file_formats;
pub mod geometry;
pub mod resources;
pub mod spatial;
pub mod undo;
pub mod util;

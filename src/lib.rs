//! Screenshot helper library: geometry values, compositor output descriptors
//! and their matching to captured frames, the screen-freeze controller, and
//! the configuration rules of the command-line tool.
pub mod text;
pub mod decimal;
pub mod geometry;
pub mod outputs;
pub mod matcher;
pub mod freeze;
pub mod registry;
pub mod config;
pub mod cli;
pub mod capture;
pub mod paths;
pub mod sway;

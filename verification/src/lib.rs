//! Verified core of the capsule zsh prompt engine.
pub mod bench;
pub mod cli;
mod clock;
pub mod config;
pub mod connect;
pub mod daemon;
pub mod init;
pub mod module;
pub mod path;
pub mod pattern;
pub mod render;
mod sealed;
pub mod service;
pub mod text;

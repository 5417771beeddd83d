//! Shell integration scripts.
pub mod zsh;

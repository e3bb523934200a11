//! Terminal multiplexer backends.

pub mod tmux;
pub mod zellij;

//! The decisions behind Locus's activations.

pub mod info;
pub mod outcome;
pub mod panes;
pub mod sessions;
pub mod tabs;
pub mod workspace;
pub mod render;

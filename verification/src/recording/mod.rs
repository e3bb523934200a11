//! The recording side: which files a recording writes, the layout journal's
//! model, and pane lifecycle.

pub mod engine;
pub mod layout;
pub mod lifecycle;

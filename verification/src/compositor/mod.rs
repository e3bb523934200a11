//! Composite frames: the cell model, ANSI rendering, frame diffs, and the
//! placement of panes and borders.

pub mod ansi;
pub mod diff;
pub mod frame;
pub mod pane_state;
pub mod scene;
pub mod writer;

pub use crate::recording::layout::{LayoutEvent, PaneGeometry};
pub use scene::TimelineEvent;
pub use writer::BorderStyle;

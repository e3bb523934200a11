//! Identity, descriptor, option and event types shared across the crate.
//!
//! Paths are carried as strings (`cwd` fields); they are what the
//! multiplexer CLIs print and accept.

use vstd::prelude::*;
use crate::text::{chars_of, eq_str};

verus! {

/// Logical pane identifier. Assigned by Locus, not the backend.
/// Backends map this to their native pane ID internally.
#[derive(Debug, Clone, PartialEq, Eq, Hash)]
pub struct PaneId(pub String);

/// Logical tab identifier.
#[derive(Debug, Clone, PartialEq, Eq, Hash)]
pub struct TabId(pub String);

/// Session identifier.
#[derive(Debug, Clone, PartialEq, Eq, Hash)]
pub struct SessionId(pub String);

/// What Locus knows about a pane.
#[derive(Debug, Clone)]
pub struct Pane {
    pub id: PaneId,
    pub name: Option<String>,
    pub command: Option<String>,
    pub cwd: Option<String>,
    pub floating: bool,
    pub focused: bool,
    pub tab: TabId,
    pub session: SessionId,
}

/// What Locus knows about a tab.
#[derive(Debug, Clone)]
pub struct Tab {
    pub id: TabId,
    pub name: Option<String>,
    pub index: u32,
    pub pane_count: u32,
    pub focused: bool,
    pub session: SessionId,
}

/// What Locus knows about a session.
#[derive(Debug, Clone)]
pub struct Session {
    pub id: SessionId,
    pub name: String,
    pub tabs: u32,
    pub panes: u32,
    pub attached: bool,
}

/// Options for creating a pane.
#[derive(Debug, Clone, Default)]
pub struct PaneOpts {
    /// Human-readable name (Locus tracks this for lookup)
    pub name: Option<String>,
    /// Command to run in the pane
    pub command: Option<String>,
    /// Working directory
    pub cwd: Option<String>,
    /// Split direction relative to focused pane
    pub direction: Option<Direction>,
    /// Open as floating pane
    pub floating: bool,
    /// Close pane when command exits
    pub close_on_exit: bool,
    /// Target session (default: current)
    pub session: Option<String>,
    /// Target tab (default: current)
    pub tab: Option<String>,
    /// Pane to split from (default: the focused pane)
    pub target: Option<String>,
}

/// Options for creating a tab.
#[derive(Debug, Clone, Default)]
pub struct TabOpts {
    pub name: Option<String>,
    pub layout: Option<String>,
    pub cwd: Option<String>,
    pub session: Option<String>,
}

/// Options for creating a session.
#[derive(Debug, Clone, Default)]
pub struct SessionOpts {
    pub name: String,
    pub layout: Option<String>,
    pub cwd: Option<String>,
}

/// Options for running a command in a new pane.
#[derive(Debug, Clone, Default)]
pub struct RunOpts {
    /// Command string to execute
    pub command: String,
    /// Pane name for tracking
    pub name: Option<String>,
    /// Working directory
    pub cwd: Option<String>,
    /// Split direction
    pub direction: Option<Direction>,
    /// Open as floating
    pub floating: bool,
    /// Close when done
    pub close_on_exit: bool,
    /// Target session
    pub session: Option<String>,
    /// Pane to split from (default: the focused pane)
    pub target: Option<String>,
}

/// A split or focus direction.
#[derive(Debug, Clone, Copy, PartialEq, Eq, Structural)]
pub enum Direction {
    Up,
    Down,
    Left,
    Right,
}

/// The lower-case name of a direction.
pub open spec fn direction_name(d: Direction) -> Seq<char> {
    match d {
        Direction::Up => seq!['u', 'p'],
        Direction::Down => seq!['d', 'o', 'w', 'n'],
        Direction::Left => seq!['l', 'e', 'f', 't'],
        Direction::Right => seq!['r', 'i', 'g', 'h', 't'],
    }
}

impl Direction {
    /// The lower-case name: "up", "down", "left" or "right".
    pub fn as_str(&self) -> (s: &'static str)
        ensures
            s@ == direction_name(*self),
    {
        match self {
            Direction::Up => {
                proof {
                    reveal_strlit("up");
                }
                assert("up"@ =~= direction_name(*self));
                "up"
            },
            Direction::Down => {
                proof {
                    reveal_strlit("down");
                }
                assert("down"@ =~= direction_name(*self));
                "down"
            },
            Direction::Left => {
                proof {
                    reveal_strlit("left");
                }
                assert("left"@ =~= direction_name(*self));
                "left"
            },
            Direction::Right => {
                proof {
                    reveal_strlit("right");
                }
                assert("right"@ =~= direction_name(*self));
                "right"
            },
        }
    }
}

/// The direction whose name is `s`, if any.
pub open spec fn direction_named(s: Seq<char>) -> Option<Direction> {
    if s == direction_name(Direction::Up) {
        Some(Direction::Up)
    } else if s == direction_name(Direction::Down) {
        Some(Direction::Down)
    } else if s == direction_name(Direction::Left) {
        Some(Direction::Left)
    } else if s == direction_name(Direction::Right) {
        Some(Direction::Right)
    } else {
        None
    }
}

/// Reads a direction name ("up", "down", "left", "right"); anything else is `None`.
pub fn parse_direction(s: &str) -> (d: Option<Direction>)
    ensures
        d == direction_named(s@),
{
    let v = chars_of(s);
    proof {
        reveal_strlit("up");
        reveal_strlit("down");
        reveal_strlit("left");
        reveal_strlit("right");
        assert("up"@ =~= direction_name(Direction::Up));
        assert("down"@ =~= direction_name(Direction::Down));
        assert("left"@ =~= direction_name(Direction::Left));
        assert("right"@ =~= direction_name(Direction::Right));
    }
    if eq_str(&v, "up") {
        Some(Direction::Up)
    } else if eq_str(&v, "down") {
        Some(Direction::Down)
    } else if eq_str(&v, "left") {
        Some(Direction::Left)
    } else if eq_str(&v, "right") {
        Some(Direction::Right)
    } else {
        None
    }
}

/// What the activations stream back.
#[derive(Debug, Clone)]
pub enum LocusEvent {
    /// Session listing result
    Sessions { sessions: Vec<Session> },
    /// Tab listing result
    Tabs { tabs: Vec<Tab> },
    /// Pane listing result
    Panes { panes: Vec<Pane> },
    /// A pane was created
    PaneCreated { pane: Pane },
    /// A tab was created, with the pane it starts with when that is known
    TabCreated { tab: Tab, initial_pane: Option<PaneId> },
    /// A session was created
    SessionCreated { session: Session },
    /// Screen content captured from a pane
    ScreenCapture { pane: PaneId, content: String, lines: u32 },
    /// Layout dumped
    Layout { content: String },
    /// A command was launched in a pane
    CommandLaunched { pane: PaneId, command: String },
    /// A command sent to a pane has started running
    CommandStarted { pane: PaneId, command: String, capture: Option<String> },
    /// A command sent to a pane has exited
    CommandExited { pane: PaneId, command: String, exit_code: Option<i32>, capture: Option<String> },
    /// Input was sent to a pane
    InputSent { pane: PaneId, chars: u32 },
    /// What a command sent to a pane added to its screen
    ScreenDiff { pane: PaneId, before_lines: u32, after_lines: u32, new_content: String },
    /// Action completed successfully
    Success { message: String },
    /// Something went wrong
    Error { message: String },
}

} // verus!

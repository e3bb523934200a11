//! Terminal tab management.

use vstd::prelude::*;
use std::sync::Arc;
use crate::activations::outcome::text_with_number;
use crate::text::dec;
use crate::types::{Pane, PaneId, TabId};

verus! {

/// Tabs sub-activation — manages terminal tabs (tmux windows).
pub struct TabsActivation<B: ?Sized> {
    /// Terminal backend instance shared across all activations
    pub backend: Arc<B>,
}

impl<B: ?Sized> TabsActivation<B> {
    /// Create a new TabsActivation with the specified backend
    pub fn new(backend: Arc<B>) -> (a: Self)
        ensures
            a.backend == backend,
    {
        TabsActivation { backend }
    }
}

/// The first pane listed in the tab `tab`, if any.
pub open spec fn initial_pane_in(panes: Seq<Pane>, tab: Seq<char>) -> Option<PaneId>
    decreases panes.len(),
{
    if panes.len() == 0 {
        None
    } else if panes[0].tab.0@ == tab {
        Some(panes[0].id)
    } else {
        initial_pane_in(panes.skip(1), tab)
    }
}

/// Find the pane a new tab starts with: the first listed pane in it.
pub fn initial_pane(panes: &Vec<Pane>, tab: &TabId) -> (r: Option<PaneId>)
    ensures
        r == initial_pane_in(panes@, tab.0@),
{
    let mut i: usize = 0;
    assert(panes@.skip(0) =~= panes@);
    while i < panes.len()
        invariant
            i <= panes@.len(),
            initial_pane_in(panes@, tab.0@) == initial_pane_in(panes@.skip(i as int), tab.0@),
        decreases panes@.len() - i,
    {
        assert(panes@.skip(i as int)[0] == panes@[i as int]);
        assert(panes@.skip(i as int).skip(1) =~= panes@.skip(i + 1));
        if panes[i].tab.0 == tab.0 {
            return Some(PaneId(panes[i].id.0.clone()));
        }
        i = i + 1;
    }
    None
}

/// What is reported after a tab was closed.
pub fn closed_tab_message(index: u32) -> (m: String)
    ensures
        m@ == "Closed tab "@ + dec(index as nat),
{
    text_with_number("Closed tab ", index)
}

/// What is reported after a tab was focused.
pub fn focused_tab_message(index: u32) -> (m: String)
    ensures
        m@ == "Focused tab "@ + dec(index as nat),
{
    text_with_number("Focused tab ", index)
}

/// What is reported after a tab was renamed.
pub fn renamed_tab_message(index: u32, name: &str) -> (m: String)
    ensures
        m@ == "Renamed tab "@ + dec(index as nat) + " to "@ + name@,
{
    let mut m = text_with_number("Renamed tab ", index);
    m.append(" to ");
    m.append(name);
    m
}

} // verus!

//! Pane lifecycle during a recording: what changed between two polls of the
//! session's layout, and what the monitor does about it.
//!
//! The polling itself (asking tmux, sleeping, writing the journal) is the
//! caller's; `monitor_step` takes one poll's result and says what to do.

use vstd::prelude::*;
use core::time::Duration;
use crate::recording::layout::{
    apply_event, copy_geometry, distinct_ids, find_pane, lemma_pane_map, lemma_pane_map_keyed,
    lemma_replay_append, pane_map, parse_or, replay, LayoutEvent, PaneGeometry, PaneMap,
};
use crate::text::{chars_of, eq_str, lines, parse_unsigned_vec, split_lines, split_words, words};

verus! {

/// What `Duration::from_secs` gives for a number of seconds.
pub uninterp spec fn duration_from_secs(secs: u64) -> Duration;

/// `Duration::from_secs`: the duration of `secs` whole seconds.
#[verifier::external_body]
fn seconds(secs: u64) -> (d: Duration)
    ensures
        d == duration_from_secs(secs),
{
    Duration::from_secs(secs)
}

/// Configuration for the lifecycle monitoring loop.
#[derive(Debug, Clone, Copy)]
pub struct LifecycleConfig {
    /// Polling interval for checking pane changes (default: 1s)
    pub poll_interval: Duration,
    /// Interval for writing layout snapshots (default: 5s)
    pub snapshot_interval: Duration,
}

impl Default for LifecycleConfig {
    fn default() -> (c: Self)
        ensures
            c.poll_interval == duration_from_secs(1),
            c.snapshot_interval == duration_from_secs(5),
    {
        LifecycleConfig { poll_interval: seconds(1), snapshot_interval: seconds(5) }
    }
}

/// A change between two polls of the layout.
#[derive(Debug)]
pub enum LayoutChange {
    PaneOpened(PaneGeometry),
    PaneClosed(String),
    PaneResized(PaneGeometry),
}

/// Whether a pane moved or changed size.
pub open spec fn moved(a: PaneGeometry, b: PaneGeometry) -> bool {
    a.x != b.x || a.y != b.y || a.width != b.width || a.height != b.height
}

/// The panes of `cur` that `prev` lacks, in the order of `cur`.
pub open spec fn opened_changes(prev: Seq<PaneGeometry>, cur: Seq<PaneGeometry>) -> Seq<LayoutChange>
    decreases cur.len(),
{
    if cur.len() == 0 {
        seq![]
    } else {
        let r = opened_changes(prev, cur.drop_last());
        let g = cur.last();
        if !pane_map(prev).contains_key(g.pane_id@) {
            r.push(LayoutChange::PaneOpened(g))
        } else {
            r
        }
    }
}

/// The ids of the panes of `prev` that `cur` lacks, in the order of `prev`.
pub open spec fn closed_changes(prev: Seq<PaneGeometry>, cur: Seq<PaneGeometry>) -> Seq<LayoutChange>
    decreases prev.len(),
{
    if prev.len() == 0 {
        seq![]
    } else {
        let r = closed_changes(prev.drop_last(), cur);
        let g = prev.last();
        if !pane_map(cur).contains_key(g.pane_id@) {
            r.push(LayoutChange::PaneClosed(g.pane_id))
        } else {
            r
        }
    }
}

/// The panes of `cur` that `prev` holds at another position or size, in
/// the order of `cur`.
pub open spec fn resized_changes(prev: Seq<PaneGeometry>, cur: Seq<PaneGeometry>) -> Seq<LayoutChange>
    decreases cur.len(),
{
    if cur.len() == 0 {
        seq![]
    } else {
        let r = resized_changes(prev, cur.drop_last());
        let g = cur.last();
        if pane_map(prev).contains_key(g.pane_id@) && moved(pane_map(prev)[g.pane_id@], g) {
            r.push(LayoutChange::PaneResized(g))
        } else {
            r
        }
    }
}

/// Everything that changed from `prev` to `cur`: opened panes, then closed
/// ones, then moved or resized ones.
pub open spec fn layout_changes(prev: Seq<PaneGeometry>, cur: Seq<PaneGeometry>) -> Seq<LayoutChange> {
    opened_changes(prev, cur) + closed_changes(prev, cur) + resized_changes(prev, cur)
}

fn copy_change_id(id: &String) -> (r: String)
    ensures
        r == *id,
{
    id.clone()
}

/// Detect layout changes between two polls.
pub fn detect_changes(previous: &Vec<PaneGeometry>, current: &Vec<PaneGeometry>) -> (changes: Vec<LayoutChange>)
    requires
        distinct_ids(previous@),
        distinct_ids(current@),
    ensures
        changes@ == layout_changes(previous@, current@),
{
    let mut changes: Vec<LayoutChange> = Vec::new();
    proof {
        lemma_pane_map(previous@);
        lemma_pane_map(current@);
    }
    let mut i: usize = 0;
    while i < current.len()
        invariant
            i <= current@.len(),
            distinct_ids(previous@),
            forall|k: Seq<char>|
                #[trigger] pane_map(previous@).contains_key(k) <==> exists|j: int| 0 <= j < previous@.len() && previous@[j].pane_id@ == k,
            changes@ == opened_changes(previous@, current@.take(i as int)),
        decreases current@.len() - i,
    {
        let ghost cur_i = current@.take(i + 1);
        assert(cur_i.drop_last() =~= current@.take(i as int));
        assert(cur_i.last() == current@[i as int]);
        match find_pane(previous, &current[i].pane_id) {
            Some(j) => {
                assert(pane_map(previous@).contains_key(current@[i as int].pane_id@));
            },
            None => {
                changes.push(LayoutChange::PaneOpened(copy_geometry(&current[i])));
            },
        }
        i = i + 1;
    }
    assert(current@.take(i as int) =~= current@);
    let ghost opened = changes@;
    let mut i: usize = 0;
    while i < previous.len()
        invariant
            i <= previous@.len(),
            forall|k: Seq<char>|
                #[trigger] pane_map(current@).contains_key(k) <==> exists|j: int| 0 <= j < current@.len() && current@[j].pane_id@ == k,
            changes@ == opened + closed_changes(previous@.take(i as int), current@),
        decreases previous@.len() - i,
    {
        let ghost prev_i = previous@.take(i + 1);
        assert(prev_i.drop_last() =~= previous@.take(i as int));
        assert(prev_i.last() == previous@[i as int]);
        match find_pane(current, &previous[i].pane_id) {
            Some(j) => {
                assert(pane_map(current@).contains_key(previous@[i as int].pane_id@));
            },
            None => {
                let ghost c0 = changes@;
                changes.push(LayoutChange::PaneClosed(copy_change_id(&previous[i].pane_id)));
                assert(changes@ =~= opened + closed_changes(previous@.take(i as int), current@).push(
                    LayoutChange::PaneClosed(previous@[i as int].pane_id),
                ));
            },
        }
        i = i + 1;
    }
    assert(previous@.take(i as int) =~= previous@);
    let ghost opened_closed = changes@;
    let mut i: usize = 0;
    while i < current.len()
        invariant
            i <= current@.len(),
            distinct_ids(previous@),
            forall|k: Seq<char>|
                #[trigger] pane_map(previous@).contains_key(k) <==> exists|j: int| 0 <= j < previous@.len() && previous@[j].pane_id@ == k,
            forall|j: int| 0 <= j < previous@.len() ==> #[trigger] pane_map(previous@)[previous@[j].pane_id@] == previous@[j],
            changes@ == opened_closed + resized_changes(previous@, current@.take(i as int)),
        decreases current@.len() - i,
    {
        let ghost cur_i = current@.take(i + 1);
        assert(cur_i.drop_last() =~= current@.take(i as int));
        assert(cur_i.last() == current@[i as int]);
        match find_pane(previous, &current[i].pane_id) {
            Some(j) => {
                let p = &previous[j];
                let c = &current[i];
                assert(pane_map(previous@)[c.pane_id@] == previous@[j as int]);
                if p.x != c.x || p.y != c.y || p.width != c.width || p.height != c.height {
                    let ghost c0 = changes@;
                    changes.push(LayoutChange::PaneResized(copy_geometry(c)));
                    assert(changes@ =~= opened_closed + resized_changes(previous@, current@.take(i as int)).push(
                        LayoutChange::PaneResized(current@[i as int]),
                    ));
                }
            },
            None => {
                assert(!pane_map(previous@).contains_key(current@[i as int].pane_id@));
            },
        }
        i = i + 1;
    }
    assert(current@.take(i as int) =~= current@);
    changes
}

proof fn lemma_no_opened(prev: Seq<PaneGeometry>, cur: Seq<PaneGeometry>)
    requires
        forall|i: int| 0 <= i < cur.len() ==> #[trigger] pane_map(prev).contains_key(cur[i].pane_id@),
    ensures
        opened_changes(prev, cur).len() == 0,
    decreases cur.len(),
{
    if cur.len() > 0 {
        lemma_no_opened(prev, cur.drop_last());
        assert(pane_map(prev).contains_key(cur[cur.len() - 1].pane_id@));
    }
}

proof fn lemma_no_closed(prev: Seq<PaneGeometry>, cur: Seq<PaneGeometry>)
    requires
        forall|i: int| 0 <= i < prev.len() ==> #[trigger] pane_map(cur).contains_key(prev[i].pane_id@),
    ensures
        closed_changes(prev, cur).len() == 0,
    decreases prev.len(),
{
    if prev.len() > 0 {
        lemma_no_closed(prev.drop_last(), cur);
        assert(pane_map(cur).contains_key(prev[prev.len() - 1].pane_id@));
    }
}

proof fn lemma_no_resized(prev: Seq<PaneGeometry>, cur: Seq<PaneGeometry>)
    requires
        forall|i: int| 0 <= i < cur.len() ==> #[trigger] pane_map(prev)[cur[i].pane_id@] == cur[i],
    ensures
        resized_changes(prev, cur).len() == 0,
    decreases cur.len(),
{
    if cur.len() > 0 {
        lemma_no_resized(prev, cur.drop_last());
        assert(pane_map(prev)[cur[cur.len() - 1].pane_id@] == cur[cur.len() - 1]);
    }
}

/// Two polls that read the same layout report no change.
pub proof fn lemma_same_layout_no_changes(s: Seq<PaneGeometry>)
    requires
        distinct_ids(s),
    ensures
        layout_changes(s, s).len() == 0,
{
    lemma_pane_map(s);
    assert forall|i: int| 0 <= i < s.len() implies #[trigger] pane_map(s).contains_key(s[i].pane_id@) by {}
    lemma_no_opened(s, s);
    lemma_no_closed(s, s);
    lemma_no_resized(s, s);
}

/// The tab of the first pane, if any (taken as the active tab).
pub open spec fn active_tab_of(state: Seq<PaneGeometry>) -> Option<u32> {
    if state.len() == 0 {
        None
    } else {
        Some(state[0].tab_index)
    }
}

/// Get the active tab index from the current layout state: the tab of its
/// first pane.
pub fn get_active_tab(state: &Vec<PaneGeometry>) -> (r: Option<u32>)
    ensures
        r == active_tab_of(state@),
{
    if state.len() == 0 {
        None
    } else {
        Some(state[0].tab_index)
    }
}

/// The window index on the first row `index active ...` whose second field
/// is `1`; an index that does not read counts as 0.
pub open spec fn active_window(rows: Seq<Seq<Seq<char>>>) -> Option<u32>
    decreases rows.len(),
{
    if rows.len() == 0 {
        None
    } else if rows[0].len() >= 2 && rows[0][1] == seq!['1'] {
        Some(parse_or(rows[0][0], u32::MAX as nat, 0) as u32)
    } else {
        active_window(rows.skip(1))
    }
}

/// The active window in a listing of rows `#{window_index} #{window_active}`.
pub fn active_window_in_listing(stdout: &str) -> (r: Option<u32>)
    ensures
        r == active_window(lines(stdout@).map_values(|l: Seq<char>| words(l))),
{
    let text = chars_of(stdout);
    let ls = split_lines(&text);
    let ghost rows = lines(stdout@).map_values(|l: Seq<char>| words(l));
    let mut i: usize = 0;
    proof {
        reveal_strlit("1");
        assert("1"@ =~= seq!['1']);
        assert(rows.skip(0) =~= rows);
    }
    while i < ls.len()
        invariant
            i <= ls@.len(),
            ls@.map_values(|w: Vec<char>| w@) == lines(stdout@),
            rows == lines(stdout@).map_values(|l: Seq<char>| words(l)),
            "1"@ == seq!['1'],
            active_window(rows) == active_window(rows.skip(i as int)),
        decreases ls@.len() - i,
    {
        let f = split_words(&ls[i]);
        let ghost fv = f@.map_values(|w: Vec<char>| w@);
        assert(rows[i as int] == fv);
        assert(rows.skip(i as int)[0] == rows[i as int]);
        assert(rows.skip(i as int).skip(1) =~= rows.skip(i + 1));
        if f.len() >= 2 && eq_str(&f[1], "1") {
            assert(fv[1] == f@[1]@);
            let n = match parse_unsigned_vec(&f[0], 4294967295) {
                Some(v) => v,
                None => 0,
            };
            return Some(n as u32);
        }
        proof {
            if fv.len() >= 2 {
                assert(fv[1] == f@[1]@);
            }
        }
        i = i + 1;
    }
    None
}

// ---------------------------------------------------------------------------
// The monitor's decisions
// ---------------------------------------------------------------------------

/// What the monitor does after a poll.
#[derive(Debug)]
pub enum MonitorAction {
    /// Start recording a pane.
    AddPane(String),
    /// Stop recording a pane.
    RemovePane(String),
    /// Write an event to the layout journal.
    Record(LayoutEvent),
}

/// What the monitor remembers between polls.
pub struct MonitorState {
    /// The layout of the last successful poll.
    pub previous: Vec<PaneGeometry>,
    /// The active tab seen so far, if any.
    pub active_tab: Option<u32>,
}

/// The actions that one change calls for.
pub open spec fn change_actions(c: LayoutChange) -> Seq<MonitorAction> {
    match c {
        LayoutChange::PaneOpened(g) => seq![
            MonitorAction::AddPane(g.pane_id),
            MonitorAction::Record(LayoutEvent::PaneOpened {
                pane_id: g.pane_id,
                x: g.x,
                y: g.y,
                width: g.width,
                height: g.height,
                tab_index: g.tab_index,
            }),
        ],
        LayoutChange::PaneClosed(id) => seq![
            MonitorAction::RemovePane(id),
            MonitorAction::Record(LayoutEvent::PaneClosed { pane_id: id }),
        ],
        LayoutChange::PaneResized(g) => seq![
            MonitorAction::Record(LayoutEvent::PaneResized {
                pane_id: g.pane_id,
                x: g.x,
                y: g.y,
                width: g.width,
                height: g.height,
            }),
        ],
    }
}

/// The actions for a run of changes, in order.
pub open spec fn changes_actions(cs: Seq<LayoutChange>) -> Seq<MonitorAction>
    decreases cs.len(),
{
    if cs.len() == 0 {
        seq![]
    } else {
        changes_actions(cs.drop_last()) + change_actions(cs.last())
    }
}

/// The active tab after a poll whose first pane is on `seen`.
pub open spec fn next_active_tab(active: Option<u32>, seen: Option<u32>) -> Option<u32> {
    match seen {
        Some(t) => Some(t),
        None => active,
    }
}

/// A tab switch is recorded when a tab was already known and the poll shows
/// another one.
pub open spec fn tab_actions(active: Option<u32>, seen: Option<u32>) -> Seq<MonitorAction> {
    match (active, seen) {
        (Some(a), Some(t)) => if a != t {
            seq![MonitorAction::Record(LayoutEvent::TabSwitched { tab_index: t })]
        } else {
            seq![]
        },
        _ => seq![],
    }
}

impl MonitorState {
    /// The state before the first poll: no panes, no tab.
    pub fn new() -> (s: Self)
        ensures
            s.previous@.len() == 0,
            s.active_tab.is_none(),
    {
        MonitorState { previous: Vec::new(), active_tab: None }
    }

    /// The well-formedness of the remembered layout.
    pub open spec fn wf(&self) -> bool {
        distinct_ids(self.previous@)
    }
}

fn change_to_actions(c: &LayoutChange, out: &mut Vec<MonitorAction>)
    ensures
        final(out)@ == old(out)@ + change_actions(*c),
{
    match c {
        LayoutChange::PaneOpened(g) => {
            out.push(MonitorAction::AddPane(g.pane_id.clone()));
            out.push(MonitorAction::Record(LayoutEvent::PaneOpened {
                pane_id: g.pane_id.clone(),
                x: g.x,
                y: g.y,
                width: g.width,
                height: g.height,
                tab_index: g.tab_index,
            }));
        },
        LayoutChange::PaneClosed(id) => {
            out.push(MonitorAction::RemovePane(id.clone()));
            out.push(MonitorAction::Record(LayoutEvent::PaneClosed { pane_id: id.clone() }));
        },
        LayoutChange::PaneResized(g) => {
            out.push(MonitorAction::Record(LayoutEvent::PaneResized {
                pane_id: g.pane_id.clone(),
                x: g.x,
                y: g.y,
                width: g.width,
                height: g.height,
            }));
        },
    }
    assert(final(out)@ =~= old(out)@ + change_actions(*c));
}

/// One poll of the monitor: given the layout just read, the actions to take
/// (for each change, in the order `detect_changes` gives; then a tab switch)
/// and the state for the next poll. Taking a periodic snapshot is the
/// caller's, since it depends on the clock.
pub fn monitor_step(state: &mut MonitorState, current: Vec<PaneGeometry>) -> (actions: Vec<MonitorAction>)
    requires
        old(state).wf(),
        distinct_ids(current@),
    ensures
        final(state).wf(),
        final(state).previous@ == current@,
        final(state).active_tab == next_active_tab(old(state).active_tab, active_tab_of(current@)),
        actions@ == changes_actions(layout_changes(old(state).previous@, current@)) + tab_actions(
            old(state).active_tab,
            active_tab_of(current@),
        ),
{
    let changes = detect_changes(&state.previous, &current);
    let mut actions: Vec<MonitorAction> = Vec::new();
    let mut i: usize = 0;
    while i < changes.len()
        invariant
            i <= changes@.len(),
            actions@ == changes_actions(changes@.take(i as int)),
        decreases changes@.len() - i,
    {
        change_to_actions(&changes[i], &mut actions);
        assert(changes@.take(i + 1).drop_last() =~= changes@.take(i as int));
        i = i + 1;
    }
    assert(changes@.take(i as int) =~= changes@);
    let seen = get_active_tab(&current);
    match (state.active_tab, seen) {
        (Some(a), Some(t)) => {
            if a != t {
                actions.push(MonitorAction::Record(LayoutEvent::TabSwitched { tab_index: t }));
            }
        },
        _ => {},
    }
    if let Some(t) = seen {
        state.active_tab = Some(t);
    }
    state.previous = current;
    actions
}

// ---------------------------------------------------------------------------
// The journal follows the polls
// ---------------------------------------------------------------------------

/// The journal event that records a change.
pub open spec fn change_event(c: LayoutChange) -> LayoutEvent {
    match c {
        LayoutChange::PaneOpened(g) => LayoutEvent::PaneOpened {
            pane_id: g.pane_id,
            x: g.x,
            y: g.y,
            width: g.width,
            height: g.height,
            tab_index: g.tab_index,
        },
        LayoutChange::PaneClosed(id) => LayoutEvent::PaneClosed { pane_id: id },
        LayoutChange::PaneResized(g) => LayoutEvent::PaneResized {
            pane_id: g.pane_id,
            x: g.x,
            y: g.y,
            width: g.width,
            height: g.height,
        },
    }
}

/// The journal events that record a run of changes.
pub open spec fn change_events(cs: Seq<LayoutChange>) -> Seq<LayoutEvent> {
    cs.map_values(|c: LayoutChange| change_event(c))
}

/// A pane's geometry with its id as text.
pub open spec fn geometry_view(g: PaneGeometry) -> (Seq<char>, u16, u16, u16, u16, u32) {
    (g.pane_id@, g.x, g.y, g.width, g.height, g.tab_index)
}

/// A layout with each pane's id as text.
pub open spec fn layout_view(m: PaneMap) -> Map<Seq<char>, (Seq<char>, u16, u16, u16, u16, u32)> {
    m.map_values(|g: PaneGeometry| geometry_view(g))
}

proof fn lemma_events_push(cs: Seq<LayoutChange>, c: LayoutChange)
    ensures
        change_events(cs.push(c)) == change_events(cs).push(change_event(c)),
{
    assert(change_events(cs.push(c)) =~= change_events(cs).push(change_event(c)));
}

proof fn lemma_replay_push(m: PaneMap, es: Seq<LayoutEvent>, e: LayoutEvent)
    ensures
        replay(m, es.push(e)) == apply_event(replay(m, es), e),
{
    assert(es.push(e).drop_last() =~= es);
}

proof fn lemma_opened_stage(prev: Seq<PaneGeometry>, t: Seq<PaneGeometry>)
    ensures
        forall|k: Seq<char>|
            #[trigger] replay(pane_map(prev), change_events(opened_changes(prev, t))).contains_key(k) <==> (pane_map(
                prev,
            ).contains_key(k) || pane_map(t).contains_key(k)),
        forall|k: Seq<char>|
            #[trigger] replay(pane_map(prev), change_events(opened_changes(prev, t))).contains_key(k) ==> replay(
                pane_map(prev),
                change_events(opened_changes(prev, t)),
            )[k] == if pane_map(prev).contains_key(k) {
                pane_map(prev)[k]
            } else {
                pane_map(t)[k]
            },
    decreases t.len(),
{
    let p = pane_map(prev);
    if t.len() == 0 {
        assert(opened_changes(prev, t) =~= Seq::<LayoutChange>::empty());
        assert(change_events(Seq::<LayoutChange>::empty()) =~= Seq::<LayoutEvent>::empty());
    } else {
        let t0 = t.drop_last();
        let g = t.last();
        lemma_opened_stage(prev, t0);
        let r0 = replay(p, change_events(opened_changes(prev, t0)));
        if !p.contains_key(g.pane_id@) {
            lemma_events_push(opened_changes(prev, t0), LayoutChange::PaneOpened(g));
            lemma_replay_push(p, change_events(opened_changes(prev, t0)), change_event(LayoutChange::PaneOpened(g)));
            let e = PaneGeometry {
                pane_id: g.pane_id,
                x: g.x,
                y: g.y,
                width: g.width,
                height: g.height,
                tab_index: g.tab_index,
            };
            assert(e == g);
        }
    }
}

proof fn lemma_closed_stage(a: PaneMap, u: Seq<PaneGeometry>, cur: Seq<PaneGeometry>)
    ensures
        forall|k: Seq<char>|
            #[trigger] replay(a, change_events(closed_changes(u, cur))).contains_key(k) <==> (a.contains_key(k) && !(
            pane_map(u).contains_key(k) && !pane_map(cur).contains_key(k))),
        forall|k: Seq<char>|
            #[trigger] replay(a, change_events(closed_changes(u, cur))).contains_key(k) ==> replay(
                a,
                change_events(closed_changes(u, cur)),
            )[k] == a[k],
    decreases u.len(),
{
    if u.len() == 0 {
        assert(closed_changes(u, cur) =~= Seq::<LayoutChange>::empty());
        assert(change_events(Seq::<LayoutChange>::empty()) =~= Seq::<LayoutEvent>::empty());
    } else {
        let u0 = u.drop_last();
        let g = u.last();
        lemma_closed_stage(a, u0, cur);
        if !pane_map(cur).contains_key(g.pane_id@) {
            lemma_events_push(closed_changes(u0, cur), LayoutChange::PaneClosed(g.pane_id));
            lemma_replay_push(a, change_events(closed_changes(u0, cur)), change_event(LayoutChange::PaneClosed(g.pane_id)));
        }
    }
}

proof fn lemma_resized_stage(prev: Seq<PaneGeometry>, b: PaneMap, w: Seq<PaneGeometry>)
    requires
        distinct_ids(w),
        forall|k: Seq<char>| #[trigger] pane_map(w).contains_key(k) ==> b.contains_key(k),
    ensures
        forall|k: Seq<char>|
            #[trigger] replay(b, change_events(resized_changes(prev, w))).contains_key(k) <==> b.contains_key(k),
        forall|k: Seq<char>|
            #[trigger] replay(b, change_events(resized_changes(prev, w))).contains_key(k) ==> replay(
                b,
                change_events(resized_changes(prev, w)),
            )[k] == if pane_map(w).contains_key(k) && pane_map(prev).contains_key(k) && moved(
                pane_map(prev)[k],
                pane_map(w)[k],
            ) {
                PaneGeometry {
                    x: pane_map(w)[k].x,
                    y: pane_map(w)[k].y,
                    width: pane_map(w)[k].width,
                    height: pane_map(w)[k].height,
                    ..b[k]
                }
            } else {
                b[k]
            },
    decreases w.len(),
{
    if w.len() == 0 {
        assert(resized_changes(prev, w) =~= Seq::<LayoutChange>::empty());
        assert(change_events(Seq::<LayoutChange>::empty()) =~= Seq::<LayoutEvent>::empty());
    } else {
        let w0 = w.drop_last();
        let g = w.last();
        assert(distinct_ids(w0)) by {
            assert forall|i: int, j: int|
                0 <= i < w0.len() && 0 <= j < w0.len() && i != j implies #[trigger] w0[i].pane_id@ != #[trigger] w0[j].pane_id@ by {
                assert(w0[i] == w[i] && w0[j] == w[j]);
            }
        }
        lemma_pane_map(w);
        lemma_pane_map(w0);
        assert forall|k: Seq<char>| #[trigger] pane_map(w0).contains_key(k) implies b.contains_key(k) by {
            let j = choose|j: int| 0 <= j < w0.len() && w0[j].pane_id@ == k;
            assert(w[j] == w0[j]);
            assert(pane_map(w).contains_key(k));
        }
        assert(!pane_map(w0).contains_key(g.pane_id@)) by {
            if pane_map(w0).contains_key(g.pane_id@) {
                let j = choose|j: int| 0 <= j < w0.len() && w0[j].pane_id@ == g.pane_id@;
                assert(w[j] == w0[j]);
                assert(w[w.len() - 1] == g);
            }
        }
        lemma_resized_stage(prev, b, w0);
        assert(pane_map(w) == pane_map(w0).insert(g.pane_id@, g));
        let r0 = replay(b, change_events(resized_changes(prev, w0)));
        if pane_map(prev).contains_key(g.pane_id@) && moved(pane_map(prev)[g.pane_id@], g) {
            lemma_events_push(resized_changes(prev, w0), LayoutChange::PaneResized(g));
            lemma_replay_push(b, change_events(resized_changes(prev, w0)), change_event(LayoutChange::PaneResized(g)));
            assert(pane_map(w).contains_key(g.pane_id@));
            assert(b.contains_key(g.pane_id@));
            assert(r0.contains_key(g.pane_id@));
        }
    }
}

/// The journal events among a run of actions, in order.
pub open spec fn recorded_events(acts: Seq<MonitorAction>) -> Seq<LayoutEvent>
    decreases acts.len(),
{
    if acts.len() == 0 {
        seq![]
    } else {
        let r = recorded_events(acts.drop_last());
        match acts.last() {
            MonitorAction::Record(e) => r.push(e),
            _ => r,
        }
    }
}

proof fn lemma_recorded_append(a: Seq<MonitorAction>, b: Seq<MonitorAction>)
    ensures
        recorded_events(a + b) == recorded_events(a) + recorded_events(b),
    decreases b.len(),
{
    if b.len() == 0 {
        assert(a + b =~= a);
        assert(recorded_events(a) + recorded_events(b) =~= recorded_events(a));
    } else {
        lemma_recorded_append(a, b.drop_last());
        assert((a + b).drop_last() =~= a + b.drop_last());
        assert((a + b).last() == b.last());
        match b.last() {
            MonitorAction::Record(e) => {
                assert(recorded_events(a) + recorded_events(b.drop_last()).push(e) =~= (recorded_events(a)
                    + recorded_events(b.drop_last())).push(e));
            },
            _ => {},
        }
    }
}

/// What the monitor writes to the journal for a run of changes is one
/// event per change, in order.
pub proof fn lemma_monitor_records_changes(cs: Seq<LayoutChange>)
    ensures
        recorded_events(changes_actions(cs)) == change_events(cs),
    decreases cs.len(),
{
    if cs.len() == 0 {
        assert(change_events(cs) =~= Seq::<LayoutEvent>::empty());
    } else {
        lemma_monitor_records_changes(cs.drop_last());
        let c = cs.last();
        lemma_recorded_append(changes_actions(cs.drop_last()), change_actions(c));
        assert(change_events(cs) =~= change_events(cs.drop_last()).push(change_event(c)));
        let ca = change_actions(c);
        let empty = Seq::<MonitorAction>::empty();
        assert(recorded_events(empty) == Seq::<LayoutEvent>::empty());
        match c {
            LayoutChange::PaneOpened(g) => {
                let d = ca.drop_last();
                assert(d =~= seq![MonitorAction::AddPane(g.pane_id)]);
                assert(d.drop_last() =~= empty);
                assert(recorded_events(d) == recorded_events(d.drop_last()));
                assert(ca.last() == MonitorAction::Record(change_event(c)));
                assert(recorded_events(ca) == recorded_events(d).push(change_event(c)));
                assert(recorded_events(ca) =~= seq![change_event(c)]);
            },
            LayoutChange::PaneClosed(id) => {
                let d = ca.drop_last();
                assert(d =~= seq![MonitorAction::RemovePane(id)]);
                assert(d.drop_last() =~= empty);
                assert(recorded_events(d) == recorded_events(d.drop_last()));
                assert(ca.last() == MonitorAction::Record(change_event(c)));
                assert(recorded_events(ca) == recorded_events(d).push(change_event(c)));
                assert(recorded_events(ca) =~= seq![change_event(c)]);
            },
            LayoutChange::PaneResized(g) => {
                let d = ca.drop_last();
                assert(d =~= empty);
                assert(ca.last() == MonitorAction::Record(change_event(c)));
                assert(recorded_events(ca) == recorded_events(d).push(change_event(c)));
                assert(recorded_events(ca) =~= seq![change_event(c)]);
            },
        }
        assert(change_events(cs.drop_last()) + seq![change_event(c)] =~= change_events(cs.drop_last()).push(change_event(c)));
    }
}

/// The journal follows the polls: replaying the events that the monitor
/// records for a poll onto the layout of the poll before gives the layout
/// just read (ids, positions and sizes), as long as no pane that stayed
/// changed tab (a tab change alone is not a layout change).
pub proof fn lemma_journal_follows_polls(prev: Seq<PaneGeometry>, cur: Seq<PaneGeometry>)
    requires
        distinct_ids(prev),
        distinct_ids(cur),
        forall|k: Seq<char>|
            pane_map(prev).contains_key(k) && pane_map(cur).contains_key(k) ==> #[trigger] pane_map(prev)[k].tab_index
                == pane_map(cur)[k].tab_index,
    ensures
        layout_view(replay(pane_map(prev), change_events(layout_changes(prev, cur)))) == layout_view(pane_map(cur)),
{
    let p = pane_map(prev);
    let c = pane_map(cur);
    let ea = change_events(opened_changes(prev, cur));
    let eb = change_events(closed_changes(prev, cur));
    let ec = change_events(resized_changes(prev, cur));
    assert(change_events(layout_changes(prev, cur)) =~= ea + eb + ec);
    lemma_pane_map_keyed(prev);
    lemma_pane_map_keyed(cur);
    lemma_opened_stage(prev, cur);
    let a = replay(p, ea);
    lemma_closed_stage(a, prev, cur);
    let b = replay(a, eb);
    assert forall|k: Seq<char>| #[trigger] c.contains_key(k) implies b.contains_key(k) by {
        assert(a.contains_key(k));
    }
    lemma_resized_stage(prev, b, cur);
    let r = replay(b, ec);
    lemma_replay_append(p, ea, eb);
    lemma_replay_append(p, ea + eb, ec);
    assert(r == replay(p, ea + eb + ec));
    assert forall|k: Seq<char>| #[trigger] r.contains_key(k) <==> c.contains_key(k) by {
        if b.contains_key(k) && !c.contains_key(k) {
            assert(a.contains_key(k));
            assert(p.contains_key(k));
            lemma_pane_map(prev);
            let j = choose|j: int| 0 <= j < prev.len() && prev[j].pane_id@ == k;
            assert(pane_map(prev).contains_key(k));
        }
    }
    assert forall|k: Seq<char>| #[trigger] r.contains_key(k) implies geometry_view(r[k]) == geometry_view(c[k]) by {
        assert(b[k] == a[k]);
        if p.contains_key(k) {
            assert(a[k] == p[k]);
            assert(p[k].pane_id@ == k && c[k].pane_id@ == k);
            assert(p[k].tab_index == c[k].tab_index);
        } else {
            assert(a[k] == c[k]);
        }
    }
    assert(layout_view(r) =~= layout_view(c));
}

} // verus!

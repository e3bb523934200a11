//! Observed panes: the in-memory terminal of each recorded pane, fed the
//! pane's output as it arrives and read back on request.

use vstd::prelude::*;
use vstd::utf8::encode_utf8;
use crate::compositor::pane_state::{
    at_least_one, feed, new_terminal, read_alternate, read_contents, read_contents_formatted, read_cursor,
    read_rows_formatted, read_size, screen_alternate, screen_contents, screen_contents_formatted,
    screen_cursor, screen_rows_formatted, terminal_input, terminal_size, Terminal,
};
use crate::text::eq_str;

verus! {

/// Information about a pane's state
#[derive(Debug, Clone)]
pub struct PaneStateInfo {
    pub pane_id: String,
    pub width: u16,
    pub height: u16,
    pub sequence: u64,
}

/// What is known of an observed pane: its terminal's (rows, columns), what
/// the terminal has been fed, and how many updates it has had.
pub ghost struct ObservedView {
    pub size: (u16, u16),
    pub input: Seq<u8>,
    pub sequence: u64,
}

/// Rows one after the other.
pub open spec fn concat_rows(rs: Seq<Seq<u8>>) -> Seq<u8>
    decreases rs.len(),
{
    if rs.len() == 0 {
        seq![]
    } else {
        concat_rows(rs.drop_last()) + rs.last()
    }
}

/// The rows `start..end` of `rs`, the end cut at the last row, one after
/// the other (nothing when the range is empty).
pub open spec fn rows_between(rs: Seq<Seq<u8>>, start: int, end: int) -> Seq<u8> {
    let e = if end < rs.len() { end } else { rs.len() as int };
    if start >= e {
        seq![]
    } else {
        concat_rows(rs.subrange(start, e))
    }
}

/// Terminal state for a single pane.
pub struct PaneTerminalState {
    /// Pane identifier (e.g., "%0")
    pub pane_id: String,
    /// The terminal the pane's output is fed to.
    pub terminal: Terminal,
    /// Number of updates so far (output fed, resizes).
    pub update_sequence: u64,
}

impl PaneTerminalState {
    /// What the terminal has been fed.
    pub open spec fn input(&self) -> Seq<u8> {
        terminal_input(self.terminal)
    }

    /// The terminal's (rows, columns).
    pub open spec fn term_size(&self) -> (u16, u16) {
        terminal_size(self.terminal)
    }

    /// The pane as the manager's view records it.
    pub open spec fn observed(&self) -> ObservedView {
        ObservedView { size: self.term_size(), input: self.input(), sequence: self.update_sequence }
    }

    /// A pane of `width` × `height` (a zero dimension makes a terminal of
    /// one) that has had no output yet.
    pub fn new(pane_id: String, width: u16, height: u16) -> (s: Self)
        ensures
            s.pane_id == pane_id,
            s.update_sequence == 0,
            s.term_size() == (at_least_one(height), at_least_one(width)),
            s.input() == Seq::<u8>::empty(),
    {
        let rows = if height >= 1 { height } else { 1 };
        let cols = if width >= 1 { width } else { 1 };
        PaneTerminalState { pane_id, terminal: new_terminal(rows, cols), update_sequence: 0 }
    }

    /// Feed new output to the terminal: one more update.
    pub fn process(&mut self, data: &[u8])
        requires
            old(self).update_sequence < u64::MAX,
        ensures
            final(self).pane_id == old(self).pane_id,
            final(self).term_size() == old(self).term_size(),
            final(self).input() == old(self).input() + data@,
            final(self).update_sequence == old(self).update_sequence + 1,
    {
        feed(&mut self.terminal, data);
        self.update_sequence = self.update_sequence + 1;
    }

    /// The screen's text.
    pub fn contents(&self) -> (s: String)
        ensures
            s@ == screen_contents(self.term_size().0, self.term_size().1, self.input()),
    {
        read_contents(&self.terminal)
    }

    /// The screen's text with its formatting.
    pub fn contents_formatted(&self) -> (b: Vec<u8>)
        ensures
            b@ == screen_contents_formatted(self.term_size().0, self.term_size().1, self.input()),
    {
        read_contents_formatted(&self.terminal)
    }

    /// The cursor's (row, column), 0-based.
    pub fn cursor_position(&self) -> (pos: (u16, u16))
        ensures
            pos == screen_cursor(self.term_size().0, self.term_size().1, self.input()),
    {
        read_cursor(&self.terminal)
    }

    /// The formatted rows `start_row..end_row` (the end cut at the last
    /// row), one after the other.
    pub fn region(&self, start_row: u16, end_row: u16) -> (b: Vec<u8>)
        ensures
            b@ == rows_between(
                screen_rows_formatted(self.term_size().0, self.term_size().1, self.input(), 0, self.term_size().1),
                start_row as int,
                end_row as int,
            ),
    {
        let (_rows, cols) = read_size(&self.terminal);
        let all = read_rows_formatted(&self.terminal, 0, cols);
        let ghost rs = all@.map_values(|r: Vec<u8>| r@);
        let end: usize = if (end_row as usize) < all.len() { end_row as usize } else { all.len() };
        let mut out: Vec<u8> = Vec::new();
        let mut i: usize = start_row as usize;
        if i >= end {
            assert(rows_between(rs, start_row as int, end_row as int) =~= Seq::<u8>::empty());
            return out;
        }
        assert(concat_rows(rs.subrange(start_row as int, i as int)) =~= Seq::<u8>::empty());
        while i < end
            invariant
                start_row <= i <= end <= all@.len(),
                rs == all@.map_values(|r: Vec<u8>| r@),
                out@ == concat_rows(rs.subrange(start_row as int, i as int)),
            decreases end - i,
        {
            let row = &all[i];
            let ghost before = out@;
            let mut j: usize = 0;
            while j < row.len()
                invariant
                    j <= row@.len(),
                    out@ == before + row@.take(j as int),
                decreases row@.len() - j,
            {
                out.push(row[j]);
                assert(row@.take(j + 1) =~= row@.take(j as int).push(row@[j as int]));
                j = j + 1;
            }
            assert(row@.take(j as int) =~= row@);
            assert(rs.subrange(start_row as int, i + 1).drop_last() =~= rs.subrange(start_row as int, i as int));
            assert(rs[i as int] == row@);
            i = i + 1;
        }
        out
    }

    /// The terminal's (width, height).
    pub fn dimensions(&self) -> (d: (u16, u16))
        ensures
            d == (self.term_size().1, self.term_size().0),
    {
        let (rows, cols) = read_size(&self.terminal);
        (cols, rows)
    }

    /// Whether the alternate screen is in use.
    pub fn alternate_screen(&self) -> (b: bool)
        ensures
            b == screen_alternate(self.term_size().0, self.term_size().1, self.input()),
    {
        read_alternate(&self.terminal)
    }

    /// The number of updates so far.
    pub fn sequence(&self) -> (n: u64)
        ensures
            n == self.update_sequence,
    {
        self.update_sequence
    }

    /// Resize: a fresh terminal of the new size fed the old screen's text,
    /// one more update.
    pub fn resize(&mut self, width: u16, height: u16)
        requires
            old(self).update_sequence < u64::MAX,
        ensures
            final(self).pane_id == old(self).pane_id,
            final(self).term_size() == (at_least_one(height), at_least_one(width)),
            final(self).input() == encode_utf8(
                screen_contents(old(self).term_size().0, old(self).term_size().1, old(self).input()),
            ),
            final(self).update_sequence == old(self).update_sequence + 1,
    {
        let content = read_contents(&self.terminal);
        let rows = if height >= 1 { height } else { 1 };
        let cols = if width >= 1 { width } else { 1 };
        let mut resized = new_terminal(rows, cols);
        feed(&mut resized, content.as_str().as_bytes());
        self.terminal = resized;
        self.update_sequence = self.update_sequence + 1;
    }
}

// ---------------------------------------------------------------------------
// All observed panes
// ---------------------------------------------------------------------------

/// No pane id occurs twice.
pub open spec fn distinct_panes(s: Seq<PaneTerminalState>) -> bool {
    forall|i: int, j: int| 0 <= i < j < s.len() ==> s[i].pane_id@ != s[j].pane_id@
}

/// Whether a pane with id `k` is in `s`.
pub open spec fn has_pane(s: Seq<PaneTerminalState>, k: Seq<char>) -> bool {
    exists|i: int| 0 <= i < s.len() && #[trigger] s[i].pane_id@ == k
}

/// The observed panes by id.
pub open spec fn panes_view(s: Seq<PaneTerminalState>) -> Map<Seq<char>, ObservedView> {
    Map::new(
        |k: Seq<char>| has_pane(s, k),
        |k: Seq<char>| s[choose|i: int| 0 <= i < s.len() && #[trigger] s[i].pane_id@ == k].observed(),
    )
}

proof fn lemma_view_at(s: Seq<PaneTerminalState>, i: int)
    requires
        distinct_panes(s),
        0 <= i < s.len(),
    ensures
        panes_view(s).contains_key(s[i].pane_id@),
        panes_view(s)[s[i].pane_id@] == s[i].observed(),
{
    let k = s[i].pane_id@;
    assert(has_pane(s, k));
    let j = choose|j: int| 0 <= j < s.len() && #[trigger] s[j].pane_id@ == k;
    if j != i {
        if j < i {
            assert(s[j].pane_id@ != s[i].pane_id@);
        } else {
            assert(s[i].pane_id@ != s[j].pane_id@);
        }
    }
}

/// Replacing the pane at `i` by one with the same id changes only its entry.
proof fn lemma_view_update(s: Seq<PaneTerminalState>, i: int, p: PaneTerminalState)
    requires
        distinct_panes(s),
        0 <= i < s.len(),
        p.pane_id@ == s[i].pane_id@,
    ensures
        distinct_panes(s.update(i, p)),
        panes_view(s.update(i, p)) == panes_view(s).insert(p.pane_id@, p.observed()),
{
    let t = s.update(i, p);
    assert forall|a: int, b: int| 0 <= a < b < t.len() implies t[a].pane_id@ != t[b].pane_id@ by {
        assert(t[a].pane_id@ == s[a].pane_id@);
        assert(t[b].pane_id@ == s[b].pane_id@);
    }
    let m = panes_view(s).insert(p.pane_id@, p.observed());
    assert forall|k: Seq<char>| #[trigger] panes_view(t).contains_key(k) <==> m.contains_key(k) by {
        if has_pane(t, k) {
            let j = choose|j: int| 0 <= j < t.len() && #[trigger] t[j].pane_id@ == k;
            assert(s[j].pane_id@ == k);
            assert(has_pane(s, k));
        }
        if has_pane(s, k) {
            let j = choose|j: int| 0 <= j < s.len() && #[trigger] s[j].pane_id@ == k;
            assert(t[j].pane_id@ == k);
            assert(has_pane(t, k));
        }
    }
    assert forall|k: Seq<char>| #[trigger] panes_view(t).contains_key(k) implies panes_view(t)[k] == m[k] by {
        let j = choose|j: int| 0 <= j < t.len() && #[trigger] t[j].pane_id@ == k;
        lemma_view_at(t, j);
        if j != i {
            lemma_view_at(s, j);
            assert(t[j] == s[j]);
        }
    }
    assert(panes_view(t) =~= m);
}

/// Adding a pane whose id is not there adds its entry.
proof fn lemma_view_push(s: Seq<PaneTerminalState>, p: PaneTerminalState)
    requires
        distinct_panes(s),
        !has_pane(s, p.pane_id@),
    ensures
        distinct_panes(s.push(p)),
        panes_view(s.push(p)) == panes_view(s).insert(p.pane_id@, p.observed()),
{
    let t = s.push(p);
    assert forall|a: int, b: int| 0 <= a < b < t.len() implies t[a].pane_id@ != t[b].pane_id@ by {
        if b == s.len() {
            assert(t[a] == s[a]);
            if s[a].pane_id@ == p.pane_id@ {
                assert(has_pane(s, p.pane_id@));
            }
        } else {
            assert(t[a] == s[a] && t[b] == s[b]);
        }
    }
    let m = panes_view(s).insert(p.pane_id@, p.observed());
    assert forall|k: Seq<char>| #[trigger] panes_view(t).contains_key(k) <==> m.contains_key(k) by {
        if has_pane(t, k) {
            let j = choose|j: int| 0 <= j < t.len() && #[trigger] t[j].pane_id@ == k;
            if j < s.len() {
                assert(t[j] == s[j]);
                assert(has_pane(s, k));
            }
        }
        if has_pane(s, k) {
            let j = choose|j: int| 0 <= j < s.len() && #[trigger] s[j].pane_id@ == k;
            assert(t[j] == s[j]);
            assert(has_pane(t, k));
        }
        if k == p.pane_id@ {
            assert(t[s.len() as int] == p);
            assert(has_pane(t, k));
        }
    }
    assert forall|k: Seq<char>| #[trigger] panes_view(t).contains_key(k) implies panes_view(t)[k] == m[k] by {
        let j = choose|j: int| 0 <= j < t.len() && #[trigger] t[j].pane_id@ == k;
        lemma_view_at(t, j);
        if j < s.len() {
            assert(t[j] == s[j]);
            lemma_view_at(s, j);
        }
    }
    assert(panes_view(t) =~= m);
}

/// Removing the pane at `i` removes its entry.
proof fn lemma_view_remove(s: Seq<PaneTerminalState>, i: int)
    requires
        distinct_panes(s),
        0 <= i < s.len(),
    ensures
        distinct_panes(s.remove(i)),
        panes_view(s.remove(i)) == panes_view(s).remove(s[i].pane_id@),
{
    let t = s.remove(i);
    let gone = s[i].pane_id@;
    let idx = |a: int| if a < i { a } else { a + 1 };
    assert forall|a: int| 0 <= a < t.len() implies #[trigger] t[a] == s[idx(a)] by {}
    assert forall|a: int, b: int| 0 <= a < b < t.len() implies t[a].pane_id@ != t[b].pane_id@ by {
        assert(t[a] == s[idx(a)]);
        assert(t[b] == s[idx(b)]);
    }
    let m = panes_view(s).remove(gone);
    assert forall|k: Seq<char>| #[trigger] panes_view(t).contains_key(k) <==> m.contains_key(k) by {
        if has_pane(t, k) {
            let j = choose|j: int| 0 <= j < t.len() && #[trigger] t[j].pane_id@ == k;
            assert(t[j] == s[idx(j)]);
            assert(has_pane(s, k));
            assert(idx(j) != i);
            if k == gone {
                if idx(j) < i {
                    assert(s[idx(j)].pane_id@ != s[i].pane_id@);
                } else {
                    assert(s[i].pane_id@ != s[idx(j)].pane_id@);
                }
            }
        }
        if has_pane(s, k) && k != gone {
            let j = choose|j: int| 0 <= j < s.len() && #[trigger] s[j].pane_id@ == k;
            assert(j != i);
            let a = if j < i { j } else { j - 1 };
            assert(t[a] == s[idx(a)]);
            assert(t[a].pane_id@ == k);
            assert(has_pane(t, k));
        }
    }
    assert forall|k: Seq<char>| #[trigger] panes_view(t).contains_key(k) implies panes_view(t)[k] == m[k] by {
        let j = choose|j: int| 0 <= j < t.len() && #[trigger] t[j].pane_id@ == k;
        lemma_view_at(t, j);
        assert(t[j] == s[idx(j)]);
        lemma_view_at(s, idx(j));
    }
    assert(panes_view(t) =~= m);
}

/// The panes after output `data` for pane `id`: a tracked pane's terminal
/// is fed the data and has one more update; an untracked id changes nothing.
pub open spec fn output_fed(v: Map<Seq<char>, ObservedView>, id: Seq<char>, data: Seq<u8>) -> Map<Seq<char>, ObservedView> {
    if v.contains_key(id) {
        v.insert(
            id,
            ObservedView { size: v[id].size, input: v[id].input + data, sequence: (v[id].sequence + 1) as u64 },
        )
    } else {
        v
    }
}

/// The panes after the outputs `datas` for pane `id`, in order.
pub open spec fn outputs_fed(v: Map<Seq<char>, ObservedView>, id: Seq<char>, datas: Seq<Seq<u8>>) -> Map<
    Seq<char>,
    ObservedView,
>
    decreases datas.len(),
{
    if datas.len() == 0 {
        v
    } else {
        output_fed(outputs_fed(v, id, datas.drop_last()), id, datas.last())
    }
}

/// Byte strings one after the other.
pub open spec fn concat_bytes(datas: Seq<Seq<u8>>) -> Seq<u8>
    decreases datas.len(),
{
    if datas.len() == 0 {
        seq![]
    } else {
        concat_bytes(datas.drop_last()) + datas.last()
    }
}

/// Feeding a tracked pane `n` outputs counts `n` more updates and feeds its
/// terminal their bytes in order, leaving every other pane as it was (for a
/// count that stays within `u64`).
pub proof fn lemma_outputs_counted(v: Map<Seq<char>, ObservedView>, id: Seq<char>, datas: Seq<Seq<u8>>)
    requires
        v.contains_key(id),
        v[id].sequence + datas.len() <= u64::MAX,
    ensures
        outputs_fed(v, id, datas) == v.insert(
            id,
            ObservedView {
                size: v[id].size,
                input: v[id].input + concat_bytes(datas),
                sequence: (v[id].sequence + datas.len()) as u64,
            },
        ),
    decreases datas.len(),
{
    if datas.len() == 0 {
        assert(v[id].input + concat_bytes(datas) =~= v[id].input);
        assert(v.insert(id, v[id]) =~= v);
    } else {
        lemma_outputs_counted(v, id, datas.drop_last());
        let w = outputs_fed(v, id, datas.drop_last());
        assert(w.contains_key(id));
        assert(w[id].input + datas.last() =~= v[id].input + concat_bytes(datas));
        assert(outputs_fed(v, id, datas) =~= v.insert(
            id,
            ObservedView {
                size: v[id].size,
                input: v[id].input + concat_bytes(datas),
                sequence: (v[id].sequence + datas.len()) as u64,
            },
        ));
    }
}

/// Output for an untracked pane changes nothing, however much of it.
pub proof fn lemma_untracked_outputs_ignored(v: Map<Seq<char>, ObservedView>, id: Seq<char>, datas: Seq<Seq<u8>>)
    requires
        !v.contains_key(id),
    ensures
        outputs_fed(v, id, datas) == v,
    decreases datas.len(),
{
    if datas.len() > 0 {
        lemma_untracked_outputs_ignored(v, id, datas.drop_last());
    }
}

/// The terminal states of all tracked panes, at most one per pane id.
pub struct TerminalStateManager {
    states: Vec<PaneTerminalState>,
}

impl TerminalStateManager {
    /// No pane id occurs twice.
    pub closed spec fn wf(&self) -> bool {
        distinct_panes(self.states@)
    }

    /// The tracked panes by id.
    pub closed spec fn view(&self) -> Map<Seq<char>, ObservedView> {
        panes_view(self.states@)
    }

    /// A manager that tracks no pane.
    pub fn new() -> (m: Self)
        ensures
            m.wf(),
            m.view() == Map::<Seq<char>, ObservedView>::empty(),
    {
        let m = TerminalStateManager { states: Vec::new() };
        assert(m.view() =~= Map::<Seq<char>, ObservedView>::empty());
        m
    }

    fn find(&self, pane_id: &str) -> (r: Option<usize>)
        ensures
            match r {
                Some(i) => i < self.states@.len() && self.states@[i as int].pane_id@ == pane_id@,
                None => !has_pane(self.states@, pane_id@),
            },
    {
        let mut i: usize = 0;
        while i < self.states.len()
            invariant
                i <= self.states@.len(),
                forall|j: int| 0 <= j < i ==> #[trigger] self.states@[j].pane_id@ != pane_id@,
            decreases self.states@.len() - i,
        {
            let id = crate::text::chars_of(self.states[i].pane_id.as_str());
            if eq_str(&id, pane_id) {
                return Some(i);
            }
            i = i + 1;
        }
        None
    }

    /// Start tracking a pane: a fresh terminal of `width` × `height`,
    /// replacing one the pane had.
    pub fn track_pane(&mut self, pane_id: &str, width: u16, height: u16)
        requires
            old(self).wf(),
        ensures
            final(self).wf(),
            final(self).view() == old(self).view().insert(
                pane_id@,
                ObservedView {
                    size: (at_least_one(height), at_least_one(width)),
                    input: Seq::<u8>::empty(),
                    sequence: 0,
                },
            ),
    {
        let state = PaneTerminalState::new(crate::text::string_from(pane_id), width, height);
        let ghost s0 = self.states@;
        match self.find(pane_id) {
            Some(i) => {
                proof {
                    lemma_view_update(s0, i as int, state);
                }
                self.states.set(i, state);
            },
            None => {
                proof {
                    lemma_view_push(s0, state);
                }
                self.states.push(state);
            },
        }
    }

    /// Stop tracking a pane.
    pub fn untrack_pane(&mut self, pane_id: &str)
        requires
            old(self).wf(),
        ensures
            final(self).wf(),
            final(self).view() == old(self).view().remove(pane_id@),
    {
        let ghost s0 = self.states@;
        match self.find(pane_id) {
            Some(i) => {
                proof {
                    lemma_view_remove(s0, i as int);
                }
                self.states.remove(i);
            },
            None => {
                assert(self.view() =~= old(self).view().remove(pane_id@));
            },
        }
    }

    /// Feed output to a tracked pane (one more update); an untracked pane
    /// is left alone.
    pub fn process_output(&mut self, pane_id: &str, data: &[u8])
        requires
            old(self).wf(),
            old(self).view().contains_key(pane_id@) ==> old(self).view()[pane_id@].sequence < u64::MAX,
        ensures
            final(self).wf(),
            final(self).view() == output_fed(old(self).view(), pane_id@, data@),
    {
        let ghost s0 = self.states@;
        match self.find(pane_id) {
            Some(i) => {
                proof {
                    lemma_view_at(s0, i as int);
                }
                let mut state = self.states.remove(i);
                state.process(data);
                proof {
                    lemma_view_update(s0, i as int, state);
                    assert(s0.remove(i as int).insert(i as int, state) =~= s0.update(i as int, state));
                }
                self.states.insert(i, state);
            },
            None => {},
        }
    }

    /// Resize a tracked pane's terminal (one more update); an untracked
    /// pane is left alone.
    pub fn resize_pane(&mut self, pane_id: &str, width: u16, height: u16)
        requires
            old(self).wf(),
            old(self).view().contains_key(pane_id@) ==> old(self).view()[pane_id@].sequence < u64::MAX,
        ensures
            final(self).wf(),
            old(self).view().contains_key(pane_id@) ==> final(self).view() == old(self).view().insert(
                pane_id@,
                ObservedView {
                    size: (at_least_one(height), at_least_one(width)),
                    input: encode_utf8(
                        screen_contents(
                            old(self).view()[pane_id@].size.0,
                            old(self).view()[pane_id@].size.1,
                            old(self).view()[pane_id@].input,
                        ),
                    ),
                    sequence: (old(self).view()[pane_id@].sequence + 1) as u64,
                },
            ),
            !old(self).view().contains_key(pane_id@) ==> final(self).view() == old(self).view(),
    {
        let ghost s0 = self.states@;
        match self.find(pane_id) {
            Some(i) => {
                proof {
                    lemma_view_at(s0, i as int);
                }
                let mut state = self.states.remove(i);
                state.resize(width, height);
                proof {
                    lemma_view_update(s0, i as int, state);
                    assert(s0.remove(i as int).insert(i as int, state) =~= s0.update(i as int, state));
                }
                self.states.insert(i, state);
            },
            None => {},
        }
    }

    /// Whether a pane is tracked.
    pub fn is_tracked(&self, pane_id: &str) -> (b: bool)
        requires
            self.wf(),
        ensures
            b == self.view().contains_key(pane_id@),
    {
        self.find(pane_id).is_some()
    }

    fn state_of(&self, pane_id: &str) -> (r: Option<&PaneTerminalState>)
        requires
            self.wf(),
        ensures
            match r {
                Some(p) => self.view().contains_key(pane_id@) && self.view()[pane_id@] == p.observed(),
                None => !self.view().contains_key(pane_id@),
            },
    {
        match self.find(pane_id) {
            Some(i) => {
                proof {
                    lemma_view_at(self.states@, i as int);
                }
                Some(&self.states[i])
            },
            None => None,
        }
    }

    /// A tracked pane's screen text.
    pub fn get_contents(&self, pane_id: &str) -> (r: Option<String>)
        requires
            self.wf(),
        ensures
            match r {
                Some(s) => self.view().contains_key(pane_id@) && s@ == screen_contents(
                    self.view()[pane_id@].size.0,
                    self.view()[pane_id@].size.1,
                    self.view()[pane_id@].input,
                ),
                None => !self.view().contains_key(pane_id@),
            },
    {
        match self.state_of(pane_id) {
            Some(p) => Some(p.contents()),
            None => None,
        }
    }

    /// A tracked pane's screen text with its formatting.
    pub fn get_contents_formatted(&self, pane_id: &str) -> (r: Option<Vec<u8>>)
        requires
            self.wf(),
        ensures
            match r {
                Some(b) => self.view().contains_key(pane_id@) && b@ == screen_contents_formatted(
                    self.view()[pane_id@].size.0,
                    self.view()[pane_id@].size.1,
                    self.view()[pane_id@].input,
                ),
                None => !self.view().contains_key(pane_id@),
            },
    {
        match self.state_of(pane_id) {
            Some(p) => Some(p.contents_formatted()),
            None => None,
        }
    }

    /// A tracked pane's cursor (row, column).
    pub fn get_cursor(&self, pane_id: &str) -> (r: Option<(u16, u16)>)
        requires
            self.wf(),
        ensures
            match r {
                Some(pos) => self.view().contains_key(pane_id@) && pos == screen_cursor(
                    self.view()[pane_id@].size.0,
                    self.view()[pane_id@].size.1,
                    self.view()[pane_id@].input,
                ),
                None => !self.view().contains_key(pane_id@),
            },
    {
        match self.state_of(pane_id) {
            Some(p) => Some(p.cursor_position()),
            None => None,
        }
    }

    /// A tracked pane's formatted rows `start_row..end_row`.
    pub fn get_region(&self, pane_id: &str, start_row: u16, end_row: u16) -> (r: Option<Vec<u8>>)
        requires
            self.wf(),
        ensures
            match r {
                Some(b) => self.view().contains_key(pane_id@) && b@ == rows_between(
                    screen_rows_formatted(
                        self.view()[pane_id@].size.0,
                        self.view()[pane_id@].size.1,
                        self.view()[pane_id@].input,
                        0,
                        self.view()[pane_id@].size.1,
                    ),
                    start_row as int,
                    end_row as int,
                ),
                None => !self.view().contains_key(pane_id@),
            },
    {
        match self.state_of(pane_id) {
            Some(p) => Some(p.region(start_row, end_row)),
            None => None,
        }
    }

    /// A tracked pane's (width, height).
    pub fn get_dimensions(&self, pane_id: &str) -> (r: Option<(u16, u16)>)
        requires
            self.wf(),
        ensures
            match r {
                Some(d) => self.view().contains_key(pane_id@) && d == (
                    self.view()[pane_id@].size.1,
                    self.view()[pane_id@].size.0,
                ),
                None => !self.view().contains_key(pane_id@),
            },
    {
        match self.state_of(pane_id) {
            Some(p) => Some(p.dimensions()),
            None => None,
        }
    }

    /// Whether a tracked pane shows its alternate screen.
    pub fn is_alternate_screen(&self, pane_id: &str) -> (r: Option<bool>)
        requires
            self.wf(),
        ensures
            match r {
                Some(b) => self.view().contains_key(pane_id@) && b == screen_alternate(
                    self.view()[pane_id@].size.0,
                    self.view()[pane_id@].size.1,
                    self.view()[pane_id@].input,
                ),
                None => !self.view().contains_key(pane_id@),
            },
    {
        match self.state_of(pane_id) {
            Some(p) => Some(p.alternate_screen()),
            None => None,
        }
    }

    /// A tracked pane's number of updates.
    pub fn get_sequence(&self, pane_id: &str) -> (r: Option<u64>)
        requires
            self.wf(),
        ensures
            match r {
                Some(n) => self.view().contains_key(pane_id@) && n == self.view()[pane_id@].sequence,
                None => !self.view().contains_key(pane_id@),
            },
    {
        match self.state_of(pane_id) {
            Some(p) => Some(p.sequence()),
            None => None,
        }
    }

    /// The ids of the tracked panes, each once.
    pub fn tracked_panes(&self) -> (ids: Vec<String>)
        requires
            self.wf(),
        ensures
            ids@.len() == self.view().dom().len(),
            forall|i: int| 0 <= i < ids@.len() ==> self.view().contains_key(#[trigger] ids@[i]@),
            forall|k: Seq<char>| #[trigger] self.view().contains_key(k) ==> exists|i: int| 0 <= i < ids@.len() && ids@[i]@ == k,
            forall|i: int, j: int| 0 <= i < j < ids@.len() ==> ids@[i]@ != ids@[j]@,
    {
        let mut ids: Vec<String> = Vec::new();
        let mut i: usize = 0;
        while i < self.states.len()
            invariant
                i <= self.states@.len(),
                distinct_panes(self.states@),
                ids@.len() == i,
                forall|j: int| 0 <= j < i ==> (#[trigger] ids@[j])@ == self.states@[j].pane_id@,
            decreases self.states@.len() - i,
        {
            ids.push(self.states[i].pane_id.clone());
            i = i + 1;
        }
        proof {
            let s = self.states@;
            assert forall|k: int| 0 <= k < ids@.len() implies self.view().contains_key(#[trigger] ids@[k]@) by {
                assert(s[k].pane_id@ == ids@[k]@);
                assert(has_pane(s, ids@[k]@));
            }
            assert forall|k: Seq<char>| #[trigger] self.view().contains_key(k) implies exists|j: int|
                0 <= j < ids@.len() && ids@[j]@ == k by {
                let j = choose|j: int| 0 <= j < s.len() && #[trigger] s[j].pane_id@ == k;
                assert(ids@[j]@ == k);
            }
            lemma_dom_len(s);
        }
        ids
    }

    /// What is reported of every tracked pane: its id, (width, height) and
    /// number of updates.
    pub fn get_all_info(&self) -> (infos: Vec<PaneStateInfo>)
        requires
            self.wf(),
        ensures
            infos@.len() == self.view().dom().len(),
            forall|i: int| 0 <= i < infos@.len() ==> {
                let k = (#[trigger] infos@[i]).pane_id@;
                &&& self.view().contains_key(k)
                &&& infos@[i].width == self.view()[k].size.1
                &&& infos@[i].height == self.view()[k].size.0
                &&& infos@[i].sequence == self.view()[k].sequence
            },
            forall|k: Seq<char>| #[trigger] self.view().contains_key(k) ==> exists|i: int| 0 <= i < infos@.len() && infos@[i].pane_id@ == k,
    {
        let mut infos: Vec<PaneStateInfo> = Vec::new();
        let mut i: usize = 0;
        while i < self.states.len()
            invariant
                i <= self.states@.len(),
                distinct_panes(self.states@),
                infos@.len() == i,
                forall|j: int| 0 <= j < i ==> {
                    let p = self.states@[j];
                    &&& (#[trigger] infos@[j]).pane_id@ == p.pane_id@
                    &&& infos@[j].width == p.term_size().1
                    &&& infos@[j].height == p.term_size().0
                    &&& infos@[j].sequence == p.update_sequence
                },
            decreases self.states@.len() - i,
        {
            let p = &self.states[i];
            let (width, height) = p.dimensions();
            infos.push(PaneStateInfo { pane_id: p.pane_id.clone(), width, height, sequence: p.sequence() });
            i = i + 1;
        }
        proof {
            let s = self.states@;
            assert forall|k: int| 0 <= k < infos@.len() implies {
                let id = (#[trigger] infos@[k]).pane_id@;
                &&& self.view().contains_key(id)
                &&& infos@[k].width == self.view()[id].size.1
                &&& infos@[k].height == self.view()[id].size.0
                &&& infos@[k].sequence == self.view()[id].sequence
            } by {
                lemma_view_at(s, k);
            }
            assert forall|k: Seq<char>| #[trigger] self.view().contains_key(k) implies exists|j: int|
                0 <= j < infos@.len() && infos@[j].pane_id@ == k by {
                let j = choose|j: int| 0 <= j < s.len() && #[trigger] s[j].pane_id@ == k;
                assert(infos@[j].pane_id@ == k);
            }
            lemma_dom_len(s);
        }
        infos
    }
}

impl Default for TerminalStateManager {
    fn default() -> (m: Self)
        ensures
            m.wf(),
            m.view() == Map::<Seq<char>, ObservedView>::empty(),
    {
        TerminalStateManager::new()
    }
}

/// The number of tracked panes is the number of states.
proof fn lemma_dom_len(s: Seq<PaneTerminalState>)
    requires
        distinct_panes(s),
    ensures
        panes_view(s).dom().len() == s.len(),
        panes_view(s).dom().finite(),
    decreases s.len(),
{
    if s.len() == 0 {
        assert(panes_view(s).dom() =~= Set::<Seq<char>>::empty());
    } else {
        let t = s.drop_last();
        assert forall|a: int, b: int| 0 <= a < b < t.len() implies t[a].pane_id@ != t[b].pane_id@ by {
            assert(t[a] == s[a] && t[b] == s[b]);
        }
        lemma_dom_len(t);
        let last = s.last();
        if has_pane(t, last.pane_id@) {
            let j = choose|j: int| 0 <= j < t.len() && #[trigger] t[j].pane_id@ == last.pane_id@;
            assert(s[j].pane_id@ != s[s.len() - 1].pane_id@);
        }
        lemma_view_push(t, last);
        assert(t.push(last) =~= s);
        assert(panes_view(s).dom() =~= panes_view(t).dom().insert(last.pane_id@));
    }
}

} // verus!

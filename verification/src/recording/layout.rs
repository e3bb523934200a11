//! The layout journal's model: pane geometry, the events that change it, and
//! the reconstruction of the layout from a run of events.
//!
//! A layout is a set of panes keyed by pane id. Executable code holds it as a
//! vector in which no id occurs twice; its meaning is the map from id to
//! geometry (`pane_map`).

use vstd::prelude::*;
use crate::text::{chars_of, lines, parse_unsigned, parse_unsigned_vec, rows_with, split_lines, split_words, string_of, words};

verus! {

/// Geometry information for a single pane.
#[derive(Debug, Clone, PartialEq, Eq)]
pub struct PaneGeometry {
    /// Pane ID (e.g., "%5")
    pub pane_id: String,
    /// X coordinate (columns from left)
    pub x: u16,
    /// Y coordinate (rows from top)
    pub y: u16,
    /// Width in columns
    pub width: u16,
    /// Height in rows
    pub height: u16,
    /// Tab (window) index
    pub tab_index: u32,
}

/// Layout change events.
#[derive(Debug, Clone, PartialEq, Eq)]
pub enum LayoutEvent {
    /// A new pane was created
    PaneOpened { pane_id: String, x: u16, y: u16, width: u16, height: u16, tab_index: u32 },
    /// A pane was closed
    PaneClosed { pane_id: String },
    /// A pane was moved or resized
    PaneResized { pane_id: String, x: u16, y: u16, width: u16, height: u16 },
    /// Active tab changed
    TabSwitched { tab_index: u32 },
    /// Full layout snapshot (keyframe)
    LayoutSnapshot { panes: Vec<PaneGeometry> },
}

// ---------------------------------------------------------------------------
// The model
// ---------------------------------------------------------------------------

/// A layout as a map from pane id to geometry.
pub type PaneMap = Map<Seq<char>, PaneGeometry>;

/// The layout that inserting the panes of `s` one after another gives; a
/// later pane replaces an earlier one with the same id.
pub open spec fn pane_map(s: Seq<PaneGeometry>) -> PaneMap
    decreases s.len(),
{
    if s.len() == 0 {
        Map::empty()
    } else {
        pane_map(s.drop_last()).insert(s.last().pane_id@, s.last())
    }
}

/// No pane id occurs twice in `s`.
pub open spec fn distinct_ids(s: Seq<PaneGeometry>) -> bool {
    forall|i: int, j: int|
        0 <= i < s.len() && 0 <= j < s.len() && i != j ==> #[trigger] s[i].pane_id@ != #[trigger] s[j].pane_id@
}

/// Every pane in `m` is filed under its own id.
pub open spec fn keyed_by_id(m: PaneMap) -> bool {
    forall|k: Seq<char>| #[trigger] m.contains_key(k) ==> m[k].pane_id@ == k
}

/// The layout after one event.
pub open spec fn apply_event(m: PaneMap, e: LayoutEvent) -> PaneMap {
    match e {
        LayoutEvent::PaneOpened { pane_id, x, y, width, height, tab_index } => m.insert(
            pane_id@,
            PaneGeometry { pane_id, x, y, width, height, tab_index },
        ),
        LayoutEvent::PaneClosed { pane_id } => m.remove(pane_id@),
        LayoutEvent::PaneResized { pane_id, x, y, width, height } => if m.contains_key(pane_id@) {
            m.insert(pane_id@, PaneGeometry { x, y, width, height, ..m[pane_id@] })
        } else {
            m
        },
        LayoutEvent::TabSwitched { .. } => m,
        LayoutEvent::LayoutSnapshot { panes } => pane_map(panes@),
    }
}

/// The layout after replaying `events` in order, starting from `m`.
pub open spec fn replay(m: PaneMap, events: Seq<LayoutEvent>) -> PaneMap
    decreases events.len(),
{
    if events.len() == 0 {
        m
    } else {
        apply_event(replay(m, events.drop_last()), events.last())
    }
}

/// Whether an event is a full snapshot.
pub open spec fn is_snapshot(e: LayoutEvent) -> bool {
    e is LayoutSnapshot
}

// ---------------------------------------------------------------------------
// Facts about the model
// ---------------------------------------------------------------------------

/// The layout of a vector without repeated ids holds exactly its panes.
pub proof fn lemma_pane_map(s: Seq<PaneGeometry>)
    requires
        distinct_ids(s),
    ensures
        forall|k: Seq<char>|
            #[trigger] pane_map(s).contains_key(k) <==> exists|i: int| 0 <= i < s.len() && s[i].pane_id@ == k,
        forall|i: int| 0 <= i < s.len() ==> #[trigger] pane_map(s)[s[i].pane_id@] == s[i],
    decreases s.len(),
{
    if s.len() > 0 {
        let t = s.drop_last();
        assert(distinct_ids(t)) by {
            assert forall|i: int, j: int|
                0 <= i < t.len() && 0 <= j < t.len() && i != j implies #[trigger] t[i].pane_id@ != #[trigger] t[j].pane_id@ by {
                assert(t[i] == s[i] && t[j] == s[j]);
            }
        }
        lemma_pane_map(t);
        let last = s[s.len() - 1];
        assert(pane_map(s) == pane_map(t).insert(last.pane_id@, last));
        assert forall|k: Seq<char>|
            #[trigger] pane_map(s).contains_key(k) <==> exists|i: int| 0 <= i < s.len() && s[i].pane_id@ == k by {
            if pane_map(s).contains_key(k) {
                if k == last.pane_id@ {
                    assert(s[s.len() - 1].pane_id@ == k);
                } else {
                    assert(pane_map(t).contains_key(k));
                    let i = choose|i: int| 0 <= i < t.len() && t[i].pane_id@ == k;
                    assert(s[i] == t[i]);
                }
            }
            if exists|i: int| 0 <= i < s.len() && s[i].pane_id@ == k {
                let i = choose|i: int| 0 <= i < s.len() && s[i].pane_id@ == k;
                if i < s.len() - 1 {
                    assert(t[i] == s[i]);
                    assert(pane_map(t).contains_key(k));
                }
            }
        }
        assert forall|i: int| 0 <= i < s.len() implies #[trigger] pane_map(s)[s[i].pane_id@] == s[i] by {
            if i < s.len() - 1 {
                assert(t[i] == s[i]);
                assert(s[i].pane_id@ != last.pane_id@);
                assert(pane_map(t)[t[i].pane_id@] == t[i]);
            }
        }
    }
}

/// The layout that any sequence of panes gives files each pane under its id.
pub proof fn lemma_pane_map_keyed(s: Seq<PaneGeometry>)
    ensures
        keyed_by_id(pane_map(s)),
    decreases s.len(),
{
    if s.len() > 0 {
        lemma_pane_map_keyed(s.drop_last());
    }
}

/// Replaying keeps every pane filed under its own id.
pub proof fn lemma_replay_keyed(m: PaneMap, events: Seq<LayoutEvent>)
    requires
        keyed_by_id(m),
    ensures
        keyed_by_id(replay(m, events)),
    decreases events.len(),
{
    if events.len() > 0 {
        lemma_replay_keyed(m, events.drop_last());
        let p = replay(m, events.drop_last());
        match events.last() {
            LayoutEvent::LayoutSnapshot { panes } => {
                lemma_pane_map_keyed(panes@);
            },
            _ => {},
        }
    }
}

/// Replaying `a` and then `b` is replaying `a + b`.
pub proof fn lemma_replay_append(m: PaneMap, a: Seq<LayoutEvent>, b: Seq<LayoutEvent>)
    ensures
        replay(replay(m, a), b) == replay(m, a + b),
    decreases b.len(),
{
    if b.len() == 0 {
        assert(a + b =~= a);
    } else {
        lemma_replay_append(m, a, b.drop_last());
        assert((a + b).drop_last() =~= a + b.drop_last());
        assert((a + b).last() == b.last());
    }
}

/// A snapshot makes the layout independent of what came before it.
pub proof fn lemma_replay_from_snapshot(m1: PaneMap, m2: PaneMap, events: Seq<LayoutEvent>, i: int)
    requires
        0 <= i < events.len(),
        is_snapshot(events[i]),
    ensures
        replay(m1, events) == replay(m2, events),
    decreases events.len(),
{
    if i < events.len() - 1 {
        lemma_replay_from_snapshot(m1, m2, events.drop_last(), i);
    }
}

// ---------------------------------------------------------------------------
// The layout held as a vector
// ---------------------------------------------------------------------------

/// A copy of a pane's geometry.
pub fn copy_geometry(g: &PaneGeometry) -> (r: PaneGeometry)
    ensures
        r == *g,
{
    PaneGeometry {
        pane_id: g.pane_id.clone(),
        x: g.x,
        y: g.y,
        width: g.width,
        height: g.height,
        tab_index: g.tab_index,
    }
}

/// Whether two strings hold the same characters.
pub fn same_id(a: &String, b: &String) -> (r: bool)
    ensures
        r == (a@ == b@),
{
    a.eq(b)
}

/// The position of the pane with id `id`, if there is one.
pub fn find_pane(v: &Vec<PaneGeometry>, id: &String) -> (r: Option<usize>)
    ensures
        match r {
            Some(i) => i < v@.len() && v@[i as int].pane_id@ == id@,
            None => forall|i: int| 0 <= i < v@.len() ==> #[trigger] v@[i].pane_id@ != id@,
        },
{
    let mut i: usize = 0;
    while i < v.len()
        invariant
            i <= v@.len(),
            forall|j: int| 0 <= j < i ==> #[trigger] v@[j].pane_id@ != id@,
        decreases v@.len() - i,
    {
        if same_id(&v[i].pane_id, id) {
            return Some(i);
        }
        i = i + 1;
    }
    None
}

/// Files `g` under its id, replacing a pane with the same id.
pub fn put_pane(v: &mut Vec<PaneGeometry>, g: PaneGeometry)
    requires
        distinct_ids(old(v)@),
    ensures
        distinct_ids(final(v)@),
        pane_map(final(v)@) == pane_map(old(v)@).insert(g.pane_id@, g),
{
    let ghost s0 = v@;
    proof {
        lemma_pane_map(s0);
    }
    match find_pane(v, &g.pane_id) {
        Some(i) => {
            v.set(i, g);
            let ghost s1 = v@;
            assert(distinct_ids(s1)) by {
                assert forall|a: int, b: int|
                    0 <= a < s1.len() && 0 <= b < s1.len() && a != b implies #[trigger] s1[a].pane_id@ != #[trigger] s1[b].pane_id@ by {
                    if a != i && b != i {
                        assert(s1[a] == s0[a] && s1[b] == s0[b]);
                    } else if a == i {
                        assert(s1[b] == s0[b]);
                    } else {
                        assert(s1[a] == s0[a]);
                    }
                }
            }
            proof {
                lemma_pane_map(s1);
                let k0 = g.pane_id@;
                assert forall|k: Seq<char>| #[trigger] pane_map(s1).contains_key(k) <==> pane_map(s0).insert(k0, g).contains_key(k) by {
                    if pane_map(s1).contains_key(k) {
                        let j = choose|j: int| 0 <= j < s1.len() && s1[j].pane_id@ == k;
                        if j != i {
                            assert(s0[j] == s1[j]);
                        }
                    }
                    if pane_map(s0).contains_key(k) {
                        let j = choose|j: int| 0 <= j < s0.len() && s0[j].pane_id@ == k;
                        if j != i {
                            assert(s0[j] == s1[j]);
                        } else {
                            assert(s1[j].pane_id@ == k);
                        }
                    }
                    if k == k0 {
                        assert(s1[i as int].pane_id@ == k);
                    }
                }
                assert forall|k: Seq<char>| #[trigger] pane_map(s1).contains_key(k) implies pane_map(s1)[k] == pane_map(s0).insert(k0, g)[k] by {
                    let j = choose|j: int| 0 <= j < s1.len() && s1[j].pane_id@ == k;
                    if j != i {
                        assert(s0[j] == s1[j]);
                    }
                }
                assert(pane_map(s1) =~= pane_map(s0).insert(k0, g));
            }
        },
        None => {
            v.push(g);
            let ghost s1 = v@;
            assert(s1.drop_last() =~= s0);
            assert(distinct_ids(s1)) by {
                assert forall|a: int, b: int|
                    0 <= a < s1.len() && 0 <= b < s1.len() && a != b implies #[trigger] s1[a].pane_id@ != #[trigger] s1[b].pane_id@ by {
                    if a < s0.len() && b < s0.len() {
                        assert(s1[a] == s0[a] && s1[b] == s0[b]);
                    } else if a < s0.len() {
                        assert(s1[a] == s0[a]);
                    } else {
                        assert(s1[b] == s0[b]);
                    }
                }
            }
        },
    }
}

/// Removes the pane with id `id`, if there is one.
pub fn drop_pane(v: &mut Vec<PaneGeometry>, id: &String)
    requires
        distinct_ids(old(v)@),
    ensures
        distinct_ids(final(v)@),
        pane_map(final(v)@) == pane_map(old(v)@).remove(id@),
{
    let ghost s0 = v@;
    proof {
        lemma_pane_map(s0);
    }
    match find_pane(v, id) {
        Some(i) => {
            v.remove(i);
            let ghost s1 = v@;
            assert(forall|j: int| 0 <= j < i ==> s1[j] == s0[j]);
            assert(forall|j: int| i <= j < s1.len() ==> s1[j] == s0[j + 1]);
            assert(distinct_ids(s1)) by {
                assert forall|a: int, b: int|
                    0 <= a < s1.len() && 0 <= b < s1.len() && a != b implies #[trigger] s1[a].pane_id@ != #[trigger] s1[b].pane_id@ by {
                    let a0 = if a < i { a } else { a + 1 };
                    let b0 = if b < i { b } else { b + 1 };
                    assert(s1[a] == s0[a0] && s1[b] == s0[b0]);
                }
            }
            proof {
                lemma_pane_map(s1);
                assert forall|k: Seq<char>| #[trigger] pane_map(s1).contains_key(k) <==> pane_map(s0).remove(id@).contains_key(k) by {
                    if pane_map(s1).contains_key(k) {
                        let j = choose|j: int| 0 <= j < s1.len() && s1[j].pane_id@ == k;
                        let j0 = if j < i { j } else { j + 1 };
                        assert(s1[j] == s0[j0]);
                        assert(j0 != i);
                    }
                    if pane_map(s0).contains_key(k) && k != id@ {
                        let j = choose|j: int| 0 <= j < s0.len() && s0[j].pane_id@ == k;
                        assert(j != i);
                        if j < i {
                            assert(s1[j] == s0[j]);
                        } else {
                            assert(s1[j - 1] == s0[j]);
                        }
                    }
                }
                assert forall|k: Seq<char>| #[trigger] pane_map(s1).contains_key(k) implies pane_map(s1)[k] == pane_map(s0).remove(id@)[k] by {
                    let j = choose|j: int| 0 <= j < s1.len() && s1[j].pane_id@ == k;
                    let j0 = if j < i { j } else { j + 1 };
                    assert(s1[j] == s0[j0]);
                }
                assert(pane_map(s1) =~= pane_map(s0).remove(id@));
            }
        },
        None => {
            assert forall|k: Seq<char>| #[trigger] pane_map(s0).contains_key(k) implies k != id@ by {
                let j = choose|j: int| 0 <= j < s0.len() && s0[j].pane_id@ == k;
            }
            assert(pane_map(s0) =~= pane_map(s0).remove(id@));
        },
    }
}

/// The layout that the panes of `panes` give, inserted in order.
pub fn layout_of_panes(panes: &Vec<PaneGeometry>) -> (v: Vec<PaneGeometry>)
    ensures
        distinct_ids(v@),
        pane_map(v@) == pane_map(panes@),
{
    let mut v: Vec<PaneGeometry> = Vec::new();
    let mut i: usize = 0;
    while i < panes.len()
        invariant
            i <= panes@.len(),
            distinct_ids(v@),
            pane_map(v@) == pane_map(panes@.take(i as int)),
        decreases panes@.len() - i,
    {
        let g = copy_geometry(&panes[i]);
        put_pane(&mut v, g);
        assert(panes@.take(i + 1).drop_last() =~= panes@.take(i as int));
        i = i + 1;
    }
    assert(panes@.take(i as int) =~= panes@);
    v
}

/// Applies one event to a layout held as a vector.
pub fn apply_layout_event(v: &mut Vec<PaneGeometry>, e: &LayoutEvent)
    requires
        distinct_ids(old(v)@),
    ensures
        distinct_ids(final(v)@),
        pane_map(final(v)@) == apply_event(pane_map(old(v)@), *e),
{
    match e {
        LayoutEvent::PaneOpened { pane_id, x, y, width, height, tab_index } => {
            let g = PaneGeometry {
                pane_id: pane_id.clone(),
                x: *x,
                y: *y,
                width: *width,
                height: *height,
                tab_index: *tab_index,
            };
            put_pane(v, g);
        },
        LayoutEvent::PaneClosed { pane_id } => {
            drop_pane(v, pane_id);
        },
        LayoutEvent::PaneResized { pane_id, x, y, width, height } => {
            proof {
                lemma_pane_map(v@);
            }
            match find_pane(v, pane_id) {
                Some(i) => {
                    let old_g = copy_geometry(&v[i]);
                    assert(pane_map(v@)[pane_id@] == old_g);
                    let g = PaneGeometry { x: *x, y: *y, width: *width, height: *height, ..old_g };
                    put_pane(v, g);
                },
                None => {
                    assert(!pane_map(v@).contains_key(pane_id@));
                },
            }
        },
        LayoutEvent::TabSwitched { .. } => {},
        LayoutEvent::LayoutSnapshot { panes } => {
            *v = layout_of_panes(panes);
        },
    }
}

// ---------------------------------------------------------------------------
// Ordering by pane id
// ---------------------------------------------------------------------------

/// The order of `String`: lexicographic over the characters (comparing the
/// UTF-8 encodings byte by byte orders as the characters' code points do).
pub open spec fn id_lt(a: Seq<char>, b: Seq<char>) -> bool
    decreases a.len(),
{
    if a.len() == 0 {
        b.len() > 0
    } else if b.len() == 0 {
        false
    } else if a[0] != b[0] {
        (a[0] as int) < (b[0] as int)
    } else {
        id_lt(a.skip(1), b.skip(1))
    }
}

/// The panes of `s` come in increasing order of id.
pub open spec fn sorted_by_id(s: Seq<PaneGeometry>) -> bool {
    forall|i: int, j: int| 0 <= i < j < s.len() ==> id_lt(#[trigger] s[i].pane_id@, #[trigger] s[j].pane_id@)
}

proof fn lemma_id_lt_total(a: Seq<char>, b: Seq<char>)
    ensures
        a != b ==> id_lt(a, b) || id_lt(b, a),
        !(id_lt(a, b) && id_lt(b, a)),
    decreases a.len(),
{
    if a.len() > 0 && b.len() > 0 && a[0] == b[0] {
        lemma_id_lt_total(a.skip(1), b.skip(1));
        if a.skip(1) == b.skip(1) {
            assert forall|i: int| 0 <= i < a.len() implies a[i] == b[i] by {
                if i > 0 {
                    assert(a[i] == a.skip(1)[i - 1]);
                    assert(b[i] == b.skip(1)[i - 1]);
                }
            }
            assert(a =~= b);
        }
    } else if a.len() == 0 && b.len() == 0 {
        assert(a =~= b);
    } else if a.len() > 0 && b.len() > 0 {
        assert((a[0] as int) != (b[0] as int));
    }
}

proof fn lemma_id_lt_trans(a: Seq<char>, b: Seq<char>, c: Seq<char>)
    requires
        id_lt(a, b),
        id_lt(b, c),
    ensures
        id_lt(a, c),
    decreases a.len(),
{
    if a.len() > 0 && b.len() > 0 && c.len() > 0 && a[0] == b[0] && b[0] == c[0] {
        lemma_id_lt_trans(a.skip(1), b.skip(1), c.skip(1));
    }
}

/// `id_lt` is a strict total order.
pub proof fn lemma_id_lt_order(a: Seq<char>, b: Seq<char>, c: Seq<char>)
    ensures
        !id_lt(a, a),
        id_lt(a, b) ==> !id_lt(b, a),
        a != b ==> id_lt(a, b) || id_lt(b, a),
        (id_lt(a, b) && id_lt(b, c)) ==> id_lt(a, c),
        (!id_lt(b, a) && id_lt(b, c)) ==> id_lt(a, c),
{
    lemma_id_lt_total(a, a);
    lemma_id_lt_total(a, b);
    if id_lt(a, b) && id_lt(b, c) {
        lemma_id_lt_trans(a, b, c);
    }
    if !id_lt(b, a) && id_lt(b, c) && a != b {
        lemma_id_lt_trans(a, b, c);
    }
}

proof fn lemma_id_lt_skip(a: Seq<char>, b: Seq<char>, i: int)
    requires
        0 <= i < a.len(),
        i < b.len(),
        a[i] == b[i],
    ensures
        id_lt(a.skip(i), b.skip(i)) == id_lt(a.skip(i + 1), b.skip(i + 1)),
{
    assert(a.skip(i)[0] == a[i]);
    assert(b.skip(i)[0] == b[i]);
    assert(a.skip(i).skip(1) =~= a.skip(i + 1));
    assert(b.skip(i).skip(1) =~= b.skip(i + 1));
}

/// Whether `a` orders before `b`.
pub fn id_less(a: &String, b: &String) -> (r: bool)
    ensures
        r == id_lt(a@, b@),
{
    let x = chars_of(a.as_str());
    let y = chars_of(b.as_str());
    let mut i: usize = 0;
    assert(x@.skip(0) =~= x@);
    assert(y@.skip(0) =~= y@);
    while i < x.len() && i < y.len() && x[i] == y[i]
        invariant
            i <= x@.len(),
            i <= y@.len(),
            id_lt(x@, y@) == id_lt(x@.skip(i as int), y@.skip(i as int)),
        decreases x@.len() - i,
    {
        proof {
            lemma_id_lt_skip(x@, y@, i as int);
        }
        i = i + 1;
    }
    let ghost xs = x@.skip(i as int);
    let ghost ys = y@.skip(i as int);
    if i == x.len() {
        assert(xs.len() == 0);
        i < y.len()
    } else if i == y.len() {
        assert(ys.len() == 0);
        false
    } else {
        assert(xs[0] == x@[i as int] && ys[0] == y@[i as int]);
        x[i] < y[i]
    }
}

proof fn lemma_insert_fresh(s: Seq<PaneGeometry>, p: int, g: PaneGeometry)
    requires
        distinct_ids(s),
        0 <= p <= s.len(),
        !pane_map(s).contains_key(g.pane_id@),
    ensures
        distinct_ids(s.insert(p, g)),
        pane_map(s.insert(p, g)) == pane_map(s).insert(g.pane_id@, g),
{
    let t = s.insert(p, g);
    lemma_pane_map(s);
    assert forall|j: int| 0 <= j < s.len() implies #[trigger] s[j].pane_id@ != g.pane_id@ by {
        assert(pane_map(s).contains_key(s[j].pane_id@));
    }
    assert forall|a: int, b: int|
        0 <= a < t.len() && 0 <= b < t.len() && a != b implies #[trigger] t[a].pane_id@ != #[trigger] t[b].pane_id@ by {
        if a != p && b != p {
            let a0 = if a < p { a } else { a - 1 };
            let b0 = if b < p { b } else { b - 1 };
            assert(t[a] == s[a0] && t[b] == s[b0]);
        } else if a == p {
            let b0 = if b < p { b } else { b - 1 };
            assert(t[b] == s[b0]);
        } else {
            let a0 = if a < p { a } else { a - 1 };
            assert(t[a] == s[a0]);
        }
    }
    lemma_pane_map(t);
    let m = pane_map(s).insert(g.pane_id@, g);
    assert forall|k: Seq<char>| #[trigger] pane_map(t).contains_key(k) <==> m.contains_key(k) by {
        if pane_map(t).contains_key(k) {
            let j = choose|j: int| 0 <= j < t.len() && t[j].pane_id@ == k;
            if j != p {
                let j0 = if j < p { j } else { j - 1 };
                assert(t[j] == s[j0]);
            }
        }
        if pane_map(s).contains_key(k) {
            let j = choose|j: int| 0 <= j < s.len() && s[j].pane_id@ == k;
            let j1 = if j < p { j } else { j + 1 };
            assert(t[j1] == s[j]);
        }
        if k == g.pane_id@ {
            assert(t[p] == g);
        }
    }
    assert forall|k: Seq<char>| #[trigger] pane_map(t).contains_key(k) implies pane_map(t)[k] == m[k] by {
        let j = choose|j: int| 0 <= j < t.len() && t[j].pane_id@ == k;
        if j != p {
            let j0 = if j < p { j } else { j - 1 };
            assert(t[j] == s[j0]);
        }
    }
    assert(pane_map(t) =~= m);
}

/// The panes of `v` in increasing order of id.
pub fn sort_by_id(v: &Vec<PaneGeometry>) -> (r: Vec<PaneGeometry>)
    requires
        distinct_ids(v@),
    ensures
        distinct_ids(r@),
        sorted_by_id(r@),
        pane_map(r@) == pane_map(v@),
{
    let mut out: Vec<PaneGeometry> = Vec::new();
    let mut k: usize = 0;
    proof {
        lemma_pane_map(v@);
    }
    while k < v.len()
        invariant
            k <= v@.len(),
            distinct_ids(v@),
            distinct_ids(out@),
            sorted_by_id(out@),
            pane_map(out@) == pane_map(v@.take(k as int)),
        decreases v@.len() - k,
    {
        let g = copy_geometry(&v[k]);
        let ghost vk = v@.take(k as int);
        proof {
            assert(distinct_ids(vk)) by {
                assert forall|a: int, b: int|
                    0 <= a < vk.len() && 0 <= b < vk.len() && a != b implies #[trigger] vk[a].pane_id@ != #[trigger] vk[b].pane_id@ by {
                    assert(vk[a] == v@[a] && vk[b] == v@[b]);
                }
            }
            lemma_pane_map(vk);
            if pane_map(vk).contains_key(g.pane_id@) {
                let j = choose|j: int| 0 <= j < vk.len() && vk[j].pane_id@ == g.pane_id@;
                assert(vk[j] == v@[j]);
                assert(v@[j].pane_id@ != v@[k as int].pane_id@);
            }
            lemma_pane_map(out@);
        }
        let mut p: usize = 0;
        while p < out.len() && !id_less(&g.pane_id, &out[p].pane_id)
            invariant
                p <= out@.len(),
                forall|j: int| 0 <= j < p ==> !id_lt(g.pane_id@, #[trigger] out@[j].pane_id@),
            decreases out@.len() - p,
        {
            p = p + 1;
        }
        let ghost s0 = out@;
        proof {
            assert(!pane_map(s0).contains_key(g.pane_id@));
            assert forall|j: int| 0 <= j < s0.len() implies #[trigger] s0[j].pane_id@ != g.pane_id@ by {
                assert(pane_map(s0).contains_key(s0[j].pane_id@));
            }
        }
        out.insert(p, g);
        proof {
            lemma_insert_fresh(s0, p as int, g);
            let t = out@;
            assert(t =~= s0.insert(p as int, g));
            assert forall|a: int, b: int| 0 <= a < b < t.len() implies id_lt(#[trigger] t[a].pane_id@, #[trigger] t[b].pane_id@) by {
                let gi = g.pane_id@;
                if b < p {
                    assert(t[a] == s0[a] && t[b] == s0[b]);
                } else if b == p {
                    assert(t[a] == s0[a]);
                    lemma_id_lt_total(s0[a].pane_id@, gi);
                } else if a == p {
                    assert(t[b] == s0[b - 1]);
                    if b - 1 > p {
                        assert(id_lt(s0[p as int].pane_id@, s0[b - 1].pane_id@));
                        lemma_id_lt_trans(gi, s0[p as int].pane_id@, s0[b - 1].pane_id@);
                    }
                } else if a < p {
                    assert(t[a] == s0[a] && t[b] == s0[b - 1]);
                } else {
                    assert(t[a] == s0[a - 1] && t[b] == s0[b - 1]);
                }
            }
            assert(v@.take(k + 1).drop_last() =~= vk);
        }
        k = k + 1;
    }
    assert(v@.take(k as int) =~= v@);
    out
}

// ---------------------------------------------------------------------------
// Reconstruction
// ---------------------------------------------------------------------------

/// Replaying a journal from any snapshot in it gives the layout that
/// replaying the whole journal gives, whatever layout one starts from.
pub proof fn lemma_snapshot_seek(m: PaneMap, events: Seq<LayoutEvent>, s: int)
    requires
        0 <= s < events.len(),
        is_snapshot(events[s]),
    ensures
        replay(Map::empty(), events.skip(s)) == replay(m, events),
{
    lemma_replay_append(m, events.take(s), events.skip(s));
    assert(events.take(s) + events.skip(s) =~= events);
    assert(events.skip(s)[0] == events[s]);
    lemma_replay_from_snapshot(replay(m, events.take(s)), Map::empty(), events.skip(s), 0);
}

/// The position of the last snapshot in `events`, if there is one.
pub fn last_snapshot(events: &Vec<LayoutEvent>) -> (r: Option<usize>)
    ensures
        match r {
            Some(i) => i < events@.len() && is_snapshot(events@[i as int]) && forall|j: int|
                i < j < events@.len() ==> !is_snapshot(#[trigger] events@[j]),
            None => forall|j: int| 0 <= j < events@.len() ==> !is_snapshot(#[trigger] events@[j]),
        },
{
    let mut found: Option<usize> = None;
    let mut i: usize = 0;
    while i < events.len()
        invariant
            i <= events@.len(),
            match found {
                Some(f) => f < i && is_snapshot(events@[f as int]) && forall|j: int| f < j < i ==> !is_snapshot(#[trigger] events@[j]),
                None => forall|j: int| 0 <= j < i ==> !is_snapshot(#[trigger] events@[j]),
            },
        decreases events@.len() - i,
    {
        if let LayoutEvent::LayoutSnapshot { .. } = &events[i] {
            found = Some(i);
        }
        i = i + 1;
    }
    found
}

/// The layout that a run of journal events leaves, starting from no panes:
/// each pane once, in increasing order of id.
///
/// Replay starts at the last snapshot in the run, since a snapshot replaces
/// everything before it.
pub fn layout_after(events: &Vec<LayoutEvent>) -> (r: Vec<PaneGeometry>)
    ensures
        distinct_ids(r@),
        sorted_by_id(r@),
        pane_map(r@) == replay(Map::empty(), events@),
{
    let start: usize = match last_snapshot(events) {
        Some(i) => i,
        None => 0,
    };
    let mut v: Vec<PaneGeometry> = Vec::new();
    let mut i: usize = start;
    proof {
        if start < events@.len() {
            assert(events@.subrange(start as int, start as int).len() == 0);
        }
        assert(pane_map(v@) =~= replay(Map::empty(), events@.subrange(start as int, start as int)));
    }
    while i < events.len()
        invariant
            start <= i <= events@.len(),
            distinct_ids(v@),
            pane_map(v@) == replay(Map::empty(), events@.subrange(start as int, i as int)),
        decreases events@.len() - i,
    {
        apply_layout_event(&mut v, &events[i]);
        assert(events@.subrange(start as int, i + 1).drop_last() =~= events@.subrange(start as int, i as int));
        i = i + 1;
    }
    proof {
        if start < events@.len() && is_snapshot(events@[start as int]) {
            assert(events@.subrange(start as int, events@.len() as int) =~= events@.skip(start as int));
            lemma_snapshot_seek(Map::empty(), events@, start as int);
        } else {
            assert(start == 0 || events@.len() == 0);
            assert(events@.subrange(start as int, events@.len() as int) =~= events@);
        }
    }
    sort_by_id(&v)
}

// ---------------------------------------------------------------------------
// Reading a pane listing
// ---------------------------------------------------------------------------

/// `s` read as an unsigned integer no larger than `max`, or `default` when it
/// does not read as one.
pub open spec fn parse_or(s: Seq<char>, max: nat, default: nat) -> nat {
    match parse_unsigned(s, max) {
        Some(v) => v,
        None => default,
    }
}

/// `g` is what a row `id left top width height window ...` describes; a
/// number that does not read falls back to 0, or to 80 columns and 24 rows.
pub open spec fn geometry_of_row(g: PaneGeometry, f: Seq<Seq<char>>) -> bool {
    &&& g.pane_id@ == f[0]
    &&& g.x == parse_or(f[1], u16::MAX as nat, 0)
    &&& g.y == parse_or(f[2], u16::MAX as nat, 0)
    &&& g.width == parse_or(f[3], u16::MAX as nat, 80)
    &&& g.height == parse_or(f[4], u16::MAX as nat, 24)
    &&& g.tab_index == parse_or(f[5], u32::MAX as nat, 0)
}

fn number_or(w: &Vec<char>, max: u64, default: u64) -> (r: u64)
    requires
        default <= max,
    ensures
        r == parse_or(w@, max as nat, default as nat),
        r <= max,
{
    match parse_unsigned_vec(w, max) {
        Some(v) => v,
        None => default,
    }
}

fn geometry_from_row(f: &Vec<Vec<char>>) -> (g: PaneGeometry)
    requires
        f@.len() >= 6,
    ensures
        geometry_of_row(g, f@.map_values(|w: Vec<char>| w@)),
{
    let ghost fs = f@.map_values(|w: Vec<char>| w@);
    PaneGeometry {
        pane_id: string_of(&f[0]),
        x: number_or(&f[1], 65535, 0) as u16,
        y: number_or(&f[2], 65535, 0) as u16,
        width: number_or(&f[3], 65535, 80) as u16,
        height: number_or(&f[4], 65535, 24) as u16,
        tab_index: number_or(&f[5], 4294967295, 0) as u32,
    }
}

/// The panes that a listing of rows `id left top width height window ...`
/// describes, one for each line with at least `min_fields` words, in order.
pub fn parse_pane_listing(stdout: &str, min_fields: usize) -> (r: Vec<PaneGeometry>)
    requires
        min_fields >= 6,
    ensures
        r@.len() == rows_with(lines(stdout@), min_fields as nat).len(),
        forall|i: int| 0 <= i < r@.len() ==> geometry_of_row(#[trigger] r@[i], rows_with(lines(stdout@), min_fields as nat)[i]),
{
    let text = chars_of(stdout);
    let ls = split_lines(&text);
    let ghost lv = ls@.map_values(|w: Vec<char>| w@);
    let mut r: Vec<PaneGeometry> = Vec::new();
    let mut i: usize = 0;
    while i < ls.len()
        invariant
            i <= ls@.len(),
            lv == ls@.map_values(|w: Vec<char>| w@),
            lv == lines(stdout@),
            min_fields >= 6,
            r@.len() == rows_with(lv.take(i as int), min_fields as nat).len(),
            forall|j: int| 0 <= j < r@.len() ==> geometry_of_row(#[trigger] r@[j], rows_with(lv.take(i as int), min_fields as nat)[j]),
        decreases ls@.len() - i,
    {
        let f = split_words(&ls[i]);
        let ghost prev = rows_with(lv.take(i as int), min_fields as nat);
        assert(lv.take(i + 1).drop_last() =~= lv.take(i as int));
        assert(lv.take(i + 1).last() == ls@[i as int]@);
        if f.len() >= min_fields {
            let g = geometry_from_row(&f);
            let ghost r0 = r@;
            r.push(g);
            assert(rows_with(lv.take(i + 1), min_fields as nat) == prev.push(f@.map_values(|w: Vec<char>| w@)));
            assert forall|j: int| 0 <= j < r@.len() implies geometry_of_row(#[trigger] r@[j], rows_with(lv.take(i + 1), min_fields as nat)[j]) by {
                if j < r@.len() - 1 {
                    assert(r@[j] == r0[j]);
                }
            }
        }
        i = i + 1;
    }
    assert(lv.take(i as int) =~= lv);
    r
}

/// A snapshot of the layout as it stands changes nothing: writing a
/// keyframe of the reconstructed layout between two runs of events leaves
/// every later reconstruction as it was.
pub proof fn lemma_snapshot_of_current_layout_is_transparent(
    before: Seq<LayoutEvent>,
    panes: Vec<PaneGeometry>,
    after: Seq<LayoutEvent>,
)
    requires
        pane_map(panes@) == replay(Map::empty(), before),
    ensures
        replay(Map::empty(), before.push(LayoutEvent::LayoutSnapshot { panes }) + after) == replay(
            Map::empty(),
            before + after,
        ),
{
    let snap = LayoutEvent::LayoutSnapshot { panes };
    assert(before.push(snap).drop_last() =~= before);
    assert(replay(Map::empty(), before.push(snap)) == replay(Map::empty(), before));
    lemma_replay_append(Map::empty(), before.push(snap), after);
    lemma_replay_append(Map::empty(), before, after);
}

} // verus!

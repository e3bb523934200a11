//! Frame diffing and ANSI escape sequence generation.
//!
//! Consecutive frames are compared cell by cell; only runs of changed cells
//! are written, each after one absolute cursor move.

use vstd::prelude::*;
use super::ansi::{
    AnsiOp, SgrParam, StyleState, cells_ops, cells_style, default_style, encode, full_ops,
    lemma_encode_append, lemma_encode_push, push_cells_range, push_move_to, push_reset,
    render_grid, sgr_text, sgr_transition, style_of, transition_params, Term, run, apply_op,
    same_shape, lemma_run_append, lemma_run_push, lemma_cells_paint, lemma_full_render_paints,
    lemma_rows_ops_order_free,
};
use super::frame::{Cell, CompositeFrame};

verus! {

impl StyleState {
    /// Generate SGR escape sequence to transition from current state to target cell.
    ///
    /// Returns empty string if no change needed.
    pub fn transition_to(&mut self, cell: &Cell) -> (s: String)
        ensures
            s@ == sgr_text(transition_params(*old(self), *cell, true)),
            *final(self) == style_of(*cell),
    {
        sgr_transition(self, cell, true)
    }
}

/// Render a complete frame from scratch.
///
/// This is used for the first frame or after a resize event.
/// Emits clear screen, cursor home, and all cell contents.
pub fn render_full_frame(frame: &CompositeFrame) -> (s: String)
    ensures
        s@ == encode(full_ops(frame.grid(), true)),
{
    render_grid(&frame.cells, true)
}

/// Both frames have the same dimensions and agree on every cell inside them.
pub open spec fn frames_eq(a: CompositeFrame, b: CompositeFrame) -> bool {
    &&& a.width == b.width
    &&& a.height == b.height
    &&& forall|r: int, c: int|
        0 <= r < a.height && 0 <= c < a.width ==> #[trigger] a.cells@[r]@[c] == b.cells@[r]@[c]
}

/// Inputs on which comparing the frames cell by cell stays inside their grids.
pub open spec fn comparable(a: CompositeFrame, b: CompositeFrame) -> bool {
    (a.width == b.width && a.height == b.height) ==> (a.covers() && b.covers())
}

/// The end of the run of changed cells that continues at `from`: the first
/// column at or after `from` (below `width`) where the rows agree, or `width`.
pub open spec fn run_end(p: Seq<Cell>, n: Seq<Cell>, from: int, width: int) -> int
    decreases width - from,
{
    if from >= width || p[from] == n[from] {
        from
    } else {
        run_end(p, n, from + 1, width)
    }
}

pub proof fn lemma_run_end_bounds(p: Seq<Cell>, n: Seq<Cell>, from: int, width: int)
    requires
        from <= width,
    ensures
        from <= run_end(p, n, from, width) <= width,
    decreases width - from,
{
    if from < width && p[from] != n[from] {
        lemma_run_end_bounds(p, n, from + 1, width);
    }
}

/// Operations that update one row (index `r`, 0-based) from `p` to `n`,
/// scanning from column `col`; each run of changed cells is written after a
/// cursor move to its first cell. Returns the operations and the pen after them.
pub open spec fn row_diff(st: StyleState, p: Seq<Cell>, n: Seq<Cell>, r: nat, col: int, width: int) -> (Seq<AnsiOp>, StyleState)
    decreases width - col,
{
    if col >= width {
        (seq![], st)
    } else if p[col] == n[col] {
        row_diff(st, p, n, r, col + 1, width)
    } else {
        let e = run_end(p, n, col + 1, width);
        proof {
            lemma_run_end_bounds(p, n, col + 1, width);
        }
        let run = n.subrange(col, e);
        let rest = row_diff(cells_style(st, run), p, n, r, e, width);
        (seq![AnsiOp::MoveTo(r + 1, (col + 1) as nat)] + cells_ops(st, run, true) + rest.0, rest.1)
    }
}

/// Row updates for the first `k` rows, in order.
pub open spec fn diff_rows(st: StyleState, pg: Seq<Seq<Cell>>, ng: Seq<Seq<Cell>>, k: nat, width: int) -> (Seq<AnsiOp>, StyleState)
    decreases k,
{
    if k == 0 {
        (seq![], st)
    } else {
        let before = diff_rows(st, pg, ng, (k - 1) as nat, width);
        let row = row_diff(before.1, pg[k - 1], ng[k - 1], (k - 1) as nat, 0, width);
        (before.0 + row.0, row.1)
    }
}

/// The operations `diff_frames` writes: a full render of `next` when the
/// dimensions differ, nothing when the frames agree, otherwise the runs of
/// changed cells row by row followed by a reset.
pub open spec fn diff_ops(prev: CompositeFrame, next: CompositeFrame) -> Seq<AnsiOp> {
    if prev.width != next.width || prev.height != next.height {
        full_ops(next.grid(), true)
    } else if frames_eq(prev, next) {
        seq![]
    } else {
        let body = diff_rows(default_style(), prev.grid(), next.grid(), next.height as nat, next.width as int).0;
        if body.len() > 0 {
            body.push(AnsiOp::Sgr(seq![SgrParam::Reset]))
        } else {
            body
        }
    }
}

/// Check if two frames are identical.
pub fn frames_equal(a: &CompositeFrame, b: &CompositeFrame) -> (eq: bool)
    requires
        comparable(*a, *b),
    ensures
        eq == frames_eq(*a, *b),
{
    if a.width != b.width || a.height != b.height {
        return false;
    }
    let h = a.height as usize;
    let w = a.width as usize;
    let mut r: usize = 0;
    while r < h
        invariant
            h == a.height,
            w == a.width,
            a.width == b.width,
            a.height == b.height,
            a.covers(),
            b.covers(),
            r <= h,
            forall|i: int, c: int| 0 <= i < r && 0 <= c < w ==> #[trigger] a.cells@[i]@[c] == b.cells@[i]@[c],
        decreases h - r,
    {
        let mut c: usize = 0;
        while c < w
            invariant
                h == a.height,
                w == a.width,
                a.width == b.width,
                a.height == b.height,
                a.covers(),
                b.covers(),
                r < h,
                c <= w,
                forall|i: int, j: int| 0 <= i < r && 0 <= j < w ==> #[trigger] a.cells@[i]@[j] == b.cells@[i]@[j],
                forall|j: int| 0 <= j < c ==> #[trigger] a.cells@[r as int]@[j] == b.cells@[r as int]@[j],
            decreases w - c,
        {
            if a.cells[r][c] != b.cells[r][c] {
                return false;
            }
            c = c + 1;
        }
        r = r + 1;
    }
    true
}

/// Finds the end of the run of changed cells that continues at `from`.
fn find_run_end(p: &Vec<Cell>, n: &Vec<Cell>, from: usize, width: usize) -> (e: usize)
    requires
        from <= width,
        p@.len() >= width,
        n@.len() >= width,
    ensures
        e == run_end(p@, n@, from as int, width as int),
{
    let mut e = from;
    while e < width && p[e] != n[e]
        invariant
            from <= e <= width,
            p@.len() >= width,
            n@.len() >= width,
            run_end(p@, n@, from as int, width as int) == run_end(p@, n@, e as int, width as int),
        decreases width - e,
    {
        e = e + 1;
    }
    e
}

/// Appends the operations of `row_diff` for one row.
fn push_row_diff(out: &mut String, st: &mut StyleState, p: &Vec<Cell>, n: &Vec<Cell>, r: usize, width: usize) -> (any: bool)
    requires
        p@.len() >= width,
        n@.len() >= width,
        r < usize::MAX,
    ensures
        final(out)@ == old(out)@ + encode(row_diff(*old(st), p@, n@, r as nat, 0, width as int).0),
        *final(st) == row_diff(*old(st), p@, n@, r as nat, 0, width as int).1,
        any == (row_diff(*old(st), p@, n@, r as nat, 0, width as int).0.len() > 0),
{
    let mut any = false;
    let ghost o0 = out@;
    let ghost st0 = *st;
    let ghost mut done = Seq::<AnsiOp>::empty();
    let mut col: usize = 0;
    while col < width
        invariant
            col <= width,
            p@.len() >= width,
            n@.len() >= width,
            r < usize::MAX,
            out@ == o0 + encode(done),
            any == (done.len() > 0),
            done + row_diff(*st, p@, n@, r as nat, col as int, width as int).0 == row_diff(st0, p@, n@, r as nat, 0, width as int).0,
            row_diff(*st, p@, n@, r as nat, col as int, width as int).1 == row_diff(st0, p@, n@, r as nat, 0, width as int).1,
        decreases width - col,
    {
        if p[col] == n[col] {
            col = col + 1;
        } else {
            let e = find_run_end(p, n, col + 1, width);
            proof {
                lemma_run_end_bounds(p@, n@, col + 1, width as int);
            }
            let ghost st_c = *st;
            let ghost run = n@.subrange(col as int, e as int);
            let ghost mv = AnsiOp::MoveTo((r + 1) as nat, (col + 1) as nat);
            push_move_to(out, (r + 1) as u64, (col + 1) as u64);
            push_cells_range(out, st, n, col, e, true);
            proof {
                let step = seq![mv] + cells_ops(st_c, run, true);
                lemma_encode_push(done, mv);
                assert(done.push(mv) =~= done + seq![mv]);
                lemma_encode_append(done + seq![mv], cells_ops(st_c, run, true));
                assert(done + seq![mv] + cells_ops(st_c, run, true) =~= done + step);
                let rest = row_diff(*st, p@, n@, r as nat, e as int, width as int);
                assert(row_diff(st_c, p@, n@, r as nat, col as int, width as int).0 == step + rest.0);
                assert(done + step + rest.0 =~= done + (step + rest.0));
                done = done + step;
            }
            any = true;
            col = e;
        }
    }
    proof {
        assert(row_diff(*st, p@, n@, r as nat, col as int, width as int).0 =~= Seq::<AnsiOp>::empty());
        assert(done + Seq::<AnsiOp>::empty() =~= done);
    }
    any
}

/// Diff two consecutive frames and emit minimal ANSI escape sequences.
///
/// Compares cells and only emits changes. Coalesces adjacent changed cells
/// into single writes to minimize cursor movement commands.
///
/// If dimensions changed, returns a full re-render via `render_full_frame`.
pub fn diff_frames(prev: &CompositeFrame, next: &CompositeFrame) -> (s: String)
    requires
        comparable(*prev, *next),
    ensures
        s@ == encode(diff_ops(*prev, *next)),
{
    if prev.width != next.width || prev.height != next.height {
        return render_full_frame(next);
    }
    if frames_equal(prev, next) {
        return String::new();
    }
    let ghost pg = prev.grid();
    let ghost ng = next.grid();
    let h = next.height as usize;
    let w = next.width as usize;
    let mut output = String::new();
    let mut style = StyleState::default();
    let mut row: usize = 0;
    let mut emitted = false;
    while row < h
        invariant
            h == next.height,
            w == next.width,
            prev.width == next.width,
            prev.height == next.height,
            prev.covers(),
            next.covers(),
            pg == prev.grid(),
            ng == next.grid(),
            row <= h,
            output@ == encode(diff_rows(default_style(), pg, ng, row as nat, w as int).0),
            style == diff_rows(default_style(), pg, ng, row as nat, w as int).1,
            emitted == (diff_rows(default_style(), pg, ng, row as nat, w as int).0.len() > 0),
        decreases h - row,
    {
        let ghost before = diff_rows(default_style(), pg, ng, row as nat, w as int);
        let ghost o1 = output@;
        let ghost st1 = style;
        let any = push_row_diff(&mut output, &mut style, &prev.cells[row], &next.cells[row], row, w);
        proof {
            let rd = row_diff(st1, prev.cells@[row as int]@, next.cells@[row as int]@, row as nat, 0, w as int);
            assert(pg[row as int] == prev.cells@[row as int]@);
            assert(ng[row as int] == next.cells@[row as int]@);
            assert(diff_rows(default_style(), pg, ng, (row + 1) as nat, w as int) == (before.0 + rd.0, rd.1));
            lemma_encode_append(before.0, rd.0);
        }
        if any {
            emitted = true;
        }
        row = row + 1;
    }
    let ghost body = diff_rows(default_style(), pg, ng, h as nat, w as int).0;
    if emitted {
        push_reset(&mut output);
        proof {
            lemma_encode_push(body, AnsiOp::Sgr(seq![SgrParam::Reset]));
        }
    }
    output
}

// ---------------------------------------------------------------------------
// What the diff does to a terminal
// ---------------------------------------------------------------------------

proof fn lemma_row_diff_paint(t: Term, st: StyleState, p: Seq<Cell>, n: Seq<Cell>, r: nat, col: int, w: int)
    requires
        t.pen == st,
        r < t.grid.len(),
        t.grid[r as int].len() == w,
        p.len() >= w,
        n.len() >= w,
        0 <= col <= w,
        forall|c: int| col <= c < w ==> #[trigger] t.grid[r as int][c] == p[c],
    ensures
        run(t, row_diff(st, p, n, r, col, w).0).pen == row_diff(st, p, n, r, col, w).1,
        same_shape(run(t, row_diff(st, p, n, r, col, w).0).grid, t.grid),
        forall|c: int| col <= c < w ==> #[trigger] run(t, row_diff(st, p, n, r, col, w).0).grid[r as int][c] == n[c],
        forall|c: int| 0 <= c < col ==> #[trigger] run(t, row_diff(st, p, n, r, col, w).0).grid[r as int][c] == t.grid[r as int][c],
        forall|rr: int| 0 <= rr < t.grid.len() && rr != r ==> #[trigger] run(t, row_diff(st, p, n, r, col, w).0).grid[rr] == t.grid[rr],
    decreases w - col,
{
    if col >= w {
    } else if p[col] == n[col] {
        lemma_row_diff_paint(t, st, p, n, r, col + 1, w);
    } else {
        let e = run_end(p, n, col + 1, w);
        lemma_run_end_bounds(p, n, col + 1, w);
        let runc = n.subrange(col, e);
        let mv = AnsiOp::MoveTo(r + 1, (col + 1) as nat);
        let cops = cells_ops(st, runc, true);
        let st2 = cells_style(st, runc);
        let rest = row_diff(st2, p, n, r, e, w);
        assert(row_diff(st, p, n, r, col, w).0 == seq![mv] + cops + rest.0);
        lemma_run_append(t, seq![mv] + cops, rest.0);
        lemma_run_append(t, seq![mv], cops);
        lemma_run_push(t, Seq::<AnsiOp>::empty(), mv);
        assert(Seq::<AnsiOp>::empty().push(mv) =~= seq![mv]);
        let m = apply_op(t, mv);
        assert(m.row == r && m.col == col);
        lemma_cells_paint(m, st, runc, true);
        let t2 = run(m, cops);
        assert(t2 == run(t, seq![mv] + cops));
        assert forall|c: int| e <= c < w implies #[trigger] t2.grid[r as int][c] == p[c] by {}
        lemma_row_diff_paint(t2, st2, p, n, r, e, w);
        let u = run(t2, rest.0);
        assert forall|c: int| col <= c < w implies #[trigger] u.grid[r as int][c] == n[c] by {
            if c < e {
                assert(t2.grid[r as int][c] == runc[c - col]);
            }
        }
        assert forall|rr: int| 0 <= rr < t.grid.len() && rr != r implies #[trigger] u.grid[rr] == t.grid[rr] by {
            assert(t2.grid[rr] =~= t.grid[rr]);
        }
    }
}

proof fn lemma_diff_rows_paint(t: Term, st: StyleState, pg: Seq<Seq<Cell>>, ng: Seq<Seq<Cell>>, k: nat, w: int)
    requires
        t.pen == st,
        k <= t.grid.len(),
        k <= pg.len(),
        k <= ng.len(),
        forall|r: int| 0 <= r < t.grid.len() ==> #[trigger] t.grid[r].len() == w,
        forall|r: int| 0 <= r < k ==> #[trigger] pg[r].len() == w && ng[r].len() == w,
        forall|r: int| 0 <= r < k ==> #[trigger] t.grid[r] == pg[r],
    ensures
        run(t, diff_rows(st, pg, ng, k, w).0).pen == diff_rows(st, pg, ng, k, w).1,
        same_shape(run(t, diff_rows(st, pg, ng, k, w).0).grid, t.grid),
        forall|r: int| 0 <= r < k ==> #[trigger] run(t, diff_rows(st, pg, ng, k, w).0).grid[r] == ng[r],
        forall|r: int| k <= r < t.grid.len() ==> #[trigger] run(t, diff_rows(st, pg, ng, k, w).0).grid[r] == t.grid[r],
    decreases k,
{
    if k > 0 {
        let j = (k - 1) as nat;
        lemma_diff_rows_paint(t, st, pg, ng, j, w);
        let before = diff_rows(st, pg, ng, j, w);
        let v = run(t, before.0);
        let rd = row_diff(before.1, pg[j as int], ng[j as int], j, 0, w);
        lemma_run_append(t, before.0, rd.0);
        assert(v.grid[j as int] == pg[j as int]);
        lemma_row_diff_paint(v, before.1, pg[j as int], ng[j as int], j, 0, w);
        let u = run(v, rd.0);
        assert forall|r: int| 0 <= r < k implies #[trigger] u.grid[r] == ng[r] by {
            if r == j {
                assert(u.grid[r] =~= ng[r]);
            }
        }
    }
}

/// Rendering a frame from scratch on a screen of the frame's shape, with the
/// pen reset, leaves the screen showing exactly the frame.
pub proof fn lemma_render_full_frame_reproduces(frame: CompositeFrame, t: Term)
    requires
        t.pen == default_style(),
        same_shape(t.grid, frame.grid()),
    ensures
        run(t, full_ops(frame.grid(), true)).grid == frame.grid(),
{
    lemma_full_render_paints(t, frame.grid(), true);
}

/// Writing `diff_frames(prev, next)` to a terminal that shows `prev` (or,
/// when the dimensions changed, any screen of `next`'s shape), with the pen
/// reset, leaves the terminal showing exactly `next`.
pub proof fn lemma_diff_frames_reproduces(prev: CompositeFrame, next: CompositeFrame, t: Term)
    requires
        prev.wf(),
        next.wf(),
        t.pen == default_style(),
        same_shape(t.grid, next.grid()),
        (prev.width == next.width && prev.height == next.height) ==> t.grid == prev.grid(),
    ensures
        run(t, diff_ops(prev, next)).grid == next.grid(),
{
    if prev.width != next.width || prev.height != next.height {
        lemma_full_render_paints(t, next.grid(), true);
    } else if frames_eq(prev, next) {
        assert(run(t, Seq::<AnsiOp>::empty()) == t);
        assert forall|r: int| 0 <= r < prev.grid().len() implies #[trigger] prev.grid()[r] == next.grid()[r] by {
            assert(prev.grid()[r] =~= next.grid()[r]);
        }
        assert(prev.grid() =~= next.grid());
    } else {
        let h = next.height as nat;
        let w = next.width as int;
        lemma_diff_rows_paint(t, default_style(), prev.grid(), next.grid(), h, w);
        let body = diff_rows(default_style(), prev.grid(), next.grid(), h, w).0;
        let u = run(t, body);
        assert(u.grid =~= next.grid());
        if body.len() > 0 {
            lemma_run_push(t, body, AnsiOp::Sgr(seq![SgrParam::Reset]));
        }
    }
}

/// Diffing a frame against itself writes nothing.
pub proof fn lemma_diff_identical_is_empty(f: CompositeFrame)
    ensures
        diff_ops(f, f) == Seq::<AnsiOp>::empty(),
        encode(diff_ops(f, f)) == Seq::<char>::empty(),
{
}

/// When the dimensions change the diff is a full render of the new frame.
pub proof fn lemma_diff_resize_is_full_render(prev: CompositeFrame, next: CompositeFrame)
    requires
        prev.width != next.width || prev.height != next.height,
    ensures
        diff_ops(prev, next) == full_ops(next.grid(), true),
{
}

/// A full render and `render_ansi` print the same text for a frame without
/// italic cells: they differ only in where the italic attribute goes.
pub proof fn lemma_full_render_matches_render_ansi(f: CompositeFrame)
    requires
        forall|r: int, c: int| 0 <= r < f.grid().len() && 0 <= c < f.grid()[r].len() ==> !(#[trigger] f.grid()[r][c]).italic,
    ensures
        encode(full_ops(f.grid(), true)) == encode(full_ops(f.grid(), false)),
{
    lemma_rows_ops_order_free(default_style(), f.grid());
}

} // verus!

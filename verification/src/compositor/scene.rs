//! Placing panes on a composite frame: the frame's size, each pane's cells,
//! and the borders between panes.
//!
//! Drawing is a run of cell writes; a write outside the frame does nothing,
//! and a later write replaces an earlier one at the same position.

use vstd::prelude::*;
use crate::compositor::frame::{blank_cell, Cell, CompositeFrame};
use crate::recording::layout::{LayoutEvent, PaneGeometry};

verus! {

/// Timeline event - either pane output or layout change.
#[derive(Debug, Clone)]
pub enum TimelineEvent {
    /// Raw output bytes for a specific pane.
    PaneOutput { pane_id: String, bytes: Vec<u8> },
    /// Layout change event.
    LayoutChange { event: LayoutEvent },
}

/// A write of a cell at (row, column).
pub type CellWrite = (int, int, Cell);

/// One write on a grid of `h` rows and `w` columns.
pub open spec fn write_cell(g: Seq<Seq<Cell>>, h: int, w: int, wr: CellWrite) -> Seq<Seq<Cell>> {
    if 0 <= wr.0 < h && 0 <= wr.1 < w {
        g.update(wr.0, g[wr.0].update(wr.1, wr.2))
    } else {
        g
    }
}

/// A run of writes, in order.
pub open spec fn apply_writes(g: Seq<Seq<Cell>>, h: int, w: int, ws: Seq<CellWrite>) -> Seq<Seq<Cell>>
    decreases ws.len(),
{
    if ws.len() == 0 {
        g
    } else {
        write_cell(apply_writes(g, h, w, ws.drop_last()), h, w, ws.last())
    }
}

/// Writing `a` and then `b` is writing `a + b`.
pub proof fn lemma_apply_writes_append(g: Seq<Seq<Cell>>, h: int, w: int, a: Seq<CellWrite>, b: Seq<CellWrite>)
    ensures
        apply_writes(apply_writes(g, h, w, a), h, w, b) == apply_writes(g, h, w, a + b),
    decreases b.len(),
{
    if b.len() == 0 {
        assert(a + b =~= a);
    } else {
        lemma_apply_writes_append(g, h, w, a, b.drop_last());
        assert((a + b).drop_last() =~= a + b.drop_last());
        assert((a + b).last() == b.last());
    }
}

/// A cell holding `ch` in the default style.
pub open spec fn plain(ch: char) -> Cell {
    Cell { ch, ..blank_cell() }
}

/// A blank grid of `h` rows and `w` columns.
pub open spec fn blank_frame_grid(w: int, h: int) -> Seq<Seq<Cell>> {
    Seq::new(h as nat, |r: int| Seq::new(w as nat, |c: int| blank_cell()))
}

// ---------------------------------------------------------------------------
// Frame size
// ---------------------------------------------------------------------------

/// The panes' right and bottom edges fit in 16 bits.
pub open spec fn edges_fit(layout: Seq<PaneGeometry>) -> bool {
    forall|i: int| 0 <= i < layout.len() ==> #[trigger] layout[i].x + layout[i].width <= u16::MAX && layout[i].y
        + layout[i].height <= u16::MAX
}

/// The largest right edge among the panes (0 for none).
pub open spec fn max_right(layout: Seq<PaneGeometry>) -> int
    decreases layout.len(),
{
    if layout.len() == 0 {
        0
    } else {
        let m = max_right(layout.drop_last());
        let e = layout.last().x + layout.last().width;
        if e > m {
            e
        } else {
            m
        }
    }
}

/// The largest bottom edge among the panes (0 for none).
pub open spec fn max_bottom(layout: Seq<PaneGeometry>) -> int
    decreases layout.len(),
{
    if layout.len() == 0 {
        0
    } else {
        let m = max_bottom(layout.drop_last());
        let e = layout.last().y + layout.last().height;
        if e > m {
            e
        } else {
            m
        }
    }
}

/// The composite size for a layout: 80 x 24 for no panes, otherwise the
/// furthest right and bottom edges.
pub open spec fn frame_size(layout: Seq<PaneGeometry>) -> (int, int) {
    if layout.len() == 0 {
        (80, 24)
    } else {
        (max_right(layout), max_bottom(layout))
    }
}

/// Calculate composite dimensions from layout: (width, height) needed to
/// contain all panes.
pub fn calculate_dimensions(layout: &Vec<PaneGeometry>) -> (d: (u16, u16))
    requires
        edges_fit(layout@),
    ensures
        d.0 as int == frame_size(layout@).0,
        d.1 as int == frame_size(layout@).1,
{
    if layout.len() == 0 {
        return (80, 24);
    }
    let mut max_r: u16 = 0;
    let mut max_b: u16 = 0;
    let mut i: usize = 0;
    while i < layout.len()
        invariant
            i <= layout@.len(),
            edges_fit(layout@),
            max_r as int == max_right(layout@.take(i as int)),
            max_b as int == max_bottom(layout@.take(i as int)),
        decreases layout@.len() - i,
    {
        let p = &layout[i];
        assert(layout@[i as int] == *p);
        let right = p.x + p.width;
        let bottom = p.y + p.height;
        assert(layout@.take(i + 1).drop_last() =~= layout@.take(i as int));
        if right > max_r {
            max_r = right;
        }
        if bottom > max_b {
            max_b = bottom;
        }
        i = i + 1;
    }
    assert(layout@.take(i as int) =~= layout@);
    (max_r, max_b)
}

// ---------------------------------------------------------------------------
// Pane contents
// ---------------------------------------------------------------------------

/// The rows of a cell grid held as vectors.
pub open spec fn rows_of(v: Seq<Vec<Cell>>) -> Seq<Seq<Cell>> {
    v.map_values(|r: Vec<Cell>| r@)
}

/// Writing a row of cells from column `x` on row `r`.
pub open spec fn row_writes(r: int, x: int, row: Seq<Cell>) -> Seq<CellWrite>
    decreases row.len(),
{
    if row.len() == 0 {
        seq![]
    } else {
        row_writes(r, x, row.drop_last()).push((r, x + row.len() - 1, row.last()))
    }
}

/// Writing a pane's cells with their top left corner at (y, x), row by row.
pub open spec fn pane_writes(y: int, x: int, cells: Seq<Seq<Cell>>) -> Seq<CellWrite>
    decreases cells.len(),
{
    if cells.len() == 0 {
        seq![]
    } else {
        pane_writes(y, x, cells.drop_last()) + row_writes(y + cells.len() - 1, x, cells.last())
    }
}

/// A pane's cells, placed at (y, x), stay within 16-bit coordinates.
pub open spec fn cells_fit(y: int, x: int, cells: Seq<Seq<Cell>>) -> bool {
    &&& y + cells.len() <= u16::MAX + 1
    &&& forall|r: int| 0 <= r < cells.len() ==> x + #[trigger] cells[r].len() <= u16::MAX + 1
}

/// Draw a single pane's cells onto the frame, its top left corner at the
/// pane's position.
pub fn draw_pane(frame: &mut CompositeFrame, geo: &PaneGeometry, cells: &Vec<Vec<Cell>>)
    requires
        old(frame).covers(),
        cells_fit(geo.y as int, geo.x as int, rows_of(cells@)),
    ensures
        final(frame).width == old(frame).width,
        final(frame).height == old(frame).height,
        final(frame).covers(),
        final(frame).grid() == apply_writes(
            old(frame).grid(),
            old(frame).height as int,
            old(frame).width as int,
            pane_writes(geo.y as int, geo.x as int, rows_of(cells@)),
        ),
{
    let ghost g0 = frame.grid();
    let ghost h = frame.height as int;
    let ghost w = frame.width as int;
    let ghost rows = rows_of(cells@);
    let ghost y = geo.y as int;
    let ghost x = geo.x as int;
    let mut r: usize = 0;
    while r < cells.len()
        invariant
            r <= cells@.len(),
            rows == rows_of(cells@),
            cells_fit(y, x, rows),
            y == geo.y as int,
            x == geo.x as int,
            frame.width as int == w,
            frame.height as int == h,
            frame.covers(),
            frame.grid() == apply_writes(g0, h, w, pane_writes(y, x, rows.take(r as int))),
        decreases cells@.len() - r,
    {
        let row = &cells[r];
        assert(rows[r as int] == row@);
        let ghost before = pane_writes(y, x, rows.take(r as int));
        let mut c: usize = 0;
        assert(row_writes(y + r, x, row@.take(0)) =~= Seq::<CellWrite>::empty());
        assert(before + row_writes(y + r, x, row@.take(0)) =~= before);
        while c < row.len()
            invariant
                c <= row@.len(),
                r < cells@.len(),
                row@ == rows[r as int],
                x + row@.len() <= u16::MAX + 1,
                y + r < u16::MAX + 1,
                y == geo.y as int,
                x == geo.x as int,
                frame.width as int == w,
                frame.height as int == h,
                frame.covers(),
                frame.grid() == apply_writes(g0, h, w, before + row_writes(y + r, x, row@.take(c as int))),
            decreases row@.len() - c,
        {
            let fr: u16 = geo.y + r as u16;
            let fc: u16 = geo.x + c as u16;
            frame.set_cell(fr, fc, row[c]);
            proof {
                let prev = before + row_writes(y + r, x, row@.take(c as int));
                let next = before + row_writes(y + r, x, row@.take(c + 1));
                assert(row@.take(c + 1).drop_last() =~= row@.take(c as int));
                assert(row_writes(y + r, x, row@.take(c + 1)) == row_writes(y + r, x, row@.take(c as int)).push(
                    (y + r, x + c, row@[c as int]),
                ));
                assert(next =~= prev.push((y + r, x + c, row@[c as int])));
                assert(next.drop_last() =~= prev);
            }
            c = c + 1;
        }
        proof {
            assert(row@.take(c as int) =~= row@);
            assert(rows.take(r + 1).drop_last() =~= rows.take(r as int));
            assert(rows.take(r + 1).last() == row@);
        }
        r = r + 1;
    }
    assert(rows.take(r as int) =~= rows);
}

// ---------------------------------------------------------------------------
// Borders
// ---------------------------------------------------------------------------

/// Box-drawing glyphs: horizontal, vertical, then the top left, top right,
/// bottom left and bottom right corners.
pub type Glyphs = (char, char, char, char, char, char);

/// `n` cells of `ch` along row `r` from column `from`.
pub open spec fn hline(r: int, from: int, n: int, ch: char) -> Seq<CellWrite> {
    Seq::new(n as nat, |i: int| (r, from + i, plain(ch)))
}

/// `n` cells of `ch` down column `c` from row `from`.
pub open spec fn vline(c: int, from: int, n: int, ch: char) -> Seq<CellWrite> {
    Seq::new(n as nat, |i: int| (from + i, c, plain(ch)))
}

/// `ws` when `cond` holds, else nothing.
pub open spec fn writes_if(cond: bool, ws: Seq<CellWrite>) -> Seq<CellWrite> {
    if cond {
        ws
    } else {
        seq![]
    }
}

/// The border around one pane on a frame of `fw` x `fh`: the top, bottom,
/// left and right lines where they are not at the frame's edge, then the
/// corners.
pub open spec fn pane_border_writes(p: PaneGeometry, fw: int, fh: int, g: Glyphs) -> Seq<CellWrite> {
    let x = p.x as int;
    let y = p.y as int;
    let w = p.width as int;
    let h = p.height as int;
    writes_if(y > 0, hline(y - 1, x, w, g.0))
        + writes_if(y + h < fh, hline(y + h, x, w, g.0))
        + writes_if(x > 0, vline(x - 1, y, h, g.1))
        + writes_if(x + w < fw, vline(x + w, y, h, g.1))
        + writes_if(y > 0 && x > 0, seq![(y - 1, x - 1, plain(g.2))])
        + writes_if(y > 0 && x + w < fw, seq![(y - 1, x + w, plain(g.3))])
        + writes_if(y + h < fh && x > 0, seq![(y + h, x - 1, plain(g.4))])
        + writes_if(y + h < fh && x + w < fw, seq![(y + h, x + w, plain(g.5))])
}

/// The borders of all panes, in layout order.
pub open spec fn border_writes(layout: Seq<PaneGeometry>, fw: int, fh: int, g: Glyphs) -> Seq<CellWrite>
    decreases layout.len(),
{
    if layout.len() == 0 {
        seq![]
    } else {
        border_writes(layout.drop_last(), fw, fh, g) + pane_border_writes(layout.last(), fw, fh, g)
    }
}

proof fn lemma_writes_step(g0: Seq<Seq<Cell>>, h: int, w: int, prev: Seq<CellWrite>, wr: CellWrite)
    ensures
        apply_writes(g0, h, w, prev.push(wr)) == write_cell(apply_writes(g0, h, w, prev), h, w, wr),
{
    assert(prev.push(wr).drop_last() =~= prev);
}

fn draw_hline(frame: &mut CompositeFrame, row: u16, from: u16, n: u16, ch: char)
    requires
        old(frame).covers(),
        from + n <= u16::MAX,
    ensures
        final(frame).width == old(frame).width,
        final(frame).height == old(frame).height,
        final(frame).covers(),
        final(frame).grid() == apply_writes(
            old(frame).grid(),
            old(frame).height as int,
            old(frame).width as int,
            hline(row as int, from as int, n as int, ch),
        ),
{
    let ghost g0 = frame.grid();
    let ghost h = frame.height as int;
    let ghost w = frame.width as int;
    let end: u16 = from + n;
    let mut col: u16 = from;
    assert(hline(row as int, from as int, 0, ch) =~= Seq::<CellWrite>::empty());
    while col < end
        invariant
            from <= col <= end,
            end == from + n,
            frame.width as int == w,
            frame.height as int == h,
            frame.covers(),
            frame.grid() == apply_writes(g0, h, w, hline(row as int, from as int, col - from, ch)),
        decreases end - col,
    {
        let ghost before = frame.grid();
        if col < frame.width {
            frame.set_cell(row, col, Cell::new(ch));
        }
        proof {
            let prev = hline(row as int, from as int, col - from, ch);
            assert(hline(row as int, from as int, col + 1 - from, ch) =~= prev.push((row as int, col as int, plain(ch))));
            lemma_writes_step(g0, h, w, prev, (row as int, col as int, plain(ch)));
        }
        col = col + 1;
    }
}

fn draw_vline(frame: &mut CompositeFrame, col: u16, from: u16, n: u16, ch: char)
    requires
        old(frame).covers(),
        from + n <= u16::MAX,
    ensures
        final(frame).width == old(frame).width,
        final(frame).height == old(frame).height,
        final(frame).covers(),
        final(frame).grid() == apply_writes(
            old(frame).grid(),
            old(frame).height as int,
            old(frame).width as int,
            vline(col as int, from as int, n as int, ch),
        ),
{
    let ghost g0 = frame.grid();
    let ghost h = frame.height as int;
    let ghost w = frame.width as int;
    let end: u16 = from + n;
    let mut row: u16 = from;
    assert(vline(col as int, from as int, 0, ch) =~= Seq::<CellWrite>::empty());
    while row < end
        invariant
            from <= row <= end,
            end == from + n,
            frame.width as int == w,
            frame.height as int == h,
            frame.covers(),
            frame.grid() == apply_writes(g0, h, w, vline(col as int, from as int, row - from, ch)),
        decreases end - row,
    {
        if row < frame.height {
            frame.set_cell(row, col, Cell::new(ch));
        }
        proof {
            let prev = vline(col as int, from as int, row - from, ch);
            assert(vline(col as int, from as int, row + 1 - from, ch) =~= prev.push((row as int, col as int, plain(ch))));
            lemma_writes_step(g0, h, w, prev, (row as int, col as int, plain(ch)));
        }
        row = row + 1;
    }
}

fn draw_glyph(frame: &mut CompositeFrame, row: u16, col: u16, ch: char)
    requires
        old(frame).covers(),
    ensures
        final(frame).width == old(frame).width,
        final(frame).height == old(frame).height,
        final(frame).covers(),
        final(frame).grid() == apply_writes(
            old(frame).grid(),
            old(frame).height as int,
            old(frame).width as int,
            seq![(row as int, col as int, plain(ch))],
        ),
{
    let ghost g0 = frame.grid();
    frame.set_cell(row, col, Cell::new(ch));
    proof {
        lemma_writes_step(g0, frame.height as int, frame.width as int, Seq::<CellWrite>::empty(), (row as int, col as int, plain(ch)));
        assert(Seq::<CellWrite>::empty().push((row as int, col as int, plain(ch))) =~= seq![(row as int, col as int, plain(ch))]);
    }
}

/// Draw the border around one pane.
fn draw_pane_border(frame: &mut CompositeFrame, p: &PaneGeometry, g: Glyphs)
    requires
        old(frame).covers(),
        p.x + p.width <= u16::MAX,
        p.y + p.height <= u16::MAX,
    ensures
        final(frame).width == old(frame).width,
        final(frame).height == old(frame).height,
        final(frame).covers(),
        final(frame).grid() == apply_writes(
            old(frame).grid(),
            old(frame).height as int,
            old(frame).width as int,
            pane_border_writes(*p, old(frame).width as int, old(frame).height as int, g),
        ),
{
    let ghost g0 = frame.grid();
    let ghost h = frame.height as int;
    let ghost w = frame.width as int;
    let ghost x = p.x as int;
    let ghost y = p.y as int;
    let ghost pw = p.width as int;
    let ghost ph = p.height as int;
    let ghost mut done: Seq<CellWrite> = seq![];
    let right: u16 = p.x + p.width;
    let bottom: u16 = p.y + p.height;
    // Top border
    if p.y > 0 {
        draw_hline(frame, p.y - 1, p.x, p.width, g.0);
    }
    proof {
        let step = writes_if(y > 0, hline(y - 1, x, pw, g.0));
        if !(y > 0) {
            assert(apply_writes(g0, h, w, step) == g0);
        }
        done = step;
    }
    assert(frame.grid() == apply_writes(g0, h, w, done));
    // Bottom border
    let ghost before = frame.grid();
    if bottom < frame.height {
        draw_hline(frame, bottom, p.x, p.width, g.0);
    }
    proof {
        let step = writes_if(y + ph < h, hline(y + ph, x, pw, g.0));
        if !(y + ph < h) {
            assert(apply_writes(before, h, w, step) == before);
        }
        lemma_apply_writes_append(g0, h, w, done, step);
        done = done + step;
    }
    assert(frame.grid() == apply_writes(g0, h, w, done));
    // Left border
    let ghost before = frame.grid();
    if p.x > 0 {
        draw_vline(frame, p.x - 1, p.y, p.height, g.1);
    }
    proof {
        let step = writes_if(x > 0, vline(x - 1, y, ph, g.1));
        if !(x > 0) {
            assert(apply_writes(before, h, w, step) == before);
        }
        lemma_apply_writes_append(g0, h, w, done, step);
        done = done + step;
    }
    // Right border
    let ghost before = frame.grid();
    if right < frame.width {
        draw_vline(frame, right, p.y, p.height, g.1);
    }
    proof {
        let step = writes_if(x + pw < w, vline(x + pw, y, ph, g.1));
        if !(x + pw < w) {
            assert(apply_writes(before, h, w, step) == before);
        }
        lemma_apply_writes_append(g0, h, w, done, step);
        done = done + step;
    }
    // Corners
    let ghost before = frame.grid();
    if p.y > 0 && p.x > 0 {
        draw_glyph(frame, p.y - 1, p.x - 1, g.2);
    }
    proof {
        let step = writes_if(y > 0 && x > 0, seq![(y - 1, x - 1, plain(g.2))]);
        if !(y > 0 && x > 0) {
            assert(apply_writes(before, h, w, step) == before);
        }
        lemma_apply_writes_append(g0, h, w, done, step);
        done = done + step;
    }
    let ghost before = frame.grid();
    if p.y > 0 && right < frame.width {
        draw_glyph(frame, p.y - 1, right, g.3);
    }
    proof {
        let step = writes_if(y > 0 && x + pw < w, seq![(y - 1, x + pw, plain(g.3))]);
        if !(y > 0 && x + pw < w) {
            assert(apply_writes(before, h, w, step) == before);
        }
        lemma_apply_writes_append(g0, h, w, done, step);
        done = done + step;
    }
    let ghost before = frame.grid();
    if bottom < frame.height && p.x > 0 {
        draw_glyph(frame, bottom, p.x - 1, g.4);
    }
    proof {
        let step = writes_if(y + ph < h && x > 0, seq![(y + ph, x - 1, plain(g.4))]);
        if !(y + ph < h && x > 0) {
            assert(apply_writes(before, h, w, step) == before);
        }
        lemma_apply_writes_append(g0, h, w, done, step);
        done = done + step;
    }
    let ghost before = frame.grid();
    if bottom < frame.height && right < frame.width {
        draw_glyph(frame, bottom, right, g.5);
    }
    proof {
        let step = writes_if(y + ph < h && x + pw < w, seq![(y + ph, x + pw, plain(g.5))]);
        if !(y + ph < h && x + pw < w) {
            assert(apply_writes(before, h, w, step) == before);
        }
        lemma_apply_writes_append(g0, h, w, done, step);
        done = done + step;
        assert(done == pane_border_writes(*p, w, h, g));
    }
}

/// Draw the borders of every pane of `layout` with the glyphs `g`, in
/// layout order.
pub fn draw_borders(frame: &mut CompositeFrame, layout: &Vec<PaneGeometry>, g: Glyphs)
    requires
        old(frame).covers(),
        edges_fit(layout@),
    ensures
        final(frame).width == old(frame).width,
        final(frame).height == old(frame).height,
        final(frame).covers(),
        final(frame).grid() == apply_writes(
            old(frame).grid(),
            old(frame).height as int,
            old(frame).width as int,
            border_writes(layout@, old(frame).width as int, old(frame).height as int, g),
        ),
{
    let ghost g0 = frame.grid();
    let ghost h = frame.height as int;
    let ghost w = frame.width as int;
    let mut i: usize = 0;
    while i < layout.len()
        invariant
            i <= layout@.len(),
            edges_fit(layout@),
            frame.width as int == w,
            frame.height as int == h,
            frame.covers(),
            frame.grid() == apply_writes(g0, h, w, border_writes(layout@.take(i as int), w, h, g)),
        decreases layout@.len() - i,
    {
        let p = &layout[i];
        assert(layout@[i as int] == *p);
        let ghost prev = border_writes(layout@.take(i as int), w, h, g);
        draw_pane_border(frame, p, g);
        proof {
            lemma_apply_writes_append(g0, h, w, prev, pane_border_writes(*p, w, h, g));
            assert(layout@.take(i + 1).drop_last() =~= layout@.take(i as int));
        }
        i = i + 1;
    }
    assert(layout@.take(i as int) =~= layout@);
}

} // verus!

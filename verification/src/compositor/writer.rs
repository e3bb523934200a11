//! The decisions of composite output: how a frame is put together from the
//! layout and the panes' cells, and what is written for it after the frame
//! before.

use vstd::prelude::*;
use crate::compositor::ansi::{encode, full_ops};
use crate::compositor::diff::{comparable, diff_frames, diff_ops, render_full_frame};
use crate::compositor::frame::{blank_cell, Cell, CompositeFrame};
use crate::compositor::scene::{
    apply_writes, blank_frame_grid, border_writes, calculate_dimensions, cells_fit, draw_borders,
    draw_pane, edges_fit, frame_size, lemma_apply_writes_append, pane_writes, rows_of, CellWrite,
    Glyphs,
};
use crate::recording::layout::PaneGeometry;

verus! {

/// Border style for drawing between panes.
#[derive(Debug, Clone, Copy, PartialEq, Eq, Structural)]
pub enum BorderStyle {
    /// Single-line box drawing characters.
    Single,
    /// Double-line box drawing characters.
    Double,
    /// Heavy/bold box drawing characters.
    Heavy,
    /// No borders.
    Borderless,
}

impl Default for BorderStyle {
    fn default() -> (s: Self)
        ensures
            s == BorderStyle::Single,
    {
        BorderStyle::Single
    }
}

/// The glyphs a style draws with (horizontal, vertical, then the corners
/// top left, top right, bottom left, bottom right); none for `None`.
pub open spec fn border_glyphs(style: BorderStyle) -> Option<Glyphs> {
    match style {
        BorderStyle::Single => Some(('\u{2500}', '\u{2502}', '\u{250c}', '\u{2510}', '\u{2514}', '\u{2518}')),
        BorderStyle::Double => Some(('\u{2550}', '\u{2551}', '\u{2554}', '\u{2557}', '\u{255a}', '\u{255d}')),
        BorderStyle::Heavy => Some(('\u{2501}', '\u{2503}', '\u{250f}', '\u{2513}', '\u{2517}', '\u{251b}')),
        BorderStyle::Borderless => Option::None,
    }
}

/// Executable `border_glyphs`.
pub fn glyphs_of(style: BorderStyle) -> (g: Option<Glyphs>)
    ensures
        g == border_glyphs(style),
{
    match style {
        BorderStyle::Single => Some(('\u{2500}', '\u{2502}', '\u{250c}', '\u{2510}', '\u{2514}', '\u{2518}')),
        BorderStyle::Double => Some(('\u{2550}', '\u{2551}', '\u{2554}', '\u{2557}', '\u{255a}', '\u{255d}')),
        BorderStyle::Heavy => Some(('\u{2501}', '\u{2503}', '\u{250f}', '\u{2513}', '\u{2517}', '\u{251b}')),
        BorderStyle::Borderless => Option::None,
    }
}

/// Each style draws with its own box-drawing set: light lines
/// (U+2500 `─`, U+2502 `│`, corners U+250C, U+2510, U+2514, U+2518),
/// double lines (U+2550 `═`, U+2551 `║`, corners U+2554, U+2557, U+255A,
/// U+255D) and heavy lines (U+2501 `━`, U+2503 `┃`, corners U+250F,
/// U+2513, U+2517, U+251B); borderless draws nothing. No two styles share
/// a set, nor even a vertical line.
pub proof fn lemma_styles_draw_their_own_glyphs(a: BorderStyle, b: BorderStyle)
    ensures
        border_glyphs(BorderStyle::Single) == Some((
            '\u{2500}', '\u{2502}', '\u{250c}', '\u{2510}', '\u{2514}', '\u{2518}',
        )),
        border_glyphs(BorderStyle::Double) == Some((
            '\u{2550}', '\u{2551}', '\u{2554}', '\u{2557}', '\u{255a}', '\u{255d}',
        )),
        border_glyphs(BorderStyle::Heavy) == Some((
            '\u{2501}', '\u{2503}', '\u{250f}', '\u{2513}', '\u{2517}', '\u{251b}',
        )),
        border_glyphs(BorderStyle::Borderless) is None,
        a != b && border_glyphs(a) is Some && border_glyphs(b) is Some ==> border_glyphs(a).unwrap().1
            != border_glyphs(b).unwrap().1 && border_glyphs(a).unwrap().0 != border_glyphs(b).unwrap().0,
{
}

/// The panes' cells, one grid per pane.
pub open spec fn contents_of(v: Seq<Vec<Vec<Cell>>>) -> Seq<Seq<Seq<Cell>>> {
    v.map_values(|p: Vec<Vec<Cell>>| rows_of(p@))
}

/// Writing every pane's cells at its position, in layout order.
pub open spec fn panes_writes(layout: Seq<PaneGeometry>, contents: Seq<Seq<Seq<Cell>>>) -> Seq<CellWrite>
    decreases layout.len(),
{
    if layout.len() == 0 {
        seq![]
    } else {
        panes_writes(layout.drop_last(), contents) + pane_writes(
            layout.last().y as int,
            layout.last().x as int,
            contents[layout.len() - 1],
        )
    }
}

/// Borders are drawn when the style has glyphs and there is more than one
/// pane.
pub open spec fn frame_borders(layout: Seq<PaneGeometry>, style: BorderStyle) -> Seq<CellWrite> {
    let (w, h) = frame_size(layout);
    match border_glyphs(style) {
        Some(g) => if layout.len() > 1 {
            border_writes(layout, w, h, g)
        } else {
            seq![]
        },
        Option::None => seq![],
    }
}

/// The grid of the composite frame: a blank frame of the layout's size, the
/// panes' cells drawn in layout order, then the borders.
pub open spec fn composed_grid(layout: Seq<PaneGeometry>, contents: Seq<Seq<Seq<Cell>>>, style: BorderStyle) -> Seq<Seq<Cell>> {
    let (w, h) = frame_size(layout);
    apply_writes(blank_frame_grid(w, h), h, w, panes_writes(layout, contents) + frame_borders(layout, style))
}

/// The inputs `compose_frame` draws within 16-bit coordinates: one cell grid
/// per pane, every edge and every placed cell inside that range.
pub open spec fn composable(layout: Seq<PaneGeometry>, contents: Seq<Seq<Seq<Cell>>>) -> bool {
    &&& layout.len() == contents.len()
    &&& edges_fit(layout)
    &&& forall|i: int| 0 <= i < layout.len() ==> cells_fit(#[trigger] layout[i].y as int, layout[i].x as int, contents[i])
}

/// Put together the composite frame for a layout: each pane's cells at its
/// position, then the borders of the style when there is more than one pane.
pub fn compose_frame(layout: &Vec<PaneGeometry>, contents: &Vec<Vec<Vec<Cell>>>, style: BorderStyle) -> (f: CompositeFrame)
    requires
        composable(layout@, contents_of(contents@)),
    ensures
        f.wf(),
        f.width as int == frame_size(layout@).0,
        f.height as int == frame_size(layout@).1,
        f.grid() == composed_grid(layout@, contents_of(contents@), style),
{
    let ghost cs = contents_of(contents@);
    let (w, h) = calculate_dimensions(layout);
    let mut frame = CompositeFrame::new(w, h);
    let ghost g0 = blank_frame_grid(w as int, h as int);
    proof {
        assert forall|r: int| 0 <= r < h implies #[trigger] frame.grid()[r] =~= g0[r] by {
            assert(frame.grid()[r] == frame.cells@[r]@);
        }
        assert(frame.grid() =~= g0);
    }
    let mut i: usize = 0;
    while i < layout.len()
        invariant
            i <= layout@.len(),
            cs == contents_of(contents@),
            composable(layout@, cs),
            frame.wf(),
            frame.width == w,
            frame.height == h,
            frame.grid() == apply_writes(g0, h as int, w as int, panes_writes(layout@.take(i as int), cs)),
        decreases layout@.len() - i,
    {
        let p = &layout[i];
        assert(layout@[i as int] == *p);
        assert(cs[i as int] == rows_of(contents@[i as int]@));
        let ghost prev = panes_writes(layout@.take(i as int), cs);
        let ghost g1 = frame.grid();
        draw_pane(&mut frame, p, &contents[i]);
        proof {
            lemma_apply_writes_append(g0, h as int, w as int, prev, pane_writes(p.y as int, p.x as int, cs[i as int]));
            assert(layout@.take(i + 1).drop_last() =~= layout@.take(i as int));
            assert(layout@.take(i + 1).last() == *p);
            lemma_writes_keep_len(g1, h as int, w as int, pane_writes(p.y as int, p.x as int, cs[i as int]));
            assert(frame.grid().len() == frame.cells@.len());
            assert forall|r: int| 0 <= r < h implies #[trigger] frame.cells@[r]@.len() == w by {
                assert(frame.grid()[r] == frame.cells@[r]@);
                lemma_writes_keep_shape(g1, h as int, w as int, pane_writes(p.y as int, p.x as int, cs[i as int]), r);
            }
        }
        i = i + 1;
    }
    assert(layout@.take(i as int) =~= layout@);
    let ghost painted = panes_writes(layout@, cs);
    if style != BorderStyle::Borderless && layout.len() > 1 {
        let g = match glyphs_of(style) {
            Some(g) => g,
            Option::None => ('\u{2500}', '\u{2502}', '\u{250c}', '\u{2510}', '\u{2514}', '\u{2518}'),
        };
        let ghost g1 = frame.grid();
        draw_borders(&mut frame, layout, g);
        proof {
            lemma_apply_writes_append(g0, h as int, w as int, painted, border_writes(layout@, w as int, h as int, g));
            lemma_writes_keep_len(g1, h as int, w as int, border_writes(layout@, w as int, h as int, g));
            assert(frame.grid().len() == frame.cells@.len());
            assert forall|r: int| 0 <= r < h implies #[trigger] frame.cells@[r]@.len() == w by {
                assert(frame.grid()[r] == frame.cells@[r]@);
                lemma_writes_keep_shape(g1, h as int, w as int, border_writes(layout@, w as int, h as int, g), r);
            }
        }
    } else {
        assert(painted + frame_borders(layout@, style) =~= painted);
    }
    frame
}

/// Writes keep the number of rows.
proof fn lemma_writes_keep_len(g: Seq<Seq<Cell>>, h: int, w: int, ws: Seq<CellWrite>)
    requires
        g.len() == h,
    ensures
        apply_writes(g, h, w, ws).len() == g.len(),
    decreases ws.len(),
{
    if ws.len() > 0 {
        lemma_writes_keep_len(g, h, w, ws.drop_last());
    }
}

/// Writes keep the number of rows and each row's length.
proof fn lemma_writes_keep_shape(g: Seq<Seq<Cell>>, h: int, w: int, ws: Seq<CellWrite>, r: int)
    requires
        g.len() == h,
        forall|k: int| 0 <= k < h ==> #[trigger] g[k].len() == w,
        0 <= r < h,
    ensures
        apply_writes(g, h, w, ws).len() == h,
        apply_writes(g, h, w, ws)[r].len() == w,
    decreases ws.len(),
{
    if ws.len() > 0 {
        lemma_writes_keep_shape(g, h, w, ws.drop_last(), r);
        let p = apply_writes(g, h, w, ws.drop_last());
        let wr = ws.last();
        if 0 <= wr.0 < h && 0 <= wr.1 < w {
            lemma_writes_keep_shape(g, h, w, ws.drop_last(), wr.0);
        }
    }
}

/// What is written for a frame after the one before: the first frame and a
/// frame of other dimensions are rendered in full (the latter after a resize
/// to its dimensions), any other frame as its difference from the one
/// before.
pub fn frame_output(prev: Option<&CompositeFrame>, frame: &CompositeFrame) -> (out: (Option<(u16, u16)>, String))
    requires
        match prev {
            Some(p) => comparable(*p, *frame),
            Option::None => true,
        },
    ensures
        match prev {
            Some(p) => if p.width != frame.width || p.height != frame.height {
                out.0 == Some((frame.width, frame.height)) && out.1@ == encode(full_ops(frame.grid(), true))
            } else {
                out.0.is_none() && out.1@ == encode(diff_ops(*p, *frame))
            },
            Option::None => out.0.is_none() && out.1@ == encode(full_ops(frame.grid(), true)),
        },
{
    match prev {
        Some(p) => {
            if p.width != frame.width || p.height != frame.height {
                (Some((frame.width, frame.height)), render_full_frame(frame))
            } else {
                (Option::None, diff_frames(p, frame))
            }
        },
        Option::None => (Option::None, render_full_frame(frame)),
    }
}

} // verus!

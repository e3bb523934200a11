//! A small model of the ANSI output this crate produces.
//!
//! Output is described as a sequence of operations (`AnsiOp`); `encode`
//! gives the exact characters written for them, and `run` gives their
//! effect on a terminal screen: a grid of cells, a cursor and a pen (the
//! current graphic rendition).

use vstd::prelude::*;
use crate::text::{dec, push_char, push_dec};
use super::frame::{Cell, Color, ansi_fg, ansi_bg, blank_cell, push_color};

verus! {

/// One parameter of an SGR (Select Graphic Rendition) sequence.
pub enum SgrParam {
    Reset,
    Bold,
    Italic,
    Underline,
    Inverse,
    Fg(Color),
    Bg(Color),
}

/// One unit of terminal output.
pub ghost enum AnsiOp {
    /// `ESC [ 2 J`: erase the whole screen.
    ClearScreen,
    /// `ESC [ H`: cursor to the top-left cell.
    Home,
    /// `ESC [ row ; col H` with 1-based coordinates.
    MoveTo(nat, nat),
    /// `ESC [ p1 ; p2 ; ... m`.
    Sgr(Seq<SgrParam>),
    /// A printable character.
    Put(char),
}

/// The pen (graphic rendition) a terminal applies to the characters it prints.
#[derive(Debug, Clone, Copy, PartialEq, Eq, Structural)]
pub struct StyleState {
    pub fg: Color,
    pub bg: Color,
    pub bold: bool,
    pub underline: bool,
    pub inverse: bool,
    pub italic: bool,
}

/// The pen in its reset state.
pub open spec fn default_style() -> StyleState {
    StyleState {
        fg: Color::Default,
        bg: Color::Default,
        bold: false,
        underline: false,
        inverse: false,
        italic: false,
    }
}

/// The rendition attributes of a cell.
pub open spec fn style_of(c: Cell) -> StyleState {
    StyleState {
        fg: c.fg,
        bg: c.bg,
        bold: c.bold,
        underline: c.underline,
        inverse: c.inverse,
        italic: c.italic,
    }
}

/// The cell a terminal shows for `ch` printed with pen `st`.
pub open spec fn painted(ch: char, st: StyleState) -> Cell {
    Cell {
        ch,
        fg: st.fg,
        bg: st.bg,
        bold: st.bold,
        underline: st.underline,
        inverse: st.inverse,
        italic: st.italic,
    }
}

// ---------------------------------------------------------------------------
// Encoding
// ---------------------------------------------------------------------------

/// The characters of one SGR parameter.
pub open spec fn param_text(p: SgrParam) -> Seq<char> {
    match p {
        SgrParam::Reset => seq!['0'],
        SgrParam::Bold => seq!['1'],
        SgrParam::Italic => seq!['3'],
        SgrParam::Underline => seq!['4'],
        SgrParam::Inverse => seq!['7'],
        SgrParam::Fg(c) => ansi_fg(c),
        SgrParam::Bg(c) => ansi_bg(c),
    }
}

/// Parameters joined by `;`.
pub open spec fn join_params(ps: Seq<SgrParam>) -> Seq<char>
    decreases ps.len(),
{
    if ps.len() == 0 {
        seq![]
    } else if ps.len() == 1 {
        param_text(ps[0])
    } else {
        join_params(ps.drop_last()).push(';') + param_text(ps.last())
    }
}

/// `ESC [`.
pub open spec fn csi() -> Seq<char> {
    seq!['\x1b', '[']
}

/// The characters written for one operation.
pub open spec fn op_text(op: AnsiOp) -> Seq<char> {
    match op {
        AnsiOp::ClearScreen => csi() + seq!['2', 'J'],
        AnsiOp::Home => csi() + seq!['H'],
        AnsiOp::MoveTo(r, c) => csi() + dec(r) + seq![';'] + dec(c) + seq!['H'],
        AnsiOp::Sgr(ps) => csi() + join_params(ps) + seq!['m'],
        AnsiOp::Put(ch) => seq![ch],
    }
}

/// The characters written for a sequence of operations.
pub open spec fn encode(ops: Seq<AnsiOp>) -> Seq<char>
    decreases ops.len(),
{
    if ops.len() == 0 {
        seq![]
    } else {
        encode(ops.drop_last()) + op_text(ops.last())
    }
}

pub proof fn lemma_encode_push(ops: Seq<AnsiOp>, op: AnsiOp)
    ensures
        encode(ops.push(op)) == encode(ops) + op_text(op),
{
    assert(ops.push(op).drop_last() =~= ops);
}

pub proof fn lemma_encode_append(a: Seq<AnsiOp>, b: Seq<AnsiOp>)
    ensures
        encode(a + b) == encode(a) + encode(b),
    decreases b.len(),
{
    if b.len() == 0 {
        assert(a + b =~= a);
        assert(encode(b) =~= seq![]);
        assert(encode(a) + encode(b) =~= encode(a));
    } else {
        lemma_encode_append(a, b.drop_last());
        assert((a + b).drop_last() =~= a + b.drop_last());
        assert((a + b).last() == b.last());
        assert(encode(a + b) =~= encode(a) + encode(b));
    }
}

// ---------------------------------------------------------------------------
// Terminal model
// ---------------------------------------------------------------------------

/// Terminal state: the screen grid, the 0-based cursor and the pen.
pub ghost struct Term {
    pub grid: Seq<Seq<Cell>>,
    pub row: int,
    pub col: int,
    pub pen: StyleState,
}

/// Effect of one SGR parameter on the pen.
pub open spec fn apply_param(st: StyleState, p: SgrParam) -> StyleState {
    match p {
        SgrParam::Reset => default_style(),
        SgrParam::Bold => StyleState { bold: true, ..st },
        SgrParam::Italic => StyleState { italic: true, ..st },
        SgrParam::Underline => StyleState { underline: true, ..st },
        SgrParam::Inverse => StyleState { inverse: true, ..st },
        SgrParam::Fg(c) => StyleState { fg: c, ..st },
        SgrParam::Bg(c) => StyleState { bg: c, ..st },
    }
}

/// Effect of a parameter list, applied left to right.
pub open spec fn apply_params(st: StyleState, ps: Seq<SgrParam>) -> StyleState
    decreases ps.len(),
{
    if ps.len() == 0 {
        st
    } else {
        apply_param(apply_params(st, ps.drop_last()), ps.last())
    }
}

/// A grid of the same shape as `g` with every cell blank.
pub open spec fn blank_grid(g: Seq<Seq<Cell>>) -> Seq<Seq<Cell>> {
    Seq::new(g.len(), |r: int| Seq::new(g[r].len(), |c: int| blank_cell()))
}

/// Effect of one operation on the terminal.
pub open spec fn apply_op(t: Term, op: AnsiOp) -> Term {
    match op {
        AnsiOp::ClearScreen => Term { grid: blank_grid(t.grid), ..t },
        AnsiOp::Home => Term { row: 0, col: 0, ..t },
        AnsiOp::MoveTo(r, c) => Term { row: r - 1, col: c - 1, ..t },
        AnsiOp::Sgr(ps) => Term { pen: apply_params(t.pen, ps), ..t },
        AnsiOp::Put(ch) => {
            let g = if 0 <= t.row < t.grid.len() && 0 <= t.col < t.grid[t.row].len() {
                t.grid.update(t.row, t.grid[t.row].update(t.col, painted(ch, t.pen)))
            } else {
                t.grid
            };
            Term { grid: g, col: t.col + 1, ..t }
        },
    }
}

/// Effect of a sequence of operations on the terminal.
pub open spec fn run(t: Term, ops: Seq<AnsiOp>) -> Term
    decreases ops.len(),
{
    if ops.len() == 0 {
        t
    } else {
        apply_op(run(t, ops.drop_last()), ops.last())
    }
}

pub proof fn lemma_run_push(t: Term, ops: Seq<AnsiOp>, op: AnsiOp)
    ensures
        run(t, ops.push(op)) == apply_op(run(t, ops), op),
{
    assert(ops.push(op).drop_last() =~= ops);
}

pub proof fn lemma_run_append(t: Term, a: Seq<AnsiOp>, b: Seq<AnsiOp>)
    ensures
        run(t, a + b) == run(run(t, a), b),
    decreases b.len(),
{
    if b.len() == 0 {
        assert(a + b =~= a);
    } else {
        lemma_run_append(t, a, b.drop_last());
        assert((a + b).drop_last() =~= a + b.drop_last());
        assert((a + b).last() == b.last());
    }
}

// ---------------------------------------------------------------------------
// Pen transitions
// ---------------------------------------------------------------------------

/// Whether moving the pen from `st` to the style of `cell` needs a reset
/// (some attribute has to be switched off).
pub open spec fn needs_reset(st: StyleState, cell: Cell) -> bool {
    (!cell.bold && st.bold) || (!cell.underline && st.underline) || (!cell.inverse && st.inverse)
        || (!cell.italic && st.italic)
}

pub open spec fn push_if(cond: bool, ps: Seq<SgrParam>, p: SgrParam) -> Seq<SgrParam> {
    if cond {
        ps.push(p)
    } else {
        ps
    }
}

/// The SGR parameters emitted to move the pen from `st` to the style of
/// `cell`. With `italic_first` the attribute order is bold, italic,
/// underline, inverse; otherwise bold, underline, inverse, italic.
/// Colours follow: foreground, then background.
pub open spec fn transition_params(st: StyleState, cell: Cell, italic_first: bool) -> Seq<SgrParam> {
    let reset = needs_reset(st, cell);
    let base = if reset {
        default_style()
    } else {
        st
    };
    let p0: Seq<SgrParam> = if reset {
        seq![SgrParam::Reset]
    } else {
        seq![]
    };
    let p1 = push_if(cell.bold && !base.bold, p0, SgrParam::Bold);
    let p4 = if italic_first {
        let a = push_if(cell.italic && !base.italic, p1, SgrParam::Italic);
        let b = push_if(cell.underline && !base.underline, a, SgrParam::Underline);
        push_if(cell.inverse && !base.inverse, b, SgrParam::Inverse)
    } else {
        let a = push_if(cell.underline && !base.underline, p1, SgrParam::Underline);
        let b = push_if(cell.inverse && !base.inverse, a, SgrParam::Inverse);
        push_if(cell.italic && !base.italic, b, SgrParam::Italic)
    };
    let p5 = push_if(cell.fg != base.fg, p4, SgrParam::Fg(cell.fg));
    push_if(cell.bg != base.bg, p5, SgrParam::Bg(cell.bg))
}

/// The operations for an SGR sequence: none when there is nothing to set.
pub open spec fn sgr_ops(ps: Seq<SgrParam>) -> Seq<AnsiOp> {
    if ps.len() == 0 {
        seq![]
    } else {
        seq![AnsiOp::Sgr(ps)]
    }
}

/// The characters of `sgr_ops(ps)`.
pub open spec fn sgr_text(ps: Seq<SgrParam>) -> Seq<char> {
    encode(sgr_ops(ps))
}

proof fn lemma_apply_push_if(st: StyleState, ps: Seq<SgrParam>, cond: bool, p: SgrParam)
    ensures
        apply_params(st, push_if(cond, ps, p)) == if cond {
            apply_param(apply_params(st, ps), p)
        } else {
            apply_params(st, ps)
        },
{
    if cond {
        assert(ps.push(p).drop_last() =~= ps);
    }
}

/// Applying the transition parameters to the pen gives exactly the style of
/// the target cell.
pub proof fn lemma_transition_sets_style(st: StyleState, cell: Cell, italic_first: bool)
    ensures
        apply_params(st, transition_params(st, cell, italic_first)) == style_of(cell),
{
    let reset = needs_reset(st, cell);
    let base = if reset {
        default_style()
    } else {
        st
    };
    let p0: Seq<SgrParam> = if reset {
        seq![SgrParam::Reset]
    } else {
        seq![]
    };
    if reset {
        assert(seq![SgrParam::Reset].drop_last() =~= Seq::<SgrParam>::empty());
    }
    assert(apply_params(st, p0) == base);
    let p1 = push_if(cell.bold && !base.bold, p0, SgrParam::Bold);
    lemma_apply_push_if(st, p0, cell.bold && !base.bold, SgrParam::Bold);
    if italic_first {
        let a = push_if(cell.italic && !base.italic, p1, SgrParam::Italic);
        lemma_apply_push_if(st, p1, cell.italic && !base.italic, SgrParam::Italic);
        let b = push_if(cell.underline && !base.underline, a, SgrParam::Underline);
        lemma_apply_push_if(st, a, cell.underline && !base.underline, SgrParam::Underline);
        let p4 = push_if(cell.inverse && !base.inverse, b, SgrParam::Inverse);
        lemma_apply_push_if(st, b, cell.inverse && !base.inverse, SgrParam::Inverse);
        let p5 = push_if(cell.fg != base.fg, p4, SgrParam::Fg(cell.fg));
        lemma_apply_push_if(st, p4, cell.fg != base.fg, SgrParam::Fg(cell.fg));
        lemma_apply_push_if(st, p5, cell.bg != base.bg, SgrParam::Bg(cell.bg));
    } else {
        let a = push_if(cell.underline && !base.underline, p1, SgrParam::Underline);
        lemma_apply_push_if(st, p1, cell.underline && !base.underline, SgrParam::Underline);
        let b = push_if(cell.inverse && !base.inverse, a, SgrParam::Inverse);
        lemma_apply_push_if(st, a, cell.inverse && !base.inverse, SgrParam::Inverse);
        let p4 = push_if(cell.italic && !base.italic, b, SgrParam::Italic);
        lemma_apply_push_if(st, b, cell.italic && !base.italic, SgrParam::Italic);
        let p5 = push_if(cell.fg != base.fg, p4, SgrParam::Fg(cell.fg));
        lemma_apply_push_if(st, p4, cell.fg != base.fg, SgrParam::Fg(cell.fg));
        lemma_apply_push_if(st, p5, cell.bg != base.bg, SgrParam::Bg(cell.bg));
    }
}

/// The pen tracked by the renderer after moving to `cell`.
pub proof fn lemma_sgr_ops_pen(st: StyleState, cell: Cell, italic_first: bool)
    ensures
        forall|t: Term| t.pen == st ==> #[trigger] run(t, sgr_ops(transition_params(st, cell, italic_first))).pen
            == style_of(cell),
        forall|t: Term| #[trigger] run(t, sgr_ops(transition_params(st, cell, italic_first))).grid == t.grid,
        forall|t: Term| #[trigger] run(t, sgr_ops(transition_params(st, cell, italic_first))).row == t.row,
        forall|t: Term| #[trigger] run(t, sgr_ops(transition_params(st, cell, italic_first))).col == t.col,
{
    let ps = transition_params(st, cell, italic_first);
    lemma_transition_sets_style(st, cell, italic_first);
    assert forall|t: Term| #[trigger] run(t, sgr_ops(ps)) == (if ps.len() == 0 {
        t
    } else {
        Term { pen: apply_params(t.pen, ps), ..t }
    }) by {
        if ps.len() > 0 {
            let ops = seq![AnsiOp::Sgr(ps)];
            assert(ops.drop_last() =~= Seq::<AnsiOp>::empty());
            assert(run(t, ops.drop_last()) == t);
            assert(ops.last() == AnsiOp::Sgr(ps));
        }
    }
    if ps.len() == 0 {
        assert(ps =~= Seq::<SgrParam>::empty());
    }
}


// ---------------------------------------------------------------------------
// Rendering whole grids
// ---------------------------------------------------------------------------

/// Operations that print one cell: the pen change (if any), then the character.
pub open spec fn cell_ops(st: StyleState, cell: Cell, italic_first: bool) -> Seq<AnsiOp> {
    sgr_ops(transition_params(st, cell, italic_first)).push(AnsiOp::Put(cell.ch))
}

/// The pen after printing `cells` starting from pen `st`.
pub open spec fn cells_style(st: StyleState, cells: Seq<Cell>) -> StyleState {
    if cells.len() == 0 {
        st
    } else {
        style_of(cells.last())
    }
}

/// Operations that print `cells` one after the other, starting from pen `st`.
pub open spec fn cells_ops(st: StyleState, cells: Seq<Cell>, italic_first: bool) -> Seq<AnsiOp>
    decreases cells.len(),
{
    if cells.len() == 0 {
        seq![]
    } else {
        cells_ops(st, cells.drop_last(), italic_first) + cell_ops(
            cells_style(st, cells.drop_last()),
            cells.last(),
            italic_first,
        )
    }
}

/// The pen after printing every row of `rows`.
pub open spec fn rows_style(st: StyleState, rows: Seq<Seq<Cell>>) -> StyleState
    decreases rows.len(),
{
    if rows.len() == 0 {
        st
    } else {
        cells_style(rows_style(st, rows.drop_last()), rows.last())
    }
}

/// Operations that print `rows`, each preceded by a cursor move to the
/// start of its (1-based) row.
pub open spec fn rows_ops(st: StyleState, rows: Seq<Seq<Cell>>, italic_first: bool) -> Seq<AnsiOp>
    decreases rows.len(),
{
    if rows.len() == 0 {
        seq![]
    } else {
        rows_ops(st, rows.drop_last(), italic_first).push(AnsiOp::MoveTo(rows.len(), 1)) + cells_ops(
            rows_style(st, rows.drop_last()),
            rows.last(),
            italic_first,
        )
    }
}

/// Without italic cells the attribute order makes no difference to what is
/// printed for a row.
pub proof fn lemma_cells_ops_order_free(st: StyleState, cells: Seq<Cell>)
    requires
        forall|i: int| 0 <= i < cells.len() ==> !(#[trigger] cells[i]).italic,
    ensures
        cells_ops(st, cells, true) == cells_ops(st, cells, false),
    decreases cells.len(),
{
    if cells.len() > 0 {
        lemma_cells_ops_order_free(st, cells.drop_last());
        let c = cells.last();
        assert(!cells[cells.len() - 1].italic);
        let pen = cells_style(st, cells.drop_last());
        assert(transition_params(pen, c, true) =~= transition_params(pen, c, false));
    }
}

/// Without italic cells the attribute order makes no difference to what is
/// printed for a grid.
pub proof fn lemma_rows_ops_order_free(st: StyleState, rows: Seq<Seq<Cell>>)
    requires
        forall|r: int, c: int| 0 <= r < rows.len() && 0 <= c < rows[r].len() ==> !(#[trigger] rows[r][c]).italic,
    ensures
        rows_ops(st, rows, true) == rows_ops(st, rows, false),
    decreases rows.len(),
{
    if rows.len() > 0 {
        let last = rows.last();
        assert forall|r: int, c: int| 0 <= r < rows.drop_last().len() && 0 <= c < rows.drop_last()[r].len() implies !(
        #[trigger] rows.drop_last()[r][c]).italic by {
            assert(rows.drop_last()[r] == rows[r]);
        }
        lemma_rows_ops_order_free(st, rows.drop_last());
        assert forall|i: int| 0 <= i < last.len() implies !(#[trigger] last[i]).italic by {
            assert(rows[rows.len() - 1][i] == last[i]);
        }
        lemma_cells_ops_order_free(rows_style(st, rows.drop_last()), last);
    }
}

/// Clear screen, home, every row in turn, and a final reset.
pub open spec fn full_ops(grid: Seq<Seq<Cell>>, italic_first: bool) -> Seq<AnsiOp> {
    seq![AnsiOp::ClearScreen, AnsiOp::Home] + rows_ops(default_style(), grid, italic_first) + seq![
        AnsiOp::Sgr(seq![SgrParam::Reset]),
    ]
}

// ---------------------------------------------------------------------------
// Executable rendering
// ---------------------------------------------------------------------------

impl Default for StyleState {
    fn default() -> (s: Self)
        ensures
            s == default_style(),
    {
        StyleState {
            fg: Color::Default,
            bg: Color::Default,
            bold: false,
            underline: false,
            inverse: false,
            italic: false,
        }
    }
}

fn push_param_text(s: &mut String, p: SgrParam)
    ensures
        final(s)@ == old(s)@ + param_text(p),
{
    match p {
        SgrParam::Reset => push_char(s, '0'),
        SgrParam::Bold => push_char(s, '1'),
        SgrParam::Italic => push_char(s, '3'),
        SgrParam::Underline => push_char(s, '4'),
        SgrParam::Inverse => push_char(s, '7'),
        SgrParam::Fg(c) => push_color(s, c, false),
        SgrParam::Bg(c) => push_color(s, c, true),
    }
}

fn add_param(params: &mut String, n: &mut usize, p: SgrParam, Ghost(ps): Ghost<Seq<SgrParam>>)
    requires
        old(params)@ == join_params(ps),
        *old(n) == ps.len(),
        ps.len() < 100,
    ensures
        final(params)@ == join_params(ps.push(p)),
        *final(n) == ps.len() + 1,
{
    let ghost p0 = params@;
    assert(ps.push(p).drop_last() =~= ps);
    if *n > 0 {
        push_char(params, ';');
    }
    push_param_text(params, p);
    *n = *n + 1;
    assert(params@ =~= join_params(ps.push(p)));
}

fn add_param_if(params: &mut String, n: &mut usize, cond: bool, p: SgrParam, Ghost(ps): Ghost<Seq<SgrParam>>)
    requires
        old(params)@ == join_params(ps),
        *old(n) == ps.len(),
        ps.len() < 100,
    ensures
        final(params)@ == join_params(push_if(cond, ps, p)),
        *final(n) == push_if(cond, ps, p).len(),
{
    if cond {
        add_param(params, n, p, Ghost(ps));
    }
}

/// The parameter list of `transition_params`, as text joined by `;`, and its length.
fn transition_param_text(st: &StyleState, cell: &Cell, italic_first: bool) -> (res: (String, usize))
    ensures
        res.0@ == join_params(transition_params(*st, *cell, italic_first)),
        res.1 == transition_params(*st, *cell, italic_first).len(),
{
    let mut params = String::new();
    let mut n: usize = 0;
    let reset = (!cell.bold && st.bold) || (!cell.underline && st.underline) || (!cell.inverse
        && st.inverse) || (!cell.italic && st.italic);
    let base = if reset {
        StyleState::default()
    } else {
        *st
    };
    let ghost p0: Seq<SgrParam> = if reset {
        seq![SgrParam::Reset]
    } else {
        seq![]
    };
    if reset {
        add_param(&mut params, &mut n, SgrParam::Reset, Ghost(Seq::<SgrParam>::empty()));
        assert(Seq::<SgrParam>::empty().push(SgrParam::Reset) =~= seq![SgrParam::Reset]);
    }
    let ghost p1 = push_if(cell.bold && !base.bold, p0, SgrParam::Bold);
    add_param_if(&mut params, &mut n, cell.bold && !base.bold, SgrParam::Bold, Ghost(p0));
    let ghost p4: Seq<SgrParam>;
    if italic_first {
        let ghost a = push_if(cell.italic && !base.italic, p1, SgrParam::Italic);
        add_param_if(&mut params, &mut n, cell.italic && !base.italic, SgrParam::Italic, Ghost(p1));
        let ghost b = push_if(cell.underline && !base.underline, a, SgrParam::Underline);
        add_param_if(&mut params, &mut n, cell.underline && !base.underline, SgrParam::Underline, Ghost(a));
        add_param_if(&mut params, &mut n, cell.inverse && !base.inverse, SgrParam::Inverse, Ghost(b));
        proof {
            p4 = push_if(cell.inverse && !base.inverse, b, SgrParam::Inverse);
        }
    } else {
        let ghost a = push_if(cell.underline && !base.underline, p1, SgrParam::Underline);
        add_param_if(&mut params, &mut n, cell.underline && !base.underline, SgrParam::Underline, Ghost(p1));
        let ghost b = push_if(cell.inverse && !base.inverse, a, SgrParam::Inverse);
        add_param_if(&mut params, &mut n, cell.inverse && !base.inverse, SgrParam::Inverse, Ghost(a));
        add_param_if(&mut params, &mut n, cell.italic && !base.italic, SgrParam::Italic, Ghost(b));
        proof {
            p4 = push_if(cell.italic && !base.italic, b, SgrParam::Italic);
        }
    }
    let ghost p5 = push_if(cell.fg != base.fg, p4, SgrParam::Fg(cell.fg));
    add_param_if(&mut params, &mut n, cell.fg != base.fg, SgrParam::Fg(cell.fg), Ghost(p4));
    add_param_if(&mut params, &mut n, cell.bg != base.bg, SgrParam::Bg(cell.bg), Ghost(p5));
    (params, n)
}

/// Moves the pen tracked in `st` to the style of `cell` and returns the SGR
/// sequence that does the same on the terminal (empty if nothing changes).
pub(crate) fn sgr_transition(st: &mut StyleState, cell: &Cell, italic_first: bool) -> (s: String)
    ensures
        s@ == sgr_text(transition_params(*old(st), *cell, italic_first)),
        *final(st) == style_of(*cell),
{
    let ghost ps = transition_params(*st, *cell, italic_first);
    let (params, n) = transition_param_text(st, cell, italic_first);
    *st = StyleState {
        fg: cell.fg,
        bg: cell.bg,
        bold: cell.bold,
        underline: cell.underline,
        inverse: cell.inverse,
        italic: cell.italic,
    };
    let mut s = String::new();
    if n > 0 {
        push_char(&mut s, '\x1b');
        push_char(&mut s, '[');
        s.append(params.as_str());
        push_char(&mut s, 'm');
        proof {
            let ops = seq![AnsiOp::Sgr(ps)];
            assert(ops.drop_last() =~= Seq::<AnsiOp>::empty());
            assert(encode(ops.drop_last()) =~= Seq::<char>::empty());
            assert(s@ =~= sgr_text(ps));
        }
    } else {
        assert(sgr_text(ps) =~= Seq::<char>::empty());
    }
    s
}

/// Appends `ESC [ row ; col H`.
pub(crate) fn push_move_to(out: &mut String, row: u64, col: u64)
    ensures
        final(out)@ == old(out)@ + op_text(AnsiOp::MoveTo(row as nat, col as nat)),
{
    let ghost o0 = out@;
    push_char(out, '\x1b');
    push_char(out, '[');
    push_dec(out, row);
    push_char(out, ';');
    push_dec(out, col);
    push_char(out, 'H');
    assert(out@ =~= o0 + op_text(AnsiOp::MoveTo(row as nat, col as nat)));
}

/// Appends `ESC [ 0 m`.
pub(crate) fn push_reset(out: &mut String)
    ensures
        final(out)@ == old(out)@ + op_text(AnsiOp::Sgr(seq![SgrParam::Reset])),
{
    let ghost o0 = out@;
    push_char(out, '\x1b');
    push_char(out, '[');
    push_char(out, '0');
    push_char(out, 'm');
    assert(seq![SgrParam::Reset].len() == 1);
    assert(join_params(seq![SgrParam::Reset]) =~= seq!['0']);
    assert(out@ =~= o0 + op_text(AnsiOp::Sgr(seq![SgrParam::Reset])));
}

/// Appends the characters that print `cells[from..to]` starting from pen `st`.
pub(crate) fn push_cells_range(
    out: &mut String,
    st: &mut StyleState,
    cells: &Vec<Cell>,
    from: usize,
    to: usize,
    italic_first: bool,
)
    requires
        from <= to <= cells@.len(),
    ensures
        final(out)@ == old(out)@ + encode(cells_ops(*old(st), cells@.subrange(from as int, to as int), italic_first)),
        *final(st) == cells_style(*old(st), cells@.subrange(from as int, to as int)),
{
    let ghost o0 = out@;
    let ghost st0 = *st;
    let mut c: usize = from;
    assert(cells@.subrange(from as int, from as int) =~= Seq::<Cell>::empty());
    while c < to
        invariant
            from <= c <= to,
            to <= cells@.len(),
            out@ == o0 + encode(cells_ops(st0, cells@.subrange(from as int, c as int), italic_first)),
            *st == cells_style(st0, cells@.subrange(from as int, c as int)),
        decreases to - c,
    {
        let ghost before = cells@.subrange(from as int, c as int);
        let ghost st_c = *st;
        let cell = cells[c];
        let sgr = sgr_transition(st, &cell, italic_first);
        out.append(sgr.as_str());
        push_char(out, cell.ch);
        proof {
            let next = cells@.subrange(from as int, c + 1);
            assert(next.drop_last() =~= before);
            assert(next.last() == cell);
            let ps = transition_params(st_c, cell, italic_first);
            lemma_encode_push(sgr_ops(ps), AnsiOp::Put(cell.ch));
            lemma_encode_append(cells_ops(st0, before, italic_first), cell_ops(st_c, cell, italic_first));
            assert(out@ =~= o0 + encode(cells_ops(st0, next, italic_first)));
        }
        c = c + 1;
    }
}

/// Appends the characters that print `cells` starting from pen `st`.
pub(crate) fn push_cells(out: &mut String, st: &mut StyleState, cells: &Vec<Cell>, italic_first: bool)
    ensures
        final(out)@ == old(out)@ + encode(cells_ops(*old(st), cells@, italic_first)),
        *final(st) == cells_style(*old(st), cells@),
{
    push_cells_range(out, st, cells, 0, cells.len(), italic_first);
    assert(cells@.subrange(0, cells@.len() as int) =~= cells@);
}

/// Renders a grid from scratch: clear screen, home, each row, final reset.
pub(crate) fn render_grid(cells: &Vec<Vec<Cell>>, italic_first: bool) -> (out: String)
    ensures
        out@ == encode(full_ops(cells@.map_values(|row: Vec<Cell>| row@), italic_first)),
{
    let ghost grid = cells@.map_values(|row: Vec<Cell>| row@);
    let mut out = String::new();
    push_char(&mut out, '\x1b');
    push_char(&mut out, '[');
    push_char(&mut out, '2');
    push_char(&mut out, 'J');
    push_char(&mut out, '\x1b');
    push_char(&mut out, '[');
    push_char(&mut out, 'H');
    let ghost head = seq![AnsiOp::ClearScreen, AnsiOp::Home];
    proof {
        reveal_with_fuel(encode, 3);
        assert(head.drop_last() =~= seq![AnsiOp::ClearScreen]);
        assert(head.drop_last().drop_last() =~= Seq::<AnsiOp>::empty());
        assert(out@ =~= encode(head));
    }
    let mut style = StyleState::default();
    let mut r: usize = 0;
    assert(grid.take(0) =~= Seq::<Seq<Cell>>::empty());
    while r < cells.len()
        invariant
            r <= cells@.len(),
            grid == cells@.map_values(|row: Vec<Cell>| row@),
            out@ == encode(head) + encode(rows_ops(default_style(), grid.take(r as int), italic_first)),
            style == rows_style(default_style(), grid.take(r as int)),
        decreases cells@.len() - r,
    {
        let ghost before = grid.take(r as int);
        let ghost o1 = out@;
        let ghost st_r = style;
        push_move_to(&mut out, (r + 1) as u64, 1);
        push_cells(&mut out, &mut style, &cells[r], italic_first);
        proof {
            let next = grid.take(r + 1);
            assert(next.drop_last() =~= before);
            assert(next.last() == cells@[r as int]@);
            assert(next.len() == r + 1);
            let pre = rows_ops(default_style(), before, italic_first);
            lemma_encode_push(pre, AnsiOp::MoveTo((r + 1) as nat, 1));
            lemma_encode_append(pre.push(AnsiOp::MoveTo((r + 1) as nat, 1)), cells_ops(st_r, cells@[r as int]@, italic_first));
            assert(out@ =~= encode(head) + encode(rows_ops(default_style(), next, italic_first)));
        }
        r = r + 1;
    }
    assert(grid.take(cells@.len() as int) =~= grid);
    let ghost o2 = out@;
    push_reset(&mut out);
    proof {
        let body = rows_ops(default_style(), grid, italic_first);
        let tail = seq![AnsiOp::Sgr(seq![SgrParam::Reset])];
        lemma_encode_append(head, body);
        lemma_encode_push(head + body, AnsiOp::Sgr(seq![SgrParam::Reset]));
        assert((head + body).push(AnsiOp::Sgr(seq![SgrParam::Reset])) =~= full_ops(grid, italic_first));
    }
    out
}

// ---------------------------------------------------------------------------
// What rendering does to a terminal
// ---------------------------------------------------------------------------

/// Two grids have the same number of rows and equally long rows.
pub open spec fn same_shape(a: Seq<Seq<Cell>>, b: Seq<Seq<Cell>>) -> bool {
    &&& a.len() == b.len()
    &&& forall|r: int| 0 <= r < a.len() ==> #[trigger] a[r].len() == b[r].len()
}

/// Printing `cells` at the cursor, with the pen the renderer assumes,
/// overwrites exactly the next `cells.len()` cells of the cursor row with
/// `cells`, advances the cursor past them and leaves the pen at the style of
/// the last cell printed.
pub proof fn lemma_cells_paint(t: Term, st: StyleState, cells: Seq<Cell>, italic_first: bool)
    requires
        t.pen == st,
        0 <= t.row < t.grid.len(),
        0 <= t.col,
        t.col + cells.len() <= t.grid[t.row].len(),
    ensures
        run(t, cells_ops(st, cells, italic_first)).row == t.row,
        run(t, cells_ops(st, cells, italic_first)).col == t.col + cells.len(),
        run(t, cells_ops(st, cells, italic_first)).pen == cells_style(st, cells),
        same_shape(run(t, cells_ops(st, cells, italic_first)).grid, t.grid),
        forall|r: int, c: int|
            0 <= r < t.grid.len() && 0 <= c < t.grid[r].len() ==> #[trigger] run(
                t,
                cells_ops(st, cells, italic_first),
            ).grid[r][c] == if r == t.row && t.col <= c < t.col + cells.len() {
                cells[c - t.col]
            } else {
                t.grid[r][c]
            },
    decreases cells.len(),
{
    if cells.len() > 0 {
        let init = cells.drop_last();
        lemma_cells_paint(t, st, init, italic_first);
        let a = cells_ops(st, init, italic_first);
        let v = run(t, a);
        let last = cells.last();
        let s1 = cells_style(st, init);
        let ps = transition_params(s1, last, italic_first);
        lemma_run_append(t, a, cell_ops(s1, last, italic_first));
        lemma_run_push(v, sgr_ops(ps), AnsiOp::Put(last.ch));
        lemma_sgr_ops_pen(s1, last, italic_first);
        let w = run(v, sgr_ops(ps));
        assert(w.pen == style_of(last));
        assert(painted(last.ch, style_of(last)) == last);
        let u = apply_op(w, AnsiOp::Put(last.ch));
        assert(u == run(t, cells_ops(st, cells, italic_first)));
        assert forall|r: int, c: int| 0 <= r < t.grid.len() && 0 <= c < t.grid[r].len() implies #[trigger] u.grid[r][c]
            == if r == t.row && t.col <= c < t.col + cells.len() {
            cells[c - t.col]
        } else {
            t.grid[r][c]
        } by {
            if r == t.row && c == t.col + init.len() {
                assert(cells[c - t.col] == last);
            } else if r == t.row && t.col <= c < t.col + init.len() {
                assert(cells[c - t.col] == init[c - t.col]);
            }
        }
    }
}

/// Printing `rows`, each after a move to the start of its row, replaces the
/// first `rows.len()` rows of the screen by `rows` and leaves the others alone.
pub proof fn lemma_rows_paint(t: Term, st: StyleState, rows: Seq<Seq<Cell>>, italic_first: bool)
    requires
        t.pen == st,
        rows.len() <= t.grid.len(),
        forall|r: int| 0 <= r < rows.len() ==> #[trigger] rows[r].len() == t.grid[r].len(),
    ensures
        run(t, rows_ops(st, rows, italic_first)).pen == rows_style(st, rows),
        same_shape(run(t, rows_ops(st, rows, italic_first)).grid, t.grid),
        forall|r: int| 0 <= r < rows.len() ==> #[trigger] run(t, rows_ops(st, rows, italic_first)).grid[r] == rows[r],
        forall|r: int| rows.len() <= r < t.grid.len() ==> #[trigger] run(t, rows_ops(st, rows, italic_first)).grid[r] == t.grid[r],
    decreases rows.len(),
{
    if rows.len() > 0 {
        let k = rows.len();
        let init = rows.drop_last();
        let last = rows.last();
        lemma_rows_paint(t, st, init, italic_first);
        let a = rows_ops(st, init, italic_first);
        let v = run(t, a);
        let mv = AnsiOp::MoveTo(k, 1);
        let s1 = rows_style(st, init);
        lemma_run_append(t, a.push(mv), cells_ops(s1, last, italic_first));
        lemma_run_push(t, a, mv);
        let m = apply_op(v, mv);
        assert(m.row == k - 1 && m.col == 0);
        assert(last.len() == t.grid[k - 1].len());
        lemma_cells_paint(m, s1, last, italic_first);
        let u = run(m, cells_ops(s1, last, italic_first));
        assert(u == run(t, rows_ops(st, rows, italic_first)));
        assert forall|r: int| 0 <= r < rows.len() implies #[trigger] u.grid[r] == rows[r] by {
            if r == k - 1 {
                assert(u.grid[r] =~= last);
            } else {
                assert(u.grid[r] =~= v.grid[r]);
                assert(rows[r] == init[r]);
            }
        }
        assert forall|r: int| rows.len() <= r < t.grid.len() implies #[trigger] u.grid[r] == t.grid[r] by {
            assert(u.grid[r] =~= v.grid[r]);
        }
    }
}

/// A full render (clear, home, every row, reset) on a screen of the grid's
/// shape leaves the screen showing exactly the grid and the pen reset.
pub proof fn lemma_full_render_paints(t: Term, grid: Seq<Seq<Cell>>, italic_first: bool)
    requires
        t.pen == default_style(),
        same_shape(t.grid, grid),
    ensures
        run(t, full_ops(grid, italic_first)).grid == grid,
        run(t, full_ops(grid, italic_first)).pen == default_style(),
{
    let head = seq![AnsiOp::ClearScreen, AnsiOp::Home];
    let body = rows_ops(default_style(), grid, italic_first);
    let reset = AnsiOp::Sgr(seq![SgrParam::Reset]);
    assert(full_ops(grid, italic_first) =~= (head + body).push(reset));
    lemma_run_push(t, head + body, reset);
    lemma_run_append(t, head, body);
    assert(head =~= seq![AnsiOp::ClearScreen].push(AnsiOp::Home));
    lemma_run_push(t, seq![AnsiOp::ClearScreen], AnsiOp::Home);
    lemma_run_push(t, Seq::<AnsiOp>::empty(), AnsiOp::ClearScreen);
    assert(Seq::<AnsiOp>::empty().push(AnsiOp::ClearScreen) =~= seq![AnsiOp::ClearScreen]);
    let h = run(t, head);
    assert(h.pen == default_style());
    assert(same_shape(h.grid, grid));
    lemma_rows_paint(h, default_style(), grid, italic_first);
    let u = run(h, body);
    assert(u.grid =~= grid);
    assert(seq![SgrParam::Reset].drop_last() =~= Seq::<SgrParam>::empty());
}

} // verus!

//! One pane's terminal while a recording is composited: a vt100 emulator
//! fed the pane's output, read back cell by cell.

use vstd::prelude::*;
use crate::compositor::frame::{blank_cell, Cell, Color};

verus! {

/// A vt100 terminal emulator (`vt100::Parser`, whose callbacks parameter
/// Verus cannot declare), held opaquely.
#[verifier::external_body]
pub struct Terminal {
    parser: vt100::Parser,
}

#[verifier::external_type_specification]
#[verifier::external_body]
pub struct ExVtScreen(vt100::Screen);

/// What a cell of a vt100 screen reads as: its first character (none when
/// the cell is empty), its colours, and its bold, underline, inverse and
/// italic attributes.
pub type CellRead = (Option<char>, Color, Color, bool, bool, bool, bool);

/// The bytes a terminal has been fed since it was made.
pub uninterp spec fn terminal_input(p: Terminal) -> Seq<u8>;

/// The rows and columns a terminal was made with.
pub uninterp spec fn terminal_size(p: Terminal) -> (u16, u16);

/// What `vt100::Screen::cell` gives at (`row`, `col`) on a terminal of
/// `rows` × `cols` that has been fed `input`.
pub uninterp spec fn screen_cell(rows: u16, cols: u16, input: Seq<u8>, row: u16, col: u16) -> Option<CellRead>;

/// Where `vt100::Screen::cursor_position` puts the cursor (row, column) on a
/// terminal of `rows` × `cols` that has been fed `input`.
pub uninterp spec fn screen_cursor(rows: u16, cols: u16, input: Seq<u8>) -> (u16, u16);

/// `vt100::Parser::new` without scrollback: a terminal of `rows` × `cols`
/// that has been fed nothing.
#[verifier::external_body]
pub(crate) fn new_terminal(rows: u16, cols: u16) -> (p: Terminal)
    requires
        rows >= 1,
        cols >= 1,
    ensures
        terminal_size(p) == (rows, cols),
        terminal_input(p) == Seq::<u8>::empty(),
{
    Terminal { parser: vt100::Parser::new(std::num::NonZeroU16::new(rows).unwrap(), std::num::NonZeroU16::new(cols).unwrap(), 0) }
}

/// `vt100::Parser::process`: the terminal is fed `bytes`; its size stays.
#[verifier::external_body]
pub(crate) fn feed(p: &mut Terminal, bytes: &[u8])
    ensures
        terminal_size(*final(p)) == terminal_size(*old(p)),
        terminal_input(*final(p)) == terminal_input(*old(p)) + bytes@,
{
    p.parser.process(bytes);
}

/// `vt100::Screen::cell`, read as a `CellRead` (`vt100::Cell::contents`,
/// `fgcolor`, `bgcolor`, `bold`, `underline`, `inverse`, `italic`).
#[verifier::external_body]
fn read_cell(p: &Terminal, row: u16, col: u16) -> (c: Option<CellRead>)
    ensures
        c == screen_cell(terminal_size(*p).0, terminal_size(*p).1, terminal_input(*p), row, col),
{
    p.parser.screen().cell(row, col).map(|c| {
        let color = |v: vt100::Color| match v {
            vt100::Color::Default => Color::Default,
            vt100::Color::Idx(i) => Color::Indexed(i),
            vt100::Color::Rgb(r, g, b) => Color::Rgb(r, g, b),
        };
        (c.contents().chars().next(), color(c.fgcolor()), color(c.bgcolor()), c.bold(), c.underline(), c.inverse(), c.italic())
    })
}

/// `vt100::Screen::cursor_position`.
#[verifier::external_body]
pub(crate) fn read_cursor(p: &Terminal) -> (pos: (u16, u16))
    ensures
        pos == screen_cursor(terminal_size(*p).0, terminal_size(*p).1, terminal_input(*p)),
{
    p.parser.screen().cursor_position()
}

/// What `vt100::Screen::contents` gives (the screen's text) on a terminal of
/// `rows` × `cols` that has been fed `input`.
pub uninterp spec fn screen_contents(rows: u16, cols: u16, input: Seq<u8>) -> Seq<char>;

/// What `vt100::Screen::contents_formatted` gives (the screen's text with
/// its formatting as escape sequences), as bytes.
pub uninterp spec fn screen_contents_formatted(rows: u16, cols: u16, input: Seq<u8>) -> Seq<u8>;

/// What `vt100::Screen::rows_formatted(start, width)` gives: for each
/// visible row, its cells from column `start`, `width` wide, with their
/// formatting, as bytes.
pub uninterp spec fn screen_rows_formatted(rows: u16, cols: u16, input: Seq<u8>, start: u16, width: u16) -> Seq<Seq<u8>>;

/// What `vt100::Screen::alternate_screen` gives: whether the alternate
/// screen is in use.
pub uninterp spec fn screen_alternate(rows: u16, cols: u16, input: Seq<u8>) -> bool;

/// `vt100::Screen::contents`.
#[verifier::external_body]
pub(crate) fn read_contents(p: &Terminal) -> (s: String)
    ensures
        s@ == screen_contents(terminal_size(*p).0, terminal_size(*p).1, terminal_input(*p)),
{
    p.parser.screen().contents()
}

/// `vt100::Screen::contents_formatted`, as bytes.
#[verifier::external_body]
pub(crate) fn read_contents_formatted(p: &Terminal) -> (b: Vec<u8>)
    ensures
        b@ == screen_contents_formatted(terminal_size(*p).0, terminal_size(*p).1, terminal_input(*p)),
{
    p.parser.screen().contents_formatted().into_bytes()
}

/// `vt100::Screen::rows_formatted`, each row as bytes: one entry per row of
/// the terminal. It indexes each row's cells at `start`, so `start` must be
/// a column of the terminal.
#[verifier::external_body]
pub(crate) fn read_rows_formatted(p: &Terminal, start: u16, width: u16) -> (rs: Vec<Vec<u8>>)
    requires
        start < terminal_size(*p).1,
    ensures
        rs@.len() == terminal_size(*p).0,
        rs@.map_values(|r: Vec<u8>| r@) == screen_rows_formatted(
            terminal_size(*p).0,
            terminal_size(*p).1,
            terminal_input(*p),
            start,
            width,
        ),
{
    p.parser.screen().rows_formatted(start, width).map(String::into_bytes).collect()
}

/// `vt100::Screen::alternate_screen`.
#[verifier::external_body]
pub(crate) fn read_alternate(p: &Terminal) -> (b: bool)
    ensures
        b == screen_alternate(terminal_size(*p).0, terminal_size(*p).1, terminal_input(*p)),
{
    p.parser.screen().alternate_screen()
}

/// `vt100::Screen::size`: the rows and columns the terminal was made with
/// (nothing here resizes a terminal), each at least one (`NonZeroU16`).
#[verifier::external_body]
pub(crate) fn read_size(p: &Terminal) -> (rc: (u16, u16))
    ensures
        rc == terminal_size(*p),
        rc.0 >= 1,
        rc.1 >= 1,
{
    let (rows, cols) = p.parser.screen().size();
    (rows.get(), cols.get())
}

/// The cell a read stands for: an empty cell shows a space.
pub open spec fn cell_of_read(r: CellRead) -> Cell {
    Cell {
        ch: match r.0 {
            Some(c) => c,
            None => ' ',
        },
        fg: r.1,
        bg: r.2,
        bold: r.3,
        underline: r.4,
        inverse: r.5,
        italic: r.6,
    }
}

/// A cell built from a screen read carries the read unchanged: its
/// character (a space where the emulator shows none), both colours, and
/// each of the bold, underline, inverse and italic attributes.
pub proof fn lemma_cell_carries_read(r: CellRead)
    ensures
        r.0 is Some ==> cell_of_read(r).ch == r.0.unwrap(),
        r.0 is None ==> cell_of_read(r).ch == ' ',
        cell_of_read(r).fg == r.1,
        cell_of_read(r).bg == r.2,
        cell_of_read(r).bold == r.3,
        cell_of_read(r).underline == r.4,
        cell_of_read(r).inverse == r.5,
        cell_of_read(r).italic == r.6,
{
}

fn cell_from_read(r: CellRead) -> (c: Cell)
    ensures
        c == cell_of_read(r),
        c.fg == r.1,
        c.bg == r.2,
        c.bold == r.3,
        c.underline == r.4,
        c.inverse == r.5,
        c.italic == r.6,
{
    Cell {
        ch: match r.0 {
            Some(c) => c,
            None => ' ',
        },
        fg: r.1,
        bg: r.2,
        bold: r.3,
        underline: r.4,
        inverse: r.5,
        italic: r.6,
    }
}

/// A terminal dimension as the emulator takes it: at least one.
pub open spec fn at_least_one(n: u16) -> u16 {
    if n >= 1 {
        n
    } else {
        1
    }
}

/// State for a single pane: its id, its size, and the terminal its output
/// is fed to.
pub struct PaneState {
    /// Pane identifier (e.g., "%5").
    pub pane_id: String,
    /// Current width in columns.
    pub width: u16,
    /// Current height in rows.
    pub height: u16,
    /// The terminal the pane's output is fed to.
    pub terminal: Terminal,
}

impl PaneState {
    /// What the pane's terminal has been fed since it was made (or last
    /// resized).
    pub open spec fn input(&self) -> Seq<u8> {
        terminal_input(self.terminal)
    }

    /// The terminal's (rows, columns).
    pub open spec fn term_size(&self) -> (u16, u16) {
        terminal_size(self.terminal)
    }

    /// What the terminal shows at (`row`, `col`).
    pub open spec fn shown(&self, row: u16, col: u16) -> Option<CellRead> {
        screen_cell(self.term_size().0, self.term_size().1, self.input(), row, col)
    }

    /// A pane of `width` × `height` whose terminal has been fed nothing
    /// (a zero dimension makes a terminal of one).
    pub fn new(pane_id: String, width: u16, height: u16) -> (s: Self)
        ensures
            s.pane_id == pane_id,
            s.width == width,
            s.height == height,
            s.term_size() == (at_least_one(height), at_least_one(width)),
            s.input() == Seq::<u8>::empty(),
    {
        let rows = if height >= 1 { height } else { 1 };
        let cols = if width >= 1 { width } else { 1 };
        PaneState { pane_id, width, height, terminal: new_terminal(rows, cols) }
    }

    /// Feed the pane's output to its terminal.
    pub fn process(&mut self, bytes: &[u8])
        ensures
            final(self).pane_id == old(self).pane_id,
            final(self).width == old(self).width,
            final(self).height == old(self).height,
            final(self).term_size() == old(self).term_size(),
            final(self).input() == old(self).input() + bytes@,
    {
        feed(&mut self.terminal, bytes);
    }

    /// Resize the pane: a fresh terminal of the new size, the old contents
    /// gone (as terminals handle a resize).
    pub fn resize(&mut self, width: u16, height: u16)
        ensures
            final(self).pane_id == old(self).pane_id,
            final(self).width == width,
            final(self).height == height,
            final(self).term_size() == (at_least_one(height), at_least_one(width)),
            final(self).input() == Seq::<u8>::empty(),
    {
        self.width = width;
        self.height = height;
        let rows = if height >= 1 { height } else { 1 };
        let cols = if width >= 1 { width } else { 1 };
        self.terminal = new_terminal(rows, cols);
    }

    /// The emulator's screen (`vt100::Parser::screen`).
    #[verifier::external_body]
    pub fn screen(&self) -> &vt100::Screen {
        self.terminal.parser.screen()
    }

    /// The cell at (`row`, `col`), none outside the pane.
    pub fn cell(&self, row: u16, col: u16) -> (c: Option<Cell>)
        ensures
            (row >= self.height || col >= self.width) ==> c.is_none(),
            (row < self.height && col < self.width) ==> c == match self.shown(row, col) {
                Some(r) => Some(cell_of_read(r)),
                None => None,
            },
            (row < self.height && col < self.width && self.shown(row, col) is Some) ==> {
                let r = self.shown(row, col).unwrap();
                &&& c is Some
                &&& c.unwrap().fg == r.1
                &&& c.unwrap().bg == r.2
                &&& c.unwrap().bold == r.3
                &&& c.unwrap().underline == r.4
                &&& c.unwrap().inverse == r.5
                &&& c.unwrap().italic == r.6
            },
    {
        if row >= self.height || col >= self.width {
            return None;
        }
        match read_cell(&self.terminal, row, col) {
            Some(r) => Some(cell_from_read(r)),
            None => None,
        }
    }

    /// All cells, `cells[row][col]`, a blank where the terminal shows none.
    pub fn cells(&self) -> (g: Vec<Vec<Cell>>)
        ensures
            g@.len() == self.height,
            forall|r: int| 0 <= r < self.height ==> #[trigger] g@[r]@.len() == self.width,
            forall|r: int, c: int|
                0 <= r < self.height && 0 <= c < self.width ==> #[trigger] g@[r]@[c] == match self.shown(
                    r as u16,
                    c as u16,
                ) {
                    Some(x) => cell_of_read(x),
                    None => blank_cell(),
                },
            forall|r: int, c: int|
                0 <= r < self.height && 0 <= c < self.width && (#[trigger] self.shown(r as u16, c as u16)) is Some
                    ==> {
                    let x = self.shown(r as u16, c as u16).unwrap();
                    &&& g@[r]@[c].fg == x.1
                    &&& g@[r]@[c].bg == x.2
                    &&& g@[r]@[c].bold == x.3
                    &&& g@[r]@[c].underline == x.4
                    &&& g@[r]@[c].inverse == x.5
                    &&& g@[r]@[c].italic == x.6
                },
    {
        let mut g: Vec<Vec<Cell>> = Vec::new();
        let mut row: u16 = 0;
        while row < self.height
            invariant
                row <= self.height,
                g@.len() == row,
                forall|r: int| 0 <= r < row ==> #[trigger] g@[r]@.len() == self.width,
                forall|r: int, c: int|
                    0 <= r < row && 0 <= c < self.width ==> #[trigger] g@[r]@[c] == match self.shown(
                        r as u16,
                        c as u16,
                    ) {
                        Some(x) => cell_of_read(x),
                        None => blank_cell(),
                    },
            decreases self.height - row,
        {
            let mut line: Vec<Cell> = Vec::new();
            let mut col: u16 = 0;
            while col < self.width
                invariant
                    row < self.height,
                    col <= self.width,
                    line@.len() == col,
                    forall|c: int| 0 <= c < col ==> #[trigger] line@[c] == match self.shown(row, c as u16) {
                        Some(x) => cell_of_read(x),
                        None => blank_cell(),
                    },
                decreases self.width - col,
            {
                let cell = match read_cell(&self.terminal, row, col) {
                    Some(r) => cell_from_read(r),
                    None => Cell::new(' '),
                };
                line.push(cell);
                col = col + 1;
            }
            g.push(line);
            row = row + 1;
        }
        assert forall|r: int, c: int|
            0 <= r < self.height && 0 <= c < self.width && (#[trigger] self.shown(r as u16, c as u16)) is Some
                implies g@[r]@[c] == cell_of_read(self.shown(r as u16, c as u16).unwrap()) by {
            assert(g@[r]@[c] == match self.shown(r as u16, c as u16) {
                Some(x) => cell_of_read(x),
                None => blank_cell(),
            });
        }
        g
    }

    /// The cursor's (row, column).
    pub fn cursor_position(&self) -> (pos: (u16, u16))
        ensures
            pos == screen_cursor(self.term_size().0, self.term_size().1, self.input()),
    {
        read_cursor(&self.terminal)
    }
}

} // verus!

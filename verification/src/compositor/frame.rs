//! Composite frame representation and ANSI rendering.

use vstd::prelude::*;
use crate::text::{dec, digit_char, lemma_digit_char, push_char, push_dec};
use super::ansi::{encode, full_ops, render_grid};

verus! {

/// Color representation for terminal cells.
#[derive(Debug, Clone, Copy, PartialEq, Eq, Structural)]
pub enum Color {
    /// Default terminal color (foreground or background).
    Default,
    /// Indexed color (0-255 in the xterm 256-color palette).
    Indexed(u8),
    /// RGB color.
    Rgb(u8, u8, u8),
}

/// `38;5;` (or `48;5;` when `bg`).
pub open spec fn palette_prefix(bg: bool) -> Seq<char> {
    seq![if bg { '4' } else { '3' }, '8', ';', '5', ';']
}

/// `38;2;` (or `48;2;` when `bg`).
pub open spec fn rgb_prefix(bg: bool) -> Seq<char> {
    seq![if bg { '4' } else { '3' }, '8', ';', '2', ';']
}

/// SGR parameter text selecting `c`, as foreground (`bg == false`) or
/// background colour.
pub open spec fn ansi_color(c: Color, bg: bool) -> Seq<char> {
    let base: nat = if bg { 40 } else { 30 };
    match c {
        Color::Default => dec(base + 9),
        Color::Indexed(i) => if i < 8 {
            dec(base + i as nat)
        } else if i < 16 {
            dec(base + 52 + i as nat)
        } else {
            palette_prefix(bg) + dec(i as nat)
        },
        Color::Rgb(r, g, b) => rgb_prefix(bg) + dec(r as nat) + seq![';'] + dec(g as nat) + seq![';']
            + dec(b as nat),
    }
}

/// Foreground SGR parameter text.
pub open spec fn ansi_fg(c: Color) -> Seq<char> {
    ansi_color(c, false)
}

/// Background SGR parameter text.
pub open spec fn ansi_bg(c: Color) -> Seq<char> {
    ansi_color(c, true)
}

/// Appends the SGR parameter text for `c` to `s`.
pub(crate) fn push_color(s: &mut String, c: Color, bg: bool)
    ensures
        final(s)@ == old(s)@ + ansi_color(c, bg),
{
    let base: u64 = if bg { 40 } else { 30 };
    let lead: char = if bg { '4' } else { '3' };
    match c {
        Color::Default => {
            push_dec(s, base + 9);
        },
        Color::Indexed(i) => {
            if i < 8 {
                push_dec(s, base + i as u64);
            } else if i < 16 {
                push_dec(s, base + 52 + i as u64);
            } else {
                let ghost s0 = s@;
                push_char(s, lead);
                push_char(s, '8');
                push_char(s, ';');
                push_char(s, '5');
                push_char(s, ';');
                push_dec(s, i as u64);
                assert(s@ =~= s0 + ansi_color(c, bg));
            }
        },
        Color::Rgb(r, g, b) => {
            let ghost s0 = s@;
            push_char(s, lead);
            push_char(s, '8');
            push_char(s, ';');
            push_char(s, '2');
            push_char(s, ';');
            push_dec(s, r as u64);
            push_char(s, ';');
            push_dec(s, g as u64);
            push_char(s, ';');
            push_dec(s, b as u64);
            assert(s@ =~= s0 + ansi_color(c, bg));
        },
    }
}

impl Color {
    /// Convert to ANSI escape sequence component.
    ///
    /// Returns the parameter string for SGR sequences (without the CSI prefix/suffix).
    pub fn to_ansi_fg(&self) -> (s: String)
        ensures
            s@ == ansi_fg(*self),
    {
        let mut s = String::new();
        push_color(&mut s, *self, false);
        s
    }

    /// Background counterpart of `to_ansi_fg`.
    pub fn to_ansi_bg(&self) -> (s: String)
        ensures
            s@ == ansi_bg(*self),
    {
        let mut s = String::new();
        push_color(&mut s, *self, true);
        s
    }
}

/// A single terminal cell with character and styling information.
#[derive(Debug, Clone, Copy, PartialEq, Eq, Structural)]
pub struct Cell {
    /// The character displayed in this cell (space if empty).
    pub ch: char,
    /// Foreground color.
    pub fg: Color,
    /// Background color.
    pub bg: Color,
    /// Bold attribute.
    pub bold: bool,
    /// Underline attribute.
    pub underline: bool,
    /// Inverse/reverse video attribute.
    pub inverse: bool,
    /// Italic attribute.
    pub italic: bool,
}

/// A space with default colours and no attributes.
pub open spec fn blank_cell() -> Cell {
    Cell {
        ch: ' ',
        fg: Color::Default,
        bg: Color::Default,
        bold: false,
        underline: false,
        inverse: false,
        italic: false,
    }
}

impl Default for Cell {
    fn default() -> (c: Self)
        ensures
            c == blank_cell(),
    {
        Cell {
            ch: ' ',
            fg: Color::Default,
            bg: Color::Default,
            bold: false,
            underline: false,
            inverse: false,
            italic: false,
        }
    }
}

impl Cell {
    /// Create a new cell with default styling.
    pub fn new(ch: char) -> (c: Self)
        ensures
            c == (Cell { ch, ..blank_cell() }),
    {
        Cell {
            ch,
            fg: Color::Default,
            bg: Color::Default,
            bold: false,
            underline: false,
            inverse: false,
            italic: false,
        }
    }
}

/// A complete composite frame representing the entire terminal screen.
///
/// This contains all pane contents positioned according to the layout,
/// with borders drawn between panes.
#[derive(Debug, Clone)]
pub struct CompositeFrame {
    /// Total width in columns.
    pub width: u16,
    /// Total height in rows.
    pub height: u16,
    /// 2D grid of cells: cells[row][col]
    pub cells: Vec<Vec<Cell>>,
}

impl CompositeFrame {
    /// The cells as a grid of rows.
    pub open spec fn grid(&self) -> Seq<Seq<Cell>> {
        self.cells@.map_values(|row: Vec<Cell>| row@)
    }

    /// The grid has exactly `height` rows of `width` cells.
    pub open spec fn wf(&self) -> bool {
        &&& self.cells@.len() == self.height as nat
        &&& forall|r: int| 0 <= r < self.height ==> #[trigger] self.cells@[r]@.len() == self.width as nat
    }

    /// The grid holds at least the `height` x `width` cells that the frame
    /// addresses.
    pub open spec fn covers(&self) -> bool {
        &&& self.cells@.len() >= self.height as nat
        &&& forall|r: int| 0 <= r < self.height ==> #[trigger] self.cells@[r]@.len() >= self.width as nat
    }

    /// Whether (row, col) lies inside the frame's dimensions.
    pub open spec fn in_bounds(&self, row: int, col: int) -> bool {
        0 <= row < self.height && 0 <= col < self.width
    }

    /// Positions inside the dimensions are backed by the grid.
    pub open spec fn backs(&self, row: int, col: int) -> bool {
        self.in_bounds(row, col) ==> (row < self.cells@.len() && col < self.cells@[row]@.len())
    }

    /// Create a new blank frame with the given dimensions.
    pub fn new(width: u16, height: u16) -> (f: Self)
        ensures
            f.width == width,
            f.height == height,
            f.wf(),
            forall|r: int, c: int|
                0 <= r < height && 0 <= c < width ==> #[trigger] f.cells@[r]@[c] == blank_cell(),
    {
        let mut cells: Vec<Vec<Cell>> = Vec::new();
        let mut r: u16 = 0;
        while r < height
            invariant
                r <= height,
                cells@.len() == r as nat,
                forall|i: int| 0 <= i < r ==> #[trigger] cells@[i]@.len() == width as nat,
                forall|i: int, c: int|
                    0 <= i < r && 0 <= c < width ==> #[trigger] cells@[i]@[c] == blank_cell(),
            decreases height - r,
        {
            let mut row: Vec<Cell> = Vec::new();
            let mut c: u16 = 0;
            while c < width
                invariant
                    c <= width,
                    row@.len() == c as nat,
                    forall|j: int| 0 <= j < c ==> #[trigger] row@[j] == blank_cell(),
                decreases width - c,
            {
                row.push(Cell::default());
                c = c + 1;
            }
            cells.push(row);
            r = r + 1;
        }
        CompositeFrame { width, height, cells }
    }

    /// Set a cell at the given position.
    ///
    /// Does nothing if the position is out of bounds.
    pub fn set_cell(&mut self, row: u16, col: u16, cell: Cell)
        requires
            old(self).backs(row as int, col as int),
        ensures
            final(self).width == old(self).width,
            final(self).height == old(self).height,
            final(self).cells@.len() == old(self).cells@.len(),
            forall|r: int| 0 <= r < old(self).cells@.len() ==> #[trigger] final(self).cells@[r]@.len() == old(self).cells@[r]@.len(),
            final(self).grid() == if old(self).in_bounds(row as int, col as int) {
                old(self).grid().update(row as int, old(self).grid()[row as int].update(col as int, cell))
            } else {
                old(self).grid()
            },
    {
        if row < self.height && col < self.width {
            let r = row as usize;
            let c = col as usize;
            self.cells[r][c] = cell;
            proof {
                assert(self.grid() =~= old(self).grid().update(row as int, old(self).grid()[row as int].update(col as int, cell)));
            }
        }
    }

    /// Get a cell at the given position.
    ///
    /// Returns None if out of bounds.
    pub fn get_cell(&self, row: u16, col: u16) -> (res: Option<&Cell>)
        requires
            self.backs(row as int, col as int),
        ensures
            match res {
                Some(c) => self.in_bounds(row as int, col as int) && *c == self.cells@[row as int]@[col as int],
                None => !self.in_bounds(row as int, col as int),
            },
    {
        if row < self.height && col < self.width {
            Some(&self.cells[row as usize][col as usize])
        } else {
            None
        }
    }
}

impl CompositeFrame {
    /// Render the frame as ANSI escape sequences.
    ///
    /// Clear screen and home, then each row preceded by an absolute cursor
    /// move to its first column, emitting SGR changes only where the style
    /// changes (attribute order: bold, underline, inverse, italic), and a
    /// final reset.
    pub fn render_ansi(&self) -> (s: String)
        ensures
            s@ == encode(full_ops(self.grid(), false)),
    {
        render_grid(&self.cells, false)
    }
}

/// The leading digit of a two-digit number's decimal text.
proof fn lemma_dec_two_digits(n: nat)
    requires
        10 <= n < 100,
    ensures
        dec(n).len() == 2,
        dec(n)[0] == digit_char(n / 10),
{
    assert(dec(n / 10) == seq![digit_char(n / 10)]);
}

/// The two leading digits of 100 to 109.
proof fn lemma_dec_hundreds(n: nat)
    requires
        100 <= n < 110,
    ensures
        dec(n).len() == 3,
        dec(n)[0] == '1',
        dec(n)[1] == '0',
{
    assert(n / 10 == 10);
    lemma_dec_two_digits(10);
    lemma_digit_char(1);
    lemma_digit_char(0);
    assert(dec(10) == dec(1).push(digit_char(0)));
    assert(dec(n) == dec(10).push(digit_char(n % 10)));
}

/// SGR colour parameters say which colour they set: a background
/// parameter begins with `4` (`40`–`49`, `48;5;…`, `48;2;…`) or is one of
/// the bright backgrounds `100`–`107`, a foreground parameter begins with
/// `3` (`30`–`39`, `38;…`) or `9` (`90`–`97`). So no background parameter
/// reads as a foreground one, and a true-colour background is `48;2;`
/// followed by its red, green and blue.
pub proof fn lemma_color_param_sets_its_layer(c: Color, other: Color)
    ensures
        ansi_bg(c).len() > 0,
        ansi_fg(c).len() > 0,
        ansi_bg(c)[0] == '4' || (ansi_bg(c).len() == 3 && ansi_bg(c)[0] == '1' && ansi_bg(c)[1] == '0'),
        ansi_fg(c)[0] == '3' || ansi_fg(c)[0] == '9',
        ansi_bg(c) != ansi_fg(other),
        match c {
            Color::Rgb(r, g, b) => ansi_bg(c) == seq!['4', '8', ';', '2', ';'] + dec(r as nat) + seq![';'] + dec(
                g as nat,
            ) + seq![';'] + dec(b as nat) && ansi_fg(c) == seq!['3', '8', ';', '2', ';'] + dec(r as nat) + seq![
                ';',
            ] + dec(g as nat) + seq![';'] + dec(b as nat),
            Color::Indexed(i) => i >= 16 ==> (ansi_bg(c) == seq!['4', '8', ';', '5', ';'] + dec(i as nat)
                && ansi_fg(c) == seq!['3', '8', ';', '5', ';'] + dec(i as nat)),
            Color::Default => ansi_bg(c) == seq!['4', '9'] && ansi_fg(c) == seq!['3', '9'],
        },
{
    lemma_digit_char(3);
    lemma_digit_char(4);
    lemma_digit_char(9);
    lemma_digit_char(1);
    lemma_digit_char(0);
    match c {
        Color::Default => {
            lemma_dec_two_digits(49);
            lemma_dec_two_digits(39);
            assert(dec(49) == dec(4).push(digit_char(9)));
            assert(dec(39) == dec(3).push(digit_char(9)));
            assert(dec(49) =~= seq!['4', '9']);
            assert(dec(39) =~= seq!['3', '9']);
        },
        Color::Indexed(i) => {
            if i < 8 {
                lemma_dec_two_digits(40 + i as nat);
                lemma_dec_two_digits(30 + i as nat);
            } else if i < 16 {
                lemma_dec_hundreds(92 + i as nat);
                lemma_dec_two_digits(82 + i as nat);
            } else {
            }
        },
        Color::Rgb(r, g, b) => {},
    }
    // A background text never equals a foreground text: they differ in the
    // first character.
    match other {
        Color::Default => {
            lemma_dec_two_digits(39);
        },
        Color::Indexed(j) => {
            if j < 8 {
                lemma_dec_two_digits(30 + j as nat);
            } else if j < 16 {
                lemma_dec_two_digits(82 + j as nat);
            }
        },
        Color::Rgb(..) => {},
    }
    assert(ansi_fg(other)[0] == '3' || ansi_fg(other)[0] == '9');
}

} // verus!

//! Recording panes with tmux `pipe-pane`: which files a pane's recording
//! goes to, and what Locus reads from tmux about the panes it records.
//!
//! Making the FIFO, starting `pipe-pane` and writing the `.cast` file are
//! the caller's.

use vstd::prelude::*;
use crate::recording::layout::parse_or;
use crate::text::{
    chars_of, eq_str, lines, listing_rows, parse_unsigned_vec, rows_with, split_lines, split_words,
    string_from, string_of, string_of_range, words,
};

verus! {

/// A tmux pane id starts with `%`.
pub open spec fn valid_pane_id(id: Seq<char>) -> bool {
    id.len() > 0 && id[0] == '%'
}

/// Whether a pane id has the form tmux gives (`%` then the number).
pub fn is_valid_pane_id(id: &str) -> (b: bool)
    ensures
        b == valid_pane_id(id@),
{
    let v = chars_of(id);
    v.len() > 0 && v[0] == '%'
}

/// The number of leading `%` in `s`.
pub open spec fn leading_percents(s: Seq<char>) -> nat
    decreases s.len(),
{
    if s.len() > 0 && s[0] == '%' {
        1 + leading_percents(s.skip(1))
    } else {
        0
    }
}

/// A pane's files are named `pane-<id without its leading %>` and an
/// extension.
pub open spec fn pane_file_name(id: Seq<char>, ext: Seq<char>) -> Seq<char> {
    "pane-"@ + id.skip(leading_percents(id) as int) + ext
}

/// The name of a pane's file with extension `ext` (such as `.cast`).
pub fn pane_file(id: &str, ext: &str) -> (name: String)
    ensures
        name@ == pane_file_name(id@, ext@),
{
    let v = chars_of(id);
    let mut k: usize = 0;
    assert(v@.skip(0) =~= v@);
    while k < v.len() && v[k] == '%'
        invariant
            k <= v@.len(),
            v@ == id@,
            leading_percents(v@) == k + leading_percents(v@.skip(k as int)),
        decreases v@.len() - k,
    {
        assert(v@.skip(k as int)[0] == v@[k as int]);
        assert(v@.skip(k as int).skip(1) =~= v@.skip(k + 1));
        k = k + 1;
    }
    proof {
        if k < v@.len() {
            assert(v@.skip(k as int)[0] == v@[k as int]);
        }
    }
    let mut name = string_from("pane-");
    name.append(string_of_range(&v, k, v.len()).as_str());
    name.append(ext);
    assert(v@.subrange(k as int, v@.len() as int) =~= v@.skip(k as int));
    name
}

/// The command `pipe-pane` runs to copy a pane's output into its FIFO.
pub fn pipe_command(fifo_path: &str) -> (c: String)
    ensures
        c@ == "cat > "@ + fifo_path@,
{
    let mut c = string_from("cat > ");
    c.append(fifo_path);
    c
}

/// The title of a pane's recording.
pub fn recording_title(id: &str) -> (t: String)
    ensures
        t@ == "Pane "@ + id@,
{
    let mut t = string_from("Pane ");
    t.append(id);
    t
}

/// The pane whose recording a file holds: a file `pane-<n>.cast` holds the
/// recording of pane `%<n>` (an empty `<n>` when the name has another form).
pub open spec fn pane_of_file(file_name: Seq<char>) -> Seq<char> {
    let stem = if file_name.len() >= 10 && file_name.take(5) == "pane-"@ && file_name.skip(file_name.len() - 5) == ".cast"@ {
        file_name.subrange(5, file_name.len() - 5)
    } else {
        seq![]
    };
    seq!['%'] + stem
}

/// The pane whose recording the file `file_name` holds.
pub fn pane_id_of_cast_file(file_name: &str) -> (id: String)
    ensures
        id@ == pane_of_file(file_name@),
{
    let v = chars_of(file_name);
    let n = v.len();
    let pre = chars_of("pane-");
    let suf = chars_of(".cast");
    proof {
        reveal_strlit("pane-");
        reveal_strlit(".cast");
    }
    let mut id = string_from("%");
    proof {
        reveal_strlit("%");
        assert("%"@ =~= seq!['%']);
    }
    if n >= 10 {
        let head = string_of_range(&v, 0, 5);
        let tail = string_of_range(&v, n - 5, n);
        assert(head@ =~= v@.take(5));
        assert(tail@ =~= v@.skip(n - 5));
        if head.eq(&string_from("pane-")) && tail.eq(&string_from(".cast")) {
            id.append(string_of_range(&v, 5, n - 5).as_str());
            return id;
        }
    }
    assert(seq!['%'] + Seq::<char>::empty() =~= seq!['%']);
    id
}

/// Recording a pane's output and reading it back agree on names: a pane
/// whose id is `%` and a number-like rest without `%` is found again under
/// its own id.
pub proof fn lemma_cast_file_names_pane(id: Seq<char>)
    requires
        id.len() >= 2,
        id[0] == '%',
        id[1] != '%',
    ensures
        pane_of_file(pane_file_name(id, ".cast"@)) == id,
{
    reveal_strlit("pane-");
    reveal_strlit(".cast");
    assert(id.skip(1)[0] == id[1]);
    assert(leading_percents(id.skip(1)) == 0);
    assert(leading_percents(id) == 1);
    let f = pane_file_name(id, ".cast"@);
    let rest = id.skip(1);
    assert(f =~= "pane-"@ + rest + ".cast"@);
    assert(f.take(5) =~= "pane-"@);
    assert(f.skip(f.len() - 5) =~= ".cast"@);
    assert(f.subrange(5, f.len() - 5) =~= rest);
    assert(seq!['%'] + rest =~= id);
}

// ---------------------------------------------------------------------------
// Reading tmux
// ---------------------------------------------------------------------------

/// Whether a pane already pipes its output: the second field of the first
/// row that names it is `1`; `None` when no row of at least two fields
/// names it.
pub open spec fn pipe_state(rows: Seq<Seq<Seq<char>>>, id: Seq<char>) -> Option<bool>
    decreases rows.len(),
{
    if rows.len() == 0 {
        None
    } else if rows[0].len() >= 2 && rows[0][0] == id {
        Some(rows[0][1] == seq!['1'])
    } else {
        pipe_state(rows.skip(1), id)
    }
}

/// Read a `#{pane_id} #{pane_pipe}` listing for `pane_id`.
pub fn pipe_state_in_listing(stdout: &str, pane_id: &str) -> (r: Option<bool>)
    ensures
        r == pipe_state(lines(stdout@).map_values(|l: Seq<char>| words(l)), pane_id@),
{
    let text = chars_of(stdout);
    let ls = split_lines(&text);
    let ghost rows = lines(stdout@).map_values(|l: Seq<char>| words(l));
    let mut i: usize = 0;
    proof {
        reveal_strlit("1");
        assert("1"@ =~= seq!['1']);
        assert(rows.skip(0) =~= rows);
    }
    while i < ls.len()
        invariant
            i <= ls@.len(),
            ls@.map_values(|w: Vec<char>| w@) == lines(stdout@),
            rows == lines(stdout@).map_values(|l: Seq<char>| words(l)),
            "1"@ == seq!['1'],
            pipe_state(rows, pane_id@) == pipe_state(rows.skip(i as int), pane_id@),
        decreases ls@.len() - i,
    {
        let f = split_words(&ls[i]);
        let ghost fv = f@.map_values(|w: Vec<char>| w@);
        assert(rows[i as int] == fv);
        assert(rows.skip(i as int)[0] == rows[i as int]);
        assert(rows.skip(i as int).skip(1) =~= rows.skip(i + 1));
        if f.len() >= 2 && eq_str(&f[0], pane_id) {
            assert(fv[0] == f@[0]@ && fv[1] == f@[1]@);
            return Some(eq_str(&f[1], "1"));
        }
        proof {
            if fv.len() >= 2 {
                assert(fv[0] == f@[0]@);
            }
        }
        i = i + 1;
    }
    None
}

/// A pane's size as a `#{pane_id} #{pane_width} #{pane_height}` row gives
/// it (80 columns and 24 rows where a number does not read).
pub open spec fn pane_size_of_row(r: (String, u16, u16), f: Seq<Seq<char>>) -> bool {
    &&& r.0@ == f[0]
    &&& r.1 == parse_or(f[1], u16::MAX as nat, 80)
    &&& r.2 == parse_or(f[2], u16::MAX as nat, 24)
}

fn size_from_row(f: &Vec<Vec<char>>) -> (r: (String, u16, u16))
    requires
        f@.len() >= 3,
    ensures
        pane_size_of_row(r, f@.map_values(|w: Vec<char>| w@)),
{
    let w = match parse_unsigned_vec(&f[1], 65535) {
        Some(v) => v as u16,
        None => 80,
    };
    let h = match parse_unsigned_vec(&f[2], 65535) {
        Some(v) => v as u16,
        None => 24,
    };
    (string_of(&f[0]), w, h)
}

/// The panes of a session with their sizes: one per row of at least three
/// fields.
pub fn pane_sizes(stdout: &str) -> (r: Vec<(String, u16, u16)>)
    ensures
        r@.len() == rows_with(lines(stdout@), 3).len(),
        forall|i: int| 0 <= i < r@.len() ==> pane_size_of_row(#[trigger] r@[i], rows_with(lines(stdout@), 3)[i]),
{
    let rows = listing_rows(stdout, 3);
    let ghost rv = rows_with(lines(stdout@), 3);
    let mut r: Vec<(String, u16, u16)> = Vec::new();
    let mut i: usize = 0;
    while i < rows.len()
        invariant
            i <= rows@.len(),
            rv == rows_with(lines(stdout@), 3),
            rows@.len() == rv.len(),
            forall|j: int| 0 <= j < rows@.len() ==> (#[trigger] rows@[j])@.map_values(|w: Vec<char>| w@) == rv[j],
            forall|j: int| 0 <= j < rows@.len() ==> (#[trigger] rows@[j])@.len() >= 3,
            r@.len() == i,
            forall|j: int| 0 <= j < i ==> pane_size_of_row(#[trigger] r@[j], rv[j]),
        decreases rows@.len() - i,
    {
        assert(rows@[i as int]@.len() >= 3);
        r.push(size_from_row(&rows[i]));
        i = i + 1;
    }
    r
}

/// A single pane's size: from the first line, when it has at least three
/// fields.
pub open spec fn first_pane_size(stdout: Seq<char>, r: Option<(String, u16, u16)>) -> bool {
    if lines(stdout).len() > 0 && words(lines(stdout)[0]).len() >= 3 {
        r matches Some(p) && pane_size_of_row(p, words(lines(stdout)[0]))
    } else {
        r.is_none()
    }
}

/// Read a single pane's size.
pub fn pane_size(stdout: &str) -> (r: Option<(String, u16, u16)>)
    ensures
        first_pane_size(stdout@, r),
{
    let text = chars_of(stdout);
    let ls = split_lines(&text);
    if ls.len() == 0 {
        return None;
    }
    let f = split_words(&ls[0]);
    assert(lines(stdout@)[0] == ls@[0]@);
    if f.len() >= 3 {
        Some(size_from_row(&f))
    } else {
        None
    }
}

/// A pane of a recording's layout snapshot.
#[derive(Debug, Clone)]
pub struct SnapshotPane {
    pub pane_id: String,
    pub pane_index: u32,
    pub tab_index: u32,
    pub width: u16,
    pub height: u16,
    pub y: u16,
    pub x: u16,
}

/// A row `id index window width height top left` describes `p` (0, 80 and
/// 24 where a number does not read).
pub open spec fn snapshot_pane_of_row(p: SnapshotPane, f: Seq<Seq<char>>) -> bool {
    &&& p.pane_id@ == f[0]
    &&& p.pane_index == parse_or(f[1], u32::MAX as nat, 0)
    &&& p.tab_index == parse_or(f[2], u32::MAX as nat, 0)
    &&& p.width == parse_or(f[3], u16::MAX as nat, 80)
    &&& p.height == parse_or(f[4], u16::MAX as nat, 24)
    &&& p.y == parse_or(f[5], u16::MAX as nat, 0)
    &&& p.x == parse_or(f[6], u16::MAX as nat, 0)
}

fn number16(w: &Vec<char>, default: u16) -> (r: u16)
    ensures
        r == parse_or(w@, u16::MAX as nat, default as nat),
{
    match parse_unsigned_vec(w, 65535) {
        Some(v) => v as u16,
        None => default,
    }
}

fn number32(w: &Vec<char>) -> (r: u32)
    ensures
        r == parse_or(w@, u32::MAX as nat, 0),
{
    match parse_unsigned_vec(w, 4294967295) {
        Some(v) => v as u32,
        None => 0,
    }
}

/// The panes of a layout snapshot listing: one per row of at least seven
/// fields.
pub fn snapshot_panes(stdout: &str) -> (r: Vec<SnapshotPane>)
    ensures
        r@.len() == rows_with(lines(stdout@), 7).len(),
        forall|i: int| 0 <= i < r@.len() ==> snapshot_pane_of_row(#[trigger] r@[i], rows_with(lines(stdout@), 7)[i]),
{
    let rows = listing_rows(stdout, 7);
    let ghost rv = rows_with(lines(stdout@), 7);
    let mut r: Vec<SnapshotPane> = Vec::new();
    let mut i: usize = 0;
    while i < rows.len()
        invariant
            i <= rows@.len(),
            rv == rows_with(lines(stdout@), 7),
            rows@.len() == rv.len(),
            forall|j: int| 0 <= j < rows@.len() ==> (#[trigger] rows@[j])@.map_values(|w: Vec<char>| w@) == rv[j],
            forall|j: int| 0 <= j < rows@.len() ==> (#[trigger] rows@[j])@.len() >= 7,
            r@.len() == i,
            forall|j: int| 0 <= j < i ==> snapshot_pane_of_row(#[trigger] r@[j], rv[j]),
        decreases rows@.len() - i,
    {
        let f = &rows[i];
        assert(f@.len() >= 7);
        let ghost fv = f@.map_values(|w: Vec<char>| w@);
        assert(fv == rv[i as int]);
        let p = SnapshotPane {
            pane_id: string_of(&f[0]),
            pane_index: number32(&f[1]),
            tab_index: number32(&f[2]),
            width: number16(&f[3], 80),
            height: number16(&f[4], 24),
            y: number16(&f[5], 0),
            x: number16(&f[6], 0),
        };
        assert(fv[0] == f@[0]@ && fv[1] == f@[1]@ && fv[2] == f@[2]@ && fv[3] == f@[3]@);
        assert(fv[4] == f@[4]@ && fv[5] == f@[5]@ && fv[6] == f@[6]@);
        r.push(p);
        i = i + 1;
    }
    r
}

} // verus!

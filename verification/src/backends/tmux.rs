//! Tmux backend: what Locus asks of the `tmux` CLI and what it makes of the
//! answers.
//!
//! Running the CLI is the caller's; this module builds the argument lists,
//! reads the format listings tmux prints, and refuses requests that would
//! close the pane Locus itself runs in.

use vstd::prelude::*;
use crate::backend::BackendError;
use crate::backends::zellij::{nonempty_lines, str_or};
use crate::recording::layout::parse_or;
use crate::text::{
    chars_of, dec, eq_str, flag_if, lines, listing_rows, opt_pair, or_default, parse_unsigned_vec,
    push_dec, push_flag_if, push_lit, push_opt_pair, push_str, rows_with, split_lines, split_words,
    string_from, string_of, string_or, copy_opt, strs, trim, trim_vec, words,
};
use crate::types::{Direction, Pane, PaneId, PaneOpts, RunOpts, Session, SessionId, SessionOpts, Tab, TabId, TabOpts};

verus! {

/// Tmux backend — controls tmux via its CLI.
pub struct TmuxBackend {
    bin: String,
    /// The pane Locus runs in (tmux's `TMUX_PANE`); requests that would
    /// close it are refused.
    self_pane: Option<String>,
}

/// The `i`-th word, or `default` past the end.
pub open spec fn nth_or(ws: Seq<Seq<char>>, i: int, default: Seq<char>) -> Seq<char> {
    if 0 <= i < ws.len() {
        ws[i]
    } else {
        default
    }
}

fn word_or(ws: &Vec<Vec<char>>, i: usize, default: &str) -> (r: String)
    ensures
        r@ == nth_or(ws@.map_values(|w: Vec<char>| w@), i as int, default@),
{
    if i < ws.len() {
        string_of(&ws[i])
    } else {
        string_from(default)
    }
}

/// The rows of a format listing: the words of each non-empty line.
pub open spec fn format_rows(s: Seq<char>) -> Seq<Seq<Seq<char>>> {
    nonempty_lines(lines(s)).map_values(|l: Seq<char>| words(l))
}

/// A listing row `id name windows attached` describes `s`.
pub open spec fn session_of_row(s: Session, f: Seq<Seq<char>>) -> bool {
    &&& s.id.0@ == f[0]
    &&& s.name@ == f[1]
    &&& s.tabs == parse_or(f[2], u32::MAX as nat, 0)
    &&& s.panes == 0
    &&& s.attached == (f[3] == seq!['1'])
}

/// A listing row `id name index panes active ...` describes `t`.
pub open spec fn tab_of_row(t: Tab, f: Seq<Seq<char>>, session: Option<&str>) -> bool {
    &&& t.id.0@ == f[0]
    &&& t.name.is_some() && t.name.unwrap()@ == f[1]
    &&& t.index == parse_or(f[2], u32::MAX as nat, 0)
    &&& t.pane_count == parse_or(f[3], u32::MAX as nat, 0)
    &&& t.focused == (f[4] == seq!['1'])
    &&& t.session.0@ == str_or(session, "current"@)
}

/// A listing row `id title command path active window_id window_index
/// session` describes `p`.
pub open spec fn pane_of_row(p: Pane, f: Seq<Seq<char>>) -> bool {
    &&& p.id.0@ == f[0]
    &&& p.name.is_some() && p.name.unwrap()@ == f[1]
    &&& p.command.is_some() && p.command.unwrap()@ == f[2]
    &&& p.cwd.is_some() && p.cwd.unwrap()@ == f[3]
    &&& !p.floating
    &&& p.focused == (f[4] == seq!['1'])
    &&& p.tab.0@ == f[5]
    &&& p.session.0@ == f[7]
}

/// In a `list-panes` row (`#{pane_id} #{pane_title} #{pane_current_command}
/// #{pane_current_path} #{pane_active} #{window_id} #{window_index}
/// #{session_name}`) the pane's tab is the sixth word, its window id, not
/// the seventh, its window index; and a `list-windows` row
/// (`#{window_id} ...`) names its tab by the first word, the same window
/// id. So a pane belongs to the tab listed with the window id that its own
/// row carries. The other words land in their own fields: the pane's name,
/// command and directory are the second to fourth words and it is focused
/// exactly when the fifth is `1`; the tab's name is its second word and it
/// is focused exactly when its fifth is `1`.
pub proof fn lemma_pane_tab_is_listed_window(p: Pane, f: Seq<Seq<char>>, t: Tab, g: Seq<Seq<char>>, session: Option<&str>)
    requires
        f.len() >= 8,
        g.len() >= 5,
        pane_of_row(p, f),
        tab_of_row(t, g, session),
    ensures
        p.tab.0@ == f[5],
        p.id.0@ == f[0],
        p.session.0@ == f[7],
        p.name == Some(p.name.unwrap()) && p.name.unwrap()@ == f[1],
        p.command == Some(p.command.unwrap()) && p.command.unwrap()@ == f[2],
        p.cwd == Some(p.cwd.unwrap()) && p.cwd.unwrap()@ == f[3],
        p.focused <==> f[4] == seq!['1'],
        t.id.0@ == g[0],
        t.name == Some(t.name.unwrap()) && t.name.unwrap()@ == g[1],
        t.focused <==> g[4] == seq!['1'],
        f[5] == g[0] ==> p.tab.0@ == t.id.0@,
        f[5] != f[6] ==> p.tab.0@ != f[6],
{
}

/// The target of the window at `index`: `session:index`, or `:index` in
/// the current session.
pub open spec fn window_target_of(session: Option<&str>, index: u32) -> Seq<char> {
    match session {
        Some(s) => s@ + ":"@ + dec(index as nat),
        None => ":"@ + dec(index as nat),
    }
}

/// The flag that names a direction to `select-pane` and `resize-pane`.
pub open spec fn direction_flag_of(d: Direction) -> Seq<char> {
    match d {
        Direction::Up => "-U"@,
        Direction::Down => "-D"@,
        Direction::Left => "-L"@,
        Direction::Right => "-R"@,
    }
}

/// The arguments of `split-window` up to the command: detached, printing
/// the new pane's ids, `-h` for a left or right split, `-b` for an up or
/// left one, the pane (or else session) to split, and the working
/// directory.
pub open spec fn split_args(d: Option<Direction>, target: Option<String>, session: Option<String>, cwd: Option<String>) -> Seq<Seq<char>> {
    seq!["split-window"@, "-d"@, "-P"@, "-F"@, "#{pane_id} #{window_id} #{session_name}"@]
        + flag_if(d == Some(Direction::Left) || d == Some(Direction::Right), "-h"@)
        + flag_if(d == Some(Direction::Up) || d == Some(Direction::Left), "-b"@)
        + (if target is Some { opt_pair("-t"@, target) } else { opt_pair("-t"@, session) })
        + opt_pair("-c"@, cwd)
}

/// Optional `-t target`.
pub open spec fn target_pair(pane: Option<&str>) -> Seq<Seq<char>> {
    match pane {
        Some(t) => seq!["-t"@, t@],
        None => seq![],
    }
}

fn push_target(args: &mut Vec<String>, pane: Option<&str>)
    ensures
        strs(final(args)@) == strs(old(args)@) + target_pair(pane),
{
    let ghost a0 = strs(args@);
    match pane {
        Some(t) => {
            push_lit(args, "-t");
            push_lit(args, t);
            assert(a0.push("-t"@).push(t@) =~= a0 + target_pair(pane));
        },
        None => {
            assert(a0 =~= a0 + target_pair(pane));
        },
    }
}

impl TmuxBackend {
    /// The path of the tmux binary.
    pub closed spec fn bin_path(&self) -> Seq<char> {
        self.bin@
    }

    /// The pane Locus runs in, if known.
    pub closed spec fn own_pane(&self) -> Option<String> {
        self.self_pane
    }

    /// A backend that runs `tmux`, knowing the pane Locus runs in (if any).
    pub fn with_own_pane(self_pane: Option<String>) -> (t: Self)
        ensures
            t.bin_path() == "tmux"@,
            t.own_pane() == self_pane,
    {
        TmuxBackend { bin: string_from("tmux"), self_pane }
    }

    /// The binary this backend runs.
    pub fn bin(&self) -> (b: &str)
        ensures
            b@ == self.bin_path(),
    {
        self.bin.as_str()
    }

    /// Human-readable backend name.
    pub fn name(&self) -> (n: &'static str)
        ensures
            n@ == "tmux"@,
    {
        "tmux"
    }

    /// Parse space-separated tmux format output into rows of fields.
    pub fn parse_format_output(output: &str) -> (rows: Vec<Vec<String>>)
        ensures
            rows@.len() == format_rows(output@).len(),
            forall|i: int| 0 <= i < rows@.len() ==> strs(#[trigger] rows@[i]@) == format_rows(output@)[i],
    {
        let text = chars_of(output);
        let all = split_lines(&text);
        let ghost lv = all@.map_values(|w: Vec<char>| w@);
        let mut rows: Vec<Vec<String>> = Vec::new();
        let mut i: usize = 0;
        while i < all.len()
            invariant
                i <= all@.len(),
                lv == all@.map_values(|w: Vec<char>| w@),
                lv == lines(output@),
                rows@.len() == nonempty_lines(lv.take(i as int)).len(),
                forall|j: int| 0 <= j < rows@.len() ==> strs(#[trigger] rows@[j]@) == words(nonempty_lines(lv.take(i as int))[j]),
            decreases all@.len() - i,
        {
            assert(lv.take(i + 1).drop_last() =~= lv.take(i as int));
            assert(lv.take(i + 1).last() == all@[i as int]@);
            if all[i].len() > 0 {
                let ws = split_words(&all[i]);
                let mut row: Vec<String> = Vec::new();
                let mut k: usize = 0;
                while k < ws.len()
                    invariant
                        k <= ws@.len(),
                        strs(row@) == ws@.map_values(|w: Vec<char>| w@).take(k as int),
                    decreases ws@.len() - k,
                {
                    let ghost r0 = strs(row@);
                    row.push(string_of(&ws[k]));
                    assert(strs(row@) =~= r0.push(ws@[k as int]@));
                    assert(ws@.map_values(|w: Vec<char>| w@).take(k + 1) =~= r0.push(ws@[k as int]@));
                    k = k + 1;
                }
                assert(ws@.map_values(|w: Vec<char>| w@).take(k as int) =~= ws@.map_values(|w: Vec<char>| w@));
                let ghost rs0 = rows@;
                rows.push(row);
                assert forall|j: int| 0 <= j < rows@.len() implies strs(#[trigger] rows@[j]@) == words(nonempty_lines(lv.take(i + 1))[j]) by {
                    if j < rows@.len() - 1 {
                        assert(rows@[j] == rs0[j]);
                    }
                }
            }
            i = i + 1;
        }
        assert(lv.take(i as int) =~= lv);
        rows
    }

    /// The sessions of a `list-sessions` listing: one per row of at least
    /// four fields.
    pub fn sessions_from_listing(output: &str) -> (r: Vec<Session>)
        ensures
            r@.len() == rows_with(lines(output@), 4).len(),
            forall|i: int| 0 <= i < r@.len() ==> session_of_row(#[trigger] r@[i], rows_with(lines(output@), 4)[i]),
    {
        let rows = listing_rows(output, 4);
        let ghost rv = rows_with(lines(output@), 4);
        let mut r: Vec<Session> = Vec::new();
        let mut i: usize = 0;
        proof {
            reveal_strlit("1");
            assert("1"@ =~= seq!['1']);
        }
        while i < rows.len()
            invariant
                i <= rows@.len(),
                rv == rows_with(lines(output@), 4),
                rows@.len() == rv.len(),
                forall|j: int| 0 <= j < rows@.len() ==> (#[trigger] rows@[j])@.map_values(|w: Vec<char>| w@) == rv[j],
                forall|j: int| 0 <= j < rows@.len() ==> (#[trigger] rows@[j])@.len() >= 4,
                "1"@ == seq!['1'],
                r@.len() == i,
                forall|j: int| 0 <= j < i ==> session_of_row(#[trigger] r@[j], rv[j]),
            decreases rows@.len() - i,
        {
            let f = &rows[i];
            assert(f@.len() >= 4);
            let ghost fv = f@.map_values(|w: Vec<char>| w@);
            assert(fv == rv[i as int]);
            let tabs = match parse_unsigned_vec(&f[2], 4294967295) {
                Some(v) => v as u32,
                None => 0,
            };
            let s = Session {
                id: SessionId(string_of(&f[0])),
                name: string_of(&f[1]),
                tabs,
                panes: 0,
                attached: eq_str(&f[3], "1"),
            };
            assert(fv[0] == f@[0]@ && fv[1] == f@[1]@ && fv[2] == f@[2]@ && fv[3] == f@[3]@);
            r.push(s);
            i = i + 1;
        }
        r
    }

    /// The tabs of a `list-windows` listing: one per row of at least five
    /// fields.
    pub fn tabs_from_listing(output: &str, session: Option<&str>) -> (r: Vec<Tab>)
        ensures
            r@.len() == rows_with(lines(output@), 5).len(),
            forall|i: int| 0 <= i < r@.len() ==> tab_of_row(#[trigger] r@[i], rows_with(lines(output@), 5)[i], session),
            forall|i: int| 0 <= i < r@.len() ==> (#[trigger] r@[i]).id.0@ == rows_with(lines(output@), 5)[i][0],
    {
        let rows = listing_rows(output, 5);
        let ghost rv = rows_with(lines(output@), 5);
        let mut r: Vec<Tab> = Vec::new();
        let mut i: usize = 0;
        proof {
            reveal_strlit("1");
            assert("1"@ =~= seq!['1']);
        }
        while i < rows.len()
            invariant
                i <= rows@.len(),
                rv == rows_with(lines(output@), 5),
                rows@.len() == rv.len(),
                forall|j: int| 0 <= j < rows@.len() ==> (#[trigger] rows@[j])@.map_values(|w: Vec<char>| w@) == rv[j],
                forall|j: int| 0 <= j < rows@.len() ==> (#[trigger] rows@[j])@.len() >= 5,
                "1"@ == seq!['1'],
                r@.len() == i,
                forall|j: int| 0 <= j < i ==> tab_of_row(#[trigger] r@[j], rv[j], session),
            decreases rows@.len() - i,
        {
            let f = &rows[i];
            assert(f@.len() >= 5);
            let ghost fv = f@.map_values(|w: Vec<char>| w@);
            assert(fv == rv[i as int]);
            let index = match parse_unsigned_vec(&f[2], 4294967295) {
                Some(v) => v as u32,
                None => 0,
            };
            let pane_count = match parse_unsigned_vec(&f[3], 4294967295) {
                Some(v) => v as u32,
                None => 0,
            };
            let session_name = match session {
                Some(s) => String::from_str(s),
                None => string_from("current"),
            };
            let t = Tab {
                id: TabId(string_of(&f[0])),
                name: Some(string_of(&f[1])),
                index,
                pane_count,
                focused: eq_str(&f[4], "1"),
                session: SessionId(session_name),
            };
            assert(fv[0] == f@[0]@ && fv[1] == f@[1]@ && fv[2] == f@[2]@ && fv[3] == f@[3]@ && fv[4] == f@[4]@);
            r.push(t);
            i = i + 1;
        }
        r
    }

    /// The panes of a `list-panes` listing: one per row of at least eight
    /// fields.
    pub fn panes_from_listing(output: &str) -> (r: Vec<Pane>)
        ensures
            r@.len() == rows_with(lines(output@), 8).len(),
            forall|i: int| 0 <= i < r@.len() ==> pane_of_row(#[trigger] r@[i], rows_with(lines(output@), 8)[i]),
            forall|i: int| 0 <= i < r@.len() ==> {
                let f = rows_with(lines(output@), 8)[i];
                &&& (#[trigger] r@[i]).id.0@ == f[0]
                &&& r@[i].tab.0@ == f[5]
                &&& r@[i].session.0@ == f[7]
            },
    {
        let rows = listing_rows(output, 8);
        let ghost rv = rows_with(lines(output@), 8);
        let mut r: Vec<Pane> = Vec::new();
        let mut i: usize = 0;
        proof {
            reveal_strlit("1");
            assert("1"@ =~= seq!['1']);
        }
        while i < rows.len()
            invariant
                i <= rows@.len(),
                rv == rows_with(lines(output@), 8),
                rows@.len() == rv.len(),
                forall|j: int| 0 <= j < rows@.len() ==> (#[trigger] rows@[j])@.map_values(|w: Vec<char>| w@) == rv[j],
                forall|j: int| 0 <= j < rows@.len() ==> (#[trigger] rows@[j])@.len() >= 8,
                "1"@ == seq!['1'],
                r@.len() == i,
                forall|j: int| 0 <= j < i ==> pane_of_row(#[trigger] r@[j], rv[j]),
            decreases rows@.len() - i,
        {
            let f = &rows[i];
            assert(f@.len() >= 8);
            let ghost fv = f@.map_values(|w: Vec<char>| w@);
            assert(fv == rv[i as int]);
            let p = Pane {
                id: PaneId(string_of(&f[0])),
                name: Some(string_of(&f[1])),
                command: Some(string_of(&f[2])),
                cwd: Some(string_of(&f[3])),
                floating: false,
                focused: eq_str(&f[4], "1"),
                tab: TabId(string_of(&f[5])),
                session: SessionId(string_of(&f[7])),
            };
            assert(fv[0] == f@[0]@ && fv[1] == f@[1]@ && fv[2] == f@[2]@ && fv[3] == f@[3]@ && fv[4] == f@[4]@);
            assert(fv[5] == f@[5]@ && fv[7] == f@[7]@);
            r.push(p);
            i = i + 1;
        }
        r
    }

    /// The target of the window at `index`.
    pub fn window_target(session: Option<&str>, index: u32) -> (t: String)
        ensures
            t@ == window_target_of(session, index),
    {
        let mut t = match session {
            Some(s) => String::from_str(s),
            None => String::new(),
        };
        t.append(":");
        push_dec(&mut t, index as u64);
        proof {
            if session.is_none() {
                assert(Seq::<char>::empty() + ":"@ =~= ":"@);
            }
        }
        t
    }

    /// The flag that names a direction.
    pub fn direction_flag(d: Direction) -> (f: &'static str)
        ensures
            f@ == direction_flag_of(d),
    {
        match d {
            Direction::Up => "-U",
            Direction::Down => "-D",
            Direction::Left => "-L",
            Direction::Right => "-R",
        }
    }

    /// The arguments of `split-window` up to the command.
    pub fn split_window_args(d: Option<Direction>, target: &Option<String>, session: &Option<String>, cwd: &Option<String>) -> (args: Vec<String>)
        ensures
            strs(args@) == split_args(d, *target, *session, *cwd),
    {
        let mut args: Vec<String> = Vec::new();
        push_lit(&mut args, "split-window");
        push_lit(&mut args, "-d");
        push_lit(&mut args, "-P");
        push_lit(&mut args, "-F");
        push_lit(&mut args, "#{pane_id} #{window_id} #{session_name}");
        let horizontal = match d {
            Some(Direction::Left) | Some(Direction::Right) => true,
            _ => false,
        };
        push_flag_if(&mut args, horizontal, "-h");
        let before = match d {
            Some(Direction::Up) | Some(Direction::Left) => true,
            _ => false,
        };
        push_flag_if(&mut args, before, "-b");
        if target.is_some() {
            push_opt_pair(&mut args, "-t", target);
        } else {
            push_opt_pair(&mut args, "-t", session);
        }
        push_opt_pair(&mut args, "-c", cwd);
        proof {
            reveal_strlit("split-window");
            reveal_strlit("-d");
            reveal_strlit("-P");
            reveal_strlit("-F");
        }
        assert(strs(args@) =~= split_args(d, *target, *session, *cwd));
        args
    }

    /// The ids that `split-window -P` printed: the pane's id (empty when
    /// missing), then its window and session (`current` when missing).
    pub fn split_output_ids(output: &str) -> (ids: (PaneId, TabId, SessionId))
        ensures
            ids.0.0@ == nth_or(words(output@), 0, ""@),
            ids.1.0@ == nth_or(words(output@), 1, "current"@),
            ids.2.0@ == nth_or(words(output@), 2, "current"@),
    {
        let text = chars_of(output);
        let parts = split_words(&text);
        (
            PaneId(word_or(&parts, 0, "")),
            TabId(word_or(&parts, 1, "current")),
            SessionId(word_or(&parts, 2, "current")),
        )
    }

    /// The arguments of a request to close a pane (the focused one when none
    /// is named); closing the pane Locus runs in is refused.
    pub fn close_pane_args(&self, pane: Option<&str>) -> (r: Result<Vec<String>, BackendError>)
        ensures
            (pane.is_some() && self.own_pane().is_some() && pane.unwrap()@ == self.own_pane().unwrap()@) ==> (r matches Err(
                BackendError::CommandFailed(m),
            ) && m@ == "refusing to close locus's own pane"@),
            !(pane.is_some() && self.own_pane().is_some() && pane.unwrap()@ == self.own_pane().unwrap()@) ==> (r matches Ok(
                args,
            ) && strs(args@) == seq!["kill-pane"@] + target_pair(pane)),
    {
        if let (Some(target), Some(own)) = (pane, &self.self_pane) {
            let t = chars_of(target);
            if eq_str(&t, own.as_str()) {
                return Err(BackendError::CommandFailed(string_from("refusing to close locus's own pane")));
            }
        }
        let mut args: Vec<String> = Vec::new();
        push_lit(&mut args, "kill-pane");
        push_target(&mut args, pane);
        proof {
            reveal_strlit("kill-pane");
        }
        assert(strs(args@) =~= seq!["kill-pane"@] + target_pair(pane));
        Ok(args)
    }

    /// The arguments that resize a pane: the direction's flag, the amount
    /// (5 when not given), and the pane when named.
    pub fn resize_args(d: Direction, amount: Option<u32>, pane: Option<&str>) -> (args: Vec<String>)
        ensures
            strs(args@) == seq!["resize-pane"@, direction_flag_of(d), dec(
                (match amount {
                    Some(a) => a,
                    None => 5u32,
                }) as nat,
            )] + target_pair(pane),
    {
        let mut args: Vec<String> = Vec::new();
        push_lit(&mut args, "resize-pane");
        push_lit(&mut args, Self::direction_flag(d));
        let n: u32 = match amount {
            Some(a) => a,
            None => 5,
        };
        let mut a = String::new();
        push_dec(&mut a, n as u64);
        push_str(&mut args, &a);
        push_target(&mut args, pane);
        proof {
            reveal_strlit("resize-pane");
        }
        assert(Seq::<char>::empty() + dec(n as nat) =~= dec(n as nat));
        args
    }

    /// The arguments that send keys to a pane (the focused one when none is
    /// named).
    pub fn send_keys_args(chars: &str, pane: Option<&str>) -> (args: Vec<String>)
        ensures
            strs(args@) == seq!["send-keys"@] + target_pair(pane) + seq![chars@],
    {
        let mut args: Vec<String> = Vec::new();
        push_lit(&mut args, "send-keys");
        push_target(&mut args, pane);
        push_lit(&mut args, chars);
        proof {
            reveal_strlit("send-keys");
        }
        args
    }

    /// The arguments that print a pane's screen, with the whole scrollback
    /// when asked.
    pub fn capture_args(full_scrollback: bool, pane: Option<&str>) -> (args: Vec<String>)
        ensures
            strs(args@) == seq!["capture-pane"@, "-p"@] + (if full_scrollback {
                seq!["-S"@, "-"@]
            } else {
                seq![]
            }) + target_pair(pane),
    {
        let mut args: Vec<String> = Vec::new();
        push_lit(&mut args, "capture-pane");
        push_lit(&mut args, "-p");
        let ghost a0 = strs(args@);
        if full_scrollback {
            push_lit(&mut args, "-S");
            push_lit(&mut args, "-");
        }
        assert(strs(args@) =~= a0 + (if full_scrollback { seq!["-S"@, "-"@] } else { seq![] }));
        push_target(&mut args, pane);
        proof {
            reveal_strlit("capture-pane");
            reveal_strlit("-p");
        }
        args
    }

    /// The arguments that open a window: detached, printing its id and
    /// index, in the session, name and working directory given.
    pub fn new_window_args(opts: &TabOpts) -> (args: Vec<String>)
        ensures
            strs(args@) == seq!["new-window"@, "-d"@, "-P"@, "-F"@, "#{window_id} #{window_index}"@] + opt_pair(
                "-t"@,
                opts.session,
            ) + opt_pair("-n"@, opts.name) + opt_pair("-c"@, opts.cwd),
    {
        let mut args: Vec<String> = Vec::new();
        push_lit(&mut args, "new-window");
        push_lit(&mut args, "-d");
        push_lit(&mut args, "-P");
        push_lit(&mut args, "-F");
        push_lit(&mut args, "#{window_id} #{window_index}");
        push_opt_pair(&mut args, "-t", &opts.session);
        push_opt_pair(&mut args, "-n", &opts.name);
        push_opt_pair(&mut args, "-c", &opts.cwd);
        args
    }

    /// The tab that `new-window -P` reported: its id (empty when missing)
    /// and index (0 when missing or not a number), one pane, not focused.
    pub fn tab_from_new_window(output: &str, opts: &TabOpts) -> (t: Tab)
        ensures
            t.id.0@ == nth_or(words(output@), 0, ""@),
            t.name == opts.name,
            t.index == (if words(output@).len() > 1 { parse_or(words(output@)[1], u32::MAX as nat, 0) } else { 0 }),
            t.pane_count == 1,
            !t.focused,
            t.session.0@ == or_default(opts.session, "current"@),
    {
        let text = chars_of(output);
        let parts = split_words(&text);
        let index: u32 = if parts.len() > 1 {
            match parse_unsigned_vec(&parts[1], 4294967295) {
                Some(v) => v as u32,
                None => 0,
            }
        } else {
            0
        };
        proof {
            if parts@.len() > 1 {
                assert(words(output@)[1] == parts@[1]@);
            }
        }
        Tab {
            id: TabId(word_or(&parts, 0, "")),
            name: copy_opt(&opts.name),
            index,
            pane_count: 1,
            focused: false,
            session: SessionId(string_or(&opts.session, "current")),
        }
    }

    /// The arguments that start a detached session printing its id.
    pub fn new_session_args(opts: &SessionOpts) -> (args: Vec<String>)
        ensures
            strs(args@) == seq!["new-session"@, "-d"@, "-s"@, opts.name@, "-P"@, "-F"@, "#{session_id}"@] + opt_pair(
                "-c"@,
                opts.cwd,
            ),
    {
        let mut args: Vec<String> = Vec::new();
        push_lit(&mut args, "new-session");
        push_lit(&mut args, "-d");
        push_lit(&mut args, "-s");
        push_str(&mut args, &opts.name);
        push_lit(&mut args, "-P");
        push_lit(&mut args, "-F");
        push_lit(&mut args, "#{session_id}");
        push_opt_pair(&mut args, "-c", &opts.cwd);
        args
    }

    /// The session that `new-session -P` reported: its id is the trimmed
    /// output; one window and pane, detached.
    pub fn session_from_new_session(output: &str, opts: &SessionOpts) -> (s: Session)
        ensures
            s.id.0@ == trim(output@),
            s.name@ == opts.name@,
            s.tabs == 1,
            s.panes == 1,
            !s.attached,
    {
        let text = chars_of(output);
        Session {
            id: SessionId(string_of(&trim_vec(&text))),
            name: opts.name.clone(),
            tabs: 1,
            panes: 1,
            attached: false,
        }
    }
}

} // verus!

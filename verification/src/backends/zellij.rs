//! Zellij backend: what Locus asks of the `zellij` CLI and what it makes of
//! the answers.
//!
//! Running the CLI is the caller's; this module builds the argument lists,
//! reads the outputs, and describes what a successful request created.

use vstd::prelude::*;
use crate::backend::BackendError;
use crate::text::{
    chars_of, contains_seq, contains_vec, dec, flag_if, lines, opt_pair, or_default, push_dec,
    push_flag_if, push_lit, push_opt_pair, push_str, split_lines, split_words, string_from,
    string_of, string_or, copy_opt, strs, trim, trim_vec, words,
};
use crate::types::{direction_name, Direction, Pane, PaneId, PaneOpts, RunOpts, Session, SessionId, SessionOpts, Tab, TabId, TabOpts};

verus! {

/// Zellij backend — controls Zellij via its CLI.
pub struct Zellij {
    /// Path to zellij binary (default: "zellij")
    bin: String,
}

/// `s`, or `default` when there is none.
pub open spec fn str_or(s: Option<&str>, default: Seq<char>) -> Seq<char> {
    match s {
        Some(v) => v@,
        None => default,
    }
}

/// The id Locus gives a pane it created: `session:name`, with `current` and
/// `unnamed` standing in for what is missing.
pub open spec fn zellij_pane_id(session: Option<&str>, name: Option<&str>) -> Seq<char> {
    str_or(session, "current"@) + ":"@ + str_or(name, "unnamed"@)
}

/// The id of the tab at `index`: `session:tab-index`.
pub open spec fn zellij_tab_id(session: Option<&str>, index: u32) -> Seq<char> {
    str_or(session, "current"@) + ":tab-"@ + dec(index as nat)
}

/// The lines of `ls` that are not empty.
pub open spec fn nonempty_lines(ls: Seq<Seq<char>>) -> Seq<Seq<char>>
    decreases ls.len(),
{
    if ls.len() == 0 {
        seq![]
    } else {
        let r = nonempty_lines(ls.drop_last());
        if ls.last().len() > 0 {
            r.push(ls.last())
        } else {
            r
        }
    }
}

/// The first word of `line`, or `default` when it has none.
pub open spec fn first_word_or(line: Seq<char>, default: Seq<char>) -> Seq<char> {
    if words(line).len() > 0 {
        words(line)[0]
    } else {
        default
    }
}

/// `s` is the session that the `i`-th non-empty line of a session listing
/// describes: named by its first word, attached when the line says
/// `(current)` and not `EXITED`.
pub open spec fn session_of_line(s: Session, i: nat, line: Seq<char>) -> bool {
    &&& s.id.0@ == "session-"@ + dec(i)
    &&& s.name@ == first_word_or(line, "unknown"@)
    &&& s.tabs == 0
    &&& s.panes == 0
    &&& s.attached == (contains_seq(line, "(current)"@) && !contains_seq(line, "EXITED"@))
}

/// `t` is the tab that the `i`-th non-empty line of a tab-name listing names.
pub open spec fn tab_of_line(t: Tab, i: nat, line: Seq<char>, session: Option<&str>) -> bool {
    &&& t.id.0@ == zellij_tab_id(session, i as u32)
    &&& t.name.is_some() && t.name.unwrap()@ == trim(line)
    &&& t.index == i as u32
    &&& t.pane_count == 0
    &&& !t.focused
    &&& t.session.0@ == str_or(session, "current"@)
}

fn opt_string(s: Option<&str>, default: &str) -> (r: String)
    ensures
        r@ == str_or(s, default@),
{
    match s {
        Some(v) => String::from_str(v),
        None => string_from(default),
    }
}

fn nonempty_lines_of(output: &str) -> (ls: Vec<Vec<char>>)
    ensures
        ls@.map_values(|w: Vec<char>| w@) == nonempty_lines(lines(output@)),
{
    let text = chars_of(output);
    let all = split_lines(&text);
    let ghost lv = all@.map_values(|w: Vec<char>| w@);
    let mut ls: Vec<Vec<char>> = Vec::new();
    let mut i: usize = 0;
    while i < all.len()
        invariant
            i <= all@.len(),
            lv == all@.map_values(|w: Vec<char>| w@),
            ls@.map_values(|w: Vec<char>| w@) == nonempty_lines(lv.take(i as int)),
        decreases all@.len() - i,
    {
        assert(lv.take(i + 1).drop_last() =~= lv.take(i as int));
        assert(lv.take(i + 1).last() == all@[i as int]@);
        if all[i].len() > 0 {
            let ghost l0 = ls@.map_values(|w: Vec<char>| w@);
            ls.push(all[i].clone());
            assert(ls@.map_values(|w: Vec<char>| w@) =~= l0.push(all@[i as int]@));
        }
        i = i + 1;
    }
    assert(lv.take(i as int) =~= lv);
    ls
}

impl Zellij {
    /// The path of the zellij binary.
    pub closed spec fn bin_path(&self) -> Seq<char> {
        self.bin@
    }

    /// A backend that runs `zellij` from the search path.
    pub fn new() -> (z: Self)
        ensures
            z.bin_path() == "zellij"@,
    {
        Zellij { bin: string_from("zellij") }
    }

    /// A backend that runs the given binary.
    pub fn with_bin(bin: String) -> (z: Self)
        ensures
            z.bin_path() == bin@,
    {
        Zellij { bin }
    }

    /// The binary this backend runs.
    pub fn bin(&self) -> (b: &str)
        ensures
            b@ == self.bin_path(),
    {
        self.bin.as_str()
    }

    /// Human-readable backend name.
    pub fn name(&self) -> (n: &'static str)
        ensures
            n@ == "zellij"@,
    {
        "zellij"
    }

    /// Build a synthetic PaneId from session context.
    pub fn make_pane_id(session: Option<&str>, name: Option<&str>) -> (id: PaneId)
        ensures
            id.0@ == zellij_pane_id(session, name),
    {
        let mut s = opt_string(session, "current");
        s.append(":");
        let n = opt_string(name, "unnamed");
        s.append(n.as_str());
        PaneId(s)
    }

    /// The TabId of the tab at `index`.
    pub fn make_tab_id(session: Option<&str>, index: u32) -> (id: TabId)
        ensures
            id.0@ == zellij_tab_id(session, index),
    {
        let mut s = opt_string(session, "current");
        s.append(":tab-");
        push_dec(&mut s, index as u64);
        TabId(s)
    }

    /// Parse `zellij list-sessions` output: one session per non-empty line.
    pub fn parse_sessions(output: &str) -> (r: Vec<Session>)
        ensures
            r@.len() == nonempty_lines(lines(output@)).len(),
            forall|i: int| 0 <= i < r@.len() ==> session_of_line(#[trigger] r@[i], i as nat, nonempty_lines(lines(output@))[i]),
    {
        let ls = nonempty_lines_of(output);
        let ghost nl = nonempty_lines(lines(output@));
        let current = chars_of("(current)");
        let exited = chars_of("EXITED");
        let mut r: Vec<Session> = Vec::new();
        let mut i: usize = 0;
        while i < ls.len()
            invariant
                i <= ls@.len(),
                ls@.map_values(|w: Vec<char>| w@) == nl,
                current@ == "(current)"@,
                exited@ == "EXITED"@,
                r@.len() == i,
                forall|j: int| 0 <= j < i ==> session_of_line(#[trigger] r@[j], j as nat, nl[j]),
            decreases ls@.len() - i,
        {
            let line = &ls[i];
            assert(nl[i as int] == line@);
            let ws = split_words(line);
            let name = if ws.len() > 0 {
                string_of(&ws[0])
            } else {
                string_from("unknown")
            };
            proof {
                if ws@.len() > 0 {
                    assert(words(line@)[0] == ws@[0]@);
                }
            }
            let attached = contains_vec(line, &current) && !contains_vec(line, &exited);
            let mut id = string_from("session-");
            push_dec(&mut id, i as u64);
            let s = Session { id: SessionId(id), name, tabs: 0, panes: 0, attached };
            r.push(s);
            i = i + 1;
        }
        r
    }

    /// Parse `zellij action query-tab-names` output: one tab per non-empty
    /// line, named by the trimmed line.
    pub fn parse_tab_names(output: &str, session: Option<&str>) -> (r: Vec<Tab>)
        ensures
            r@.len() == nonempty_lines(lines(output@)).len(),
            forall|i: int| 0 <= i < r@.len() ==> tab_of_line(#[trigger] r@[i], i as nat, nonempty_lines(lines(output@))[i], session),
    {
        let ls = nonempty_lines_of(output);
        let ghost nl = nonempty_lines(lines(output@));
        let mut r: Vec<Tab> = Vec::new();
        let mut i: usize = 0;
        while i < ls.len()
            invariant
                i <= ls@.len(),
                ls@.map_values(|w: Vec<char>| w@) == nl,
                r@.len() == i,
                forall|j: int| 0 <= j < i ==> tab_of_line(#[trigger] r@[j], j as nat, nl[j], session),
            decreases ls@.len() - i,
        {
            let line = &ls[i];
            assert(nl[i as int] == line@);
            #[verifier::truncate]
            let index: u32 = i as u32;
            let t = Tab {
                id: Self::make_tab_id(session, index),
                name: Some(string_of(&trim_vec(line))),
                index,
                pane_count: 0,
                focused: false,
                session: SessionId(opt_string(session, "current")),
            };
            r.push(t);
            i = i + 1;
        }
        r
    }
}

// ---------------------------------------------------------------------------
// Requests
// ---------------------------------------------------------------------------

/// The string of an optional string, borrowed.
pub fn as_str_opt(s: &Option<String>) -> (r: Option<&str>)
    ensures
        match s {
            Some(v) => r.is_some() && r.unwrap()@ == v@,
            None => r.is_none(),
        },
        forall|d: Seq<char>| str_or(r, d) == or_default(*s, d),
{
    match s {
        Some(v) => Some(v.as_str()),
        None => None,
    }
}

/// `--direction` and the direction's name, when there is a direction.
pub open spec fn direction_pair(d: Option<Direction>) -> Seq<Seq<char>> {
    match d {
        Some(d) => seq!["--direction"@, direction_name(d)],
        None => seq![],
    }
}

fn push_direction(args: &mut Vec<String>, d: Option<Direction>)
    ensures
        strs(final(args)@) == strs(old(args)@) + direction_pair(d),
{
    let ghost a0 = strs(args@);
    match d {
        Some(dir) => {
            push_lit(args, "--direction");
            push_lit(args, dir.as_str());
            assert(a0.push("--direction"@).push(direction_name(dir)) =~= a0 + direction_pair(d));
        },
        None => {
            assert(a0 =~= a0 + direction_pair(d));
        },
    }
}

/// The arguments that open a tab: `action new-tab`, with its name and
/// layout directory when given, aimed at the session when one is named.
pub open spec fn new_tab_args(opts: TabOpts) -> Seq<Seq<char>> {
    opt_pair("--session"@, opts.session) + seq!["action"@, "new-tab"@] + opt_pair("--name"@, opts.name) + opt_pair(
        "--layout-dir"@,
        opts.layout,
    )
}

/// The arguments that open a pane: `action new-pane`, then `--floating`,
/// the direction, name and working directory as far as they are given.
pub open spec fn new_pane_args(opts: PaneOpts) -> Seq<Seq<char>> {
    opt_pair("--session"@, opts.session) + seq!["action"@, "new-pane"@] + flag_if(opts.floating, "--floating"@)
        + direction_pair(opts.direction) + opt_pair("--name"@, opts.name) + opt_pair("--cwd"@, opts.cwd)
}

/// The arguments that run a command in a new pane: `run`, the options as
/// far as they are given, `--`, then the command's words.
pub open spec fn run_args(opts: RunOpts) -> Seq<Seq<char>> {
    opt_pair("--session"@, opts.session) + seq!["run"@] + flag_if(opts.floating, "--floating"@) + flag_if(
        opts.close_on_exit,
        "--close-on-exit"@,
    ) + direction_pair(opts.direction) + opt_pair("--name"@, opts.name) + opt_pair("--cwd"@, opts.cwd) + seq!["--"@]
        + words(opts.command@)
}

impl Zellij {
    /// The command line that opens a tab.
    pub fn create_tab_args(opts: &TabOpts) -> (args: Vec<String>)
        ensures
            strs(args@) == new_tab_args(*opts),
    {
        let mut args: Vec<String> = Vec::new();
        push_opt_pair(&mut args, "--session", &opts.session);
        push_lit(&mut args, "action");
        push_lit(&mut args, "new-tab");
        push_opt_pair(&mut args, "--name", &opts.name);
        push_opt_pair(&mut args, "--layout-dir", &opts.layout);
        proof {
            reveal_strlit("action");
            reveal_strlit("new-tab");
        }
        assert(strs(args@) =~= new_tab_args(*opts));
        args
    }

    /// The tab that a successful `new-tab` made, as far as Locus knows it.
    pub fn created_tab(opts: &TabOpts) -> (t: Tab)
        ensures
            t.id.0@ == or_default(opts.session, "current"@) + ":tab-"@ + dec(0),
            t.name == opts.name,
            t.index == 0,
            t.pane_count == 1,
            t.focused,
            t.session.0@ == or_default(opts.session, "current"@),
    {
        let session = as_str_opt(&opts.session);
        Tab {
            id: Self::make_tab_id(session, 0),
            name: copy_opt(&opts.name),
            index: 0,
            pane_count: 1,
            focused: true,
            session: SessionId(string_or(&opts.session, "current")),
        }
    }

    /// The command line that opens a pane.
    pub fn create_pane_args(opts: &PaneOpts) -> (args: Vec<String>)
        ensures
            strs(args@) == new_pane_args(*opts),
    {
        let mut args: Vec<String> = Vec::new();
        push_opt_pair(&mut args, "--session", &opts.session);
        push_lit(&mut args, "action");
        push_lit(&mut args, "new-pane");
        push_flag_if(&mut args, opts.floating, "--floating");
        push_direction(&mut args, opts.direction);
        push_opt_pair(&mut args, "--name", &opts.name);
        push_opt_pair(&mut args, "--cwd", &opts.cwd);
        proof {
            reveal_strlit("action");
            reveal_strlit("new-pane");
        }
        assert(strs(args@) =~= new_pane_args(*opts));
        args
    }

    /// The pane that a successful `new-pane` made: named after the session
    /// and its name, focused, in the tab asked for (or `current`).
    pub fn created_pane(opts: &PaneOpts) -> (p: Pane)
        ensures
            p.id.0@ == or_default(opts.session, "current"@) + ":"@ + or_default(opts.name, "unnamed"@),
            p.name == opts.name,
            p.command == opts.command,
            p.cwd == opts.cwd,
            p.floating == opts.floating,
            p.focused,
            p.tab.0@ == or_default(opts.tab, "current"@),
            p.session.0@ == or_default(opts.session, "current"@),
    {
        let id = Self::make_pane_id(as_str_opt(&opts.session), as_str_opt(&opts.name));
        Pane {
            id,
            name: copy_opt(&opts.name),
            command: copy_opt(&opts.command),
            cwd: copy_opt(&opts.cwd),
            floating: opts.floating,
            focused: true,
            tab: TabId(string_or(&opts.tab, "current")),
            session: SessionId(string_or(&opts.session, "current")),
        }
    }

    /// The command line that runs a command in a new pane; a command with no
    /// words is refused.
    pub fn run_command_args(opts: &RunOpts) -> (r: Result<Vec<String>, BackendError>)
        ensures
            words(opts.command@).len() == 0 ==> (r matches Err(BackendError::CommandFailed(m)) && m@ == "empty command"@),
            words(opts.command@).len() > 0 ==> (r matches Ok(args) && strs(args@) == run_args(*opts)),
    {
        let cmd = chars_of(opts.command.as_str());
        let parts = split_words(&cmd);
        if parts.len() == 0 {
            return Err(BackendError::CommandFailed(string_from("empty command")));
        }
        let mut args: Vec<String> = Vec::new();
        push_opt_pair(&mut args, "--session", &opts.session);
        push_lit(&mut args, "run");
        push_flag_if(&mut args, opts.floating, "--floating");
        push_flag_if(&mut args, opts.close_on_exit, "--close-on-exit");
        push_direction(&mut args, opts.direction);
        push_opt_pair(&mut args, "--name", &opts.name);
        push_opt_pair(&mut args, "--cwd", &opts.cwd);
        push_lit(&mut args, "--");
        let ghost head = strs(args@);
        let mut i: usize = 0;
        while i < parts.len()
            invariant
                i <= parts@.len(),
                strs(args@) == head + parts@.map_values(|w: Vec<char>| w@).take(i as int),
            decreases parts@.len() - i,
        {
            let ghost a0 = strs(args@);
            args.push(string_of(&parts[i]));
            assert(strs(args@) =~= a0.push(parts@[i as int]@));
            assert(parts@.map_values(|w: Vec<char>| w@).take(i + 1) =~= parts@.map_values(|w: Vec<char>| w@).take(i as int).push(parts@[i as int]@));
            i = i + 1;
        }
        assert(parts@.map_values(|w: Vec<char>| w@).take(i as int) =~= parts@.map_values(|w: Vec<char>| w@));
        proof {
            reveal_strlit("run");
        }
        assert(strs(args@) =~= run_args(*opts));
        Ok(args)
    }

    /// The pane that a successful `run` made.
    pub fn run_pane(opts: &RunOpts) -> (p: Pane)
        ensures
            p.id.0@ == or_default(opts.session, "current"@) + ":"@ + or_default(opts.name, "unnamed"@),
            p.name == opts.name,
            p.command == Some(opts.command),
            p.cwd == opts.cwd,
            p.floating == opts.floating,
            p.focused,
            p.tab.0@ == "current"@,
            p.session.0@ == or_default(opts.session, "current"@),
    {
        let id = Self::make_pane_id(as_str_opt(&opts.session), as_str_opt(&opts.name));
        Pane {
            id,
            name: copy_opt(&opts.name),
            command: Some(opts.command.clone()),
            cwd: copy_opt(&opts.cwd),
            floating: opts.floating,
            focused: true,
            tab: TabId(string_from("current")),
            session: SessionId(string_or(&opts.session, "current")),
        }
    }

    /// The session that a create request stands for; Zellij makes it on
    /// first attach, so nothing is run.
    pub fn created_session(opts: &SessionOpts) -> (s: Session)
        ensures
            s.id.0@ == opts.name@,
            s.name@ == opts.name@,
            s.tabs == 1,
            s.panes == 1,
            !s.attached,
    {
        Session {
            id: SessionId(opts.name.clone()),
            name: opts.name.clone(),
            tabs: 1,
            panes: 1,
            attached: false,
        }
    }
}

} // verus!

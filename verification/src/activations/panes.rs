//! The panes activation's decisions: quoting for the shell, the wrapper
//! script that runs a command in a pane and reports its progress, reading
//! that report back, and what a command added to a pane's screen.
//!
//! Talking to the backend, the file system and the clock is the caller's.

use vstd::prelude::*;
use std::sync::Arc;
use crate::activations::outcome::concat3;
use crate::text::{
    chars_of, join_from, join_lines, lines, parse_i32_vec, parse_signed, push_char, push_chars, split_lines,
    starts_with, starts_with_vec, eq_str, string_from, string_of, string_of_range, trim, trim_vec, dec, is_ws,
    is_digit, lead_ws, trail_ws, strip_cr, lemma_dec_digits, lemma_lines_two,
};
use crate::backend::BackendError;
use crate::types::{direction_named, parse_direction, Direction, LocusEvent, Pane, PaneId};

verus! {

/// Panes sub-activation — manages terminal panes with targeting.
pub struct PanesActivation<B: ?Sized> {
    /// Terminal backend instance shared across all activations
    pub backend: Arc<B>,
}

impl<B: ?Sized> PanesActivation<B> {
    /// Create a new PanesActivation with the specified backend
    pub fn new(backend: Arc<B>) -> (a: Self)
        ensures
            a.backend == backend,
    {
        PanesActivation { backend }
    }
}

/// The direction a request names, or the message refusing it.
pub fn direction_or_error(d: &str) -> (r: Result<Direction, String>)
    ensures
        match direction_named(d@) {
            Some(dir) => r == Ok::<Direction, String>(dir),
            None => r matches Err(m) && m@ == "Invalid direction: "@ + d@,
        },
{
    match parse_direction(d) {
        Some(dir) => Ok(dir),
        None => {
            let m = concat3("Invalid direction: ", d, "");
            proof {
                reveal_strlit("");
                assert(m@ =~= "Invalid direction: "@ + d@);
            }
            Err(m)
        },
    }
}

// ---------------------------------------------------------------------------
// Shell quoting
// ---------------------------------------------------------------------------

/// `s` with every `'` written as `'\''` (close the quote, an escaped quote,
/// reopen).
pub open spec fn escape_quotes(s: Seq<char>) -> Seq<char>
    decreases s.len(),
{
    if s.len() == 0 {
        seq![]
    } else {
        let rest = escape_quotes(s.drop_last());
        if s.last() == '\'' {
            rest + seq!['\'', '\\', '\'', '\'']
        } else {
            rest.push(s.last())
        }
    }
}

/// `s` in single quotes, for a bash script.
pub open spec fn shell_quoted(s: Seq<char>) -> Seq<char> {
    seq!['\''] + escape_quotes(s) + seq!['\'']
}

/// Shell-escape a string for safe inclusion in a bash script.
pub fn shell_escape(s: &str) -> (r: String)
    ensures
        r@ == shell_quoted(s@),
{
    let v = chars_of(s);
    let mut r = String::new();
    push_char(&mut r, '\'');
    let mut i: usize = 0;
    while i < v.len()
        invariant
            i <= v@.len(),
            v@ == s@,
            r@ == seq!['\''] + escape_quotes(v@.take(i as int)),
        decreases v@.len() - i,
    {
        let c = v[i];
        let ghost r0 = r@;
        if c == '\'' {
            push_char(&mut r, '\'');
            push_char(&mut r, '\\');
            push_char(&mut r, '\'');
            push_char(&mut r, '\'');
        } else {
            push_char(&mut r, c);
        }
        proof {
            assert(v@.take(i + 1).drop_last() =~= v@.take(i as int));
            assert(v@.take(i + 1).last() == c);
        }
        assert(r@ =~= seq!['\''] + escape_quotes(v@.take(i + 1)));
        i = i + 1;
    }
    push_char(&mut r, '\'');
    assert(v@.take(i as int) =~= v@);
    r
}

/// What a POSIX shell makes of a word built from single-quoted runs and
/// backslash escapes (`in_quote` tells whether a quote is open); `None` for
/// a word left with a quote open or a trailing backslash.
pub open spec fn shell_word(t: Seq<char>, in_quote: bool) -> Option<Seq<char>>
    decreases t.len(),
{
    if t.len() == 0 {
        if in_quote {
            None
        } else {
            Some(seq![])
        }
    } else if in_quote {
        if t[0] == '\'' {
            shell_word(t.skip(1), false)
        } else {
            match shell_word(t.skip(1), true) {
                Some(r) => Some(seq![t[0]] + r),
                None => None,
            }
        }
    } else if t[0] == '\'' {
        shell_word(t.skip(1), true)
    } else if t[0] == '\\' {
        if t.len() < 2 {
            None
        } else {
            match shell_word(t.skip(2), false) {
                Some(r) => Some(seq![t[1]] + r),
                None => None,
            }
        }
    } else {
        match shell_word(t.skip(1), false) {
            Some(r) => Some(seq![t[0]] + r),
            None => None,
        }
    }
}

proof fn lemma_escape_quotes_push(s: Seq<char>, c: char)
    ensures
        escape_quotes(seq![c] + s) == (if c == '\'' {
            seq!['\'', '\\', '\'', '\'']
        } else {
            seq![c]
        }) + escape_quotes(s),
    decreases s.len(),
{
    let e = if c == '\'' { seq!['\'', '\\', '\'', '\''] } else { seq![c] };
    if s.len() == 0 {
        let t = seq![c] + s;
        assert(t =~= seq![c]);
        assert(t.drop_last() =~= Seq::<char>::empty());
        assert(t.last() == c);
        assert(escape_quotes(Seq::<char>::empty()) == Seq::<char>::empty());
        assert(escape_quotes(s) == Seq::<char>::empty());
        if c == '\'' {
            assert(escape_quotes(t) == escape_quotes(t.drop_last()) + seq!['\'', '\\', '\'', '\'']);
            assert(escape_quotes(t) =~= e + escape_quotes(s));
        } else {
            assert(escape_quotes(t) == escape_quotes(t.drop_last()).push(c));
            assert(escape_quotes(t) =~= e + escape_quotes(s));
        }
    } else {
        lemma_escape_quotes_push(s.drop_last(), c);
        let t = seq![c] + s;
        assert(t.drop_last() =~= seq![c] + s.drop_last());
        assert(t.last() == s.last());
        let pre = escape_quotes(s.drop_last());
        if s.last() == '\'' {
            assert(escape_quotes(t) == escape_quotes(t.drop_last()) + seq!['\'', '\\', '\'', '\'']);
            assert(escape_quotes(s) == pre + seq!['\'', '\\', '\'', '\'']);
            assert(e + pre + seq!['\'', '\\', '\'', '\''] =~= e + (pre + seq!['\'', '\\', '\'', '\'']));
        } else {
            assert(escape_quotes(t) == escape_quotes(t.drop_last()).push(s.last()));
            assert(escape_quotes(s) == pre.push(s.last()));
            assert((e + pre).push(s.last()) =~= e + pre.push(s.last()));
        }
    }
}

proof fn lemma_shell_word_escaped(s: Seq<char>)
    ensures
        shell_word(escape_quotes(s) + seq!['\''], true) == Some(s),
    decreases s.len(),
{
    if s.len() == 0 {
        let t = escape_quotes(s) + seq!['\''];
        assert(escape_quotes(s) == Seq::<char>::empty());
        assert(t =~= seq!['\'']);
        assert(t.skip(1) =~= Seq::<char>::empty());
        assert(shell_word(t.skip(1), false) == Some(Seq::<char>::empty()));
        assert(shell_word(t, true) == Some(Seq::<char>::empty()));
        assert(s =~= Seq::<char>::empty());
    } else {
        let c = s[0];
        let rest = s.skip(1);
        assert(s =~= seq![c] + rest);
        lemma_escape_quotes_push(rest, c);
        lemma_shell_word_escaped(rest);
        let tail = escape_quotes(rest) + seq!['\''];
        assert(shell_word(tail, true) == Some(rest));
        if c == '\'' {
            let t = seq!['\'', '\\', '\'', '\''] + tail;
            assert(escape_quotes(s) + seq!['\''] =~= t);
            let t1 = t.skip(1);
            assert(t1 =~= seq!['\\', '\'', '\''] + tail);
            let t2 = t1.skip(2);
            assert(t2 =~= seq!['\''] + tail);
            assert(t2.skip(1) =~= tail);
            assert(t2[0] == '\'');
            assert(shell_word(t2, false) == Some(rest));
            assert(t1[0] == '\\' && t1[1] == '\'' && t1.len() >= 2);
            assert(shell_word(t1, false) == Some(seq!['\''] + rest));
            assert(t[0] == '\'');
            assert(shell_word(t, true) == Some(seq!['\''] + rest));
        } else {
            let t = seq![c] + tail;
            assert(escape_quotes(s) + seq!['\''] =~= t);
            assert(t.skip(1) =~= tail);
            assert(t[0] == c);
            assert(shell_word(t, true) == Some(seq![c] + rest));
        }
    }
}

/// Quoting is undone by the shell: the quoted word reads back as `s`.
pub proof fn lemma_shell_escape_roundtrip(s: Seq<char>)
    ensures
        shell_word(shell_quoted(s), false) == Some(s),
{
    lemma_shell_word_escaped(s);
    let t = shell_quoted(s);
    assert(t[0] == '\'');
    assert(t.skip(1) =~= escape_quotes(s) + seq!['\'']);
}

// ---------------------------------------------------------------------------
// Exec state
// ---------------------------------------------------------------------------

/// `s` with every `%` written as `pane_`.
pub open spec fn safe_pane(s: Seq<char>) -> Seq<char>
    decreases s.len(),
{
    if s.len() == 0 {
        seq![]
    } else if s.last() == '%' {
        safe_pane(s.drop_last()) + "pane_"@
    } else {
        safe_pane(s.drop_last()).push(s.last())
    }
}

/// The file where the wrapper script reports on a pane's command.
pub open spec fn exec_state_path(pane_id: Seq<char>) -> Seq<char> {
    "/tmp/plexus_locus_exec_state/"@ + safe_pane(pane_id)
}

/// The path of a pane's exec state file (pane ids start with `%`, which is
/// written as `pane_`).
pub fn exec_state_file(pane_id: &str) -> (r: String)
    ensures
        r@ == exec_state_path(pane_id@),
{
    let v = chars_of(pane_id);
    let mut r = string_from("/tmp/plexus_locus_exec_state/");
    let ghost prefix = r@;
    let mut i: usize = 0;
    while i < v.len()
        invariant
            i <= v@.len(),
            v@ == pane_id@,
            r@ == prefix + safe_pane(v@.take(i as int)),
        decreases v@.len() - i,
    {
        proof {
            assert(v@.take(i + 1).drop_last() =~= v@.take(i as int));
            assert(v@.take(i + 1).last() == v@[i as int]);
        }
        if v[i] == '%' {
            r.append("pane_");
            assert(r@ =~= prefix + safe_pane(v@.take(i + 1)));
        } else {
            push_char(&mut r, v[i]);
            assert(r@ =~= prefix + safe_pane(v@.take(i + 1)));
        }
        i = i + 1;
    }
    assert(v@.take(i as int) =~= v@);
    r
}

/// The wrapper script that runs `command` in a pane: it deletes itself,
/// moves to `cwd` when given (reporting exit code 1 if it cannot), writes
/// `started` and the command to the state file, runs the command, and
/// writes `exited:<code>` and the command before exiting with that code.
pub open spec fn exec_script_text(state_file: Seq<char>, script_path: Seq<char>, cwd: Option<Seq<char>>, command: Seq<char>) -> Seq<char> {
    "#!/bin/bash\n"@ + "__PLEXUS_LOCUS_EXEC_STATE_FILE="@ + shell_quoted(state_file) + "\n"@
        + "__PLEXUS_LOCUS_EXEC_SCRIPT_FILE="@ + shell_quoted(script_path) + "\n"@
        + "rm -f \"$__PLEXUS_LOCUS_EXEC_SCRIPT_FILE\"\n"@
        + (match cwd {
            Some(d) => "cd "@ + shell_quoted(d) + " || { echo \"exited:1\" > \"$__PLEXUS_LOCUS_EXEC_STATE_FILE\"; exit 1; }\n"@,
            None => seq![],
        })
        + "cat > \"$__PLEXUS_LOCUS_EXEC_STATE_FILE\" << '__PLEXUS_LOCUS_STATE_EOF__'\n"@ + "started\n"@ + command
        + "\n__PLEXUS_LOCUS_STATE_EOF__\n"@ + command + "\n"@ + "__PLEXUS_LOCUS_EXEC_EXIT_CODE=$?\n"@
        + "cat > \"$__PLEXUS_LOCUS_EXEC_STATE_FILE\" << __PLEXUS_LOCUS_STATE_EOF__\n"@
        + "exited:$__PLEXUS_LOCUS_EXEC_EXIT_CODE\n"@ + command + "\n__PLEXUS_LOCUS_STATE_EOF__\n"@
        + "exit $__PLEXUS_LOCUS_EXEC_EXIT_CODE\n"@
}

/// Build the wrapper script for `command`.
pub fn exec_script(state_file: &str, script_path: &str, cwd: Option<&str>, command: &str) -> (s: String)
    ensures
        s@ == exec_script_text(
            state_file@,
            script_path@,
            match cwd {
                Some(d) => Some(d@),
                None => None,
            },
            command@,
        ),
{
    let mut s = string_from("#!/bin/bash\n");
    s.append("__PLEXUS_LOCUS_EXEC_STATE_FILE=");
    s.append(shell_escape(state_file).as_str());
    s.append("\n");
    s.append("__PLEXUS_LOCUS_EXEC_SCRIPT_FILE=");
    s.append(shell_escape(script_path).as_str());
    s.append("\n");
    s.append("rm -f \"$__PLEXUS_LOCUS_EXEC_SCRIPT_FILE\"\n");
    let ghost before_cd = s@;
    if let Some(dir) = cwd {
        s.append("cd ");
        s.append(shell_escape(dir).as_str());
        s.append(" || { echo \"exited:1\" > \"$__PLEXUS_LOCUS_EXEC_STATE_FILE\"; exit 1; }\n");
    }
    assert(s@ =~= before_cd + (match cwd {
        Some(d) => "cd "@ + shell_quoted(d@) + " || { echo \"exited:1\" > \"$__PLEXUS_LOCUS_EXEC_STATE_FILE\"; exit 1; }\n"@,
        None => seq![],
    }));
    s.append("cat > \"$__PLEXUS_LOCUS_EXEC_STATE_FILE\" << '__PLEXUS_LOCUS_STATE_EOF__'\n");
    s.append("started\n");
    s.append(command);
    s.append("\n__PLEXUS_LOCUS_STATE_EOF__\n");
    s.append(command);
    s.append("\n");
    s.append("__PLEXUS_LOCUS_EXEC_EXIT_CODE=$?\n");
    s.append("cat > \"$__PLEXUS_LOCUS_EXEC_STATE_FILE\" << __PLEXUS_LOCUS_STATE_EOF__\n");
    s.append("exited:$__PLEXUS_LOCUS_EXEC_EXIT_CODE\n");
    s.append(command);
    s.append("\n__PLEXUS_LOCUS_STATE_EOF__\n");
    s.append("exit $__PLEXUS_LOCUS_EXEC_EXIT_CODE\n");
    assert(s@ =~= exec_script_text(
        state_file@,
        script_path@,
        match cwd {
            Some(d) => Some(d@),
            None => None,
        },
        command@,
    ));
    s
}

// ---------------------------------------------------------------------------
// Reading the exec state back
// ---------------------------------------------------------------------------

/// What the state file says of a pane's command.
#[derive(Debug, Clone, Copy, PartialEq, Eq, Structural)]
pub enum ExecState {
    /// The command is running.
    Started,
    /// The command exited, with its code when that reads as an `i32`.
    Exited(Option<i32>),
}

/// The first line of `content`, trimmed (empty when there is none).
pub open spec fn state_line(content: Seq<char>) -> Seq<char> {
    if lines(content).len() > 0 {
        trim(lines(content)[0])
    } else {
        seq![]
    }
}

/// An exit code as `str::parse::<i32>` reads it.
pub open spec fn exit_code_of(s: Seq<char>) -> Option<i32> {
    match parse_signed(s, 2147483647, 2147483648) {
        Some(v) => Some(v as i32),
        None => None,
    }
}

/// The state a trimmed state line reports: `started`, or `exited:` and the
/// code; anything else reports nothing.
pub open spec fn state_of_line(line: Seq<char>) -> Option<ExecState> {
    if line == "started"@ {
        Some(ExecState::Started)
    } else if starts_with(line, "exited:"@) {
        Some(ExecState::Exited(exit_code_of(line.skip(7))))
    } else {
        None
    }
}

/// The state a state file's contents report (nothing for an empty file).
pub open spec fn exec_state_of(content: Seq<char>) -> Option<ExecState> {
    if lines(content).len() > 0 {
        state_of_line(state_line(content))
    } else {
        None
    }
}

fn first_line(content: &str) -> (r: (Vec<Vec<char>>, Vec<char>))
    ensures
        r.0@.map_values(|w: Vec<char>| w@) == lines(content@),
        r.1@ == state_line(content@),
{
    let text = chars_of(content);
    let ls = split_lines(&text);
    let line = if ls.len() > 0 {
        trim_vec(&ls[0])
    } else {
        Vec::new()
    };
    proof {
        if ls@.len() > 0 {
            assert(lines(content@)[0] == ls@[0]@);
        }
    }
    (ls, line)
}

fn line_state(line: &Vec<char>) -> (r: Option<ExecState>)
    ensures
        r == state_of_line(line@),
{
    let prefix = chars_of("exited:");
    proof {
        reveal_strlit("exited:");
    }
    if eq_str(line, "started") {
        Some(ExecState::Started)
    } else if starts_with_vec(line, &prefix) {
        let rest_s = string_of_range(line, 7, line.len());
        let rest = chars_of(rest_s.as_str());
        assert(rest@ =~= line@.skip(7));
        Some(ExecState::Exited(parse_i32_vec(&rest)))
    } else {
        None
    }
}

/// Read a state file's contents.
pub fn read_exec_state(content: &str) -> (r: Option<ExecState>)
    ensures
        r == exec_state_of(content@),
{
    let (ls, line) = first_line(content);
    if ls.len() == 0 {
        return None;
    }
    line_state(&line)
}

/// The second line of `content` (empty when there is none): the command the
/// state file records.
pub open spec fn recorded_command(content: Seq<char>) -> Seq<char> {
    if lines(content).len() > 1 {
        lines(content)[1]
    } else {
        seq![]
    }
}

// ---------------------------------------------------------------------------
// Waiting for an exec'd command
// ---------------------------------------------------------------------------

/// What to do after a poll of the state file while waiting on a command.
#[derive(Debug, Clone, Copy, PartialEq, Eq, Structural)]
pub enum ExecWaitAction {
    /// The command has started: report it.
    Started,
    /// The command has exited, with its code when it reads as one.
    Exited(Option<i32>),
    /// Check that the pane still exists, then decide again with the answer.
    CheckPane,
    /// The pane is gone: report the error.
    PaneGone,
    /// Poll again.
    KeepWaiting,
}

/// While the command is to start, the pane is checked every 25th poll;
/// while waiting for it to exit, at every poll.
pub open spec fn pane_check_due(for_exit: bool, polls: u32) -> bool {
    for_exit || polls % 25 == 0
}

/// The decision after poll number `polls` read `state`: an exit ends the
/// wait; a start ends it unless the wait is for the exit; otherwise the pane
/// is checked when a check is due (`pane_alive` is its answer, none before
/// it was asked) and the wait goes on while it exists.
pub open spec fn exec_wait_decision(state: Option<ExecState>, for_exit: bool, polls: u32, pane_alive: Option<bool>) -> ExecWaitAction {
    match state {
        Some(ExecState::Exited(code)) => ExecWaitAction::Exited(code),
        Some(ExecState::Started) if !for_exit => ExecWaitAction::Started,
        _ => if !pane_check_due(for_exit, polls) {
            ExecWaitAction::KeepWaiting
        } else {
            match pane_alive {
                None => ExecWaitAction::CheckPane,
                Some(false) => ExecWaitAction::PaneGone,
                Some(true) => ExecWaitAction::KeepWaiting,
            }
        },
    }
}

/// One step of waiting on an exec'd command.
pub fn exec_wait_step(state: Option<ExecState>, for_exit: bool, polls: u32, pane_alive: Option<bool>) -> (a: ExecWaitAction)
    ensures
        a == exec_wait_decision(state, for_exit, polls, pane_alive),
{
    match state {
        Some(ExecState::Exited(code)) => return ExecWaitAction::Exited(code),
        Some(ExecState::Started) => {
            if !for_exit {
                return ExecWaitAction::Started;
            }
        },
        None => {},
    }
    if !(for_exit || polls % 25 == 0) {
        ExecWaitAction::KeepWaiting
    } else {
        match pane_alive {
            None => ExecWaitAction::CheckPane,
            Some(false) => ExecWaitAction::PaneGone,
            Some(true) => ExecWaitAction::KeepWaiting,
        }
    }
}

/// How many screen lines to report once the command has exited: those
/// asked for, 20 when none were.
pub fn exit_capture_lines(capture_lines: u32) -> (n: u32)
    ensures
        n == if capture_lines > 0 { capture_lines } else { 20 },
{
    if capture_lines > 0 {
        capture_lines
    } else {
        20
    }
}

// ---------------------------------------------------------------------------
// Waiting for a screen to settle
// ---------------------------------------------------------------------------

/// What the latest look at the screen found.
#[derive(Debug, Clone, Copy, PartialEq, Eq, Structural)]
pub enum ScreenRead {
    /// Not captured yet in this round.
    Pending,
    /// The capture failed.
    Failed,
    /// Same as the last content seen.
    Same,
    /// Different from the last content seen.
    Changed,
}

/// What to do next while waiting for a screen to settle.
#[derive(Debug, Clone, Copy, PartialEq, Eq, Structural)]
pub enum SettleAction {
    /// Capture the screen, then decide again with what it showed.
    Capture,
    /// Keep the new content as the last seen and restart the settle clock.
    Restart,
    /// Wait and look again.
    Wait,
    /// Stop waiting: report the difference from before the command.
    Stop,
}

/// The decision: before a capture, stop once the whole wait is over the
/// timeout, else capture; a failed capture stops; a change restarts the
/// settle clock; an unchanged screen stops once it has been unchanged for
/// the settle time.
pub open spec fn settle_decision(read: ScreenRead, since_change_ms: u64, elapsed_ms: u64, settle_ms: u64, timeout_ms: u64) -> SettleAction {
    match read {
        ScreenRead::Pending => if elapsed_ms > timeout_ms {
            SettleAction::Stop
        } else {
            SettleAction::Capture
        },
        ScreenRead::Failed => SettleAction::Stop,
        ScreenRead::Changed => SettleAction::Restart,
        ScreenRead::Same => if since_change_ms >= settle_ms {
            SettleAction::Stop
        } else {
            SettleAction::Wait
        },
    }
}

/// One step of waiting for a screen to settle.
pub fn settle_step(read: ScreenRead, since_change_ms: u64, elapsed_ms: u64, settle_ms: u64, timeout_ms: u64) -> (a: SettleAction)
    ensures
        a == settle_decision(read, since_change_ms, elapsed_ms, settle_ms, timeout_ms),
{
    match read {
        ScreenRead::Pending => if elapsed_ms > timeout_ms {
            SettleAction::Stop
        } else {
            SettleAction::Capture
        },
        ScreenRead::Failed => SettleAction::Stop,
        ScreenRead::Changed => SettleAction::Restart,
        ScreenRead::Same => if since_change_ms >= settle_ms {
            SettleAction::Stop
        } else {
            SettleAction::Wait
        },
    }
}

/// What the exec script's state file holds once the command has started.
pub open spec fn started_record(command: Seq<char>) -> Seq<char> {
    "started\n"@ + command + "\n"@
}

/// What it holds once the command has exited with `code`.
pub open spec fn exited_record(code: nat, command: Seq<char>) -> Seq<char> {
    "exited:"@ + dec(code) + "\n"@ + command + "\n"@
}

proof fn lemma_trim_unpadded(s: Seq<char>)
    requires
        s.len() > 0,
        !is_ws(s[0]),
        !is_ws(s.last()),
    ensures
        trim(s) == s,
{
    assert(lead_ws(s) == 0);
    assert(s.skip(0) =~= s);
    assert(trail_ws(s) == 0);
    assert(s.take(s.len() as int) =~= s);
}

/// A state file reads back as what the exec script wrote into it: `started`
/// and the command while it runs, `exited`, its code and the command once
/// it has exited — for a command on one line that does not end in a
/// carriage return, and an exit code as the shell reports one (0 to 255).
pub proof fn lemma_exec_state_reads_back(command: Seq<char>, code: nat)
    requires
        forall|i: int| 0 <= i < command.len() ==> command[i] != '\n',
        command.len() == 0 || command.last() != '\r',
        code <= 255,
    ensures
        state_line(started_record(command)) == "started"@,
        exec_state_of(started_record(command)) == Some(ExecState::Started),
        recorded_command(started_record(command)) == command,
        state_line(exited_record(code, command)) == "exited:"@ + dec(code),
        exec_state_of(exited_record(code, command)) == Some(ExecState::Exited(Some(code as i32))),
        recorded_command(exited_record(code, command)) == command,
{
    reveal_strlit("started\n");
    reveal_strlit("started");
    reveal_strlit("\n");
    reveal_strlit("exited:");
    let nl = seq!['\n'];
    assert(strip_cr(command) == command);
    // started
    let st = "started"@;
    assert("started\n"@ =~= st + nl);
    assert(started_record(command) =~= st + nl + command + nl);
    lemma_lines_two(st, command);
    assert(strip_cr(st) == st);
    lemma_trim_unpadded(st);
    // exited
    lemma_dec_digits(code);
    let d = dec(code);
    let ex = "exited:"@ + d;
    assert forall|j: int| 0 <= j < ex.len() implies #[trigger] ex[j] != '\n' by {
        if j >= 7 {
            assert(ex[j] == d[j - 7]);
            assert(is_digit(d[j - 7]));
        }
    }
    assert(exited_record(code, command) =~= ex + nl + command + nl);
    lemma_lines_two(ex, command);
    assert(ex.last() == d.last());
    assert(is_digit(d[d.len() - 1]));
    assert(strip_cr(ex) == ex);
    lemma_trim_unpadded(ex);
    assert(ex.len() != st.len());
    assert(ex.take(7) =~= "exited:"@);
    assert(starts_with(ex, "exited:"@));
    assert(ex.skip(7) =~= d);
    assert(is_digit(d[0]));
    assert(exit_code_of(d) == Some(code as i32));
}

/// What polling a pane reports: the command running, the command exited
/// (with its code), or an unknown state.
pub open spec fn poll_event_of(ev: LocusEvent, pane_id: Seq<char>, content: Seq<char>, capture: Option<String>) -> bool {
    let line = state_line(content);
    if line == "started"@ {
        ev matches LocusEvent::CommandStarted { pane, command, capture: c } && pane.0@ == pane_id && command@
            == recorded_command(content) && c == capture
    } else if starts_with(line, "exited:"@) {
        ev matches LocusEvent::CommandExited { pane, command, exit_code, capture: c } && pane.0@ == pane_id
            && command@ == recorded_command(content) && exit_code == exit_code_of(line.skip(7)) && c == capture
    } else {
        ev matches LocusEvent::Error { message } && message@ == "Unknown exec state for pane "@ + pane_id + ": "@ + line
    }
}

/// The event for a pane's exec state file.
pub fn poll_event(pane_id: String, content: &str, capture: Option<String>) -> (ev: LocusEvent)
    ensures
        poll_event_of(ev, pane_id@, content@, capture),
{
    let (ls, line) = first_line(content);
    let command = if ls.len() > 1 {
        string_of(&ls[1])
    } else {
        String::new()
    };
    proof {
        if ls@.len() > 1 {
            assert(lines(content@)[1] == ls@[1]@);
        }
    }
    match line_state(&line) {
        Some(ExecState::Started) => {
            proof {
                reveal_strlit("started");
                reveal_strlit("exited:");
                if starts_with(line@, "exited:"@) {
                    assert(line@.take(7)[0] == 'e');
                }
            }
            LocusEvent::CommandStarted { pane: PaneId(pane_id), command, capture }
        },
        Some(ExecState::Exited(code)) => {
            proof {
                reveal_strlit("started");
                reveal_strlit("exited:");
                if line@ == "started"@ {
                    assert(line@.take(7)[0] == 's');
                }
            }
            LocusEvent::CommandExited { pane: PaneId(pane_id), command, exit_code: code, capture }
        },
        None => {
            let mut message = string_from("Unknown exec state for pane ");
            message.append(pane_id.as_str());
            message.append(": ");
            message.append(string_of(&line).as_str());
            LocusEvent::Error { message }
        },
    }
}

// ---------------------------------------------------------------------------
// Screens
// ---------------------------------------------------------------------------

/// The last `count` lines of `content` (all of them when it has fewer),
/// joined with `\n`.
pub open spec fn screen_tail_of(content: Seq<char>, count: nat) -> Seq<char> {
    let ls = lines(content);
    let from = if ls.len() > count { ls.len() - count } else { 0 };
    join_lines(ls.skip(from))
}

/// The tail of a captured screen.
pub fn screen_tail(content: &str, count: u32) -> (r: String)
    ensures
        r@ == screen_tail_of(content@, count as nat),
{
    let text = chars_of(content);
    let ls = split_lines(&text);
    let n = ls.len();
    let from: usize = if n > count as usize {
        n - count as usize
    } else {
        0
    };
    join_from(&ls, from)
}

/// Where the screen after a command first differs from the one before: the
/// first line where the two differ, or the end of the shorter.
pub open spec fn first_difference(a: Seq<Seq<char>>, b: Seq<Seq<char>>, i: nat) -> nat
    decreases a.len() - i,
{
    if i < a.len() && i < b.len() && a[i as int] == b[i as int] {
        first_difference(a, b, i + 1)
    } else {
        i
    }
}

/// What a command added to a screen: when the screen grew, the lines past
/// the old line count; otherwise the lines from the first one that changed.
pub open spec fn new_content_of(before: Seq<char>, after: Seq<char>) -> Seq<char> {
    let bl = lines(before);
    let al = lines(after);
    if al.len() > bl.len() {
        join_lines(al.skip(bl.len() as int))
    } else {
        join_lines(al.skip(first_difference(bl, al, 0) as int))
    }
}

/// Compare the screens before and after a command: the line counts before
/// and after, and the new content.
pub fn screen_diff(before: &str, after: &str) -> (r: (usize, usize, String))
    ensures
        r.0 == lines(before@).len(),
        r.1 == lines(after@).len(),
        r.2@ == new_content_of(before@, after@),
{
    let bt = chars_of(before);
    let at = chars_of(after);
    let bl = split_lines(&bt);
    let al = split_lines(&at);
    let ghost bv = bl@.map_values(|w: Vec<char>| w@);
    let ghost av = al@.map_values(|w: Vec<char>| w@);
    if al.len() > bl.len() {
        let s = join_from(&al, bl.len());
        return (bl.len(), al.len(), s);
    }
    let mut i: usize = 0;
    while i < bl.len() && i < al.len() && vec_eq(&bl[i], &al[i])
        invariant
            i <= bl@.len(),
            i <= al@.len(),
            bv == bl@.map_values(|w: Vec<char>| w@),
            av == al@.map_values(|w: Vec<char>| w@),
            first_difference(bv, av, 0) == first_difference(bv, av, i as nat),
        decreases bl@.len() - i,
    {
        assert(bv[i as int] == av[i as int]);
        i = i + 1;
    }
    let s = join_from(&al, i);
    (bl.len(), al.len(), s)
}

fn vec_eq(a: &Vec<char>, b: &Vec<char>) -> (r: bool)
    ensures
        r == (a@ == b@),
{
    if a.len() != b.len() {
        return false;
    }
    let mut i: usize = 0;
    while i < a.len()
        invariant
            i <= a@.len(),
            a@.len() == b@.len(),
            forall|k: int| 0 <= k < i ==> a@[k] == b@[k],
        decreases a@.len() - i,
    {
        if a[i] != b[i] {
            return false;
        }
        i = i + 1;
    }
    assert(a@ =~= b@);
    true
}

/// The event for what a command added to a pane's screen.
pub fn screen_diff_event(pane_id: String, before: &str, after: &str) -> (ev: LocusEvent)
    ensures
        ev matches LocusEvent::ScreenDiff { pane, before_lines, after_lines, new_content } && pane.0@ == pane_id@
            && before_lines == (lines(before@).len() as u32) && after_lines == (lines(after@).len() as u32)
            && new_content@ == new_content_of(before@, after@),
{
    let (b, a, new_content) = screen_diff(before, after);
    #[verifier::truncate]
    let before_lines: u32 = b as u32;
    #[verifier::truncate]
    let after_lines: u32 = a as u32;
    LocusEvent::ScreenDiff { pane: PaneId(pane_id), before_lines, after_lines, new_content }
}

// ---------------------------------------------------------------------------
// Pane references
// ---------------------------------------------------------------------------

/// The pane a reference names: a `%id` names itself; otherwise the first
/// listed pane with that name.
pub open spec fn referenced_pane(panes: Seq<Pane>, reference: Seq<char>) -> Option<Seq<char>>
    decreases panes.len(),
{
    if reference.len() > 0 && reference[0] == '%' {
        Some(reference)
    } else if panes.len() == 0 {
        None
    } else if panes[0].name is Some && panes[0].name.unwrap()@ == reference {
        Some(panes[0].id.0@)
    } else {
        referenced_pane(panes.skip(1), reference)
    }
}

/// Resolve a pane reference (a `%id` or a pane name) against the listed
/// panes.
pub fn resolve_pane_ref(panes: &Vec<Pane>, reference: &str) -> (r: Result<String, BackendError>)
    ensures
        match referenced_pane(panes@, reference@) {
            Some(id) => r matches Ok(s) && s@ == id,
            None => r matches Err(BackendError::PaneNotFound(s)) && s@ == reference@,
        },
{
    let v = chars_of(reference);
    if v.len() > 0 && v[0] == '%' {
        return Ok(string_from(reference));
    }
    let mut i: usize = 0;
    assert(panes@.skip(0) =~= panes@);
    while i < panes.len()
        invariant
            i <= panes@.len(),
            v@ == reference@,
            !(v@.len() > 0 && v@[0] == '%'),
            referenced_pane(panes@, reference@) == referenced_pane(panes@.skip(i as int), reference@),
        decreases panes@.len() - i,
    {
        assert(panes@.skip(i as int)[0] == panes@[i as int]);
        assert(panes@.skip(i as int).skip(1) =~= panes@.skip(i + 1));
        if let Some(n) = &panes[i].name {
            if eq_str(&chars_of(n.as_str()), reference) {
                return Ok(panes[i].id.0.clone());
            }
        }
        i = i + 1;
    }
    Err(BackendError::PaneNotFound(string_from(reference)))
}

} // verus!

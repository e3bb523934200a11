//! Workspaces described in `plexus_locus.config.json`: the configuration,
//! and the decisions that bringing a workspace up takes.
//!
//! Reading the file, calling the backend and sleeping are the caller's.

use vstd::prelude::*;
use std::sync::Arc;
use crate::text::{chars_of, dec, push_dec, starts_with, string_from, string_of_range, strs};
use crate::types::{Direction, Pane, PaneId, PaneOpts, SessionId, TabId};

verus! {

/// The configuration file's name.
pub const CONFIG_FILENAME: &'static str = "plexus_locus.config.json";

/// One pane of a tab.
#[derive(Debug, Clone)]
pub struct PaneConfig {
    pub name: Option<String>,
    pub command: Option<String>,
    pub cwd: Option<String>,
}

/// One tab of a workspace.
#[derive(Debug, Clone)]
pub struct TabConfig {
    pub name: String,
    /// [rows, cols] — defaults to [1, 1] (single pane)
    pub layout: [u32; 2],
    pub panes: Vec<PaneConfig>,
}

/// A workspace: its tabs, in order.
#[derive(Debug, Clone)]
pub struct WorkspaceConfig {
    pub tabs: Vec<TabConfig>,
}

/// The whole configuration: named workspaces.
#[derive(Debug, Clone)]
pub struct LocusConfig {
    /// The workspaces with their names, each name once.
    pub workspaces: Vec<(String, WorkspaceConfig)>,
}

/// The layout of a tab that names none: one row, one column.
pub fn default_layout() -> (l: [u32; 2])
    ensures
        l[0] == 1 && l[1] == 1,
{
    [1, 1]
}

/// Workspace activation — brings workspaces up and down.
pub struct WorkspaceActivation<B: ?Sized> {
    /// Terminal backend instance shared across all activations
    pub backend: Arc<B>,
}

impl<B: ?Sized> WorkspaceActivation<B> {
    /// Create a new WorkspaceActivation with the specified backend
    pub fn new(backend: Arc<B>) -> (a: Self)
        ensures
            a.backend == backend,
    {
        WorkspaceActivation { backend }
    }
}

// ---------------------------------------------------------------------------
// Paths
// ---------------------------------------------------------------------------

/// A path is absolute when it starts at the root.
pub open spec fn is_absolute(p: Seq<char>) -> bool {
    p.len() > 0 && p[0] == '/'
}

/// `Path::join`: an absolute `p` replaces `base`; otherwise `p` follows
/// `base`, with a `/` between them unless `base` is empty or already ends
/// with one.
pub open spec fn path_join(base: Seq<char>, p: Seq<char>) -> Seq<char> {
    if is_absolute(p) {
        p
    } else if base.len() == 0 || base.last() == '/' {
        base + p
    } else {
        base + seq!['/'] + p
    }
}

/// `base` joined with `p`.
pub fn join_path(base: &str, p: &str) -> (r: String)
    ensures
        r@ == path_join(base@, p@),
{
    let pv = chars_of(p);
    if pv.len() > 0 && pv[0] == '/' {
        return string_from(p);
    }
    let bv = chars_of(base);
    let mut r = string_from(base);
    if bv.len() > 0 && bv[bv.len() - 1] != '/' {
        r.append("/");
        proof {
            reveal_strlit("/");
            assert("/"@ =~= seq!['/']);
        }
    }
    r.append(p);
    r
}

/// Where a pane's configured working directory is: `~/` expands to the
/// home directory (when it is known), and a relative path is taken from the
/// configuration file's directory.
pub open spec fn resolved_cwd(cwd: Seq<char>, config_dir: Seq<char>, home: Option<Seq<char>>) -> Seq<char> {
    let expanded = if starts_with(cwd, "~/"@) && home is Some {
        path_join(home.unwrap(), cwd.skip(2))
    } else {
        cwd
    };
    if is_absolute(expanded) {
        expanded
    } else {
        path_join(config_dir, expanded)
    }
}

/// A pane's directory is absolute whenever the configuration's directory
/// is: relative directories are taken from it, and `~/` from an absolute
/// home.
pub proof fn lemma_resolved_cwd_absolute(cwd: Seq<char>, config_dir: Seq<char>, home: Option<Seq<char>>)
    requires
        is_absolute(config_dir),
    ensures
        is_absolute(resolved_cwd(cwd, config_dir, home)),
{
    let expanded = if starts_with(cwd, "~/"@) && home is Some {
        path_join(home.unwrap(), cwd.skip(2))
    } else {
        cwd
    };
    if !is_absolute(expanded) {
        let j = path_join(config_dir, expanded);
        assert(j[0] == config_dir[0]);
    }
}

/// Resolve a cwd relative to the config file's directory.
pub fn resolve_cwd(cwd: &str, config_dir: &str, home: Option<&str>) -> (r: String)
    ensures
        r@ == resolved_cwd(
            cwd@,
            config_dir@,
            match home {
                Some(h) => Some(h@),
                None => None,
            },
        ),
{
    let v = chars_of(cwd);
    proof {
        reveal_strlit("~/");
        assert("~/"@ =~= seq!['~', '/']);
    }
    let expanded = if v.len() >= 2 && v[0] == '~' && v[1] == '/' && home.is_some() {
        let rest = string_of_range(&v, 2, v.len());
        assert(rest@ =~= cwd@.skip(2));
        assert(cwd@.take(2) =~= seq!['~', '/']);
        match home {
            Some(h) => join_path(h, rest.as_str()),
            None => string_from(cwd),
        }
    } else {
        proof {
            if starts_with(cwd@, "~/"@) {
                assert(cwd@.take(2)[0] == '~' && cwd@.take(2)[1] == '/');
            }
        }
        string_from(cwd)
    };
    let ev = chars_of(expanded.as_str());
    if ev.len() > 0 && ev[0] == '/' {
        expanded
    } else {
        join_path(config_dir, expanded.as_str())
    }
}

// ---------------------------------------------------------------------------
// Bringing a tab up
// ---------------------------------------------------------------------------

/// The rows and columns of a tab's grid, at least one of each.
pub open spec fn grid_of(layout: [u32; 2]) -> (u32, u32) {
    (if layout[0] >= 1 { layout[0] } else { 1 }, if layout[1] >= 1 { layout[1] } else { 1 })
}

/// The grid a tab asks for.
pub fn grid_size(tab: &TabConfig) -> (g: (u32, u32))
    ensures
        g == grid_of(tab.layout),
{
    let rows = if tab.layout[0] >= 1 { tab.layout[0] } else { 1 };
    let cols = if tab.layout[1] >= 1 { tab.layout[1] } else { 1 };
    (rows, cols)
}

/// The next split while building a line of `wanted` panes (a column split
/// downwards, or a row split to the right): split the last pane built in
/// `direction`, until there are `wanted`.
pub fn next_split(built: &Vec<String>, wanted: u32, direction: Direction) -> (r: Option<PaneOpts>)
    ensures
        (built@.len() == 0 || built@.len() >= wanted) ==> r.is_none(),
        (0 < built@.len() < wanted) ==> (r matches Some(o) && o.direction == Some(direction) && o.target.is_some()
            && o.target.unwrap()@ == built@.last()@ && o.name.is_none() && o.command.is_none() && o.cwd.is_none()
            && !o.floating && !o.close_on_exit && o.session.is_none() && o.tab.is_none()),
{
    if built.len() == 0 || built.len() >= wanted as usize {
        return None;
    }
    let target = built[built.len() - 1].clone();
    Some(
        PaneOpts {
            name: None,
            command: None,
            cwd: None,
            direction: Some(direction),
            floating: false,
            close_on_exit: false,
            session: None,
            tab: None,
            target: Some(target),
        },
    )
}

/// A step of setting up a pane after the grid is built.
#[derive(Debug, Clone)]
pub enum SetupStep {
    /// Give the pane a name.
    Rename(String),
    /// Type text into the pane (`Enter` presses the key).
    Type(String),
    /// Wait a moment (for a `cd` to finish before the command).
    Pause,
}

/// A setup step as text.
pub ghost enum StepView {
    Rename(Seq<char>),
    Type(Seq<char>),
    Pause,
}

/// The view of a setup step.
pub open spec fn step_view(s: SetupStep) -> StepView {
    match s {
        SetupStep::Rename(n) => StepView::Rename(n@),
        SetupStep::Type(t) => StepView::Type(t@),
        SetupStep::Pause => StepView::Pause,
    }
}

/// Setting up a configured pane: name it, `cd` to its directory (then
/// Enter, then a pause), type its command (then Enter) — each as far as the
/// configuration gives it.
pub open spec fn setup_of(pc: PaneConfig, config_dir: Seq<char>, home: Option<Seq<char>>) -> Seq<StepView> {
    (match pc.name {
        Some(n) => seq![StepView::Rename(n@)],
        None => seq![],
    }) + (match pc.cwd {
        Some(c) => seq![
            StepView::Type("cd "@ + resolved_cwd(c@, config_dir, home)),
            StepView::Type("Enter"@),
            StepView::Pause,
        ],
        None => seq![],
    }) + (match pc.command {
        Some(cmd) => seq![StepView::Type(cmd@), StepView::Type("Enter"@)],
        None => seq![],
    })
}

/// Setting up a pane submits what it types: a configured command is typed
/// last and followed by the Enter key, a configured directory is entered
/// with `cd`, Enter and then a pause before anything else is typed, and
/// every typed line other than the key itself is followed at once by
/// Enter. A configured name is given first, by a rename.
pub proof fn lemma_setup_submits_typed_lines(pc: PaneConfig, config_dir: Seq<char>, home: Option<Seq<char>>)
    ensures
        ({
            let s = setup_of(pc, config_dir, home);
            let enter = seq!['E', 'n', 't', 'e', 'r'];
            &&& pc.command is Some ==> s.len() >= 2 && s[s.len() - 2] == StepView::Type(pc.command.unwrap()@)
                && s[s.len() - 1] == StepView::Type(enter)
            &&& pc.command is None ==> (s.len() == 0 || s[s.len() - 1] !is Type || pc.cwd is None)
            &&& pc.name is Some ==> s.len() >= 1 && s[0] == StepView::Rename(pc.name.unwrap()@)
            &&& pc.cwd is Some ==> {
                let k: int = if pc.name is Some { 1 } else { 0 };
                &&& s.len() >= k + 3
                &&& s[k] is Type && s[k]->Type_0.len() >= 3 && s[k]->Type_0.take(3) == seq!['c', 'd', ' ']
                &&& s[k + 1] == StepView::Type(enter)
                &&& s[k + 2] == StepView::Pause
            }
            &&& forall|k: int|
                0 <= k < s.len() && (#[trigger] s[k]) is Type && s[k] != StepView::Type(enter) ==> k + 1 < s.len()
                    && s[k + 1] == StepView::Type(enter)
        }),
{
    reveal_strlit("Enter");
    reveal_strlit("cd ");
    let enter = seq!['E', 'n', 't', 'e', 'r'];
    assert("Enter"@ =~= enter);
    let a: Seq<StepView> = match pc.name {
        Some(n) => seq![StepView::Rename(n@)],
        None => seq![],
    };
    let b: Seq<StepView> = match pc.cwd {
        Some(c) => seq![
            StepView::Type("cd "@ + resolved_cwd(c@, config_dir, home)),
            StepView::Type("Enter"@),
            StepView::Pause,
        ],
        None => seq![],
    };
    let c: Seq<StepView> = match pc.command {
        Some(cmd) => seq![StepView::Type(cmd@), StepView::Type("Enter"@)],
        None => seq![],
    };
    let s = setup_of(pc, config_dir, home);
    assert(s == a + b + c);
    if pc.cwd is Some {
        let t = "cd "@ + resolved_cwd(pc.cwd.unwrap()@, config_dir, home);
        assert(t.take(3) =~= seq!['c', 'd', ' ']);
    }
    assert forall|k: int|
        0 <= k < s.len() && (#[trigger] s[k]) is Type && s[k] != StepView::Type(enter) implies k + 1 < s.len()
            && s[k + 1] == StepView::Type(enter) by {
        if k < a.len() {
        } else if k < a.len() + b.len() {
            assert(s[k] == b[k - a.len()]);
            assert(k - a.len() == 0);
            assert(s[k + 1] == b[1]);
        } else {
            assert(s[k] == c[k - a.len() - b.len()]);
            assert(k - a.len() - b.len() == 0);
            assert(s[k + 1] == c[1]);
        }
    }
}

fn push_step(steps: &mut Vec<SetupStep>, s: SetupStep)
    ensures
        final(steps)@.map_values(|x: SetupStep| step_view(x)) == old(steps)@.map_values(|x: SetupStep| step_view(x)).push(step_view(s)),
{
    let ghost s0 = steps@.map_values(|x: SetupStep| step_view(x));
    steps.push(s);
    assert(steps@.map_values(|x: SetupStep| step_view(x)) =~= s0.push(step_view(s)));
}

/// The steps that set up a configured pane.
pub fn pane_setup(pc: &PaneConfig, config_dir: &str, home: Option<&str>) -> (steps: Vec<SetupStep>)
    ensures
        steps@.map_values(|x: SetupStep| step_view(x)) == setup_of(
            *pc,
            config_dir@,
            match home {
                Some(h) => Some(h@),
                None => None,
            },
        ),
{
    let ghost hv = match home {
        Some(h) => Some(h@),
        None => None,
    };
    let mut steps: Vec<SetupStep> = Vec::new();
    if let Some(n) = &pc.name {
        push_step(&mut steps, SetupStep::Rename(n.clone()));
    }
    let ghost a = steps@.map_values(|x: SetupStep| step_view(x));
    if let Some(c) = &pc.cwd {
        let mut cd = string_from("cd ");
        cd.append(resolve_cwd(c.as_str(), config_dir, home).as_str());
        push_step(&mut steps, SetupStep::Type(cd));
        push_step(&mut steps, SetupStep::Type(string_from("Enter")));
        push_step(&mut steps, SetupStep::Pause);
    }
    let ghost b = steps@.map_values(|x: SetupStep| step_view(x));
    if let Some(cmd) = &pc.command {
        push_step(&mut steps, SetupStep::Type(cmd.clone()));
        push_step(&mut steps, SetupStep::Type(string_from("Enter")));
    }
    assert(steps@.map_values(|x: SetupStep| step_view(x)) =~= setup_of(*pc, config_dir@, hv));
    steps
}

/// What Locus records of a pane that bringing a workspace up made.
pub fn workspace_pane(pane_id: &String, pc: Option<&PaneConfig>, tab: &TabId, config_dir: &str, home: Option<&str>) -> (p: Pane)
    ensures
        p.id.0@ == pane_id@,
        p.name == (match pc {
            Some(c) => c.name,
            None => None,
        }),
        p.command == (match pc {
            Some(c) => c.command,
            None => None,
        }),
        match pc {
            Some(c) => match c.cwd {
                Some(d) => p.cwd.is_some() && p.cwd.unwrap()@ == resolved_cwd(
                    d@,
                    config_dir@,
                    match home {
                        Some(h) => Some(h@),
                        None => None,
                    },
                ),
                None => p.cwd.is_none(),
            },
            None => p.cwd.is_none(),
        },
        !p.floating,
        !p.focused,
        p.tab.0@ == tab.0@,
        p.session.0@ == "current"@,
{
    let (name, command, cwd) = match pc {
        Some(c) => {
            let name = match &c.name {
                Some(n) => Some(n.clone()),
                None => None,
            };
            let command = match &c.command {
                Some(n) => Some(n.clone()),
                None => None,
            };
            let cwd = match &c.cwd {
                Some(d) => Some(resolve_cwd(d.as_str(), config_dir, home)),
                None => None,
            };
            (name, command, cwd)
        },
        None => (None, None, None),
    };
    Pane {
        id: PaneId(pane_id.clone()),
        name,
        command,
        cwd,
        floating: false,
        focused: false,
        tab: TabId(tab.0.clone()),
        session: SessionId(string_from("current")),
    }
}

// ---------------------------------------------------------------------------
// Choosing the workspace
// ---------------------------------------------------------------------------

/// The position of the first workspace named `name`.
pub open spec fn find_named(ws: Seq<(String, WorkspaceConfig)>, name: Seq<char>) -> Option<int>
    decreases ws.len(),
{
    if ws.len() == 0 {
        None
    } else if ws[0].0@ == name {
        Some(0)
    } else {
        match find_named(ws.skip(1), name) {
            Some(i) => Some(i + 1),
            None => None,
        }
    }
}

/// The workspace asked for, or else the first one, or else none ("").
pub open spec fn chosen_name(ws: Seq<(String, WorkspaceConfig)>, requested: Option<String>) -> Seq<char> {
    match requested {
        Some(n) => n@,
        None => if ws.len() > 0 {
            ws[0].0@
        } else {
            seq![]
        },
    }
}

/// Which workspace to bring up: its name and position, or the name that
/// was not found with the names that are there.
pub fn select_workspace(config: &LocusConfig, requested: &Option<String>) -> (r: Result<(String, usize), (String, Vec<String>)>)
    ensures
        match r {
            Ok((name, i)) => name@ == chosen_name(config.workspaces@, *requested) && find_named(
                config.workspaces@,
                name@,
            ) == Some(i as int),
            Err((name, available)) => name@ == chosen_name(config.workspaces@, *requested) && find_named(
                config.workspaces@,
                name@,
            ).is_none() && strs(available@) == config.workspaces@.map_values(|e: (String, WorkspaceConfig)| e.0@),
        },
{
    let ws = &config.workspaces;
    let name: String = match requested {
        Some(n) => n.clone(),
        None => if ws.len() > 0 {
            ws[0].0.clone()
        } else {
            String::new()
        },
    };
    assert(name@ == chosen_name(config.workspaces@, *requested));
    let mut i: usize = 0;
    assert(ws@.skip(0) =~= ws@);
    while i < ws.len()
        invariant
            i <= ws@.len(),
            ws@ == config.workspaces@,
            name@ == chosen_name(config.workspaces@, *requested),
            find_named(ws@, name@) == match find_named(ws@.skip(i as int), name@) {
                Some(k) => Some(k + i),
                None => None,
            },
        decreases ws@.len() - i,
    {
        assert(ws@.skip(i as int)[0] == ws@[i as int]);
        assert(ws@.skip(i as int).skip(1) =~= ws@.skip(i + 1));
        if ws[i].0 == name {
            assert(find_named(ws@.skip(i as int), name@) == Some(0int));
            return Ok((name, i));
        }
        i = i + 1;
    }
    let mut available: Vec<String> = Vec::new();
    let mut k: usize = 0;
    while k < ws.len()
        invariant
            k <= ws@.len(),
            strs(available@) == ws@.map_values(|e: (String, WorkspaceConfig)| e.0@).take(k as int),
        decreases ws@.len() - k,
    {
        let ghost a0 = strs(available@);
        available.push(ws[k].0.clone());
        assert(strs(available@) =~= a0.push(ws@[k as int].0@));
        assert(ws@.map_values(|e: (String, WorkspaceConfig)| e.0@).take(k + 1) =~= a0.push(ws@[k as int].0@));
        k = k + 1;
    }
    assert(ws@.map_values(|e: (String, WorkspaceConfig)| e.0@).take(k as int) =~= ws@.map_values(|e: (String, WorkspaceConfig)| e.0@));
    Err((name, available))
}

/// What is reported once a workspace is up.
pub fn up_summary(name: &str, tabs: usize, panes: usize) -> (m: String)
    ensures
        m@ == "Workspace '"@ + name@ + "' up: "@ + dec(tabs as nat) + " tab(s), "@ + dec(panes as nat) + " pane(s)"@,
{
    let mut m = string_from("Workspace '");
    m.append(name);
    m.append("' up: ");
    push_dec(&mut m, tabs as u64);
    m.append(" tab(s), ");
    push_dec(&mut m, panes as u64);
    m.append(" pane(s)");
    m
}

} // verus!

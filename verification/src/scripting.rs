//! Workspace templates: Rhai scripts whose `workspace(params)` function
//! returns a workspace configuration.
//!
//! The script runs in a Rhai engine; what it returns is read back as a
//! `ScriptValue` (maps, arrays, strings, integers) and checked here.

use vstd::prelude::*;
use crate::activations::workspace::{join_path, PaneConfig, TabConfig, WorkspaceConfig};
use crate::text::{chars_of, eq_str, string_from};
use rhai::{Dynamic, Engine, AST};

verus! {

/// A value a template script returns.
#[derive(Debug)]
pub enum ScriptValue {
    /// A map from keys to values (each key once).
    Table(Vec<(String, ScriptValue)>),
    /// An array.
    Array(Vec<ScriptValue>),
    /// A string.
    Str(String),
    /// An integer.
    Int(i64),
    /// Anything else.
    Other,
}

/// The value filed under `key`, if any (the first such).
pub open spec fn lookup(m: Seq<(String, ScriptValue)>, key: Seq<char>) -> Option<ScriptValue>
    decreases m.len(),
{
    if m.len() == 0 {
        None
    } else if m[0].0@ == key {
        Some(m[0].1)
    } else {
        lookup(m.skip(1), key)
    }
}

/// The string a value holds, if it is one.
pub open spec fn text_of(v: Option<ScriptValue>) -> Option<String> {
    match v {
        Some(ScriptValue::Str(s)) => Some(s),
        _ => None,
    }
}

/// A pane entry: a map whose `name`, `command` and `cwd` are taken when they
/// are strings; anything but a map is refused.
pub open spec fn pane_of(v: ScriptValue) -> Option<PaneConfig> {
    match v {
        ScriptValue::Table(m) => Some(
            PaneConfig {
                name: text_of(lookup(m@, "name"@)),
                command: text_of(lookup(m@, "command"@)),
                cwd: text_of(lookup(m@, "cwd"@)),
            },
        ),
        _ => None,
    }
}

/// Whether every entry is a map.
pub open spec fn all_maps(a: Seq<ScriptValue>) -> bool {
    forall|i: int| 0 <= i < a.len() ==> (#[trigger] a[i]) is Table
}

/// A tab's `[rows, cols]`: `[1, 1]` when missing or shorter than two,
/// otherwise its first two entries, which must be integers (taken modulo
/// 2^32).
pub open spec fn layout_of(m: Seq<(String, ScriptValue)>) -> Result<(u32, u32), Seq<char>> {
    match lookup(m, "layout"@) {
        None => Ok((1, 1)),
        Some(ScriptValue::Array(a)) => if a@.len() >= 2 {
            match a@[0] {
                ScriptValue::Int(r) => match a@[1] {
                    ScriptValue::Int(c) => Ok((r as u32, c as u32)),
                    _ => Err("layout[1] must be integer"@),
                },
                _ => Err("layout[0] must be integer"@),
            }
        } else {
            Ok((1, 1))
        },
        Some(_) => Err("'layout' must be [rows, cols]"@),
    }
}

/// Why a tab entry is refused, if it is.
pub open spec fn tab_error(v: ScriptValue) -> Option<Seq<char>> {
    match v {
        ScriptValue::Table(m) => match layout_of(m@) {
            Err(e) => Some(e),
            Ok(_) => match lookup(m@, "panes"@) {
                None => None,
                Some(ScriptValue::Array(a)) => if all_maps(a@) {
                    None
                } else {
                    Some("pane entry must be a map"@)
                },
                Some(_) => Some("'panes' must be an array"@),
            },
        },
        _ => Some("tab entry must be a map"@),
    }
}

/// `t` is what a tab entry gives: named by its `name` (`unnamed` without
/// one), its layout, and its panes in order.
pub open spec fn tab_matches(t: TabConfig, v: ScriptValue) -> bool {
    match v {
        ScriptValue::Table(m) => {
            &&& t.name@ == match text_of(lookup(m@, "name"@)) {
                Some(s) => s@,
                None => "unnamed"@,
            }
            &&& layout_of(m@) == Ok::<(u32, u32), Seq<char>>((t.layout[0], t.layout[1]))
            &&& match lookup(m@, "panes"@) {
                Some(ScriptValue::Array(a)) => t.panes@.len() == a@.len() && forall|i: int|
                    0 <= i < a@.len() ==> Some(#[trigger] t.panes@[i]) == pane_of(a@[i]),
                _ => t.panes@.len() == 0,
            }
        },
        _ => false,
    }
}

/// The first refused tab entry's reason, if any.
pub open spec fn first_tab_error(a: Seq<ScriptValue>) -> Option<Seq<char>>
    decreases a.len(),
{
    if a.len() == 0 {
        None
    } else {
        match tab_error(a[0]) {
            Some(e) => Some(e),
            None => first_tab_error(a.skip(1)),
        }
    }
}

/// Why a template's result is refused, if it is.
pub open spec fn workspace_error(v: ScriptValue) -> Option<Seq<char>> {
    match v {
        ScriptValue::Table(m) => match lookup(m@, "tabs"@) {
            None => Some("workspace result missing 'tabs'"@),
            Some(ScriptValue::Array(a)) => first_tab_error(a@),
            Some(_) => Some("'tabs' must be an array"@),
        },
        _ => Some("workspace() must return a map"@),
    }
}

fn get<'a>(m: &'a Vec<(String, ScriptValue)>, key: &str) -> (r: Option<&'a ScriptValue>)
    ensures
        match lookup(m@, key@) {
            Some(v) => r.is_some() && *r.unwrap() == v,
            None => r.is_none(),
        },
{
    let mut i: usize = 0;
    assert(m@.skip(0) =~= m@);
    while i < m.len()
        invariant
            i <= m@.len(),
            lookup(m@, key@) == lookup(m@.skip(i as int), key@),
        decreases m@.len() - i,
    {
        assert(m@.skip(i as int)[0] == m@[i as int]);
        assert(m@.skip(i as int).skip(1) =~= m@.skip(i + 1));
        let k = chars_of(m[i].0.as_str());
        if eq_str(&k, key) {
            return Some(&m[i].1);
        }
        i = i + 1;
    }
    None
}

fn text(v: Option<&ScriptValue>) -> (r: Option<String>)
    ensures
        r == text_of(
            match v {
                Some(x) => Some(*x),
                None => None,
            },
        ),
{
    match v {
        Some(ScriptValue::Str(s)) => Some(s.clone()),
        _ => None,
    }
}

/// Convert a pane entry.
pub fn value_to_pane_config(v: &ScriptValue) -> (r: Result<PaneConfig, String>)
    ensures
        match pane_of(*v) {
            Some(p) => r == Ok::<PaneConfig, String>(p),
            None => r matches Err(e) && e@ == "pane entry must be a map"@,
        },
{
    match v {
        ScriptValue::Table(m) => Ok(
            PaneConfig { name: text(get(m, "name")), command: text(get(m, "command")), cwd: text(get(m, "cwd")) },
        ),
        _ => Err(string_from("pane entry must be a map")),
    }
}

fn layout_from(m: &Vec<(String, ScriptValue)>) -> (r: Result<[u32; 2], String>)
    ensures
        match layout_of(m@) {
            Ok((a, b)) => r matches Ok(l) && l[0] == a && l[1] == b,
            Err(e) => r matches Err(x) && x@ == e,
        },
{
    match get(m, "layout") {
        None => Ok([1, 1]),
        Some(ScriptValue::Array(a)) => {
            if a.len() >= 2 {
                let r = match &a[0] {
                    ScriptValue::Int(i) => {
                        #[verifier::truncate]
                        let x: u32 = *i as u32;
                        x
                    },
                    _ => return Err(string_from("layout[0] must be integer")),
                };
                let c = match &a[1] {
                    ScriptValue::Int(i) => {
                        #[verifier::truncate]
                        let x: u32 = *i as u32;
                        x
                    },
                    _ => return Err(string_from("layout[1] must be integer")),
                };
                Ok([r, c])
            } else {
                Ok([1, 1])
            }
        },
        Some(_) => Err(string_from("'layout' must be [rows, cols]")),
    }
}

/// Convert a tab entry.
pub fn value_to_tab_config(v: &ScriptValue) -> (r: Result<TabConfig, String>)
    ensures
        match tab_error(*v) {
            Some(e) => r matches Err(x) && x@ == e,
            None => r matches Ok(t) && tab_matches(t, *v),
        },
{
    let m = match v {
        ScriptValue::Table(m) => m,
        _ => return Err(string_from("tab entry must be a map")),
    };
    let name = match text(get(m, "name")) {
        Some(s) => s,
        None => string_from("unnamed"),
    };
    let layout = match layout_from(m) {
        Ok(l) => l,
        Err(e) => return Err(e),
    };
    let mut panes: Vec<PaneConfig> = Vec::new();
    match get(m, "panes") {
        None => {},
        Some(ScriptValue::Array(a)) => {
            let mut i: usize = 0;
            while i < a.len()
                invariant
                    i <= a@.len(),
                    *v == ScriptValue::Table(*m),
                    lookup(m@, "panes"@) == Some(ScriptValue::Array(*a)),
                    layout_of(m@) is Ok,
                    panes@.len() == i,
                    forall|j: int| 0 <= j < i ==> (#[trigger] a@[j]) is Table,
                    forall|j: int| 0 <= j < i ==> Some(#[trigger] panes@[j]) == pane_of(a@[j]),
                decreases a@.len() - i,
            {
                match value_to_pane_config(&a[i]) {
                    Ok(p) => panes.push(p),
                    Err(e) => {
                        assert(!(a@[i as int] is Table));
                        assert(!all_maps(a@));
                        assert(lookup(m@, "panes"@) == Some(ScriptValue::Array(*a)));
                        assert(layout_of(m@) is Ok);
                        assert(tab_error(*v) == Some("pane entry must be a map"@));
                        return Err(e);
                    },
                }
                i = i + 1;
            }
        },
        Some(_) => return Err(string_from("'panes' must be an array")),
    }
    Ok(TabConfig { name, layout, panes })
}

/// Convert what a template's `workspace` function returned.
pub fn value_to_workspace_config(v: &ScriptValue) -> (r: Result<WorkspaceConfig, String>)
    ensures
        match workspace_error(*v) {
            Some(e) => r matches Err(x) && x@ == e,
            None => r matches Ok(w) && workspace_matches(w, *v),
        },
{
    let m = match v {
        ScriptValue::Table(m) => m,
        _ => return Err(string_from("workspace() must return a map")),
    };
    let a = match get(m, "tabs") {
        None => return Err(string_from("workspace result missing 'tabs'")),
        Some(ScriptValue::Array(a)) => a,
        Some(_) => return Err(string_from("'tabs' must be an array")),
    };
    let mut tabs: Vec<TabConfig> = Vec::new();
    let mut i: usize = 0;
    assert(a@.skip(0) =~= a@);
    while i < a.len()
        invariant
            i <= a@.len(),
            *v == ScriptValue::Table(*m),
            lookup(m@, "tabs"@) == Some(ScriptValue::Array(*a)),
            tabs@.len() == i,
            first_tab_error(a@) == first_tab_error(a@.skip(i as int)),
            forall|j: int| 0 <= j < i ==> tab_matches(#[trigger] tabs@[j], a@[j]),
        decreases a@.len() - i,
    {
        assert(a@.skip(i as int)[0] == a@[i as int]);
        assert(a@.skip(i as int).skip(1) =~= a@.skip(i + 1));
        match value_to_tab_config(&a[i]) {
            Ok(t) => tabs.push(t),
            Err(e) => {
                assert(tab_error(a@[i as int]) == Some(e@));
                assert(first_tab_error(a@.skip(i as int)) == Some(e@));
                assert(lookup(m@, "tabs"@) == Some(ScriptValue::Array(*a)));
                assert(workspace_error(*v) == Some(e@));
                return Err(e);
            },
        }
        i = i + 1;
    }
    Ok(WorkspaceConfig { tabs })
}

// ---------------------------------------------------------------------------
// Running templates
// ---------------------------------------------------------------------------

#[verifier::external_type_specification]
#[verifier::external_body]
pub struct ExEngine(rhai::Engine);

#[verifier::external_type_specification]
#[verifier::external_body]
pub struct ExDynamic(rhai::Dynamic);

#[verifier::external_type_specification]
#[verifier::external_body]
pub struct ExAst(rhai::AST);

/// What `std::path::Path::file_name` gives for a path: its final component,
/// unless that is `..` or there is none.
pub uninterp spec fn path_file_name(p: Seq<char>) -> Option<Seq<char>>;

/// What `std::path::Path::parent` gives for a path: the path without its
/// final component, unless it is a root or empty.
pub uninterp spec fn path_parent(p: Seq<char>) -> Option<Seq<char>>;

/// `std::path::Path::file_name` on a string path; the result is named
/// `path_file_name`.
#[verifier::external_body]
fn file_name_of(path: &str) -> (r: Option<String>)
    ensures
        match r {
            Some(n) => path_file_name(path@) == Some(n@),
            None => path_file_name(path@).is_none(),
        },
{
    std::path::Path::new(path).file_name().and_then(|n| n.to_str()).map(|n| n.to_string())
}

/// `std::path::Path::parent` on a string path; the result is named
/// `path_parent`.
#[verifier::external_body]
fn parent_of(path: &str) -> (r: Option<String>)
    ensures
        match r {
            Some(d) => path_parent(path@) == Some(d@),
            None => path_parent(path@).is_none(),
        },
{
    std::path::Path::new(path).parent().and_then(|d| d.to_str()).map(|d| d.to_string())
}

/// The last component of a path, or the path itself when it has none.
pub open spec fn basename_of(p: Seq<char>) -> Seq<char> {
    match path_file_name(p) {
        Some(n) => n,
        None => p,
    }
}

/// The directory part of a path, empty when it has none.
pub open spec fn dirname_of(p: Seq<char>) -> Seq<char> {
    match path_parent(p) {
        Some(d) => d,
        None => seq![],
    }
}

/// `basename("/foo/bar/baz")` is `baz`.
pub fn basename(path: &str) -> (r: String)
    ensures
        r@ == basename_of(path@),
{
    match file_name_of(path) {
        Some(n) => n,
        None => string_from(path),
    }
}

/// `dirname("/foo/bar/baz")` is `/foo/bar`.
pub fn dirname(path: &str) -> (r: String)
    ensures
        r@ == dirname_of(path@),
{
    match parent_of(path) {
        Some(d) => d,
        None => String::new(),
    }
}

/// `rhai::Engine::new`: an engine with the standard packages.
#[verifier::external_body]
fn new_engine() -> (e: Engine) {
    Engine::new()
}

/// `rhai::Engine::set_max_expr_depths`: how deeply expressions may nest,
/// at the top level and inside functions.
#[verifier::external_body]
fn limit_expr_depths(engine: &mut Engine, global: usize, in_functions: usize) {
    engine.set_max_expr_depths(global, in_functions);
}

/// `rhai::Engine::register_fn`, for the path helpers that templates may
/// call: each runs the function of this module with the same name.
#[verifier::external_body]
fn register_path_helpers(engine: &mut Engine) {
    engine.register_fn("basename", |p: &str| -> String { basename(p) });
    engine.register_fn("dirname", |p: &str| -> String { dirname(p) });
    engine.register_fn("join_path", |b: &str, c: &str| -> String { join_path(b, c) });
}

/// An engine for templates: expressions may nest 128 deep, and the path
/// helpers `basename`, `dirname` and `join_path` are there. Callers may
/// register more helpers before running a template.
pub fn create_engine() -> Engine {
    let mut engine = new_engine();
    limit_expr_depths(&mut engine, 128, 128);
    register_path_helpers(&mut engine);
    engine
}

/// `rhai::Engine::compile`; a refusal comes back as its message. Nothing is
/// stated of the result: it depends on the engine, which is opaque here.
#[verifier::external_body]
fn compile_script(engine: &Engine, script: &str) -> (r: Result<AST, String>) {
    engine.compile(script).map_err(|e| e.to_string())
}

/// `rhai::Engine::call_fn`: the script function `name` called with one
/// argument, in a fresh scope; a failure comes back as its message. Nothing
/// is stated of the result: helpers registered on the engine may read the
/// environment.
#[verifier::external_body]
fn call_script_fn(engine: &Engine, ast: &AST, name: &str, arg: Dynamic) -> (r: Result<Dynamic, String>) {
    engine.call_fn::<Dynamic>(&mut rhai::Scope::new(), ast, name, (arg,)).map_err(|e| e.to_string())
}

/// The parameters as a Rhai map of strings (`rhai::Dynamic::from_map`).
#[verifier::external_body]
fn params_value(params: &Vec<(String, String)>) -> (d: Dynamic) {
    Dynamic::from_map(params.iter().map(|(k, v)| (k.as_str().into(), Dynamic::from(v.clone()))).collect())
}

/// A Rhai value read back: maps, arrays, strings and integers as
/// themselves (`rhai::Dynamic::cast`, `into_string`, `as_int`), anything
/// else as `Other`.
#[verifier::external_body]
fn script_value_of(d: Dynamic) -> (v: ScriptValue) {
    if d.is_map() {
        ScriptValue::Table(d.cast::<rhai::Map>().into_iter().map(|(k, x)| (k.to_string(), script_value_of(x))).collect())
    } else if d.is_array() {
        ScriptValue::Array(d.cast::<rhai::Array>().into_iter().map(script_value_of).collect())
    } else if d.is_string() {
        ScriptValue::Str(d.into_string().unwrap_or_default())
    } else if d.is_int() {
        ScriptValue::Int(d.as_int().unwrap_or_default())
    } else {
        ScriptValue::Other
    }
}

/// `w` is the workspace a template's result describes: one tab per entry of
/// its `tabs`, in order.
pub open spec fn workspace_matches(w: WorkspaceConfig, v: ScriptValue) -> bool {
    match v {
        ScriptValue::Table(m) => match lookup(m@, "tabs"@) {
            Some(ScriptValue::Array(a)) => w.tabs@.len() == a@.len() && forall|i: int|
                0 <= i < a@.len() ==> tab_matches(#[trigger] w.tabs@[i], a@[i]),
            _ => false,
        },
        _ => false,
    }
}

/// Run a template: compile `script`, call its `workspace` function with
/// `params` as a map of strings, and read the result as a workspace.
/// Whatever the script does, a workspace that comes back is one that some
/// script result describes, and an error is the compiler's, the run's, or
/// the reason a result is refused.
pub fn evaluate_template(engine: &Engine, script: &str, params: &Vec<(String, String)>) -> (r: Result<WorkspaceConfig, String>)
    ensures
        match r {
            Ok(w) => exists|v: ScriptValue| workspace_error(v).is_none() && #[trigger] workspace_matches(w, v),
            Err(e) => (exists|m: String| e@ == "Script compile error: "@ + (#[trigger] m@))
                || (exists|m: String| e@ == "Script execution error: "@ + (#[trigger] m@))
                || (exists|v: ScriptValue| #[trigger] workspace_error(v) == Some(e@)),
        },
{
    let ast = match compile_script(engine, script) {
        Ok(a) => a,
        Err(m) => {
            let mut e = string_from("Script compile error: ");
            e.append(m.as_str());
            assert(e@ == "Script compile error: "@ + m@);
            return Err(e);
        },
    };
    let result = match call_script_fn(engine, &ast, "workspace", params_value(params)) {
        Ok(d) => d,
        Err(m) => {
            let mut e = string_from("Script execution error: ");
            e.append(m.as_str());
            assert(e@ == "Script execution error: "@ + m@);
            return Err(e);
        },
    };
    let v = script_value_of(result);
    value_to_workspace_config(&v)
}

} // verus!

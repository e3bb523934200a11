use plexus_locus::scripting::{
    basename, create_engine, dirname, evaluate_template, value_to_pane_config, value_to_tab_config,
    value_to_workspace_config, ScriptValue,
};

fn s(v: &str) -> ScriptValue {
    ScriptValue::Str(v.to_string())
}

fn table(entries: Vec<(&str, ScriptValue)>) -> ScriptValue {
    ScriptValue::Table(entries.into_iter().map(|(k, v)| (k.to_string(), v)).collect())
}

#[test]
fn template_result_becomes_workspace() {
    let value = table(vec![(
        "tabs",
        ScriptValue::Array(vec![table(vec![
            ("name", s("dev")),
            ("layout", ScriptValue::Array(vec![ScriptValue::Int(2), ScriptValue::Int(2)])),
            (
                "panes",
                ScriptValue::Array(vec![
                    table(vec![("name", s("agent")), ("command", s("agent-container"))]),
                    table(vec![("cwd", s("/repo")), ("name", ScriptValue::Int(3))]),
                ]),
            ),
        ])]),
    )]);
    let ws = value_to_workspace_config(&value).unwrap();
    assert_eq!(ws.tabs.len(), 1);
    let tab = &ws.tabs[0];
    assert_eq!(tab.name, "dev");
    assert_eq!(tab.layout, [2, 2]);
    assert_eq!(tab.panes.len(), 2);
    assert_eq!(tab.panes[0].name.as_deref(), Some("agent"));
    assert_eq!(tab.panes[0].command.as_deref(), Some("agent-container"));
    assert!(tab.panes[0].cwd.is_none());
    assert!(tab.panes[1].name.is_none());
    assert_eq!(tab.panes[1].cwd.as_deref(), Some("/repo"));
}

#[test]
fn template_defaults() {
    let tab = value_to_tab_config(&table(vec![])).unwrap();
    assert_eq!(tab.name, "unnamed");
    assert_eq!(tab.layout, [1, 1]);
    assert!(tab.panes.is_empty());
    let tab = value_to_tab_config(&table(vec![("layout", ScriptValue::Array(vec![ScriptValue::Int(3)]))])).unwrap();
    assert_eq!(tab.layout, [1, 1]);
}

#[test]
fn template_errors() {
    let err = |v: ScriptValue| value_to_workspace_config(&v).unwrap_err();
    assert_eq!(err(s("x")), "workspace() must return a map");
    assert_eq!(err(table(vec![])), "workspace result missing 'tabs'");
    assert_eq!(err(table(vec![("tabs", s("x"))])), "'tabs' must be an array");
    assert_eq!(err(table(vec![("tabs", ScriptValue::Array(vec![ScriptValue::Other]))])), "tab entry must be a map");
    let tab_err = |v: ScriptValue| value_to_tab_config(&v).unwrap_err();
    assert_eq!(tab_err(table(vec![("layout", s("2x2"))])), "'layout' must be [rows, cols]");
    assert_eq!(
        tab_err(table(vec![("layout", ScriptValue::Array(vec![s("a"), ScriptValue::Int(1)]))])),
        "layout[0] must be integer"
    );
    assert_eq!(
        tab_err(table(vec![("layout", ScriptValue::Array(vec![ScriptValue::Int(1), s("b")]))])),
        "layout[1] must be integer"
    );
    assert_eq!(tab_err(table(vec![("panes", s("p"))])), "'panes' must be an array");
    assert_eq!(tab_err(table(vec![("panes", ScriptValue::Array(vec![ScriptValue::Int(1)]))])), "pane entry must be a map");
    assert_eq!(value_to_pane_config(&ScriptValue::Other).unwrap_err(), "pane entry must be a map");
}

fn params(pairs: &[(&str, &str)]) -> Vec<(String, String)> {
    pairs.iter().map(|(k, v)| (k.to_string(), v.to_string())).collect()
}

#[test]
fn test_simple_template() {
    let script = r#"
        fn workspace(params) {
            let name = params.name;
            #{
                tabs: [
                    #{
                        name: name,
                        layout: [1, 2],
                        panes: [
                            #{ name: "left", command: "echo hello" },
                            #{ name: "right", command: `echo ${name}` },
                        ]
                    }
                ]
            }
        }
    "#;

    let params = params(&[("name", "test-ws")]);

    let config = evaluate_template(&create_engine(), script, &params).unwrap();
    assert_eq!(config.tabs.len(), 1);
    assert_eq!(config.tabs[0].name, "test-ws");
    assert_eq!(config.tabs[0].layout, [1, 2]);
    assert_eq!(config.tabs[0].panes.len(), 2);
    assert_eq!(config.tabs[0].panes[0].name.as_deref(), Some("left"));
    assert_eq!(config.tabs[0].panes[1].command.as_deref(), Some("echo test-ws"));
}

#[test]
fn test_container_dev_template() {
    let script = r#"
        fn workspace(params) {
            let repo = params.repo;
            let session = if "session" in params { params.session } else { basename(repo) };
            let run_cmd = if "run_command" in params { params.run_command } else { "zsh" };

            #{
                tabs: [
                    #{
                        name: session,
                        layout: [2, 2],
                        panes: [
                            #{ name: "agent", command: `agent-container -s ${session} --discover-repos ${repo}` },
                            #{ name: "sandbox", command: `git-sandbox session -s ${session} start -a -l`, cwd: repo },
                            #{ name: "watch", command: `agent-container watch -s ${session} -- agent-container pull -s ${session}` },
                            #{ name: "dev", command: run_cmd, cwd: repo },
                        ]
                    }
                ]
            }
        }
    "#;

    let params = params(&[
        ("repo", "/Users/shmendez/dev/controlflow/hypermemetic"),
        ("run_command", "bun dev"),
    ]);

    let config = evaluate_template(&create_engine(), script, &params).unwrap();
    assert_eq!(config.tabs[0].name, "hypermemetic");
    assert_eq!(
        config.tabs[0].panes[0].command.as_deref(),
        Some("agent-container -s hypermemetic --discover-repos /Users/shmendez/dev/controlflow/hypermemetic")
    );
    assert_eq!(config.tabs[0].panes[3].command.as_deref(), Some("bun dev"));
    assert_eq!(config.tabs[0].panes[1].cwd.as_deref(), Some("/Users/shmendez/dev/controlflow/hypermemetic"));
}

#[test]
fn test_basename_helper() {
    let engine = create_engine();
    let result: String = engine.eval(r#"basename("/foo/bar/baz")"#).unwrap();
    assert_eq!(result, "baz");
}

#[test]
fn path_helpers_from_scripts_and_directly() {
    let engine = create_engine();
    let d: String = engine.eval(r#"dirname("/foo/bar/baz")"#).unwrap();
    assert_eq!(d, "/foo/bar");
    let j: String = engine.eval(r#"join_path("/foo", "bar")"#).unwrap();
    assert_eq!(j, "/foo/bar");
    assert_eq!(basename("/foo/bar/"), "bar");
    assert_eq!(basename("/"), "/");
    assert_eq!(dirname("baz"), "");
    assert_eq!(dirname("/"), "");
}

#[test]
fn template_errors_are_reported() {
    let engine = create_engine();
    let compile = evaluate_template(&engine, "fn workspace(params) { #{ ", &params(&[])).unwrap_err();
    assert!(compile.starts_with("Script compile error: "));
    let run = evaluate_template(&engine, "fn other() { 1 }", &params(&[])).unwrap_err();
    assert!(run.starts_with("Script execution error: "));
    let shape = evaluate_template(&engine, "fn workspace(params) { 42 }", &params(&[])).unwrap_err();
    assert_eq!(shape, "workspace() must return a map");
    let missing = evaluate_template(&engine, "fn workspace(params) { #{ other: 1 } }", &params(&[])).unwrap_err();
    assert_eq!(missing, "workspace result missing 'tabs'");
}

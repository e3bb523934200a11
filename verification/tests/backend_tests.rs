use plexus_locus::backend::BackendError;
use plexus_locus::backends::tmux::TmuxBackend;
use plexus_locus::backends::zellij::Zellij;
use plexus_locus::types::{Direction, PaneOpts, RunOpts, SessionOpts, TabOpts};

fn strs(v: &[String]) -> Vec<&str> {
    v.iter().map(|s| s.as_str()).collect()
}

#[test]
fn backend_error_messages() {
    assert_eq!(BackendError::NotAvailable("x".into()).message(), "backend not available: x");
    assert_eq!(BackendError::SessionNotFound("s".into()).message(), "session not found: s");
    assert_eq!(BackendError::PaneNotFound("p".into()).message(), "pane not found: p");
    assert_eq!(BackendError::TabNotFound("t".into()).message(), "tab not found: t");
    assert_eq!(BackendError::CommandFailed("c".into()).message(), "command failed: c");
    assert_eq!(BackendError::Unsupported("u".into()).message(), "unsupported operation: u");
    assert_eq!(BackendError::Other("plain".into()).message(), "plain");
}

#[test]
fn zellij_ids() {
    assert_eq!(Zellij::make_pane_id(Some("work"), Some("editor")).0, "work:editor");
    assert_eq!(Zellij::make_pane_id(None, None).0, "current:unnamed");
    assert_eq!(Zellij::make_tab_id(Some("work"), 3).0, "work:tab-3");
    assert_eq!(Zellij::make_tab_id(None, 0).0, "current:tab-0");
    assert_eq!(Zellij::new().bin(), "zellij");
    assert_eq!(Zellij::with_bin("/opt/zellij".to_string()).bin(), "/opt/zellij");
}

#[test]
fn zellij_parses_sessions() {
    let out = "main [Created 1h ago] (current)\n\nold [Created 2d ago] (EXITED - attach to resurrect)\n  \nweird (current) EXITED\n";
    let s = Zellij::parse_sessions(out);
    assert_eq!(s.len(), 4);
    assert_eq!(s[0].id.0, "session-0");
    assert_eq!(s[0].name, "main");
    assert!(s[0].attached);
    assert_eq!(s[1].name, "old");
    assert!(!s[1].attached);
    assert_eq!(s[2].name, "unknown");
    assert_eq!(s[2].id.0, "session-2");
    assert!(!s[3].attached);
}

#[test]
fn zellij_parses_tab_names() {
    let tabs = Zellij::parse_tab_names("  editor \n\nlogs\n", Some("dev"));
    assert_eq!(tabs.len(), 2);
    assert_eq!(tabs[0].name.as_deref(), Some("editor"));
    assert_eq!(tabs[0].id.0, "dev:tab-0");
    assert_eq!(tabs[1].index, 1);
    assert_eq!(tabs[1].session.0, "dev");
    assert_eq!(Zellij::parse_tab_names("a", None)[0].session.0, "current");
}

#[test]
fn zellij_requests() {
    let opts = PaneOpts {
        name: Some("ed".into()),
        cwd: Some("/src".into()),
        direction: Some(Direction::Right),
        floating: true,
        session: Some("w".into()),
        ..Default::default()
    };
    let args = Zellij::create_pane_args(&opts);
    assert_eq!(
        strs(&args),
        vec!["--session", "w", "action", "new-pane", "--floating", "--direction", "right", "--name", "ed", "--cwd", "/src"]
    );
    let pane = Zellij::created_pane(&opts);
    assert_eq!(pane.id.0, "w:ed");
    assert_eq!(pane.tab.0, "current");

    let run = RunOpts { command: "  ".into(), ..Default::default() };
    assert!(matches!(Zellij::run_command_args(&run), Err(BackendError::CommandFailed(m)) if m == "empty command"));
    let run = RunOpts { command: "cargo  test --all".into(), close_on_exit: true, ..Default::default() };
    let args = Zellij::run_command_args(&run).unwrap();
    assert_eq!(strs(&args), vec!["run", "--close-on-exit", "--", "cargo", "test", "--all"]);
    assert_eq!(Zellij::run_pane(&run).command.as_deref(), Some("cargo  test --all"));

    let tab = TabOpts { name: Some("t".into()), layout: Some("l".into()), ..Default::default() };
    assert_eq!(strs(&Zellij::create_tab_args(&tab)), vec!["action", "new-tab", "--name", "t", "--layout-dir", "l"]);
    assert_eq!(Zellij::created_tab(&tab).id.0, "current:tab-0");
    let s = Zellij::created_session(&SessionOpts { name: "n".into(), ..Default::default() });
    assert_eq!((s.id.0.as_str(), s.tabs, s.panes, s.attached), ("n", 1, 1, false));
}

#[test]
fn tmux_listings() {
    let out = "$1 main 3 1\n$2 other x 0\nshort 1\n";
    let s = TmuxBackend::sessions_from_listing(out);
    assert_eq!(s.len(), 2);
    assert_eq!((s[0].id.0.as_str(), s[0].name.as_str(), s[0].tabs, s[0].attached), ("$1", "main", 3, true));
    assert_eq!((s[1].tabs, s[1].attached), (0, false));

    let t = TmuxBackend::tabs_from_listing("@1 code 0 2 1 main\n@2 logs 1 1 0 main\n", None);
    assert_eq!(t.len(), 2);
    assert_eq!((t[0].id.0.as_str(), t[0].index, t[0].pane_count, t[0].focused), ("@1", 0, 2, true));
    assert_eq!(t[1].session.0, "current");

    let p = TmuxBackend::panes_from_listing("%1 title vim /home 1 @1 0 main\n%2 t bash /tmp 0 @1 0\n");
    assert_eq!(p.len(), 1);
    assert_eq!(p[0].cwd.as_deref(), Some("/home"));
    assert!(p[0].focused);
    assert_eq!(p[0].session.0, "main");

    let rows = TmuxBackend::parse_format_output("a b\n\n c \n");
    assert_eq!(rows, vec![vec!["a".to_string(), "b".to_string()], vec!["c".to_string()]]);
}

#[test]
fn tmux_requests() {
    assert_eq!(TmuxBackend::window_target(Some("main"), 2), "main:2");
    assert_eq!(TmuxBackend::window_target(None, 7), ":7");
    let args = TmuxBackend::split_window_args(Some(Direction::Left), &None, &Some("s".into()), &Some("/w".into()));
    assert_eq!(
        strs(&args),
        vec!["split-window", "-d", "-P", "-F", "#{pane_id} #{window_id} #{session_name}", "-h", "-b", "-t", "s", "-c", "/w"]
    );
    let args = TmuxBackend::split_window_args(Some(Direction::Down), &Some("%3".into()), &Some("s".into()), &None);
    assert_eq!(strs(&args)[5..], ["-t", "%3"]);
    let (p, t, s) = TmuxBackend::split_output_ids("%9 @2\n");
    assert_eq!((p.0.as_str(), t.0.as_str(), s.0.as_str()), ("%9", "@2", "current"));
    assert_eq!(strs(&TmuxBackend::resize_args(Direction::Up, None, Some("%1"))), vec!["resize-pane", "-U", "5", "-t", "%1"]);
    assert_eq!(strs(&TmuxBackend::capture_args(true, None)), vec!["capture-pane", "-p", "-S", "-"]);
    assert_eq!(strs(&TmuxBackend::send_keys_args("ls", Some("%2"))), vec!["send-keys", "-t", "%2", "ls"]);
    let tab = TmuxBackend::tab_from_new_window("@5 3", &TabOpts::default());
    assert_eq!((tab.id.0.as_str(), tab.index), ("@5", 3));
    let sess = TmuxBackend::session_from_new_session("  $4 \n", &SessionOpts { name: "n".into(), ..Default::default() });
    assert_eq!(sess.id.0, "$4");
}

#[test]
fn tmux_refuses_to_close_own_pane() {
    let t = TmuxBackend::with_own_pane(Some("%1".into()));
    assert!(matches!(t.close_pane_args(Some("%1")), Err(BackendError::CommandFailed(m)) if m == "refusing to close locus's own pane"));
    assert_eq!(strs(&t.close_pane_args(Some("%2")).unwrap()), vec!["kill-pane", "-t", "%2"]);
    assert_eq!(strs(&t.close_pane_args(None).unwrap()), vec!["kill-pane"]);
    assert_eq!(t.bin(), "tmux");
}

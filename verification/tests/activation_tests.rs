use plexus_locus::activations::info::{status_event, InfoActivation};
use plexus_locus::activations::outcome::{error_event, outcome_event};
use plexus_locus::activations::panes::{
    direction_or_error, exec_script, exec_state_file, poll_event, read_exec_state, screen_diff,
    screen_diff_event, screen_tail, shell_escape, ExecState, exec_wait_step, exit_capture_lines, settle_step, ExecWaitAction, ScreenRead, SettleAction,
};
use plexus_locus::activations::sessions::{first_session_name, killed_message};
use plexus_locus::activations::tabs::{closed_tab_message, initial_pane, renamed_tab_message};
use plexus_locus::activations::workspace::{
    default_layout, grid_size, join_path, next_split, pane_setup, resolve_cwd, select_workspace,
    up_summary, workspace_pane, LocusConfig, PaneConfig, SetupStep, TabConfig, WorkspaceConfig,
};
use plexus_locus::backend::BackendError;
use plexus_locus::types::{parse_direction, Direction, LocusEvent, Pane, PaneId, Session, SessionId, TabId};
use std::sync::Arc;

#[test]
fn shell_escape_quotes_single_quotes() {
    assert_eq!(shell_escape("abc"), "'abc'");
    assert_eq!(shell_escape("it's"), "'it'\\''s'");
    assert_eq!(shell_escape(""), "''");
}

#[test]
fn exec_state_path_replaces_percent() {
    assert_eq!(exec_state_file("%12"), "/tmp/plexus_locus_exec_state/pane_12");
}

#[test]
fn exec_script_text() {
    let s = exec_script("/tmp/st", "/tmp/sc.sh", Some("/w d"), "echo hi");
    let expected = "#!/bin/bash\n\
__PLEXUS_LOCUS_EXEC_STATE_FILE='/tmp/st'\n\
__PLEXUS_LOCUS_EXEC_SCRIPT_FILE='/tmp/sc.sh'\n\
rm -f \"$__PLEXUS_LOCUS_EXEC_SCRIPT_FILE\"\n\
cd '/w d' || { echo \"exited:1\" > \"$__PLEXUS_LOCUS_EXEC_STATE_FILE\"; exit 1; }\n\
cat > \"$__PLEXUS_LOCUS_EXEC_STATE_FILE\" << '__PLEXUS_LOCUS_STATE_EOF__'\n\
started\n\
echo hi\n\
__PLEXUS_LOCUS_STATE_EOF__\n\
echo hi\n\
__PLEXUS_LOCUS_EXEC_EXIT_CODE=$?\n\
cat > \"$__PLEXUS_LOCUS_EXEC_STATE_FILE\" << __PLEXUS_LOCUS_STATE_EOF__\n\
exited:$__PLEXUS_LOCUS_EXEC_EXIT_CODE\n\
echo hi\n\
__PLEXUS_LOCUS_STATE_EOF__\n\
exit $__PLEXUS_LOCUS_EXEC_EXIT_CODE\n";
    assert_eq!(s, expected);
    assert!(!exec_script("/a", "/b", None, "x").contains("cd "));
}

#[test]
fn exec_state_reading() {
    assert_eq!(read_exec_state("started\nls\n"), Some(ExecState::Started));
    assert_eq!(read_exec_state("  exited:3  \nls"), Some(ExecState::Exited(Some(3))));
    assert_eq!(read_exec_state("exited:-1"), Some(ExecState::Exited(Some(-1))));
    assert_eq!(read_exec_state("exited:oops"), Some(ExecState::Exited(None)));
    assert_eq!(read_exec_state("exited:99999999999"), Some(ExecState::Exited(None)));
    assert_eq!(read_exec_state("waiting"), None);
    assert_eq!(read_exec_state(""), None);
}

#[test]
fn poll_events() {
    match poll_event("%3".into(), "started\ncargo test\n", None) {
        LocusEvent::CommandStarted { pane, command, capture } => {
            assert_eq!(pane.0, "%3");
            assert_eq!(command, "cargo test");
            assert!(capture.is_none());
        }
        other => panic!("unexpected {other:?}"),
    }
    match poll_event("%3".into(), "exited:0\nmake", Some("done".into())) {
        LocusEvent::CommandExited { exit_code, command, capture, .. } => {
            assert_eq!(exit_code, Some(0));
            assert_eq!(command, "make");
            assert_eq!(capture.as_deref(), Some("done"));
        }
        other => panic!("unexpected {other:?}"),
    }
    match poll_event("%3".into(), " weird \n", None) {
        LocusEvent::Error { message } => assert_eq!(message, "Unknown exec state for pane %3: weird"),
        other => panic!("unexpected {other:?}"),
    }
}

#[test]
fn screen_tails_and_diffs() {
    assert_eq!(screen_tail("a\nb\nc\n", 2), "b\nc");
    assert_eq!(screen_tail("a\nb", 5), "a\nb");
    assert_eq!(screen_tail("a\nb", 0), "");
    let (b, a, new) = screen_diff("$ \n", "$ ls\nfile\n$ \n");
    assert_eq!((b, a), (1, 3));
    assert_eq!(new, "file\n$ ");
    let (_, _, new) = screen_diff("x\ny\nz", "x\nQ\nz");
    assert_eq!(new, "Q\nz");
    let (_, _, new) = screen_diff("x\ny", "x\ny");
    assert_eq!(new, "");
    match screen_diff_event("%1".into(), "a", "a\nb") {
        LocusEvent::ScreenDiff { before_lines, after_lines, new_content, .. } => {
            assert_eq!((before_lines, after_lines, new_content.as_str()), (1, 2, "b"));
        }
        other => panic!("unexpected {other:?}"),
    }
}

#[test]
fn directions() {
    assert_eq!(parse_direction("left"), Some(Direction::Left));
    assert_eq!(parse_direction("LEFT"), None);
    assert_eq!(Direction::Down.as_str(), "down");
    assert!(matches!(direction_or_error("up"), Ok(Direction::Up)));
    assert_eq!(direction_or_error("sideways").unwrap_err(), "Invalid direction: sideways");
}

#[test]
fn events_and_messages() {
    match status_event("tmux", true) {
        LocusEvent::Success { message } => assert_eq!(message, "Backend 'tmux' is available"),
        other => panic!("unexpected {other:?}"),
    }
    match status_event("zellij", false) {
        LocusEvent::Error { message } => assert_eq!(message, "Backend 'zellij' is not available"),
        other => panic!("unexpected {other:?}"),
    }
    match error_event(&BackendError::PaneNotFound("%4".into())) {
        LocusEvent::Error { message } => assert_eq!(message, "pane not found: %4"),
        other => panic!("unexpected {other:?}"),
    }
    assert!(matches!(outcome_event(&Ok(()), "Pane closed".into()), LocusEvent::Success { message } if message == "Pane closed"));
    assert_eq!(killed_message("dev"), "Killed session: dev");
    assert_eq!(closed_tab_message(4), "Closed tab 4");
    assert_eq!(renamed_tab_message(2, "logs"), "Renamed tab 2 to logs");
    let info = InfoActivation::new(Arc::new(5u8));
    assert_eq!(*info.backend, 5);
}

#[test]
fn initial_pane_is_first_in_tab() {
    let pane = |id: &str, tab: &str| Pane {
        id: PaneId(id.into()),
        name: None,
        command: None,
        cwd: None,
        floating: false,
        focused: false,
        tab: TabId(tab.into()),
        session: SessionId("s".into()),
    };
    let panes = vec![pane("%1", "@1"), pane("%2", "@2"), pane("%3", "@2")];
    assert_eq!(initial_pane(&panes, &TabId("@2".into())), Some(PaneId("%2".into())));
    assert_eq!(initial_pane(&panes, &TabId("@9".into())), None);
}

#[test]
fn paths_and_cwds() {
    assert_eq!(join_path("/a", "b"), "/a/b");
    assert_eq!(join_path("/a/", "b"), "/a/b");
    assert_eq!(join_path("", "b"), "b");
    assert_eq!(join_path("/a", "/b"), "/b");
    assert_eq!(resolve_cwd("~/src", "/cfg", Some("/home/u")), "/home/u/src");
    assert_eq!(resolve_cwd("~/src", "/cfg", None), "/cfg/~/src");
    assert_eq!(resolve_cwd("/abs", "/cfg", Some("/h")), "/abs");
    assert_eq!(resolve_cwd("rel/dir", "/cfg", Some("/h")), "/cfg/rel/dir");
}

#[test]
fn workspace_grid_and_setup() {
    assert_eq!(default_layout(), [1, 1]);
    let tab = TabConfig { name: "t".into(), layout: [0, 3], panes: vec![] };
    assert_eq!(grid_size(&tab), (1, 3));
    let built = vec!["%1".to_string()];
    let split = next_split(&built, 2, Direction::Down).unwrap();
    assert_eq!(split.target.as_deref(), Some("%1"));
    assert_eq!(split.direction, Some(Direction::Down));
    assert!(next_split(&built, 1, Direction::Down).is_none());
    assert!(next_split(&Vec::new(), 3, Direction::Right).is_none());

    let pc = PaneConfig { name: Some("api".into()), command: Some("cargo run".into()), cwd: Some("svc".into()) };
    let steps = pane_setup(&pc, "/proj", None);
    assert_eq!(steps.len(), 6);
    assert!(matches!(&steps[0], SetupStep::Rename(n) if n == "api"));
    assert!(matches!(&steps[1], SetupStep::Type(t) if t == "cd /proj/svc"));
    assert!(matches!(&steps[2], SetupStep::Type(t) if t == "Enter"));
    assert!(matches!(&steps[3], SetupStep::Pause));
    assert!(matches!(&steps[4], SetupStep::Type(t) if t == "cargo run"));
    let none = PaneConfig { name: None, command: None, cwd: None };
    assert!(pane_setup(&none, "/proj", None).is_empty());

    let p = workspace_pane(&"%5".to_string(), Some(&pc), &TabId("@1".into()), "/proj", None);
    assert_eq!(p.cwd.as_deref(), Some("/proj/svc"));
    assert_eq!(p.session.0, "current");
    assert!(workspace_pane(&"%6".to_string(), None, &TabId("@1".into()), "/proj", None).name.is_none());
    assert_eq!(up_summary("dev", 2, 5), "Workspace 'dev' up: 2 tab(s), 5 pane(s)");
}

#[test]
fn choosing_a_workspace() {
    let config = LocusConfig {
        workspaces: vec![
            ("first".to_string(), WorkspaceConfig { tabs: vec![] }),
            ("second".to_string(), WorkspaceConfig { tabs: vec![] }),
        ],
    };
    assert_eq!(select_workspace(&config, &None).unwrap(), ("first".to_string(), 0));
    assert_eq!(select_workspace(&config, &Some("second".into())).unwrap(), ("second".to_string(), 1));
    let (name, available) = select_workspace(&config, &Some("third".into())).unwrap_err();
    assert_eq!(name, "third");
    assert_eq!(available, vec!["first".to_string(), "second".to_string()]);
    let empty = LocusConfig { workspaces: vec![] };
    assert_eq!(select_workspace(&empty, &None).unwrap_err().0, "");
}

#[test]
fn exec_state_reads_back_what_the_script_writes() {
    let command = "cargo test --all";
    let started = format!("started\n{}\n", command);
    assert_eq!(read_exec_state(&started), Some(ExecState::Started));
    for code in [0u32, 1, 42, 255] {
        let exited = format!("exited:{}\n{}\n", code, command);
        assert_eq!(read_exec_state(&exited), Some(ExecState::Exited(Some(code as i32))));
        match poll_event("%4".to_string(), &exited, None) {
            LocusEvent::CommandExited { pane, command: c, exit_code, capture } => {
                assert_eq!(pane.0, "%4");
                assert_eq!(c, command);
                assert_eq!(exit_code, Some(code as i32));
                assert!(capture.is_none());
            }
            other => panic!("unexpected event {:?}", other),
        }
    }
}

#[test]
fn first_listed_session_is_recorded() {
    assert_eq!(first_session_name(&vec![]), None);
    let s = |id: &str, name: &str| Session { id: SessionId(id.to_string()), name: name.to_string(), tabs: 1, panes: 1, attached: false };
    assert_eq!(first_session_name(&vec![s("$1", "work"), s("$2", "play")]), Some("work".to_string()));
}

#[test]
fn waiting_for_an_exec() {
    // Before the start: the state file decides; the pane is checked every 25th poll.
    assert_eq!(exec_wait_step(Some(ExecState::Started), false, 3, None), ExecWaitAction::Started);
    assert_eq!(exec_wait_step(Some(ExecState::Exited(Some(2))), false, 25, None), ExecWaitAction::Exited(Some(2)));
    assert_eq!(exec_wait_step(None, false, 24, None), ExecWaitAction::KeepWaiting);
    assert_eq!(exec_wait_step(None, false, 25, None), ExecWaitAction::CheckPane);
    assert_eq!(exec_wait_step(None, false, 50, Some(false)), ExecWaitAction::PaneGone);
    assert_eq!(exec_wait_step(None, false, 50, Some(true)), ExecWaitAction::KeepWaiting);
    // Waiting for the exit: a start is no news, the pane is checked every time.
    assert_eq!(exec_wait_step(Some(ExecState::Started), true, 1, None), ExecWaitAction::CheckPane);
    assert_eq!(exec_wait_step(Some(ExecState::Started), true, 1, Some(true)), ExecWaitAction::KeepWaiting);
    assert_eq!(exec_wait_step(Some(ExecState::Started), true, 1, Some(false)), ExecWaitAction::PaneGone);
    assert_eq!(exec_wait_step(Some(ExecState::Exited(None)), true, 1, None), ExecWaitAction::Exited(None));
    assert_eq!(exit_capture_lines(0), 20);
    assert_eq!(exit_capture_lines(7), 7);
}

#[test]
fn waiting_for_a_screen_to_settle() {
    assert_eq!(settle_step(ScreenRead::Pending, 0, 100, 500, 10000), SettleAction::Capture);
    assert_eq!(settle_step(ScreenRead::Pending, 0, 10001, 500, 10000), SettleAction::Stop);
    assert_eq!(settle_step(ScreenRead::Pending, 0, 10000, 500, 10000), SettleAction::Capture);
    assert_eq!(settle_step(ScreenRead::Failed, 0, 100, 500, 10000), SettleAction::Stop);
    assert_eq!(settle_step(ScreenRead::Changed, 900, 100, 500, 10000), SettleAction::Restart);
    assert_eq!(settle_step(ScreenRead::Same, 499, 100, 500, 10000), SettleAction::Wait);
    assert_eq!(settle_step(ScreenRead::Same, 500, 100, 500, 10000), SettleAction::Stop);
}

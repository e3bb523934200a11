use plexus_locus::recording::layout::{LayoutEvent, PaneGeometry};
use plexus_locus::recording::lifecycle::{
    detect_changes, get_active_tab, monitor_step, LayoutChange, LifecycleConfig, MonitorAction,
    MonitorState,
};
use std::time::Duration;

fn geometry(id: &str, x: u16, y: u16, width: u16, height: u16, tab_index: u32) -> PaneGeometry {
    PaneGeometry { pane_id: id.to_string(), x, y, width, height, tab_index }
}

#[test]
fn test_detect_changes_new_pane() {
    let previous = Vec::new();
    let mut current = Vec::new();

    let geom = geometry("%1", 0, 0, 80, 24, 0);
    current.push(geom.clone());

    let changes = detect_changes(&previous, &current);

    assert_eq!(changes.len(), 1);
    assert!(matches!(changes[0], LayoutChange::PaneOpened(_)));
}

#[test]
fn test_detect_changes_closed_pane() {
    let mut previous = Vec::new();
    previous.push(geometry("%1", 0, 0, 80, 24, 0));

    let current = Vec::new();

    let changes = detect_changes(&previous, &current);

    assert_eq!(changes.len(), 1);
    assert!(matches!(changes[0], LayoutChange::PaneClosed(_)));
}

#[test]
fn test_detect_changes_resize() {
    let mut previous = Vec::new();
    previous.push(geometry("%1", 0, 0, 80, 24, 0));

    let mut current = Vec::new();
    current.push(geometry("%1", 0, 0, 40, 24, 0));

    let changes = detect_changes(&previous, &current);

    assert_eq!(changes.len(), 1);
    assert!(matches!(changes[0], LayoutChange::PaneResized(_)));
}

#[test]
fn test_detect_changes_move() {
    let mut previous = Vec::new();
    previous.push(geometry("%1", 0, 0, 40, 24, 0));

    let mut current = Vec::new();
    current.push(geometry("%1", 40, 0, 40, 24, 0));

    let changes = detect_changes(&previous, &current);

    assert_eq!(changes.len(), 1);
    assert!(matches!(changes[0], LayoutChange::PaneResized(_)));
}

#[test]
fn test_detect_changes_multiple() {
    let mut previous = Vec::new();
    previous.push(geometry("%1", 0, 0, 80, 24, 0));

    let mut current = Vec::new();
    current.push(geometry("%1", 0, 0, 40, 24, 0));
    current.push(geometry("%2", 40, 0, 40, 24, 0));

    let changes = detect_changes(&previous, &current);

    assert_eq!(changes.len(), 2);
    assert!(changes.iter().any(|c| matches!(c, LayoutChange::PaneOpened(_))));
    assert!(changes.iter().any(|c| matches!(c, LayoutChange::PaneResized(_))));
}

#[test]
fn test_detect_changes_no_change() {
    let mut state = Vec::new();
    state.push(geometry("%1", 0, 0, 80, 24, 0));

    let changes = detect_changes(&state, &state);

    assert_eq!(changes.len(), 0);
}

#[test]
fn test_get_active_tab() {
    let mut state = Vec::new();
    state.push(geometry("%1", 0, 0, 80, 24, 2));

    let active = get_active_tab(&state);
    assert_eq!(active, Some(2));
}

#[test]
fn test_get_active_tab_empty() {
    let state = Vec::new();
    let active = get_active_tab(&state);
    assert_eq!(active, None);
}

#[test]
fn test_config_defaults() {
    let config = LifecycleConfig::default();
    assert_eq!(config.poll_interval, Duration::from_secs(1));
    assert_eq!(config.snapshot_interval, Duration::from_secs(5));
}

#[test]
fn changes_come_opened_then_closed_then_resized() {
    let previous = vec![geometry("%1", 0, 0, 80, 24, 0), geometry("%2", 0, 0, 10, 10, 0)];
    let current = vec![geometry("%3", 1, 1, 5, 5, 0), geometry("%1", 0, 0, 40, 24, 0)];
    let changes = detect_changes(&previous, &current);
    assert_eq!(changes.len(), 3);
    assert!(matches!(&changes[0], LayoutChange::PaneOpened(g) if g.pane_id == "%3"));
    assert!(matches!(&changes[1], LayoutChange::PaneClosed(id) if id == "%2"));
    assert!(matches!(&changes[2], LayoutChange::PaneResized(g) if g.pane_id == "%1" && g.width == 40));
}

#[test]
fn tab_index_change_alone_is_not_a_resize() {
    let previous = vec![geometry("%1", 0, 0, 80, 24, 0)];
    let current = vec![geometry("%1", 0, 0, 80, 24, 3)];
    assert_eq!(detect_changes(&previous, &current).len(), 0);
}

#[test]
fn monitor_records_new_pane_and_tab_switch() {
    let mut state = MonitorState::new();
    let first = monitor_step(&mut state, vec![geometry("%1", 0, 0, 80, 24, 0)]);
    assert_eq!(first.len(), 2);
    assert!(matches!(&first[0], MonitorAction::AddPane(id) if id == "%1"));
    assert!(matches!(&first[1], MonitorAction::Record(LayoutEvent::PaneOpened { pane_id, width: 80, .. }) if pane_id == "%1"));
    assert_eq!(state.active_tab, Some(0));

    let second = monitor_step(&mut state, vec![geometry("%1", 0, 0, 80, 24, 1)]);
    assert_eq!(second.len(), 1);
    assert!(matches!(&second[0], MonitorAction::Record(LayoutEvent::TabSwitched { tab_index: 1 })));
    assert_eq!(state.active_tab, Some(1));

    let third = monitor_step(&mut state, Vec::new());
    assert_eq!(third.len(), 2);
    assert!(matches!(&third[0], MonitorAction::RemovePane(id) if id == "%1"));
    assert!(matches!(&third[1], MonitorAction::Record(LayoutEvent::PaneClosed { pane_id }) if pane_id == "%1"));
    assert_eq!(state.active_tab, Some(1));
    assert!(state.previous.is_empty());
}

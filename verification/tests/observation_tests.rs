use plexus_locus::observation::{PaneTerminalState, TerminalStateManager};

#[test]
fn test_terminal_state_basic() {
    let mut manager = TerminalStateManager::new();

    // Track a pane
    manager.track_pane("%0", 80, 24);

    // Feed some output
    manager.process_output("%0", b"Hello, world!\n");

    // Query content
    let content = manager.get_contents("%0").unwrap();
    assert!(content.contains("Hello, world!"));

    // Check sequence incremented
    let seq = manager.get_sequence("%0").unwrap();
    assert_eq!(seq, 1);
}

#[test]
fn test_cursor_position() {
    let mut manager = TerminalStateManager::new();
    manager.track_pane("%1", 80, 24);

    // Move cursor with ANSI escape
    manager.process_output("%1", b"\x1b[5;10H");

    let (row, col) = manager.get_cursor("%1").unwrap();
    assert_eq!(row, 4); // 0-indexed
    assert_eq!(col, 9);
}

#[test]
fn test_resize() {
    let mut manager = TerminalStateManager::new();
    manager.track_pane("%2", 80, 24);

    // Write some content
    manager.process_output("%2", b"Test content");

    // Resize
    manager.resize_pane("%2", 120, 30);

    let (width, height) = manager.get_dimensions("%2").unwrap();
    assert_eq!(width, 120);
    assert_eq!(height, 30);
}

#[test]
fn test_untrack() {
    let mut manager = TerminalStateManager::new();
    manager.track_pane("%4", 80, 24);

    assert!(manager.is_tracked("%4"));

    manager.untrack_pane("%4");

    assert!(!manager.is_tracked("%4"));
}

#[test]
fn untracked_panes_are_left_alone() {
    let mut manager = TerminalStateManager::new();
    manager.track_pane("%1", 10, 3);
    manager.process_output("%9", b"ignored");
    manager.resize_pane("%9", 5, 5);
    assert!(!manager.is_tracked("%9"));
    assert_eq!(manager.get_contents("%9"), None);
    assert_eq!(manager.get_sequence("%1"), Some(0));
    assert_eq!(manager.tracked_panes(), vec!["%1".to_string()]);
}

#[test]
fn resize_keeps_the_text_and_counts_an_update() {
    let mut manager = TerminalStateManager::new();
    manager.track_pane("%5", 20, 4);
    manager.process_output("%5", b"abc\r\ndef");
    manager.resize_pane("%5", 30, 6);
    assert_eq!(manager.get_sequence("%5"), Some(2));
    let text = manager.get_contents("%5").unwrap();
    assert!(text.contains("abc") && text.contains("def"));
    let infos = manager.get_all_info();
    assert_eq!(infos.len(), 1);
    assert_eq!((infos[0].width, infos[0].height, infos[0].sequence), (30, 6, 2));
    // Tracking again starts afresh.
    manager.track_pane("%5", 8, 2);
    assert_eq!(manager.get_sequence("%5"), Some(0));
    assert_eq!(manager.get_contents("%5").unwrap().trim(), "");
}

#[test]
fn pane_terminal_state_reads() {
    let mut state = PaneTerminalState::new("%6".to_string(), 10, 3);
    state.process(b"\x1b[1mhi");
    assert_eq!(state.sequence(), 1);
    assert!(state.contents().contains("hi"));
    assert_eq!(state.cursor_position(), (0, 2));
    assert_eq!(state.dimensions(), (10, 3));
    assert!(!state.alternate_screen());
    assert!(!state.contents_formatted().is_empty());
    assert!(String::from_utf8(state.region(0, 10)).unwrap().contains("hi"));
    state.process(b"\x1b[?1049h");
    assert!(state.alternate_screen());
}

#[test]
fn region_is_the_rows_asked_for() {
    let mut state = PaneTerminalState::new("%7".to_string(), 6, 4);
    state.process(b"aaa\r\nbbb\r\nccc");
    let text = |b: Vec<u8>| String::from_utf8(b).unwrap();
    let middle = text(state.region(1, 2));
    assert!(middle.contains("bbb") && !middle.contains("aaa") && !middle.contains("ccc"));
    let tail = text(state.region(1, 100));
    assert!(tail.contains("bbb") && tail.contains("ccc") && !tail.contains("aaa"));
    assert!(state.region(2, 2).is_empty());
    assert!(state.region(50, 60).is_empty());
    assert!(state.region(3, 1).is_empty());
}

#[test]
fn n_outputs_count_n_updates() {
    let mut manager = TerminalStateManager::new();
    manager.track_pane("%0", 80, 24);
    manager.track_pane("%1", 80, 24);
    for chunk in [&b"Hel"[..], b"lo, ", b"world!\n"] {
        manager.process_output("%0", chunk);
        manager.process_output("%9", chunk);
    }
    assert_eq!(manager.get_sequence("%0"), Some(3));
    assert!(manager.get_contents("%0").unwrap().contains("Hello, world!"));
    assert_eq!(manager.get_sequence("%1"), Some(0));
    assert!(!manager.is_tracked("%9"));
}

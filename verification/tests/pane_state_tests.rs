use plexus_locus::compositor::frame::{Cell, Color};
use plexus_locus::compositor::pane_state::PaneState;

#[test]
fn test_pane_state_creation() {
    let state = PaneState::new("%5".to_string(), 80, 24);
    assert_eq!(state.pane_id, "%5");
    assert_eq!(state.width, 80);
    assert_eq!(state.height, 24);
}

#[test]
fn test_pane_state_process_simple() {
    let mut state = PaneState::new("%1".to_string(), 10, 5);

    // Write "Hello"
    state.process(b"Hello");

    // Check that we can read it back
    let cell = state.cell(0, 0).unwrap();
    assert_eq!(cell.ch, 'H');

    let cell = state.cell(0, 1).unwrap();
    assert_eq!(cell.ch, 'e');

    let cell = state.cell(0, 2).unwrap();
    assert_eq!(cell.ch, 'l');
}

#[test]
fn test_pane_state_process_with_ansi() {
    let mut state = PaneState::new("%1".to_string(), 20, 5);

    // Write colored text
    state.process(b"\x1b[31mRed\x1b[0m");

    // First character should be 'R'
    let cell = state.cell(0, 0).unwrap();
    assert_eq!(cell.ch, 'R');
}

#[test]
fn test_pane_state_resize() {
    let mut state = PaneState::new("%1".to_string(), 10, 5);

    state.process(b"Hello");

    // Resize (this clears the state)
    state.resize(20, 10);

    assert_eq!(state.width, 20);
    assert_eq!(state.height, 10);

    // Old content is lost after resize
    let cell = state.cell(0, 0).unwrap();
    assert_eq!(cell.ch, ' '); // Should be blank
}

#[test]
fn test_pane_state_out_of_bounds() {
    let state = PaneState::new("%1".to_string(), 10, 5);

    assert!(state.cell(100, 100).is_none());
    assert!(state.cell(10, 0).is_none());
    assert!(state.cell(0, 10).is_none());
}

#[test]
fn test_pane_state_cells() {
    let mut state = PaneState::new("%1".to_string(), 3, 2);

    state.process(b"ABC\r\nDEF");

    let cells = state.cells();
    assert_eq!(cells.len(), 2);
    assert_eq!(cells[0].len(), 3);

    assert_eq!(cells[0][0].ch, 'A');
    assert_eq!(cells[0][1].ch, 'B');
    assert_eq!(cells[0][2].ch, 'C');
    assert_eq!(cells[1][0].ch, 'D');
    assert_eq!(cells[1][1].ch, 'E');
    assert_eq!(cells[1][2].ch, 'F');
}

#[test]
fn test_pane_state_cursor_position() {
    let mut state = PaneState::new("%1".to_string(), 10, 5);

    state.process(b"Hello");

    // Cursor should be at column 5 (after "Hello")
    let (row, col) = state.cursor_position();
    assert_eq!(row, 0);
    assert_eq!(col, 5);
}

#[test]
fn test_pane_state_newlines() {
    let mut state = PaneState::new("%1".to_string(), 10, 5);

    state.process(b"Line1\r\nLine2\r\nLine3");

    let cell = state.cell(0, 0).unwrap();
    assert_eq!(cell.ch, 'L');

    let cell = state.cell(1, 0).unwrap();
    assert_eq!(cell.ch, 'L');

    let cell = state.cell(2, 0).unwrap();
    assert_eq!(cell.ch, 'L');
}

#[test]
fn pane_state_reads_colours_and_attributes() {
    let mut state = PaneState::new("%2".to_string(), 10, 2);
    state.process(b"\x1b[1;4;31;44mX\x1b[0m\x1b[38;5;200mY\x1b[38;2;1;2;3;7mZ");
    let x = state.cell(0, 0).unwrap();
    assert_eq!(x.ch, 'X');
    assert!(x.bold && x.underline && !x.inverse);
    assert_eq!(x.fg, Color::Indexed(1));
    assert_eq!(x.bg, Color::Indexed(4));
    let y = state.cell(0, 1).unwrap();
    assert_eq!(y.fg, Color::Indexed(200));
    assert!(!y.bold);
    let z = state.cell(0, 2).unwrap();
    assert_eq!(z.fg, Color::Rgb(1, 2, 3));
    assert!(z.inverse);
    // An untouched cell is a blank.
    assert_eq!(state.cell(1, 9).unwrap(), Cell::default());
}

#[test]
fn pane_state_zero_size_is_empty() {
    let state = PaneState::new("%3".to_string(), 0, 0);
    assert!(state.cells().is_empty());
    assert!(state.cell(0, 0).is_none());
    assert_eq!(state.cursor_position(), (0, 0));
}

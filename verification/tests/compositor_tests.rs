use plexus_locus::compositor::ansi::StyleState;
use plexus_locus::compositor::diff::{diff_frames, frames_equal, render_full_frame};
use plexus_locus::compositor::frame::{Cell, Color, CompositeFrame};
use plexus_locus::compositor::scene::calculate_dimensions;
use plexus_locus::compositor::writer::BorderStyle;
use plexus_locus::compositor::PaneGeometry;

#[test]
fn test_render_full_frame_empty() {
    let frame = CompositeFrame::new(5, 3);
    let output = render_full_frame(&frame);

    // Should contain clear screen and home
    assert!(output.contains("\x1b[2J"));
    assert!(output.contains("\x1b[H"));

    // Should contain reset at end
    assert!(output.ends_with("\x1b[0m"));
}

#[test]
fn test_render_full_frame_with_content() {
    let mut frame = CompositeFrame::new(3, 2);
    frame.set_cell(0, 0, Cell::new('A'));
    frame.set_cell(0, 1, Cell::new('B'));
    frame.set_cell(0, 2, Cell::new('C'));
    frame.set_cell(1, 0, Cell::new('D'));
    frame.set_cell(1, 1, Cell::new('E'));
    frame.set_cell(1, 2, Cell::new('F'));

    let output = render_full_frame(&frame);

    // Should contain all characters
    assert!(output.contains('A'));
    assert!(output.contains('B'));
    assert!(output.contains('C'));
    assert!(output.contains('D'));
    assert!(output.contains('E'));
    assert!(output.contains('F'));

    // Should contain cursor positioning
    assert!(output.contains("\x1b[1;1H")); // First row
    assert!(output.contains("\x1b[2;1H")); // Second row
}

#[test]
fn test_diff_frames_identical() {
    let frame1 = CompositeFrame::new(5, 3);
    let frame2 = CompositeFrame::new(5, 3);

    let diff = diff_frames(&frame1, &frame2);

    // Identical frames should produce empty diff
    assert_eq!(diff, "");
}

#[test]
fn test_diff_frames_dimension_change() {
    let frame1 = CompositeFrame::new(5, 3);
    let frame2 = CompositeFrame::new(6, 3);

    let diff = diff_frames(&frame1, &frame2);

    // Dimension change should trigger full re-render
    assert!(diff.contains("\x1b[2J"));
    assert!(diff.contains("\x1b[H"));
}

#[test]
fn test_diff_frames_single_cell_change() {
    let mut frame1 = CompositeFrame::new(5, 3);
    frame1.set_cell(1, 2, Cell::new(' '));

    let mut frame2 = CompositeFrame::new(5, 3);
    frame2.set_cell(1, 2, Cell::new('X'));

    let diff = diff_frames(&frame1, &frame2);

    // Should contain cursor move to position (1-indexed)
    assert!(diff.contains("\x1b[2;3H"));

    // Should contain the changed character
    assert!(diff.contains('X'));

    // Should contain reset at end
    assert!(diff.ends_with("\x1b[0m"));
}

#[test]
fn test_diff_frames_full_row_change() {
    let mut frame1 = CompositeFrame::new(5, 3);
    // Leave row 1 as all spaces

    let mut frame2 = CompositeFrame::new(5, 3);
    frame2.set_cell(1, 0, Cell::new('H'));
    frame2.set_cell(1, 1, Cell::new('E'));
    frame2.set_cell(1, 2, Cell::new('L'));
    frame2.set_cell(1, 3, Cell::new('L'));
    frame2.set_cell(1, 4, Cell::new('O'));

    let diff = diff_frames(&frame1, &frame2);

    // Should position cursor at start of row 2 (1-indexed)
    assert!(diff.contains("\x1b[2;1H"));

    // Should contain all changed characters
    assert!(diff.contains('H'));
    assert!(diff.contains('E'));
    assert!(diff.contains('L'));
    assert!(diff.contains('O'));
}

#[test]
fn test_diff_frames_color_change() {
    let mut frame1 = CompositeFrame::new(3, 1);
    let mut cell1 = Cell::new('A');
    cell1.fg = Color::Default;
    frame1.set_cell(0, 0, cell1);

    let mut frame2 = CompositeFrame::new(3, 1);
    let mut cell2 = Cell::new('A');
    cell2.fg = Color::Indexed(1); // Red
    frame2.set_cell(0, 0, cell2);

    let diff = diff_frames(&frame1, &frame2);

    // Should contain cursor positioning
    assert!(diff.contains("\x1b[1;1H"));

    // Should contain color change (red foreground)
    assert!(diff.contains("31"));

    // Should contain the character (even though it's the same)
    assert!(diff.contains('A'));
}

#[test]
fn test_diff_frames_attribute_change() {
    let mut frame1 = CompositeFrame::new(3, 1);
    let mut cell1 = Cell::new('B');
    cell1.bold = false;
    frame1.set_cell(0, 0, cell1);

    let mut frame2 = CompositeFrame::new(3, 1);
    let mut cell2 = Cell::new('B');
    cell2.bold = true;
    frame2.set_cell(0, 0, cell2);

    let diff = diff_frames(&frame1, &frame2);

    // Should contain bold attribute
    assert!(diff.contains("\x1b[1m") || diff.contains(";1;") || diff.contains(";1m"));
}

#[test]
fn test_diff_frames_multiple_attributes() {
    let mut frame1 = CompositeFrame::new(3, 1);
    frame1.set_cell(0, 0, Cell::new('T'));

    let mut frame2 = CompositeFrame::new(3, 1);
    let mut cell = Cell::new('T');
    cell.bold = true;
    cell.underline = true;
    cell.fg = Color::Indexed(2); // Green
    frame2.set_cell(0, 0, cell);

    let diff = diff_frames(&frame1, &frame2);

    // Should contain bold (1)
    assert!(diff.contains('1'));

    // Should contain underline (4)
    assert!(diff.contains('4'));

    // Should contain green foreground (32)
    assert!(diff.contains("32"));
}

#[test]
fn test_diff_frames_coalescing() {
    let frame1 = CompositeFrame::new(10, 1);
    // All spaces

    let mut frame2 = CompositeFrame::new(10, 1);
    // Change three consecutive cells
    frame2.set_cell(0, 3, Cell::new('A'));
    frame2.set_cell(0, 4, Cell::new('B'));
    frame2.set_cell(0, 5, Cell::new('C'));

    let diff = diff_frames(&frame1, &frame2);

    // Should only have ONE cursor position command for the run
    let cursor_count = diff.matches("\x1b[1;").count();
    assert_eq!(cursor_count, 1, "Should only have one cursor position for consecutive changes");

    // Should position at column 4 (1-indexed)
    assert!(diff.contains("\x1b[1;4H"));

    // Should contain all three characters
    assert!(diff.contains('A'));
    assert!(diff.contains('B'));
    assert!(diff.contains('C'));
}

#[test]
fn test_diff_frames_gap_in_changes() {
    let frame1 = CompositeFrame::new(10, 1);
    // All spaces

    let mut frame2 = CompositeFrame::new(10, 1);
    // Change with gap in middle
    frame2.set_cell(0, 1, Cell::new('X'));
    frame2.set_cell(0, 2, Cell::new('Y'));
    frame2.set_cell(0, 5, Cell::new('Z'));

    let diff = diff_frames(&frame1, &frame2);

    // Should have TWO cursor positions (one for each run)
    let cursor_count = diff.matches("\x1b[1;").count();
    assert_eq!(cursor_count, 2, "Should have two cursor positions for non-consecutive changes");

    // Should contain both positions
    assert!(diff.contains("\x1b[1;2H")); // For X,Y run
    assert!(diff.contains("\x1b[1;6H")); // For Z
}

#[test]
fn test_diff_frames_rgb_colors() {
    let mut frame1 = CompositeFrame::new(2, 1);
    frame1.set_cell(0, 0, Cell::new('R'));

    let mut frame2 = CompositeFrame::new(2, 1);
    let mut cell = Cell::new('R');
    cell.fg = Color::Rgb(255, 128, 64);
    frame2.set_cell(0, 0, cell);

    let diff = diff_frames(&frame1, &frame2);

    // Should contain RGB color code
    assert!(diff.contains("38;2;255;128;64"));
}

#[test]
fn test_diff_frames_background_color() {
    let mut frame1 = CompositeFrame::new(2, 1);
    frame1.set_cell(0, 0, Cell::new('G'));

    let mut frame2 = CompositeFrame::new(2, 1);
    let mut cell = Cell::new('G');
    cell.bg = Color::Indexed(4); // Blue background
    frame2.set_cell(0, 0, cell);

    let diff = diff_frames(&frame1, &frame2);

    // Should contain blue background (44)
    assert!(diff.contains("44"));
}

#[test]
fn test_diff_frames_inverse_attribute() {
    let mut frame1 = CompositeFrame::new(2, 1);
    frame1.set_cell(0, 0, Cell::new('I'));

    let mut frame2 = CompositeFrame::new(2, 1);
    let mut cell = Cell::new('I');
    cell.inverse = true;
    frame2.set_cell(0, 0, cell);

    let diff = diff_frames(&frame1, &frame2);

    // Should contain inverse attribute (7)
    assert!(diff.contains('7'));
}

#[test]
fn test_diff_frames_reset_on_attribute_removal() {
    let mut frame1 = CompositeFrame::new(3, 1);
    let mut cell1 = Cell::new('R');
    cell1.bold = true;
    frame1.set_cell(0, 0, cell1);
    frame1.set_cell(0, 1, Cell::new('X')); // Unchanged
    frame1.set_cell(0, 2, Cell::new('Y')); // Unchanged

    let mut frame2 = CompositeFrame::new(3, 1);
    let cell2 = Cell::new('R'); // Bold removed
    frame2.set_cell(0, 0, cell2);
    frame2.set_cell(0, 1, Cell::new('X')); // Unchanged
    frame2.set_cell(0, 2, Cell::new('Y')); // Unchanged

    let diff = diff_frames(&frame1, &frame2);

    // Should contain reset code (0) to remove bold
    assert!(diff.contains("\x1b[0"));
}

#[test]
fn test_style_state_transition() {
    let mut state = StyleState::default();

    let mut cell = Cell::new('T');
    cell.bold = true;
    cell.fg = Color::Indexed(1);

    let sgr = state.transition_to(&cell);

    // Should set bold and red color
    assert!(sgr.contains('1'));
    assert!(sgr.contains("31"));

    // State should be updated
    assert_eq!(state.bold, true);
    assert_eq!(state.fg, Color::Indexed(1));

    // Transitioning to same state should produce no output
    let sgr2 = state.transition_to(&cell);
    assert_eq!(sgr2, "");
}

#[test]
fn test_frames_equal() {
    let mut frame1 = CompositeFrame::new(3, 2);
    frame1.set_cell(0, 0, Cell::new('A'));

    let mut frame2 = CompositeFrame::new(3, 2);
    frame2.set_cell(0, 0, Cell::new('A'));

    assert!(frames_equal(&frame1, &frame2));

    // Change one cell
    frame2.set_cell(0, 1, Cell::new('B'));
    assert!(!frames_equal(&frame1, &frame2));
}

#[test]
fn test_frames_equal_different_dimensions() {
    let frame1 = CompositeFrame::new(3, 2);
    let frame2 = CompositeFrame::new(3, 3);

    assert!(!frames_equal(&frame1, &frame2));
}

#[test]
fn test_color_conversions() {
    assert_eq!(Color::Default.to_ansi_fg(), "39");
    assert_eq!(Color::Default.to_ansi_bg(), "49");
    assert_eq!(Color::Indexed(1).to_ansi_fg(), "31");
    assert_eq!(Color::Indexed(9).to_ansi_fg(), "91");
    assert_eq!(Color::Indexed(100).to_ansi_fg(), "38;5;100");
    assert_eq!(Color::Rgb(255, 128, 64).to_ansi_fg(), "38;2;255;128;64");
}

#[test]
fn test_cell_default() {
    let cell = Cell::default();
    assert_eq!(cell.ch, ' ');
    assert_eq!(cell.fg, Color::Default);
    assert_eq!(cell.bg, Color::Default);
    assert!(!cell.bold);
    assert!(!cell.underline);
    assert!(!cell.inverse);
}

#[test]
fn test_frame_creation() {
    let frame = CompositeFrame::new(80, 24);
    assert_eq!(frame.width, 80);
    assert_eq!(frame.height, 24);
    assert_eq!(frame.cells.len(), 24);
    assert_eq!(frame.cells[0].len(), 80);
}

#[test]
fn test_frame_set_get_cell() {
    let mut frame = CompositeFrame::new(10, 10);
    let cell = Cell::new('X');

    frame.set_cell(5, 5, cell.clone());
    assert_eq!(frame.get_cell(5, 5).unwrap().ch, 'X');

    // Out of bounds
    frame.set_cell(100, 100, cell.clone());
    assert!(frame.get_cell(100, 100).is_none());
}

#[test]
fn test_frame_render_simple() {
    let mut frame = CompositeFrame::new(3, 2);
    frame.set_cell(0, 0, Cell::new('A'));
    frame.set_cell(0, 1, Cell::new('B'));
    frame.set_cell(0, 2, Cell::new('C'));
    frame.set_cell(1, 0, Cell::new('D'));
    frame.set_cell(1, 1, Cell::new('E'));
    frame.set_cell(1, 2, Cell::new('F'));

    let ansi = frame.render_ansi();

    // Should contain clear screen
    assert!(ansi.contains("\x1b[2J"));

    // Should contain the characters
    assert!(ansi.contains('A'));
    assert!(ansi.contains('B'));
    assert!(ansi.contains('C'));
    assert!(ansi.contains('D'));
    assert!(ansi.contains('E'));
    assert!(ansi.contains('F'));
}

#[test]
fn test_frame_render_with_colors() {
    let mut frame = CompositeFrame::new(2, 1);

    let mut cell1 = Cell::new('R');
    cell1.fg = Color::Indexed(1); // Red

    let mut cell2 = Cell::new('G');
    cell2.fg = Color::Indexed(2); // Green

    frame.set_cell(0, 0, cell1);
    frame.set_cell(0, 1, cell2);

    let ansi = frame.render_ansi();

    // Should contain color codes
    assert!(ansi.contains("31")); // Red foreground
    assert!(ansi.contains("32")); // Green foreground
}

#[test]
fn test_border_style() {
    assert_eq!(BorderStyle::default(), BorderStyle::Single);
}

#[test]
fn test_calculate_dimensions() {
    let layout = vec![
        PaneGeometry {
            pane_id: "%1".to_string(),
            x: 0,
            y: 0,
            width: 40,
            height: 24,
            tab_index: 0,
        },
        PaneGeometry {
            pane_id: "%2".to_string(),
            x: 40,
            y: 0,
            width: 40,
            height: 24,
            tab_index: 0,
        },
    ];

    let (width, height) = calculate_dimensions(&layout);
    assert_eq!(width, 80);
    assert_eq!(height, 24);
}

#[test]
fn full_render_matches_render_ansi_without_italic() {
    let mut frame = CompositeFrame::new(4, 2);
    let mut styled = Cell::new('x');
    styled.bold = true;
    styled.underline = true;
    styled.inverse = true;
    styled.fg = Color::Indexed(3);
    frame.set_cell(0, 1, styled);
    frame.set_cell(1, 3, Cell::new('y'));
    assert_eq!(render_full_frame(&frame), frame.render_ansi());

    // With an italic cell the two orders differ.
    let mut italic = styled;
    italic.italic = true;
    frame.set_cell(1, 0, italic);
    assert_ne!(render_full_frame(&frame), frame.render_ansi());
}

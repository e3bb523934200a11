use plexus_locus::compositor::ansi::StyleState;
use plexus_locus::compositor::diff::{diff_frames, render_full_frame};
use plexus_locus::compositor::frame::{Cell, CompositeFrame};
use plexus_locus::compositor::scene::{draw_borders, draw_pane};
use plexus_locus::compositor::writer::{compose_frame, frame_output, glyphs_of, BorderStyle};
use plexus_locus::compositor::PaneGeometry;
use plexus_locus::recording::engine::{
    is_valid_pane_id, pane_file, pane_id_of_cast_file, pane_size, pane_sizes, pipe_command,
    pipe_state_in_listing, recording_title, snapshot_panes,
};
use plexus_locus::recording::lifecycle::active_window_in_listing;
use plexus_locus::web::{html_escape, terminal_to_html};

fn geometry(id: &str, x: u16, y: u16, width: u16, height: u16) -> PaneGeometry {
    PaneGeometry { pane_id: id.to_string(), x, y, width, height, tab_index: 0 }
}

fn row_text(f: &CompositeFrame, r: usize) -> String {
    f.cells[r].iter().map(|c| c.ch).collect()
}

#[test]
fn composing_two_panes_with_borders() {
    let layout = vec![geometry("%1", 0, 0, 3, 3), geometry("%2", 4, 0, 3, 3)];
    let a = vec![vec![Cell::new('a'); 3]; 3];
    let b = vec![vec![Cell::new('b'); 3]; 3];
    let f = compose_frame(&layout, &vec![a.clone(), b.clone()], BorderStyle::Single);
    assert_eq!((f.width, f.height), (7, 3));
    assert_eq!(row_text(&f, 0), "aaa\u{2502}bbb");
    let f = compose_frame(&layout, &vec![a.clone(), b.clone()], BorderStyle::Double);
    assert_eq!(row_text(&f, 1), "aaa\u{2551}bbb");
    let f = compose_frame(&layout, &vec![a, b], BorderStyle::Borderless);
    assert_eq!(row_text(&f, 2), "aaa bbb");
}

#[test]
fn single_pane_has_no_border() {
    let layout = vec![geometry("%1", 0, 0, 2, 1)];
    let f = compose_frame(&layout, &vec![vec![vec![Cell::new('x'), Cell::new('y')]]], BorderStyle::Heavy);
    assert_eq!(row_text(&f, 0), "xy");
}

#[test]
fn empty_layout_gives_default_frame() {
    let f = compose_frame(&Vec::new(), &Vec::new(), BorderStyle::Single);
    assert_eq!((f.width, f.height), (80, 24));
}

#[test]
fn borders_and_corners_are_drawn() {
    let mut f = CompositeFrame::new(5, 5);
    draw_borders(&mut f, &vec![geometry("%1", 1, 1, 3, 3)], glyphs_of(BorderStyle::Single).unwrap());
    assert_eq!(row_text(&f, 0), "\u{250c}\u{2500}\u{2500}\u{2500}\u{2510}");
    assert_eq!(row_text(&f, 2), "\u{2502}   \u{2502}");
    assert_eq!(row_text(&f, 4), "\u{2514}\u{2500}\u{2500}\u{2500}\u{2518}");
    assert!(glyphs_of(BorderStyle::Borderless).is_none());
}

#[test]
fn pane_cells_outside_frame_are_dropped() {
    let mut f = CompositeFrame::new(2, 1);
    draw_pane(&mut f, &geometry("%1", 1, 0, 3, 2), &vec![vec![Cell::new('p'); 3]; 2]);
    assert_eq!(row_text(&f, 0), " p");
}

#[test]
fn frame_output_choices() {
    let a = CompositeFrame::new(2, 1);
    let mut b = CompositeFrame::new(2, 1);
    b.set_cell(0, 1, Cell::new('z'));
    let (resize, out) = frame_output(None, &b);
    assert!(resize.is_none());
    assert_eq!(out, render_full_frame(&b));
    let (resize, out) = frame_output(Some(&a), &b);
    assert!(resize.is_none());
    assert_eq!(out, diff_frames(&a, &b));
    let c = CompositeFrame::new(3, 1);
    let (resize, out) = frame_output(Some(&a), &c);
    assert_eq!(resize, Some((3, 1)));
    assert!(out.starts_with("\x1b[2J"));
    let _ = StyleState::default();
}

#[test]
fn recording_file_names() {
    assert!(is_valid_pane_id("%3"));
    assert!(!is_valid_pane_id("invalid"));
    assert_eq!(pane_file("%12", ".cast"), "pane-12.cast");
    assert_eq!(pane_file("%%7", ".fifo"), "pane-7.fifo");
    assert_eq!(pane_id_of_cast_file("pane-12.cast"), "%12");
    assert_eq!(pane_id_of_cast_file("notes.txt"), "%");
    assert_eq!(pipe_command("/r/pane-1.fifo"), "cat > /r/pane-1.fifo");
    assert_eq!(recording_title("%1"), "Pane %1");
}

#[test]
fn recording_listings() {
    assert_eq!(pipe_state_in_listing("%1 0\n%2 1\n", "%2"), Some(true));
    assert_eq!(pipe_state_in_listing("%1 0\n", "%1"), Some(false));
    assert_eq!(pipe_state_in_listing("%1 0\n", "%9"), None);
    let sizes = pane_sizes("%1 80 24\n%2 bad 30\nx\n");
    assert_eq!(sizes, vec![("%1".to_string(), 80, 24), ("%2".to_string(), 80, 30)]);
    assert_eq!(pane_size("%4 100 40\n%5 1 1"), Some(("%4".to_string(), 100, 40)));
    assert_eq!(pane_size("%4 100\n"), None);
    assert_eq!(pane_size(""), None);
    let snap = snapshot_panes("%1 0 2 80 24 5 6\n");
    assert_eq!(snap.len(), 1);
    assert_eq!((snap[0].tab_index, snap[0].y, snap[0].x), (2, 5, 6));
    assert_eq!(active_window_in_listing("0 0\n3 1\n4 1\n"), Some(3));
    assert_eq!(active_window_in_listing("0 0\n"), None);
}

#[test]
fn html_output() {
    assert_eq!(html_escape("a<b> & \"c\""), "a&lt;b&gt;&nbsp;&amp;&nbsp;&quot;c&quot;");
    assert_eq!(
        terminal_to_html("one\ntwo\nthree", 80, 2),
        "<div class=\"terminal-screen\"><div class=\"terminal-line\">one</div>\n<div class=\"terminal-line\">two</div>\n</div>"
    );
    assert_eq!(terminal_to_html("", 80, 2), "<div class=\"terminal-screen\"></div>");
}

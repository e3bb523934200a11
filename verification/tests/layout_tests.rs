use plexus_locus::recording::layout::{layout_after, parse_pane_listing, LayoutEvent, PaneGeometry};

fn geometry(id: &str, x: u16, y: u16, width: u16, height: u16, tab_index: u32) -> PaneGeometry {
    PaneGeometry { pane_id: id.to_string(), x, y, width, height, tab_index }
}

fn journal() -> Vec<LayoutEvent> {
    vec![
        LayoutEvent::LayoutSnapshot { panes: vec![geometry("%1", 0, 0, 80, 24, 0)] },
        LayoutEvent::PaneOpened { pane_id: "%2".to_string(), x: 80, y: 0, width: 40, height: 24, tab_index: 0 },
        LayoutEvent::PaneResized { pane_id: "%1".to_string(), x: 0, y: 0, width: 60, height: 24 },
        LayoutEvent::PaneClosed { pane_id: "%2".to_string() },
    ]
}

#[test]
fn replay_follows_each_event() {
    let events = journal();
    let at = |n: usize| layout_after(&events[..n].to_vec());

    let l = at(1);
    assert_eq!(l.len(), 1);
    assert_eq!(l[0].pane_id, "%1");
    assert_eq!(l[0].width, 80);

    let l = at(2);
    assert_eq!(l.len(), 2);
    assert_eq!(l[0].pane_id, "%1");
    assert_eq!(l[1].pane_id, "%2");

    let l = at(3);
    assert_eq!(l.len(), 2);
    assert_eq!(l[0].width, 60);

    let l = at(4);
    assert_eq!(l.len(), 1);
    assert_eq!(l[0], geometry("%1", 0, 0, 60, 24, 0));
}

#[test]
fn later_snapshot_replaces_earlier_state() {
    let events = vec![
        LayoutEvent::LayoutSnapshot { panes: vec![geometry("%1", 0, 0, 80, 24, 0)] },
        LayoutEvent::LayoutSnapshot {
            panes: vec![geometry("%4", 40, 0, 40, 24, 0), geometry("%3", 0, 0, 40, 24, 0)],
        },
        LayoutEvent::PaneClosed { pane_id: "%4".to_string() },
    ];
    let l = layout_after(&events[..2].to_vec());
    assert_eq!(l.len(), 2);
    assert_eq!(l[0].pane_id, "%3");
    assert_eq!(l[1].pane_id, "%4");
    let l = layout_after(&events);
    assert_eq!(l, vec![geometry("%3", 0, 0, 40, 24, 0)]);
}

#[test]
fn empty_snapshot_and_tab_switch() {
    let events = vec![LayoutEvent::LayoutSnapshot { panes: vec![] }];
    assert!(layout_after(&events).is_empty());
    let events = vec![
        LayoutEvent::LayoutSnapshot { panes: vec![geometry("%1", 0, 0, 80, 24, 0)] },
        LayoutEvent::TabSwitched { tab_index: 1 },
    ];
    assert_eq!(layout_after(&events).len(), 1);
    assert!(layout_after(&Vec::new()).is_empty());
}

#[test]
fn resize_of_unknown_pane_is_ignored() {
    let events = vec![LayoutEvent::PaneResized { pane_id: "%9".to_string(), x: 1, y: 1, width: 2, height: 2 }];
    assert!(layout_after(&events).is_empty());
}

#[test]
fn seeking_from_snapshot_matches_full_replay() {
    let events = vec![
        LayoutEvent::PaneOpened { pane_id: "%7".to_string(), x: 0, y: 0, width: 10, height: 10, tab_index: 0 },
        LayoutEvent::LayoutSnapshot {
            panes: vec![geometry("%1", 0, 0, 40, 24, 0), geometry("%2", 40, 0, 40, 24, 0)],
        },
        LayoutEvent::PaneClosed { pane_id: "%2".to_string() },
        LayoutEvent::PaneResized { pane_id: "%1".to_string(), x: 0, y: 0, width: 80, height: 24 },
    ];
    let l = layout_after(&events);
    assert_eq!(l, vec![geometry("%1", 0, 0, 80, 24, 0)]);
}

#[test]
fn panes_are_sorted_by_id_as_strings() {
    let events = vec![LayoutEvent::LayoutSnapshot {
        panes: vec![
            geometry("%10", 0, 0, 1, 1, 0),
            geometry("%2", 0, 0, 1, 1, 0),
            geometry("%1", 0, 0, 1, 1, 0),
        ],
    }];
    let ids: Vec<String> = layout_after(&events).into_iter().map(|g| g.pane_id).collect();
    assert_eq!(ids, vec!["%1", "%10", "%2"]);
}

#[test]
fn duplicate_ids_in_snapshot_keep_the_last() {
    let events = vec![LayoutEvent::LayoutSnapshot {
        panes: vec![geometry("%1", 0, 0, 1, 1, 0), geometry("%1", 5, 5, 9, 9, 2)],
    }];
    assert_eq!(layout_after(&events), vec![geometry("%1", 5, 5, 9, 9, 2)]);
}

#[test]
fn pane_listing_reads_rows_with_defaults() {
    let out = "%1 0 0 80 24 0\n%2 81 0 x 24 1 extra\nshort row\n\n%3 1 2 3 4 +5\r\n";
    let panes = parse_pane_listing(out, 6);
    assert_eq!(panes.len(), 3);
    assert_eq!(panes[0], geometry("%1", 0, 0, 80, 24, 0));
    assert_eq!(panes[1], geometry("%2", 81, 0, 80, 24, 1));
    assert_eq!(panes[2], geometry("%3", 1, 2, 3, 4, 5));
    let with_seven = parse_pane_listing(out, 7);
    assert_eq!(with_seven.len(), 1);
    assert_eq!(with_seven[0].pane_id, "%2");
}

#[test]
fn pane_listing_out_of_range_number_falls_back() {
    let panes = parse_pane_listing("%1 70000 -1 80 24 0", 6);
    assert_eq!(panes[0].x, 0);
    assert_eq!(panes[0].y, 0);
}

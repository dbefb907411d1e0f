use suisei_core::session::{candidates, parse, render, Session, SessionFile, SessionItem};

fn file(path: &str, row: usize, col: usize) -> SessionItem {
    SessionItem::File(SessionFile { path: path.to_string(), row, col })
}

fn reparse(s: &Session) -> Session {
    let text = render(s);
    let n = candidates(&text).len();
    parse(&text, &vec![true; n])
}

#[test]
fn roundtrip_through_the_real_format() {
    let s = Session { active: 1, items: vec![file("/w/a.rs", 2, 3), file("/w/b.rs", 0, 0)], split: None };
    let back = reparse(&s);
    assert_eq!(back.active, 1);
    assert_eq!(back.items.len(), 2);
    match &back.items[0] {
        SessionItem::File(f) => assert_eq!((f.path.as_str(), f.row, f.col), ("/w/a.rs", 2, 3)),
        other => panic!("expected a file, got {other:?}"),
    }
}

#[test]
fn a_terminal_survives_the_round_trip() {
    let s = Session {
        active: 0,
        items: vec![file("/w/x.rs", 0, 0), SessionItem::Terminal { cwd: "/w".to_string() }],
        split: None,
    };
    let back = reparse(&s);
    assert_eq!(back.items.len(), 2);
    match &back.items[1] {
        SessionItem::Terminal { cwd } => assert_eq!(cwd, "/w"),
        other => panic!("expected a terminal, got {other:?}"),
    }
}

#[test]
fn a_terminal_does_not_shift_the_documents_after_it() {
    let s = Session {
        active: 0,
        items: vec![file("/w/a.rs", 0, 0), SessionItem::Terminal { cwd: "/w".to_string() }, file("/w/b.rs", 7, 1)],
        split: None,
    };
    let back = reparse(&s);
    assert_eq!(back.items.len(), 3);
    assert!(back.items[1].file().is_none(), "slot 1 is the shell");
    match &back.items[2] {
        SessionItem::File(f) => assert_eq!((f.path.as_str(), f.row, f.col), ("/w/b.rs", 7, 1)),
        other => panic!("expected a file, got {other:?}"),
    }
}

#[test]
fn a_terminal_whose_directory_vanished_is_dropped() {
    let text = "active=0\nterm=/nowhere/at/all\n";
    assert_eq!(candidates(text).len(), 1);
    assert!(parse(text, &[false]).items.is_empty());
}

#[test]
fn split_roundtrip_format() {
    let text = "active=0\n/w/a.rs|0|0\n/w/b.rs|5|2\nsplit=SC:0.500,0.500:T0;T1\nfocus_pane=1\npane=0|0|0|0\npane=1|120|5|2\n";
    let parsed = parse(text, &[true, true]);
    let split = parsed.split.expect("split was parsed");
    assert_eq!(split.tree, "SC:0.500,0.500:T0;T1");
    assert_eq!(split.focus_pane, 1);
    assert_eq!(split.panes.len(), 2);
    assert_eq!(split.panes[1].scroll, 120);
}

#[test]
fn a_missing_file_is_dropped_and_active_still_points_inside() {
    let text = "active=1\n/w/a.rs|0|0\n/w/gone.rs|1|1\n";
    let parsed = parse(text, &[true, false]);
    assert_eq!(parsed.items.len(), 1);
    assert!(parsed.active < parsed.items.len().max(1));
}

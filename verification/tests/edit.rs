use suisei_core::buffer::{Buffer, Position};
use suisei_core::edit::{Change, Edit};

fn text_of(b: &Buffer) -> String {
    b.text()
}

#[test]
fn offset_position_roundtrip() {
    let mut b = Buffer::from_string("ab\ncde\nf");
    // Document offsets: a0 b1 \n2 c3 d4 e5 \n6 f7
    assert_eq!(b.offset_to_position(0), Position { row: 0, col: 0 });
    assert_eq!(b.offset_to_position(2), Position { row: 0, col: 2 });
    assert_eq!(b.offset_to_position(3), Position { row: 1, col: 0 });
    assert_eq!(b.offset_to_position(7), Position { row: 2, col: 0 });
    for off in 0..=b.len_chars() {
        let p = b.offset_to_position(off);
        assert_eq!(b.position_to_offset(p), off, "roundtrip at {off}");
    }
    b.insert_str("한글"); // at (0,0): line0 = "한글ab"
    // Char offsets, not bytes: "한글" is 2 chars (6 bytes); offset 2 is
    // right after it, still on row 0.
    let off = b.position_to_offset(Position { row: 0, col: 2 });
    assert_eq!(off, 2);
    assert_eq!(b.offset_to_position(off), Position { row: 0, col: 2 });
}

#[test]
fn apply_edit_insert_delete_replace() {
    let mut b = Buffer::from_string("hello world");
    let v0 = b.version();
    let d = b.apply_edit(&Edit::single(Change::insert(5, " cruel")));
    assert_eq!(text_of(&b), "hello cruel world");
    assert_eq!(d.version_before, v0);
    assert!(d.version_after > v0, "one version bump");
    assert_eq!(d.changes[0].old, "");
    assert_eq!(d.changes[0].new, " cruel");

    let d2 = b.apply_edit(&Edit::single(Change::delete(5, " cruel")));
    assert_eq!(text_of(&b), "hello world");
    assert_eq!(d2.changes[0].old, " cruel");

    let d3 = b.apply_edit(&Edit::single(Change::replace(0, "hello", "goodbye")));
    assert_eq!(text_of(&b), "goodbye world");
    assert_eq!(d3.changes[0].old, "hello");
    assert_eq!(d3.changes[0].new, "goodbye");
}

#[test]
fn multi_change_edit_applies_back_to_front() {
    let mut b = Buffer::from_string("abcdef");
    // Two inserts against the SAME version's offsets — the later offset
    // must not be disturbed by the earlier insert.
    let edit = Edit {
        changes: vec![Change::insert(1, "1"), Change::insert(4, "4")],
    };
    let d = b.apply_edit(&edit);
    assert_eq!(text_of(&b), "a1bcd4ef");
    assert_eq!(d.changes.len(), 2);
    assert_eq!(d.changes[0].start, 1, "delta stays in ascending order");
    assert_eq!(d.changes[1].start, 4);
}

#[test]
fn delta_inverse_restores_the_text() {
    let mut b = Buffer::from_string("the quick fox");
    let original = text_of(&b);
    let d = b.apply_edit(&Edit {
        changes: vec![
            Change::replace(4, "quick", "slow"),
            Change::insert(13, " jumps"),
        ],
    });
    assert_eq!(text_of(&b), "the slow fox jumps");
    b.apply_edit(&d.inverse());
    assert_eq!(text_of(&b), original, "inverse restores exactly");
}

#[test]
fn empty_edit_does_not_bump_the_version() {
    let mut b = Buffer::from_string("x");
    let v = b.version();
    let d = b.apply_edit(&Edit::new());
    assert!(d.is_empty());
    assert_eq!(b.version(), v, "no bump without changes");
}

#[test]
fn multiline_change_roundtrips() {
    let mut b = Buffer::from_string("line1\nline2\nline3");
    let original = text_of(&b);
    // Replace "line2" (offset 6..11) with two lines.
    let d = b.apply_edit(&Edit::single(Change::replace(6, "line2", "a\nb")));
    assert_eq!(text_of(&b), "line1\na\nb\nline3");
    b.apply_edit(&d.inverse());
    assert_eq!(text_of(&b), original);
}

// ── Beyond the scenarios above ─────────────────────────────────────────────

#[test]
fn inverse_of_a_tie_of_deletes_restores_order() {
    // Two deletes whose inverses both land on one offset.
    let mut b = Buffer::from_string("xxabyycdzz");
    let original = text_of(&b);
    let d = b.apply_edit(&Edit {
        changes: vec![Change::delete(2, "ab"), Change::delete(6, "cd")],
    });
    assert_eq!(text_of(&b), "xxyyzz");
    b.apply_edit(&d.inverse());
    assert_eq!(text_of(&b), original);
}

#[test]
fn change_lengths_and_inverse() {
    let c = Change::replace(3, "한글", "abc");
    assert_eq!(c.old_len(), 2);
    assert_eq!(c.new_len(), 3);
    let r = c.inverse();
    assert_eq!(r.start, 3);
    assert_eq!(r.old, "abc");
    assert_eq!(r.new, "한글");
}

#[test]
fn lines_and_line_count() {
    let b = Buffer::from_string("ab\n\ncde");
    assert_eq!(b.line_count(), 3);
    assert_eq!(b.line(0), "ab");
    assert_eq!(b.line(1), "");
    assert_eq!(b.line(2), "cde");
    assert_eq!(b.line(7), "");
    // A column past the end of its line lands on the line's end.
    assert_eq!(b.position_to_offset(Position { row: 0, col: 99 }), 2);
}

use suisei_core::position::Position;
use suisei_core::selection::{Selection, SelectionSet};

fn p(row: usize, col: usize) -> Position {
    Position::new(row, col)
}

#[test]
fn caret_is_empty_and_contains_nothing() {
    let c = Selection::caret(p(2, 5));
    assert!(c.is_empty());
    assert_eq!(c.range(), (p(2, 5), p(2, 5)));
    assert!(!c.contains(p(2, 5)));
}

#[test]
fn range_normalises_backwards_selection() {
    let backward = Selection::new(p(3, 4), p(1, 2));
    assert_eq!(backward.range(), (p(1, 2), p(3, 4)));
    assert_eq!(backward.start(), p(1, 2));
    assert_eq!(backward.end(), p(3, 4));
}

#[test]
fn contains_is_exclusive_of_end() {
    let s = Selection::new(p(0, 1), p(0, 4));
    assert!(!s.contains(p(0, 0)));
    assert!(s.contains(p(0, 1)));
    assert!(s.contains(p(0, 3)));
    assert!(!s.contains(p(0, 4)));
}

#[test]
fn extend_moves_head_keeps_anchor() {
    let s = Selection::caret(p(0, 2)).extended_to(p(0, 6));
    assert_eq!(s.anchor, p(0, 2));
    assert_eq!(s.head, p(0, 6));
    assert!(!s.is_empty());
}

#[test]
fn collapse_edges_pick_the_right_side() {
    let backward = Selection::new(p(0, 5), p(0, 1));
    assert_eq!(backward.collapsed_to_head().head, p(0, 1));
    assert_eq!(backward.collapsed_to_start().head, p(0, 1));
    assert_eq!(backward.collapsed_to_end().head, p(0, 5));
}

#[test]
fn set_merges_overlapping_selections() {
    let mut set = SelectionSet::single(Selection::new(p(0, 0), p(0, 5)));
    set.add(Selection::new(p(0, 3), p(0, 9)));
    assert_eq!(set.len(), 1);
    assert_eq!(set.primary().range(), (p(0, 0), p(0, 9)));
}

#[test]
fn set_keeps_disjoint_selections_sorted() {
    let mut set = SelectionSet::single(Selection::caret(p(5, 0)));
    set.add(Selection::caret(p(1, 0)));
    set.add(Selection::caret(p(3, 0)));
    let starts: Vec<_> = set.all().iter().map(|s| s.start()).collect();
    assert_eq!(starts, vec![p(1, 0), p(3, 0), p(5, 0)]);
}

#[test]
fn adjacent_carets_merge_to_one() {
    let mut set = SelectionSet::single(Selection::caret(p(2, 2)));
    set.add(Selection::caret(p(2, 2)));
    assert_eq!(set.len(), 1);
}

#[test]
fn collapse_to_primary_discards_others() {
    let mut set = SelectionSet::single(Selection::caret(p(0, 0)));
    set.add(Selection::caret(p(4, 0)));
    assert_eq!(set.len(), 2);
    set.collapse_to_primary_caret();
    assert_eq!(set.len(), 1);
    assert_eq!(set.primary().head, p(4, 0));
}

#[test]
fn map_applies_to_every_selection() {
    let mut set = SelectionSet::single(Selection::caret(p(0, 0)));
    set.add(Selection::caret(p(2, 0)));
    set.map(|s| {
        let h = Position::new(s.head.row, s.head.col + 3);
        s.extended_to(h)
    });
    for s in set.all() {
        assert_eq!(s.head.col, s.anchor.col + 3);
    }
}

#[test]
fn primary_follows_its_head_through_normalisation() {
    let mut set = SelectionSet::single(Selection::caret(p(9, 0)));
    set.add(Selection::caret(p(1, 0)));
    assert_eq!(set.primary().head, p(1, 0));
    set.push_keeping_primary(Selection::caret(p(0, 0)));
    assert_eq!(set.primary().head, p(1, 0));
}

#[test]
fn carets_keep_the_requested_primary_after_sorting() {
    let set = SelectionSet::carets(&[p(4, 0), p(1, 0), p(1, 0), p(2, 3)], 3);
    let heads: Vec<_> = set.all().iter().map(|s| s.head).collect();
    assert_eq!(heads, vec![p(1, 0), p(2, 3), p(4, 0)]);
    assert_eq!(set.primary().head, p(2, 3));
    assert_eq!(set.primary_index(), 1);
    let empty = SelectionSet::carets(&[], 7);
    assert_eq!(empty.len(), 1);
    assert_eq!(empty.primary().head, p(0, 0));
}

#[test]
fn set_primary_merges_into_a_neighbour() {
    let mut set = SelectionSet::carets(&[p(0, 0), p(0, 8)], 0);
    set.set_primary(Selection::new(p(0, 0), p(0, 8)));
    assert_eq!(set.len(), 1);
    assert_eq!(set.primary().range(), (p(0, 0), p(0, 8)));
    assert!(!set.is_multi());
}

use suisei_core::nav::{Jump, JumpList};
use suisei_core::position::Position;

fn at(row: usize, scroll: usize) -> Jump {
    Jump { pos: Position::new(row, 0), scroll, path: None }
}

#[test]
fn jumplist_back_forward() {
    let mut jl = JumpList::new();
    jl.push(Jump { pos: Position::new(0, 0), scroll: 0, path: None });
    jl.push(Jump { pos: Position::new(10, 0), scroll: 5, path: None });
    let cur = Jump { pos: Position::new(20, 0), scroll: 10, path: None };
    let back = jl.back(cur).unwrap();
    assert_eq!(back.pos.row, 10);
    let fwd = jl.forward().unwrap();
    assert_eq!(fwd.pos.row, 20);
}

#[test]
fn push_drops_forward_history_and_repeats() {
    let mut jl = JumpList::new();
    assert!(jl.back(at(1, 0)).is_none());
    assert!(jl.forward().is_none());
    jl.push(at(1, 0));
    jl.push(at(1, 9));
    assert_eq!(jl.len(), 1, "same place twice is one entry");
    jl.push(at(2, 0));
    jl.push(at(3, 0));
    let b = jl.back(at(4, 0)).unwrap();
    assert_eq!(b.pos.row, 3);
    let b = jl.back(at(3, 0)).unwrap();
    assert_eq!(b.pos.row, 2);
    jl.push(at(7, 0));
    assert_eq!(jl.len(), 3, "forward history dropped when branching");
    assert!(jl.forward().is_none());
    let mut other = Jump { pos: Position::new(7, 0), scroll: 0, path: Some("a.rs".to_string()) };
    jl.push(other.clone());
    assert_eq!(jl.len(), 4, "another file is another place");
    other.scroll = 3;
    jl.push(other);
    assert_eq!(jl.len(), 4);
}

#[test]
fn the_list_keeps_the_newest_hundred() {
    let mut jl = JumpList::default();
    for row in 0..150 {
        jl.push(at(row, 0));
    }
    assert_eq!(jl.len(), 100);
    let b = jl.back(at(1000, 0)).unwrap();
    assert_eq!(b.pos.row, 149);
}

use suisei_core::layout_tab::{next_name, LayoutStyle, LayoutTab};
use suisei_core::split::{BufferId, Layout, PaneId};

fn tab(name: &str) -> LayoutTab {
    LayoutTab {
        id: 1,
        name: name.into(),
        tree: Layout::Leaf(PaneId(1)),
        panes: Vec::new(),
        docs: Vec::new(),
        style: LayoutStyle::Grouped,
    }
}

#[test]
fn names_fill_the_lowest_free_slot() {
    assert_eq!(next_name(&[]), "layout 1");
    let one = vec![tab("layout 1")];
    assert_eq!(next_name(&one), "layout 2");
    let two = vec![tab("layout 2")];
    assert_eq!(next_name(&two), "layout 1");
}

#[test]
fn style_toggles_both_ways() {
    assert_eq!(LayoutStyle::Grouped.toggled(), LayoutStyle::Unified);
    assert_eq!(LayoutStyle::Unified.toggled(), LayoutStyle::Grouped);
}

#[test]
fn a_layout_holds_its_folded_documents() {
    let mut t = tab("layout 1");
    t.docs = vec![BufferId(3), BufferId(5)];
    assert!(t.holds(BufferId(5)));
    assert!(!t.holds(BufferId(4)));
    let many: Vec<LayoutTab> = (1..=11).map(|n| tab(&format!("layout {n}"))).collect();
    assert_eq!(next_name(&many), "layout 12");
    let tree = Layout::Split(
        suisei_core::split::Axis::Col,
        Box::new(Layout::Leaf(PaneId(1))),
        Box::new(Layout::Leaf(PaneId(2))),
    );
    assert_eq!(tree.pane_count(), 2);
}

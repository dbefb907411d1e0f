use suisei_core::plugin_store::{PluginStore, StoreItem, StoreMsg, StoreTab, SEARCH_DEBOUNCE_MS};

fn item(id: &str) -> StoreItem {
    StoreItem {
        id: id.to_string(),
        name: id.to_string(),
        version: "1.0.0".to_string(),
        description: String::new(),
        installed: false,
        fidelity: None,
        downloads: 0,
    }
}

#[test]
fn live_search_debounces_and_dedupes() {
    let mut s = PluginStore::default();
    s.begin_input();
    s.input_char('r', 1000);
    s.input_char('s', 1010);
    assert!(!s.search_due(1020), "should wait for the debounce window");
    assert!(s.search_due(1010 + SEARCH_DEBOUNCE_MS + 30), "should be due after the debounce");
    s.mark_searched();
    assert!(!s.search_due(5000), "same query must not re-fire");
    assert_eq!(s.last_searched, "rs");
    s.input_char('t', 6000);
    assert!(s.search_due(6000 + SEARCH_DEBOUNCE_MS + 30));
}

#[test]
fn selection_stays_among_the_rows() {
    let mut s = PluginStore::new();
    s.open(vec![item("a.x"), item("b.y"), item("c.z")]);
    assert_eq!(s.tab, StoreTab::Installed);
    s.move_sel(5);
    assert_eq!(s.selected, 2);
    s.move_sel(-9);
    assert_eq!(s.selected, 0);
    assert_eq!(s.selected_item().map(|i| i.id.as_str()), Some("a.x"));
    s.switch_tab();
    assert_eq!(s.tab, StoreTab::Browse);
    assert!(s.selected_item().is_none());
    s.move_sel(1);
    assert_eq!(s.selected, 0);
}

#[test]
fn poll_applies_job_messages_in_order() {
    let mut s = PluginStore::new();
    assert!(!s.poll(vec![StoreMsg::Error("late".to_string())], false), "nothing awaited");
    s.begin_job("searching…");
    assert!(s.loading && s.waiting);
    let changed = s.poll(vec![StoreMsg::Results(vec![item("a.x"), item("b.y")])], false);
    assert!(changed);
    assert_eq!(s.results.len(), 2);
    assert_eq!(s.message, "2 result(s) · Enter to install");
    assert!(!s.loading && !s.waiting);

    s.begin_job("installing…");
    let changed = s.poll(
        vec![StoreMsg::Installed { id: "a.x".to_string(), version: "2.0".to_string() }, StoreMsg::Error("boom".to_string())],
        false,
    );
    assert!(changed);
    assert!(s.just_installed);
    assert_eq!(s.message, "error: boom");

    s.begin_job("again");
    assert!(!s.poll(Vec::new(), false));
    assert!(s.waiting && s.loading);
    assert!(!s.poll(Vec::new(), true));
    assert!(!s.waiting && !s.loading);
}

#[test]
fn backspace_and_cancel_keep_the_query() {
    let mut s = PluginStore::new();
    s.begin_input();
    s.input_char('a', 1);
    s.input_char('b', 2);
    s.input_backspace(3);
    assert_eq!(s.query, "a");
    s.cancel_input();
    assert!(!s.input);
    assert_eq!(s.query, "a");
    s.close();
    assert!(!s.open);
}

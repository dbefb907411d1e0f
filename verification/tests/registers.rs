use suisei_core::registers::Registers;

#[test]
fn a_yank_is_remembered_and_shared() {
    let mut r = Registers::new();
    r.store("hello".into(), false);
    assert_eq!(r.unnamed_text(), Some("hello"));
}

#[test]
fn paste_falls_back_to_the_last_yank_when_the_clipboard_is_empty() {
    let mut r = Registers::new();
    r.store("only-here".into(), false);
    assert!(r.load_for_put(None).is_some());
    assert!(r.load_for_put(Some(String::new())).is_some());
    assert_eq!(r.load_for_put(Some(String::new())).unwrap().text, "only-here");
}

#[test]
fn a_fresh_clipboard_wins_and_line_breaks_make_it_linewise() {
    let mut r = Registers::new();
    assert!(r.load_for_put(None).is_none());
    assert_eq!(r.active_label(), "clipboard");
    r.store("mine".into(), true);
    let v = r.load_for_put(Some("from another app".into())).unwrap();
    assert_eq!(v.text, "from another app");
    assert!(!v.linewise);
    let v = r.load_for_put(Some("a\nb".into())).unwrap();
    assert!(v.linewise);
    let v = r.load_for_put(Some("line\n".into())).unwrap();
    assert!(v.linewise);
    let v = r.load_for_put(None).unwrap();
    assert_eq!(v.text, "mine");
    assert!(v.linewise);
}

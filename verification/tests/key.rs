use suisei_core::key::{KeyCode, KeyEvent, KeyModifiers};

#[test]
fn modifiers_combine_and_contain() {
    let mut m = KeyModifiers::empty();
    assert!(m.is_empty());
    m.insert(KeyModifiers::shift());
    assert!(m.contains(KeyModifiers::shift()));
    assert!(!m.contains(KeyModifiers::control()));
    let both = m.union(KeyModifiers::control());
    assert!(both.contains(KeyModifiers::shift()) && both.contains(KeyModifiers::control()));
    assert!(both.contains(KeyModifiers::none()));
    assert!(!both.contains(KeyModifiers::alt().union(KeyModifiers::super_key())));
}

#[test]
fn key_event_constructors() {
    let e = KeyEvent::ctrl('s');
    assert_eq!(e.code, KeyCode::Char('s'));
    assert!(e.modifiers.contains(KeyModifiers::control()));
    let e = KeyEvent::char('x');
    assert!(e.modifiers.is_empty());
    let e = KeyEvent::new(KeyCode::F(5), KeyModifiers::alt());
    assert_eq!(e.code, KeyCode::F(5));
    assert_eq!(e.modifiers, KeyModifiers::alt());
}

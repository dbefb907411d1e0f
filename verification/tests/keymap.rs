use suisei_core::config::Config;
use suisei_core::keymap;
use suisei_core::keymap::{binding, catalog, command, conflict, is_customised, parse, reset_all};

fn cfg() -> Config {
    Config::default()
}

#[test]
fn a_command_with_no_override_is_on_its_shipped_chord() {
    let c = cfg();
    assert_eq!(binding(&c, "save"), "⌘S");
    assert!(!is_customised(&c, "save"));
}

#[test]
fn setting_and_clearing_a_binding() {
    let mut c = cfg();
    assert!(keymap::set(&mut c, "save", Some("⌃⌥S")));
    assert_eq!(binding(&c, "save"), "⌃⌥S");
    assert!(is_customised(&c, "save"));

    assert!(keymap::set(&mut c, "save", None));
    assert_eq!(binding(&c, "save"), "⌘S");
    assert!(c.keybindings.is_empty(), "and no line left in the file");
}

#[test]
fn setting_the_shipped_chord_records_nothing() {
    let mut c = cfg();
    assert!(keymap::set(&mut c, "save", Some("⌘S")));
    assert!(c.keybindings.is_empty());
    assert!(!is_customised(&c, "save"));
}

#[test]
fn modifier_order_does_not_make_a_different_chord() {
    let mut a = cfg();
    let mut b = cfg();
    keymap::set(&mut a, "palette", Some("⌘⇧P"));
    keymap::set(&mut b, "palette", Some("⇧⌘P"));
    assert_eq!(binding(&a, "palette"), binding(&b, "palette"));
    assert_eq!(binding(&a, "palette"), "⇧⌘P");
}

#[test]
fn case_is_not_part_of_the_chord() {
    let mut c = cfg();
    keymap::set(&mut c, "save", Some("⌃s"));
    assert_eq!(binding(&c, "save"), "⌃S");
}

#[test]
fn option_plus_a_letter_is_typing() {
    let mut c = cfg();
    assert!(!keymap::set(&mut c, "run", Some("⌥R")));
    assert!(keymap::set(&mut c, "run", Some("⌥⇥")), "⌥ and a named key is fine");
    assert_eq!(binding(&c, "run"), "⌥⇥");
}

#[test]
fn a_bare_letter_is_not_a_shortcut() {
    let mut c = cfg();
    assert!(!keymap::set(&mut c, "save", Some("S")), "typing is not a shortcut");
    assert!(!keymap::set(&mut c, "save", Some("⇧S")), "nor is a capital letter");
    assert!(!keymap::set(&mut c, "save", Some("⌘")), "nor is a modifier alone");
    assert!(!keymap::set(&mut c, "save", Some("")));
    assert_eq!(binding(&c, "save"), "⌘S", "the command still works");
}

#[test]
fn a_chord_another_command_holds_is_reported() {
    let c = cfg();
    let clash = conflict(&c, "save", "⌘P").expect("Open File has ⌘P");
    assert_eq!(clash.id, "open_file");

    assert!(conflict(&c, "save", "⌃⌥⇧S").is_none(), "nobody holds this");
    assert!(conflict(&c, "save", "⌘S").is_none(), "a command does not conflict with itself");
}

#[test]
fn conflicts_follow_the_users_own_changes() {
    let mut c = cfg();
    keymap::set(&mut c, "find", Some("⌃⌥F"));
    assert!(conflict(&c, "save", "⌘F").is_none(), "Find left ⌘F");
    assert_eq!(conflict(&c, "save", "⌃⌥F").map(|x| x.id), Some("find"), "and took ⌃⌥F with it");
}

#[test]
fn an_unreadable_override_falls_back_to_the_default() {
    let mut c = cfg();
    c.keybindings.insert("save".into(), "⌘".into());
    assert_eq!(binding(&c, "save"), "⌘S");
    c.keybindings.insert("save".into(), String::new());
    assert_eq!(binding(&c, "save"), "⌘S");
}

#[test]
fn reset_puts_everything_back() {
    let mut c = cfg();
    keymap::set(&mut c, "save", Some("⌃⌥S"));
    keymap::set(&mut c, "run", Some("⌃⌥R"));
    reset_all(&mut c);
    assert_eq!(binding(&c, "save"), "⌘S");
    assert_eq!(binding(&c, "run"), "⌘R");
}

#[test]
fn the_catalog_is_well_formed() {
    let cat = catalog();
    let mut ids: Vec<&str> = cat.iter().map(|c| c.id).collect();
    ids.sort_unstable();
    let before = ids.len();
    ids.dedup();
    assert_eq!(ids.len(), before, "duplicate command id");

    for c in &cat {
        let parsed = parse(c.default).unwrap_or_else(|| panic!("{}: {}", c.id, c.default));
        assert!(parsed.is_usable(), "{} ships with an unusable chord", c.id);
        assert_eq!(keymap::format(&parsed), c.default, "{} is written in a form that does not round-trip", c.id);
    }
}

#[test]
fn no_two_commands_ship_with_the_same_chord() {
    let c = cfg();
    for cmd in catalog() {
        assert!(conflict(&c, cmd.id, cmd.default).is_none(), "{} ships on a chord another command also holds", cmd.id);
    }
}

#[test]
fn unknown_commands_and_named_keys() {
    let mut c = cfg();
    assert!(command("no_such_command").is_none());
    assert!(!keymap::set(&mut c, "no_such_command", Some("⌘K")));
    assert_eq!(binding(&c, "no_such_command"), "");
    assert!(!is_customised(&c, "no_such_command"));
    let p = parse(" ⌃ ⌥ Tab ").unwrap();
    assert!(p.ctrl && p.alt && !p.cmd && !p.shift);
    assert_eq!(p.key, "tab");
    assert_eq!(keymap::format(&p), "⌃⌥⇥");
    assert!(parse("⌘⇧").is_none());
    assert_eq!(c.keybindings.len(), 0);
    assert!(keymap::set(&mut c, "find", Some("⌘Return")));
    assert_eq!(binding(&c, "find"), "⌘↩");
    assert_eq!(c.keybindings.len(), 1);
}

use suisei_core::dispatch::{completion_prefix, dispatch_step, DispatchAction, DispatchKeys, Mode};
use suisei_core::key::{KeyCode, KeyModifiers};
use suisei_core::panel_keys::PaneKeys;

fn keys(mode: Mode) -> DispatchKeys {
    DispatchKeys {
        mode,
        terminal_window_focused: false,
        pane: PaneKeys { confirm_open: false, pending_chord: false, has_terminal: true },
        menu_open: false,
        menu_sel: 0,
        menu_len: 0,
        peek_open: false,
        pending_chord: false,
        terminal_open: false,
        has_selection: false,
        explorer_open: false,
    }
}

fn ctrl_shift() -> KeyModifiers {
    KeyModifiers::control().union(KeyModifiers::shift())
}

#[test]
fn f12_opens_then_closes_the_docked_terminal() {
    let mut st = keys(Mode::Editor);
    assert_eq!(dispatch_step(&mut st, KeyCode::F(12), KeyModifiers::none()), DispatchAction::StartTerminal);
    assert!(st.terminal_open);
    assert_eq!(st.mode, Mode::Terminal);
    assert_eq!(dispatch_step(&mut st, KeyCode::F(12), KeyModifiers::none()), DispatchAction::ShutdownTerminal);
    assert!(!st.terminal_open);
    assert_eq!(st.mode, Mode::Editor);
}

#[test]
fn command_chords_reach_the_clipboard_and_the_panels() {
    let mut st = keys(Mode::Editor);
    assert_eq!(dispatch_step(&mut st, KeyCode::Char('c'), KeyModifiers::super_key()), DispatchAction::Copy);
    assert_eq!(dispatch_step(&mut st, KeyCode::Char('v'), KeyModifiers::super_key()), DispatchAction::Paste);
    assert_eq!(dispatch_step(&mut st, KeyCode::Char('V'), ctrl_shift()), DispatchAction::TogglePreview);
    assert_eq!(dispatch_step(&mut st, KeyCode::Char('P'), ctrl_shift()), DispatchAction::OpenCommandPalette);
    assert_eq!(dispatch_step(&mut st, KeyCode::Char('p'), KeyModifiers::super_key()), DispatchAction::OpenFilePalette);
    assert_eq!(dispatch_step(&mut st, KeyCode::Char('G'), ctrl_shift()), DispatchAction::ToggleGitWorkbench);
    assert_eq!(dispatch_step(&mut st, KeyCode::Char('g'), KeyModifiers::super_key()), DispatchAction::ToggleScm);
    assert_eq!(dispatch_step(&mut st, KeyCode::Left, KeyModifiers::super_key()), DispatchAction::LineStart);
    assert_eq!(dispatch_step(&mut st, KeyCode::Down, KeyModifiers::super_key()), DispatchAction::GotoLastLine);
    // Cut needs a selection.
    assert_eq!(dispatch_step(&mut st, KeyCode::Char('x'), KeyModifiers::super_key()), DispatchAction::Nothing);
    st.has_selection = true;
    assert_eq!(dispatch_step(&mut st, KeyCode::Char('x'), KeyModifiers::super_key()), DispatchAction::Cut);
    // Copy is refused in the palette; paste goes to the terminal there.
    let mut term = keys(Mode::Terminal);
    term.terminal_open = true;
    assert_eq!(dispatch_step(&mut term, KeyCode::Char('c'), KeyModifiers::super_key()), DispatchAction::Nothing);
    assert_eq!(dispatch_step(&mut term, KeyCode::Char('v'), KeyModifiers::super_key()), DispatchAction::PasteToTerminal);
}

#[test]
fn ctrl_w_starts_a_chord_that_the_next_key_ends() {
    let mut st = keys(Mode::Editor);
    assert_eq!(dispatch_step(&mut st, KeyCode::Char('w'), KeyModifiers::control()), DispatchAction::ChordStarted);
    assert!(st.pending_chord);
    assert_eq!(dispatch_step(&mut st, KeyCode::Char('v'), KeyModifiers::none()), DispatchAction::SplitVertical);
    assert!(!st.pending_chord);
    dispatch_step(&mut st, KeyCode::Char('w'), KeyModifiers::control());
    assert_eq!(dispatch_step(&mut st, KeyCode::Left, KeyModifiers::none()), DispatchAction::FocusDir('h'));
    dispatch_step(&mut st, KeyCode::Char('w'), KeyModifiers::control());
    assert_eq!(dispatch_step(&mut st, KeyCode::Char('>'), KeyModifiers::none()), DispatchAction::ResizeSplit(true));
    dispatch_step(&mut st, KeyCode::Char('w'), KeyModifiers::control());
    assert_eq!(dispatch_step(&mut st, KeyCode::Char('z'), KeyModifiers::none()), DispatchAction::ChordHelp);
    assert!(!st.pending_chord);
}

#[test]
fn the_editor_menu_owns_the_keyboard() {
    let mut st = keys(Mode::Editor);
    st.menu_open = true;
    st.menu_len = 3;
    assert_eq!(dispatch_step(&mut st, KeyCode::Down, KeyModifiers::none()), DispatchAction::Nothing);
    assert_eq!(dispatch_step(&mut st, KeyCode::Char('j'), KeyModifiers::none()), DispatchAction::Nothing);
    assert_eq!(dispatch_step(&mut st, KeyCode::Down, KeyModifiers::none()), DispatchAction::Nothing);
    assert_eq!(st.menu_sel, 2);
    assert_eq!(dispatch_step(&mut st, KeyCode::Char('k'), KeyModifiers::none()), DispatchAction::Nothing);
    assert_eq!(st.menu_sel, 1);
    assert_eq!(dispatch_step(&mut st, KeyCode::Enter, KeyModifiers::none()), DispatchAction::RunEditorMenuAction);
    assert_eq!(dispatch_step(&mut st, KeyCode::F(12), KeyModifiers::none()), DispatchAction::Nothing);
    assert!(!st.terminal_open);
    assert_eq!(dispatch_step(&mut st, KeyCode::Esc, KeyModifiers::none()), DispatchAction::CloseEditorMenu);
}

#[test]
fn ctrl_in_the_terminal_sends_control_bytes() {
    let mut st = keys(Mode::Terminal);
    st.terminal_open = true;
    assert_eq!(dispatch_step(&mut st, KeyCode::Char('c'), KeyModifiers::control()), DispatchAction::TerminalByte(3));
    assert_eq!(dispatch_step(&mut st, KeyCode::Char('['), KeyModifiers::control()), DispatchAction::TerminalByte(0x5b));
    assert_eq!(dispatch_step(&mut st, KeyCode::Char('q'), KeyModifiers::control()), DispatchAction::ShutdownTerminal);
    assert!(!st.terminal_open);
    assert_eq!(st.mode, Mode::Editor);
}

#[test]
fn ctrl_chords_in_the_editor() {
    let mut st = keys(Mode::Editor);
    assert_eq!(dispatch_step(&mut st, KeyCode::Char('s'), KeyModifiers::control()), DispatchAction::Save);
    assert_eq!(dispatch_step(&mut st, KeyCode::Char('d'), KeyModifiers::control()), DispatchAction::MultiCursorNext);
    assert_eq!(dispatch_step(&mut st, KeyCode::Char('D'), ctrl_shift()), DispatchAction::ToggleDebugPanel);
    assert_eq!(dispatch_step(&mut st, KeyCode::Char('t'), KeyModifiers::control()), DispatchAction::ToggleTerminalSide);
    assert_eq!(dispatch_step(&mut st, KeyCode::Char('f'), KeyModifiers::control()), DispatchAction::OpenExplorer);
    assert_eq!(st.mode, Mode::Explorer);
    assert_eq!(dispatch_step(&mut st, KeyCode::Char('f'), KeyModifiers::control()), DispatchAction::CloseExplorer);
    assert_eq!(st.mode, Mode::Editor);
    assert_eq!(dispatch_step(&mut st, KeyCode::F(11), KeyModifiers::shift()), DispatchAction::DapStepOut);
    assert_eq!(dispatch_step(&mut st, KeyCode::Backspace, KeyModifiers::alt()), DispatchAction::DeleteWordBack);
}

#[test]
fn unclaimed_keys_go_to_the_surface_of_the_mode() {
    let mut st = keys(Mode::GitWorkbench);
    assert_eq!(dispatch_step(&mut st, KeyCode::Char('j'), KeyModifiers::none()), DispatchAction::Route(Mode::GitWorkbench));
    let mut ed = keys(Mode::Editor);
    assert_eq!(dispatch_step(&mut ed, KeyCode::Char('j'), KeyModifiers::none()), DispatchAction::Nothing);
    let mut peek = keys(Mode::Settings);
    peek.peek_open = true;
    assert_eq!(dispatch_step(&mut peek, KeyCode::Down, KeyModifiers::none()), DispatchAction::ScrollPeek(1));
    assert_eq!(dispatch_step(&mut peek, KeyCode::Char('x'), KeyModifiers::none()), DispatchAction::Route(Mode::Settings));
}

#[test]
fn a_focused_terminal_pane_takes_its_keys() {
    let mut st = keys(Mode::Editor);
    st.terminal_window_focused = true;
    assert_eq!(dispatch_step(&mut st, KeyCode::Char('c'), KeyModifiers::control()), DispatchAction::ToPaneTerminal);
    assert_eq!(dispatch_step(&mut st, KeyCode::Char('a'), KeyModifiers::none()), DispatchAction::ToPaneTerminal);
}

#[test]
fn completion_takes_the_word_before_the_caret() {
    assert_eq!(completion_prefix("let foo_bar1 = x", 12), "foo_bar1");
    assert_eq!(completion_prefix("let foo_bar1 = x", 7), "foo");
    assert_eq!(completion_prefix("a.b", 3), "b");
    assert_eq!(completion_prefix("x = ", 4), "");
    assert_eq!(completion_prefix("", 0), "");
    assert_eq!(completion_prefix("naïve", 5), "naïve");
}

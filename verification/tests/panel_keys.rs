use suisei_core::key::{KeyCode, KeyModifiers};
use suisei_core::panel_keys::{
    docked_terminal_key, pane_terminal_key, preview_key, scm_key, PaneAction, PaneKeys, PreviewAction, PreviewKeys, PreviewKind, ScmAction,
    ScmFocus, ScmKeys,
};

fn preview(kind: PreviewKind) -> PreviewKeys {
    PreviewKeys { closing: false, kind, has_image: false, wrap_lines: true, hscroll: 10, scroll: 5, lines: 40 }
}

#[test]
fn preview_keys_scroll_close_and_resize() {
    let st = preview(PreviewKind::Other);
    assert_eq!(preview_key(st, KeyCode::Char('j')).1, PreviewAction::ScrollBy(1, 1));
    assert_eq!(preview_key(st, KeyCode::PageUp).1, PreviewAction::ScrollBy(-12, 12));
    assert_eq!(preview_key(st, KeyCode::End).0.scroll, 39);
    assert_eq!(preview_key(st, KeyCode::Char('g')).0.scroll, 0);
    assert_eq!(preview_key(st, KeyCode::Char('q')).1, PreviewAction::Close);
    assert_eq!(preview_key(st, KeyCode::Char('r')).1, PreviewAction::Refresh);
    let mut img = preview(PreviewKind::Image);
    img.has_image = true;
    assert_eq!(preview_key(img, KeyCode::Char('-')).1, PreviewAction::ImageWidth(-4));
    assert_eq!(preview_key(img, KeyCode::Right).1, PreviewAction::ImageWidth(4));
    img.has_image = false;
    img.wrap_lines = false;
    assert_eq!(preview_key(img, KeyCode::Left).0.hscroll, 4);
    let audio = preview(PreviewKind::Audio);
    assert_eq!(preview_key(audio, KeyCode::Char(' ')).1, PreviewAction::ToggleAudio);
    let mut closing = preview(PreviewKind::Other);
    closing.closing = true;
    assert_eq!(preview_key(closing, KeyCode::Char('j')).1, PreviewAction::Nothing);
    assert_eq!(preview_key(closing, KeyCode::Esc).1, PreviewAction::CloseNow);
}

fn scm(focus: ScmFocus) -> ScmKeys {
    ScmKeys { closing: false, focus, selected: 0, graph_selected: 0, message: Vec::new() }
}

#[test]
fn scm_keys_move_focus_and_type_the_message() {
    let mut st = scm(ScmFocus::Changes);
    assert_eq!(scm_key(&mut st, KeyCode::Up), ScmAction::Nothing);
    assert_eq!(st.focus, ScmFocus::CommitButton);
    scm_key(&mut st, KeyCode::Char('k'));
    assert_eq!(st.focus, ScmFocus::Message);
    scm_key(&mut st, KeyCode::Char('j'));
    scm_key(&mut st, KeyCode::Char('s'));
    assert_eq!(st.message, vec!['j', 's']);
    scm_key(&mut st, KeyCode::Backspace);
    assert_eq!(st.message, vec!['j']);
    assert_eq!(scm_key(&mut st, KeyCode::Enter), ScmAction::Commit);
    scm_key(&mut st, KeyCode::Down);
    assert_eq!(st.focus, ScmFocus::CommitButton);
    assert_eq!(scm_key(&mut st, KeyCode::Char('j')), ScmAction::Nothing);
    assert_eq!(st.focus, ScmFocus::Changes);
    assert_eq!(scm_key(&mut st, KeyCode::Char('j')), ScmAction::MoveSelection(1));
    assert_eq!(scm_key(&mut st, KeyCode::Char('x')), ScmAction::DiscardSelected);
    assert_eq!(scm_key(&mut st, KeyCode::Char('G')), ScmAction::OpenWorkbench);
    scm_key(&mut st, KeyCode::Char('g'));
    assert_eq!(st.focus, ScmFocus::Graph);
    assert_eq!(scm_key(&mut st, KeyCode::Char('L')), ScmAction::LoadMoreGraph);
    assert_eq!(scm_key(&mut st, KeyCode::Esc), ScmAction::Close);
}

fn pane() -> PaneKeys {
    PaneKeys { confirm_open: false, pending_chord: false, has_terminal: true }
}

#[test]
fn pane_terminal_keys_reach_the_shell() {
    let ctrl = KeyModifiers::control();
    let none = KeyModifiers::none();
    assert_eq!(pane_terminal_key(pane(), KeyCode::Char('c'), ctrl), (true, PaneAction::Write, vec![3]));
    assert_eq!(
        pane_terminal_key(pane(), KeyCode::Left, ctrl),
        (true, PaneAction::Write, b"\x1b[1;5D".to_vec())
    );
    assert_eq!(pane_terminal_key(pane(), KeyCode::Enter, none), (true, PaneAction::Write, vec![13]));
    assert_eq!(pane_terminal_key(pane(), KeyCode::Char('é'), none), (true, PaneAction::Write, "é".as_bytes().to_vec()));
    assert_eq!(
        pane_terminal_key(pane(), KeyCode::Char('h'), KeyModifiers::shift()),
        (true, PaneAction::Write, b"H".to_vec())
    );
    assert_eq!(
        pane_terminal_key(pane(), KeyCode::Char('b'), KeyModifiers::alt()),
        (true, PaneAction::Write, b"\x1bb".to_vec())
    );
    assert_eq!(pane_terminal_key(pane(), KeyCode::Up, none), (true, PaneAction::Arrow('A'), Vec::new()));
    assert_eq!(pane_terminal_key(pane(), KeyCode::PageUp, none), (true, PaneAction::ScrollUp(3), Vec::new()));
    assert_eq!(pane_terminal_key(pane(), KeyCode::Char('w'), ctrl).1, PaneAction::StartChord);
    let mut chord = pane();
    chord.pending_chord = true;
    assert!(!pane_terminal_key(chord, KeyCode::Char('w'), none).0);
    let mut confirm = pane();
    confirm.confirm_open = true;
    assert_eq!(pane_terminal_key(confirm, KeyCode::Char('y'), none).1, PaneAction::ConfirmClose(true));
    assert_eq!(pane_terminal_key(confirm, KeyCode::Char('z'), none).1, PaneAction::AskConfirm);
    let ctrl_shift = ctrl.union(KeyModifiers::shift());
    assert_eq!(pane_terminal_key(pane(), KeyCode::Char('t'), ctrl_shift).1, PaneAction::ToggleTerminal);
    assert_eq!(pane_terminal_key(pane(), KeyCode::Char('v'), ctrl_shift).1, PaneAction::Paste);
}

#[test]
fn the_docked_terminal_closes_on_esc_and_types_the_rest() {
    assert_eq!(docked_terminal_key(KeyCode::Esc, KeyModifiers::none()), (true, PaneAction::Nothing, vec![]));
    assert_eq!(docked_terminal_key(KeyCode::Char('a'), KeyModifiers::shift()), (false, PaneAction::Write, vec![b'A']));
    assert_eq!(docked_terminal_key(KeyCode::Char('é'), KeyModifiers::none()), (false, PaneAction::Write, vec![0xc3, 0xa9]));
    assert_eq!(docked_terminal_key(KeyCode::Up, KeyModifiers::none()), (false, PaneAction::Arrow('A'), vec![]));
    assert_eq!(docked_terminal_key(KeyCode::PageDown, KeyModifiers::none()), (false, PaneAction::ScrollDown(3), vec![]));
    assert_eq!(docked_terminal_key(KeyCode::Enter, KeyModifiers::none()), (false, PaneAction::Write, vec![13]));
}

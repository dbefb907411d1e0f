use suisei_core::key::KeyCode;
use suisei_core::settings::{help_entries, SettingsPage};
use suisei_core::surface_keys::{
    call_hierarchy_key, debug_key, explorer_key, palette_key, search_input_key, settings_key, workspace_search_key,
    CallHierarchyAction, DebugKeyAction, DebugKeys, DebugPane, ExplorerAction, PaletteKeyAction, SearchInputAction,
    SearchPanelAction, SearchPanelKeys, SettingsKeyAction, SettingsKeys,
};

fn panel() -> SearchPanelKeys {
    SearchPanelKeys { replace_focus: false, query: Vec::new(), replace: Vec::new(), needs_search: false, has_hits: true }
}

#[test]
fn find_in_files_searches_once_the_query_has_two_bytes() {
    let mut st = panel();
    assert_eq!(workspace_search_key(&mut st, KeyCode::Char('a')), SearchPanelAction::Nothing);
    assert_eq!(workspace_search_key(&mut st, KeyCode::Char('b')), SearchPanelAction::RunSearch);
    assert_eq!(st.query, vec!['a', 'b']);
    let mut wide = panel();
    assert_eq!(workspace_search_key(&mut wide, KeyCode::Char('é')), SearchPanelAction::RunSearch);
    assert_eq!(workspace_search_key(&mut wide, KeyCode::Backspace), SearchPanelAction::RunSearch);
    assert!(wide.query.is_empty());
    assert_eq!(workspace_search_key(&mut wide, KeyCode::Char('j')), SearchPanelAction::MoveSelection(1));
}

#[test]
fn find_in_files_replaces_from_the_query_field() {
    let mut st = panel();
    assert_eq!(workspace_search_key(&mut st, KeyCode::Char('r')), SearchPanelAction::NothingToReplace);
    assert_eq!(workspace_search_key(&mut st, KeyCode::Char('R')), SearchPanelAction::Nothing);
    st.query = vec!['f', 'n'];
    assert_eq!(workspace_search_key(&mut st, KeyCode::Char('r')), SearchPanelAction::ReplaceSelected);
    assert_eq!(workspace_search_key(&mut st, KeyCode::Char('R')), SearchPanelAction::ReplaceAll);
    assert_eq!(workspace_search_key(&mut st, KeyCode::Tab), SearchPanelAction::Nothing);
    assert!(st.replace_focus);
    assert_eq!(workspace_search_key(&mut st, KeyCode::Char('r')), SearchPanelAction::Nothing);
    assert_eq!(st.replace, vec!['r']);
    assert_eq!(st.query, vec!['f', 'n']);
    assert_eq!(workspace_search_key(&mut st, KeyCode::Enter), SearchPanelAction::Open(false));
    st.needs_search = true;
    assert_eq!(workspace_search_key(&mut st, KeyCode::Enter), SearchPanelAction::Open(true));
    assert_eq!(workspace_search_key(&mut st, KeyCode::Esc), SearchPanelAction::Close);
}

#[test]
fn settings_digits_jump_to_pages() {
    let help = help_entries();
    let st = SettingsKeys { page: SettingsPage::About, selected: 3 };
    assert_eq!(settings_key(st, KeyCode::Char('2'), &help), (SettingsKeys { page: SettingsPage::Setting, selected: 1 }, SettingsKeyAction::Nothing));
    let first = help.iter().position(|e| !e.is_header).unwrap_or(0);
    assert_eq!(settings_key(st, KeyCode::Char('4'), &help).0, SettingsKeys { page: SettingsPage::Help, selected: first });
    assert!(help[0].is_header && first > 0);
    assert_eq!(settings_key(st, KeyCode::PageDown, &help).1, SettingsKeyAction::MoveSelection(1, 8));
    assert_eq!(settings_key(st, KeyCode::Char(' '), &help).1, SettingsKeyAction::Activate);
    assert_eq!(settings_key(st, KeyCode::Char('q'), &help).1, SettingsKeyAction::Close);
    assert_eq!(settings_key(st, KeyCode::Char('S'), &help).1, SettingsKeyAction::Save);
}

#[test]
fn the_debug_console_takes_typing() {
    let mut st = DebugKeys { pane: DebugPane::Console, eval_input: Vec::new(), focused_expanded: false };
    assert_eq!(debug_key(&mut st, KeyCode::Enter), DebugKeyAction::Nothing);
    for c in "x+c".chars() {
        assert_eq!(debug_key(&mut st, KeyCode::Char(c)), DebugKeyAction::Nothing);
    }
    assert_eq!(st.eval_input, vec!['x', '+', 'c']);
    assert_eq!(debug_key(&mut st, KeyCode::Backspace), DebugKeyAction::Nothing);
    assert_eq!(debug_key(&mut st, KeyCode::Char('l')), DebugKeyAction::Evaluate);
    assert_eq!(debug_key(&mut st, KeyCode::Char('2')), DebugKeyAction::SetPane(DebugPane::Variables));
    let mut stack = DebugKeys { pane: DebugPane::Stack, eval_input: Vec::new(), focused_expanded: false };
    assert_eq!(debug_key(&mut stack, KeyCode::Char('c')), DebugKeyAction::Continue);
    assert_eq!(debug_key(&mut stack, KeyCode::Char('S')), DebugKeyAction::Stop);
    assert_eq!(debug_key(&mut stack, KeyCode::Enter), DebugKeyAction::SelectFrame);
    assert!(stack.eval_input.is_empty());
    let mut vars = DebugKeys { pane: DebugPane::Variables, eval_input: Vec::new(), focused_expanded: true };
    assert_eq!(debug_key(&mut vars, KeyCode::Char('h')), DebugKeyAction::ToggleVar);
    vars.focused_expanded = false;
    assert_eq!(debug_key(&mut vars, KeyCode::Char('h')), DebugKeyAction::Nothing);
    assert_eq!(debug_key(&mut vars, KeyCode::Esc), DebugKeyAction::Unfocus);
}

#[test]
fn small_surfaces_map_their_keys() {
    assert_eq!(palette_key(KeyCode::Char('j')), PaletteKeyAction::PushChar('j'));
    assert_eq!(palette_key(KeyCode::Down), PaletteKeyAction::MoveDown);
    assert_eq!(palette_key(KeyCode::Char('\u{7}')), PaletteKeyAction::Nothing);
    assert_eq!(call_hierarchy_key(KeyCode::Char('o')), CallHierarchyAction::OpenSelected);
    assert_eq!(call_hierarchy_key(KeyCode::Char('O')), CallHierarchyAction::ShowOutgoing);
    assert_eq!(call_hierarchy_key(KeyCode::Char('i')), CallHierarchyAction::ShowIncoming);
    assert_eq!(explorer_key(KeyCode::Char('h')), ExplorerAction::Parent);
    assert_eq!(explorer_key(KeyCode::Char('l')), ExplorerAction::OpenSelected);
    assert_eq!(search_input_key(KeyCode::Delete, true), SearchInputAction::Nothing);
    assert_eq!(search_input_key(KeyCode::Delete, false), SearchInputAction::DeleteLast);
    assert_eq!(search_input_key(KeyCode::Char('k'), false), SearchInputAction::Type('k'));
}

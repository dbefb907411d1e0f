//! The keys of the smaller surfaces: find in files, the settings panel, the
//! debugger panel, the command palette, the call hierarchy, the explorer and
//! the search bar. Each is a step from the surface's keyboard state and a key
//! to its next state and what the caller does.

use vstd::prelude::*;
use crate::key::KeyCode;
use crate::panel_keys::{char_of, is_char, is_control, is_ch, control_char};
use crate::settings::{SettingsPage, HelpEntry};
use crate::workbench::{popped, typed};

verus! {

fn typed_char(key: KeyCode) -> (r: Option<char>)
    ensures
        typed(key) ==> r == Some(char_of(key)),
        !typed(key) ==> r is None,
{
    match key {
        KeyCode::Char(c) => if !control_char(c) { Some(c) } else { None },
        _ => None,
    }
}

fn pop_last(v: &mut Vec<char>)
    ensures
        final(v)@ == popped(old(v)@),
{
    let ghost v0 = v@;
    v.pop();
    proof {
        if v0.len() > 0 {
            assert(v@ =~= v0.drop_last());
        }
    }
}

// ── Find in files ───────────────────────────────────────────────────────────

/// What the find-in-files panel's keys read and change.
#[derive(Clone, Debug)]
pub struct SearchPanelKeys {
    /// The replacement field has the keyboard, not the query.
    pub replace_focus: bool,
    pub query: Vec<char>,
    pub replace: Vec<char>,
    /// The query changed since the last search.
    pub needs_search: bool,
    /// The last search found something.
    pub has_hits: bool,
}

/// What the caller does for a find-in-files key.
#[derive(Clone, Copy, Debug, PartialEq, Eq, Structural)]
pub enum SearchPanelAction {
    Nothing,
    /// Close the panel, give the editor the keyboard, clear the status line.
    Close,
    MoveSelection(isize),
    RunSearch,
    /// Open the selected hit and close the panel; search first when asked.
    Open(bool),
    /// Say that there is nothing to replace.
    NothingToReplace,
    ReplaceSelected,
    /// Replace every hit, search again and say how many were replaced.
    ReplaceAll,
}

pub struct SearchPanelView {
    pub replace_focus: bool,
    pub query: Seq<char>,
    pub replace: Seq<char>,
    pub needs_search: bool,
    pub has_hits: bool,
}

pub open spec fn search_panel_view(st: SearchPanelKeys) -> SearchPanelView {
    SearchPanelView {
        replace_focus: st.replace_focus,
        query: st.query@,
        replace: st.replace@,
        needs_search: st.needs_search,
        has_hits: st.has_hits,
    }
}

/// The query takes at least two bytes in UTF-8: two characters, or one
/// outside ASCII.
pub open spec fn two_bytes(q: Seq<char>) -> bool {
    q.len() >= 2 || (q.len() == 1 && (q[0] as u32) >= 0x80)
}

/// Find in files: Esc closes, Tab moves between the query and the
/// replacement, editing the query searches again (typing only once it has
/// two bytes), `r` and `R` replace at the selection and everywhere while the
/// query has the keyboard, and Enter opens the selected hit.
pub open spec fn workspace_search_step(st: SearchPanelView, key: KeyCode) -> (SearchPanelView, SearchPanelAction) {
    let rf = st.replace_focus;
    if key == KeyCode::Esc {
        (st, SearchPanelAction::Close)
    } else if key == KeyCode::Tab {
        (SearchPanelView { replace_focus: !rf, ..st }, SearchPanelAction::Nothing)
    } else if key == KeyCode::Backspace {
        if rf {
            (SearchPanelView { replace: popped(st.replace), ..st }, SearchPanelAction::Nothing)
        } else {
            (SearchPanelView { query: popped(st.query), ..st }, SearchPanelAction::RunSearch)
        }
    } else if (key == KeyCode::Down || is_char(key, 'j')) && (rf || st.query.len() == 0) {
        (st, SearchPanelAction::MoveSelection(1))
    } else if key == KeyCode::Down {
        (st, SearchPanelAction::MoveSelection(1))
    } else if key == KeyCode::Up || is_char(key, 'k') {
        (st, SearchPanelAction::MoveSelection(-1isize))
    } else if key == KeyCode::Enter {
        (st, SearchPanelAction::Open(st.needs_search || !st.has_hits))
    } else if is_char(key, 'r') && !rf {
        (st, if st.query.len() == 0 { SearchPanelAction::NothingToReplace } else { SearchPanelAction::ReplaceSelected })
    } else if is_char(key, 'R') && !rf {
        (st, if st.query.len() == 0 { SearchPanelAction::Nothing } else { SearchPanelAction::ReplaceAll })
    } else if typed(key) {
        if rf {
            (SearchPanelView { replace: st.replace.push(char_of(key)), ..st }, SearchPanelAction::Nothing)
        } else {
            let q = st.query.push(char_of(key));
            (SearchPanelView { query: q, ..st }, if two_bytes(q) { SearchPanelAction::RunSearch } else { SearchPanelAction::Nothing })
        }
    } else {
        (st, SearchPanelAction::Nothing)
    }
}

/// The find-in-files panel's answer to `key`.
pub fn workspace_search_key(st: &mut SearchPanelKeys, key: KeyCode) -> (a: SearchPanelAction)
    ensures
        (search_panel_view(*final(st)), a) == workspace_search_step(search_panel_view(*old(st)), key),
{
    let rf = st.replace_focus;
    if matches!(key, KeyCode::Esc) {
        return SearchPanelAction::Close;
    }
    if matches!(key, KeyCode::Tab) {
        st.replace_focus = !rf;
        return SearchPanelAction::Nothing;
    }
    if matches!(key, KeyCode::Backspace) {
        if rf {
            pop_last(&mut st.replace);
            return SearchPanelAction::Nothing;
        }
        pop_last(&mut st.query);
        return SearchPanelAction::RunSearch;
    }
    if (matches!(key, KeyCode::Down) || is_ch(key, 'j')) && (rf || st.query.len() == 0) {
        return SearchPanelAction::MoveSelection(1);
    }
    if matches!(key, KeyCode::Down) {
        return SearchPanelAction::MoveSelection(1);
    }
    if matches!(key, KeyCode::Up) || is_ch(key, 'k') {
        return SearchPanelAction::MoveSelection(-1isize);
    }
    if matches!(key, KeyCode::Enter) {
        return SearchPanelAction::Open(st.needs_search || !st.has_hits);
    }
    if is_ch(key, 'r') && !rf {
        return if st.query.len() == 0 { SearchPanelAction::NothingToReplace } else { SearchPanelAction::ReplaceSelected };
    }
    if is_ch(key, 'R') && !rf {
        return if st.query.len() == 0 { SearchPanelAction::Nothing } else { SearchPanelAction::ReplaceAll };
    }
    match typed_char(key) {
        Some(c) => {
            if rf {
                st.replace.push(c);
                SearchPanelAction::Nothing
            } else {
                st.query.push(c);
                let n = st.query.len();
                if n >= 2 || (n == 1 && (st.query[0] as u32) >= 0x80) {
                    SearchPanelAction::RunSearch
                } else {
                    SearchPanelAction::Nothing
                }
            }
        },
        None => SearchPanelAction::Nothing,
    }
}

// ── Settings ────────────────────────────────────────────────────────────────

/// What the settings panel's keys read and change.
#[derive(Clone, Copy, Debug, PartialEq, Eq, Structural)]
pub struct SettingsKeys {
    pub page: SettingsPage,
    pub selected: usize,
}

/// What the caller does for a settings key.
#[derive(Clone, Copy, Debug, PartialEq, Eq, Structural)]
pub enum SettingsKeyAction {
    Nothing,
    Close,
    NextPage,
    PrevPage,
    /// Move the selection by this much, this many times.
    MoveSelection(isize, usize),
    /// Activate the selected row and apply what it asks for.
    Activate,
    Save,
}

/// The first row of the shortcut reference at or after `from` that is not a
/// section header, or the first row when there is none.
pub open spec fn first_entry(help: Seq<HelpEntry>, from: int) -> int
    decreases help.len() - from,
{
    if from < 0 || from >= help.len() {
        0
    } else if !help[from].is_header {
        from
    } else {
        first_entry(help, from + 1)
    }
}

/// Settings: Esc and `q` close, Tab and Shift+Tab turn pages, the arrows
/// move by one and the page keys by eight, Enter and Space activate, `s`
/// saves, and 1 to 4 jump to a page with its first row selected (the first
/// theme on the Setting page, the first shortcut on the Help page).
pub open spec fn settings_step(st: SettingsKeys, key: KeyCode, help: Seq<HelpEntry>) -> (SettingsKeys, SettingsKeyAction) {
    if key == KeyCode::Esc || is_char(key, 'q') {
        (st, SettingsKeyAction::Close)
    } else if key == KeyCode::Tab {
        (st, SettingsKeyAction::NextPage)
    } else if key == KeyCode::BackTab {
        (st, SettingsKeyAction::PrevPage)
    } else if key == KeyCode::Down || is_char(key, 'j') {
        (st, SettingsKeyAction::MoveSelection(1, 1))
    } else if key == KeyCode::Up || is_char(key, 'k') {
        (st, SettingsKeyAction::MoveSelection(-1isize, 1))
    } else if key == KeyCode::PageDown {
        (st, SettingsKeyAction::MoveSelection(1, 8))
    } else if key == KeyCode::PageUp {
        (st, SettingsKeyAction::MoveSelection(-1isize, 8))
    } else if key == KeyCode::Enter || is_char(key, ' ') {
        (st, SettingsKeyAction::Activate)
    } else if is_char(key, 's') || is_char(key, 'S') {
        (st, SettingsKeyAction::Save)
    } else if is_char(key, '1') {
        (SettingsKeys { page: SettingsPage::About, selected: 0 }, SettingsKeyAction::Nothing)
    } else if is_char(key, '2') {
        (SettingsKeys { page: SettingsPage::Setting, selected: 1 }, SettingsKeyAction::Nothing)
    } else if is_char(key, '3') {
        (SettingsKeys { page: SettingsPage::Extensions, selected: 0 }, SettingsKeyAction::Nothing)
    } else if is_char(key, '4') {
        (SettingsKeys { page: SettingsPage::Help, selected: first_entry(help, 0) as usize }, SettingsKeyAction::Nothing)
    } else {
        (st, SettingsKeyAction::Nothing)
    }
}

fn first_entry_exec(help: &Vec<HelpEntry>) -> (r: usize)
    ensures
        r == first_entry(help@, 0),
{
    let mut i: usize = 0;
    while i < help.len()
        invariant
            i <= help.len(),
            first_entry(help@, 0) == first_entry(help@, i as int),
        decreases help.len() - i,
    {
        if !help[i].is_header {
            return i;
        }
        i = i + 1;
    }
    0
}

/// The settings panel's answer to `key`; `help` is the shortcut reference.
pub fn settings_key(st: SettingsKeys, key: KeyCode, help: &Vec<HelpEntry>) -> (r: (SettingsKeys, SettingsKeyAction))
    ensures
        r == settings_step(st, key, help@),
{
    if matches!(key, KeyCode::Esc) || is_ch(key, 'q') {
        (st, SettingsKeyAction::Close)
    } else if matches!(key, KeyCode::Tab) {
        (st, SettingsKeyAction::NextPage)
    } else if matches!(key, KeyCode::BackTab) {
        (st, SettingsKeyAction::PrevPage)
    } else if matches!(key, KeyCode::Down) || is_ch(key, 'j') {
        (st, SettingsKeyAction::MoveSelection(1, 1))
    } else if matches!(key, KeyCode::Up) || is_ch(key, 'k') {
        (st, SettingsKeyAction::MoveSelection(-1isize, 1))
    } else if matches!(key, KeyCode::PageDown) {
        (st, SettingsKeyAction::MoveSelection(1, 8))
    } else if matches!(key, KeyCode::PageUp) {
        (st, SettingsKeyAction::MoveSelection(-1isize, 8))
    } else if matches!(key, KeyCode::Enter) || is_ch(key, ' ') {
        (st, SettingsKeyAction::Activate)
    } else if is_ch(key, 's') || is_ch(key, 'S') {
        (st, SettingsKeyAction::Save)
    } else if is_ch(key, '1') {
        (SettingsKeys { page: SettingsPage::About, selected: 0 }, SettingsKeyAction::Nothing)
    } else if is_ch(key, '2') {
        (SettingsKeys { page: SettingsPage::Setting, selected: 1 }, SettingsKeyAction::Nothing)
    } else if is_ch(key, '3') {
        (SettingsKeys { page: SettingsPage::Extensions, selected: 0 }, SettingsKeyAction::Nothing)
    } else if is_ch(key, '4') {
        (SettingsKeys { page: SettingsPage::Help, selected: first_entry_exec(help) }, SettingsKeyAction::Nothing)
    } else {
        (st, SettingsKeyAction::Nothing)
    }
}

// ── The debugger panel ──────────────────────────────────────────────────────

/// The debugger panel's parts.
#[derive(Clone, Copy, Debug, PartialEq, Eq, Structural)]
pub enum DebugPane {
    Stack,
    Variables,
    Breakpoints,
    Console,
}

/// What the debugger panel's keys read and change.
#[derive(Clone, Debug)]
pub struct DebugKeys {
    pub pane: DebugPane,
    /// The expression typed into the console.
    pub eval_input: Vec<char>,
    /// The focused variable is expanded.
    pub focused_expanded: bool,
}

/// What the caller does for a debugger-panel key.
#[derive(Clone, Copy, Debug, PartialEq, Eq, Structural)]
pub enum DebugKeyAction {
    Nothing,
    /// Give the editor the keyboard, leave the panel up, and say how to
    /// come back.
    Unfocus,
    ClosePanel,
    NextPane,
    PrevPane,
    MoveFocus(isize),
    /// Select the focused stack frame and show where it stopped.
    SelectFrame,
    /// Expand, or collapse, the focused variable.
    ToggleVar,
    /// Open the focused breakpoint's file at its line.
    OpenBreakpoint,
    /// Evaluate the console's expression.
    Evaluate,
    Continue,
    StepOver,
    StepInto,
    StepOut,
    Pause,
    Restart,
    Stop,
    ToggleBreakpoint,
    SetPane(DebugPane),
}

pub struct DebugView {
    pub pane: DebugPane,
    pub eval_input: Seq<char>,
    pub focused_expanded: bool,
}

pub open spec fn debug_view(st: DebugKeys) -> DebugView {
    DebugView { pane: st.pane, eval_input: st.eval_input@, focused_expanded: st.focused_expanded }
}

/// The debugger's single-letter commands, outside the console.
pub open spec fn debug_command(key: KeyCode) -> DebugKeyAction {
    if is_char(key, 'c') {
        DebugKeyAction::Continue
    } else if is_char(key, 'n') {
        DebugKeyAction::StepOver
    } else if is_char(key, 'i') || is_char(key, 's') {
        DebugKeyAction::StepInto
    } else if is_char(key, 'o') {
        DebugKeyAction::StepOut
    } else if is_char(key, 'p') {
        DebugKeyAction::Pause
    } else if is_char(key, 'r') {
        DebugKeyAction::Restart
    } else if is_char(key, 'x') || is_char(key, 'S') {
        DebugKeyAction::Stop
    } else if is_char(key, 'b') {
        DebugKeyAction::ToggleBreakpoint
    } else {
        DebugKeyAction::Nothing
    }
}

/// The debugger panel: Esc gives the editor the keyboard and `q` closes the
/// panel; Tab turns parts; Enter (or `l`) acts on the focused row of the
/// part; `h` collapses an expanded variable; outside the console the letters
/// drive the debugger; 1 to 4 pick a part; in the console characters and
/// Backspace edit the expression.
pub open spec fn debug_step(st: DebugView, key: KeyCode) -> (DebugView, DebugKeyAction) {
    let console = st.pane == DebugPane::Console;
    if key == KeyCode::Esc {
        (st, DebugKeyAction::Unfocus)
    } else if is_char(key, 'q') {
        (st, DebugKeyAction::ClosePanel)
    } else if key == KeyCode::Tab {
        (st, DebugKeyAction::NextPane)
    } else if key == KeyCode::BackTab {
        (st, DebugKeyAction::PrevPane)
    } else if key == KeyCode::Down || is_char(key, 'j') {
        (st, DebugKeyAction::MoveFocus(1))
    } else if key == KeyCode::Up || is_char(key, 'k') {
        (st, DebugKeyAction::MoveFocus(-1isize))
    } else if key == KeyCode::Enter || is_char(key, 'l') {
        (st, match st.pane {
            DebugPane::Stack => DebugKeyAction::SelectFrame,
            DebugPane::Variables => DebugKeyAction::ToggleVar,
            DebugPane::Breakpoints => DebugKeyAction::OpenBreakpoint,
            DebugPane::Console => if st.eval_input.len() > 0 { DebugKeyAction::Evaluate } else { DebugKeyAction::Nothing },
        })
    } else if is_char(key, 'h') && st.pane == DebugPane::Variables {
        (st, if st.focused_expanded { DebugKeyAction::ToggleVar } else { DebugKeyAction::Nothing })
    } else if !console && debug_command(key) != DebugKeyAction::Nothing {
        (st, debug_command(key))
    } else if is_char(key, '1') {
        (st, DebugKeyAction::SetPane(DebugPane::Stack))
    } else if is_char(key, '2') {
        (st, DebugKeyAction::SetPane(DebugPane::Variables))
    } else if is_char(key, '3') {
        (st, DebugKeyAction::SetPane(DebugPane::Breakpoints))
    } else if is_char(key, '4') {
        (st, DebugKeyAction::SetPane(DebugPane::Console))
    } else if typed(key) && console {
        (DebugView { eval_input: st.eval_input.push(char_of(key)), ..st }, DebugKeyAction::Nothing)
    } else if key == KeyCode::Backspace && console {
        (DebugView { eval_input: popped(st.eval_input), ..st }, DebugKeyAction::Nothing)
    } else {
        (st, DebugKeyAction::Nothing)
    }
}

fn debug_command_exec(key: KeyCode) -> (a: DebugKeyAction)
    ensures
        a == debug_command(key),
{
    if is_ch(key, 'c') {
        DebugKeyAction::Continue
    } else if is_ch(key, 'n') {
        DebugKeyAction::StepOver
    } else if is_ch(key, 'i') || is_ch(key, 's') {
        DebugKeyAction::StepInto
    } else if is_ch(key, 'o') {
        DebugKeyAction::StepOut
    } else if is_ch(key, 'p') {
        DebugKeyAction::Pause
    } else if is_ch(key, 'r') {
        DebugKeyAction::Restart
    } else if is_ch(key, 'x') || is_ch(key, 'S') {
        DebugKeyAction::Stop
    } else if is_ch(key, 'b') {
        DebugKeyAction::ToggleBreakpoint
    } else {
        DebugKeyAction::Nothing
    }
}

/// The debugger panel's answer to `key`.
pub fn debug_key(st: &mut DebugKeys, key: KeyCode) -> (a: DebugKeyAction)
    ensures
        (debug_view(*final(st)), a) == debug_step(debug_view(*old(st)), key),
{
    let console = matches!(st.pane, DebugPane::Console);
    if matches!(key, KeyCode::Esc) {
        return DebugKeyAction::Unfocus;
    }
    if is_ch(key, 'q') {
        return DebugKeyAction::ClosePanel;
    }
    if matches!(key, KeyCode::Tab) {
        return DebugKeyAction::NextPane;
    }
    if matches!(key, KeyCode::BackTab) {
        return DebugKeyAction::PrevPane;
    }
    if matches!(key, KeyCode::Down) || is_ch(key, 'j') {
        return DebugKeyAction::MoveFocus(1);
    }
    if matches!(key, KeyCode::Up) || is_ch(key, 'k') {
        return DebugKeyAction::MoveFocus(-1isize);
    }
    if matches!(key, KeyCode::Enter) || is_ch(key, 'l') {
        return match st.pane {
            DebugPane::Stack => DebugKeyAction::SelectFrame,
            DebugPane::Variables => DebugKeyAction::ToggleVar,
            DebugPane::Breakpoints => DebugKeyAction::OpenBreakpoint,
            DebugPane::Console => if st.eval_input.len() > 0 { DebugKeyAction::Evaluate } else { DebugKeyAction::Nothing },
        };
    }
    if is_ch(key, 'h') && matches!(st.pane, DebugPane::Variables) {
        return if st.focused_expanded { DebugKeyAction::ToggleVar } else { DebugKeyAction::Nothing };
    }
    let cmd = debug_command_exec(key);
    if !console && !matches!(cmd, DebugKeyAction::Nothing) {
        return cmd;
    }
    if is_ch(key, '1') {
        return DebugKeyAction::SetPane(DebugPane::Stack);
    }
    if is_ch(key, '2') {
        return DebugKeyAction::SetPane(DebugPane::Variables);
    }
    if is_ch(key, '3') {
        return DebugKeyAction::SetPane(DebugPane::Breakpoints);
    }
    if is_ch(key, '4') {
        return DebugKeyAction::SetPane(DebugPane::Console);
    }
    if console {
        match typed_char(key) {
            Some(c) => {
                st.eval_input.push(c);
                return DebugKeyAction::Nothing;
            },
            None => {},
        }
        if matches!(key, KeyCode::Backspace) {
            pop_last(&mut st.eval_input);
        }
    }
    DebugKeyAction::Nothing
}

// ── The command palette, the call hierarchy, the explorer, the search bar ───

/// What the caller does with the palette for a key.
#[derive(Clone, Copy, Debug, PartialEq, Eq, Structural)]
pub enum PaletteKeyAction {
    Nothing,
    /// Close the palette, give the editor the keyboard, clear the status line.
    Close,
    /// Run the selected entry.
    Execute,
    MoveDown,
    MoveUp,
    PopChar,
    PushChar(char),
}

/// The palette: the arrows move (letters always type, `j` and `k` too).
pub open spec fn palette_step(key: KeyCode) -> PaletteKeyAction {
    if key == KeyCode::Esc {
        PaletteKeyAction::Close
    } else if key == KeyCode::Enter {
        PaletteKeyAction::Execute
    } else if key == KeyCode::Down {
        PaletteKeyAction::MoveDown
    } else if key == KeyCode::Up {
        PaletteKeyAction::MoveUp
    } else if key == KeyCode::Backspace {
        PaletteKeyAction::PopChar
    } else if typed(key) {
        PaletteKeyAction::PushChar(char_of(key))
    } else {
        PaletteKeyAction::Nothing
    }
}

pub fn palette_key(key: KeyCode) -> (a: PaletteKeyAction)
    ensures
        a == palette_step(key),
{
    match key {
        KeyCode::Esc => PaletteKeyAction::Close,
        KeyCode::Enter => PaletteKeyAction::Execute,
        KeyCode::Down => PaletteKeyAction::MoveDown,
        KeyCode::Up => PaletteKeyAction::MoveUp,
        KeyCode::Backspace => PaletteKeyAction::PopChar,
        _ => match typed_char(key) {
            Some(c) => PaletteKeyAction::PushChar(c),
            None => PaletteKeyAction::Nothing,
        },
    }
}

/// What the caller does with the call hierarchy for a key.
#[derive(Clone, Copy, Debug, PartialEq, Eq, Structural)]
pub enum CallHierarchyAction {
    Nothing,
    /// Close it, give the editor the keyboard, clear the status line.
    Close,
    MoveSelection(isize),
    ToggleDirection,
    /// Open the selected call site, when its file exists, and close.
    OpenSelected,
    /// Show the incoming calls, or the outgoing ones.
    ShowIncoming,
    ShowOutgoing,
}

pub open spec fn call_hierarchy_step(key: KeyCode) -> CallHierarchyAction {
    if key == KeyCode::Esc || is_char(key, 'q') {
        CallHierarchyAction::Close
    } else if key == KeyCode::Down || is_char(key, 'j') {
        CallHierarchyAction::MoveSelection(1)
    } else if key == KeyCode::Up || is_char(key, 'k') {
        CallHierarchyAction::MoveSelection(-1isize)
    } else if key == KeyCode::Tab || is_char(key, 't') {
        CallHierarchyAction::ToggleDirection
    } else if key == KeyCode::Enter || is_char(key, 'l') || is_char(key, 'o') {
        CallHierarchyAction::OpenSelected
    } else if is_char(key, 'i') {
        CallHierarchyAction::ShowIncoming
    } else if is_char(key, 'O') {
        CallHierarchyAction::ShowOutgoing
    } else {
        CallHierarchyAction::Nothing
    }
}

pub fn call_hierarchy_key(key: KeyCode) -> (a: CallHierarchyAction)
    ensures
        a == call_hierarchy_step(key),
{
    if matches!(key, KeyCode::Esc) || is_ch(key, 'q') {
        CallHierarchyAction::Close
    } else if matches!(key, KeyCode::Down) || is_ch(key, 'j') {
        CallHierarchyAction::MoveSelection(1)
    } else if matches!(key, KeyCode::Up) || is_ch(key, 'k') {
        CallHierarchyAction::MoveSelection(-1isize)
    } else if matches!(key, KeyCode::Tab) || is_ch(key, 't') {
        CallHierarchyAction::ToggleDirection
    } else if matches!(key, KeyCode::Enter) || is_ch(key, 'l') || is_ch(key, 'o') {
        CallHierarchyAction::OpenSelected
    } else if is_ch(key, 'i') {
        CallHierarchyAction::ShowIncoming
    } else if is_ch(key, 'O') {
        CallHierarchyAction::ShowOutgoing
    } else {
        CallHierarchyAction::Nothing
    }
}

/// What the caller does with the explorer for a key.
#[derive(Clone, Copy, Debug, PartialEq, Eq, Structural)]
pub enum ExplorerAction {
    Nothing,
    /// Close it and give the editor the keyboard.
    Close,
    MoveDown,
    MoveUp,
    /// Go up to the parent directory, when there is one.
    Parent,
    /// Enter the selected directory or open the selected file.
    OpenSelected,
}

pub open spec fn explorer_step(key: KeyCode) -> ExplorerAction {
    if key == KeyCode::Esc || is_char(key, 'q') {
        ExplorerAction::Close
    } else if is_char(key, 'j') || key == KeyCode::Down {
        ExplorerAction::MoveDown
    } else if is_char(key, 'k') || key == KeyCode::Up {
        ExplorerAction::MoveUp
    } else if is_char(key, 'h') {
        ExplorerAction::Parent
    } else if key == KeyCode::Enter || is_char(key, 'l') {
        ExplorerAction::OpenSelected
    } else {
        ExplorerAction::Nothing
    }
}

pub fn explorer_key(key: KeyCode) -> (a: ExplorerAction)
    ensures
        a == explorer_step(key),
{
    if matches!(key, KeyCode::Esc) || is_ch(key, 'q') {
        ExplorerAction::Close
    } else if is_ch(key, 'j') || matches!(key, KeyCode::Down) {
        ExplorerAction::MoveDown
    } else if is_ch(key, 'k') || matches!(key, KeyCode::Up) {
        ExplorerAction::MoveUp
    } else if is_ch(key, 'h') {
        ExplorerAction::Parent
    } else if matches!(key, KeyCode::Enter) || is_ch(key, 'l') {
        ExplorerAction::OpenSelected
    } else {
        ExplorerAction::Nothing
    }
}

/// What the caller does with the search bar for a key.
#[derive(Clone, Copy, Debug, PartialEq, Eq, Structural)]
pub enum SearchInputAction {
    Nothing,
    Cancel,
    Commit,
    Backspace,
    /// Drop the last character and search again; an empty bar stays open.
    DeleteLast,
    /// Go to the next match, or the previous one.
    Cycle(bool),
    Type(char),
}

pub open spec fn search_input_step(key: KeyCode, input_empty: bool) -> SearchInputAction {
    if key == KeyCode::Esc {
        SearchInputAction::Cancel
    } else if key == KeyCode::Enter {
        SearchInputAction::Commit
    } else if key == KeyCode::Backspace {
        SearchInputAction::Backspace
    } else if key == KeyCode::Delete {
        if input_empty { SearchInputAction::Nothing } else { SearchInputAction::DeleteLast }
    } else if key == KeyCode::Down {
        SearchInputAction::Cycle(true)
    } else if key == KeyCode::Up {
        SearchInputAction::Cycle(false)
    } else if typed(key) {
        SearchInputAction::Type(char_of(key))
    } else {
        SearchInputAction::Nothing
    }
}

/// The search bar's answer to `key`; `input_empty` says whether the bar is
/// empty.
pub fn search_input_key(key: KeyCode, input_empty: bool) -> (a: SearchInputAction)
    ensures
        a == search_input_step(key, input_empty),
{
    match key {
        KeyCode::Esc => SearchInputAction::Cancel,
        KeyCode::Enter => SearchInputAction::Commit,
        KeyCode::Backspace => SearchInputAction::Backspace,
        KeyCode::Delete => if input_empty { SearchInputAction::Nothing } else { SearchInputAction::DeleteLast },
        KeyCode::Down => SearchInputAction::Cycle(true),
        KeyCode::Up => SearchInputAction::Cycle(false),
        _ => match typed_char(key) {
            Some(c) => SearchInputAction::Type(c),
            None => SearchInputAction::Nothing,
        },
    }
}

/// Typing into find in files: with the query focused a character goes into
/// the query, and the search runs once the query has two bytes.
pub proof fn law_typing_searches_from_two_bytes(st: SearchPanelView, c: char)
    requires
        !st.replace_focus,
        !is_control(c),
        c != 'j' || st.query.len() > 0,
        c != 'k',
        c != 'r',
        c != 'R',
    ensures
        workspace_search_step(st, KeyCode::Char(c)).0.query == st.query.push(c),
        workspace_search_step(st, KeyCode::Char(c)).1 == (if two_bytes(st.query.push(c)) {
            SearchPanelAction::RunSearch
        } else {
            SearchPanelAction::Nothing
        }),
        st.query.len() >= 1 ==> workspace_search_step(st, KeyCode::Char(c)).1 == SearchPanelAction::RunSearch,
{
}

} // verus!

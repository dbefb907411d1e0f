//! The one key entry of every face: from the application's keyboard state, a
//! key and its modifiers to the next state and what the application does.
//! Chords of the whole application come first; what they leave goes to the
//! surface that owns the keyboard.

use vstd::prelude::*;
use crate::key::{KeyCode, KeyModifiers};
use crate::panel_keys::{char_of, is_char, held, pane_step, PaneKeys, pane_terminal_key, is_ch};
use crate::text::{is_alnum, char_is_alnum, chars_of, string_of};

verus! {

/// The surface that owns the keyboard.
#[derive(Clone, Copy, Debug, PartialEq, Eq, Structural)]
pub enum Mode {
    Editor,
    Explorer,
    Terminal,
    Search,
    Palette,
    SourceControl,
    GitWorkbench,
    Settings,
    Preview,
    WorkspaceSearch,
    Debug,
    CallHierarchy,
}

/// What the application's key entry reads and changes.
#[derive(Clone, Copy, Debug, PartialEq, Eq, Structural)]
pub struct DispatchKeys {
    pub mode: Mode,
    /// A pane's terminal window has the focus.
    pub terminal_window_focused: bool,
    /// The keyboard state of that terminal pane.
    pub pane: PaneKeys,
    /// The editor's right-click menu is up, with its selection and length.
    pub menu_open: bool,
    pub menu_sel: usize,
    pub menu_len: usize,
    /// The peek overlay is up.
    pub peek_open: bool,
    /// The first key of the Ctrl+W chord was pressed.
    pub pending_chord: bool,
    /// The docked terminal is open.
    pub terminal_open: bool,
    /// The editor has a selection.
    pub has_selection: bool,
    /// The explorer is open.
    pub explorer_open: bool,
}

/// What the application does for a key.
#[derive(Clone, Copy, Debug, PartialEq, Eq, Structural)]
pub enum DispatchAction {
    Nothing,
    /// Hand the key to the focused terminal pane.
    ToPaneTerminal,
    /// Caret motions, each followed by scrolling the caret into view.
    LineStart,
    LineEnd,
    GotoFirstLine,
    GotoLastLine,
    DeleteToLineStart,
    WordBack,
    WordForward,
    DeleteWordBack,
    Copy,
    Cut,
    Paste,
    /// Paste the clipboard (text, or an image's path) into the terminal
    /// that owns the keyboard.
    PasteToTerminal,
    TogglePreview,
    OpenCommandPalette,
    OpenFilePalette,
    OpenWorkspaceSearch,
    ToggleTerminalFull,
    ToggleTerminalSide,
    DocumentSymbols,
    FormatDocument,
    ToggleGitWorkbench,
    ToggleScm,
    OpenSettings,
    Save,
    /// Close the editor's menu and clear the status line.
    CloseEditorMenu,
    RunEditorMenuAction,
    /// Close the peek overlay and clear the status line.
    ClosePeek,
    PromotePeek,
    ScrollPeek(isize),
    SplitVertical,
    SplitHorizontal,
    FocusOtherPane,
    CloseSplit,
    /// Equalize the split and say so.
    EqualizeSplit,
    /// Move the focus to the pane in this direction (h, j, k, l).
    FocusDir(char),
    /// Grow, or shrink, the focused pane.
    ResizeSplit(bool),
    ClearMessage,
    /// Name the second keys of the Ctrl+W chord.
    ChordHelp,
    /// Say that the Ctrl+W chord waits for its second key.
    ChordStarted,
    CodeActions,
    DapStop,
    DapContinue,
    DapPause,
    DapToggleBreakpoint,
    DapStepOver,
    DapStepInto,
    DapStepOut,
    /// Start the docked terminal for the current file.
    StartTerminal,
    ShutdownTerminal,
    MultiCursorNext,
    MultiCursorBelow,
    MultiCursorAbove,
    Redo,
    JumpBack,
    JumpForward,
    TriggerCompletion,
    ToggleDebugPanel,
    ToggleBlame,
    /// Open the explorer at the current file.
    OpenExplorer,
    CloseExplorer,
    /// Write this control byte to the docked terminal.
    TerminalByte(u8),
    /// Hand the key to the surface of this mode.
    Route(Mode),
}

pub open spec fn shift_held(m: KeyModifiers) -> bool {
    held(m, 1)
}

pub open spec fn ctrl_held(m: KeyModifiers) -> bool {
    held(m, 2)
}

pub open spec fn alt_held(m: KeyModifiers) -> bool {
    held(m, 4)
}

pub open spec fn super_held(m: KeyModifiers) -> bool {
    held(m, 8)
}

/// Command on macOS, or Ctrl with Shift as terminals send it.
pub open spec fn cmd_like(m: KeyModifiers) -> bool {
    super_held(m) || (ctrl_held(m) && shift_held(m))
}

/// The letter key in either case.
pub open spec fn letter(key: KeyCode, lower: char, upper: char) -> bool {
    is_char(key, lower) || is_char(key, upper)
}

/// The surfaces from which the Git views open.
pub open spec fn git_mode(mode: Mode) -> bool {
    mode == Mode::Editor || mode == Mode::SourceControl || mode == Mode::GitWorkbench || mode == Mode::Explorer
}

/// The surfaces from which the settings open.
pub open spec fn settings_mode(mode: Mode) -> bool {
    mode == Mode::Editor || mode == Mode::Settings || mode == Mode::Explorer || mode == Mode::GitWorkbench
}

/// The Command-like chords: macOS motions in the editor, the clipboard, and
/// the shortcuts that open the application's surfaces.
pub open spec fn cmd_section(st: DispatchKeys, key: KeyCode, m: KeyModifiers) -> Option<(DispatchKeys, DispatchAction)> {
    let mode = st.mode;
    let shift = shift_held(m);
    if !cmd_like(m) {
        None
    } else if (key == KeyCode::Left || key == KeyCode::Right || key == KeyCode::Up || key == KeyCode::Down
        || key == KeyCode::Backspace) && mode == Mode::Editor {
        Some((st, if key == KeyCode::Left {
            DispatchAction::LineStart
        } else if key == KeyCode::Right {
            DispatchAction::LineEnd
        } else if key == KeyCode::Up {
            DispatchAction::GotoFirstLine
        } else if key == KeyCode::Down {
            DispatchAction::GotoLastLine
        } else {
            DispatchAction::DeleteToLineStart
        }))
    } else if letter(key, 'c', 'C') {
        Some((st, if mode != Mode::Terminal && mode != Mode::Palette && mode != Mode::SourceControl {
            DispatchAction::Copy
        } else {
            DispatchAction::Nothing
        }))
    } else if letter(key, 'v', 'V') {
        Some((st, if st.terminal_window_focused || (st.terminal_open && mode == Mode::Terminal) {
            DispatchAction::PasteToTerminal
        } else if shift {
            if mode == Mode::Editor || mode == Mode::Preview || mode == Mode::Explorer {
                DispatchAction::TogglePreview
            } else {
                DispatchAction::Nothing
            }
        } else if mode != Mode::Terminal && mode != Mode::Palette && mode != Mode::SourceControl && mode != Mode::Preview {
            DispatchAction::Paste
        } else {
            DispatchAction::Nothing
        }))
    } else if letter(key, 'x', 'X') {
        Some((st, if mode == Mode::Editor && st.has_selection { DispatchAction::Cut } else { DispatchAction::Nothing }))
    } else if letter(key, 'p', 'P') && shift {
        Some((st, DispatchAction::OpenCommandPalette))
    } else if letter(key, 'p', 'P') && super_held(m) {
        Some((st, DispatchAction::OpenFilePalette))
    } else if letter(key, 'f', 'F') && shift && (mode == Mode::Editor || mode == Mode::WorkspaceSearch
        || mode == Mode::Explorer) {
        Some((st, DispatchAction::OpenWorkspaceSearch))
    } else if letter(key, 't', 'T') && shift && (mode == Mode::Editor || mode == Mode::Terminal
        || mode == Mode::Explorer || mode == Mode::GitWorkbench) {
        Some((st, DispatchAction::ToggleTerminalFull))
    } else if letter(key, 'o', 'O') && shift && (mode == Mode::Editor || mode == Mode::Explorer) {
        Some((st, DispatchAction::DocumentSymbols))
    } else if letter(key, 'i', 'I') && shift && mode == Mode::Editor {
        Some((st, DispatchAction::FormatDocument))
    } else if letter(key, 'g', 'G') {
        Some((st, if !git_mode(mode) {
            DispatchAction::Nothing
        } else if shift {
            DispatchAction::ToggleGitWorkbench
        } else {
            DispatchAction::ToggleScm
        }))
    } else if is_char(key, ',') {
        Some((st, if settings_mode(mode) { DispatchAction::OpenSettings } else { DispatchAction::Nothing }))
    } else if letter(key, 's', 'S') {
        Some((st, if mode == Mode::Editor { DispatchAction::Save } else { DispatchAction::Nothing }))
    } else {
        None
    }
}

/// The editor's right-click menu takes every key while it is up.
pub open spec fn menu_section(st: DispatchKeys, key: KeyCode) -> Option<(DispatchKeys, DispatchAction)> {
    let sel = st.menu_sel as int;
    let last = if st.menu_len > 0 { st.menu_len - 1 } else { 0 };
    if !st.menu_open {
        None
    } else if key == KeyCode::Esc {
        Some((st, DispatchAction::CloseEditorMenu))
    } else if key == KeyCode::Up || is_char(key, 'k') {
        Some((DispatchKeys { menu_sel: (if sel > 0 { sel - 1 } else { 0 }) as usize, ..st }, DispatchAction::Nothing))
    } else if key == KeyCode::Down || is_char(key, 'j') {
        Some((DispatchKeys { menu_sel: (if sel + 1 <= last { sel + 1 } else { last }) as usize, ..st }, DispatchAction::Nothing))
    } else if key == KeyCode::Enter {
        Some((st, DispatchAction::RunEditorMenuAction))
    } else {
        Some((st, DispatchAction::Nothing))
    }
}

/// The peek overlay takes Esc, Enter and the vertical motions.
pub open spec fn peek_section(st: DispatchKeys, key: KeyCode) -> Option<(DispatchKeys, DispatchAction)> {
    if !st.peek_open {
        None
    } else if key == KeyCode::Esc {
        Some((st, DispatchAction::ClosePeek))
    } else if key == KeyCode::Enter {
        Some((st, DispatchAction::PromotePeek))
    } else if key == KeyCode::Down || is_char(key, 'j') {
        Some((st, DispatchAction::ScrollPeek(1)))
    } else if key == KeyCode::Up || is_char(key, 'k') {
        Some((st, DispatchAction::ScrollPeek(-1isize)))
    } else {
        None
    }
}

/// The second key of the Ctrl+W chord: it ends the chord whatever it is.
pub open spec fn chord_section(st: DispatchKeys, key: KeyCode, m: KeyModifiers) -> Option<(DispatchKeys, DispatchAction)> {
    if !(st.pending_chord && st.mode == Mode::Editor && !ctrl_held(m)) {
        None
    } else {
        Some((DispatchKeys { pending_chord: false, ..st }, if is_char(key, 'v') {
            DispatchAction::SplitVertical
        } else if is_char(key, 's') {
            DispatchAction::SplitHorizontal
        } else if letter(key, 'w', 'W') {
            DispatchAction::FocusOtherPane
        } else if is_char(key, 'q') {
            DispatchAction::CloseSplit
        } else if is_char(key, '=') {
            DispatchAction::EqualizeSplit
        } else if is_char(key, 'h') || key == KeyCode::Left {
            DispatchAction::FocusDir('h')
        } else if is_char(key, 'l') || key == KeyCode::Right {
            DispatchAction::FocusDir('l')
        } else if is_char(key, 'k') || key == KeyCode::Up {
            DispatchAction::FocusDir('k')
        } else if is_char(key, 'j') || key == KeyCode::Down {
            DispatchAction::FocusDir('j')
        } else if is_char(key, '>') {
            DispatchAction::ResizeSplit(true)
        } else if is_char(key, '<') {
            DispatchAction::ResizeSplit(false)
        } else if key == KeyCode::Esc {
            DispatchAction::ClearMessage
        } else {
            DispatchAction::ChordHelp
        }))
    }
}

/// Option with the arrows and Backspace moves and deletes by word.
pub open spec fn alt_section(st: DispatchKeys, key: KeyCode, m: KeyModifiers) -> Option<(DispatchKeys, DispatchAction)> {
    if !(alt_held(m) && !cmd_like(m) && !ctrl_held(m) && st.mode == Mode::Editor) {
        None
    } else if key == KeyCode::Left {
        Some((st, DispatchAction::WordBack))
    } else if key == KeyCode::Right {
        Some((st, DispatchAction::WordForward))
    } else if key == KeyCode::Backspace {
        Some((st, DispatchAction::DeleteWordBack))
    } else {
        None
    }
}

/// Ctrl alone in the editor: W starts the split chord, `.` asks for code
/// actions and V pastes.
pub open spec fn ctrl_plain_section(st: DispatchKeys, key: KeyCode, m: KeyModifiers) -> Option<(DispatchKeys, DispatchAction)> {
    if !(ctrl_held(m) && !shift_held(m) && !super_held(m) && st.mode == Mode::Editor) {
        None
    } else if letter(key, 'w', 'W') {
        Some((DispatchKeys { pending_chord: true, ..st }, DispatchAction::ChordStarted))
    } else if is_char(key, '.') {
        Some((st, DispatchAction::CodeActions))
    } else if letter(key, 'v', 'V') {
        Some((st, DispatchAction::Paste))
    } else {
        None
    }
}

/// The debugger's function keys, in the editor and the debug panel.
pub open spec fn debug_section(st: DispatchKeys, key: KeyCode, m: KeyModifiers) -> Option<(DispatchKeys, DispatchAction)> {
    let shift = shift_held(m);
    if !(st.mode == Mode::Editor || st.mode == Mode::Debug) {
        None
    } else if key == KeyCode::F(5) {
        Some((st, if shift { DispatchAction::DapStop } else { DispatchAction::DapContinue }))
    } else if key == KeyCode::F(6) {
        Some((st, DispatchAction::DapPause))
    } else if key == KeyCode::F(9) {
        Some((st, DispatchAction::DapToggleBreakpoint))
    } else if key == KeyCode::F(10) {
        Some((st, DispatchAction::DapStepOver))
    } else if key == KeyCode::F(11) {
        Some((st, if shift { DispatchAction::DapStepOut } else { DispatchAction::DapStepInto }))
    } else {
        None
    }
}

/// The docked terminal closed, with the editor back in front.
pub open spec fn terminal_closed(st: DispatchKeys) -> DispatchKeys {
    DispatchKeys { terminal_open: false, mode: Mode::Editor, ..st }
}

/// F12 opens the docked terminal, or closes it.
pub open spec fn f12_section(st: DispatchKeys, key: KeyCode) -> Option<(DispatchKeys, DispatchAction)> {
    if key != KeyCode::F(12) {
        None
    } else if st.terminal_open {
        Some((terminal_closed(st), DispatchAction::ShutdownTerminal))
    } else {
        Some((DispatchKeys { terminal_open: true, mode: Mode::Terminal, ..st }, DispatchAction::StartTerminal))
    }
}

/// The byte Ctrl with a character sends to the docked terminal: a lowercase
/// letter its control code, anything else its low byte.
pub open spec fn terminal_ctrl_byte(c: char) -> u8 {
    if 'a' <= c <= 'z' {
        ((c as u32) - 0x60) as u8
    } else {
        ((c as u32) % 256) as u8
    }
}

/// The action when `b` holds, else nothing.
pub open spec fn when(b: bool, a: DispatchAction) -> DispatchAction {
    if b { a } else { DispatchAction::Nothing }
}

/// Ctrl outside the terminal: multi-cursor, save, redo, the jump list,
/// completion and the panels.
pub open spec fn ctrl_editor_section(st: DispatchKeys, key: KeyCode, m: KeyModifiers) -> Option<(DispatchKeys, DispatchAction)> {
    let mode = st.mode;
    let editor = mode == Mode::Editor;
    let shift = shift_held(m);
    if letter(key, 'd', 'D') && !shift && editor {
        Some((st, DispatchAction::MultiCursorNext))
    } else if alt_held(m) && editor && (key == KeyCode::Down || is_char(key, 'j')) {
        Some((st, DispatchAction::MultiCursorBelow))
    } else if alt_held(m) && editor && (key == KeyCode::Up || is_char(key, 'k')) {
        Some((st, DispatchAction::MultiCursorAbove))
    } else if is_char(key, 's') {
        Some((st, when(editor, DispatchAction::Save)))
    } else if is_char(key, 'r') {
        Some((st, when(editor, DispatchAction::Redo)))
    } else if is_char(key, 'o') {
        Some((st, when(editor, DispatchAction::JumpBack)))
    } else if is_char(key, 'i') {
        Some((st, when(editor, DispatchAction::JumpForward)))
    } else if is_char(key, 'p') {
        Some((st, when(editor, DispatchAction::OpenFilePalette)))
    } else if is_char(key, 'a') {
        Some((st, when(editor, DispatchAction::TriggerCompletion)))
    } else if is_char(key, 'g') {
        Some((st, when(git_mode(mode), DispatchAction::ToggleScm)))
    } else if letter(key, 'd', 'D') && shift {
        Some((st, when(editor || mode == Mode::Debug || mode == Mode::Explorer, DispatchAction::ToggleDebugPanel)))
    } else if is_char(key, ',') {
        Some((st, when(settings_mode(mode), DispatchAction::OpenSettings)))
    } else if letter(key, 'b', 'B') && (editor || mode == Mode::Explorer) {
        Some((st, DispatchAction::ToggleBlame))
    } else if is_char(key, 'f') {
        Some(if !(editor || mode == Mode::Explorer) {
            (st, DispatchAction::Nothing)
        } else if st.explorer_open {
            (DispatchKeys { explorer_open: false, mode: Mode::Editor, ..st }, DispatchAction::CloseExplorer)
        } else {
            (DispatchKeys { explorer_open: true, mode: Mode::Explorer, ..st }, DispatchAction::OpenExplorer)
        })
    } else {
        None
    }
}

/// Ctrl: Q closes the docked terminal, T alone toggles the side terminal,
/// the editor's chords outside the terminal, and in the terminal a
/// character goes to the shell as a control byte.
pub open spec fn ctrl_section(st: DispatchKeys, key: KeyCode, m: KeyModifiers) -> Option<(DispatchKeys, DispatchAction)> {
    if !ctrl_held(m) {
        None
    } else if is_char(key, 'q') {
        Some(if st.terminal_open { (terminal_closed(st), DispatchAction::ShutdownTerminal) } else { (st, DispatchAction::Nothing) })
    } else if is_char(key, 't') && !shift_held(m) {
        Some((st, DispatchAction::ToggleTerminalSide))
    } else if st.mode != Mode::Terminal {
        ctrl_editor_section(st, key, m)
    } else if key is Char {
        Some((st, DispatchAction::TerminalByte(terminal_ctrl_byte(char_of(key)))))
    } else {
        None
    }
}

/// What no chord took goes to the surface that owns the keyboard; the
/// editor's own keys are handled by its engine.
pub open spec fn route(st: DispatchKeys) -> (DispatchKeys, DispatchAction) {
    (st, if st.mode == Mode::Editor { DispatchAction::Nothing } else { DispatchAction::Route(st.mode) })
}

/// The application's answer to a key. A focused terminal pane takes what it
/// claims; then the Command-like chords, the editor's menu, the peek
/// overlay, the split chord, the word motions, the plain Ctrl chords, the
/// debugger's keys, F12 and the Ctrl chords, in that order, each taking the
/// key or leaving it to the next; what none takes is routed by mode.
pub open spec fn dispatch_spec(st: DispatchKeys, key: KeyCode, m: KeyModifiers) -> (DispatchKeys, DispatchAction) {
    if st.terminal_window_focused && st.mode == Mode::Editor && pane_step(st.pane, key, m).0 {
        (st, DispatchAction::ToPaneTerminal)
    } else {
        let s1 = cmd_section(st, key, m);
        let s2 = menu_section(st, key);
        let s3 = peek_section(st, key);
        let s4 = chord_section(st, key, m);
        let s5 = alt_section(st, key, m);
        let s6 = ctrl_plain_section(st, key, m);
        let s7 = debug_section(st, key, m);
        let s8 = f12_section(st, key);
        let s9 = ctrl_section(st, key, m);
        if s1 is Some { s1->0 }
        else if s2 is Some { s2->0 }
        else if s3 is Some { s3->0 }
        else if s4 is Some { s4->0 }
        else if s5 is Some { s5->0 }
        else if s6 is Some { s6->0 }
        else if s7 is Some { s7->0 }
        else if s8 is Some { s8->0 }
        else if s9 is Some { s9->0 }
        else { route(st) }
    }
}

fn mods(m: KeyModifiers) -> (r: (bool, bool, bool, bool))
    ensures
        r == (shift_held(m), ctrl_held(m), alt_held(m), super_held(m)),
{
    (m.contains(KeyModifiers::shift()), m.contains(KeyModifiers::control()), m.contains(KeyModifiers::alt()),
        m.contains(KeyModifiers::super_key()))
}

fn letter_exec(key: KeyCode, lower: char, upper: char) -> (b: bool)
    ensures
        b == letter(key, lower, upper),
{
    is_ch(key, lower) || is_ch(key, upper)
}

fn git_mode_exec(mode: Mode) -> (b: bool)
    ensures
        b == git_mode(mode),
{
    matches!(mode, Mode::Editor | Mode::SourceControl | Mode::GitWorkbench | Mode::Explorer)
}

fn settings_mode_exec(mode: Mode) -> (b: bool)
    ensures
        b == settings_mode(mode),
{
    matches!(mode, Mode::Editor | Mode::Settings | Mode::Explorer | Mode::GitWorkbench)
}

fn cmd_exec(st: DispatchKeys, key: KeyCode, m: KeyModifiers) -> (r: Option<(DispatchKeys, DispatchAction)>)
    ensures
        r == cmd_section(st, key, m),
{
    let (shift, ctrl, _alt, sup) = mods(m);
    let mode = st.mode;
    if !(sup || (ctrl && shift)) {
        return None;
    }
    if matches!(key, KeyCode::Left | KeyCode::Right | KeyCode::Up | KeyCode::Down | KeyCode::Backspace)
        && matches!(mode, Mode::Editor) {
        let a = match key {
            KeyCode::Left => DispatchAction::LineStart,
            KeyCode::Right => DispatchAction::LineEnd,
            KeyCode::Up => DispatchAction::GotoFirstLine,
            KeyCode::Down => DispatchAction::GotoLastLine,
            _ => DispatchAction::DeleteToLineStart,
        };
        return Some((st, a));
    }
    if letter_exec(key, 'c', 'C') {
        let a = if !matches!(mode, Mode::Terminal | Mode::Palette | Mode::SourceControl) {
            DispatchAction::Copy
        } else {
            DispatchAction::Nothing
        };
        return Some((st, a));
    }
    if letter_exec(key, 'v', 'V') {
        let a = if st.terminal_window_focused || (st.terminal_open && matches!(mode, Mode::Terminal)) {
            DispatchAction::PasteToTerminal
        } else if shift {
            if matches!(mode, Mode::Editor | Mode::Preview | Mode::Explorer) {
                DispatchAction::TogglePreview
            } else {
                DispatchAction::Nothing
            }
        } else if !matches!(mode, Mode::Terminal | Mode::Palette | Mode::SourceControl | Mode::Preview) {
            DispatchAction::Paste
        } else {
            DispatchAction::Nothing
        };
        return Some((st, a));
    }
    if letter_exec(key, 'x', 'X') {
        let a = if matches!(mode, Mode::Editor) && st.has_selection { DispatchAction::Cut } else { DispatchAction::Nothing };
        return Some((st, a));
    }
    if letter_exec(key, 'p', 'P') && shift {
        return Some((st, DispatchAction::OpenCommandPalette));
    }
    if letter_exec(key, 'p', 'P') && sup {
        return Some((st, DispatchAction::OpenFilePalette));
    }
    if letter_exec(key, 'f', 'F') && shift && matches!(mode, Mode::Editor | Mode::WorkspaceSearch | Mode::Explorer) {
        return Some((st, DispatchAction::OpenWorkspaceSearch));
    }
    if letter_exec(key, 't', 'T') && shift && matches!(mode, Mode::Editor | Mode::Terminal | Mode::Explorer | Mode::GitWorkbench) {
        return Some((st, DispatchAction::ToggleTerminalFull));
    }
    if letter_exec(key, 'o', 'O') && shift && matches!(mode, Mode::Editor | Mode::Explorer) {
        return Some((st, DispatchAction::DocumentSymbols));
    }
    if letter_exec(key, 'i', 'I') && shift && matches!(mode, Mode::Editor) {
        return Some((st, DispatchAction::FormatDocument));
    }
    if letter_exec(key, 'g', 'G') {
        let a = if !git_mode_exec(mode) {
            DispatchAction::Nothing
        } else if shift {
            DispatchAction::ToggleGitWorkbench
        } else {
            DispatchAction::ToggleScm
        };
        return Some((st, a));
    }
    if is_ch(key, ',') {
        let a = if settings_mode_exec(mode) { DispatchAction::OpenSettings } else { DispatchAction::Nothing };
        return Some((st, a));
    }
    if letter_exec(key, 's', 'S') {
        let a = if matches!(mode, Mode::Editor) { DispatchAction::Save } else { DispatchAction::Nothing };
        return Some((st, a));
    }
    None
}

fn menu_exec(st: DispatchKeys, key: KeyCode) -> (r: Option<(DispatchKeys, DispatchAction)>)
    ensures
        r == menu_section(st, key),
{
    let last: usize = if st.menu_len > 0 { st.menu_len - 1 } else { 0 };
    if !st.menu_open {
        None
    } else if matches!(key, KeyCode::Esc) {
        Some((st, DispatchAction::CloseEditorMenu))
    } else if matches!(key, KeyCode::Up) || is_ch(key, 'k') {
        let sel: usize = if st.menu_sel > 0 { st.menu_sel - 1 } else { 0 };
        Some((DispatchKeys { menu_sel: sel, ..st }, DispatchAction::Nothing))
    } else if matches!(key, KeyCode::Down) || is_ch(key, 'j') {
        let sel: usize = if st.menu_sel < last { st.menu_sel + 1 } else { last };
        Some((DispatchKeys { menu_sel: sel, ..st }, DispatchAction::Nothing))
    } else if matches!(key, KeyCode::Enter) {
        Some((st, DispatchAction::RunEditorMenuAction))
    } else {
        Some((st, DispatchAction::Nothing))
    }
}

fn peek_exec(st: DispatchKeys, key: KeyCode) -> (r: Option<(DispatchKeys, DispatchAction)>)
    ensures
        r == peek_section(st, key),
{
    if !st.peek_open {
        None
    } else if matches!(key, KeyCode::Esc) {
        Some((st, DispatchAction::ClosePeek))
    } else if matches!(key, KeyCode::Enter) {
        Some((st, DispatchAction::PromotePeek))
    } else if matches!(key, KeyCode::Down) || is_ch(key, 'j') {
        Some((st, DispatchAction::ScrollPeek(1)))
    } else if matches!(key, KeyCode::Up) || is_ch(key, 'k') {
        Some((st, DispatchAction::ScrollPeek(-1isize)))
    } else {
        None
    }
}

fn chord_exec(st: DispatchKeys, key: KeyCode, m: KeyModifiers) -> (r: Option<(DispatchKeys, DispatchAction)>)
    ensures
        r == chord_section(st, key, m),
{
    let (_shift, ctrl, _alt, _sup) = mods(m);
    if !(st.pending_chord && matches!(st.mode, Mode::Editor) && !ctrl) {
        return None;
    }
    let a = if is_ch(key, 'v') {
        DispatchAction::SplitVertical
    } else if is_ch(key, 's') {
        DispatchAction::SplitHorizontal
    } else if letter_exec(key, 'w', 'W') {
        DispatchAction::FocusOtherPane
    } else if is_ch(key, 'q') {
        DispatchAction::CloseSplit
    } else if is_ch(key, '=') {
        DispatchAction::EqualizeSplit
    } else if is_ch(key, 'h') || matches!(key, KeyCode::Left) {
        DispatchAction::FocusDir('h')
    } else if is_ch(key, 'l') || matches!(key, KeyCode::Right) {
        DispatchAction::FocusDir('l')
    } else if is_ch(key, 'k') || matches!(key, KeyCode::Up) {
        DispatchAction::FocusDir('k')
    } else if is_ch(key, 'j') || matches!(key, KeyCode::Down) {
        DispatchAction::FocusDir('j')
    } else if is_ch(key, '>') {
        DispatchAction::ResizeSplit(true)
    } else if is_ch(key, '<') {
        DispatchAction::ResizeSplit(false)
    } else if matches!(key, KeyCode::Esc) {
        DispatchAction::ClearMessage
    } else {
        DispatchAction::ChordHelp
    };
    Some((DispatchKeys { pending_chord: false, ..st }, a))
}

fn alt_exec(st: DispatchKeys, key: KeyCode, m: KeyModifiers) -> (r: Option<(DispatchKeys, DispatchAction)>)
    ensures
        r == alt_section(st, key, m),
{
    let (shift, ctrl, alt, sup) = mods(m);
    let cmd = sup || (ctrl && shift);
    if !(alt && !cmd && !ctrl && matches!(st.mode, Mode::Editor)) {
        None
    } else if matches!(key, KeyCode::Left) {
        Some((st, DispatchAction::WordBack))
    } else if matches!(key, KeyCode::Right) {
        Some((st, DispatchAction::WordForward))
    } else if matches!(key, KeyCode::Backspace) {
        Some((st, DispatchAction::DeleteWordBack))
    } else {
        None
    }
}

fn ctrl_plain_exec(st: DispatchKeys, key: KeyCode, m: KeyModifiers) -> (r: Option<(DispatchKeys, DispatchAction)>)
    ensures
        r == ctrl_plain_section(st, key, m),
{
    let (shift, ctrl, _alt, sup) = mods(m);
    if !(ctrl && !shift && !sup && matches!(st.mode, Mode::Editor)) {
        None
    } else if letter_exec(key, 'w', 'W') {
        Some((DispatchKeys { pending_chord: true, ..st }, DispatchAction::ChordStarted))
    } else if is_ch(key, '.') {
        Some((st, DispatchAction::CodeActions))
    } else if letter_exec(key, 'v', 'V') {
        Some((st, DispatchAction::Paste))
    } else {
        None
    }
}

fn debug_exec(st: DispatchKeys, key: KeyCode, m: KeyModifiers) -> (r: Option<(DispatchKeys, DispatchAction)>)
    ensures
        r == debug_section(st, key, m),
{
    let (shift, _ctrl, _alt, _sup) = mods(m);
    if !matches!(st.mode, Mode::Editor | Mode::Debug) {
        return None;
    }
    match key {
        KeyCode::F(5) => Some((st, if shift { DispatchAction::DapStop } else { DispatchAction::DapContinue })),
        KeyCode::F(6) => Some((st, DispatchAction::DapPause)),
        KeyCode::F(9) => Some((st, DispatchAction::DapToggleBreakpoint)),
        KeyCode::F(10) => Some((st, DispatchAction::DapStepOver)),
        KeyCode::F(11) => Some((st, if shift { DispatchAction::DapStepOut } else { DispatchAction::DapStepInto })),
        _ => None,
    }
}

fn f12_exec(st: DispatchKeys, key: KeyCode) -> (r: Option<(DispatchKeys, DispatchAction)>)
    ensures
        r == f12_section(st, key),
{
    if !matches!(key, KeyCode::F(12)) {
        None
    } else if st.terminal_open {
        Some((DispatchKeys { terminal_open: false, mode: Mode::Editor, ..st }, DispatchAction::ShutdownTerminal))
    } else {
        Some((DispatchKeys { terminal_open: true, mode: Mode::Terminal, ..st }, DispatchAction::StartTerminal))
    }
}

fn terminal_ctrl_byte_exec(c: char) -> (b: u8)
    ensures
        b == terminal_ctrl_byte(c),
{
    if 'a' <= c && c <= 'z' {
        ((c as u32) - 0x60) as u8
    } else {
        ((c as u32) % 256) as u8
    }
}

fn when_exec(b: bool, a: DispatchAction) -> (r: DispatchAction)
    ensures
        r == when(b, a),
{
    if b { a } else { DispatchAction::Nothing }
}

fn ctrl_editor_exec(st: DispatchKeys, key: KeyCode, m: KeyModifiers) -> (r: Option<(DispatchKeys, DispatchAction)>)
    ensures
        r == ctrl_editor_section(st, key, m),
{
    let (shift, _ctrl, alt, _sup) = mods(m);
    let mode = st.mode;
    let editor = matches!(mode, Mode::Editor);
    let explorer = matches!(mode, Mode::Explorer);
    if letter_exec(key, 'd', 'D') && !shift && editor {
        Some((st, DispatchAction::MultiCursorNext))
    } else if alt && editor && (matches!(key, KeyCode::Down) || is_ch(key, 'j')) {
        Some((st, DispatchAction::MultiCursorBelow))
    } else if alt && editor && (matches!(key, KeyCode::Up) || is_ch(key, 'k')) {
        Some((st, DispatchAction::MultiCursorAbove))
    } else if is_ch(key, 's') {
        Some((st, when_exec(editor, DispatchAction::Save)))
    } else if is_ch(key, 'r') {
        Some((st, when_exec(editor, DispatchAction::Redo)))
    } else if is_ch(key, 'o') {
        Some((st, when_exec(editor, DispatchAction::JumpBack)))
    } else if is_ch(key, 'i') {
        Some((st, when_exec(editor, DispatchAction::JumpForward)))
    } else if is_ch(key, 'p') {
        Some((st, when_exec(editor, DispatchAction::OpenFilePalette)))
    } else if is_ch(key, 'a') {
        Some((st, when_exec(editor, DispatchAction::TriggerCompletion)))
    } else if is_ch(key, 'g') {
        Some((st, when_exec(git_mode_exec(mode), DispatchAction::ToggleScm)))
    } else if letter_exec(key, 'd', 'D') && shift {
        Some((st, when_exec(editor || matches!(mode, Mode::Debug) || explorer, DispatchAction::ToggleDebugPanel)))
    } else if is_ch(key, ',') {
        Some((st, when_exec(settings_mode_exec(mode), DispatchAction::OpenSettings)))
    } else if letter_exec(key, 'b', 'B') && (editor || explorer) {
        Some((st, DispatchAction::ToggleBlame))
    } else if is_ch(key, 'f') {
        if !(editor || explorer) {
            Some((st, DispatchAction::Nothing))
        } else if st.explorer_open {
            Some((DispatchKeys { explorer_open: false, mode: Mode::Editor, ..st }, DispatchAction::CloseExplorer))
        } else {
            Some((DispatchKeys { explorer_open: true, mode: Mode::Explorer, ..st }, DispatchAction::OpenExplorer))
        }
    } else {
        None
    }
}

fn ctrl_exec(st: DispatchKeys, key: KeyCode, m: KeyModifiers) -> (r: Option<(DispatchKeys, DispatchAction)>)
    ensures
        r == ctrl_section(st, key, m),
{
    let (shift, ctrl, _alt, _sup) = mods(m);
    if !ctrl {
        return None;
    }
    if is_ch(key, 'q') {
        return Some(if st.terminal_open {
            (DispatchKeys { terminal_open: false, mode: Mode::Editor, ..st }, DispatchAction::ShutdownTerminal)
        } else {
            (st, DispatchAction::Nothing)
        });
    }
    if is_ch(key, 't') && !shift {
        return Some((st, DispatchAction::ToggleTerminalSide));
    }
    if !matches!(st.mode, Mode::Terminal) {
        return ctrl_editor_exec(st, key, m);
    }
    match key {
        KeyCode::Char(c) => Some((st, DispatchAction::TerminalByte(terminal_ctrl_byte_exec(c)))),
        _ => None,
    }
}

/// The application's answer to a key and its modifiers: the keyboard state
/// moves and the application's action comes back.
pub fn dispatch_step(st: &mut DispatchKeys, code: KeyCode, m: KeyModifiers) -> (a: DispatchAction)
    ensures
        (*final(st), a) == dispatch_spec(*old(st), code, m),
{
    let s = *st;
    if s.terminal_window_focused && matches!(s.mode, Mode::Editor) {
        let (taken, _pa, _bytes) = pane_terminal_key(s.pane, code, m);
        if taken {
            return DispatchAction::ToPaneTerminal;
        }
    }
    let r = match cmd_exec(s, code, m) {
        Some(r) => r,
        None => match menu_exec(s, code) {
            Some(r) => r,
            None => match peek_exec(s, code) {
                Some(r) => r,
                None => match chord_exec(s, code, m) {
                    Some(r) => r,
                    None => match alt_exec(s, code, m) {
                        Some(r) => r,
                        None => match ctrl_plain_exec(s, code, m) {
                            Some(r) => r,
                            None => match debug_exec(s, code, m) {
                                Some(r) => r,
                                None => match f12_exec(s, code) {
                                    Some(r) => r,
                                    None => match ctrl_exec(s, code, m) {
                                        Some(r) => r,
                                        None => (s, if matches!(s.mode, Mode::Editor) {
                                            DispatchAction::Nothing
                                        } else {
                                            DispatchAction::Route(s.mode)
                                        }),
                                    },
                                },
                            },
                        },
                    },
                },
            },
        },
    };
    *st = r.0;
    r.1
}

/// A character completion treats as part of a word.
pub open spec fn word_char(c: char) -> bool {
    is_alnum(c) || c == '_'
}

/// Where the word that ends at `i` starts.
pub open spec fn word_start(s: Seq<char>, i: int) -> int
    decreases i,
{
    if i > 0 && i <= s.len() && word_char(s[i - 1]) {
        word_start(s, i - 1)
    } else {
        i
    }
}

/// The word before column `col` of `line`, which completion completes:
/// the letters, digits and underscores just before the caret.
pub fn completion_prefix(line: &str, col: usize) -> (r: String)
    requires
        col <= line@.len(),
    ensures
        r@ == line@.subrange(word_start(line@, col as int), col as int),
{
    let chars = chars_of(line);
    let mut start: usize = col;
    while start > 0 && (char_is_alnum(chars[start - 1]) || chars[start - 1] == '_')
        invariant
            start <= col <= chars@.len(),
            chars@ == line@,
            word_start(line@, col as int) == word_start(line@, start as int),
        decreases start,
    {
        start = start - 1;
    }
    let mut out: Vec<char> = Vec::new();
    let mut i: usize = start;
    while i < col
        invariant
            start <= i <= col <= chars@.len(),
            chars@ == line@,
            out@ == line@.subrange(start as int, i as int),
        decreases col - i,
    {
        out.push(chars[i]);
        i = i + 1;
        assert(out@ =~= line@.subrange(start as int, i as int));
    }
    string_of(out.as_slice())
}

/// F12 opens the docked terminal when it is closed and closes it when it is
/// open, bringing the editor back; pressed twice it leaves the terminal as
/// it was.
pub proof fn law_f12_toggles_terminal(st: DispatchKeys, m: KeyModifiers)
    requires
        m.bits_of() == 0,
        !st.menu_open,
        !st.pending_chord,
        !st.terminal_window_focused,
    ensures
        dispatch_spec(st, KeyCode::F(12), m).0.terminal_open == !st.terminal_open,
        dispatch_spec(st, KeyCode::F(12), m).0.mode == (if st.terminal_open { Mode::Editor } else { Mode::Terminal }),
        dispatch_spec(dispatch_spec(st, KeyCode::F(12), m).0, KeyCode::F(12), m).0.terminal_open == st.terminal_open,
{
    assert((0u8 & 1u8) != 1u8 && (0u8 & 2u8) != 2u8 && (0u8 & 4u8) != 4u8 && (0u8 & 8u8) != 8u8) by (bit_vector);
}

/// While the editor's menu is up, a key without a Command-like chord does
/// nothing but move the menu's selection, close the menu or run its entry.
pub proof fn law_menu_owns_keys(st: DispatchKeys, key: KeyCode, m: KeyModifiers)
    requires
        st.menu_open,
        !cmd_like(m),
        !st.terminal_window_focused,
    ensures
        dispatch_spec(st, key, m).0 == (DispatchKeys { menu_sel: dispatch_spec(st, key, m).0.menu_sel, ..st }),
        dispatch_spec(st, key, m).1 == DispatchAction::Nothing || dispatch_spec(st, key, m).1 == DispatchAction::CloseEditorMenu
            || dispatch_spec(st, key, m).1 == DispatchAction::RunEditorMenuAction,
        st.menu_sel < st.menu_len ==> dispatch_spec(st, key, m).0.menu_sel < st.menu_len,
{
}

/// The key after Ctrl+W ends the chord in the editor, whatever it is, as
/// long as Ctrl is let go.
pub proof fn law_chord_ends(st: DispatchKeys, key: KeyCode, m: KeyModifiers)
    requires
        st.pending_chord,
        st.mode == Mode::Editor,
        !st.terminal_window_focused,
        !st.menu_open,
        !st.peek_open,
        !cmd_like(m),
        !ctrl_held(m),
    ensures
        dispatch_spec(st, key, m).0 == (DispatchKeys { pending_chord: false, ..st }),
        dispatch_spec(st, key, m).1 != DispatchAction::Nothing,
{
}

} // verus!

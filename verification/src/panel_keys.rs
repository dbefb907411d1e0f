//! What a key does in the panels that own the keyboard while they are
//! open: the file preview and the source-control panel. Each is a step from
//! the panel's state and a key to its next state and the action the caller
//! performs (closing, scrolling, staging and the like live with the panel's
//! owner).

use vstd::prelude::*;
use crate::key::{KeyCode, KeyModifiers};
use crate::text::{is_lower, uppercase, char_is_lower, to_upper, string_of, chars_of};

verus! {

// ── Preview ─────────────────────────────────────────────────────────────────

/// What the preview shows.
#[derive(Clone, Copy, Debug, PartialEq, Eq, Structural)]
pub enum PreviewKind {
    Image,
    Audio,
    Other,
}

/// What the preview's keys read and change.
#[derive(Clone, Copy, Debug, PartialEq, Eq, Structural)]
pub struct PreviewKeys {
    /// The closing transform is playing.
    pub closing: bool,
    pub kind: PreviewKind,
    /// An image is loaded.
    pub has_image: bool,
    /// Lines wrap; when they do not, left and right pan.
    pub wrap_lines: bool,
    pub hscroll: usize,
    pub scroll: usize,
    /// How many lines the preview has.
    pub lines: usize,
}

/// What the caller does for a preview key.
#[derive(Clone, Copy, Debug, PartialEq, Eq, Structural)]
pub enum PreviewAction {
    Nothing,
    /// Dismiss at once, skipping the transform, and clear the status line.
    CloseNow,
    /// Close, and clear the status line.
    Close,
    /// Widen or narrow the image by this many cells and report its width.
    ImageWidth(i32),
    /// Start or stop playback.
    ToggleAudio,
    /// Scroll by this many lines, a page of this many.
    ScrollBy(isize, usize),
    /// Rebuild the preview and say so.
    Refresh,
}

/// The character of a character key.
pub open spec fn char_of(k: KeyCode) -> char {
    match k {
        KeyCode::Char(c) => c,
        _ => ' ',
    }
}

pub open spec fn is_char(k: KeyCode, c: char) -> bool {
    k == KeyCode::Char(c)
}

/// Esc or `q`.
pub open spec fn quits(k: KeyCode) -> bool {
    k == KeyCode::Esc || is_char(k, 'q')
}

/// The preview's answer to `key`. While it closes only Esc or `q` acts. An
/// image takes left and right (and `h`, `-`, `l`, `+`, `=`) as narrower and
/// wider, or as panning for text that does not wrap; audio takes Space and
/// Enter as play and pause; then every preview scrolls by line, by page, to
/// the top and to the bottom, and `r` refreshes it.
pub open spec fn preview_step(st: PreviewKeys, key: KeyCode) -> (PreviewKeys, PreviewAction) {
    if st.closing {
        (st, if quits(key) { PreviewAction::CloseNow } else { PreviewAction::Nothing })
    } else if st.kind == PreviewKind::Image && (quits(key) || key == KeyCode::Left || is_char(key, 'h') || is_char(key, '-')
        || key == KeyCode::Right || is_char(key, 'l') || is_char(key, '+') || is_char(key, '=') || key == KeyCode::Down
        || is_char(key, 'j') || key == KeyCode::Up || is_char(key, 'k')) {
        if quits(key) {
            (st, PreviewAction::Close)
        } else if key == KeyCode::Left || is_char(key, 'h') || is_char(key, '-') {
            if st.has_image {
                (st, PreviewAction::ImageWidth(-4i32))
            } else if !st.wrap_lines {
                (PreviewKeys { hscroll: if st.hscroll >= 6 { (st.hscroll - 6) as usize } else { 0 }, ..st }, PreviewAction::Nothing)
            } else {
                (st, PreviewAction::Nothing)
            }
        } else if key == KeyCode::Right || is_char(key, 'l') || is_char(key, '+') || is_char(key, '=') {
            if st.has_image {
                (st, PreviewAction::ImageWidth(4))
            } else if !st.wrap_lines {
                (PreviewKeys { hscroll: if st.hscroll <= usize::MAX - 6 { (st.hscroll + 6) as usize } else { usize::MAX }, ..st }, PreviewAction::Nothing)
            } else {
                (st, PreviewAction::Nothing)
            }
        } else if key == KeyCode::Down || is_char(key, 'j') {
            (st, PreviewAction::ScrollBy(1, 1))
        } else {
            (st, PreviewAction::ScrollBy(-1isize, 1))
        }
    } else if st.kind == PreviewKind::Audio && (quits(key) || is_char(key, ' ') || key == KeyCode::Enter) {
        (st, if quits(key) { PreviewAction::Close } else { PreviewAction::ToggleAudio })
    } else if quits(key) {
        (st, PreviewAction::Close)
    } else if key == KeyCode::Down || is_char(key, 'j') {
        (st, PreviewAction::ScrollBy(1, 1))
    } else if key == KeyCode::Up || is_char(key, 'k') {
        (st, PreviewAction::ScrollBy(-1isize, 1))
    } else if key == KeyCode::PageDown || is_char(key, 'f') {
        (st, PreviewAction::ScrollBy(12, 12))
    } else if key == KeyCode::PageUp || is_char(key, 'b') {
        (st, PreviewAction::ScrollBy(-12isize, 12))
    } else if key == KeyCode::Home || is_char(key, 'g') {
        (PreviewKeys { scroll: 0, ..st }, PreviewAction::Nothing)
    } else if key == KeyCode::End || is_char(key, 'G') {
        (PreviewKeys { scroll: if st.lines > 0 { (st.lines - 1) as usize } else { 0 }, ..st }, PreviewAction::Nothing)
    } else if is_char(key, 'r') {
        (st, PreviewAction::Refresh)
    } else {
        (st, PreviewAction::Nothing)
    }
}

pub(crate) fn is_ch(key: KeyCode, c: char) -> (b: bool)
    ensures
        b == is_char(key, c),
{
    match key {
        KeyCode::Char(d) => d == c,
        _ => false,
    }
}

fn quits_exec(key: KeyCode) -> (b: bool)
    ensures
        b == quits(key),
{
    matches!(key, KeyCode::Esc) || is_ch(key, 'q')
}

/// The preview's answer to `key`: its next state and the caller's action.
pub fn preview_key(st: PreviewKeys, key: KeyCode) -> (r: (PreviewKeys, PreviewAction))
    ensures
        r == preview_step(st, key),
{
    let left = matches!(key, KeyCode::Left) || is_ch(key, 'h') || is_ch(key, '-');
    let right = matches!(key, KeyCode::Right) || is_ch(key, 'l') || is_ch(key, '+') || is_ch(key, '=');
    let down = matches!(key, KeyCode::Down) || is_ch(key, 'j');
    let up = matches!(key, KeyCode::Up) || is_ch(key, 'k');
    let quit = quits_exec(key);
    if st.closing {
        return (st, if quit { PreviewAction::CloseNow } else { PreviewAction::Nothing });
    }
    if matches!(st.kind, PreviewKind::Image) && (quit || left || right || down || up) {
        if quit {
            return (st, PreviewAction::Close);
        }
        if left {
            if st.has_image {
                return (st, PreviewAction::ImageWidth(-4i32));
            } else if !st.wrap_lines {
                return (PreviewKeys { hscroll: st.hscroll.saturating_sub(6), ..st }, PreviewAction::Nothing);
            }
            return (st, PreviewAction::Nothing);
        }
        if right {
            if st.has_image {
                return (st, PreviewAction::ImageWidth(4));
            } else if !st.wrap_lines {
                return (PreviewKeys { hscroll: st.hscroll.saturating_add(6), ..st }, PreviewAction::Nothing);
            }
            return (st, PreviewAction::Nothing);
        }
        if down {
            return (st, PreviewAction::ScrollBy(1, 1));
        }
        return (st, PreviewAction::ScrollBy(-1isize, 1));
    }
    if matches!(st.kind, PreviewKind::Audio) && (quit || is_ch(key, ' ') || matches!(key, KeyCode::Enter)) {
        return (st, if quit { PreviewAction::Close } else { PreviewAction::ToggleAudio });
    }
    if quit {
        (st, PreviewAction::Close)
    } else if down {
        (st, PreviewAction::ScrollBy(1, 1))
    } else if up {
        (st, PreviewAction::ScrollBy(-1isize, 1))
    } else if matches!(key, KeyCode::PageDown) || is_ch(key, 'f') {
        (st, PreviewAction::ScrollBy(12, 12))
    } else if matches!(key, KeyCode::PageUp) || is_ch(key, 'b') {
        (st, PreviewAction::ScrollBy(-12isize, 12))
    } else if matches!(key, KeyCode::Home) || is_ch(key, 'g') {
        (PreviewKeys { scroll: 0, ..st }, PreviewAction::Nothing)
    } else if matches!(key, KeyCode::End) || is_ch(key, 'G') {
        (PreviewKeys { scroll: st.lines.saturating_sub(1), ..st }, PreviewAction::Nothing)
    } else if is_ch(key, 'r') {
        (st, PreviewAction::Refresh)
    } else {
        (st, PreviewAction::Nothing)
    }
}

/// Esc dismisses the preview from any state; while it closes, nothing but
/// Esc or `q` has an effect.
pub proof fn law_preview_escape(st: PreviewKeys, key: KeyCode)
    ensures
        preview_step(st, KeyCode::Esc).1 == (if st.closing { PreviewAction::CloseNow } else { PreviewAction::Close }),
        st.closing && !quits(key) ==> preview_step(st, key) == (st, PreviewAction::Nothing),
{
}

// ── Source control ──────────────────────────────────────────────────────────

/// Which part of the source-control panel has the keyboard.
#[derive(Clone, Copy, Debug, PartialEq, Eq, Structural)]
pub enum ScmFocus {
    Message,
    CommitButton,
    Changes,
    Graph,
}

/// What the source-control panel's keys read and change.
#[derive(Clone, Debug)]
pub struct ScmKeys {
    /// The panel is sliding out.
    pub closing: bool,
    pub focus: ScmFocus,
    /// The selected change.
    pub selected: usize,
    /// The selected commit of the graph.
    pub graph_selected: usize,
    /// The commit message being typed.
    pub message: Vec<char>,
}

/// What the caller does for a source-control key.
#[derive(Clone, Copy, Debug, PartialEq, Eq, Structural)]
pub enum ScmAction {
    Nothing,
    /// Dismiss at once and clear the status line.
    CloseNow,
    /// Close and clear the status line.
    Close,
    OpenWorkbench,
    /// Move the focus forward, or back.
    CycleFocus(bool),
    Commit,
    OpenSelectedFile,
    /// Show the selected commit in the status line.
    ShowCommit,
    /// Move the change selection by this much.
    MoveSelection(isize),
    /// Move the graph selection by this much.
    MoveGraphSelection(isize),
    StageSelected,
    StageAll,
    UnstageAll,
    Refresh,
    LoadMoreGraph,
    DiscardSelected,
}

/// `char::is_control`: the general category Cc, U+0000 to U+001F and
/// U+007F to U+009F.
pub open spec fn is_control(c: char) -> bool {
    (c as u32) < 0x20 || (0x7f <= (c as u32) && (c as u32) <= 0x9f)
}

/// The panel's keyboard state as values.
pub struct ScmView {
    pub closing: bool,
    pub focus: ScmFocus,
    pub selected: usize,
    pub graph_selected: usize,
    pub message: Seq<char>,
}

pub open spec fn scm_view(st: ScmKeys) -> ScmView {
    ScmView {
        closing: st.closing,
        focus: st.focus,
        selected: st.selected,
        graph_selected: st.graph_selected,
        message: st.message@,
    }
}

/// The state with the focus on `f`.
pub open spec fn focused(st: ScmView, f: ScmFocus) -> ScmView {
    ScmView { focus: f, ..st }
}

/// The source-control panel's answer to `key`. While it slides out only Esc
/// acts. With the focus on the message, characters and Backspace edit it and
/// Down leaves it; elsewhere the letters stage, unstage, refresh, discard,
/// load more history and move the focus, and the arrows walk the changes and
/// the graph, stepping between the parts at their ends.
pub open spec fn scm_step(st: ScmView, key: KeyCode) -> (ScmView, ScmAction) {
    let in_msg = st.focus == ScmFocus::Message;
    if st.closing {
        (st, if key == KeyCode::Esc { ScmAction::CloseNow } else { ScmAction::Nothing })
    } else if key == KeyCode::Esc {
        (st, ScmAction::Close)
    } else if is_char(key, 'G') {
        (st, ScmAction::OpenWorkbench)
    } else if key == KeyCode::Tab {
        (st, ScmAction::CycleFocus(true))
    } else if key == KeyCode::BackTab {
        (st, ScmAction::CycleFocus(false))
    } else if key == KeyCode::Enter {
        (st, match st.focus {
            ScmFocus::Message | ScmFocus::CommitButton => ScmAction::Commit,
            ScmFocus::Changes => ScmAction::OpenSelectedFile,
            ScmFocus::Graph => ScmAction::ShowCommit,
        })
    } else if (key == KeyCode::Down || is_char(key, 'j')) && !in_msg {
        match st.focus {
            ScmFocus::CommitButton => (focused(st, ScmFocus::Changes), ScmAction::Nothing),
            ScmFocus::Graph => (st, ScmAction::MoveGraphSelection(1)),
            _ => (focused(st, ScmFocus::Changes), ScmAction::MoveSelection(1)),
        }
    } else if (key == KeyCode::Up || is_char(key, 'k')) && !in_msg {
        match st.focus {
            ScmFocus::Changes => if st.selected == 0 {
                (focused(st, ScmFocus::CommitButton), ScmAction::Nothing)
            } else {
                (st, ScmAction::MoveSelection(-1isize))
            },
            ScmFocus::CommitButton => (focused(st, ScmFocus::Message), ScmAction::Nothing),
            _ => if st.graph_selected == 0 {
                (focused(st, ScmFocus::Changes), ScmAction::Nothing)
            } else {
                (st, ScmAction::MoveGraphSelection(-1isize))
            },
        }
    } else if key == KeyCode::Down && in_msg {
        (focused(st, ScmFocus::CommitButton), ScmAction::Nothing)
    } else if (is_char(key, ' ') || is_char(key, 's')) && !in_msg {
        (focused(st, ScmFocus::Changes), ScmAction::StageSelected)
    } else if is_char(key, 'a') && !in_msg {
        (st, ScmAction::StageAll)
    } else if is_char(key, 'u') && !in_msg {
        (st, ScmAction::UnstageAll)
    } else if is_char(key, 'r') && !in_msg {
        (st, ScmAction::Refresh)
    } else if (is_char(key, 'm') || is_char(key, 'L')) && st.focus == ScmFocus::Graph {
        (st, ScmAction::LoadMoreGraph)
    } else if is_char(key, 'c') && !in_msg {
        (focused(st, ScmFocus::Message), ScmAction::Nothing)
    } else if (is_char(key, 'x') || key == KeyCode::Delete) && st.focus == ScmFocus::Changes {
        (st, ScmAction::DiscardSelected)
    } else if key == KeyCode::Backspace && in_msg {
        (ScmView { message: if st.message.len() > 0 { st.message.drop_last() } else { st.message }, ..st }, ScmAction::Nothing)
    } else if key is Char && in_msg && !is_control(char_of(key)) {
        (ScmView { message: st.message.push(char_of(key)), ..st }, ScmAction::Nothing)
    } else if is_char(key, 'g') && !in_msg {
        (focused(st, ScmFocus::Graph), ScmAction::Nothing)
    } else {
        (st, ScmAction::Nothing)
    }
}

pub(crate) fn control_char(c: char) -> (b: bool)
    ensures
        b == is_control(c),
{
    (c as u32) < 0x20 || (0x7f <= (c as u32) && (c as u32) <= 0x9f)
}

/// The source-control panel's answer to `key`: the panel's state moves and
/// the caller's action comes back.
pub fn scm_key(st: &mut ScmKeys, key: KeyCode) -> (a: ScmAction)
    ensures
        (scm_view(*final(st)), a) == scm_step(scm_view(*old(st)), key),
{
    let in_msg = matches!(st.focus, ScmFocus::Message);
    let down = matches!(key, KeyCode::Down) || is_ch(key, 'j');
    let up = matches!(key, KeyCode::Up) || is_ch(key, 'k');
    if st.closing {
        return if matches!(key, KeyCode::Esc) { ScmAction::CloseNow } else { ScmAction::Nothing };
    }
    if matches!(key, KeyCode::Esc) {
        return ScmAction::Close;
    }
    if is_ch(key, 'G') {
        return ScmAction::OpenWorkbench;
    }
    if matches!(key, KeyCode::Tab) {
        return ScmAction::CycleFocus(true);
    }
    if matches!(key, KeyCode::BackTab) {
        return ScmAction::CycleFocus(false);
    }
    if matches!(key, KeyCode::Enter) {
        return match st.focus {
            ScmFocus::Message | ScmFocus::CommitButton => ScmAction::Commit,
            ScmFocus::Changes => ScmAction::OpenSelectedFile,
            ScmFocus::Graph => ScmAction::ShowCommit,
        };
    }
    if down && !in_msg {
        return match st.focus {
            ScmFocus::CommitButton => {
                st.focus = ScmFocus::Changes;
                ScmAction::Nothing
            },
            ScmFocus::Graph => ScmAction::MoveGraphSelection(1),
            _ => {
                st.focus = ScmFocus::Changes;
                ScmAction::MoveSelection(1)
            },
        };
    }
    if up && !in_msg {
        return match st.focus {
            ScmFocus::Changes => {
                if st.selected == 0 {
                    st.focus = ScmFocus::CommitButton;
                    ScmAction::Nothing
                } else {
                    ScmAction::MoveSelection(-1isize)
                }
            },
            ScmFocus::CommitButton => {
                st.focus = ScmFocus::Message;
                ScmAction::Nothing
            },
            _ => {
                if st.graph_selected == 0 {
                    st.focus = ScmFocus::Changes;
                    ScmAction::Nothing
                } else {
                    ScmAction::MoveGraphSelection(-1isize)
                }
            },
        };
    }
    if matches!(key, KeyCode::Down) && in_msg {
        st.focus = ScmFocus::CommitButton;
        return ScmAction::Nothing;
    }
    if (is_ch(key, ' ') || is_ch(key, 's')) && !in_msg {
        st.focus = ScmFocus::Changes;
        return ScmAction::StageSelected;
    }
    if is_ch(key, 'a') && !in_msg {
        return ScmAction::StageAll;
    }
    if is_ch(key, 'u') && !in_msg {
        return ScmAction::UnstageAll;
    }
    if is_ch(key, 'r') && !in_msg {
        return ScmAction::Refresh;
    }
    if (is_ch(key, 'm') || is_ch(key, 'L')) && matches!(st.focus, ScmFocus::Graph) {
        return ScmAction::LoadMoreGraph;
    }
    if is_ch(key, 'c') && !in_msg {
        st.focus = ScmFocus::Message;
        return ScmAction::Nothing;
    }
    if (is_ch(key, 'x') || matches!(key, KeyCode::Delete)) && matches!(st.focus, ScmFocus::Changes) {
        return ScmAction::DiscardSelected;
    }
    if matches!(key, KeyCode::Backspace) && in_msg {
        let ghost m0 = st.message@;
        st.message.pop();
        proof {
            if m0.len() > 0 {
                assert(st.message@ =~= m0.drop_last());
            }
        }
        return ScmAction::Nothing;
    }
    if in_msg {
        if let KeyCode::Char(ch) = key {
            if !control_char(ch) {
                st.message.push(ch);
                return ScmAction::Nothing;
            }
        }
    }
    if is_ch(key, 'g') && !in_msg {
        st.focus = ScmFocus::Graph;
        return ScmAction::Nothing;
    }
    ScmAction::Nothing
}

/// While the commit message has the keyboard, a printable character goes
/// into it and does nothing else.
pub proof fn law_message_takes_characters(st: ScmView, c: char)
    requires
        !st.closing,
        st.focus == ScmFocus::Message,
        !is_control(c),
        c != 'G',
    ensures
        scm_step(st, KeyCode::Char(c)) == (ScmView { message: st.message.push(c), ..st }, ScmAction::Nothing),
{
}


// ── The terminal pane ───────────────────────────────────────────────────────

/// What the terminal pane's keys read.
#[derive(Clone, Copy, Debug, PartialEq, Eq, Structural)]
pub struct PaneKeys {
    /// The close-confirmation dialog is up.
    pub confirm_open: bool,
    /// The first key of the Ctrl+W chord was pressed.
    pub pending_chord: bool,
    /// The focused pane has a terminal.
    pub has_terminal: bool,
}

/// What the caller does for a terminal-pane key.
#[derive(Clone, Copy, Debug, PartialEq, Eq, Structural)]
pub enum PaneAction {
    Nothing,
    /// Answer the close confirmation.
    ConfirmClose(bool),
    /// Repeat the close question in the status line.
    AskConfirm,
    ToggleTerminal,
    RequestClose,
    /// Paste the clipboard into the shell.
    Paste,
    /// Start the Ctrl+W chord and say so.
    StartChord,
    /// Write the bytes that come with it to the shell.
    Write,
    /// Write the arrow key with this final letter, in the cursor-key mode
    /// the shell asked for.
    Arrow(char),
    ScrollUp(usize),
    ScrollDown(usize),
}

pub open spec fn held(m: KeyModifiers, bit: u8) -> bool {
    (m.bits_of() & bit) == bit
}

/// The UTF-8 bytes of `c` (`char::encode_utf8`).
pub open spec fn utf8_bytes(c: char) -> Seq<u8> {
    let u = c as u32;
    if u < 0x80 {
        seq![u as u8]
    } else if u < 0x800 {
        seq![(0xC0 + u / 64) as u8, (0x80 + u % 64) as u8]
    } else if u < 0x10000 {
        seq![(0xE0 + u / 4096) as u8, (0x80 + (u / 64) % 64) as u8, (0x80 + u % 64) as u8]
    } else {
        seq![(0xF0 + u / 262144) as u8, (0x80 + (u / 4096) % 64) as u8, (0x80 + (u / 64) % 64) as u8, (0x80 + u % 64) as u8]
    }
}

/// A lowercase letter with Shift held becomes its uppercase, when that is
/// one character; the shell gets the case the face carried as a modifier.
pub open spec fn shifted(c: char, shift: bool) -> char {
    if shift && is_lower(c) && uppercase(seq![c]).len() == 1 {
        uppercase(seq![c])[0]
    } else {
        c
    }
}

/// What an ordinary key writes to the shell.
pub open spec fn key_bytes(key: KeyCode, shift: bool) -> (PaneAction, Seq<u8>) {
    match key {
        KeyCode::Enter => (PaneAction::Write, seq![13u8]),
        KeyCode::Backspace => (PaneAction::Write, seq![0x7fu8]),
        KeyCode::Tab => (PaneAction::Write, seq![9u8]),
        KeyCode::Left => (PaneAction::Arrow('D'), seq![]),
        KeyCode::Right => (PaneAction::Arrow('C'), seq![]),
        KeyCode::Up => (PaneAction::Arrow('A'), seq![]),
        KeyCode::Down => (PaneAction::Arrow('B'), seq![]),
        KeyCode::Home => (PaneAction::Write, seq![0x1bu8, 0x5bu8, 0x48u8]),
        KeyCode::End => (PaneAction::Write, seq![0x1bu8, 0x5bu8, 0x46u8]),
        KeyCode::PageUp => (PaneAction::ScrollUp(3), seq![]),
        KeyCode::PageDown => (PaneAction::ScrollDown(3), seq![]),
        KeyCode::Delete => (PaneAction::Write, seq![0x1bu8, 0x5bu8, 0x33u8, 0x7eu8]),
        KeyCode::Esc => (PaneAction::Write, seq![0x1bu8]),
        KeyCode::Char(c) => (PaneAction::Write, utf8_bytes(shifted(c, shift))),
        _ => (PaneAction::Nothing, seq![]),
    }
}

/// Ctrl with an arrow: the xterm sequence with modifier 5.
pub open spec fn ctrl_arrow(key: KeyCode) -> Option<Seq<u8>> {
    let f = match key {
        KeyCode::Left => Some(0x44u8),
        KeyCode::Right => Some(0x43u8),
        KeyCode::Up => Some(0x41u8),
        KeyCode::Down => Some(0x42u8),
        _ => None,
    };
    match f {
        Some(b) => Some(seq![0x1bu8, 0x5bu8, 0x31u8, 0x3bu8, 0x35u8, b]),
        None => None,
    }
}

/// The control byte Ctrl gives a letter: a is 1, z is 26.
pub open spec fn ctrl_byte(c: char) -> Option<u8> {
    let l = if 'A' <= c <= 'Z' { ((c as u32) + 32) as u32 } else { c as u32 };
    if 0x61 <= l <= 0x7a { Some((l - 0x60) as u8) } else { None }
}

/// The terminal pane's answer to a key: whether it took the key, what the
/// caller does, and the bytes that go to the shell. The close dialog owns
/// its keys; a few chords reach the editor (toggle, close, paste, the Ctrl+W
/// chord and its second key); everything else goes to the shell: Ctrl with a
/// letter as a control byte, Ctrl with an arrow as its xterm sequence, Alt
/// with a character as Escape and the character, and the rest as the key.
pub open spec fn pane_step(st: PaneKeys, key: KeyCode, m: KeyModifiers) -> (bool, PaneAction, Seq<u8>) {
    let ctrl = held(m, 2);
    let shift = held(m, 1);
    let alt = held(m, 4);
    let sup = held(m, 8);
    let chord_shift = shift && (ctrl || sup);
    if st.confirm_open {
        (true, if is_char(key, 'y') || is_char(key, 'Y') {
            PaneAction::ConfirmClose(true)
        } else if is_char(key, 'n') || is_char(key, 'N') || key == KeyCode::Esc {
            PaneAction::ConfirmClose(false)
        } else {
            PaneAction::AskConfirm
        }, seq![])
    } else if chord_shift && (is_char(key, 't') || is_char(key, 'T')) {
        (true, PaneAction::ToggleTerminal, seq![])
    } else if chord_shift && (is_char(key, 'w') || is_char(key, 'W')) {
        (true, PaneAction::RequestClose, seq![])
    } else if (sup || (ctrl && shift)) && (is_char(key, 'v') || is_char(key, 'V')) {
        (true, PaneAction::Paste, seq![])
    } else if ctrl && !shift && !alt && !sup && (is_char(key, 'w') || is_char(key, 'W')) {
        (true, PaneAction::StartChord, seq![])
    } else if st.pending_chord && !ctrl {
        (false, PaneAction::Nothing, seq![])
    } else if !st.has_terminal {
        (true, PaneAction::Nothing, seq![])
    } else if ctrl && !sup && key is Char && ctrl_byte(char_of(key)) is Some {
        (true, PaneAction::Write, seq![ctrl_byte(char_of(key))->0])
    } else if ctrl && !sup && ctrl_arrow(key) is Some {
        (true, PaneAction::Write, ctrl_arrow(key)->0)
    } else if alt && !ctrl && key is Char {
        (true, PaneAction::Write, seq![0x1bu8] + utf8_bytes(char_of(key)))
    } else {
        let k = key_bytes(key, shift);
        (true, k.0, k.1)
    }
}

fn utf8_of(c: char) -> (v: Vec<u8>)
    ensures
        v@ == utf8_bytes(c),
{
    let u = c as u32;
    let mut v: Vec<u8> = Vec::new();
    if u < 0x80 {
        v.push(u as u8);
    } else if u < 0x800 {
        v.push((0xC0 + u / 64) as u8);
        v.push((0x80 + u % 64) as u8);
    } else if u < 0x10000 {
        v.push((0xE0 + u / 4096) as u8);
        v.push((0x80 + (u / 64) % 64) as u8);
        v.push((0x80 + u % 64) as u8);
    } else {
        assert(u <= 0x10FFFF);
        v.push((0xF0 + u / 262144) as u8);
        v.push((0x80 + (u / 4096) % 64) as u8);
        v.push((0x80 + (u / 64) % 64) as u8);
        v.push((0x80 + u % 64) as u8);
    }
    assert(v@ =~= utf8_bytes(c));
    v
}

fn shift_char(c: char, shift: bool) -> (r: char)
    ensures
        r == shifted(c, shift),
{
    if shift && char_is_lower(c) {
        let one = string_of(&[c]);
        let up = to_upper(one.as_str());
        let v = chars_of(up.as_str());
        assert(one@ =~= seq![c]);
        if v.len() == 1 {
            return v[0];
        }
    }
    c
}

fn bytes(s: &[u8]) -> (v: Vec<u8>)
    ensures
        v@ == s@,
{
    let mut v: Vec<u8> = Vec::new();
    let mut i: usize = 0;
    while i < s.len()
        invariant
            i <= s@.len(),
            v@ == s@.take(i as int),
        decreases s@.len() - i,
    {
        v.push(s[i]);
        assert(v@ =~= s@.take(i + 1));
        i += 1;
    }
    assert(s@.take(s@.len() as int) =~= s@);
    v
}

fn ctrl_byte_of(c: char) -> (r: Option<u8>)
    ensures
        r == ctrl_byte(c),
{
    let l: u32 = if 'A' <= c && c <= 'Z' { (c as u32) + 32 } else { c as u32 };
    if 0x61 <= l && l <= 0x7a { Some((l - 0x60) as u8) } else { None }
}

/// What an ordinary key writes to a shell, Shift applied to a lowercase
/// letter.
pub(crate) fn key_bytes_exec(key: KeyCode, shift: bool) -> (r: (PaneAction, Vec<u8>))
    ensures
        (r.0, r.1@) == key_bytes(key, shift),
{
    match key {
        KeyCode::Enter => (PaneAction::Write, bytes(&[13u8])),
        KeyCode::Backspace => (PaneAction::Write, bytes(&[0x7fu8])),
        KeyCode::Tab => (PaneAction::Write, bytes(&[9u8])),
        KeyCode::Left => (PaneAction::Arrow('D'), Vec::new()),
        KeyCode::Right => (PaneAction::Arrow('C'), Vec::new()),
        KeyCode::Up => (PaneAction::Arrow('A'), Vec::new()),
        KeyCode::Down => (PaneAction::Arrow('B'), Vec::new()),
        KeyCode::Home => (PaneAction::Write, bytes(&[0x1bu8, 0x5bu8, 0x48u8])),
        KeyCode::End => (PaneAction::Write, bytes(&[0x1bu8, 0x5bu8, 0x46u8])),
        KeyCode::PageUp => (PaneAction::ScrollUp(3), Vec::new()),
        KeyCode::PageDown => (PaneAction::ScrollDown(3), Vec::new()),
        KeyCode::Delete => (PaneAction::Write, bytes(&[0x1bu8, 0x5bu8, 0x33u8, 0x7eu8])),
        KeyCode::Esc => (PaneAction::Write, bytes(&[0x1bu8])),
        KeyCode::Char(c) => (PaneAction::Write, utf8_of(shift_char(c, shift))),
        _ => (PaneAction::Nothing, Vec::new()),
    }
}

/// The docked terminal's answer to a key: Esc closes it (the first of the
/// result), anything else goes to its shell as the pane would send it, with
/// Shift applied to a lowercase letter.
pub open spec fn docked_terminal_step(key: KeyCode, m: KeyModifiers) -> (bool, PaneAction, Seq<u8>) {
    if key == KeyCode::Esc {
        (true, PaneAction::Nothing, seq![])
    } else {
        let k = key_bytes(key, held(m, 1));
        (false, k.0, k.1)
    }
}

/// The docked terminal's answer to a key.
pub fn docked_terminal_key(key: KeyCode, m: KeyModifiers) -> (r: (bool, PaneAction, Vec<u8>))
    ensures
        (r.0, r.1, r.2@) == docked_terminal_step(key, m),
{
    if matches!(key, KeyCode::Esc) {
        return (true, PaneAction::Nothing, Vec::new());
    }
    let (a, v) = key_bytes_exec(key, m.contains(KeyModifiers::shift()));
    (false, a, v)
}

/// The terminal pane's answer to a key: whether it took it, the caller's
/// action, and the bytes for the shell.
pub fn pane_terminal_key(st: PaneKeys, key: KeyCode, m: KeyModifiers) -> (r: (bool, PaneAction, Vec<u8>))
    ensures
        (r.0, r.1, r.2@) == pane_step(st, key, m),
{
    let ctrl = m.contains(KeyModifiers::control());
    let shift = m.contains(KeyModifiers::shift());
    let alt = m.contains(KeyModifiers::alt());
    let sup = m.contains(KeyModifiers::super_key());
    let chord_shift = shift && (ctrl || sup);
    if st.confirm_open {
        let a = if is_ch(key, 'y') || is_ch(key, 'Y') {
            PaneAction::ConfirmClose(true)
        } else if is_ch(key, 'n') || is_ch(key, 'N') || matches!(key, KeyCode::Esc) {
            PaneAction::ConfirmClose(false)
        } else {
            PaneAction::AskConfirm
        };
        return (true, a, Vec::new());
    }
    if chord_shift && (is_ch(key, 't') || is_ch(key, 'T')) {
        return (true, PaneAction::ToggleTerminal, Vec::new());
    }
    if chord_shift && (is_ch(key, 'w') || is_ch(key, 'W')) {
        return (true, PaneAction::RequestClose, Vec::new());
    }
    if (sup || (ctrl && shift)) && (is_ch(key, 'v') || is_ch(key, 'V')) {
        return (true, PaneAction::Paste, Vec::new());
    }
    if ctrl && !shift && !alt && !sup && (is_ch(key, 'w') || is_ch(key, 'W')) {
        return (true, PaneAction::StartChord, Vec::new());
    }
    if st.pending_chord && !ctrl {
        return (false, PaneAction::Nothing, Vec::new());
    }
    if !st.has_terminal {
        return (true, PaneAction::Nothing, Vec::new());
    }
    if ctrl && !sup {
        if let KeyCode::Char(c) = key {
            if let Some(b) = ctrl_byte_of(c) {
                let mut v: Vec<u8> = Vec::new();
                v.push(b);
                return (true, PaneAction::Write, v);
            }
        }
        let arrow: Option<u8> = match key {
            KeyCode::Left => Some(0x44u8),
            KeyCode::Right => Some(0x43u8),
            KeyCode::Up => Some(0x41u8),
            KeyCode::Down => Some(0x42u8),
            _ => None,
        };
        if let Some(b) = arrow {
            let mut v = bytes(&[0x1bu8, 0x5bu8, 0x31u8, 0x3bu8, 0x35u8]);
            v.push(b);
            return (true, PaneAction::Write, v);
        }
    }
    if alt && !ctrl {
        if let KeyCode::Char(c) = key {
            let mut v: Vec<u8> = Vec::new();
            v.push(0x1bu8);
            let mut u = utf8_of(c);
            v.append(&mut u);
            return (true, PaneAction::Write, v);
        }
    }
    let (a, v) = key_bytes_exec(key, shift);
    (true, a, v)
}

/// Once the pane has a terminal and no dialog or chord is in the way, Ctrl
/// with a letter sends that letter's control byte and nothing else.
pub proof fn law_ctrl_letter_is_a_control_byte(st: PaneKeys, c: char, m: KeyModifiers)
    requires
        !st.confirm_open,
        st.has_terminal,
        held(m, 2),
        !held(m, 1),
        !held(m, 4),
        !held(m, 8),
        'a' <= c <= 'z',
        c != 'w',
    ensures
        pane_step(st, KeyCode::Char(c), m) == (true, PaneAction::Write, seq![((c as u32) - 0x60) as u8]),
{
}

} // verus!

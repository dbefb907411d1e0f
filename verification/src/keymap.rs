//! What key runs which command, and how the user changes it.
//!
//! A command has an id, a title, a group and a shipped chord; its binding is
//! the shipped chord unless the user's configuration says otherwise. Chords
//! are written in the notation the user sees (`⇧⌘P`); modifier order and the
//! case of a letter are presentation, so `⌘⇧p` is the same chord. An override
//! that no longer reads as a usable chord is ignored, leaving the command on
//! its shipped chord.

use vstd::prelude::*;
use crate::config::Config;
use crate::text::{chars_of, string_of, own, push_char, push_str, str_eq, chars_are, trim_chars, to_lower, to_upper, trimmed, lowercase, uppercase};

verus! {

/// A rebindable command.
#[derive(Debug, Clone, Copy, PartialEq, Eq)]
pub struct Command {
    /// Stable id, what the configuration stores.
    pub id: &'static str,
    pub title: &'static str,
    pub group: &'static str,
    /// The chord the command ships with, in the notation the user sees.
    pub default: &'static str,
}

/// Every rebindable command, in the order the Shortcuts page shows them.
pub open spec fn catalog_spec() -> Seq<Command> {
    seq![
        Command { id: "new_file", title: "New Untitled", group: "File", default: "⌘N" },
        Command { id: "new_project", title: "New Project…", group: "File", default: "⇧⌘N" },
        Command { id: "open", title: "Open…", group: "File", default: "⌘O" },
        Command { id: "save", title: "Save", group: "File", default: "⌘S" },
        Command { id: "save_as", title: "Save As…", group: "File", default: "⇧⌘S" },
        Command { id: "find", title: "Find…", group: "Editing", default: "⌘F" },
        Command { id: "find_next", title: "Find Next", group: "Editing", default: "⌘G" },
        Command { id: "find_prev", title: "Find Previous", group: "Editing", default: "⇧⌘G" },
        Command { id: "find_project", title: "Find in Project…", group: "Editing", default: "⇧⌘F" },
        Command { id: "find_replace", title: "Find and Replace…", group: "Editing", default: "⌥⌘F" },
        Command { id: "comment", title: "Toggle Comment", group: "Editing", default: "⌘/" },
        Command { id: "format", title: "Format Document", group: "Editing", default: "⇧⌘I" },
        Command { id: "code_actions", title: "Code Actions…", group: "Editing", default: "⌘." },
        Command { id: "cursor_above", title: "Add Cursor Above", group: "Editing", default: "⌃⇧↑" },
        Command { id: "cursor_below", title: "Add Cursor Below", group: "Editing", default: "⌃⇧↓" },
        Command { id: "open_file", title: "Go to File…", group: "Navigate", default: "⌘P" },
        Command { id: "palette", title: "Command Palette…", group: "Navigate", default: "⇧⌘P" },
        Command { id: "definition", title: "Go to Definition", group: "Navigate", default: "⌃⌘J" },
        Command { id: "references", title: "Find All References", group: "Navigate", default: "⇧⌘R" },
        Command { id: "rename", title: "Rename Symbol…", group: "Navigate", default: "⌃⌘R" },
        Command { id: "logic", title: "Show Logic", group: "Navigate", default: "⌃⌘L" },
        Command { id: "explorer", title: "File Explorer", group: "Panels", default: "⌃F" },
        Command { id: "scm", title: "Source Control", group: "Panels", default: "⌃G" },
        Command { id: "git_workbench", title: "Git Workbench", group: "Panels", default: "⌃⇧G" },
        Command { id: "nav", title: "Toggle Navigator", group: "Panels", default: "⌘0" },
        Command { id: "inspector", title: "Toggle Inspector", group: "Panels", default: "⌥⌘0" },
        Command { id: "debug_area", title: "Toggle Debug Area", group: "Panels", default: "⇧⌘Y" },
        Command { id: "terminal_tab", title: "New Terminal Tab", group: "Panels", default: "⇧⌘T" },
        Command { id: "preview", title: "Pretty Preview", group: "Panels", default: "⇧⌘V" },
        Command { id: "settings", title: "Settings…", group: "Panels", default: "⌘," },
        Command { id: "build", title: "Build", group: "Run", default: "⌘B" },
        Command { id: "run", title: "Run", group: "Run", default: "⌘R" },
        Command { id: "test", title: "Test", group: "Run", default: "⌘U" },
        Command { id: "stop_build", title: "Stop Build", group: "Run", default: "⇧⌘B" },
        Command { id: "breakpoint", title: "Toggle Breakpoint", group: "Run", default: "⌘\\" }
    ]
}

/// The catalog of rebindable commands.
pub fn catalog() -> (v: Vec<Command>)
    ensures
        v@ == catalog_spec(),
{
    let mut v: Vec<Command> = Vec::new();
    v.push(Command { id: "new_file", title: "New Untitled", group: "File", default: "⌘N" });
    v.push(Command { id: "new_project", title: "New Project…", group: "File", default: "⇧⌘N" });
    v.push(Command { id: "open", title: "Open…", group: "File", default: "⌘O" });
    v.push(Command { id: "save", title: "Save", group: "File", default: "⌘S" });
    v.push(Command { id: "save_as", title: "Save As…", group: "File", default: "⇧⌘S" });
    v.push(Command { id: "find", title: "Find…", group: "Editing", default: "⌘F" });
    v.push(Command { id: "find_next", title: "Find Next", group: "Editing", default: "⌘G" });
    v.push(Command { id: "find_prev", title: "Find Previous", group: "Editing", default: "⇧⌘G" });
    v.push(Command { id: "find_project", title: "Find in Project…", group: "Editing", default: "⇧⌘F" });
    v.push(Command { id: "find_replace", title: "Find and Replace…", group: "Editing", default: "⌥⌘F" });
    v.push(Command { id: "comment", title: "Toggle Comment", group: "Editing", default: "⌘/" });
    v.push(Command { id: "format", title: "Format Document", group: "Editing", default: "⇧⌘I" });
    v.push(Command { id: "code_actions", title: "Code Actions…", group: "Editing", default: "⌘." });
    v.push(Command { id: "cursor_above", title: "Add Cursor Above", group: "Editing", default: "⌃⇧↑" });
    v.push(Command { id: "cursor_below", title: "Add Cursor Below", group: "Editing", default: "⌃⇧↓" });
    v.push(Command { id: "open_file", title: "Go to File…", group: "Navigate", default: "⌘P" });
    v.push(Command { id: "palette", title: "Command Palette…", group: "Navigate", default: "⇧⌘P" });
    v.push(Command { id: "definition", title: "Go to Definition", group: "Navigate", default: "⌃⌘J" });
    v.push(Command { id: "references", title: "Find All References", group: "Navigate", default: "⇧⌘R" });
    v.push(Command { id: "rename", title: "Rename Symbol…", group: "Navigate", default: "⌃⌘R" });
    v.push(Command { id: "logic", title: "Show Logic", group: "Navigate", default: "⌃⌘L" });
    v.push(Command { id: "explorer", title: "File Explorer", group: "Panels", default: "⌃F" });
    v.push(Command { id: "scm", title: "Source Control", group: "Panels", default: "⌃G" });
    v.push(Command { id: "git_workbench", title: "Git Workbench", group: "Panels", default: "⌃⇧G" });
    v.push(Command { id: "nav", title: "Toggle Navigator", group: "Panels", default: "⌘0" });
    v.push(Command { id: "inspector", title: "Toggle Inspector", group: "Panels", default: "⌥⌘0" });
    v.push(Command { id: "debug_area", title: "Toggle Debug Area", group: "Panels", default: "⇧⌘Y" });
    v.push(Command { id: "terminal_tab", title: "New Terminal Tab", group: "Panels", default: "⇧⌘T" });
    v.push(Command { id: "preview", title: "Pretty Preview", group: "Panels", default: "⇧⌘V" });
    v.push(Command { id: "settings", title: "Settings…", group: "Panels", default: "⌘," });
    v.push(Command { id: "build", title: "Build", group: "Run", default: "⌘B" });
    v.push(Command { id: "run", title: "Run", group: "Run", default: "⌘R" });
    v.push(Command { id: "test", title: "Test", group: "Run", default: "⌘U" });
    v.push(Command { id: "stop_build", title: "Stop Build", group: "Run", default: "⇧⌘B" });
    v.push(Command { id: "breakpoint", title: "Toggle Breakpoint", group: "Run", default: "⌘\\" });
    assert(v@ =~= catalog_spec());
    v
}

/// The first command of `cat` from index `i` on whose id is `id`.
pub open spec fn find_cmd(cat: Seq<Command>, id: Seq<char>, i: int) -> Option<Command>
    decreases cat.len() - i,
{
    if i < 0 || i >= cat.len() {
        None
    } else if cat[i].id@ == id {
        Some(cat[i])
    } else {
        find_cmd(cat, id, i + 1)
    }
}

/// The command with id `id`.
pub open spec fn command_spec(id: Seq<char>) -> Option<Command> {
    find_cmd(catalog_spec(), id, 0)
}

/// The command with id `id`, if there is one.
pub fn command(id: &str) -> (r: Option<Command>)
    ensures
        r == command_spec(id@),
{
    let cat = catalog();
    let mut i: usize = 0;
    while i < cat.len()
        invariant
            cat@ == catalog_spec(),
            i <= cat@.len(),
            find_cmd(cat@, id@, i as int) == find_cmd(cat@, id@, 0),
        decreases cat@.len() - i,
    {
        if str_eq(cat[i].id, id) {
            return Some(cat[i]);
        }
        i += 1;
    }
    None
}

/// A chord: its modifiers and its key. Letters are stored lowercase, so
/// `⌘S` and `⌘s` are one chord.
#[derive(Debug, Clone, PartialEq, Eq)]
pub struct Chord {
    pub cmd: bool,
    pub shift: bool,
    pub alt: bool,
    pub ctrl: bool,
    pub key: String,
}

/// A chord as a value: modifiers and key characters.
pub struct ChordSpec {
    pub cmd: bool,
    pub shift: bool,
    pub alt: bool,
    pub ctrl: bool,
    pub key: Seq<char>,
}

pub open spec fn chord_view(c: Chord) -> ChordSpec {
    ChordSpec { cmd: c.cmd, shift: c.shift, alt: c.alt, ctrl: c.ctrl, key: c.key@ }
}

/// A chord can be a menu shortcut: it has a key, and Command or Control,
/// or Option with a named key (Option and a single character types a
/// character).
pub open spec fn usable(c: ChordSpec) -> bool {
    c.key.len() > 0 && (c.cmd || c.ctrl || (c.alt && c.key.len() > 1))
}

impl Chord {
    /// Can this chord be a menu shortcut?
    pub fn is_usable(&self) -> (b: bool)
        ensures
            b == usable(chord_view(*self)),
    {
        let n = chars_of(self.key.as_str()).len();
        n > 0 && (self.cmd || self.ctrl || (self.alt && n > 1))
    }
}

// ── Notation ────────────────────────────────────────────────────────────────

/// The modifier glyphs, and the space that may separate them.
pub open spec fn is_glyph_or_space(c: char) -> bool {
    c == '⌘' || c == '⇧' || c == '⌥' || c == '⌃' || c == ' '
}

/// What is left of a chord's notation once the modifier glyphs and spaces
/// are taken out.
pub open spec fn key_part(s: Seq<char>) -> Seq<char>
    decreases s.len(),
{
    if s.len() == 0 {
        s
    } else if is_glyph_or_space(s.last()) {
        key_part(s.drop_last())
    } else {
        key_part(s.drop_last()).push(s.last())
    }
}

/// Does `g` occur among the first `n` characters of `s`?
pub open spec fn has_char_upto(s: Seq<char>, g: char, n: int) -> bool {
    exists|j: int| 0 <= j < n && j < s.len() && s[j] == g
}

/// One spelling per key: named keys by their name, anything else lowercased.
pub open spec fn normalise_key_spec(raw: Seq<char>) -> Seq<char> {
    let t = trimmed(raw);
    if t == "⇥"@ || t == "Tab"@ || t == "tab"@ {
        "tab"@
    } else if t == "⏎"@ || t == "↩"@ || t == "Return"@ || t == "return"@ || t == "Enter"@ {
        "return"@
    } else if t == "⎋"@ || t == "Esc"@ || t == "esc"@ || t == "Escape"@ {
        "escape"@
    } else if t == "␣"@ || t == "Space"@ || t == "space"@ {
        "space"@
    } else if t == "⌫"@ || t == "Delete"@ || t == "delete"@ {
        "delete"@
    } else if t == "←"@ {
        "left"@
    } else if t == "→"@ {
        "right"@
    } else if t == "↑"@ {
        "up"@
    } else if t == "↓"@ {
        "down"@
    } else {
        lowercase(t)
    }
}

/// The glyph a key is drawn with: named keys by symbol, anything else
/// uppercased.
pub open spec fn display_key_spec(key: Seq<char>) -> Seq<char> {
    if key == "tab"@ {
        "⇥"@
    } else if key == "return"@ {
        "↩"@
    } else if key == "escape"@ {
        "⎋"@
    } else if key == "space"@ {
        "␣"@
    } else if key == "delete"@ {
        "⌫"@
    } else if key == "left"@ {
        "←"@
    } else if key == "right"@ {
        "→"@
    } else if key == "up"@ {
        "↑"@
    } else if key == "down"@ {
        "↓"@
    } else {
        uppercase(key)
    }
}

/// Reading a chord's notation: the glyphs present, in any order, and the
/// key; nothing when no key is left.
pub open spec fn parse_spec(s: Seq<char>) -> Option<ChordSpec> {
    if key_part(s).len() == 0 {
        None
    } else {
        Some(
            ChordSpec {
                cmd: has_char_upto(s, '⌘', s.len() as int),
                shift: has_char_upto(s, '⇧', s.len() as int),
                alt: has_char_upto(s, '⌥', s.len() as int),
                ctrl: has_char_upto(s, '⌃', s.len() as int),
                key: normalise_key_spec(key_part(s)),
            },
        )
    }
}

/// Writing a chord: modifiers in the order macOS draws them, ⌃⌥⇧⌘, then
/// the key's glyph.
pub open spec fn format_spec(c: ChordSpec) -> Seq<char> {
    (if c.ctrl { seq!['⌃'] } else { seq![] }) + (if c.alt { seq!['⌥'] } else { seq![] }) + (if c.shift {
        seq!['⇧']
    } else {
        seq![]
    }) + (if c.cmd { seq!['⌘'] } else { seq![] }) + display_key_spec(c.key)
}

fn normalise_key(raw: &[char]) -> (r: String)
    ensures
        r@ == normalise_key_spec(raw@),
{
    let t = trim_chars(raw);
    let t = t.as_slice();
    if chars_are(t, "⇥") || chars_are(t, "Tab") || chars_are(t, "tab") {
        own("tab")
    } else if chars_are(t, "⏎") || chars_are(t, "↩") || chars_are(t, "Return") || chars_are(t, "return")
        || chars_are(t, "Enter") {
        own("return")
    } else if chars_are(t, "⎋") || chars_are(t, "Esc") || chars_are(t, "esc") || chars_are(t, "Escape") {
        own("escape")
    } else if chars_are(t, "␣") || chars_are(t, "Space") || chars_are(t, "space") {
        own("space")
    } else if chars_are(t, "⌫") || chars_are(t, "Delete") || chars_are(t, "delete") {
        own("delete")
    } else if chars_are(t, "←") {
        own("left")
    } else if chars_are(t, "→") {
        own("right")
    } else if chars_are(t, "↑") {
        own("up")
    } else if chars_are(t, "↓") {
        own("down")
    } else {
        let s = string_of(t);
        to_lower(s.as_str())
    }
}

fn display_key(key: &str) -> (r: String)
    ensures
        r@ == display_key_spec(key@),
{
    if str_eq(key, "tab") {
        own("⇥")
    } else if str_eq(key, "return") {
        own("↩")
    } else if str_eq(key, "escape") {
        own("⎋")
    } else if str_eq(key, "space") {
        own("␣")
    } else if str_eq(key, "delete") {
        own("⌫")
    } else if str_eq(key, "left") {
        own("←")
    } else if str_eq(key, "right") {
        own("→")
    } else if str_eq(key, "up") {
        own("↑")
    } else if str_eq(key, "down") {
        own("↓")
    } else {
        to_upper(key)
    }
}

/// Read the notation the user sees; the order of the glyphs does not matter.
/// `None` for an empty or modifier-only chord.
pub fn parse(chord: &str) -> (r: Option<Chord>)
    ensures
        match r {
            Some(c) => parse_spec(chord@) == Some(chord_view(c)),
            None => parse_spec(chord@) is None,
        },
{
    let cs = chars_of(chord);
    let mut cmd = false;
    let mut shift = false;
    let mut alt = false;
    let mut ctrl = false;
    let mut rest: Vec<char> = Vec::new();
    let mut i: usize = 0;
    while i < cs.len()
        invariant
            i <= cs@.len(),
            cs@ == chord@,
            rest@ == key_part(cs@.take(i as int)),
            cmd == has_char_upto(cs@, '⌘', i as int),
            shift == has_char_upto(cs@, '⇧', i as int),
            alt == has_char_upto(cs@, '⌥', i as int),
            ctrl == has_char_upto(cs@, '⌃', i as int),
        decreases cs@.len() - i,
    {
        let ch = cs[i];
        assert(cs@.take(i + 1).drop_last() =~= cs@.take(i as int));
        assert(cs@.take(i + 1).last() == ch);
        if ch == '⌘' {
            cmd = true;
        } else if ch == '⇧' {
            shift = true;
        } else if ch == '⌥' {
            alt = true;
        } else if ch == '⌃' {
            ctrl = true;
        } else if ch == ' ' {
        } else {
            rest.push(ch);
        }
        i += 1;
    }
    assert(cs@.take(cs@.len() as int) =~= cs@);
    if rest.len() == 0 {
        return None;
    }
    let key = normalise_key(rest.as_slice());
    Some(Chord { cmd, shift, alt, ctrl, key })
}

/// Write a chord back in notation, modifiers in the order ⌃⌥⇧⌘.
pub fn format(c: &Chord) -> (s: String)
    ensures
        s@ == format_spec(chord_view(*c)),
{
    let mut s = String::new();
    if c.ctrl {
        push_char(&mut s, '⌃');
    }
    if c.alt {
        push_char(&mut s, '⌥');
    }
    if c.shift {
        push_char(&mut s, '⇧');
    }
    if c.cmd {
        push_char(&mut s, '⌘');
    }
    let k = display_key(c.key.as_str());
    push_str(&mut s, k.as_str());
    assert(s@ =~= format_spec(chord_view(*c)));
    s
}

// ── Bindings ────────────────────────────────────────────────────────────────

/// The user's override for `id`, when it reads as a usable chord.
pub open spec fn override_chord(kb: Map<Seq<char>, Seq<char>>, id: Seq<char>) -> Option<ChordSpec> {
    if kb.contains_key(id) {
        match parse_spec(kb[id]) {
            Some(c) => if usable(c) {
                Some(c)
            } else {
                None
            },
            None => None,
        }
    } else {
        None
    }
}

/// The chord `id` ships with; empty for an unknown id.
pub open spec fn default_chord(id: Seq<char>) -> Seq<char> {
    match command_spec(id) {
        Some(c) => c.default@,
        None => seq![],
    }
}

/// The chord in force for `id`.
pub open spec fn binding_spec(kb: Map<Seq<char>, Seq<char>>, id: Seq<char>) -> Seq<char> {
    match override_chord(kb, id) {
        Some(c) => format_spec(c),
        None => default_chord(id),
    }
}

/// The chord in force for `id`: the user's, or the one it ships with.
pub fn binding(cfg: &Config, id: &str) -> (s: String)
    ensures
        s@ == binding_spec(cfg.keybindings.view(), id@),
{
    match cfg.keybindings.get(id) {
        Some(over) => {
            match parse(over.as_str()) {
                Some(c) => {
                    if c.is_usable() {
                        return format(&c);
                    }
                },
                None => {},
            }
        },
        None => {},
    }
    match command(id) {
        Some(c) => own(c.default),
        None => String::new(),
    }
}

/// Is `id` off its shipped chord?
pub fn is_customised(cfg: &Config, id: &str) -> (b: bool)
    ensures
        b == match command_spec(id@) {
            Some(c) => binding_spec(cfg.keybindings.view(), id@) != c.default@,
            None => false,
        },
{
    match command(id) {
        None => false,
        Some(cmd) => {
            let b = binding(cfg, id);
            !str_eq(b.as_str(), cmd.default)
        },
    }
}

/// The first command of `cat` from index `i` on, other than `id`, whose
/// chord in force is `want`.
pub open spec fn find_conflict(
    cat: Seq<Command>,
    kb: Map<Seq<char>, Seq<char>>,
    id: Seq<char>,
    want: Seq<char>,
    i: int,
) -> Option<Command>
    decreases cat.len() - i,
{
    if i < 0 || i >= cat.len() {
        None
    } else if cat[i].id@ != id && binding_spec(kb, cat[i].id@) == want {
        Some(cat[i])
    } else {
        find_conflict(cat, kb, id, want, i + 1)
    }
}

/// Which other command already answers to `chord`, if any.
pub fn conflict(cfg: &Config, id: &str, chord: &str) -> (r: Option<Command>)
    ensures
        r == match parse_spec(chord@) {
            Some(want) => find_conflict(catalog_spec(), cfg.keybindings.view(), id@, format_spec(want), 0),
            None => None,
        },
{
    let want = match parse(chord) {
        Some(w) => format(&w),
        None => {
            return None;
        },
    };
    let cat = catalog();
    let mut i: usize = 0;
    while i < cat.len()
        invariant
            cat@ == catalog_spec(),
            i <= cat@.len(),
            parse_spec(chord@) is Some,
            want@ == format_spec(parse_spec(chord@).unwrap()),
            find_conflict(cat@, cfg.keybindings.view(), id@, want@, i as int) == find_conflict(
                cat@,
                cfg.keybindings.view(),
                id@,
                want@,
                0,
            ),
        decreases cat@.len() - i,
    {
        let c = cat[i];
        if !str_eq(c.id, id) {
            let b = binding(cfg, c.id);
            if str_eq(b.as_str(), want.as_str()) {
                return Some(c);
            }
        }
        i += 1;
    }
    None
}

/// Give `id` a new chord; `None` puts it back on the shipped one. Returns
/// false, leaving the configuration as it was, for an unknown id or a chord
/// that cannot be a shortcut. A chord equal to the shipped one is stored as
/// the absence of an override.
pub fn set(cfg: &mut Config, id: &str, chord: Option<&str>) -> (ok: bool)
    ensures
        match command_spec(id@) {
            None => !ok && final(cfg).keybindings.view() == old(cfg).keybindings.view(),
            Some(cmd) => match chord {
                None => ok && final(cfg).keybindings.view() == old(cfg).keybindings.view().remove(id@),
                Some(ch) => match parse_spec(ch@) {
                    Some(p) => if usable(p) {
                        &&& ok
                        &&& final(cfg).keybindings.view() == if format_spec(p) == cmd.default@ {
                            old(cfg).keybindings.view().remove(id@)
                        } else {
                            old(cfg).keybindings.view().insert(id@, format_spec(p))
                        }
                    } else {
                        !ok && final(cfg).keybindings.view() == old(cfg).keybindings.view()
                    },
                    None => !ok && final(cfg).keybindings.view() == old(cfg).keybindings.view(),
                },
            },
        },
{
    let cmd = match command(id) {
        Some(c) => c,
        None => {
            return false;
        },
    };
    let chord = match chord {
        Some(c) => c,
        None => {
            cfg.keybindings.remove(id);
            return true;
        },
    };
    let parsed = match parse(chord) {
        Some(p) => p,
        None => {
            return false;
        },
    };
    if !parsed.is_usable() {
        return false;
    }
    let text = format(&parsed);
    if str_eq(text.as_str(), cmd.default) {
        cfg.keybindings.remove(id);
    } else {
        cfg.keybindings.insert(own(id), text);
    }
    true
}

/// Every command back to its shipped chord.
pub fn reset_all(cfg: &mut Config)
    ensures
        final(cfg).keybindings.view() == Map::<Seq<char>, Seq<char>>::empty(),
{
    cfg.keybindings.clear();
}

/// With no override stored for it, a command is on its shipped chord.
pub proof fn law_no_override_is_default(kb: Map<Seq<char>, Seq<char>>, id: Seq<char>)
    requires
        !kb.contains_key(id),
    ensures
        binding_spec(kb, id) == default_chord(id),
{
}

/// Clearing a command's override, or resetting everything, puts it back on
/// its shipped chord.
pub proof fn law_cleared_is_default(kb: Map<Seq<char>, Seq<char>>, id: Seq<char>)
    ensures
        binding_spec(kb.remove(id), id) == default_chord(id),
        binding_spec(Map::<Seq<char>, Seq<char>>::empty(), id) == default_chord(id),
{
}

/// An override that does not read as a usable chord is ignored.
pub proof fn law_unreadable_override_ignored(kb: Map<Seq<char>, Seq<char>>, id: Seq<char>, text: Seq<char>)
    requires
        match parse_spec(text) {
            Some(c) => !usable(c),
            None => true,
        },
    ensures
        binding_spec(kb.insert(id, text), id) == default_chord(id),
{
}

/// A command never conflicts with itself, and what a conflict names is
/// another command whose chord in force is the one asked about.
pub proof fn law_conflict_is_another(
    cat: Seq<Command>,
    kb: Map<Seq<char>, Seq<char>>,
    id: Seq<char>,
    want: Seq<char>,
    i: int,
)
    ensures
        match find_conflict(cat, kb, id, want, i) {
            Some(c) => c.id@ != id && binding_spec(kb, c.id@) == want && cat.contains(c),
            None => true,
        },
    decreases cat.len() - i,
{
    if 0 <= i < cat.len() {
        if cat[i].id@ != id && binding_spec(kb, cat[i].id@) == want {
            assert(cat[i] == cat[i]);
        } else {
            law_conflict_is_another(cat, kb, id, want, i + 1);
        }
    }
}

} // verus!

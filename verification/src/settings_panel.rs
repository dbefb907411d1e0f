//! The Settings panel's state: which page is shown, the selected row, and
//! the working copy of the configuration the Setting page edits.

use vstd::prelude::*;
use crate::settings::{SettingsPage, SettingRow, SettingControl, HelpEntry, help_entries, is_heading, row_control,
    next_page_spec, prev_page_spec};
use crate::surface_keys::first_entry;
use crate::text::{own, push_str, str_eq};

verus! {

/// What the panel asks of the application after a change.
#[derive(Debug, Clone, Copy, PartialEq, Eq, Structural)]
pub enum SettingsAction {
    /// Nothing to do.
    Nothing,
    ApplyTheme,
    ApplyGpuAcc,
    ApplyLsp,
    OpenWorkbench,
    OpenScm,
}

/// The part of the user's configuration the Setting page edits.
#[derive(Debug, Clone)]
pub struct SettingsDraft {
    /// `system`, `light`, `dark`, or a theme's name.
    pub theme: String,
    /// `clear` or `tinted`.
    pub glass_style: String,
    pub tab_width: usize,
    pub relative_number: bool,
    pub wrap_lines: bool,
    pub undo_caching: bool,
    pub clipboard_sync: bool,
    pub gpu_acc: bool,
    pub gpu_graphics: bool,
    pub gpu_hyperlinks: bool,
    pub key_hints: bool,
    pub lsp_enabled: bool,
    pub format_on_save: bool,
    /// `default`, or a hex colour.
    pub highlight_color: String,
    pub update_check: bool,
    /// One entry per language of the server catalogue: unset (the default
    /// server), empty (off), or a command of the user's.
    pub lsp_servers: Vec<Option<String>>,
}

/// A language of the server catalogue.
#[derive(Debug, Clone)]
pub struct LspEntry {
    /// The configuration key.
    pub key: String,
    /// The server used when the user sets none.
    pub default_cmd: String,
}

/// The draft as values.
pub struct DraftView {
    pub theme: Seq<char>,
    pub glass_style: Seq<char>,
    pub tab_width: usize,
    pub relative_number: bool,
    pub wrap_lines: bool,
    pub undo_caching: bool,
    pub clipboard_sync: bool,
    pub gpu_acc: bool,
    pub gpu_graphics: bool,
    pub gpu_hyperlinks: bool,
    pub key_hints: bool,
    pub lsp_enabled: bool,
    pub format_on_save: bool,
    pub highlight_color: Seq<char>,
    pub update_check: bool,
    pub lsp_servers: Seq<Option<Seq<char>>>,
}

pub open spec fn opt_view(o: Option<String>) -> Option<Seq<char>> {
    match o {
        Some(s) => Some(s@),
        None => None,
    }
}

pub open spec fn draft_view(d: SettingsDraft) -> DraftView {
    DraftView {
        theme: d.theme@,
        glass_style: d.glass_style@,
        tab_width: d.tab_width,
        relative_number: d.relative_number,
        wrap_lines: d.wrap_lines,
        undo_caching: d.undo_caching,
        clipboard_sync: d.clipboard_sync,
        gpu_acc: d.gpu_acc,
        gpu_graphics: d.gpu_graphics,
        gpu_hyperlinks: d.gpu_hyperlinks,
        key_hints: d.key_hints,
        lsp_enabled: d.lsp_enabled,
        format_on_save: d.format_on_save,
        highlight_color: d.highlight_color@,
        update_check: d.update_check,
        lsp_servers: d.lsp_servers@.map_values(|o: Option<String>| opt_view(o)),
    }
}

/// The option a row's control shows for the draft.
pub open spec fn value_index_spec(r: SettingRow, d: DraftView) -> u32 {
    match r {
        SettingRow::AppearanceMode => if d.theme == "light"@ { 1 } else if d.theme == "dark"@ { 2 } else { 0 },
        SettingRow::GlassStyle => if d.glass_style == "tinted"@ { 1 } else { 0 },
        SettingRow::TabWidth => if d.tab_width == 2 { 0 } else if d.tab_width == 8 { 2 } else { 1 },
        SettingRow::RelativeNumber => d.relative_number as u32,
        SettingRow::WrapLines => d.wrap_lines as u32,
        SettingRow::UndoCaching => d.undo_caching as u32,
        SettingRow::ClipboardSync => d.clipboard_sync as u32,
        SettingRow::GpuAcc => d.gpu_acc as u32,
        SettingRow::GpuGraphics => d.gpu_graphics as u32,
        SettingRow::GpuHyperlinks => d.gpu_hyperlinks as u32,
        SettingRow::KeyHints => d.key_hints as u32,
        SettingRow::LspEnabled => d.lsp_enabled as u32,
        SettingRow::FormatOnSave => d.format_on_save as u32,
        SettingRow::HighlightColor => if d.highlight_color != "default"@ { 1 } else { 0 },
        SettingRow::UpdateCheck => d.update_check as u32,
        SettingRow::LspLang(i) => if i < d.lsp_servers.len() {
            match d.lsp_servers[i as int] {
                None => 0,
                Some(s) => if s.len() == 0 { 1 } else { 2 },
            }
        } else {
            0
        },
        _ => 0,
    }
}

fn b2u(b: bool) -> (n: u32)
    ensures
        n == b as u32,
{
    if b { 1 } else { 0 }
}

impl SettingRow {
    /// The option the row's native control shows for `draft`.
    pub fn value_index(self, draft: &SettingsDraft) -> (n: u32)
        ensures
            n == value_index_spec(self, draft_view(*draft)),
    {
        match self {
            SettingRow::AppearanceMode => if str_eq(draft.theme.as_str(), "light") {
                1
            } else if str_eq(draft.theme.as_str(), "dark") {
                2
            } else {
                0
            },
            SettingRow::GlassStyle => b2u(str_eq(draft.glass_style.as_str(), "tinted")),
            SettingRow::TabWidth => if draft.tab_width == 2 { 0 } else if draft.tab_width == 8 { 2 } else { 1 },
            SettingRow::RelativeNumber => b2u(draft.relative_number),
            SettingRow::WrapLines => b2u(draft.wrap_lines),
            SettingRow::UndoCaching => b2u(draft.undo_caching),
            SettingRow::ClipboardSync => b2u(draft.clipboard_sync),
            SettingRow::GpuAcc => b2u(draft.gpu_acc),
            SettingRow::GpuGraphics => b2u(draft.gpu_graphics),
            SettingRow::GpuHyperlinks => b2u(draft.gpu_hyperlinks),
            SettingRow::KeyHints => b2u(draft.key_hints),
            SettingRow::LspEnabled => b2u(draft.lsp_enabled),
            SettingRow::FormatOnSave => b2u(draft.format_on_save),
            SettingRow::HighlightColor => b2u(!str_eq(draft.highlight_color.as_str(), "default")),
            SettingRow::UpdateCheck => b2u(draft.update_check),
            SettingRow::LspLang(i) => {
                if i < draft.lsp_servers.len() {
                    match &draft.lsp_servers[i] {
                        None => 0,
                        Some(s) => if s.as_str().unicode_len() == 0 { 1 } else { 2 },
                    }
                } else {
                    0
                }
            },
            _ => 0,
        }
    }
}

/// The Setting page's rows for `themes` themes and `langs` catalogue
/// languages: the theme section, the editor section, the language-server
/// section and the Git section, each under its header.
pub open spec fn rows_spec(themes: nat, langs: nat) -> Seq<SettingRow> {
    seq![SettingRow::ThemeHeader, SettingRow::AppearanceMode, SettingRow::GlassStyle]
        + Seq::new(themes, |i: int| SettingRow::Theme(i as usize))
        + seq![
            SettingRow::HighlightColor,
            SettingRow::EditorHeader,
            SettingRow::RelativeNumber,
            SettingRow::WrapLines,
            SettingRow::TabWidth,
            SettingRow::UpdateCheck,
            SettingRow::UndoCaching,
            SettingRow::ClipboardSync,
            SettingRow::GpuAcc,
            SettingRow::GpuGraphics,
            SettingRow::GpuHyperlinks,
            SettingRow::KeyHints,
            SettingRow::LspHeader,
            SettingRow::LspEnabled,
            SettingRow::FormatOnSave,
        ]
        + Seq::new(langs, |i: int| SettingRow::LspLang(i as usize))
        + seq![SettingRow::GitHeader, SettingRow::OpenWorkbench, SettingRow::OpenScm]
}

/// The Setting page's rows.
pub fn setting_rows(themes: usize, langs: usize) -> (v: Vec<SettingRow>)
    ensures
        v@ == rows_spec(themes as nat, langs as nat),
{
    let mut v: Vec<SettingRow> = vec![SettingRow::ThemeHeader, SettingRow::AppearanceMode, SettingRow::GlassStyle];
    let ghost head = v@;
    let mut i: usize = 0;
    while i < themes
        invariant
            i <= themes,
            v@ == head + Seq::new(i as nat, |k: int| SettingRow::Theme(k as usize)),
        decreases themes - i,
    {
        v.push(SettingRow::Theme(i));
        i = i + 1;
        assert(v@ =~= head + Seq::new(i as nat, |k: int| SettingRow::Theme(k as usize)));
    }
    let mid: Vec<SettingRow> = vec![
        SettingRow::HighlightColor,
        SettingRow::EditorHeader,
        SettingRow::RelativeNumber,
        SettingRow::WrapLines,
        SettingRow::TabWidth,
        SettingRow::UpdateCheck,
        SettingRow::UndoCaching,
        SettingRow::ClipboardSync,
        SettingRow::GpuAcc,
        SettingRow::GpuGraphics,
        SettingRow::GpuHyperlinks,
        SettingRow::KeyHints,
        SettingRow::LspHeader,
        SettingRow::LspEnabled,
        SettingRow::FormatOnSave,
    ];
    let mut m: usize = 0;
    let ghost before = v@;
    while m < mid.len()
        invariant
            m <= mid.len(),
            v@ == before + mid@.take(m as int),
        decreases mid.len() - m,
    {
        v.push(mid[m]);
        m = m + 1;
        assert(v@ =~= before + mid@.take(m as int));
    }
    assert(mid@.take(mid.len() as int) =~= mid@);
    let ghost head2 = v@;
    let mut j: usize = 0;
    while j < langs
        invariant
            j <= langs,
            v@ == head2 + Seq::new(j as nat, |k: int| SettingRow::LspLang(k as usize)),
        decreases langs - j,
    {
        v.push(SettingRow::LspLang(j));
        j = j + 1;
        assert(v@ =~= head2 + Seq::new(j as nat, |k: int| SettingRow::LspLang(k as usize)));
    }
    v.push(SettingRow::GitHeader);
    v.push(SettingRow::OpenWorkbench);
    v.push(SettingRow::OpenScm);
    assert(v@ =~= rows_spec(themes as nat, langs as nat));
    v
}

/// Walk from `cur` one row at a time, forward or back, until `left` rows
/// that are not headers have been passed or the list ends.
pub open spec fn walk(hdr: Seq<bool>, cur: int, forward: bool, left: int) -> int
    decreases (if forward { hdr.len() - cur } else { cur + 1 }),
{
    if left <= 0 {
        cur
    } else {
        let next = if forward { cur + 1 } else { cur - 1 };
        if next < 0 || next >= hdr.len() {
            cur
        } else {
            walk(hdr, next, forward, if !hdr[next] { left - 1 } else { left })
        }
    }
}

/// The first row at or after `from` that is not a header.
pub open spec fn first_plain(hdr: Seq<bool>, from: int) -> Option<int>
    decreases hdr.len() - from,
{
    if from < 0 || from >= hdr.len() {
        None
    } else if !hdr[from] {
        Some(from)
    } else {
        first_plain(hdr, from + 1)
    }
}

pub open spec fn abs_at_least_one(d: isize) -> int {
    if d >= 0 { if d == 0 { 1 } else { d as int } } else { -(d as int) }
}

/// The selection after moving `delta` rows over a list whose headers are
/// flagged in `hdr`: headers are stepped over and not counted, the walk
/// stops at either end, and a selection that ends on a header moves to the
/// first row that is not one.
pub open spec fn moved_sel(hdr: Seq<bool>, sel: usize, delta: isize) -> usize {
    if hdr.len() == 0 {
        0
    } else {
        let cur = walk(hdr, sel as int, delta >= 0, abs_at_least_one(delta));
        (if 0 <= cur < hdr.len() && hdr[cur] {
            match first_plain(hdr, 0) {
                Some(i) => i,
                None => cur,
            }
        } else {
            cur
        }) as usize
    }
}

fn first_plain_exec(hdr: &Vec<bool>) -> (r: Option<usize>)
    ensures
        match first_plain(hdr@, 0) {
            Some(i) => r == Some(i as usize),
            None => r is None,
        },
{
    let mut i: usize = 0;
    while i < hdr.len()
        invariant
            i <= hdr.len(),
            first_plain(hdr@, 0) == first_plain(hdr@, i as int),
        decreases hdr.len() - i,
    {
        if !hdr[i] {
            return Some(i);
        }
        i = i + 1;
    }
    None
}

/// The selection after moving by `delta` over the rows flagged in `hdr`.
fn move_over(hdr: &Vec<bool>, sel: usize, delta: isize) -> (r: usize)
    requires
        delta != isize::MIN,
    ensures
        r == moved_sel(hdr@, sel, delta),
{
    let n = hdr.len();
    if n == 0 {
        return 0;
    }
    let forward = delta >= 0;
    let mut left: usize = if delta > 0 { delta as usize } else if delta == 0 { 1 } else { (-delta) as usize };
    let mut cur: usize = sel;
    let ghost total = abs_at_least_one(delta);
    assert(left as int == total);
    while left > 0
        invariant_except_break
            n == hdr@.len(),
            n > 0,
            walk(hdr@, sel as int, forward, total) == walk(hdr@, cur as int, forward, left as int),
        ensures
            walk(hdr@, sel as int, forward, total) == cur as int,
        decreases (if forward { n as int - cur as int } else { cur as int + 1 }),
    {
        if forward {
            if cur >= n - 1 {
                break;
            }
            cur = cur + 1;
        } else {
            if cur == 0 || cur - 1 >= n {
                break;
            }
            cur = cur - 1;
        }
        if !hdr[cur] {
            left = left - 1;
        }
    }
    if cur < n && hdr[cur] {
        match first_plain_exec(hdr) {
            Some(i) => {
                cur = i;
            },
            None => {},
        }
    }
    cur
}

/// The row a page selects when it is turned to: the first theme on the
/// Setting page, the first shortcut on the Help page, else the top.
pub open spec fn default_sel(page: SettingsPage, help: Seq<HelpEntry>) -> usize {
    match page {
        SettingsPage::Setting => 1,
        SettingsPage::Help => first_entry(help, 0) as usize,
        _ => 0,
    }
}

/// The Settings panel.
#[derive(Debug, Clone)]
pub struct SettingsPanel {
    pub open: bool,
    pub page: SettingsPage,
    /// The selected row of the page.
    pub selected: usize,
    /// The working copy of the configuration while the panel is open.
    pub draft: SettingsDraft,
    /// The draft has changes not yet saved.
    pub dirty: bool,
    pub status: Option<String>,
    /// The themes' names, in the order the Setting page lists them.
    pub themes: Vec<String>,
    /// The language-server catalogue, in the order the Setting page lists it.
    pub lsp_catalog: Vec<LspEntry>,
    /// The shortcut reference of the Help page.
    pub help: Vec<HelpEntry>,
}

/// The rows of the page shown, with their headers flagged.
pub open spec fn header_flags(p: SettingsPanel) -> Seq<bool> {
    match p.page {
        SettingsPage::Setting => rows_spec(p.themes@.len(), p.lsp_catalog@.len()).map_values(|r: SettingRow| is_heading(r)),
        SettingsPage::Help => p.help@.map_values(|e: HelpEntry| e.is_header),
        _ => Seq::empty(),
    }
}

/// `true` or `false`.
pub open spec fn bool_word(b: bool) -> Seq<char> {
    if b { "true"@ } else { "false"@ }
}

fn bool_str(b: bool) -> (s: &'static str)
    ensures
        s@ == bool_word(b),
{
    if b { "true" } else { "false" }
}

fn status_of(prefix: &str, value: &str) -> (s: Option<String>)
    ensures
        s matches Some(t) && t@ == prefix@ + value@,
{
    let mut t = own(prefix);
    push_str(&mut t, value);
    Some(t)
}

fn status_lit(text: &str) -> (s: Option<String>)
    ensures
        s matches Some(t) && t@ == text@,
{
    Some(own(text))
}

/// The panel's status line holds `msg`.
pub open spec fn says(p: SettingsPanel, msg: Seq<char>) -> bool {
    p.status matches Some(s) && s@ == msg
}

/// The mode names of the appearance control, in its order.
pub open spec fn appearance_name(option: u32) -> Seq<char> {
    if option == 0 { "system"@ } else if option == 1 { "light"@ } else { "dark"@ }
}

/// The glass styles, in the control's order.
pub open spec fn glass_name(option: u32) -> Seq<char> {
    if option == 0 { "clear"@ } else { "tinted"@ }
}

/// The number of choices a segmented control offers (its presentation's
/// `|`-separated options).
pub open spec fn choices(r: SettingRow) -> u32 {
    match r {
        SettingRow::AppearanceMode => 3,
        SettingRow::GlassStyle => 2,
        _ => 1,
    }
}

/// The option that activating a row picks, from the one it shows: a toggle
/// flips, a segmented control steps round its choices, a theme keeps its
/// place, a language's server goes between default and off, and an action
/// fires; a colour or a row without a control picks nothing.
pub open spec fn next_option(r: SettingRow, current: u32) -> Option<u32> {
    match row_control(r) {
        SettingControl::Toggle => Some((current == 0) as u32),
        SettingControl::Segmented => Some(((current + 1) % (choices(r) as int)) as u32),
        SettingControl::Menu => match r {
            SettingRow::Theme(_) => Some(current),
            SettingRow::LspLang(_) => Some(if current == 0 { 1u32 } else { 0u32 }),
            _ => Some((current == 0) as u32),
        },
        SettingControl::Action => Some(0),
        _ => None,
    }
}

/// The panel is as before but for the draft, which is `f`, and the draft
/// is marked changed.
pub open spec fn kept_but(p: SettingsPanel, q: SettingsPanel, f: DraftView) -> bool {
    &&& draft_view(q.draft) == f
    &&& q.dirty
    &&& q.open == p.open
    &&& q.page == p.page
    &&& q.selected == p.selected
    &&& q.themes == p.themes
    &&& q.lsp_catalog == p.lsp_catalog
    &&& q.help == p.help
}

/// Setting `row` to `option` is taken: the row holds a value and the option
/// is one of its choices.
pub open spec fn accepts(p: SettingsPanel, row: SettingRow, option: u32) -> bool {
    match row {
        SettingRow::AppearanceMode => option < 3,
        SettingRow::GlassStyle => option < 2,
        SettingRow::Theme(i) => i < p.themes@.len(),
        SettingRow::TabWidth => option < 3,
        SettingRow::UpdateCheck | SettingRow::RelativeNumber | SettingRow::WrapLines | SettingRow::UndoCaching
        | SettingRow::ClipboardSync | SettingRow::GpuAcc | SettingRow::GpuGraphics | SettingRow::GpuHyperlinks
        | SettingRow::KeyHints | SettingRow::LspEnabled | SettingRow::FormatOnSave => true,
        SettingRow::LspLang(i) => i < p.lsp_catalog@.len() && i < p.draft.lsp_servers@.len() && option < 2,
        _ => false,
    }
}

/// What a taken setting asks of the application.
pub open spec fn action_of(row: SettingRow) -> SettingsAction {
    match row {
        SettingRow::AppearanceMode | SettingRow::Theme(_) => SettingsAction::ApplyTheme,
        SettingRow::GpuAcc | SettingRow::GpuGraphics | SettingRow::GpuHyperlinks => SettingsAction::ApplyGpuAcc,
        SettingRow::LspEnabled | SettingRow::LspLang(_) => SettingsAction::ApplyLsp,
        _ => SettingsAction::Nothing,
    }
}

/// A value's line on the status line, for a setting whose message names it
/// plainly.
pub open spec fn plain_msg(prefix: Seq<char>, on: bool) -> Seq<char> {
    prefix + bool_word(on)
}

/// The panel `q` after a taken setting of `row` to `option` on `p`: the
/// draft holds the new value, the status line names it, and the draft is
/// marked changed.
pub open spec fn outcome(p: SettingsPanel, q: SettingsPanel, row: SettingRow, option: u32) -> bool {
    let d = draft_view(p.draft);
    let on = option != 0;
    match row {
        SettingRow::AppearanceMode => kept_but(p, q, DraftView { theme: appearance_name(option), ..d })
            && says(q, "appearance = "@ + appearance_name(option)),
        SettingRow::GlassStyle => kept_but(p, q, DraftView { glass_style: glass_name(option), ..d })
            && says(q, "glass_style = "@ + glass_name(option)),
        SettingRow::Theme(i) => kept_but(p, q, DraftView { theme: p.themes@[i as int]@, ..d })
            && says(q, "Theme → "@ + p.themes@[i as int]@),
        SettingRow::TabWidth => kept_but(p, q, DraftView { tab_width: if option == 0 { 2 } else if option == 1 { 4 } else { 8 }, ..d })
            && says(q, "tab_width = "@ + (if option == 0 { "2"@ } else if option == 1 { "4"@ } else { "8"@ })),
        SettingRow::UpdateCheck => kept_but(p, q, DraftView { update_check: on, ..d }) && says(q, if on {
            "update_check = true  (check at launch)"@
        } else {
            "update_check = false  (manual checks only)"@
        }),
        SettingRow::RelativeNumber => kept_but(p, q, DraftView { relative_number: on, ..d })
            && says(q, plain_msg("relative_number = "@, on)),
        SettingRow::WrapLines => kept_but(p, q, DraftView { wrap_lines: on, ..d }) && says(q, if on {
            "wrap_lines = true  (soft-wrap long lines)"@
        } else {
            "wrap_lines = false  (horizontal scroll · zh/zl pan)"@
        }),
        SettingRow::UndoCaching => kept_but(p, q, DraftView { undo_caching: on, ..d }) && says(q, if on {
            "undo_caching = true  (history survives close · ~/.suisei/undo)"@
        } else {
            "undo_caching = false  (history discarded on close)"@
        }),
        SettingRow::ClipboardSync => kept_but(p, q, DraftView { clipboard_sync: on, ..d })
            && says(q, plain_msg("clipboard_sync = "@, on)),
        SettingRow::GpuAcc => kept_but(p, q, DraftView { gpu_acc: on, ..d }) && says(q, if on {
            "gpu_acc = true  (Ghostty/Kitty enhancements on)"@
        } else {
            "gpu_acc = false  (plain cell TUI)"@
        }),
        SettingRow::GpuGraphics => kept_but(p, q, DraftView { gpu_graphics: on, ..d })
            && says(q, plain_msg("gpu_graphics = "@, on)),
        SettingRow::GpuHyperlinks => kept_but(p, q, DraftView { gpu_hyperlinks: on, ..d })
            && says(q, plain_msg("gpu_hyperlinks = "@, on)),
        SettingRow::KeyHints => kept_but(p, q, DraftView { key_hints: on, ..d }) && says(q, plain_msg("key_hints = "@, on)),
        SettingRow::LspEnabled => kept_but(p, q, DraftView { lsp_enabled: on, ..d })
            && says(q, plain_msg("lsp_enabled = "@, on)),
        SettingRow::FormatOnSave => kept_but(p, q, DraftView { format_on_save: on, ..d })
            && says(q, plain_msg("format_on_save = "@, on)),
        SettingRow::LspLang(i) => kept_but(
            p,
            q,
            DraftView { lsp_servers: d.lsp_servers.update(i as int, if option == 0 { None } else { Some(Seq::empty()) }), ..d },
        ) && says(q, if option == 0 {
            "lsp."@ + p.lsp_catalog@[i as int].key@ + " = default ("@ + p.lsp_catalog@[i as int].default_cmd@ + ")"@
        } else {
            "lsp."@ + p.lsp_catalog@[i as int].key@ + " = off"@
        }),
        _ => false,
    }
}

/// Setting `row` to `option` on `p` gave `q` and `a`: the Git rows ask for
/// their panels and change nothing; a taken setting changes the draft as
/// `outcome` says; anything else changes nothing.
pub open spec fn apply_result(p: SettingsPanel, q: SettingsPanel, row: SettingRow, option: u32, a: SettingsAction) -> bool {
    if row == SettingRow::OpenWorkbench {
        a == SettingsAction::OpenWorkbench && q == p
    } else if row == SettingRow::OpenScm {
        a == SettingsAction::OpenScm && q == p
    } else if accepts(p, row, option) {
        a == action_of(row) && outcome(p, q, row, option)
    } else {
        a == SettingsAction::Nothing && q == p
    }
}

impl SettingsPanel {
    /// A closed panel on the About page, holding `draft` and the lists its
    /// Setting page shows.
    pub fn new(draft: SettingsDraft, themes: Vec<String>, lsp_catalog: Vec<LspEntry>) -> (p: Self)
        ensures
            !p.open,
            p.page == SettingsPage::About,
            p.selected == 0,
            !p.dirty,
            p.status is None,
            p.draft == draft,
            p.themes == themes,
            p.lsp_catalog == lsp_catalog,
            p.help@.len() == crate::settings::HELP_ENTRY_COUNT,
    {
        SettingsPanel {
            open: false,
            page: SettingsPage::About,
            selected: 0,
            draft,
            dirty: false,
            status: None,
            themes,
            lsp_catalog,
            help: help_entries(),
        }
    }

    /// Show the panel on its About page with `draft`, the configuration as
    /// it was just read, as the working copy.
    pub fn open_panel(&mut self, draft: SettingsDraft)
        ensures
            *final(self) == (SettingsPanel {
                open: true,
                page: SettingsPage::About,
                selected: 0,
                draft,
                dirty: false,
                status: None,
                ..*old(self)
            }),
    {
        self.open = true;
        self.page = SettingsPage::About;
        self.selected = 0;
        self.draft = draft;
        self.dirty = false;
        self.status = None;
    }

    pub fn close(&mut self)
        ensures
            *final(self) == (SettingsPanel { open: false, status: None, ..*old(self) }),
    {
        self.open = false;
        self.status = None;
    }

    pub fn visible(&self) -> (b: bool)
        ensures
            b == self.open,
    {
        self.open
    }

    /// The Setting page's rows.
    pub fn setting_rows(&self) -> (v: Vec<SettingRow>)
        ensures
            v@ == rows_spec(self.themes@.len(), self.lsp_catalog@.len()),
    {
        setting_rows(self.themes.len(), self.lsp_catalog.len())
    }

    fn header_flags_exec(&self) -> (v: Vec<bool>)
        ensures
            v@ == header_flags(*self),
    {
        let mut v: Vec<bool> = Vec::new();
        match self.page {
            SettingsPage::Setting => {
                let rows = self.setting_rows();
                let mut i: usize = 0;
                while i < rows.len()
                    invariant
                        i <= rows@.len(),
                        v@ == rows@.take(i as int).map_values(|r: SettingRow| is_heading(r)),
                    decreases rows.len() - i,
                {
                    let r = rows[i];
                    v.push(matches!(r, SettingRow::ThemeHeader | SettingRow::EditorHeader | SettingRow::LspHeader | SettingRow::GitHeader));
                    i = i + 1;
                    assert(v@ =~= rows@.take(i as int).map_values(|r: SettingRow| is_heading(r)));
                }
                assert(rows@.take(rows@.len() as int) =~= rows@);
            },
            SettingsPage::Help => {
                let mut i: usize = 0;
                while i < self.help.len()
                    invariant
                        i <= self.help@.len(),
                        v@ == self.help@.take(i as int).map_values(|e: HelpEntry| e.is_header),
                    decreases self.help.len() - i,
                {
                    v.push(self.help[i].is_header);
                    i = i + 1;
                    assert(v@ =~= self.help@.take(i as int).map_values(|e: HelpEntry| e.is_header));
                }
                assert(self.help@.take(self.help@.len() as int) =~= self.help@);
            },
            _ => {},
        }
        v
    }

    /// How many rows the page shown has.
    pub fn page_item_count(&self) -> (n: usize)
        ensures
            n == header_flags(*self).len(),
    {
        match self.page {
            SettingsPage::Setting => self.setting_rows().len(),
            SettingsPage::Help => self.help.len(),
            _ => 0,
        }
    }

    /// Move the selection by `delta` rows, stepping over section headers on
    /// the Setting and Help pages.
    pub fn move_sel(&mut self, delta: isize)
        requires
            delta != isize::MIN,
        ensures
            *final(self) == (SettingsPanel { selected: moved_sel(header_flags(*old(self)), old(self).selected, delta), ..*old(self) }),
    {
        let hdr = self.header_flags_exec();
        self.selected = move_over(&hdr, self.selected, delta);
    }

    fn default_selected(&self) -> (n: usize)
        ensures
            n == default_sel(self.page, self.help@),
    {
        match self.page {
            SettingsPage::Setting => 1,
            SettingsPage::Help => {
                let mut i: usize = 0;
                while i < self.help.len()
                    invariant
                        i <= self.help@.len(),
                        self.page == SettingsPage::Help,
                        first_entry(self.help@, 0) == first_entry(self.help@, i as int),
                    decreases self.help.len() - i,
                {
                    if !self.help[i].is_header {
                        return i;
                    }
                    i = i + 1;
                }
                0
            },
            _ => 0,
        }
    }

    /// Turn to the next page, selecting its first row.
    pub fn next_page(&mut self)
        ensures
            *final(self) == (SettingsPanel {
                page: next_page_spec(old(self).page),
                selected: default_sel(next_page_spec(old(self).page), old(self).help@),
                status: None,
                ..*old(self)
            }),
    {
        self.page = self.page.next();
        self.selected = self.default_selected();
        self.status = None;
    }

    /// Turn to the previous page, selecting its first row.
    pub fn prev_page(&mut self)
        ensures
            *final(self) == (SettingsPanel {
                page: prev_page_spec(old(self).page),
                selected: default_sel(prev_page_spec(old(self).page), old(self).help@),
                status: None,
                ..*old(self)
            }),
    {
        self.page = self.page.prev();
        self.selected = self.default_selected();
        self.status = None;
    }

    /// Activate the selected row: the option after the one it shows, as
    /// `next_option` picks it, is set.
    pub fn activate(&mut self) -> (a: SettingsAction)
        ensures
            if old(self).page != SettingsPage::Setting
                || old(self).selected >= rows_spec(old(self).themes@.len(), old(self).lsp_catalog@.len()).len() {
                a == SettingsAction::Nothing && *final(self) == *old(self)
            } else {
                let row = rows_spec(old(self).themes@.len(), old(self).lsp_catalog@.len())[old(self).selected as int];
                match next_option(row, value_index_spec(row, draft_view(old(self).draft))) {
                    Some(o) => apply_result(*old(self), *final(self), row, o, a),
                    None => a == SettingsAction::Nothing && *final(self) == *old(self),
                }
            },
    {
        if !matches!(self.page, SettingsPage::Setting) {
            return SettingsAction::Nothing;
        }
        let rows = self.setting_rows();
        if self.selected >= rows.len() {
            return SettingsAction::Nothing;
        }
        let row = rows[self.selected];
        let current = row.value_index(&self.draft);
        let next: u32 = match row.presentation().control {
            SettingControl::Toggle => b2u(current == 0),
            SettingControl::Segmented => {
                let count: u32 = match row {
                    SettingRow::AppearanceMode => 3,
                    SettingRow::GlassStyle => 2,
                    _ => 1,
                };
                (current + 1) % count
            },
            SettingControl::Menu => match row {
                SettingRow::Theme(_) => current,
                SettingRow::LspLang(_) => if current == 0 { 1 } else { 0 },
                _ => b2u(current == 0),
            },
            SettingControl::Action => 0,
            _ => {
                return SettingsAction::Nothing;
            },
        };
        self.apply_row_value(row, next)
    }

    /// Set the selected row to `option` directly, as a native control does.
    pub fn set_value(&mut self, option: u32) -> (a: SettingsAction)
        ensures
            if old(self).page != SettingsPage::Setting
                || old(self).selected >= rows_spec(old(self).themes@.len(), old(self).lsp_catalog@.len()).len() {
                a == SettingsAction::Nothing && *final(self) == *old(self)
            } else {
                apply_result(*old(self), *final(self), rows_spec(old(self).themes@.len(), old(self).lsp_catalog@.len())[old(self).selected as int], option, a)
            },
    {
        if !matches!(self.page, SettingsPage::Setting) {
            return SettingsAction::Nothing;
        }
        let rows = self.setting_rows();
        if self.selected >= rows.len() {
            return SettingsAction::Nothing;
        }
        let row = rows[self.selected];
        self.apply_row_value(row, option)
    }

    /// The draft was written out: nothing is left unsaved.
    pub fn mark_saved(&mut self)
        ensures
            final(self).dirty == false,
            says(*final(self), "Saved ~/.suisei.toml"@),
            *final(self) == (SettingsPanel { dirty: false, status: final(self).status, ..*old(self) }),
    {
        self.dirty = false;
        self.status = status_lit("Saved ~/.suisei.toml");
    }

    fn apply_lsp(&mut self, i: usize, option: u32) -> (a: SettingsAction)
        ensures
            apply_result(*old(self), *final(self), SettingRow::LspLang(i), option, a),
    {
        let ghost d = draft_view(self.draft);
        if i >= self.lsp_catalog.len() || i >= self.draft.lsp_servers.len() || option >= 2 {
            return SettingsAction::Nothing;
        }
        let mut t = own("lsp.");
        push_str(&mut t, self.lsp_catalog[i].key.as_str());
        let ghost x: Option<Seq<char>> = if option == 0 { None } else { Some(Seq::<char>::empty()) };
        if option == 0 {
            push_str(&mut t, " = default (");
            push_str(&mut t, self.lsp_catalog[i].default_cmd.as_str());
            push_str(&mut t, ")");
            self.draft.lsp_servers.set(i, None);
        } else {
            push_str(&mut t, " = off");
            let empty = own("");
            proof {
                reveal_strlit("");
                assert(empty@ =~= Seq::<char>::empty());
            }
            self.draft.lsp_servers.set(i, Some(empty));
        }
        assert(opt_view(self.draft.lsp_servers@[i as int]) == x);
        assert(draft_view(self.draft).lsp_servers =~= d.lsp_servers.update(i as int, x));
        self.status = Some(t);
        self.dirty = true;
        SettingsAction::ApplyLsp
    }

    /// The rows that pick among named choices.
    #[verifier::rlimit(60)]
    fn apply_choice(&mut self, row: SettingRow, option: u32) -> (a: SettingsAction)
        requires
            row is AppearanceMode || row is GlassStyle || row is Theme || row is TabWidth,
        ensures
            apply_result(*old(self), *final(self), row, option, a),
    {
        let ghost d = draft_view(self.draft);
        match row {
            SettingRow::AppearanceMode => {
                if option >= 3 {
                    return SettingsAction::Nothing;
                }
                let mode = if option == 0 { "system" } else if option == 1 { "light" } else { "dark" };
                self.draft.theme = own(mode);
                self.status = status_of("appearance = ", mode);
                self.dirty = true;
                assert(draft_view(self.draft) == (DraftView { theme: appearance_name(option), ..d }));
                SettingsAction::ApplyTheme
            },
            SettingRow::GlassStyle => {
                if option >= 2 {
                    return SettingsAction::Nothing;
                }
                let style = if option == 0 { "clear" } else { "tinted" };
                self.draft.glass_style = own(style);
                self.status = status_of("glass_style = ", style);
                self.dirty = true;
                assert(draft_view(self.draft) == (DraftView { glass_style: glass_name(option), ..d }));
                SettingsAction::Nothing
            },
            SettingRow::Theme(i) => {
                if i >= self.themes.len() {
                    return SettingsAction::Nothing;
                }
                let name = own(self.themes[i].as_str());
                self.status = status_of("Theme → ", self.themes[i].as_str());
                self.draft.theme = name;
                self.dirty = true;
                assert(draft_view(self.draft) == (DraftView { theme: self.themes@[i as int]@, ..d }));
                SettingsAction::ApplyTheme
            },
            _ => {
                if option >= 3 {
                    return SettingsAction::Nothing;
                }
                self.draft.tab_width = if option == 0 { 2 } else if option == 1 { 4 } else { 8 };
                self.status = status_of("tab_width = ", if option == 0 { "2" } else if option == 1 { "4" } else { "8" });
                self.dirty = true;
                assert(draft_view(self.draft) == (DraftView { tab_width: if option == 0 { 2 } else if option == 1 { 4 } else { 8 }, ..d }));
                SettingsAction::Nothing
            },
        }
    }

    /// The rows that switch a setting on or off.
    #[verifier::rlimit(40)]
    fn apply_flag(&mut self, row: SettingRow, option: u32) -> (a: SettingsAction)
        requires
            row is UpdateCheck || row is RelativeNumber || row is WrapLines || row is UndoCaching || row is ClipboardSync
                || row is GpuAcc || row is GpuGraphics || row is GpuHyperlinks || row is KeyHints || row is LspEnabled
                || row is FormatOnSave,
        ensures
            apply_result(*old(self), *final(self), row, option, a),
    {
        let on = option != 0;
        self.dirty = true;
        match row {
            SettingRow::UpdateCheck => {
                self.draft.update_check = on;
                self.status = status_lit(if on { "update_check = true  (check at launch)" } else { "update_check = false  (manual checks only)" });
                SettingsAction::Nothing
            },
            SettingRow::RelativeNumber => {
                self.draft.relative_number = on;
                self.status = status_of("relative_number = ", bool_str(on));
                SettingsAction::Nothing
            },
            SettingRow::WrapLines => {
                self.draft.wrap_lines = on;
                self.status = status_lit(if on {
                    "wrap_lines = true  (soft-wrap long lines)"
                } else {
                    "wrap_lines = false  (horizontal scroll · zh/zl pan)"
                });
                SettingsAction::Nothing
            },
            SettingRow::UndoCaching => {
                self.draft.undo_caching = on;
                self.status = status_lit(if on {
                    "undo_caching = true  (history survives close · ~/.suisei/undo)"
                } else {
                    "undo_caching = false  (history discarded on close)"
                });
                SettingsAction::Nothing
            },
            SettingRow::ClipboardSync => {
                self.draft.clipboard_sync = on;
                self.status = status_of("clipboard_sync = ", bool_str(on));
                SettingsAction::Nothing
            },
            SettingRow::GpuAcc => {
                self.draft.gpu_acc = on;
                self.status = status_lit(if on { "gpu_acc = true  (Ghostty/Kitty enhancements on)" } else { "gpu_acc = false  (plain cell TUI)" });
                SettingsAction::ApplyGpuAcc
            },
            SettingRow::GpuGraphics => {
                self.draft.gpu_graphics = on;
                self.status = status_of("gpu_graphics = ", bool_str(on));
                SettingsAction::ApplyGpuAcc
            },
            SettingRow::GpuHyperlinks => {
                self.draft.gpu_hyperlinks = on;
                self.status = status_of("gpu_hyperlinks = ", bool_str(on));
                SettingsAction::ApplyGpuAcc
            },
            SettingRow::KeyHints => {
                self.draft.key_hints = on;
                self.status = status_of("key_hints = ", bool_str(on));
                SettingsAction::Nothing
            },
            SettingRow::LspEnabled => {
                self.draft.lsp_enabled = on;
                self.status = status_of("lsp_enabled = ", bool_str(on));
                SettingsAction::ApplyLsp
            },
            _ => {
                self.draft.format_on_save = on;
                self.status = status_of("format_on_save = ", bool_str(on));
                SettingsAction::Nothing
            },
        }
    }

    fn apply_row_value(&mut self, row: SettingRow, option: u32) -> (a: SettingsAction)
        ensures
            apply_result(*old(self), *final(self), row, option, a),
    {
        match row {
            SettingRow::AppearanceMode | SettingRow::GlassStyle | SettingRow::Theme(_) | SettingRow::TabWidth => {
                self.apply_choice(row, option)
            },
            SettingRow::UpdateCheck | SettingRow::RelativeNumber | SettingRow::WrapLines | SettingRow::UndoCaching
            | SettingRow::ClipboardSync | SettingRow::GpuAcc | SettingRow::GpuGraphics | SettingRow::GpuHyperlinks
            | SettingRow::KeyHints | SettingRow::LspEnabled | SettingRow::FormatOnSave => self.apply_flag(row, option),
            SettingRow::LspLang(i) => self.apply_lsp(i, option),
            SettingRow::OpenWorkbench => SettingsAction::OpenWorkbench,
            SettingRow::OpenScm => SettingsAction::OpenScm,
            _ => SettingsAction::Nothing,
        }
    }
}

/// Activating a switch turns it over: the value its control shows goes
/// from on to off or from off to on.
pub proof fn law_toggle_turns_over(p: SettingsPanel, q: SettingsPanel, row: SettingRow, a: SettingsAction)
    requires
        row_control(row) == SettingControl::Toggle,
        apply_result(p, q, row, next_option(row, value_index_spec(row, draft_view(p.draft)))->0, a),
    ensures
        value_index_spec(row, draft_view(q.draft)) == 1 - value_index_spec(row, draft_view(p.draft)),
        q.dirty,
{
}

proof fn lemma_walk_bounds(hdr: Seq<bool>, cur: int, forward: bool, left: int)
    requires
        0 <= cur < hdr.len(),
    ensures
        0 <= walk(hdr, cur, forward, left) < hdr.len(),
    decreases (if forward { hdr.len() - cur } else { cur + 1 }),
{
    if left > 0 {
        let next = if forward { cur + 1 } else { cur - 1 };
        if !(next < 0 || next >= hdr.len()) {
            lemma_walk_bounds(hdr, next, forward, if !hdr[next] { left - 1 } else { left });
        }
    }
}

proof fn lemma_first_plain(hdr: Seq<bool>, from: int, j: int)
    requires
        0 <= from <= j < hdr.len(),
        !hdr[j],
    ensures
        first_plain(hdr, from) matches Some(i) && from <= i < hdr.len() && !hdr[i],
    decreases j - from,
{
    if hdr[from] {
        lemma_first_plain(hdr, from + 1, j);
    }
}

/// Moving the selection never leaves it on a section header, as long as it
/// started on a row of the page and the page has a row that is not one.
pub proof fn law_selection_skips_headers(hdr: Seq<bool>, sel: usize, delta: isize, plain: int)
    requires
        sel < hdr.len(),
        hdr.len() <= usize::MAX,
        0 <= plain < hdr.len(),
        !hdr[plain],
    ensures
        moved_sel(hdr, sel, delta) < hdr.len(),
        !hdr[moved_sel(hdr, sel, delta) as int],
{
    lemma_walk_bounds(hdr, sel as int, delta >= 0, abs_at_least_one(delta));
    lemma_first_plain(hdr, 0, plain);
}

} // verus!

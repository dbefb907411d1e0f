//! The Settings panel's pages, its shortcut reference, and the rows of its
//! Setting page with how a native face presents each of them.

use vstd::prelude::*;

verus! {

/// The panel's four pages.
#[derive(Debug, Clone, Copy, PartialEq, Eq, Structural)]
pub enum SettingsPage {
    /// The About card.
    About,
    /// Appearance and editor settings.
    Setting,
    /// Extensions: status, the installed list, the store.
    Extensions,
    /// The keyboard shortcut reference.
    Help,
}

/// The page's place in tab order.
pub open spec fn page_index(p: SettingsPage) -> int {
    match p {
        SettingsPage::About => 0,
        SettingsPage::Setting => 1,
        SettingsPage::Extensions => 2,
        SettingsPage::Help => 3,
    }
}

/// The page after `p`, wrapping round.
pub open spec fn next_page_spec(p: SettingsPage) -> SettingsPage {
    match p {
        SettingsPage::About => SettingsPage::Setting,
        SettingsPage::Setting => SettingsPage::Extensions,
        SettingsPage::Extensions => SettingsPage::Help,
        SettingsPage::Help => SettingsPage::About,
    }
}

/// The page before `p`, wrapping round.
pub open spec fn prev_page_spec(p: SettingsPage) -> SettingsPage {
    match p {
        SettingsPage::About => SettingsPage::Help,
        SettingsPage::Setting => SettingsPage::About,
        SettingsPage::Extensions => SettingsPage::Setting,
        SettingsPage::Help => SettingsPage::Extensions,
    }
}

impl SettingsPage {
    pub fn label(self) -> (s: &'static str)
        ensures
            s == (match self {
                SettingsPage::About => "About",
                SettingsPage::Setting => "Setting",
                SettingsPage::Extensions => "Extensions",
                SettingsPage::Help => "Help",
            }),
    {
        match self {
            SettingsPage::About => "About",
            SettingsPage::Setting => "Setting",
            SettingsPage::Extensions => "Extensions",
            SettingsPage::Help => "Help",
        }
    }

    /// Every page, in tab order.
    pub fn all() -> (v: Vec<SettingsPage>)
        ensures
            v@ == seq![SettingsPage::About, SettingsPage::Setting, SettingsPage::Extensions, SettingsPage::Help],
            forall|i: int| 0 <= i < v@.len() ==> page_index(#[trigger] v@[i]) == i,
    {
        let mut v = Vec::new();
        v.push(SettingsPage::About);
        v.push(SettingsPage::Setting);
        v.push(SettingsPage::Extensions);
        v.push(SettingsPage::Help);
        v
    }

    pub fn next(self) -> (p: Self)
        ensures
            p == next_page_spec(self),
            page_index(p) == (page_index(self) + 1) % 4,
    {
        match self {
            SettingsPage::About => SettingsPage::Setting,
            SettingsPage::Setting => SettingsPage::Extensions,
            SettingsPage::Extensions => SettingsPage::Help,
            SettingsPage::Help => SettingsPage::About,
        }
    }

    pub fn prev(self) -> (p: Self)
        ensures
            p == prev_page_spec(self),
            page_index(p) == (page_index(self) + 3) % 4,
    {
        match self {
            SettingsPage::About => SettingsPage::Help,
            SettingsPage::Setting => SettingsPage::About,
            SettingsPage::Extensions => SettingsPage::Setting,
            SettingsPage::Help => SettingsPage::Extensions,
        }
    }
}

/// Going to the next page and back, or back and then on, returns to the
/// page you were on; four steps either way go all the way round.
pub proof fn law_pages_cycle(p: SettingsPage)
    ensures
        prev_page_spec(next_page_spec(p)) == p,
        next_page_spec(prev_page_spec(p)) == p,
        next_page_spec(next_page_spec(next_page_spec(next_page_spec(p)))) == p,
        prev_page_spec(prev_page_spec(prev_page_spec(prev_page_spec(p)))) == p,
{
}

/// One row of the Help page: a key chord and what it does, or a section
/// header.
#[derive(Debug, Clone, Copy)]
pub struct HelpEntry {
    pub keys: &'static str,
    pub desc: &'static str,
    /// A section header, which has no keys.
    pub is_header: bool,
}

/// A header is exactly an entry without keys.
pub open spec fn entry_ok(e: HelpEntry) -> bool {
    e.is_header == (e.keys@.len() == 0)
}

fn header(desc: &'static str) -> (e: HelpEntry)
    ensures
        entry_ok(e),
        e.is_header,
        e.desc == desc,
{
    proof {
        reveal_strlit("");
    }
    HelpEntry { keys: "", desc, is_header: true }
}

fn entry(keys: &'static str, desc: &'static str) -> (e: HelpEntry)
    requires
        keys@.len() > 0,
    ensures
        entry_ok(e),
        !e.is_header,
        e.keys == keys,
        e.desc == desc,
{
    HelpEntry { keys, desc, is_header: false }
}

fn push_entry(v: &mut Vec<HelpEntry>, e: HelpEntry)
    requires
        entry_ok(e),
        forall|i: int| 0 <= i < old(v)@.len() ==> entry_ok(#[trigger] old(v)@[i]),
    ensures
        final(v)@ == old(v)@.push(e),
        forall|i: int| 0 <= i < final(v)@.len() ==> entry_ok(#[trigger] final(v)@[i]),
{
    v.push(e);
}

/// Entries on the Help page.
pub const HELP_ENTRY_COUNT: usize = 118;

/// The shortcut reference the Help page shows, section by section; a
/// section header is exactly an entry without keys.
#[verifier::rlimit(50)]
pub fn help_entries() -> (v: Vec<HelpEntry>)
    ensures
        v@.len() == HELP_ENTRY_COUNT,
        forall|i: int| 0 <= i < v@.len() ==> entry_ok(#[trigger] v@[i]),
{
    proof {
        reveal_strlit("*  #");
        reveal_strlit(".");
        reveal_strlit("/  ?");
        reveal_strlit("1 2 3 4");
        reveal_strlit("1–8  (in Git)");
        reveal_strlit(":Rename name");
        reveal_strlit(":bd");
        reveal_strlit(":bp if expr / :bp log msg");
        reveal_strlit(":codelens / SPC t l");
        reveal_strlit(":dap / :bp / :launch");
        reveal_strlit(":e <file>");
        reveal_strlit(":gh-login");
        reveal_strlit(":help");
        reveal_strlit(":pr N");
        reveal_strlit(":rebase [N] / SPC g r");
        reveal_strlit(":rebase-abort / :rebase-continue");
        reveal_strlit(":s/pat/repl/g");
        reveal_strlit(":screensaver / :ss");
        reveal_strlit(":settings / SPC l a");
        reveal_strlit(":theme <name>");
        reveal_strlit(":w  :q  :wq");
        reveal_strlit("Cmd+C / V / X");
        reveal_strlit("Ctrl+,");
        reveal_strlit("Ctrl+.");
        reveal_strlit("Ctrl+A  (Insert)");
        reveal_strlit("Ctrl+Alt+j/k");
        reveal_strlit("Ctrl+B / gb");
        reveal_strlit("Ctrl+C / D / Z …");
        reveal_strlit("Ctrl+D");
        reveal_strlit("Ctrl+E");
        reveal_strlit("Ctrl+F");
        reveal_strlit("Ctrl+G");
        reveal_strlit("Ctrl+O / Ctrl+I");
        reveal_strlit("Ctrl+P / Cmd+P");
        reveal_strlit("Ctrl+S");
        reveal_strlit("Ctrl+Shift+D / SPC d");
        reveal_strlit("Ctrl+Shift+F");
        reveal_strlit("Ctrl+Shift+G");
        reveal_strlit("Ctrl+Shift+I");
        reveal_strlit("Ctrl+Shift+O / gO");
        reveal_strlit("Ctrl+Shift+P");
        reveal_strlit("Ctrl+Shift+T");
        reveal_strlit("Ctrl+Shift+V");
        reveal_strlit("Ctrl+Shift+W");
        reveal_strlit("Ctrl+T");
        reveal_strlit("Ctrl+W < / >");
        reveal_strlit("Ctrl+W =");
        reveal_strlit("Ctrl+W h/j/k/l");
        reveal_strlit("Ctrl+W q");
        reveal_strlit("Ctrl+W v / s");
        reveal_strlit("Ctrl+W v/s ×N · h j k l");
        reveal_strlit("Ctrl+W w");
        reveal_strlit("Drag split edge");
        reveal_strlit("Enter  (Git)");
        reveal_strlit("Esc  (term focused)");
        reveal_strlit("Esc (multi)");
        reveal_strlit("Esc / q");
        reveal_strlit("Esc");
        reveal_strlit("Explorer · Enter");
        reveal_strlit("F12");
        reveal_strlit("F5 / Shift+F5");
        reveal_strlit("F6");
        reveal_strlit("F9 / F10 / F11 / S-F11");
        reveal_strlit("Git · 9 Stash");
        reveal_strlit("K");
        reveal_strlit("Live reload");
        reveal_strlit("PR Enter / :pr N");
        reveal_strlit("Preview Space");
        reveal_strlit("Preview ←/→");
        reveal_strlit("Right-click commit");
        reveal_strlit("Right-click");
        reveal_strlit("Space (leader)");
        reveal_strlit("Space / s  (Git Status)");
        reveal_strlit("Tab  (in Git)");
        reveal_strlit("Tab (Insert)");
        reveal_strlit("Tab / Shift+Tab");
        reveal_strlit("Wheel / PageUp·Down");
        reveal_strlit("\"a  \"+ ");
        reveal_strlit("]c / [c");
        reveal_strlit("]d  [d");
        reveal_strlit("c  (Git Status)");
        reveal_strlit("d / c / y + motion");
        reveal_strlit("diw ci\" dib …");
        reveal_strlit("f p u  (Git)");
        reveal_strlit("f t ; ,");
        reveal_strlit("g / z / d c y / Ctrl+W");
        reveal_strlit("gC / gI / gH / :calls");
        reveal_strlit("gd");
        reveal_strlit("gp");
        reveal_strlit("gr");
        reveal_strlit("gt  gT");
        reveal_strlit("h j k l · ←↓↑→");
        reveal_strlit("i a A o O");
        reveal_strlit("j k · Enter");
        reveal_strlit("ma  'a  `a");
        reveal_strlit("n  N");
        reveal_strlit("p P");
        reveal_strlit("qa … q · @a · @@");
        reveal_strlit("r  (Git)");
        reveal_strlit("s");
        reveal_strlit("u / Ctrl+R");
        reveal_strlit("v  (Git Log)");
        reveal_strlit("v / V / Ctrl+V");
        reveal_strlit("w b e · 0 $ · gg G");
        reveal_strlit("x");
        reveal_strlit("za / zc / zo / zM / zR");
        reveal_strlit("zh zl zH zL");
        reveal_strlit("~/.suisei/hooks.toml");
    }
    let mut v: Vec<HelpEntry> = Vec::new();
    push_entry(&mut v, header("General"));
    push_entry(&mut v, entry("Ctrl+,", "Settings (About / Setting / Extensions / Help)"));
    push_entry(&mut v, entry(":screensaver / :ss", "xeifetch splash (clock · weather · Esc exit)"));
    push_entry(&mut v, entry("Ctrl+S", "Save file"));
    push_entry(&mut v, entry("Ctrl+P / Cmd+P", "Quick open files"));
    push_entry(&mut v, entry("Ctrl+Shift+P", "Command palette"));
    push_entry(&mut v, entry("Ctrl+F", "Toggle file explorer"));
    push_entry(&mut v, entry("Ctrl+E", "Toggle XLC command panel"));
    push_entry(&mut v, entry("Ctrl+Shift+V", "Pretty preview (Markdown / JSON / CSV / image / audio)"));
    push_entry(&mut v, entry("za / zc / zo / zM / zR", "Toggle / close / open fold · close all / open all"));
    push_entry(&mut v, entry("Ctrl+B / gb", "Git blame panel (slides in · flame colors)"));
    push_entry(&mut v, entry("Space (leader)", "Which-key: f files · g git · l lsp · d debug · w window · …"));
    push_entry(&mut v, entry("F5 / Shift+F5", "DAP start/continue · stop session"));
    push_entry(&mut v, entry("F9 / F10 / F11 / S-F11", "Toggle breakpoint · step over · into · out"));
    push_entry(&mut v, entry("F6", "DAP pause a running program"));
    push_entry(&mut v, entry(":bp if expr / :bp log msg", "Conditional breakpoint · logpoint"));
    push_entry(&mut v, entry(":pr N", "PR review surface (files · diff · comments)"));
    push_entry(&mut v, entry("Ctrl+W v/s ×N · h j k l", "Split again for up to 4 panes · directional focus"));
    push_entry(&mut v, entry("zh zl zH zL", "Pan horizontally (wrap_lines = false)"));
    push_entry(&mut v, entry("Wheel / PageUp·Down", "Terminal scrollback (badge ↑N · typing snaps live)"));
    push_entry(&mut v, entry(":settings / SPC l a", "Settings · code actions (legacy terminals: Ctrl+,/Ctrl+. don't exist)"));
    push_entry(&mut v, entry("Ctrl+Shift+D / SPC d", "Debug panel (stack · vars · BPs · console)"));
    push_entry(&mut v, entry(":dap / :bp / :launch", "Debug panel · breakpoint · launch program"));
    push_entry(&mut v, entry("gC / gI / gH / :calls", "Call hierarchy (incoming / outgoing)"));
    push_entry(&mut v, entry(":rebase [N] / SPC g r", "Interactive rebase last N commits"));
    push_entry(&mut v, entry(":rebase-abort / :rebase-continue", "Abort or continue in-progress rebase"));
    push_entry(&mut v, entry(":codelens / SPC t l", "Toggle LSP code lens (EOL virtual text)"));
    push_entry(&mut v, entry("PR Enter / :pr N", "PR review · files + diff + comments"));
    push_entry(&mut v, entry("~/.suisei/hooks.toml", "Plugin hooks: on_save / on_open / on_quit"));
    push_entry(&mut v, entry("]c / [c", "Next / previous git change (gutter hunk)"));
    push_entry(&mut v, entry("g / z / d c y / Ctrl+W", "Prefix chords open delayed which-key popup"));
    push_entry(&mut v, entry("Tab (Insert)", "Expand snippet (fn, for, if, …) or indent"));
    push_entry(&mut v, entry("Live reload", "Auto-reload when file changes on disk"));
    push_entry(&mut v, entry("Git · 9 Stash", "Stash list · Enter apply · d drop · p preview"));
    push_entry(&mut v, entry("Ctrl+D", "Multi-cursor: add next word match"));
    push_entry(&mut v, entry("Ctrl+Alt+j/k", "Multi-cursor: add caret below / above"));
    push_entry(&mut v, entry("Esc (multi)", "Clear extra carets (Insert: first Esc)"));
    push_entry(&mut v, entry("Explorer · Enter", "Open file · images/csv/npy/audio → preview"));
    push_entry(&mut v, entry("Preview ←/→", "Resize image preview"));
    push_entry(&mut v, entry("Preview Space", "Play / stop audio"));
    push_entry(&mut v, entry("Ctrl+Shift+F", "Find in files (workspace search)"));
    push_entry(&mut v, entry("Ctrl+Shift+O / gO", "Document symbols (outline)"));
    push_entry(&mut v, entry("Ctrl+.", "Code actions / quick fix"));
    push_entry(&mut v, entry("Ctrl+Shift+I", "Format document (LSP)"));
    push_entry(&mut v, entry("Cmd+C / V / X", "Copy / paste / cut (system clipboard)"));
    push_entry(&mut v, entry("Right-click", "Editor context menu (Insert / Normal / Visual)"));
    push_entry(&mut v, header("Terminal"));
    push_entry(&mut v, entry("Ctrl+T", "Side terminal panel (Esc closes side term)"));
    push_entry(&mut v, entry("Ctrl+Shift+T", "Terminal window in a split pane"));
    push_entry(&mut v, entry("Ctrl+Shift+W", "Close terminal window (then y / n)"));
    push_entry(&mut v, entry("Esc  (term focused)", "Sent to shell — not editor (vim/opencode exit)"));
    push_entry(&mut v, entry("Ctrl+C / D / Z …", "When term focused: real signals to the program"));
    push_entry(&mut v, entry("Ctrl+W w", "From terminal pane: focus the other split"));
    push_entry(&mut v, entry("F12", "Quick toggle side terminal"));
    push_entry(&mut v, header("Splits"));
    push_entry(&mut v, entry("Ctrl+W v / s", "Vertical / horizontal split"));
    push_entry(&mut v, entry("Ctrl+W w", "Cycle focused split pane"));
    push_entry(&mut v, entry("Ctrl+W q", "Close current split"));
    push_entry(&mut v, entry("Ctrl+W =", "Equalize split sizes"));
    push_entry(&mut v, entry("Ctrl+W h/j/k/l", "Focus left / down / up / right pane"));
    push_entry(&mut v, entry("Ctrl+W < / >", "Resize split"));
    push_entry(&mut v, entry("Drag split edge", "Mouse-resize panes"));
    push_entry(&mut v, header("Git"));
    push_entry(&mut v, entry("Ctrl+G", "Light Source Control (stage / commit)"));
    push_entry(&mut v, entry("Ctrl+Shift+G", "Full Git workbench (mini GitHub)"));
    push_entry(&mut v, entry("1–8  (in Git)", "Status / Log / Branches / Files / Diff / PRs / Issues / Auth"));
    push_entry(&mut v, entry("Tab  (in Git)", "Cycle Changes · Log · Files columns"));
    push_entry(&mut v, entry("Space / s  (Git Status)", "Stage / unstage selected file"));
    push_entry(&mut v, entry("c  (Git Status)", "Edit commit message · Enter commits"));
    push_entry(&mut v, entry("Enter  (Git)", "Open diff / commit detail / PR checkout"));
    push_entry(&mut v, entry("Right-click commit", "Cherry-pick / revert / copy hash / browse"));
    push_entry(&mut v, entry("v  (Git Log)", "Toggle list / graph view"));
    push_entry(&mut v, entry("f p u  (Git)", "Fetch / pull / push"));
    push_entry(&mut v, entry("r  (Git)", "Refresh current tab"));
    push_entry(&mut v, entry(":gh-login", "GitHub CLI auth (web)"));
    push_entry(&mut v, header("Modes & editing"));
    push_entry(&mut v, entry("i a A o O", "Enter Insert mode"));
    push_entry(&mut v, entry("Esc", "Back to Normal mode"));
    push_entry(&mut v, entry("v / V / Ctrl+V", "Visual / Visual Line / Visual Block"));
    push_entry(&mut v, entry("h j k l · ←↓↑→", "Move cursor"));
    push_entry(&mut v, entry("w b e · 0 $ · gg G", "Word / line / file motions"));
    push_entry(&mut v, entry("d / c / y + motion", "Delete / change / yank"));
    push_entry(&mut v, entry("diw ci\" dib …", "Text objects (inner / around)"));
    push_entry(&mut v, entry("u / Ctrl+R", "Undo / Redo"));
    push_entry(&mut v, entry(".", "Repeat last change"));
    push_entry(&mut v, entry("p P", "Paste after / before"));
    push_entry(&mut v, entry("x", "Delete character"));
    push_entry(&mut v, entry("\"a  \"+ ", "Registers (named / clipboard)"));
    push_entry(&mut v, entry("ma  'a  `a", "Set mark / jump"));
    push_entry(&mut v, entry("Ctrl+O / Ctrl+I", "Jumplist back / forward"));
    push_entry(&mut v, entry("f t ; ,", "Find char; repeat / reverse"));
    push_entry(&mut v, entry("qa … q · @a · @@", "Record / play / replay macro"));
    push_entry(&mut v, header("Search"));
    push_entry(&mut v, entry("/  ?", "Search forward / reverse"));
    push_entry(&mut v, entry("n  N", "Next / previous match"));
    push_entry(&mut v, entry("*  #", "Word under cursor (fwd / back)"));
    push_entry(&mut v, header("LSP & diagnostics"));
    push_entry(&mut v, entry("gd", "Go to definition"));
    push_entry(&mut v, entry("gp", "Peek definition"));
    push_entry(&mut v, entry("gr", "Find references"));
    push_entry(&mut v, entry("K", "Hover documentation"));
    push_entry(&mut v, entry("Ctrl+A  (Insert)", "Completions (LSP + keywords)"));
    push_entry(&mut v, entry("]d  [d", "Next / prev diagnostic"));
    push_entry(&mut v, entry(":Rename name", "LSP rename"));
    push_entry(&mut v, header("Tabs & buffers"));
    push_entry(&mut v, entry("gt  gT", "Next / previous tab"));
    push_entry(&mut v, entry(":e <file>", "Open file (new tab)"));
    push_entry(&mut v, entry(":bd", "Close current tab"));
    push_entry(&mut v, entry(":w  :q  :wq", "Save / quit / save+quit"));
    push_entry(&mut v, entry(":s/pat/repl/g", "Substitute on line / range"));
    push_entry(&mut v, entry(":theme <name>", "Switch theme (persists)"));
    push_entry(&mut v, entry(":help", "List XLC commands"));
    push_entry(&mut v, header("Settings panel"));
    push_entry(&mut v, entry("Tab / Shift+Tab", "Next / previous page"));
    push_entry(&mut v, entry("1 2 3 4", "Jump About / Setting / Extensions / Help"));
    push_entry(&mut v, entry("j k · Enter", "Move selection · activate"));
    push_entry(&mut v, entry("s", "Save ~/.suisei.toml"));
    push_entry(&mut v, entry("Esc / q", "Close settings"));
    v
}

/// A row of the Setting page.
#[derive(Debug, Clone, Copy, PartialEq, Eq, Structural)]
pub enum SettingRow {
    ThemeHeader,
    /// Follow the system, or stay light or dark.
    AppearanceMode,
    /// How strongly floating controls separate from the editor.
    GlassStyle,
    /// One of the themes, by index.
    Theme(usize),
    EditorHeader,
    TabWidth,
    RelativeNumber,
    WrapLines,
    UndoCaching,
    ClipboardSync,
    GpuAcc,
    GpuGraphics,
    GpuHyperlinks,
    KeyHints,
    LspHeader,
    LspEnabled,
    FormatOnSave,
    /// One language of the language-server catalogue, by index.
    LspLang(usize),
    GitHeader,
    OpenWorkbench,
    OpenScm,
    /// The accent hue, stored as a hex string.
    HighlightColor,
    UpdateCheck,
}

/// The native pages a row can live on. The numbers cross to the native face:
/// they are only ever appended to.
#[derive(Debug, Clone, Copy, PartialEq, Eq, Structural)]
pub enum SettingSurfacePage {
    /// On no page: the value is still read and written, but nothing shows it.
    NoPage,
    General,
    /// Retired; kept so its number is never reused.
    Appearance,
    Editor,
    LanguageServers,
    SourceControl,
    SoftwareUpdate,
    Themes,
}

impl SettingSurfacePage {
    pub fn code(self) -> (n: u32)
        ensures
            n == (match self {
                SettingSurfacePage::NoPage => 0u32,
                SettingSurfacePage::General => 1u32,
                SettingSurfacePage::Appearance => 2u32,
                SettingSurfacePage::Editor => 3u32,
                SettingSurfacePage::LanguageServers => 4u32,
                SettingSurfacePage::SourceControl => 5u32,
                SettingSurfacePage::SoftwareUpdate => 6u32,
                SettingSurfacePage::Themes => 7u32,
            }),
    {
        match self {
            SettingSurfacePage::NoPage => 0,
            SettingSurfacePage::General => 1,
            SettingSurfacePage::Appearance => 2,
            SettingSurfacePage::Editor => 3,
            SettingSurfacePage::LanguageServers => 4,
            SettingSurfacePage::SourceControl => 5,
            SettingSurfacePage::SoftwareUpdate => 6,
            SettingSurfacePage::Themes => 7,
        }
    }
}

/// How a native face edits a setting.
#[derive(Debug, Clone, Copy, PartialEq, Eq, Structural)]
pub enum SettingControl {
    /// Nothing to edit: a heading, or a row not shown.
    NoControl,
    Toggle,
    Menu,
    Segmented,
    Action,
    Color,
}

impl SettingControl {
    pub fn code(self) -> (n: u32)
        ensures
            n == (match self {
                SettingControl::NoControl => 0u32,
                SettingControl::Toggle => 1u32,
                SettingControl::Menu => 2u32,
                SettingControl::Segmented => 3u32,
                SettingControl::Action => 4u32,
                SettingControl::Color => 5u32,
            }),
    {
        match self {
            SettingControl::NoControl => 0,
            SettingControl::Toggle => 1,
            SettingControl::Menu => 2,
            SettingControl::Segmented => 3,
            SettingControl::Action => 4,
            SettingControl::Color => 5,
        }
    }
}

/// Where and how one Setting row is shown, and its copy.
#[derive(Debug, Clone, Copy)]
pub struct SettingPresentation {
    pub page: SettingSurfacePage,
    pub group: &'static str,
    pub control: SettingControl,
    pub label: &'static str,
    pub detail: &'static str,
    /// Choices for a menu or segmented control, separated by `|`.
    pub options: &'static str,
    pub advanced: bool,
}

/// The number a row travels as.
pub open spec fn kind_spec(r: SettingRow) -> u32 {
    match r {
        SettingRow::ThemeHeader => 1,
        SettingRow::Theme(_) => 2,
        SettingRow::EditorHeader => 3,
        SettingRow::TabWidth => 4,
        SettingRow::RelativeNumber => 5,
        SettingRow::WrapLines => 6,
        SettingRow::UndoCaching => 7,
        SettingRow::ClipboardSync => 8,
        SettingRow::GpuAcc => 9,
        SettingRow::GpuGraphics => 10,
        SettingRow::GpuHyperlinks => 11,
        SettingRow::KeyHints => 12,
        SettingRow::LspHeader => 13,
        SettingRow::LspEnabled => 14,
        SettingRow::FormatOnSave => 23,
        SettingRow::LspLang(_) => 15,
        SettingRow::GitHeader => 16,
        SettingRow::OpenWorkbench => 17,
        SettingRow::OpenScm => 18,
        SettingRow::HighlightColor => 19,
        SettingRow::UpdateCheck => 20,
        SettingRow::AppearanceMode => 21,
        SettingRow::GlassStyle => 22,
    }
}

/// A row's number tells it apart: two rows with the same number are the
/// same row, or both a theme row or both a language row (which differ only
/// by payload).
pub proof fn law_row_kinds_tell_rows_apart(a: SettingRow, b: SettingRow)
    requires
        kind_spec(a) == kind_spec(b),
    ensures
        a == b || (a is Theme && b is Theme) || (a is LspLang && b is LspLang),
{
}

/// The page a row lives on.
pub open spec fn row_page(r: SettingRow) -> SettingSurfacePage {
    match r {
        SettingRow::ThemeHeader => SettingSurfacePage::Themes,
        SettingRow::AppearanceMode => SettingSurfacePage::General,
        SettingRow::GlassStyle => SettingSurfacePage::General,
        SettingRow::Theme(_) => SettingSurfacePage::Themes,
        SettingRow::HighlightColor => SettingSurfacePage::Themes,
        SettingRow::EditorHeader => SettingSurfacePage::Editor,
        SettingRow::TabWidth => SettingSurfacePage::Editor,
        SettingRow::UpdateCheck => SettingSurfacePage::SoftwareUpdate,
        SettingRow::RelativeNumber => SettingSurfacePage::Editor,
        SettingRow::WrapLines => SettingSurfacePage::Editor,
        SettingRow::UndoCaching => SettingSurfacePage::General,
        SettingRow::ClipboardSync => SettingSurfacePage::General,
        SettingRow::KeyHints => SettingSurfacePage::NoPage,
        SettingRow::GpuAcc => SettingSurfacePage::NoPage,
        SettingRow::GpuGraphics => SettingSurfacePage::NoPage,
        SettingRow::GpuHyperlinks => SettingSurfacePage::NoPage,
        SettingRow::LspHeader => SettingSurfacePage::LanguageServers,
        SettingRow::LspEnabled => SettingSurfacePage::LanguageServers,
        SettingRow::FormatOnSave => SettingSurfacePage::LanguageServers,
        SettingRow::LspLang(_) => SettingSurfacePage::LanguageServers,
        SettingRow::GitHeader => SettingSurfacePage::SourceControl,
        SettingRow::OpenWorkbench => SettingSurfacePage::SourceControl,
        SettingRow::OpenScm => SettingSurfacePage::SourceControl,
    }
}

/// The control a row is edited with.
pub open spec fn row_control(r: SettingRow) -> SettingControl {
    match r {
        SettingRow::ThemeHeader => SettingControl::NoControl,
        SettingRow::AppearanceMode => SettingControl::Segmented,
        SettingRow::GlassStyle => SettingControl::Segmented,
        SettingRow::Theme(_) => SettingControl::Menu,
        SettingRow::HighlightColor => SettingControl::Color,
        SettingRow::EditorHeader => SettingControl::NoControl,
        SettingRow::TabWidth => SettingControl::Menu,
        SettingRow::UpdateCheck => SettingControl::Menu,
        SettingRow::RelativeNumber => SettingControl::Menu,
        SettingRow::WrapLines => SettingControl::Menu,
        SettingRow::UndoCaching => SettingControl::Toggle,
        SettingRow::ClipboardSync => SettingControl::Toggle,
        SettingRow::KeyHints => SettingControl::NoControl,
        SettingRow::GpuAcc => SettingControl::NoControl,
        SettingRow::GpuGraphics => SettingControl::NoControl,
        SettingRow::GpuHyperlinks => SettingControl::NoControl,
        SettingRow::LspHeader => SettingControl::NoControl,
        SettingRow::LspEnabled => SettingControl::Toggle,
        SettingRow::FormatOnSave => SettingControl::Toggle,
        SettingRow::LspLang(_) => SettingControl::Menu,
        SettingRow::GitHeader => SettingControl::NoControl,
        SettingRow::OpenWorkbench => SettingControl::Action,
        SettingRow::OpenScm => SettingControl::Action,
    }
}

/// A section heading of the Setting page.
pub open spec fn is_heading(r: SettingRow) -> bool {
    r == SettingRow::ThemeHeader || r == SettingRow::EditorHeader || r == SettingRow::LspHeader
        || r == SettingRow::GitHeader
}

/// The rows kept only for their stored value: the terminal rendering
/// switches and the key-hint overlay.
pub open spec fn is_advanced(r: SettingRow) -> bool {
    r == SettingRow::GpuAcc || r == SettingRow::GpuGraphics || r == SettingRow::GpuHyperlinks
}

impl SettingRow {
    /// The row's number for the native face. These are fixed once given.
    pub fn kind(self) -> (n: u32)
        ensures
            n == kind_spec(self),
    {
        match self {
            SettingRow::ThemeHeader => 1,
            SettingRow::Theme(_) => 2,
            SettingRow::EditorHeader => 3,
            SettingRow::TabWidth => 4,
            SettingRow::RelativeNumber => 5,
            SettingRow::WrapLines => 6,
            SettingRow::UndoCaching => 7,
            SettingRow::ClipboardSync => 8,
            SettingRow::GpuAcc => 9,
            SettingRow::GpuGraphics => 10,
            SettingRow::GpuHyperlinks => 11,
            SettingRow::KeyHints => 12,
            SettingRow::LspHeader => 13,
            SettingRow::LspEnabled => 14,
            SettingRow::FormatOnSave => 23,
            SettingRow::LspLang(_) => 15,
            SettingRow::GitHeader => 16,
            SettingRow::OpenWorkbench => 17,
            SettingRow::OpenScm => 18,
            SettingRow::HighlightColor => 19,
            SettingRow::UpdateCheck => 20,
            SettingRow::AppearanceMode => 21,
            SettingRow::GlassStyle => 22,
        }
    }

    /// Which theme or which language; 0 for a row that carries neither.
    pub fn payload(self) -> (n: u32)
        ensures
            n == (match self {
                SettingRow::Theme(i) => i as u32,
                SettingRow::LspLang(i) => i as u32,
                _ => 0u32,
            }),
    {
        match self {
            SettingRow::Theme(i) => i as u32,
            SettingRow::LspLang(i) => i as u32,
            _ => 0,
        }
    }

    /// Where and how the row is shown.
    pub fn presentation(self) -> (p: SettingPresentation)
        ensures
            p.page == row_page(self),
            p.control == row_control(self),
            p.advanced == is_advanced(self),
    {
        match self {
            SettingRow::ThemeHeader => SettingPresentation {
                page: SettingSurfacePage::Themes,
                group: "Theme",
                control: SettingControl::NoControl,
                label: "Theme",
                detail: "",
                options: "",
                advanced: false,
            },
            SettingRow::AppearanceMode => SettingPresentation {
                page: SettingSurfacePage::General,
                group: "Appearance",
                control: SettingControl::Segmented,
                label: "Color Scheme",
                detail: "Follow macOS automatically or keep Suisei light or dark.",
                options: "Automatic|Light|Dark",
                advanced: false,
            },
            SettingRow::GlassStyle => SettingPresentation {
                page: SettingSurfacePage::General,
                group: "Appearance",
                control: SettingControl::Segmented,
                label: "Liquid Glass",
                detail: "Choose how strongly floating controls separate from editor content.",
                options: "Clear|Tinted",
                advanced: false,
            },
            SettingRow::Theme(_) => SettingPresentation {
                page: SettingSurfacePage::Themes,
                group: "Theme",
                control: SettingControl::Menu,
                label: "Theme",
                detail: "Controls editor colors and syntax highlighting.",
                options: "",
                advanced: false,
            },
            SettingRow::HighlightColor => SettingPresentation {
                page: SettingSurfacePage::Themes,
                group: "Accent",
                control: SettingControl::Color,
                label: "Highlight Color",
                detail: "Used for selections, focus, links, and active controls.",
                options: "",
                advanced: false,
            },
            SettingRow::EditorHeader => SettingPresentation {
                page: SettingSurfacePage::Editor,
                group: "Display",
                control: SettingControl::NoControl,
                label: "Display",
                detail: "",
                options: "",
                advanced: false,
            },
            SettingRow::TabWidth => SettingPresentation {
                page: SettingSurfacePage::Editor,
                group: "Display",
                control: SettingControl::Menu,
                label: "Tab Width",
                detail: "Number of spaces used when inserting a tab.",
                options: "2 Spaces|4 Spaces|8 Spaces",
                advanced: false,
            },
            SettingRow::UpdateCheck => SettingPresentation {
                page: SettingSurfacePage::SoftwareUpdate,
                group: "Automatic Updates",
                control: SettingControl::Menu,
                label: "Check for Updates",
                detail: "Choose whether Suisei checks for a newer release at launch.",
                options: "Manually|Automatically",
                advanced: false,
            },
            SettingRow::RelativeNumber => SettingPresentation {
                page: SettingSurfacePage::Editor,
                group: "Display",
                control: SettingControl::Menu,
                label: "Line Numbers",
                detail: "Relative numbers show the distance from the current line.",
                options: "Absolute|Relative",
                advanced: false,
            },
            SettingRow::WrapLines => SettingPresentation {
                page: SettingSurfacePage::Editor,
                group: "Display",
                control: SettingControl::Menu,
                label: "Line Wrapping",
                detail: "Wrap long lines at the window edge or scroll horizontally.",
                options: "No Wrapping|Wrap to Window",
                advanced: false,
            },
            SettingRow::UndoCaching => SettingPresentation {
                page: SettingSurfacePage::General,
                group: "Behavior",
                control: SettingControl::Toggle,
                label: "Keep Undo History",
                detail: "Preserve undo history after a file is closed.",
                options: "",
                advanced: false,
            },
            SettingRow::ClipboardSync => SettingPresentation {
                page: SettingSurfacePage::General,
                group: "Behavior",
                control: SettingControl::Toggle,
                label: "Use System Clipboard",
                detail: "Share copy and paste operations with other Mac apps.",
                options: "",
                advanced: false,
            },
            SettingRow::KeyHints => SettingPresentation {
                page: SettingSurfacePage::NoPage,
                group: "",
                control: SettingControl::NoControl,
                label: "Show Key Hints",
                detail: "",
                options: "",
                advanced: false,
            },
            SettingRow::GpuAcc => SettingPresentation {
                page: SettingSurfacePage::NoPage,
                group: "",
                control: SettingControl::NoControl,
                label: "Terminal Rendering",
                detail: "",
                options: "Compatibility|Enhanced",
                advanced: true,
            },
            SettingRow::GpuGraphics => SettingPresentation {
                page: SettingSurfacePage::NoPage,
                group: "",
                control: SettingControl::NoControl,
                label: "Inline Terminal Graphics",
                detail: "",
                options: "",
                advanced: true,
            },
            SettingRow::GpuHyperlinks => SettingPresentation {
                page: SettingSurfacePage::NoPage,
                group: "",
                control: SettingControl::NoControl,
                label: "Terminal Hyperlinks",
                detail: "",
                options: "",
                advanced: true,
            },
            SettingRow::LspHeader => SettingPresentation {
                page: SettingSurfacePage::LanguageServers,
                group: "Language Servers",
                control: SettingControl::NoControl,
                label: "Language Servers",
                detail: "",
                options: "",
                advanced: false,
            },
            SettingRow::LspEnabled => SettingPresentation {
                page: SettingSurfacePage::LanguageServers,
                group: "Language Servers",
                control: SettingControl::Toggle,
                label: "Enable Language Servers",
                detail: "Provide completion, navigation, diagnostics, and refactoring.",
                options: "",
                advanced: false,
            },
            SettingRow::FormatOnSave => SettingPresentation {
                page: SettingSurfacePage::LanguageServers,
                group: "Language Servers",
                control: SettingControl::Toggle,
                label: "Format on Save",
                detail: "Run the language server's formatter on ⌘S. A save is never held longer than a moment — if the server does not answer, the file is written unformatted.",
                options: "",
                advanced: false,
            },
            SettingRow::LspLang(_) => SettingPresentation {
                page: SettingSurfacePage::LanguageServers,
                group: "Configured Servers",
                control: SettingControl::Menu,
                label: "Language Server",
                detail: "Use the built-in command, disable it, or preserve a custom command.",
                options: "Default|Off|Custom",
                advanced: false,
            },
            SettingRow::GitHeader => SettingPresentation {
                page: SettingSurfacePage::SourceControl,
                group: "Source Control",
                control: SettingControl::NoControl,
                label: "Source Control",
                detail: "",
                options: "",
                advanced: false,
            },
            SettingRow::OpenWorkbench => SettingPresentation {
                page: SettingSurfacePage::SourceControl,
                group: "Source Control",
                control: SettingControl::Action,
                label: "Open Git Workbench",
                detail: "Review changes, history, branches, pull requests, and issues.",
                options: "",
                advanced: false,
            },
            SettingRow::OpenScm => SettingPresentation {
                page: SettingSurfacePage::SourceControl,
                group: "Source Control",
                control: SettingControl::Action,
                label: "Open Changes Navigator",
                detail: "Stage files and create a commit without leaving the editor.",
                options: "",
                advanced: false,
            },
        }
    }
}

/// On a page, a row has nothing to edit exactly when it is a section
/// heading; a row on no page has nothing to edit at all.
pub proof fn law_headings_have_no_control(r: SettingRow)
    ensures
        row_page(r) != SettingSurfacePage::NoPage ==> (row_control(r) == SettingControl::NoControl <==> is_heading(r)),
        row_page(r) == SettingSurfacePage::NoPage ==> row_control(r) == SettingControl::NoControl,
{
}


} // verus!

//! The Git workbench's keyboard: from the panel's state and a key to its next
//! state and what the caller does with the repository.

use vstd::prelude::*;
use crate::key::KeyCode;
use crate::panel_keys::{char_of, is_char, is_control, is_ch, control_char};

verus! {

/// The workbench's surfaces.
#[derive(Clone, Copy, Debug, PartialEq, Eq, Structural)]
pub enum GitTab {
    Status,
    History,
    Commit,
    Branches,
    Diff,
    PullRequests,
    Issues,
    Auth,
    Stash,
}

/// The docked columns of the status and history surfaces.
#[derive(Clone, Copy, Debug, PartialEq, Eq, Structural)]
pub enum GitPane {
    Changes,
    Log,
    Files,
}

/// Where the keyboard is inside a surface.
#[derive(Clone, Copy, Debug, PartialEq, Eq, Structural)]
pub enum GitFocus {
    List,
    Diff,
}

/// The inline prompt that takes over typing.
#[derive(Clone, Copy, Debug, PartialEq, Eq, Structural)]
pub enum InputMode {
    /// The name of a new branch.
    NewBranch,
    /// The answer to a discard question.
    ConfirmDiscard,
}

/// An entry of the commit context menu.
#[derive(Clone, Copy, Debug, PartialEq, Eq, Structural)]
pub enum CtxItem {
    ShowFiles,
    CherryPick,
    Revert,
    CopyHash,
    BrowseOnGitHub,
}

/// A network operation against the remote.
#[derive(Clone, Copy, Debug, PartialEq, Eq, Structural)]
pub enum RemoteAction {
    Fetch,
    Pull,
    PullRebase,
    Push,
}

/// What the workbench's keys read and change.
#[derive(Clone, Debug)]
pub struct WorkbenchKeys {
    /// The inline prompt, when one is up.
    pub input_mode: Option<InputMode>,
    pub input_buf: Vec<char>,
    /// The commit context menu is up.
    pub menu_open: bool,
    pub menu_sel: usize,
    pub menu_items: Vec<CtxItem>,
    /// The commit message has the keyboard.
    pub commit_editing: bool,
    pub commit_buf: Vec<char>,
    /// Typing filters the pull requests.
    pub pr_filter_mode: bool,
    pub pr_filter: Vec<char>,
    /// Typing filters the issues.
    pub issue_filter_mode: bool,
    pub issue_filter: Vec<char>,
    pub tab: GitTab,
    pub pane: GitPane,
    pub focus: GitFocus,
    /// A diff has been shown.
    pub has_diff: bool,
    /// The workbench was left for the light source-control panel.
    pub from_scm: bool,
}

/// What the caller does for a workbench key; the status line follows the
/// outcome.
#[derive(Clone, Copy, Debug, PartialEq, Eq, Structural)]
pub enum WorkbenchAction {
    Nothing,
    CancelInput,
    SubmitInput,
    /// Close the context menu and clear the status line.
    CloseMenu,
    /// Run the selected context-menu entry.
    RunMenuAction,
    /// Say that the commit message is done.
    CommitMessageDone,
    /// Commit with the message typed so far, then refresh.
    Commit,
    /// Refilter the pull requests, after clearing their filter.
    PrFilterCleared,
    IssueFilterCleared,
    RefilterPrs,
    RefilterIssues,
    /// Step back inside the workbench, or close it when there is nowhere to go.
    GoBackOrClose,
    CyclePane,
    PrevTab,
    /// Load the data of the surface just shown and name it.
    ShowTab,
    /// Load the selected commit and focus the files column.
    FocusFiles,
    /// Stay on the diff and name it.
    ShowDiff,
    /// Open the diff of the focused column, or show the last one.
    OpenContextDiff,
    MoveSelection(isize),
    /// Say how to type the commit message.
    EditCommitMessage,
    ToggleHistoryView,
    /// Cycle the pull-request state filter forward, or back.
    CyclePrState(bool),
    CycleIssueState,
    BeginPrFilter,
    BeginIssueFilter,
    OpenSelectedDiff,
    OpenCommitFileDiff,
    CheckoutBranch,
    /// Say how many pull requests, or issues, the filter kept.
    ShowPrFilterCount,
    ShowIssueFilterCount,
    BrowseIssue,
    RunAuthAction,
    StashApply,
    StashDrop,
    StashShow,
    CheckoutPr,
    MergePr,
    StageSelected,
    StageAll,
    UnstageAll,
    BeginDiscard,
    BeginNewBranch,
    DeleteBranch,
    CherryPick,
    Revert,
    CopyHash,
    CreatePr,
    Remote(RemoteAction),
    Refresh,
    RefreshAuth,
    LoadMoreHistory,
    Stash,
    StashPop,
    /// Open the selected commit, pull request or issue, or the repository,
    /// in the browser.
    Browse,
    CloseWorkbench,
}

/// The workbench's keyboard state as values.
pub struct WbView {
    pub input_mode: Option<InputMode>,
    pub input_buf: Seq<char>,
    pub menu_open: bool,
    pub menu_sel: usize,
    pub menu_items: Seq<CtxItem>,
    pub commit_editing: bool,
    pub commit_buf: Seq<char>,
    pub pr_filter_mode: bool,
    pub pr_filter: Seq<char>,
    pub issue_filter_mode: bool,
    pub issue_filter: Seq<char>,
    pub tab: GitTab,
    pub pane: GitPane,
    pub focus: GitFocus,
    pub has_diff: bool,
    pub from_scm: bool,
}

pub open spec fn wb_view(st: WorkbenchKeys) -> WbView {
    WbView {
        input_mode: st.input_mode,
        input_buf: st.input_buf@,
        menu_open: st.menu_open,
        menu_sel: st.menu_sel,
        menu_items: st.menu_items@,
        commit_editing: st.commit_editing,
        commit_buf: st.commit_buf@,
        pr_filter_mode: st.pr_filter_mode,
        pr_filter: st.pr_filter@,
        issue_filter_mode: st.issue_filter_mode,
        issue_filter: st.issue_filter@,
        tab: st.tab,
        pane: st.pane,
        focus: st.focus,
        has_diff: st.has_diff,
        from_scm: st.from_scm,
    }
}

/// The text without its last character, if it has one.
pub open spec fn popped(s: Seq<char>) -> Seq<char> {
    if s.len() > 0 { s.drop_last() } else { s }
}

/// A printable character key.
pub open spec fn typed(key: KeyCode) -> bool {
    key is Char && !is_control(char_of(key))
}

/// The prompt owns the keyboard: Esc cancels, Enter submits, Backspace
/// erases, and a printable character goes into a branch name.
pub open spec fn input_step(st: WbView, key: KeyCode) -> (WbView, WorkbenchAction) {
    if key == KeyCode::Esc {
        (st, WorkbenchAction::CancelInput)
    } else if key == KeyCode::Enter {
        (st, WorkbenchAction::SubmitInput)
    } else if key == KeyCode::Backspace {
        (WbView { input_buf: popped(st.input_buf), ..st }, WorkbenchAction::Nothing)
    } else if typed(key) && st.input_mode == Some(InputMode::NewBranch) {
        (WbView { input_buf: st.input_buf.push(char_of(key)), ..st }, WorkbenchAction::Nothing)
    } else {
        (st, WorkbenchAction::Nothing)
    }
}

/// The letter that picks a context-menu entry.
pub open spec fn picks(c: char, it: CtxItem) -> bool {
    match it {
        CtxItem::ShowFiles => c == 's' || c == 'S',
        CtxItem::CherryPick => c == 'c' || c == 'C',
        CtxItem::Revert => c == 'v' || c == 'V',
        CtxItem::CopyHash => c == 'y' || c == 'Y',
        CtxItem::BrowseOnGitHub => c == 'o' || c == 'O' || c == 'b' || c == 'B',
    }
}

/// The first entry at or after `from` that `c` picks.
pub open spec fn first_pick(items: Seq<CtxItem>, c: char, from: int) -> Option<int>
    decreases items.len() - from,
{
    if from < 0 || from >= items.len() {
        None
    } else if picks(c, items[from]) {
        Some(from)
    } else {
        first_pick(items, c, from + 1)
    }
}

pub open spec fn with_sel(st: WbView, sel: int) -> WbView {
    WbView { menu_sel: sel as usize, ..st }
}

/// The context menu owns the keyboard: the arrows (and `j`, `k`) move within
/// its entries, Enter runs the selected one, and a letter runs the first
/// entry it picks.
pub open spec fn menu_step(st: WbView, key: KeyCode) -> (WbView, WorkbenchAction) {
    let sel = st.menu_sel as int;
    let last = if st.menu_items.len() > 0 { st.menu_items.len() - 1 } else { 0 };
    if key == KeyCode::Esc {
        (st, WorkbenchAction::CloseMenu)
    } else if key == KeyCode::Up || is_char(key, 'k') {
        (with_sel(st, if sel > 0 { sel - 1 } else { 0 }), WorkbenchAction::Nothing)
    } else if key == KeyCode::Down || is_char(key, 'j') {
        (with_sel(st, if sel + 1 <= last { sel + 1 } else { last }), WorkbenchAction::Nothing)
    } else if key == KeyCode::Enter {
        (st, WorkbenchAction::RunMenuAction)
    } else if key is Char {
        match first_pick(st.menu_items, char_of(key), 0) {
            Some(i) => (with_sel(st, i), WorkbenchAction::RunMenuAction),
            None => (st, WorkbenchAction::Nothing),
        }
    } else {
        (st, WorkbenchAction::Nothing)
    }
}

/// The commit message owns the keyboard: Esc and Enter leave it (Enter also
/// commits), Backspace erases and a printable character is typed.
pub open spec fn commit_step(st: WbView, key: KeyCode) -> (WbView, WorkbenchAction) {
    if key == KeyCode::Esc {
        (WbView { commit_editing: false, ..st }, WorkbenchAction::CommitMessageDone)
    } else if key == KeyCode::Enter {
        (WbView { commit_editing: false, ..st }, WorkbenchAction::Commit)
    } else if key == KeyCode::Backspace {
        (WbView { commit_buf: popped(st.commit_buf), ..st }, WorkbenchAction::Nothing)
    } else if typed(key) {
        (WbView { commit_buf: st.commit_buf.push(char_of(key)), ..st }, WorkbenchAction::Nothing)
    } else {
        (st, WorkbenchAction::Nothing)
    }
}

/// The digits 1 to 8 switch surfaces: 1 the changes, 2 the log, 3 the
/// branches, 4 the files of the selected commit, 5 the diff, 6 the pull
/// requests, 7 the issues and 8 the account.
pub open spec fn digit_step(st: WbView, d: char) -> (WbView, WorkbenchAction) {
    if d == '1' {
        (WbView { tab: GitTab::Status, pane: GitPane::Changes, focus: GitFocus::List, ..st }, WorkbenchAction::ShowTab)
    } else if d == '2' {
        (WbView { tab: GitTab::History, pane: GitPane::Log, focus: GitFocus::List, ..st }, WorkbenchAction::ShowTab)
    } else if d == '3' {
        (WbView { tab: GitTab::Branches, focus: GitFocus::List, ..st }, WorkbenchAction::ShowTab)
    } else if d == '4' {
        (st, WorkbenchAction::FocusFiles)
    } else if d == '5' {
        (st, if st.tab == GitTab::Diff && st.has_diff { WorkbenchAction::ShowDiff } else { WorkbenchAction::OpenContextDiff })
    } else if d == '6' {
        (WbView { tab: GitTab::PullRequests, focus: GitFocus::List, ..st }, WorkbenchAction::ShowTab)
    } else if d == '7' {
        (WbView { tab: GitTab::Issues, focus: GitFocus::List, ..st }, WorkbenchAction::ShowTab)
    } else {
        (WbView { tab: GitTab::Auth, focus: GitFocus::List, ..st }, WorkbenchAction::ShowTab)
    }
}

/// Enter follows the surface: on the docked columns it opens what the
/// focused column holds; on a list it acts on the selected entry; while a
/// filter is typed it ends the filter.
pub open spec fn enter_step(st: WbView) -> (WbView, WorkbenchAction) {
    match st.tab {
        GitTab::Status | GitTab::History | GitTab::Commit => (st, match st.pane {
            GitPane::Changes => WorkbenchAction::OpenSelectedDiff,
            GitPane::Log => WorkbenchAction::FocusFiles,
            GitPane::Files => WorkbenchAction::OpenCommitFileDiff,
        }),
        GitTab::Branches => (st, WorkbenchAction::CheckoutBranch),
        GitTab::Diff => (st, WorkbenchAction::Nothing),
        GitTab::PullRequests => if st.pr_filter_mode {
            (WbView { pr_filter_mode: false, ..st }, WorkbenchAction::ShowPrFilterCount)
        } else {
            (st, WorkbenchAction::Nothing)
        },
        GitTab::Issues => if st.issue_filter_mode {
            (WbView { issue_filter_mode: false, ..st }, WorkbenchAction::ShowIssueFilterCount)
        } else {
            (st, WorkbenchAction::BrowseIssue)
        },
        GitTab::Auth => (st, WorkbenchAction::RunAuthAction),
        GitTab::Stash => (st, WorkbenchAction::StashApply),
    }
}

/// A surface of the docked columns, where the commit message lives.
pub open spec fn docked(t: GitTab) -> bool {
    t == GitTab::Status || t == GitTab::History || t == GitTab::Commit
}

/// A surface that lists commits.
pub open spec fn commits(t: GitTab) -> bool {
    t == GitTab::History || t == GitTab::Commit
}

/// The letters that act on the repository, after Enter.
pub open spec fn command_step(st: WbView, key: KeyCode) -> (WbView, WorkbenchAction) {
    let tab = st.tab;
    let a = if is_char(key, 'd') && tab == GitTab::Stash {
        WorkbenchAction::StashDrop
    } else if is_char(key, 'p') && tab == GitTab::Stash {
        WorkbenchAction::StashShow
    } else if is_char(key, 'c') && tab == GitTab::PullRequests {
        WorkbenchAction::CheckoutPr
    } else if is_char(key, 'M') && tab == GitTab::PullRequests {
        WorkbenchAction::MergePr
    } else if (is_char(key, ' ') || is_char(key, 's')) && tab == GitTab::Status {
        WorkbenchAction::StageSelected
    } else if is_char(key, 'a') && tab == GitTab::Status {
        WorkbenchAction::StageAll
    } else if is_char(key, 'A') && tab == GitTab::Status {
        WorkbenchAction::UnstageAll
    } else if is_char(key, 'x') && tab == GitTab::Status {
        WorkbenchAction::BeginDiscard
    } else if is_char(key, 'c') && tab == GitTab::Branches {
        WorkbenchAction::BeginNewBranch
    } else if is_char(key, 'd') && tab == GitTab::Branches {
        WorkbenchAction::DeleteBranch
    } else if is_char(key, 'C') && commits(tab) {
        WorkbenchAction::CherryPick
    } else if is_char(key, 'V') && commits(tab) {
        WorkbenchAction::Revert
    } else if is_char(key, 'y') && commits(tab) {
        WorkbenchAction::CopyHash
    } else if is_char(key, 'P') {
        WorkbenchAction::CreatePr
    } else if is_char(key, 'f') && tab != GitTab::Auth {
        WorkbenchAction::Remote(RemoteAction::Fetch)
    } else if is_char(key, 'p') && tab != GitTab::Auth && tab != GitTab::PullRequests {
        WorkbenchAction::Remote(RemoteAction::Pull)
    } else if is_char(key, 'R') && tab != GitTab::Auth {
        WorkbenchAction::Remote(RemoteAction::PullRebase)
    } else if is_char(key, 'u') {
        WorkbenchAction::Remote(RemoteAction::Push)
    } else if is_char(key, 'r') {
        if tab == GitTab::Auth { WorkbenchAction::RefreshAuth } else { WorkbenchAction::Refresh }
    } else if is_char(key, 'm') && tab == GitTab::History {
        WorkbenchAction::LoadMoreHistory
    } else if is_char(key, 'z') {
        WorkbenchAction::Stash
    } else if is_char(key, 'Z') {
        WorkbenchAction::StashPop
    } else if is_char(key, 'o') {
        WorkbenchAction::Browse
    } else if (is_char(key, 'g') || is_char(key, 'c')) && tab != GitTab::Commit && tab != GitTab::Diff
        && tab != GitTab::Auth {
        WorkbenchAction::CloseWorkbench
    } else {
        WorkbenchAction::Nothing
    };
    (if a == WorkbenchAction::CloseWorkbench { WbView { from_scm: true, ..st } } else { st }, a)
}

/// The workbench's own keys, with no prompt, menu or message in the way.
/// Esc ends a filter first; the digits switch surfaces; while a filter is
/// typed, characters and Backspace edit it; the arrows and pages move the
/// selection; then the letters of each surface.
pub open spec fn main_step(st: WbView, key: KeyCode) -> (WbView, WorkbenchAction) {
    let tab = st.tab;
    let pr_typing = st.pr_filter_mode && tab == GitTab::PullRequests;
    let issue_typing = st.issue_filter_mode && tab == GitTab::Issues;
    if key == KeyCode::Esc {
        if st.pr_filter_mode {
            (WbView { pr_filter_mode: false, pr_filter: seq![], ..st }, WorkbenchAction::PrFilterCleared)
        } else if st.issue_filter_mode {
            (WbView { issue_filter_mode: false, issue_filter: seq![], ..st }, WorkbenchAction::IssueFilterCleared)
        } else {
            (st, WorkbenchAction::GoBackOrClose)
        }
    } else if key == KeyCode::Tab {
        (st, WorkbenchAction::CyclePane)
    } else if key == KeyCode::BackTab {
        (st, WorkbenchAction::PrevTab)
    } else if key is Char && '1' <= char_of(key) <= '8' {
        digit_step(st, char_of(key))
    } else if key is Char && pr_typing {
        if typed(key) {
            (WbView { pr_filter: st.pr_filter.push(char_of(key)), ..st }, WorkbenchAction::RefilterPrs)
        } else {
            (st, WorkbenchAction::Nothing)
        }
    } else if key == KeyCode::Backspace && pr_typing {
        (WbView { pr_filter: popped(st.pr_filter), ..st }, WorkbenchAction::RefilterPrs)
    } else if key is Char && issue_typing {
        if typed(key) {
            (WbView { issue_filter: st.issue_filter.push(char_of(key)), ..st }, WorkbenchAction::RefilterIssues)
        } else {
            (st, WorkbenchAction::Nothing)
        }
    } else if key == KeyCode::Backspace && issue_typing {
        (WbView { issue_filter: popped(st.issue_filter), ..st }, WorkbenchAction::RefilterIssues)
    } else if key == KeyCode::Down || is_char(key, 'j') {
        (st, WorkbenchAction::MoveSelection(1))
    } else if key == KeyCode::Up || is_char(key, 'k') {
        (st, WorkbenchAction::MoveSelection(-1isize))
    } else if key == KeyCode::PageDown {
        (st, WorkbenchAction::MoveSelection(10))
    } else if key == KeyCode::PageUp {
        (st, WorkbenchAction::MoveSelection(-10isize))
    } else if is_char(key, 'i') && docked(tab) {
        (WbView { commit_editing: true, pane: GitPane::Changes, ..st }, WorkbenchAction::EditCommitMessage)
    } else if is_char(key, 'c') && tab != GitTab::Branches && tab != GitTab::PullRequests {
        (st, WorkbenchAction::Commit)
    } else if is_char(key, 'v') && docked(tab) {
        (WbView { tab: GitTab::History, ..st }, WorkbenchAction::ToggleHistoryView)
    } else if is_char(key, ']') && tab == GitTab::PullRequests {
        (st, WorkbenchAction::CyclePrState(true))
    } else if is_char(key, '[') && tab == GitTab::PullRequests {
        (st, WorkbenchAction::CyclePrState(false))
    } else if is_char(key, 's') && tab == GitTab::Issues {
        (st, WorkbenchAction::CycleIssueState)
    } else if is_char(key, '/') && tab == GitTab::PullRequests {
        (st, WorkbenchAction::BeginPrFilter)
    } else if is_char(key, '/') && tab == GitTab::Issues {
        (st, WorkbenchAction::BeginIssueFilter)
    } else if key == KeyCode::Enter {
        enter_step(st)
    } else {
        command_step(st, key)
    }
}

/// The workbench's answer to `key`: the prompt, then the context menu, then
/// the commit message take the keyboard before the workbench's own keys.
pub open spec fn wb_step(st: WbView, key: KeyCode) -> (WbView, WorkbenchAction) {
    if st.input_mode is Some {
        input_step(st, key)
    } else if st.menu_open {
        menu_step(st, key)
    } else if st.commit_editing {
        commit_step(st, key)
    } else {
        main_step(st, key)
    }
}

fn pop_char(v: &mut Vec<char>)
    ensures
        final(v)@ == popped(old(v)@),
{
    let ghost v0 = v@;
    v.pop();
    proof {
        if v0.len() > 0 {
            assert(v@ =~= v0.drop_last());
        }
    }
}

fn typed_exec(key: KeyCode) -> (b: bool)
    ensures
        b == typed(key),
{
    match key {
        KeyCode::Char(c) => !control_char(c),
        _ => false,
    }
}

fn input_key(st: &mut WorkbenchKeys, key: KeyCode) -> (a: WorkbenchAction)
    ensures
        (wb_view(*final(st)), a) == input_step(wb_view(*old(st)), key),
{
    if matches!(key, KeyCode::Esc) {
        return WorkbenchAction::CancelInput;
    }
    if matches!(key, KeyCode::Enter) {
        return WorkbenchAction::SubmitInput;
    }
    if matches!(key, KeyCode::Backspace) {
        pop_char(&mut st.input_buf);
        return WorkbenchAction::Nothing;
    }
    if typed_exec(key) && matches!(st.input_mode, Some(InputMode::NewBranch)) {
        if let KeyCode::Char(c) = key {
            st.input_buf.push(c);
        }
    }
    WorkbenchAction::Nothing
}

fn picks_exec(c: char, it: CtxItem) -> (b: bool)
    ensures
        b == picks(c, it),
{
    match it {
        CtxItem::ShowFiles => c == 's' || c == 'S',
        CtxItem::CherryPick => c == 'c' || c == 'C',
        CtxItem::Revert => c == 'v' || c == 'V',
        CtxItem::CopyHash => c == 'y' || c == 'Y',
        CtxItem::BrowseOnGitHub => c == 'o' || c == 'O' || c == 'b' || c == 'B',
    }
}

/// The first context-menu entry that `c` picks.
fn find_pick(items: &Vec<CtxItem>, c: char) -> (r: Option<usize>)
    ensures
        match first_pick(items@, c, 0) {
            Some(i) => r == Some(i as usize),
            None => r is None,
        },
{
    let mut i: usize = 0;
    while i < items.len()
        invariant
            i <= items.len(),
            first_pick(items@, c, 0) == first_pick(items@, c, i as int),
        decreases items.len() - i,
    {
        if picks_exec(c, items[i]) {
            return Some(i);
        }
        i = i + 1;
    }
    None
}

fn menu_key(st: &mut WorkbenchKeys, key: KeyCode) -> (a: WorkbenchAction)
    ensures
        (wb_view(*final(st)), a) == menu_step(wb_view(*old(st)), key),
{
    let last: usize = if st.menu_items.len() > 0 { st.menu_items.len() - 1 } else { 0 };
    if matches!(key, KeyCode::Esc) {
        return WorkbenchAction::CloseMenu;
    }
    if matches!(key, KeyCode::Up) || is_ch(key, 'k') {
        st.menu_sel = if st.menu_sel > 0 { st.menu_sel - 1 } else { 0 };
        return WorkbenchAction::Nothing;
    }
    if matches!(key, KeyCode::Down) || is_ch(key, 'j') {
        st.menu_sel = if st.menu_sel < last { st.menu_sel + 1 } else { last };
        return WorkbenchAction::Nothing;
    }
    if matches!(key, KeyCode::Enter) {
        return WorkbenchAction::RunMenuAction;
    }
    if let KeyCode::Char(c) = key {
        match find_pick(&st.menu_items, c) {
            Some(i) => {
                st.menu_sel = i;
                return WorkbenchAction::RunMenuAction;
            },
            None => {
                return WorkbenchAction::Nothing;
            },
        }
    }
    WorkbenchAction::Nothing
}

fn commit_key(st: &mut WorkbenchKeys, key: KeyCode) -> (a: WorkbenchAction)
    ensures
        (wb_view(*final(st)), a) == commit_step(wb_view(*old(st)), key),
{
    if matches!(key, KeyCode::Esc) {
        st.commit_editing = false;
        return WorkbenchAction::CommitMessageDone;
    }
    if matches!(key, KeyCode::Enter) {
        st.commit_editing = false;
        return WorkbenchAction::Commit;
    }
    if matches!(key, KeyCode::Backspace) {
        pop_char(&mut st.commit_buf);
        return WorkbenchAction::Nothing;
    }
    if typed_exec(key) {
        if let KeyCode::Char(c) = key {
            st.commit_buf.push(c);
        }
    }
    WorkbenchAction::Nothing
}

fn digit_key(st: &mut WorkbenchKeys, d: char) -> (a: WorkbenchAction)
    ensures
        (wb_view(*final(st)), a) == digit_step(wb_view(*old(st)), d),
{
    if d == '1' {
        st.tab = GitTab::Status;
        st.pane = GitPane::Changes;
        st.focus = GitFocus::List;
        WorkbenchAction::ShowTab
    } else if d == '2' {
        st.tab = GitTab::History;
        st.pane = GitPane::Log;
        st.focus = GitFocus::List;
        WorkbenchAction::ShowTab
    } else if d == '3' {
        st.tab = GitTab::Branches;
        st.focus = GitFocus::List;
        WorkbenchAction::ShowTab
    } else if d == '4' {
        WorkbenchAction::FocusFiles
    } else if d == '5' {
        if matches!(st.tab, GitTab::Diff) && st.has_diff {
            WorkbenchAction::ShowDiff
        } else {
            WorkbenchAction::OpenContextDiff
        }
    } else if d == '6' {
        st.tab = GitTab::PullRequests;
        st.focus = GitFocus::List;
        WorkbenchAction::ShowTab
    } else if d == '7' {
        st.tab = GitTab::Issues;
        st.focus = GitFocus::List;
        WorkbenchAction::ShowTab
    } else {
        st.tab = GitTab::Auth;
        st.focus = GitFocus::List;
        WorkbenchAction::ShowTab
    }
}

fn enter_key(st: &mut WorkbenchKeys) -> (a: WorkbenchAction)
    ensures
        (wb_view(*final(st)), a) == enter_step(wb_view(*old(st))),
{
    match st.tab {
        GitTab::Status | GitTab::History | GitTab::Commit => match st.pane {
            GitPane::Changes => WorkbenchAction::OpenSelectedDiff,
            GitPane::Log => WorkbenchAction::FocusFiles,
            GitPane::Files => WorkbenchAction::OpenCommitFileDiff,
        },
        GitTab::Branches => WorkbenchAction::CheckoutBranch,
        GitTab::Diff => WorkbenchAction::Nothing,
        GitTab::PullRequests => {
            if st.pr_filter_mode {
                st.pr_filter_mode = false;
                WorkbenchAction::ShowPrFilterCount
            } else {
                WorkbenchAction::Nothing
            }
        },
        GitTab::Issues => {
            if st.issue_filter_mode {
                st.issue_filter_mode = false;
                WorkbenchAction::ShowIssueFilterCount
            } else {
                WorkbenchAction::BrowseIssue
            }
        },
        GitTab::Auth => WorkbenchAction::RunAuthAction,
        GitTab::Stash => WorkbenchAction::StashApply,
    }
}

fn command_key(st: &mut WorkbenchKeys, key: KeyCode) -> (a: WorkbenchAction)
    ensures
        (wb_view(*final(st)), a) == command_step(wb_view(*old(st)), key),
{
    let tab = st.tab;
    let is_stash = matches!(tab, GitTab::Stash);
    let is_pr = matches!(tab, GitTab::PullRequests);
    let is_status = matches!(tab, GitTab::Status);
    let is_branches = matches!(tab, GitTab::Branches);
    let is_auth = matches!(tab, GitTab::Auth);
    let on_commits = matches!(tab, GitTab::History | GitTab::Commit);
    let a = if is_ch(key, 'd') && is_stash {
        WorkbenchAction::StashDrop
    } else if is_ch(key, 'p') && is_stash {
        WorkbenchAction::StashShow
    } else if is_ch(key, 'c') && is_pr {
        WorkbenchAction::CheckoutPr
    } else if is_ch(key, 'M') && is_pr {
        WorkbenchAction::MergePr
    } else if (is_ch(key, ' ') || is_ch(key, 's')) && is_status {
        WorkbenchAction::StageSelected
    } else if is_ch(key, 'a') && is_status {
        WorkbenchAction::StageAll
    } else if is_ch(key, 'A') && is_status {
        WorkbenchAction::UnstageAll
    } else if is_ch(key, 'x') && is_status {
        WorkbenchAction::BeginDiscard
    } else if is_ch(key, 'c') && is_branches {
        WorkbenchAction::BeginNewBranch
    } else if is_ch(key, 'd') && is_branches {
        WorkbenchAction::DeleteBranch
    } else if is_ch(key, 'C') && on_commits {
        WorkbenchAction::CherryPick
    } else if is_ch(key, 'V') && on_commits {
        WorkbenchAction::Revert
    } else if is_ch(key, 'y') && on_commits {
        WorkbenchAction::CopyHash
    } else if is_ch(key, 'P') {
        WorkbenchAction::CreatePr
    } else if is_ch(key, 'f') && !is_auth {
        WorkbenchAction::Remote(RemoteAction::Fetch)
    } else if is_ch(key, 'p') && !is_auth && !is_pr {
        WorkbenchAction::Remote(RemoteAction::Pull)
    } else if is_ch(key, 'R') && !is_auth {
        WorkbenchAction::Remote(RemoteAction::PullRebase)
    } else if is_ch(key, 'u') {
        WorkbenchAction::Remote(RemoteAction::Push)
    } else if is_ch(key, 'r') {
        if is_auth { WorkbenchAction::RefreshAuth } else { WorkbenchAction::Refresh }
    } else if is_ch(key, 'm') && matches!(tab, GitTab::History) {
        WorkbenchAction::LoadMoreHistory
    } else if is_ch(key, 'z') {
        WorkbenchAction::Stash
    } else if is_ch(key, 'Z') {
        WorkbenchAction::StashPop
    } else if is_ch(key, 'o') {
        WorkbenchAction::Browse
    } else if (is_ch(key, 'g') || is_ch(key, 'c')) && !matches!(tab, GitTab::Commit | GitTab::Diff | GitTab::Auth) {
        WorkbenchAction::CloseWorkbench
    } else {
        WorkbenchAction::Nothing
    };
    if matches!(a, WorkbenchAction::CloseWorkbench) {
        st.from_scm = true;
    }
    a
}

fn main_key(st: &mut WorkbenchKeys, key: KeyCode) -> (a: WorkbenchAction)
    ensures
        (wb_view(*final(st)), a) == main_step(wb_view(*old(st)), key),
{
    let is_pr = matches!(st.tab, GitTab::PullRequests);
    let is_issues = matches!(st.tab, GitTab::Issues);
    let is_docked = matches!(st.tab, GitTab::Status | GitTab::History | GitTab::Commit);
    let pr_typing = st.pr_filter_mode && is_pr;
    let issue_typing = st.issue_filter_mode && is_issues;
    if matches!(key, KeyCode::Esc) {
        if st.pr_filter_mode {
            st.pr_filter_mode = false;
            st.pr_filter = Vec::new();
            return WorkbenchAction::PrFilterCleared;
        }
        if st.issue_filter_mode {
            st.issue_filter_mode = false;
            st.issue_filter = Vec::new();
            return WorkbenchAction::IssueFilterCleared;
        }
        return WorkbenchAction::GoBackOrClose;
    }
    if matches!(key, KeyCode::Tab) {
        return WorkbenchAction::CyclePane;
    }
    if matches!(key, KeyCode::BackTab) {
        return WorkbenchAction::PrevTab;
    }
    if let KeyCode::Char(d) = key {
        if '1' <= d && d <= '8' {
            return digit_key(st, d);
        }
        if pr_typing {
            if !control_char(d) {
                st.pr_filter.push(d);
                return WorkbenchAction::RefilterPrs;
            }
            return WorkbenchAction::Nothing;
        }
    }
    if matches!(key, KeyCode::Backspace) && pr_typing {
        pop_char(&mut st.pr_filter);
        return WorkbenchAction::RefilterPrs;
    }
    if let KeyCode::Char(d) = key {
        if issue_typing {
            if !control_char(d) {
                st.issue_filter.push(d);
                return WorkbenchAction::RefilterIssues;
            }
            return WorkbenchAction::Nothing;
        }
    }
    if matches!(key, KeyCode::Backspace) && issue_typing {
        pop_char(&mut st.issue_filter);
        return WorkbenchAction::RefilterIssues;
    }
    if matches!(key, KeyCode::Down) || is_ch(key, 'j') {
        return WorkbenchAction::MoveSelection(1);
    }
    if matches!(key, KeyCode::Up) || is_ch(key, 'k') {
        return WorkbenchAction::MoveSelection(-1isize);
    }
    if matches!(key, KeyCode::PageDown) {
        return WorkbenchAction::MoveSelection(10);
    }
    if matches!(key, KeyCode::PageUp) {
        return WorkbenchAction::MoveSelection(-10isize);
    }
    if is_ch(key, 'i') && is_docked {
        st.commit_editing = true;
        st.pane = GitPane::Changes;
        return WorkbenchAction::EditCommitMessage;
    }
    if is_ch(key, 'c') && !matches!(st.tab, GitTab::Branches | GitTab::PullRequests) {
        return WorkbenchAction::Commit;
    }
    if is_ch(key, 'v') && is_docked {
        st.tab = GitTab::History;
        return WorkbenchAction::ToggleHistoryView;
    }
    if is_ch(key, ']') && is_pr {
        return WorkbenchAction::CyclePrState(true);
    }
    if is_ch(key, '[') && is_pr {
        return WorkbenchAction::CyclePrState(false);
    }
    if is_ch(key, 's') && is_issues {
        return WorkbenchAction::CycleIssueState;
    }
    if is_ch(key, '/') && is_pr {
        return WorkbenchAction::BeginPrFilter;
    }
    if is_ch(key, '/') && is_issues {
        return WorkbenchAction::BeginIssueFilter;
    }
    if matches!(key, KeyCode::Enter) {
        return enter_key(st);
    }
    command_key(st, key)
}

/// The workbench's answer to `key`: its state moves and the caller's action
/// comes back.
pub fn git_workbench_key(st: &mut WorkbenchKeys, key: KeyCode) -> (a: WorkbenchAction)
    ensures
        (wb_view(*final(st)), a) == wb_step(wb_view(*old(st)), key),
{
    if st.input_mode.is_some() {
        input_key(st, key)
    } else if st.menu_open {
        menu_key(st, key)
    } else if st.commit_editing {
        commit_key(st, key)
    } else {
        main_key(st, key)
    }
}

/// While an inline prompt is up, a key changes nothing but the prompt's
/// text, and it can only cancel or submit the prompt.
pub proof fn law_prompt_owns_typing(st: WbView, key: KeyCode)
    requires
        st.input_mode is Some,
    ensures
        wb_step(st, key).0 == (WbView { input_buf: wb_step(st, key).0.input_buf, ..st }),
        wb_step(st, key).1 == WorkbenchAction::Nothing || wb_step(st, key).1 == WorkbenchAction::CancelInput
            || wb_step(st, key).1 == WorkbenchAction::SubmitInput,
{
}

/// With the commit message open, a printable character is typed into it
/// and does nothing else.
pub proof fn law_commit_message_takes_characters(st: WbView, c: char)
    requires
        st.input_mode is None,
        !st.menu_open,
        st.commit_editing,
        !is_control(c),
    ensures
        wb_step(st, KeyCode::Char(c)) == (WbView { commit_buf: st.commit_buf.push(c), ..st }, WorkbenchAction::Nothing),
{
}

} // verus!

use suisei_core::key::KeyCode;
use suisei_core::workbench::{
    git_workbench_key, CtxItem, GitFocus, GitPane, GitTab, InputMode, RemoteAction, WorkbenchAction, WorkbenchKeys,
};

fn wb(tab: GitTab) -> WorkbenchKeys {
    WorkbenchKeys {
        input_mode: None,
        input_buf: Vec::new(),
        menu_open: false,
        menu_sel: 0,
        menu_items: Vec::new(),
        commit_editing: false,
        commit_buf: Vec::new(),
        pr_filter_mode: false,
        pr_filter: Vec::new(),
        issue_filter_mode: false,
        issue_filter: Vec::new(),
        tab,
        pane: GitPane::Changes,
        focus: GitFocus::Diff,
        has_diff: false,
        from_scm: false,
    }
}

#[test]
fn digits_switch_surfaces() {
    let mut st = wb(GitTab::Stash);
    assert_eq!(git_workbench_key(&mut st, KeyCode::Char('2')), WorkbenchAction::ShowTab);
    assert_eq!((st.tab, st.pane, st.focus), (GitTab::History, GitPane::Log, GitFocus::List));
    assert_eq!(git_workbench_key(&mut st, KeyCode::Char('6')), WorkbenchAction::ShowTab);
    assert_eq!(st.tab, GitTab::PullRequests);
    assert_eq!(git_workbench_key(&mut st, KeyCode::Char('4')), WorkbenchAction::FocusFiles);
    assert_eq!(git_workbench_key(&mut st, KeyCode::Char('5')), WorkbenchAction::OpenContextDiff);
    let mut diff = wb(GitTab::Diff);
    diff.has_diff = true;
    assert_eq!(git_workbench_key(&mut diff, KeyCode::Char('5')), WorkbenchAction::ShowDiff);
    assert_eq!(git_workbench_key(&mut diff, KeyCode::Char('9')), WorkbenchAction::Nothing);
}

#[test]
fn the_new_branch_prompt_takes_typing() {
    let mut st = wb(GitTab::Branches);
    st.input_mode = Some(InputMode::NewBranch);
    for c in "fix/x".chars() {
        assert_eq!(git_workbench_key(&mut st, KeyCode::Char(c)), WorkbenchAction::Nothing);
    }
    assert_eq!(git_workbench_key(&mut st, KeyCode::Backspace), WorkbenchAction::Nothing);
    assert_eq!(st.input_buf.iter().collect::<String>(), "fix/");
    assert_eq!(git_workbench_key(&mut st, KeyCode::Enter), WorkbenchAction::SubmitInput);
    let mut discard = wb(GitTab::Status);
    discard.input_mode = Some(InputMode::ConfirmDiscard);
    assert_eq!(git_workbench_key(&mut discard, KeyCode::Char('y')), WorkbenchAction::Nothing);
    assert!(discard.input_buf.is_empty());
    assert_eq!(git_workbench_key(&mut discard, KeyCode::Esc), WorkbenchAction::CancelInput);
}

#[test]
fn a_letter_picks_a_context_menu_entry() {
    let mut st = wb(GitTab::History);
    st.menu_open = true;
    st.menu_items = vec![CtxItem::ShowFiles, CtxItem::CherryPick, CtxItem::Revert, CtxItem::CopyHash, CtxItem::BrowseOnGitHub];
    assert_eq!(git_workbench_key(&mut st, KeyCode::Char('Y')), WorkbenchAction::RunMenuAction);
    assert_eq!(st.menu_sel, 3);
    assert_eq!(git_workbench_key(&mut st, KeyCode::Char('b')), WorkbenchAction::RunMenuAction);
    assert_eq!(st.menu_sel, 4);
    assert_eq!(git_workbench_key(&mut st, KeyCode::Char('z')), WorkbenchAction::Nothing);
    assert_eq!(st.menu_sel, 4);
    assert_eq!(git_workbench_key(&mut st, KeyCode::Down), WorkbenchAction::Nothing);
    assert_eq!(st.menu_sel, 4);
    assert_eq!(git_workbench_key(&mut st, KeyCode::Char('k')), WorkbenchAction::Nothing);
    assert_eq!(st.menu_sel, 3);
    assert_eq!(git_workbench_key(&mut st, KeyCode::Esc), WorkbenchAction::CloseMenu);
}

#[test]
fn the_commit_message_is_typed_then_committed() {
    let mut st = wb(GitTab::Status);
    assert_eq!(git_workbench_key(&mut st, KeyCode::Char('i')), WorkbenchAction::EditCommitMessage);
    assert!(st.commit_editing);
    for c in "fix".chars() {
        git_workbench_key(&mut st, KeyCode::Char(c));
    }
    assert_eq!(st.commit_buf.iter().collect::<String>(), "fix");
    assert_eq!(git_workbench_key(&mut st, KeyCode::Enter), WorkbenchAction::Commit);
    assert!(!st.commit_editing);
}

#[test]
fn the_pull_request_filter_is_typed_and_cleared() {
    let mut st = wb(GitTab::PullRequests);
    st.pr_filter_mode = true;
    assert_eq!(git_workbench_key(&mut st, KeyCode::Char('a')), WorkbenchAction::RefilterPrs);
    assert_eq!(git_workbench_key(&mut st, KeyCode::Char('j')), WorkbenchAction::RefilterPrs);
    assert_eq!(st.pr_filter, vec!['a', 'j']);
    assert_eq!(git_workbench_key(&mut st, KeyCode::Backspace), WorkbenchAction::RefilterPrs);
    assert_eq!(st.pr_filter, vec!['a']);
    assert_eq!(git_workbench_key(&mut st, KeyCode::Enter), WorkbenchAction::ShowPrFilterCount);
    assert!(!st.pr_filter_mode);
    st.pr_filter_mode = true;
    assert_eq!(git_workbench_key(&mut st, KeyCode::Esc), WorkbenchAction::PrFilterCleared);
    assert!(st.pr_filter.is_empty() && !st.pr_filter_mode);
}

#[test]
fn letters_act_by_surface() {
    let mut status = wb(GitTab::Status);
    assert_eq!(git_workbench_key(&mut status, KeyCode::Char('s')), WorkbenchAction::StageSelected);
    assert_eq!(git_workbench_key(&mut status, KeyCode::Char('A')), WorkbenchAction::UnstageAll);
    assert_eq!(git_workbench_key(&mut status, KeyCode::Char('c')), WorkbenchAction::Commit);
    assert_eq!(git_workbench_key(&mut status, KeyCode::Char('p')), WorkbenchAction::Remote(RemoteAction::Pull));
    assert_eq!(git_workbench_key(&mut status, KeyCode::Enter), WorkbenchAction::OpenSelectedDiff);
    let mut branches = wb(GitTab::Branches);
    assert_eq!(git_workbench_key(&mut branches, KeyCode::Char('c')), WorkbenchAction::BeginNewBranch);
    assert_eq!(git_workbench_key(&mut branches, KeyCode::Char('d')), WorkbenchAction::DeleteBranch);
    assert_eq!(git_workbench_key(&mut branches, KeyCode::Char('g')), WorkbenchAction::CloseWorkbench);
    assert!(branches.from_scm);
    let mut auth = wb(GitTab::Auth);
    assert_eq!(git_workbench_key(&mut auth, KeyCode::Char('r')), WorkbenchAction::RefreshAuth);
    assert_eq!(git_workbench_key(&mut auth, KeyCode::Char('f')), WorkbenchAction::Nothing);
    assert_eq!(git_workbench_key(&mut auth, KeyCode::Char('g')), WorkbenchAction::Nothing);
    let mut prs = wb(GitTab::PullRequests);
    assert_eq!(git_workbench_key(&mut prs, KeyCode::Char('p')), WorkbenchAction::Nothing);
    assert_eq!(git_workbench_key(&mut prs, KeyCode::Char(']')), WorkbenchAction::CyclePrState(true));
    assert_eq!(git_workbench_key(&mut prs, KeyCode::PageUp), WorkbenchAction::MoveSelection(-10));
    let mut history = wb(GitTab::Status);
    assert_eq!(git_workbench_key(&mut history, KeyCode::Char('v')), WorkbenchAction::ToggleHistoryView);
    assert_eq!(history.tab, GitTab::History);
    assert_eq!(git_workbench_key(&mut history, KeyCode::Char('C')), WorkbenchAction::CherryPick);
    assert_eq!(git_workbench_key(&mut history, KeyCode::Char('m')), WorkbenchAction::LoadMoreHistory);
}

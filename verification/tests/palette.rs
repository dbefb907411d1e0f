use suisei_core::palette::{fuzzy_score, Diagnostic, DiagnosticSeverity, Palette, PaletteAction, PaletteItem, PaletteKind};

fn item(label: &str) -> PaletteItem {
    PaletteItem { label: label.into(), detail: String::new(), action: PaletteAction::Command("noop") }
}

fn ranked(files: &[&str], query: &str) -> Vec<String> {
    let mut p = Palette::new();
    p.items = files.iter().map(|f| item(f)).collect();
    p.query = query.into();
    p.refilter();
    p.filtered.iter().map(|&i| p.items[i].label.clone()).collect()
}

#[test]
fn fuzzy_subsequence() {
    assert!(fuzzy_score("src/main.rs", "smr").is_some());
    assert!(fuzzy_score("src/main.rs", "xyz").is_none());
}

#[test]
fn filter_commands() {
    let mut p = Palette::new();
    p.open_commands();
    p.query = "save".into();
    p.refilter();
    assert!(!p.filtered.is_empty());
}

#[test]
fn the_real_file_outranks_incidental_path_matches() {
    let out = ranked(
        &[
            "var/tmp/sysdiagnose_2026_macOS_gu_i_edit_junk/acdi.log",
            "suisei-core/src/gui_edit.rs",
            "var/folders/g/u/i/e/d/i/t/cache",
        ],
        "gui_edit",
    );
    assert_eq!(out.first().map(String::as_str), Some("suisei-core/src/gui_edit.rs"));
}

#[test]
fn a_basename_hit_beats_a_directory_hit() {
    let out = ranked(&["lsp/src/other.rs", "core/src/lsp.rs"], "lsp");
    assert_eq!(out.first().map(String::as_str), Some("core/src/lsp.rs"));
}

#[test]
fn consecutive_characters_win_over_scattered_ones() {
    let out = ranked(&["a/p/p/l/e/x.rs", "src/apple.rs"], "apple");
    assert_eq!(out.first().map(String::as_str), Some("src/apple.rs"));
}

#[test]
fn a_needle_that_does_not_fit_is_dropped() {
    assert!(ranked(&["src/main.rs"], "zzz").is_empty());
}

#[test]
fn an_empty_query_keeps_everything_in_order() {
    assert_eq!(ranked(&["b.rs", "a.rs"], ""), vec!["b.rs", "a.rs"]);
}

#[test]
fn fuzzy_scores_exactly() {
    // "ab" in "ab": a at 0 (boundary 10, basename 12), b at 1 (consecutive 15,
    // basename 12); length 2 costs nothing.
    assert_eq!(fuzzy_score("ab", "ab"), Some(49));
    assert_eq!(fuzzy_score("anything", ""), Some(0));
    // "x" found after skipping 3: basename 12, skip penalty 3.
    assert_eq!(fuzzy_score("abcx", "x"), Some(9));
    // Ties keep the original order.
    assert_eq!(ranked(&["x/ab", "y/ab"], "ab"), vec!["x/ab", "y/ab"]);
}

#[test]
fn problems_list_and_navigation() {
    let mut p = Palette::new();
    p.open_problems(&[]);
    assert_eq!(p.items.len(), 1);
    assert_eq!(p.items[0].label, "No diagnostics");
    let diags = vec![
        Diagnostic { row: 4, col_start: 0, severity: DiagnosticSeverity::Warning, message: "unused".into() },
        Diagnostic { row: 9, col_start: 2, severity: DiagnosticSeverity::Error, message: "boom".into() },
    ];
    p.open_problems(&diags);
    assert_eq!(p.kind, PaletteKind::Problems);
    assert_eq!(p.title(), " Problems ");
    assert_eq!(p.items[0].label, "L5:1  [W] unused");
    assert_eq!(p.items[1].label, "L10:3  [E] boom");
    assert_eq!(p.filtered, vec![0, 1]);
    p.selected = 0;
    p.move_up();
    assert_eq!(p.selected, 1);
    p.move_down();
    assert_eq!(p.selected, 0);
    match p.selected_action() {
        Some(PaletteAction::Goto { row, col }) => assert_eq!((*row, *col), (4, 0)),
        other => panic!("unexpected {other:?}"),
    }
    p.push_char('b');
    assert_eq!(p.query, "b");
    assert_eq!(p.filtered, vec![1]);
    p.pop_char();
    assert_eq!(p.filtered.len(), 2);
    p.close();
    assert!(!p.open && p.items.is_empty());
    p.open_symbols(Vec::new());
    assert_eq!(p.items[0].label, "No symbols");
    p.open_code_actions(vec![item("Fix it")]);
    assert_eq!(p.items.len(), 1);
    assert_eq!(p.title(), " Code actions ");
}

#[test]
fn refilter_keeps_exactly_the_in_order_matches() {
    let mut p = Palette::new();
    p.items = vec![item("Save file"), item("Force quit"), item("Split vertical"), item("Settings")];
    p.query = "SV".into();
    p.refilter();
    let mut kept: Vec<usize> = p.filtered.clone();
    kept.sort();
    kept.dedup();
    assert_eq!(kept.len(), p.filtered.len());
    assert_eq!(kept, vec![0, 2]);
    assert!(fuzzy_score("split vertical", "sv").is_some());
    assert!(fuzzy_score("save file", "sv").is_some());
    assert!(fuzzy_score("force quit", "sv").is_none());
    assert!(fuzzy_score("settings", "sv").is_none());
}

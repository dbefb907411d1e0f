use suisei_core::settings::{SettingRow, SettingsPage};
use suisei_core::settings_panel::{setting_rows, LspEntry, SettingsAction, SettingsDraft, SettingsPanel};

fn draft() -> SettingsDraft {
    SettingsDraft {
        theme: "dark".to_string(),
        glass_style: "tinted".to_string(),
        tab_width: 4,
        relative_number: false,
        wrap_lines: true,
        undo_caching: false,
        clipboard_sync: true,
        gpu_acc: false,
        gpu_graphics: false,
        gpu_hyperlinks: false,
        key_hints: true,
        lsp_enabled: true,
        format_on_save: false,
        highlight_color: "default".to_string(),
        update_check: true,
        lsp_servers: vec![None],
    }
}

fn panel() -> SettingsPanel {
    let mut p = SettingsPanel::new(
        draft(),
        vec!["nord".to_string(), "sakura".to_string()],
        vec![LspEntry { key: "rust".to_string(), default_cmd: "rust-analyzer".to_string() }],
    );
    p.open_panel(draft());
    p
}

fn select(p: &mut SettingsPanel, row: SettingRow) {
    p.page = SettingsPage::Setting;
    p.selected = p.setting_rows().iter().position(|r| *r == row).unwrap();
}

#[test]
fn setting_rows_list_the_sections_in_order() {
    let rows = setting_rows(2, 1);
    assert_eq!(rows.len(), 24);
    assert_eq!(&rows[..5], &[SettingRow::ThemeHeader, SettingRow::AppearanceMode, SettingRow::GlassStyle, SettingRow::Theme(0), SettingRow::Theme(1)]);
    assert_eq!(rows[6], SettingRow::EditorHeader);
    assert_eq!(rows[20], SettingRow::LspLang(0));
    assert_eq!(&rows[21..], &[SettingRow::GitHeader, SettingRow::OpenWorkbench, SettingRow::OpenScm]);
}

#[test]
fn value_index_reads_the_draft() {
    let d = draft();
    assert_eq!(SettingRow::AppearanceMode.value_index(&d), 2);
    assert_eq!(SettingRow::GlassStyle.value_index(&d), 1);
    assert_eq!(SettingRow::TabWidth.value_index(&d), 1);
    assert_eq!(SettingRow::WrapLines.value_index(&d), 1);
    assert_eq!(SettingRow::HighlightColor.value_index(&d), 0);
    assert_eq!(SettingRow::LspLang(0).value_index(&d), 0);
    assert_eq!(SettingRow::LspLang(5).value_index(&d), 0);
    let mut off = draft();
    off.lsp_servers = vec![Some(String::new())];
    assert_eq!(SettingRow::LspLang(0).value_index(&off), 1);
    off.lsp_servers = vec![Some("ra".to_string())];
    assert_eq!(SettingRow::LspLang(0).value_index(&off), 2);
}

#[test]
fn moving_skips_section_headers() {
    let mut p = panel();
    select(&mut p, SettingRow::HighlightColor);
    p.move_sel(1);
    assert_eq!(p.setting_rows()[p.selected], SettingRow::RelativeNumber);
    p.move_sel(-1);
    assert_eq!(p.setting_rows()[p.selected], SettingRow::HighlightColor);
    select(&mut p, SettingRow::AppearanceMode);
    p.move_sel(-1);
    assert_eq!(p.selected, 1);
    p.move_sel(100);
    assert_eq!(p.setting_rows()[p.selected], SettingRow::OpenScm);
    p.page = SettingsPage::About;
    p.move_sel(3);
    assert_eq!(p.selected, 0);
    assert_eq!(p.page_item_count(), 0);
}

#[test]
fn turning_pages_selects_their_first_row() {
    let mut p = panel();
    p.next_page();
    assert_eq!((p.page, p.selected), (SettingsPage::Setting, 1));
    p.prev_page();
    assert_eq!((p.page, p.selected), (SettingsPage::About, 0));
    p.prev_page();
    assert_eq!(p.page, SettingsPage::Help);
    let first = p.help.iter().position(|e| !e.is_header).unwrap();
    assert_eq!(p.selected, first);
    p.move_sel(-1);
    assert_eq!(p.selected, first);
}

#[test]
fn activating_cycles_and_toggles() {
    let mut p = panel();
    select(&mut p, SettingRow::AppearanceMode);
    assert_eq!(p.activate(), SettingsAction::ApplyTheme);
    assert_eq!(p.draft.theme, "system");
    assert_eq!(p.status.as_deref(), Some("appearance = system"));
    assert!(p.dirty);
    select(&mut p, SettingRow::GlassStyle);
    assert_eq!(p.activate(), SettingsAction::Nothing);
    assert_eq!(p.draft.glass_style, "clear");
    select(&mut p, SettingRow::UndoCaching);
    p.activate();
    assert!(p.draft.undo_caching);
    assert_eq!(p.status.as_deref(), Some("undo_caching = true  (history survives close · ~/.suisei/undo)"));
    p.activate();
    assert!(!p.draft.undo_caching);
    select(&mut p, SettingRow::Theme(1));
    assert_eq!(p.activate(), SettingsAction::ApplyTheme);
    assert_eq!(p.draft.theme, "sakura");
    assert_eq!(p.status.as_deref(), Some("Theme → sakura"));
    select(&mut p, SettingRow::HighlightColor);
    let before = p.draft.clone();
    assert_eq!(p.activate(), SettingsAction::Nothing);
    assert_eq!(p.draft.theme, before.theme);
    select(&mut p, SettingRow::OpenWorkbench);
    assert_eq!(p.activate(), SettingsAction::OpenWorkbench);
}

#[test]
fn language_servers_go_between_default_and_off() {
    let mut p = panel();
    select(&mut p, SettingRow::LspLang(0));
    assert_eq!(p.activate(), SettingsAction::ApplyLsp);
    assert_eq!(p.draft.lsp_servers, vec![Some(String::new())]);
    assert_eq!(p.status.as_deref(), Some("lsp.rust = off"));
    assert_eq!(p.activate(), SettingsAction::ApplyLsp);
    assert_eq!(p.draft.lsp_servers, vec![None]);
    assert_eq!(p.status.as_deref(), Some("lsp.rust = default (rust-analyzer)"));
    assert_eq!(p.set_value(2), SettingsAction::Nothing);
    assert_eq!(p.draft.lsp_servers, vec![None]);
}

#[test]
fn set_value_picks_an_option_directly() {
    let mut p = panel();
    select(&mut p, SettingRow::TabWidth);
    assert_eq!(p.set_value(2), SettingsAction::Nothing);
    assert_eq!(p.draft.tab_width, 8);
    assert_eq!(p.status.as_deref(), Some("tab_width = 8"));
    p.dirty = false;
    assert_eq!(p.set_value(7), SettingsAction::Nothing);
    assert_eq!(p.draft.tab_width, 8);
    assert!(!p.dirty);
    select(&mut p, SettingRow::GpuAcc);
    assert_eq!(p.set_value(1), SettingsAction::ApplyGpuAcc);
    assert_eq!(p.status.as_deref(), Some("gpu_acc = true  (Ghostty/Kitty enhancements on)"));
    select(&mut p, SettingRow::KeyHints);
    p.set_value(0);
    assert_eq!(p.status.as_deref(), Some("key_hints = false"));
    p.mark_saved();
    assert!(!p.dirty);
    assert_eq!(p.status.as_deref(), Some("Saved ~/.suisei.toml"));
    p.close();
    assert!(!p.visible());
    assert!(p.status.is_none());
}

#[test]
fn segmented_controls_have_as_many_choices_as_their_options() {
    for (row, n) in [(SettingRow::AppearanceMode, 3), (SettingRow::GlassStyle, 2)] {
        let opts = row.presentation().options;
        assert_eq!(opts.split('|').filter(|o| !o.is_empty()).count(), n);
    }
}

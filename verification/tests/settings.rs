use suisei_core::settings::{
    help_entries, SettingControl, SettingRow, SettingSurfacePage, SettingsPage, HELP_ENTRY_COUNT,
};

#[test]
fn pages_cycle_both_ways() {
    let all = SettingsPage::all();
    assert_eq!(all.len(), 4);
    for p in &all {
        assert_eq!(p.next().prev(), *p);
        assert_eq!(p.next().next().next().next(), *p);
    }
    assert_eq!(SettingsPage::Help.next(), SettingsPage::About);
    assert_eq!(SettingsPage::About.prev(), SettingsPage::Help);
    assert_eq!(SettingsPage::Extensions.label(), "Extensions");
}

#[test]
fn help_headers_have_no_keys() {
    let h = help_entries();
    assert_eq!(h.len(), HELP_ENTRY_COUNT);
    assert!(h[0].is_header);
    assert_eq!(h[0].desc, "General");
    assert_eq!(h[1].keys, "Ctrl+,");
    for e in &h {
        assert_eq!(e.is_header, e.keys.is_empty());
    }
}

#[test]
fn rows_travel_as_fixed_numbers() {
    assert_eq!(SettingRow::ThemeHeader.kind(), 1);
    assert_eq!(SettingRow::Theme(3).kind(), 2);
    assert_eq!(SettingRow::Theme(3).payload(), 3);
    assert_eq!(SettingRow::LspLang(7).payload(), 7);
    assert_eq!(SettingRow::TabWidth.payload(), 0);
    assert_eq!(SettingRow::GlassStyle.kind(), 22);
    assert_eq!(SettingRow::FormatOnSave.kind(), 23);
    assert_ne!(SettingRow::FormatOnSave.kind(), SettingRow::LspEnabled.kind());
}

#[test]
fn presentation_places_each_row() {
    let p = SettingRow::AppearanceMode.presentation();
    assert_eq!(p.page, SettingSurfacePage::General);
    assert_eq!(p.control, SettingControl::Segmented);
    assert_eq!(p.options, "Automatic|Light|Dark");
    assert_eq!(p.page.code(), 1);
    assert_eq!(p.control.code(), 3);
    let g = SettingRow::GpuAcc.presentation();
    assert_eq!(g.page, SettingSurfacePage::NoPage);
    assert!(g.advanced);
    assert_eq!(SettingRow::GitHeader.presentation().control, SettingControl::NoControl);
}

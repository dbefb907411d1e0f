use suisei_core::live::LiveKind;
use suisei_core::pump::{on_service_event, PumpAction, PumpChange, PumpState, RefLocation, ServiceEvent, HOVER_CHARS};
use suisei_core::LiveKind as RootLiveKind;

#[test]
fn pump_change_any() {
    assert!(!PumpChange::default().any());
    assert!(PumpChange { paint: true, chrome: false }.any());
    assert!(PumpChange { paint: false, chrome: true }.any());
}

#[test]
fn live_kinds_travel_as_numbers() {
    assert_eq!(LiveKind::Changed.code(), 0);
    assert_eq!(LiveKind::Added.code(), 1);
    assert_eq!(RootLiveKind::Removed.code(), 2);
}

fn state() -> PumpState {
    PumpState {
        hover_text: None,
        message: String::new(),
        completions_active: false,
        suggestions: Vec::new(),
        references: Vec::new(),
        references_ready: false,
        pending_save: None,
        formatting_answered: false,
    }
}

#[test]
fn idle_pump_reports_no_change() {
    let mut change = PumpChange::default();
    let mut st = state();
    for ev in [ServiceEvent::FormatterAnswered, ServiceEvent::SaveTimedOut, ServiceEvent::Completions(Vec::new())] {
        change = change.join(on_service_event(&mut st, ev).0);
    }
    assert!(!change.any(), "a quiet frame must not ask for a repaint");
}

#[test]
fn references_survive_the_pump() {
    let mut st = state();
    st.references = vec![RefLocation { path: "/tmp/a.rs".into(), row: 3, col: 7 }];
    st.references_ready = true;
    for ev in [
        ServiceEvent::Repaint,
        ServiceEvent::Hover("x".into()),
        ServiceEvent::Symbols,
        ServiceEvent::Edits { version: 1 },
        ServiceEvent::Revisions,
    ] {
        on_service_event(&mut st, ev);
    }
    assert!(st.references_ready);
    assert_eq!(st.references.len(), 1, "the face still needs this list");
}

#[test]
fn hover_answer_lands_in_hover_text_and_asks_for_a_repaint() {
    let mut st = state();
    let (change, action) = on_service_event(&mut st, ServiceEvent::Hover("fn main()".into()));
    assert_eq!(st.hover_text.as_deref(), Some("fn main()"));
    assert!(change.chrome);
    assert_eq!(action, PumpAction::Nothing);
}

#[test]
fn hover_text_is_capped() {
    let mut st = state();
    on_service_event(&mut st, ServiceEvent::Hover("x".repeat(HOVER_CHARS * 2)));
    assert_eq!(st.hover_text.as_deref().map(str::len), Some(HOVER_CHARS));
}

#[test]
fn server_completions_merge_once_while_the_list_is_up() {
    let mut st = state();
    st.completions_active = true;
    let items = vec![("len".to_string(), None), ("len".to_string(), Some("x".to_string())), ("push".to_string(), Some("fn".to_string()))];
    let (change, _) = on_service_event(&mut st, ServiceEvent::Completions(items));
    assert!(change.chrome);
    let labels: Vec<(&str, &str)> = st.suggestions.iter().map(|s| (s.label.as_str(), s.detail.as_str())).collect();
    assert_eq!(labels, vec![("len", "LSP"), ("push", "fn")]);
    st.completions_active = false;
    let (change, _) = on_service_event(&mut st, ServiceEvent::Completions(vec![("pop".to_string(), None)]));
    assert!(!change.any());
    assert_eq!(st.suggestions.len(), 2);
}

#[test]
fn edits_for_a_moved_document_are_not_applied() {
    let mut st = state();
    st.pending_save = Some(3);
    st.formatting_answered = true;
    let (_, action) = on_service_event(&mut st, ServiceEvent::Edits { version: 4 });
    assert_eq!(action, PumpAction::Nothing);
    assert_eq!(st.message, "Kept typing while formatting — saved as typed");
    let (change, action) = on_service_event(&mut st, ServiceEvent::FormatterAnswered);
    assert_eq!(action, PumpAction::SaveFile);
    assert!(change.paint && change.chrome);
    assert!(st.pending_save.is_none());
    let (_, action) = on_service_event(&mut st, ServiceEvent::Edits { version: 4 });
    assert_eq!(action, PumpAction::ApplyEdits);
}

#[test]
fn a_save_that_waited_too_long_goes_through_unformatted() {
    let mut st = state();
    st.pending_save = Some(1);
    let (_, action) = on_service_event(&mut st, ServiceEvent::SaveTimedOut);
    assert_eq!(action, PumpAction::SaveFile);
    assert_eq!(st.message, "Formatter did not answer — saved unformatted");
}

#[test]
fn notes_and_soft_errors_land_only_where_they_should() {
    let mut st = state();
    on_service_event(&mut st, ServiceEvent::WorkspaceNote("APPLY\nedits".into()));
    assert_eq!(st.message, "");
    on_service_event(&mut st, ServiceEvent::WorkspaceNote("renamed 3".into()));
    assert_eq!(st.message, "renamed 3");
    let (change, _) = on_service_event(&mut st, ServiceEvent::SoftError("no server".into()));
    assert!(!change.any());
    assert_eq!(st.message, "renamed 3");
    st.message = "indexing…".into();
    on_service_event(&mut st, ServiceEvent::SoftError("no server".into()));
    assert_eq!(st.message, "no server");
}

use suisei_core::app::App;
use suisei_core::buffer::{Buffer, Position};
use suisei_core::gui_edit::Motion;

fn app_with(text: &str) -> App {
    let mut app = App::new();
    app.buffer = Buffer::from_string(text);
    app.caret_place(Position::zero());
    app
}

#[test]
fn undo_then_redo_gives_the_document_back() {
    let mut app = app_with("abc");
    app.caret_place(Position::new(0, 3));
    app.gui_insert_text("d");
    assert_eq!(app.buffer.text(), "abcd");
    assert!(app.undo());
    assert_eq!(app.buffer.text(), "abc");
    assert!(app.redo());
    assert_eq!(app.buffer.text(), "abcd");
    assert_eq!(app.buffer.cursor(), Position::new(0, 4));
    assert!(app.undo());
    assert!(!app.undo(), "nothing more to undo");
    assert_eq!(app.buffer.text(), "abc");
}

#[test]
fn a_new_edit_forgets_what_could_be_redone() {
    let mut app = app_with("");
    app.gui_insert_text("a");
    app.undo();
    app.gui_insert_text("b");
    assert!(!app.redo());
    assert_eq!(app.buffer.text(), "b");
}

#[test]
fn copy_with_a_bare_caret_keeps_the_yank_buffer() {
    let mut app = app_with("hello");
    app.yank_buffer = Some("kept".to_string());
    app.clipboard_copy();
    assert_eq!(app.yank_buffer.as_deref(), Some("kept"));
}

#[test]
fn selected_range_across_a_line_end() {
    let mut app = app_with("ab\ncd");
    app.caret_place(Position::new(0, 1));
    app.caret_drag_to(Position::new(1, 0));
    assert_eq!(app.selected_range(), Some((Position::new(0, 1), Position::new(0, 2))));
    app.clipboard_copy();
    assert_eq!(app.yank_buffer.as_deref(), Some("b\n"));
}

#[test]
fn word_motions_and_line_ends() {
    let mut app = app_with("foo  bar.baz\nx");
    app.caret_move(Motion::WordRight);
    assert_eq!(app.sel.primary().head, Position::new(0, 5));
    app.caret_move(Motion::WordRight);
    assert_eq!(app.sel.primary().head, Position::new(0, 8));
    app.caret_move(Motion::LineEnd);
    assert_eq!(app.sel.primary().head, Position::new(0, 12));
    app.caret_move(Motion::WordRight);
    assert_eq!(app.sel.primary().head, Position::new(1, 0));
    app.caret_move(Motion::WordLeft);
    assert_eq!(app.sel.primary().head, Position::new(0, 12));
    app.caret_move(Motion::WordLeft);
    assert_eq!(app.sel.primary().head, Position::new(0, 9));
    app.caret_move(Motion::DocEnd);
    assert_eq!(app.sel.primary().head, Position::new(1, 1));
    app.caret_move(Motion::DocStart);
    assert_eq!(app.sel.primary().head, Position::new(0, 0));
    app.caret_move(Motion::Left);
    assert_eq!(app.sel.primary().head, Position::new(0, 0));
}

#[test]
fn arrows_cross_line_boundaries() {
    let mut app = app_with("ab\ncd");
    app.caret_place(Position::new(0, 2));
    app.caret_move(Motion::Right);
    assert_eq!(app.sel.primary().head, Position::new(1, 0));
    app.caret_move(Motion::Left);
    assert_eq!(app.sel.primary().head, Position::new(0, 2));
}

#[test]
fn page_motion_moves_a_screenful() {
    let text: String = (0..50).map(|i| format!("{i}\n")).collect();
    let mut app = app_with(&text);
    app.caret_move(Motion::PageDown);
    assert_eq!(app.sel.primary().head.row, 20);
    app.viewport_rows = 11;
    app.caret_move(Motion::PageDown);
    assert_eq!(app.sel.primary().head.row, 30);
    app.caret_move(Motion::PageUp);
    assert_eq!(app.sel.primary().head.row, 20);
}

#[test]
fn double_click_selects_a_word() {
    let mut app = app_with("let foo_bar = 1;");
    app.select_word_gui(Position::new(0, 6));
    assert_eq!(app.gui_selection_range(), Some((Position::new(0, 4), Position::new(0, 11))));
    assert_eq!(app.buffer.cursor(), Position::new(0, 11));
    app.select_word_gui(Position::new(0, 3));
    assert_eq!(app.gui_selection_range(), None);
    assert_eq!(app.sel.primary().head, Position::new(0, 3));
}

#[test]
fn forward_delete_at_the_very_end_does_nothing() {
    let mut app = app_with("ab");
    app.caret_place(Position::new(0, 2));
    app.gui_delete_forward();
    assert_eq!(app.buffer.text(), "ab");
    app.caret_place(Position::new(0, 0));
    app.gui_delete_backward();
    assert_eq!(app.buffer.text(), "ab");
}

#[test]
fn a_typed_pair_is_removed_by_one_backspace() {
    let mut app = app_with("x ");
    app.caret_place(Position::new(0, 1));
    app.gui_insert_text("[");
    assert_eq!(app.buffer.text(), "x[] ");
    app.gui_delete_backward();
    assert_eq!(app.buffer.text(), "x ");
    assert_eq!(app.sel.primary().head, Position::new(0, 1));
}

use suisei_core::app::App;
use suisei_core::buffer::{Buffer, Position};
use suisei_core::gui_edit::Motion;

fn app_with(text: &str) -> App {
    let mut app = App::new();
    app.buffer = Buffer::from_string(text);
    app.caret_place(Position::zero());
    app
}

#[test]
fn auto_pair_closes_a_bracket_and_leaves_caret_inside() {
    let mut app = app_with("");
    app.gui_insert_text("(");
    assert_eq!(app.buffer.text(), "()");
    assert_eq!(app.sel.primary().head, Position::new(0, 1), "caret between");
}

#[test]
fn auto_pair_quotes_and_braces() {
    let mut app = app_with("");
    app.gui_insert_text("\"");
    app.gui_insert_text("{");
    assert_eq!(app.buffer.text(), "\"{}\"");
    assert_eq!(app.sel.primary().head, Position::new(0, 2));
}

#[test]
fn typing_the_closer_skips_over_the_auto_inserted_one() {
    let mut app = app_with("");
    app.gui_insert_text("("); // -> "(|)"
    app.gui_insert_text(")"); // type-over, not a second ")"
    assert_eq!(app.buffer.text(), "()");
    assert_eq!(
        app.sel.primary().head,
        Position::new(0, 2),
        "caret past closer"
    );
}

#[test]
fn backspace_between_an_empty_pair_removes_both() {
    let mut app = app_with("");
    app.gui_insert_text("("); // "(|)"
    app.gui_delete_backward();
    assert_eq!(app.buffer.text(), "");
    assert_eq!(app.sel.primary().head, Position::new(0, 0));
}

#[test]
fn opener_before_a_word_does_not_pair() {
    // Typing "(" right before existing text must not inject a stray ")".
    let mut app = app_with("word");
    app.caret_place(Position::zero());
    app.gui_insert_text("(");
    assert_eq!(app.buffer.text(), "(word");
}

#[test]
fn apostrophe_after_a_letter_does_not_pair() {
    let mut app = app_with("dont");
    app.caret_place(Position::new(0, 3)); // don|t
    app.gui_insert_text("'");
    assert_eq!(app.buffer.text(), "don't", "no stray closing quote");
}

#[test]
fn caret_move_right_is_grapheme_aware() {
    let mut app = app_with("héllo"); // é is one grapheme
    app.caret_move(Motion::Right);
    app.caret_move(Motion::Right);
    assert_eq!(app.sel.primary().head, Position::new(0, 2));
    assert!(app.sel.primary().is_empty());
}

#[test]
fn shift_right_extends_selection_keeping_anchor() {
    let mut app = app_with("hello world");
    app.caret_extend(Motion::Right);
    app.caret_extend(Motion::Right);
    let s = app.sel.primary();
    assert_eq!(s.anchor, Position::new(0, 0));
    assert_eq!(s.head, Position::new(0, 2));
    assert_eq!(
        app.gui_selection_range(),
        Some((Position::new(0, 0), Position::new(0, 2)))
    );
}

#[test]
fn plain_left_collapses_selection_to_near_edge() {
    let mut app = app_with("hello");
    app.caret_extend(Motion::Right);
    app.caret_extend(Motion::Right);
    app.caret_extend(Motion::Right); // selection cols 0..3
    app.caret_move(Motion::Left); // collapse to start, not 2
    assert!(app.sel.primary().is_empty());
    assert_eq!(app.sel.primary().head, Position::new(0, 0));
}

#[test]
fn vertical_move_preserves_goal_column_across_short_line() {
    // Long, short, long — moving down then down should return to col 8.
    let mut app = app_with("0123456789\nab\n0123456789");
    app.caret_place(Position::new(0, 8));
    app.caret_move(Motion::Down); // onto "ab" (len 2) → col clamps to 2
    assert_eq!(app.sel.primary().head, Position::new(1, 2));
    app.caret_move(Motion::Down); // back onto long line → col restores to 8
    assert_eq!(app.sel.primary().head, Position::new(2, 8));
}

#[test]
fn word_motion_extends() {
    let mut app = app_with("foo bar baz");
    app.caret_extend(Motion::WordRight);
    let s = app.sel.primary();
    assert_eq!(s.anchor, Position::new(0, 0));
    assert!(s.head.col >= 3); // past "foo"
}

#[test]
fn drag_sets_anchor_then_head() {
    let mut app = app_with("hello world");
    app.caret_place(Position::new(0, 2));
    app.caret_drag_to(Position::new(0, 7));
    let s = app.sel.primary();
    assert_eq!(s.anchor, Position::new(0, 2));
    assert_eq!(s.head, Position::new(0, 7));
}

#[test]
fn cmd_click_adds_cursor() {
    let mut app = app_with("line0\nline1\nline2");
    app.caret_place(Position::new(0, 0));
    app.caret_add(Position::new(2, 0));
    assert_eq!(app.sel.len(), 2);
    assert!(app.sel.is_multi());
}

#[test]
fn secondary_carets_exclude_the_primary() {
    // The render paints the primary through caret_*/sel_*; the extras come
    // from secondary_caret_positions(). Together they must cover every head
    // exactly once, with no double-count of the primary.
    let mut app = app_with("line0\nline1\nline2");
    app.caret_place(Position::new(0, 0));
    app.caret_add(Position::new(2, 3)); // this one becomes primary
    let secondaries = app.secondary_caret_positions();
    assert_eq!(secondaries.len(), 1);
    assert_eq!(secondaries[0], Position::new(0, 0));
    // Primary head + secondaries == the full set of caret heads.
    let mut heads = secondaries;
    heads.push(app.sel.primary().head);
    heads.sort();
    assert_eq!(heads, vec![Position::new(0, 0), Position::new(2, 3)]);
}

#[test]
fn secondary_carets_empty_for_single_cursor() {
    let mut app = app_with("solo");
    app.caret_place(Position::new(0, 2));
    assert!(app.secondary_caret_positions().is_empty());
}

#[test]
fn select_all_spans_document() {
    let mut app = app_with("ab\ncde");
    app.select_all_gui();
    assert_eq!(
        app.gui_selection_range(),
        Some((Position::new(0, 0), Position::new(1, 3)))
    );
}

#[test]
fn clicks_clamp_out_of_range_positions() {
    let mut app = app_with("hi");
    app.caret_place(Position::new(99, 99));
    assert_eq!(app.sel.primary().head, Position::new(0, 2));
}

#[test]
fn gui_selection_feeds_copy_and_selected_range() {
    // The whole point of the single-source bridge: a GUI selection made by
    // the caret commands is what copy yanks, with no vim Visual mode.
    let mut app = app_with("hello world");
    app.caret_place(Position::new(0, 0));
    for _ in 0..5 {
        app.caret_extend(Motion::Right); // select "hello"
    }
    assert!(app.has_selection());
    app.clipboard_copy();
    assert_eq!(app.yank_buffer.as_deref(), Some("hello"));
    // selected_range is the inclusive bridge: [0,0]..[0,4] for "hello".
    assert_eq!(
        app.selected_range(),
        Some((Position::new(0, 0), Position::new(0, 4)))
    );
}

#[test]
fn unicode_gui_selection_copies_exact_text() {
    let mut app = app_with("a한글🙂b");
    app.caret_place(Position::new(0, 1));
    app.caret_drag_to(Position::new(0, 4));
    app.clipboard_copy();
    assert_eq!(app.yank_buffer.as_deref(), Some("한글🙂"));
    assert_eq!(
        app.selected_range(),
        Some((Position::new(0, 1), Position::new(0, 3)))
    );
}

#[test]
fn caret_with_no_selection_has_no_range() {
    let mut app = app_with("hello");
    app.caret_place(Position::new(0, 3));
    assert!(!app.has_selection());
    assert_eq!(app.selected_range(), None);
}

#[test]
fn insert_at_caret_types_text() {
    let mut app = app_with("helloworld");
    app.caret_place(Position::new(0, 5));
    app.gui_insert_text(" ");
    assert_eq!(app.buffer.text(), "hello world");
    assert_eq!(app.sel.primary().head, Position::new(0, 6));
    assert!(app.sel.primary().is_empty());
}

#[test]
fn typing_over_a_selection_replaces_it() {
    let mut app = app_with("hello world");
    // select "hello"
    app.caret_place(Position::new(0, 0));
    for _ in 0..5 {
        app.caret_extend(Motion::Right);
    }
    app.gui_insert_text("HI");
    assert_eq!(app.buffer.text(), "HI world");
    assert!(app.sel.primary().is_empty());
    assert_eq!(app.sel.primary().head, Position::new(0, 2));
}

#[test]
fn backspace_deletes_grapheme_or_selection() {
    let mut app = app_with("héllo"); // é one grapheme
    app.caret_place(Position::new(0, 2)); // after é
    app.gui_delete_backward();
    assert_eq!(app.buffer.text(), "hllo");
    // now delete a selection
    app.caret_place(Position::new(0, 0));
    app.caret_extend(Motion::Right);
    app.caret_extend(Motion::Right);
    app.gui_delete_backward();
    assert_eq!(app.buffer.text(), "lo");
}

#[test]
fn backspace_at_line_start_joins_previous() {
    let mut app = app_with("ab\ncd");
    app.caret_place(Position::new(1, 0));
    app.gui_delete_backward();
    assert_eq!(app.buffer.text(), "abcd");
    assert_eq!(app.sel.primary().head, Position::new(0, 2));
}

#[test]
fn forward_delete_removes_next_or_joins() {
    let mut app = app_with("ab\ncd");
    app.caret_place(Position::new(0, 2)); // end of "ab"
    app.gui_delete_forward(); // join next line
    assert_eq!(app.buffer.text(), "abcd");
    app.caret_place(Position::new(0, 0));
    app.gui_delete_forward(); // delete 'a'
    assert_eq!(app.buffer.text(), "bcd");
}

/// Auto-indent carries the line's indent DOWN. It must not also leave it
/// behind on the text that moved.
///
/// `after` — everything past the caret — already contains whatever leading
/// whitespace the caret has not passed. Prefixing the indent on top of that
/// counted it twice: Enter at column 0 of an indented line produced an
/// empty line and a line indented twice over, and every Enter inside an
/// indent grew it again. Reported as "새로운 줄인데 맨 앞에 한 칸이 빈다";
/// the space was real, and the editor put it there.
#[test]
fn enter_inside_an_indent_does_not_duplicate_it() {
    // At column 0: the whole line moves down unchanged.
    let mut app = app_with("  abc");
    app.caret_place(Position::new(0, 0));
    app.gui_insert_newline("    ");
    assert_eq!(app.buffer.line(0), "");
    assert_eq!(app.buffer.line(1), "  abc", "indent not doubled");

    // Halfway through the indent: the whitespace is split, not multiplied.
    let mut app = app_with("  abc");
    app.caret_place(Position::new(0, 1));
    app.gui_insert_newline("    ");
    assert_eq!(app.buffer.line(0), " ");
    assert_eq!(app.buffer.line(1), " abc");

    // A line that is only whitespace, split in the middle: still two
    // spaces in total, not four.
    let mut app = app_with("    ");
    app.caret_place(Position::new(0, 2));
    app.gui_insert_newline("    ");
    assert_eq!(app.buffer.line(0), "  ");
    assert_eq!(app.buffer.line(1), "  ");
}

/// And past the indent it still does its job — that is the whole point.
#[test]
fn enter_past_the_indent_carries_it_down() {
    let mut app = app_with("  abc");
    app.caret_place(Position::new(0, 5));
    app.gui_insert_newline("    ");
    assert_eq!(app.buffer.line(1), "  ", "new line starts at the indent");
    assert_eq!(app.buffer.cursor().col, 2, "caret after it");

    // Splitting after the indent keeps the tail at the indent.
    let mut app = app_with("  abcdef");
    app.caret_place(Position::new(0, 5));
    app.gui_insert_newline("    ");
    assert_eq!(app.buffer.line(0), "  abc");
    assert_eq!(app.buffer.line(1), "  def");

    // An opener still adds one unit on top.
    let mut app = app_with("  if x {");
    app.caret_place(Position::new(0, 8));
    app.gui_insert_newline("  ");
    assert_eq!(app.buffer.line(1), "    ", "indent + one unit");
}

/// Auto-indent is a CODE affordance, and asks the language.
///
/// README.md line 10 is a wrapped Markdown bullet's continuation, indented
/// two spaces to keep it under the bullet. Enter at its end used to hand
/// you those two spaces on a line that is a new thought — reported as
/// "엔터하면 라인 앞에 탭처럼 스페이스가 하나 생김".
#[test]
fn markdown_does_not_carry_an_indent_down() {
    let line = "  final development snapshot (e.g. `2026dev`) when the ";

    let mut app = app_with(line);
    app.filename = Some("/tmp/README.md".to_string());
    let end = app.buffer.line(0).chars().count();
    app.caret_place(Position::new(0, end));
    app.gui_insert_newline("    ");
    assert_eq!(app.buffer.line(1), "", "prose starts at column 1");

    // The same text in a code file still does.
    let mut app = app_with(line);
    app.filename = Some("/tmp/a.rs".to_string());
    app.caret_place(Position::new(0, end));
    app.gui_insert_newline("    ");
    assert_eq!(app.buffer.line(1), "  ", "code keeps its depth");
}

/// An opener is a block in code and a sentence in prose, so the bonus
/// answers to the same question the indent does.
#[test]
fn markdown_does_not_open_a_block_on_a_colon() {
    let mut app = app_with("Options:");
    app.filename = Some("/tmp/notes.md".to_string());
    app.caret_place(Position::new(0, 8));
    app.gui_insert_newline("    ");
    assert_eq!(app.buffer.line(1), "");

    let mut app = app_with("def f():");
    app.filename = Some("/tmp/a.py".to_string());
    app.caret_place(Position::new(0, 8));
    app.gui_insert_newline("    ");
    assert_eq!(app.buffer.line(1), "    ", "python opens a block");
}

/// A file nothing claims gets the indent. An unknown file is more likely
/// code than not, and the failure is asymmetric: a missing indent in code
/// is retyped every line, a stray one in prose is deleted once.
#[test]
fn an_unknown_file_still_indents() {
    let mut app = app_with("  x");
    app.filename = Some("/tmp/thing.wat".to_string());
    app.caret_place(Position::new(0, 3));
    app.gui_insert_newline("  ");
    assert_eq!(app.buffer.line(1), "  ");

    let mut app = app_with("  x");
    app.filename = None;
    app.caret_place(Position::new(0, 3));
    app.gui_insert_newline("  ");
    assert_eq!(app.buffer.line(1), "  ");
}

#[test]
fn newline_splits_the_line() {
    let mut app = app_with("abcd");
    app.caret_place(Position::new(0, 2));
    app.gui_insert_newline("    ");
    assert_eq!(app.buffer.line(0), "ab");
    assert_eq!(app.buffer.line(1), "cd");
    assert_eq!(app.sel.primary().head.row, 1);
}

#[test]
fn multi_cursor_insert_types_at_every_caret() {
    let mut app = app_with("a\nb\nc");
    app.caret_place(Position::new(0, 1));
    app.caret_add(Position::new(1, 1));
    app.caret_add(Position::new(2, 1));
    assert_eq!(app.sel.len(), 3);
    app.gui_insert_text("!");
    assert_eq!(app.buffer.text(), "a!\nb!\nc!");
    assert_eq!(app.sel.len(), 3, "still three carets");
}

#[test]
fn multi_cursor_backspace_deletes_at_every_caret() {
    let mut app = app_with("aX\nbX\ncX");
    app.caret_place(Position::new(0, 2));
    app.caret_add(Position::new(1, 2));
    app.caret_add(Position::new(2, 2));
    app.gui_delete_backward();
    assert_eq!(app.buffer.text(), "a\nb\nc");
}

#[test]
fn typing_run_undoes_as_one_group() {
    let mut app = app_with("");
    app.caret_place(Position::new(0, 0));
    for c in "hello".chars() {
        app.gui_insert_text(&c.to_string());
    }
    assert_eq!(app.buffer.text(), "hello");
    app.undo(); // one undo reverts the whole coalesced run
    assert_eq!(app.buffer.text(), "");
}

#[test]
fn caret_move_breaks_the_undo_run() {
    let mut app = app_with("");
    app.caret_place(Position::new(0, 0));
    app.gui_insert_text("a");
    app.caret_move(Motion::Right); // boundary (no-op move still resets run)
    app.gui_insert_text("b");
    assert_eq!(app.buffer.text(), "ab");
    app.undo(); // reverts only "b"
    assert_eq!(app.buffer.text(), "a");
}

#[test]
fn buffer_cursor_mirrors_primary_head() {
    let mut app = app_with("hello");
    app.caret_move(Motion::Right);
    app.caret_extend(Motion::Right);
    assert_eq!(app.buffer.cursor(), app.sel.primary().head);
}

#[test]
fn undo_resyncs_gui_caret_before_cjk_paste() {
    let mut app = app_with("middle 한국어 insertion");
    app.caret_place(Position::new(0, 7));

    app.gui_insert_text("xptmxm");
    assert_eq!(app.buffer.line(0), "middle xptmxm한국어 insertion");
    app.undo();
    assert_eq!(app.buffer.cursor(), Position::new(0, 7));

    app.gui_insert_text("테스트");
    assert_eq!(app.buffer.line(0), "middle 테스트한국어 insertion");
    assert_eq!(app.buffer.cursor(), Position::new(0, 10));
    assert_eq!(app.sel.primary().head, Position::new(0, 10));
}

#[test]
fn redo_resyncs_gui_caret_before_typing() {
    let mut app = app_with("abc");
    app.caret_place(Position::new(0, 1));
    app.gui_insert_text("X");
    app.undo();
    app.redo();

    app.gui_insert_text("Y");
    assert_eq!(app.buffer.line(0), "aXYbc");
    assert_eq!(app.buffer.cursor(), Position::new(0, 3));
    assert_eq!(app.sel.primary().head, Position::new(0, 3));
}



fn searching(text: &str, pattern: &str, with: &str) -> App {
    let mut app = app_with(text);
    app.search.pattern = Some(pattern.to_string());
    app.search.matches = suisei_core::search::SearchState::collect(&app.buffer.lines(), pattern);
    app.search.replace_input = with.to_string();
    app
}

#[test]
fn replace_all_rewrites_every_match_as_one_edit() {
    let mut app = searching("foo bar Foo\nfoo", "foo", "baz");
    assert_eq!(app.replace_all_in_buffer(), 3);
    assert_eq!(app.buffer.text(), "baz bar baz\nbaz");
    assert_eq!(app.message, "Replaced 3");
    assert!(app.search.matches.is_empty());
    assert_eq!(app.buffer.cursor(), Position::new(1, 3));
    app.undo();
    assert_eq!(app.buffer.text(), "foo bar Foo\nfoo", "one undo step restores it");
}

#[test]
fn replace_all_skips_overlapping_matches() {
    let mut app = searching("aaaa", "aa", "b");
    assert_eq!(app.search.matches.len(), 3);
    assert_eq!(app.replace_all_in_buffer(), 2);
    assert_eq!(app.buffer.text(), "bb");
}

#[test]
fn replace_current_moves_to_the_next_match() {
    let mut app = searching("one two one", "one", "1");
    assert!(app.replace_current());
    assert_eq!(app.buffer.text(), "1 two one");
    assert_eq!(app.search.matches, vec![Position::new(0, 6)]);
    assert_eq!(app.search.current, 0);
    assert_eq!(app.buffer.cursor(), Position::new(0, 6));
    assert_eq!(app.sel.primary().head, Position::new(0, 6));
    assert!(app.replace_current());
    assert_eq!(app.buffer.text(), "1 two 1");
    assert!(!app.replace_current(), "nothing left to replace");
}

#[test]
fn replace_with_nothing_deletes_and_wraps_to_the_first_match() {
    let mut app = searching("xa xb", "x", "");
    app.search.current = 1;
    assert!(app.replace_current());
    assert_eq!(app.buffer.text(), "xa b");
    assert_eq!(app.search.current, 0, "no match after the edit: back to the first");
    assert_eq!(app.buffer.cursor(), Position::new(0, 0));
}

#[test]
fn replace_without_a_pattern_does_nothing() {
    let mut app = app_with("abc");
    assert!(!app.replace_current());
    assert_eq!(app.replace_all_in_buffer(), 0);
    app.search.pattern = Some(String::new());
    assert_eq!(app.replace_all_in_buffer(), 0);
    assert_eq!(app.buffer.text(), "abc");
}

#[test]
fn line_comment_goes_in_at_the_shallowest_indentation() {
    let mut app = app_with("  a\n    b\nc");
    app.caret_extend(Motion::Down);
    app.caret_extend(Motion::LineEnd);
    assert!(app.toggle_line_comment(Some("//")));
    assert_eq!(app.buffer.text(), "  // a\n  //   b\nc");
}

#[test]
fn line_comment_toggles_back_off() {
    let mut app = app_with("  a\n    b\nc");
    app.caret_extend(Motion::Down);
    app.caret_extend(Motion::LineEnd);
    assert!(app.toggle_line_comment(Some("//")));
    assert!(app.toggle_line_comment(Some("//")));
    assert_eq!(app.buffer.text(), "  a\n    b\nc");
}

#[test]
fn line_comment_on_a_half_commented_block_comments_all_of_it() {
    let mut app = app_with("# a\nb");
    app.caret_extend(Motion::Down);
    app.caret_extend(Motion::LineEnd);
    assert!(app.toggle_line_comment(Some("#")));
    assert_eq!(app.buffer.text(), "# # a\n# b");
}

#[test]
fn line_comment_skips_blank_rows_inside_a_block() {
    let mut app = app_with("a\n\nb");
    app.caret_extend(Motion::DocEnd);
    assert!(app.toggle_line_comment(Some("--")));
    assert_eq!(app.buffer.text(), "-- a\n\n-- b");
}

#[test]
fn line_comment_on_one_blank_row_starts_a_comment() {
    let mut app = app_with("");
    assert!(app.toggle_line_comment(Some("//")));
    assert_eq!(app.buffer.text(), "// ");
}

#[test]
fn line_comment_stops_before_a_row_the_selection_ends_at_column_zero() {
    let mut app = app_with("a\nb");
    app.caret_extend(Motion::Down);
    assert!(app.toggle_line_comment(Some("//")));
    assert_eq!(app.buffer.text(), "// a\nb");
}

#[test]
fn uncomment_takes_one_space_after_the_token_and_leaves_a_second() {
    let mut app = app_with("//  a");
    assert!(app.toggle_line_comment(Some("//")));
    assert_eq!(app.buffer.text(), " a");
}

#[test]
fn line_comment_is_one_undo_step() {
    let mut app = app_with("a\nb");
    app.caret_extend(Motion::DocEnd);
    assert!(app.toggle_line_comment(Some("//")));
    assert!(app.undo());
    assert_eq!(app.buffer.text(), "a\nb");
}

#[test]
fn line_comment_without_a_token_only_says_so() {
    let mut app = app_with("a");
    assert!(!app.toggle_line_comment(None));
    assert_eq!(app.buffer.text(), "a");
    assert_eq!(app.message, "No line comment in this file type");
}

#[test]
fn line_comment_keeps_the_caret_inside_the_shorter_row() {
    let mut app = app_with("// abc");
    app.caret_move(Motion::LineEnd);
    assert!(app.toggle_line_comment(Some("//")));
    assert_eq!(app.buffer.text(), "abc");
    assert_eq!(app.buffer.cursor(), Position::new(0, 3));
    assert_eq!(app.sel.primary().head, Position::new(0, 3));
}

#[test]
fn a_half_commented_block_comes_back_after_two_toggles() {
    let mut app = app_with("  # a\n  b\n\n    c");
    app.caret_extend(Motion::DocEnd);
    assert!(app.toggle_line_comment(Some("#")));
    assert_eq!(app.buffer.text(), "  # # a\n  # b\n\n  #   c");
    assert!(app.toggle_line_comment(Some("#")));
    assert_eq!(app.buffer.text(), "  # a\n  b\n\n    c");
}

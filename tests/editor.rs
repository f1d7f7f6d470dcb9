use tapedeck::editor::{CursorMove, Editor};

fn editor(lines: &[&str]) -> Editor {
    let mut editor = Editor::new();
    editor.lines = lines.iter().map(|l| l.to_string()).collect();
    editor
}

#[test]
fn new_editor_is_empty() {
    let editor = Editor::new();
    assert_eq!(editor.lines, vec![String::new()]);
    assert_eq!(editor.cursor, (0, 0));
    assert_eq!(editor.selection, None);
    assert_eq!(editor.window_height, 1);
    assert!(!editor.dirty);
}

#[test]
fn line_chars_counts_characters() {
    let editor = editor(&["abc", "", "é+"]);
    assert_eq!(editor.line_chars(0), 3);
    assert_eq!(editor.line_chars(1), 0);
    assert_eq!(editor.line_chars(2), 2);
}

#[test]
fn horizontal_moves_wrap_lines() {
    let mut editor = editor(&["ab", "c"]);
    editor.move_cursor(CursorMove::Left, false);
    assert_eq!(editor.cursor, (0, 0));
    editor.move_cursor(CursorMove::Right, false);
    editor.move_cursor(CursorMove::Right, false);
    assert_eq!(editor.cursor, (0, 2));
    editor.move_cursor(CursorMove::Right, false);
    assert_eq!(editor.cursor, (1, 0));
    editor.move_cursor(CursorMove::Right, false);
    editor.move_cursor(CursorMove::Right, false);
    assert_eq!(editor.cursor, (1, 1));
    editor.move_cursor(CursorMove::Left, false);
    editor.move_cursor(CursorMove::Left, false);
    assert_eq!(editor.cursor, (0, 2));
    assert_eq!(editor.pinned_col, 2);
}

#[test]
fn vertical_moves_keep_the_pinned_column() {
    let mut editor = editor(&["abcd", "a", "abcdef"]);
    editor.set_pinned_cursor(0, 3);
    editor.move_cursor(CursorMove::Down, false);
    assert_eq!(editor.cursor, (1, 1));
    editor.move_cursor(CursorMove::Down, false);
    assert_eq!(editor.cursor, (2, 3));
    editor.move_cursor(CursorMove::Down, false);
    assert_eq!(editor.cursor, (2, 3));
    editor.move_cursor(CursorMove::Up, false);
    editor.move_cursor(CursorMove::Up, false);
    editor.move_cursor(CursorMove::Up, false);
    assert_eq!(editor.cursor, (0, 3));
}

#[test]
fn selection_follows_the_shift_flag() {
    let mut editor = editor(&["abcd", "efgh"]);
    editor.move_cursor(CursorMove::Right, true);
    editor.move_cursor(CursorMove::Down, true);
    assert_eq!(editor.selection, Some((0, 0)));
    assert_eq!(editor.cursor, (1, 1));
    assert!(editor.in_selection(0, 0));
    assert!(editor.in_selection(0, 3));
    assert!(!editor.in_selection(0, 4));
    assert!(editor.in_selection(1, 0));
    assert!(!editor.in_selection(1, 1));
    editor.move_cursor(CursorMove::Right, false);
    assert_eq!(editor.selection, None);
    assert!(!editor.in_selection(0, 0));
}

#[test]
fn backward_selection_is_selected_too() {
    let mut editor = editor(&["abcd"]);
    editor.set_pinned_cursor(0, 3);
    editor.move_cursor(CursorMove::Left, true);
    editor.move_cursor(CursorMove::Left, true);
    assert_eq!(editor.selection, Some((0, 3)));
    assert!(!editor.in_selection(0, 0));
    assert!(editor.in_selection(0, 1));
    assert!(editor.in_selection(0, 2));
    assert!(!editor.in_selection(0, 3));
}

#[test]
fn scrolling_centres_far_lines() {
    let lines: Vec<String> = (0..40).map(|i| i.to_string()).collect();
    let mut editor = Editor::new();
    editor.lines = lines;
    editor.set_window_height(10);
    editor.set_pinned_cursor(25, 0);
    editor.scroll_into_view();
    assert_eq!(editor.window_top_line, 20);
    editor.set_pinned_cursor(22, 0);
    editor.scroll_into_view();
    assert_eq!(editor.window_top_line, 20);
    editor.set_pinned_cursor(3, 0);
    editor.scroll_into_view();
    assert_eq!(editor.window_top_line, 0);
    editor.window_top_line = 30;
    editor.set_pinned_cursor(12, 0);
    editor.scroll_into_view();
    assert_eq!(editor.window_top_line, 7);
}

fn text(editor: &Editor) -> Vec<&str> {
    editor.lines.iter().map(|l| l.as_str()).collect()
}

#[test]
fn insert_char_types_at_the_cursor() {
    let mut editor = editor(&["ac"]);
    editor.set_pinned_cursor(0, 1);
    editor.insert_char('b');
    assert_eq!(text(&editor), vec!["abc"]);
    assert_eq!(editor.cursor, (0, 2));
    assert!(editor.dirty);
}

#[test]
fn insert_char_replaces_the_selection() {
    let mut editor = editor(&["abcd", "efgh"]);
    editor.set_pinned_cursor(0, 1);
    editor.selection = Some((1, 2));
    editor.insert_char('+');
    assert_eq!(text(&editor), vec!["a+gh"]);
    assert_eq!(editor.cursor, (0, 2));
    assert_eq!(editor.selection, None);
}

#[test]
fn newline_splits_the_line() {
    let mut editor = editor(&["ab", "c"]);
    editor.set_pinned_cursor(0, 1);
    editor.newline();
    assert_eq!(text(&editor), vec!["a", "b", "c"]);
    assert_eq!(editor.cursor, (1, 0));
}

#[test]
fn backward_delete_removes_and_joins() {
    let mut editor = editor(&["ab", "cd"]);
    editor.set_pinned_cursor(1, 1);
    editor.backward_delete();
    assert_eq!(text(&editor), vec!["ab", "d"]);
    assert_eq!(editor.cursor, (1, 0));
    editor.backward_delete();
    assert_eq!(text(&editor), vec!["abd"]);
    assert_eq!(editor.cursor, (0, 2));
    editor.set_pinned_cursor(0, 0);
    editor.dirty = false;
    editor.backward_delete();
    assert_eq!(text(&editor), vec!["abd"]);
    assert!(!editor.dirty);
}

#[test]
fn forward_delete_removes_and_joins() {
    let mut editor = editor(&["ab", "cd"]);
    editor.set_pinned_cursor(0, 1);
    editor.forward_delete();
    assert_eq!(text(&editor), vec!["a", "cd"]);
    editor.forward_delete();
    assert_eq!(text(&editor), vec!["acd"]);
    assert_eq!(editor.cursor, (0, 1));
    editor.set_pinned_cursor(0, 3);
    editor.forward_delete();
    assert_eq!(text(&editor), vec!["acd"]);
}

#[test]
fn delete_selection_across_lines() {
    let mut editor = editor(&["abc", "def", "ghi"]);
    editor.set_pinned_cursor(2, 1);
    editor.selection = Some((0, 2));
    editor.delete_selection();
    assert_eq!(text(&editor), vec!["abhi"]);
    assert_eq!(editor.cursor, (0, 2));
    assert_eq!(editor.selection, None);
}

#[test]
fn copy_and_paste_within_a_line() {
    let mut editor = editor(&["abcd"]);
    editor.set_pinned_cursor(0, 1);
    editor.selection = Some((0, 3));
    editor.copy_selection();
    assert_eq!(editor.clipboard, Some(vec!["bc".to_string()]));
    assert_eq!(text(&editor), vec!["abcd"]);
    editor.selection = None;
    editor.set_pinned_cursor(0, 4);
    editor.paste();
    assert_eq!(text(&editor), vec!["abcdbc"]);
    assert_eq!(editor.cursor, (0, 4));
}

#[test]
fn cut_and_paste_several_lines() {
    let mut editor = editor(&["abc", "def", "ghi"]);
    editor.set_pinned_cursor(0, 1);
    editor.selection = Some((2, 1));
    editor.cut_selection();
    assert_eq!(
        editor.clipboard,
        Some(vec!["bc".to_string(), "def".to_string(), "g".to_string()])
    );
    assert_eq!(text(&editor), vec!["ahi"]);
    editor.paste();
    assert_eq!(text(&editor), vec!["abc", "def", "ghi"]);
    assert_eq!(editor.cursor, (0, 1));
}

#[test]
fn paste_without_clipboard_does_nothing() {
    let mut editor = editor(&["abc"]);
    editor.paste();
    assert_eq!(text(&editor), vec!["abc"]);
}

#[test]
fn indent_shifts_the_covered_lines() {
    let mut editor = editor(&["a", "b", "c"]);
    editor.set_pinned_cursor(2, 0);
    editor.selection = Some((0, 0));
    editor.indent();
    assert_eq!(text(&editor), vec!["  a", "  b", "c"]);
    assert_eq!(editor.selection, Some((0, 2)));
    assert_eq!(editor.cursor, (2, 0));
    assert!(editor.dirty);
}

#[test]
fn indent_without_selection_moves_the_cursor() {
    let mut editor = editor(&["x", "y"]);
    editor.set_pinned_cursor(1, 1);
    editor.indent();
    assert_eq!(text(&editor), vec!["x", "  y"]);
    assert_eq!(editor.cursor, (1, 3));
    assert_eq!(editor.selection, None);
}

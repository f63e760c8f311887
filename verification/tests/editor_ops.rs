use jid_core::editor::Editor;

#[test]
fn new_editor_is_empty_and_clean() {
    let e = Editor::new(false);
    assert_eq!(e.content(), "");
    assert!(!e.is_modified());
    assert_eq!(e.selected_text_range(), (0, 0));
    assert_eq!(e.marked_text_range(), None);
}

#[test]
fn backspace_on_empty_buffer_is_a_noop() {
    let mut e = Editor::new(false);
    let changed = e.backspace();
    assert!(!changed);
    assert_eq!(e.content(), "");
    assert!(!e.is_modified());
    assert_eq!(e.selected_text_range(), (0, 0));
}

#[test]
fn delete_of_full_selection_empties_buffer() {
    let mut e = Editor::new(false);
    e.replace_text(0, 0, "ab");
    e.mark_saved();
    e.select_all();
    assert_eq!(e.selected_text_range(), (0, 2));
    let changed = e.delete();
    assert!(changed);
    assert_eq!(e.content(), "");
    assert_eq!(e.selected_text_range(), (0, 0));
    assert!(e.is_modified());
}

#[test]
fn replace_with_same_text_keeps_modified_clear() {
    let mut e = Editor::new(false);
    e.replace_text(0, 0, "hello");
    e.mark_saved();
    assert!(!e.is_modified());
    let changed = e.replace_text(1, 3, "el");
    assert!(!changed);
    assert_eq!(e.content(), "hello");
    assert!(!e.is_modified());
    assert_eq!(e.selected_text_range(), (3, 3));
}

#[test]
fn insert_then_delete_restores_content_and_caret() {
    let mut e = Editor::new(false);
    e.replace_text(0, 0, "abcd");
    e.move_to(2);
    e.replace_text(2, 2, "XY");
    assert_eq!(e.content(), "abXYcd");
    assert_eq!(e.selected_text_range(), (4, 4));
    e.replace_text(2, 4, "");
    assert_eq!(e.content(), "abcd");
    assert_eq!(e.selected_text_range(), (2, 2));
}

#[test]
fn ime_marks_and_unmarks_without_losing_content() {
    let mut e = Editor::new(false);
    let changed = e.replace_and_mark_text_in_range(None, "n", None);
    assert!(changed);
    assert_eq!(e.content(), "n");
    assert_eq!(e.marked_text_range(), Some((0, 1)));
    assert_eq!(e.selected_text_range(), (1, 1));
    e.unmark_text();
    assert_eq!(e.marked_text_range(), None);
    assert_eq!(e.content(), "n");
}

#[test]
fn ime_replacement_prefers_marked_range() {
    let mut e = Editor::new(false);
    e.replace_text(0, 0, "abc");
    e.replace_and_mark_text_in_range(Some((1, 2)), "XX", None);
    assert_eq!(e.content(), "aXXc");
    assert_eq!(e.marked_text_range(), Some((1, 3)));
    e.replace_text_in_range(None, "b");
    assert_eq!(e.content(), "abc");
    assert_eq!(e.marked_text_range(), None);
    assert_eq!(e.selected_text_range(), (2, 2));
}

#[test]
fn ime_relative_selection_lands_inside_spliced_text() {
    let mut e = Editor::new(false);
    e.replace_text(0, 0, "xy");
    e.replace_and_mark_text_in_range(Some((1, 1)), "abc", Some((1, 2)));
    assert_eq!(e.content(), "xabcy");
    assert_eq!(e.marked_text_range(), Some((1, 4)));
    assert_eq!(e.selected_text_range(), (2, 3));
}

#[test]
fn left_and_right_collapse_a_selection_to_its_edges() {
    let mut e = Editor::new(false);
    e.replace_text(0, 0, "abcd");
    e.move_to(1);
    e.select_to(3);
    assert_eq!(e.selected_text_range(), (1, 3));
    e.left();
    assert_eq!(e.selected_text_range(), (1, 1));
    e.select_to(3);
    e.right();
    assert_eq!(e.selected_text_range(), (3, 3));
}

#[test]
fn caret_steps_over_line_feed_one_at_a_time() {
    let mut e = Editor::new(false);
    e.replace_text(0, 0, "a\nb");
    e.move_to(2);
    e.left();
    assert_eq!(e.selected_text_range(), (1, 1));
    e.left();
    assert_eq!(e.selected_text_range(), (0, 0));
    e.right();
    assert_eq!(e.selected_text_range(), (1, 1));
    e.right();
    assert_eq!(e.selected_text_range(), (2, 2));
}

#[test]
fn caret_steps_over_a_combining_accent_as_one_cluster() {
    let mut e = Editor::new(false);
    e.replace_text(0, 0, "e\u{0301}x");
    assert_eq!(e.selected_text_range(), (3, 3));
    e.left();
    assert_eq!(e.selected_text_range(), (2, 2));
    e.left();
    assert_eq!(e.selected_text_range(), (0, 0));
    e.right();
    assert_eq!(e.selected_text_range(), (2, 2));
}

#[test]
fn caret_steps_over_a_joined_emoji_as_one_cluster() {
    let mut e = Editor::new(false);
    e.replace_text(0, 0, "\u{1F468}\u{200D}\u{1F469}\u{200D}\u{1F467}");
    assert_eq!(e.selected_text_range(), (5, 5));
    e.left();
    assert_eq!(e.selected_text_range(), (0, 0));
    e.right();
    assert_eq!(e.selected_text_range(), (5, 5));
}

#[test]
fn backspace_removes_one_cluster_not_one_char() {
    let mut e = Editor::new(false);
    e.replace_text(0, 0, "ae\u{0301}");
    let changed = e.backspace();
    assert!(changed);
    assert_eq!(e.content(), "a");
    assert_eq!(e.selected_text_range(), (1, 1));
}

#[test]
fn select_left_and_right_move_only_the_active_end() {
    let mut e = Editor::new(false);
    e.replace_text(0, 0, "abcd");
    e.move_to(2);
    e.select_right();
    assert_eq!(e.selected_text_range(), (2, 3));
    e.select_left();
    assert_eq!(e.selected_text_range(), (2, 2));
    e.select_left();
    assert_eq!(e.selected_text_range(), (1, 2));
}

#[test]
fn anchor_stays_fixed_across_leftward_extensions() {
    let mut e = Editor::new(false);
    e.replace_text(0, 0, "abcd");
    e.move_to(2);
    e.select_to(1);
    assert_eq!(e.selected_text_range(), (1, 2));
    e.select_to(0);
    assert_eq!(e.selected_text_range(), (0, 2));
    e.select_to(3);
    assert_eq!(e.selected_text_range(), (2, 3));
}

#[test]
fn chained_select_left_grows_the_selection_leftward() {
    let mut e = Editor::new(false);
    e.replace_text(0, 0, "abcd");
    e.move_to(3);
    e.select_left();
    assert_eq!(e.selected_text_range(), (2, 3));
    e.select_left();
    assert_eq!(e.selected_text_range(), (1, 3));
    e.select_right();
    assert_eq!(e.selected_text_range(), (2, 3));
}

#[test]
fn ime_replacements_request_caret_visibility() {
    let mut e = Editor::new(false);
    assert!(!e.take_pending_scroll());
    e.replace_text_in_range(None, "a");
    assert!(e.take_pending_scroll());
    e.replace_and_mark_text_in_range(None, "b", None);
    assert!(e.take_pending_scroll());
}

#[test]
fn copy_cut_paste_round_trip() {
    let mut e = Editor::new(false);
    e.replace_text(0, 0, "hello world");
    e.move_to(0);
    e.select_to(5);
    let copied = e.copy();
    assert_eq!(copied.as_deref(), Some("hello"));
    assert_eq!(e.content(), "hello world");
    let cutted = e.cut();
    assert_eq!(cutted.as_deref(), Some("hello"));
    assert_eq!(e.content(), " world");
    assert_eq!(e.selected_text_range(), (0, 0));
    let changed = e.paste(copied.as_deref());
    assert!(changed);
    assert_eq!(e.content(), "hello world");
    assert_eq!(e.selected_text_range(), (5, 5));
}

#[test]
fn copy_of_a_caret_is_none_and_empty_clipboard_paste_is_a_noop() {
    let mut e = Editor::new(false);
    e.replace_text(0, 0, "abc");
    e.move_to(1);
    assert_eq!(e.copy(), None);
    assert_eq!(e.cut(), None);
    e.mark_saved();
    let changed = e.paste(None);
    assert!(!changed);
    assert_eq!(e.content(), "abc");
    assert!(!e.is_modified());
}

#[test]
fn newline_replaces_the_selection() {
    let mut e = Editor::new(false);
    e.replace_text(0, 0, "abcd");
    e.move_to(1);
    e.select_to(3);
    e.newline();
    assert_eq!(e.content(), "a\nd");
    assert_eq!(e.selected_text_range(), (2, 2));
}

#[test]
fn toggle_focus_mode_reports_the_new_state() {
    let mut e = Editor::new(false);
    assert!(e.toggle_focus_mode());
    assert!(!e.toggle_focus_mode());
}

#[test]
fn edits_raise_modified_and_request_caret_visibility() {
    let mut e = Editor::new(false);
    assert!(!e.take_pending_scroll());
    e.replace_text(0, 0, "x");
    assert!(e.is_modified());
    assert!(e.take_pending_scroll());
    assert!(!e.take_pending_scroll());
}

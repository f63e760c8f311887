use jid_core::editor::Editor;
use jid_core::measure::FixedWidthMeasure;
use jid_core::measure::TextMeasure;
use jid_core::text::str_to_chars;
use jid_core::wrap::wrap_layout;

const H: u64 = 38;

fn ranges_of(content: &str, char_width: u64, avail: u64) -> Vec<(usize, usize)> {
    let m = FixedWidthMeasure { char_width };
    let v = str_to_chars(content);
    wrap_layout(&m, &v, avail).ranges
}

#[test]
fn hello_world_wraps_into_two_lines() {
    // Width fits exactly "hello ": six characters of width 10 each.
    assert_eq!(ranges_of("hello world", 10, 60), vec![(0, 6), (6, 11)]);
}

#[test]
fn empty_content_yields_one_empty_line() {
    assert_eq!(ranges_of("", 10, 100), vec![(0, 0)]);
}

#[test]
fn empty_logical_lines_yield_empty_visual_lines() {
    assert_eq!(ranges_of("a\n\nb", 10, 100), vec![(0, 1), (2, 2), (3, 4)]);
    assert_eq!(ranges_of("a\n", 10, 100), vec![(0, 1), (2, 2)]);
}

#[test]
fn unbreakable_token_is_force_broken_with_progress() {
    assert_eq!(ranges_of("aaaaaa", 10, 25), vec![(0, 2), (2, 4), (4, 6)]);
}

#[test]
fn single_overwide_character_still_makes_progress() {
    assert_eq!(ranges_of("aaa", 30, 25), vec![(0, 1), (1, 2), (2, 3)]);
}

#[test]
fn hyphen_is_break_eligible() {
    assert_eq!(ranges_of("ab-cd", 10, 35), vec![(0, 3), (3, 5)]);
}

#[test]
fn spaces_after_a_soft_break_are_skipped() {
    // "ab" overflows at the first space; the second space is not
    // re-rendered at the start of the next visual line.
    assert_eq!(ranges_of("ab  cd", 10, 20), vec![(0, 3), (4, 6)]);
}

#[test]
fn wrapped_lines_fit_the_available_width() {
    let m = FixedWidthMeasure { char_width: 10 };
    let v = str_to_chars("the quick brown fox jumps over the lazy dog");
    let l = wrap_layout(&m, &v, 100);
    assert!(!l.ranges.is_empty());
    let chars: Vec<char> = "the quick brown fox jumps over the lazy dog".chars().collect();
    for &(a, b) in &l.ranges {
        assert!(a < b);
        // A line fits, unless it is a single force-broken character or it
        // ends right after a break-eligible character that overflowed.
        let last = chars[b - 1];
        assert!(
            m.measure(&v, a, b) <= 100 || b - a == 1 || last.is_whitespace() || last == '-'
        );
    }
    // Coverage: every character is in some range, except skipped blanks.
    for i in 0..chars.len() {
        let in_some = l.ranges.iter().any(|&(a, b)| a <= i && i < b);
        assert!(in_some || chars[i] == ' ' || chars[i] == '\n');
    }
}

#[test]
fn content_that_fits_wraps_into_exactly_its_logical_lines() {
    let r = ranges_of("abc\ndef\nxy", 10, 1000);
    assert_eq!(r, vec![(0, 3), (4, 7), (8, 10)]);
    // Reinserting the separators rebuilds the content exactly.
    let chars: Vec<char> = "abc\ndef\nxy".chars().collect();
    let pieces: Vec<String> = r
        .iter()
        .map(|&(a, b)| chars[a..b].iter().collect::<String>())
        .collect();
    assert_eq!(pieces.join("\n"), "abc\ndef\nxy");
}

#[test]
fn vertical_moves_keep_the_column_and_clamp_to_line_length() {
    let m = FixedWidthMeasure { char_width: 10 };
    let mut e = Editor::new(false);
    e.replace_text(0, 0, "line1\nline2");
    let l = wrap_layout(&m, &e.content, 1000);
    assert_eq!(l.ranges, vec![(0, 5), (6, 11)]);
    e.set_layout(l, 200);
    e.move_to(2);
    e.down();
    assert_eq!(e.selected_text_range(), (8, 8));
    e.up();
    assert_eq!(e.selected_text_range(), (2, 2));
}

#[test]
fn vertical_moves_without_layout_fall_back_to_buffer_ends() {
    let mut e = Editor::new(false);
    e.replace_text(0, 0, "abc\ndef");
    e.move_to(5);
    e.up();
    assert_eq!(e.selected_text_range(), (0, 0));
    e.move_to(5);
    e.down();
    assert_eq!(e.selected_text_range(), (7, 7));
}

#[test]
fn select_down_extends_from_the_anchor() {
    let m = FixedWidthMeasure { char_width: 10 };
    let mut e = Editor::new(false);
    e.replace_text(0, 0, "abc\ndef");
    let l = wrap_layout(&m, &e.content, 1000);
    e.set_layout(l, 200);
    e.move_to(1);
    e.select_down();
    assert_eq!(e.selected_text_range(), (1, 5));
    e.select_up();
    assert_eq!(e.selected_text_range(), (1, 1));
}

#[test]
fn caret_at_buffer_end_maps_to_last_line_and_column() {
    let m = FixedWidthMeasure { char_width: 10 };
    let mut e = Editor::new(false);
    e.replace_text(0, 0, "hello world");
    let l = wrap_layout(&m, &e.content, 60);
    e.set_layout(l, 200);
    e.move_to(11);
    let (x, y) = e.cursor_position(&m, H).expect("caret position");
    assert_eq!(x, 50);
    assert_eq!(y, H as i64);
}

#[test]
fn cursor_position_is_none_for_a_selection_or_empty_buffer() {
    let m = FixedWidthMeasure { char_width: 10 };
    let mut e = Editor::new(false);
    let l = wrap_layout(&m, &e.content, 60);
    e.set_layout(l, 200);
    assert_eq!(e.cursor_position(&m, H), None);
    e.replace_text(0, 0, "abcd");
    let l = wrap_layout(&m, &e.content, 60);
    e.set_layout(l, 200);
    e.move_to(0);
    e.select_to(2);
    assert_eq!(e.cursor_position(&m, H), None);
}

#[test]
fn hit_testing_maps_points_to_offsets() {
    let m = FixedWidthMeasure { char_width: 10 };
    let mut e = Editor::new(false);
    e.replace_text(0, 0, "hello world");
    let l = wrap_layout(&m, &e.content, 60);
    e.set_layout(l, 200);
    // First line, between the second and third character.
    assert_eq!(e.index_for_position(&m, 23, 5, H), 2);
    // Second line.
    assert_eq!(e.index_for_position(&m, 0, H as i64 + 5, H), 6);
    // Far below the last line: clamps to the last line.
    assert_eq!(e.index_for_position(&m, 500, 1000, H), 11);
    // Negative coordinates clamp to the first line's start.
    assert_eq!(e.index_for_position(&m, -5, -50, H), 0);
}

#[test]
fn hit_testing_degrades_to_zero_before_any_layout() {
    let m = FixedWidthMeasure { char_width: 10 };
    let mut e = Editor::new(false);
    e.replace_text(0, 0, "abc");
    assert_eq!(e.index_for_position(&m, 50, 50, H), 0);
}

#[test]
fn scroll_clamps_to_content_extent() {
    let m = FixedWidthMeasure { char_width: 10 };
    let mut e = Editor::new(false);
    e.replace_text(0, 0, "a\nb\nc\nd\ne");
    let l = wrap_layout(&m, &e.content, 100);
    assert_eq!(l.ranges.len(), 5);
    e.set_layout(l, 100);
    // 5 lines * 38 = 190 total; viewport 100; max scroll 90.
    e.scroll_by(-1000, H);
    assert_eq!(e.scroll_y, 90);
    e.scroll_by(50, H);
    assert_eq!(e.scroll_y, 40);
    e.scroll_by(1000, H);
    assert_eq!(e.scroll_y, 0);
}

#[test]
fn scroll_to_cursor_brings_the_caret_line_into_view() {
    let m = FixedWidthMeasure { char_width: 10 };
    let mut e = Editor::new(false);
    e.replace_text(0, 0, "a\nb\nc\nd\ne");
    let l = wrap_layout(&m, &e.content, 100);
    e.set_layout(l, 100);
    // Caret on the last line: its bottom (5 * 38 = 190) minus the
    // viewport gives 90.
    e.move_to(8);
    e.scroll_to_cursor(H);
    assert_eq!(e.scroll_y, 90);
    // Caret back on the first line: pulled up to its top.
    e.move_to(0);
    e.scroll_to_cursor(H);
    assert_eq!(e.scroll_y, 0);
}

#[test]
fn selection_rects_span_the_selected_columns() {
    let m = FixedWidthMeasure { char_width: 10 };
    let mut e = Editor::new(false);
    e.replace_text(0, 0, "hello world");
    let l = wrap_layout(&m, &e.content, 60);
    e.set_layout(l, 200);
    e.move_to(1);
    e.select_to(8);
    let rects = e.selection_rects(&m, H);
    // Line 0: columns 1..6 of "hello "; line 1: columns 0..2 of "world".
    assert_eq!(rects, vec![(10, 0, 50), (0, H as i64, 20)]);
}

#[test]
fn selection_rects_are_empty_for_a_caret() {
    let m = FixedWidthMeasure { char_width: 10 };
    let mut e = Editor::new(false);
    e.replace_text(0, 0, "abc");
    let l = wrap_layout(&m, &e.content, 60);
    e.set_layout(l, 200);
    e.move_to(1);
    assert_eq!(e.selection_rects(&m, H), vec![]);
}

use remux_core::buffer::Buffer;
use remux_core::layout::LineWrapMode;
use remux_core::layout::visual_height_of;
use remux_core::to_chars;

fn buffer_with(text: &str) -> Buffer {
    let mut b = Buffer::new();
    b.load_text(&to_chars(text), String::from("scratch.txt"));
    b
}

fn line(b: &Buffer, i: usize) -> String {
    b.lines[i].text.iter().collect()
}

#[test]
fn fresh_buffer_has_one_empty_line() {
    let b = Buffer::new();
    assert_eq!(b.lines.len(), 1);
    assert_eq!(line(&b, 0), "");
    assert_eq!((b.cursor_x, b.cursor_y), (0, 0));
}

#[test]
fn insert_char_advances_cursor() {
    let mut b = Buffer::new();
    b.insert_char('h');
    b.insert_char('i');
    assert_eq!(line(&b, 0), "hi");
    assert_eq!((b.cursor_x, b.cursor_y), (2, 0));
    assert!(b.modified);
}

#[test]
fn motions_clamp_at_edges() {
    let mut b = buffer_with("ab\ncdef");
    b.move_left();
    assert_eq!((b.cursor_x, b.cursor_y), (0, 0));
    b.move_eol();
    assert_eq!((b.cursor_x, b.cursor_y), (2, 0));
    b.move_right();
    assert_eq!((b.cursor_x, b.cursor_y), (2, 0));
    b.move_down();
    assert_eq!(b.cursor_y, 1);
    b.move_end_of_buffer();
    assert_eq!((b.cursor_x, b.cursor_y), (4, 1));
    b.move_up();
    assert_eq!((b.cursor_x, b.cursor_y), (2, 0));
    b.move_beginning_of_buffer();
    assert_eq!((b.cursor_x, b.cursor_y), (0, 0));
}

#[test]
fn word_motions_use_whitespace_boundaries() {
    let mut b = buffer_with("ab  cd ef");
    b.move_word_right();
    assert_eq!(b.cursor_x, 2);
    b.move_word_right();
    assert_eq!(b.cursor_x, 6);
    b.move_word_left();
    assert_eq!(b.cursor_x, 4);
}

#[test]
fn insert_newline_splits_line() {
    let mut b = buffer_with("hello");
    b.move_right();
    b.move_right();
    b.insert_newline();
    assert_eq!(line(&b, 0), "he");
    assert_eq!(line(&b, 1), "llo");
    assert_eq!((b.cursor_x, b.cursor_y), (0, 1));
}

#[test]
fn delete_range_returns_region_text() {
    let mut b = buffer_with("abc\ndef\nghi");
    let cut = b.delete_range(1, 0, 2, 2);
    let cut: String = cut.iter().collect();
    assert_eq!(cut, "bc\ndef\ngh");
    assert_eq!(b.lines.len(), 1);
    assert_eq!(line(&b, 0), "ai");
    assert_eq!((b.cursor_x, b.cursor_y), (1, 0));
}

#[test]
fn undo_of_multiline_yank_restores_text_and_cursor() {
    let mut b = buffer_with("hello");
    b.move_eol();
    b.yank(&to_chars("X\nY"));
    assert_eq!(b.lines.len(), 2);
    assert_eq!(line(&b, 0), "helloX");
    assert_eq!(line(&b, 1), "Y");
    assert_eq!((b.cursor_x, b.cursor_y), (1, 1));
    let did = b.undo();
    assert!(did);
    assert_eq!(b.lines.len(), 1);
    assert_eq!(line(&b, 0), "hello");
    assert_eq!((b.cursor_x, b.cursor_y), (5, 0));
    assert!(b.modified);
}

#[test]
fn backward_delete_joins_lines_and_undo_restores_split() {
    let mut b = buffer_with("ab\ncd");
    b.move_down();
    assert_eq!((b.cursor_x, b.cursor_y), (0, 1));
    b.backward_delete_char();
    assert_eq!(b.lines.len(), 1);
    assert_eq!(line(&b, 0), "abcd");
    assert_eq!((b.cursor_x, b.cursor_y), (2, 0));
    let did = b.undo();
    assert!(did);
    assert_eq!(b.lines.len(), 2);
    assert_eq!(line(&b, 0), "ab");
    assert_eq!(line(&b, 1), "cd");
    assert_eq!((b.cursor_x, b.cursor_y), (0, 1));
}

#[test]
fn insert_then_undo_restores_everything() {
    let mut b = buffer_with("abc");
    b.move_right();
    b.insert_char('x');
    assert_eq!(line(&b, 0), "axbc");
    b.undo();
    assert_eq!(line(&b, 0), "abc");
    assert_eq!((b.cursor_x, b.cursor_y), (1, 0));
}

#[test]
fn undo_on_empty_stack_is_noop() {
    let mut b = Buffer::new();
    assert!(!b.undo());
    assert_eq!(b.lines.len(), 1);
}

#[test]
fn insert_text_at_then_delete_range_round_trips() {
    let mut b = buffer_with("world");
    b.insert_text_at(0, 0, &to_chars("big "));
    assert_eq!(line(&b, 0), "big world");
    assert_eq!((b.cursor_x, b.cursor_y), (4, 0));
    let cut = b.delete_range(0, 0, 4, 0);
    let cut: String = cut.iter().collect();
    assert_eq!(cut, "big ");
    assert_eq!(line(&b, 0), "world");
}

#[test]
fn copy_region_is_pure_and_matches_delete() {
    let mut b = buffer_with("hello");
    b.set_mark();
    b.move_right();
    b.move_right();
    b.move_right();
    let copied = b.copy_region().expect("selection");
    let copied_s: String = copied.iter().collect();
    assert_eq!(copied_s, "hel");
    assert_eq!(line(&b, 0), "hello");
    let mut b2 = b.clone();
    let cut = b2.delete_range(0, 0, 3, 0);
    assert_eq!(cut, copied);
}

#[test]
fn kill_region_clears_mark() {
    let mut b = buffer_with("hello");
    b.set_mark();
    b.move_right();
    b.move_right();
    b.move_right();
    let killed = b.kill_region().expect("selection");
    let killed: String = killed.iter().collect();
    assert_eq!(killed, "hel");
    assert_eq!(line(&b, 0), "lo");
    assert_eq!((b.cursor_x, b.cursor_y), (0, 0));
    assert!(b.mark.is_none());
}

#[test]
fn kill_word_and_sentence_stay_on_line() {
    let mut b = buffer_with("one two. three");
    let w = b.kill_word().expect("word");
    let w: String = w.iter().collect();
    assert_eq!(w, "one");
    assert_eq!(line(&b, 0), " two. three");
    let s = b.kill_sentence().expect("sentence");
    let s: String = s.iter().collect();
    assert_eq!(s, " two. ");
    assert_eq!(line(&b, 0), "three");
}

#[test]
fn kill_line_kills_to_end() {
    let mut b = buffer_with("abcdef");
    b.move_right();
    b.move_right();
    let k = b.kill_line().expect("tail");
    let k: String = k.iter().collect();
    assert_eq!(k, "cdef");
    assert_eq!(line(&b, 0), "ab");
    assert!(b.kill_line().is_none());
}

#[test]
fn search_forward_finds_first_match_in_reading_order() {
    let b = buffer_with("foo\nbar foo baz");
    assert_eq!(b.search_forward(&to_chars("foo"), 0, 0), Some((0, 0)));
    assert_eq!(b.search_forward(&to_chars("foo"), 1, 0), Some((4, 1)));
    assert_eq!(b.search_forward(&to_chars("zap"), 0, 0), None);
    assert_eq!(b.search_forward(&to_chars(""), 0, 0), None);
}

#[test]
fn search_backward_finds_last_match_at_or_before() {
    let b = buffer_with("foo\nbar foo baz");
    assert_eq!(b.search_backward(&to_chars("foo"), 11, 1), Some((4, 1)));
    assert_eq!(b.search_backward(&to_chars("foo"), 3, 1), Some((0, 0)));
    assert_eq!(b.search_backward(&to_chars("zap"), 11, 1), None);
}

#[test]
fn wrap_layout_visual_height() {
    assert_eq!(visual_height_of(10, 4, LineWrapMode::Wrap), 3);
    assert_eq!(visual_height_of(10, 4, LineWrapMode::Truncate), 1);
    assert_eq!(visual_height_of(0, 4, LineWrapMode::Wrap), 1);
    assert_eq!(visual_height_of(8, 4, LineWrapMode::Wrap), 2);
}

#[test]
fn prefix_sums_match_heights_after_rebuild() {
    let mut b = buffer_with("0123456789\nab\ncd");
    b.rebuild_visual_metrics(4, LineWrapMode::Wrap);
    assert!(!b.visual.dirty);
    assert_eq!(b.visual.prefix_sum, vec![0, 3, 4]);
    b.rebuild_visual_metrics(4, LineWrapMode::Truncate);
    assert_eq!(b.visual.prefix_sum, vec![0, 1, 2]);
}

#[test]
fn open_then_save_is_byte_identical_for_canonical_text() {
    let mut b = Buffer::new();
    b.load_text(&to_chars("alpha\nbeta\ngamma"), String::from("f"));
    let out: String = b.contents().iter().collect();
    assert_eq!(out, "alpha\nbeta\ngamma");
}

#[test]
fn trailing_newline_does_not_open_an_extra_line() {
    let mut b = Buffer::new();
    b.load_text(&to_chars("alpha\n"), String::from("f"));
    assert_eq!(b.lines.len(), 1);
    let out: String = b.contents().iter().collect();
    assert_eq!(out, "alpha");
    b.load_text(&to_chars(""), String::from("f"));
    assert_eq!(b.lines.len(), 1);
    assert_eq!(line(&b, 0), "");
}

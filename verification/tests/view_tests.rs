use seppo::{Size, View};

fn size(height: usize, width: usize) -> Size {
    Size { height, width }
}

fn lines(v: &View) -> Vec<String> {
    v.buffer().lines.clone()
}

fn line(v: &mut View, y: usize) -> String {
    v.get_line(y).into_iter().collect()
}

fn typed(text: &str) -> View {
    let mut v = View::new(size(10, 80));
    for (i, c) in text.chars().enumerate() {
        v.insert_char(c, i + 1, 0);
    }
    v
}

#[test]
fn new_view_is_empty() {
    let mut v = View::new(size(5, 20));
    assert_eq!(v.buffer_len(), 0);
    assert_eq!(v.line_len(), 0);
    assert!(v.buffer().file_name.is_none());
}

#[test]
fn typing_builds_the_row() {
    let mut v = typed("abc");
    assert_eq!(lines(&v), vec!["abc"]);
    assert_eq!(v.line_len(), 3);
    v.insert_char('x', 1, 0);
    assert_eq!(lines(&v), vec!["xabc"]);
    v.insert_char('y', 3, 0);
    assert_eq!(lines(&v), vec!["xaybc"]);
}

#[test]
fn insert_row_splits_the_line() {
    let mut v = typed("hello");
    v.insert_row(2, 0);
    assert_eq!(lines(&v), vec!["he", "llo"]);
    assert_eq!(v.line_len(), 3);
}

#[test]
fn insert_row_on_an_empty_line_adds_two_empty_rows() {
    let mut v = View::new(size(5, 20));
    v.insert_row(0, 0);
    assert_eq!(lines(&v), vec!["", ""]);
    assert_eq!(v.line_len(), 0);
}

#[test]
fn insert_row_past_the_end_of_the_line_does_nothing() {
    let mut v = typed("ab");
    v.insert_row(5, 0);
    assert_eq!(lines(&v), vec!["ab"]);
    assert_eq!(v.line_len(), 2);
}

#[test]
fn remove_char_takes_the_character_out() {
    let mut v = typed("abc");
    v.remove_char(1, 0);
    assert_eq!(lines(&v), vec!["ac"]);
}

#[test]
fn remove_line_makes_the_row_above_current() {
    let mut v = typed("ab");
    v.insert_row(2, 0);
    v.insert_char('c', 1, 1);
    assert_eq!(lines(&v), vec!["ab", "c"]);
    v.remove_line(1);
    assert_eq!(lines(&v), vec!["ab"]);
    assert_eq!(v.line_len(), 2);
}

#[test]
fn join_lines_appends_the_line_to_the_row_above() {
    let mut v = typed("ab");
    v.insert_row(2, 0);
    v.insert_char('c', 1, 1);
    v.insert_char('d', 2, 1);
    let length = v.join_lines(1);
    assert_eq!(length, 2);
    assert_eq!(lines(&v), vec!["abcd"]);
    assert_eq!(v.line_len(), 4);
}

#[test]
fn del_line_pulls_the_next_row_up() {
    let mut v = typed("abcd");
    v.insert_row(2, 0);
    v.move_line(0);
    assert_eq!(v.line_len(), 2);
    v.del_line(0);
    assert_eq!(lines(&v), vec!["abcd"]);
    assert_eq!(v.line_len(), 4);
}

#[test]
fn move_line_and_get_line_read_rows() {
    let mut v = typed("xy");
    v.insert_row(1, 0);
    v.move_line(0);
    assert_eq!(v.line_len(), 1);
    assert_eq!(line(&mut v, 1), "y");
    v.move_line(7);
    assert_eq!(v.line_len(), 0);
}

#[test]
fn undo_of_typing_removes_the_character() {
    let mut v = typed("ab");
    v.insert_char('c', 3, 0);
    assert_eq!(v.undo(), Some((2, 0)));
    assert_eq!(lines(&v), vec!["ab"]);
    assert_eq!(v.line_len(), 2);
}

#[test]
fn undo_then_redo_of_typing() {
    let mut v = typed("ab");
    v.insert_char('c', 2, 0);
    assert_eq!(lines(&v), vec!["acb"]);
    assert_eq!(v.undo(), Some((1, 0)));
    assert_eq!(lines(&v), vec!["ab"]);
    assert_eq!(v.redo(), Some((2, 0)));
    assert_eq!(lines(&v), vec!["acb"]);
    assert_eq!(v.redo(), None);
}

#[test]
fn undo_of_remove_char_types_it_again() {
    let mut v = typed("abc");
    v.remove_char(1, 0);
    assert_eq!(v.undo(), Some((2, 0)));
    assert_eq!(lines(&v), vec!["abc"]);
}

#[test]
fn undo_of_split_joins_again() {
    let mut v = typed("hello");
    v.insert_row(2, 0);
    assert_eq!(v.undo(), Some((2, 0)));
    assert_eq!(lines(&v), vec!["hello"]);
    assert_eq!(v.line_len(), 5);
}

#[test]
fn undo_of_empty_row_removes_it() {
    let mut v = View::new(size(5, 20));
    v.insert_row(0, 0);
    v.insert_row(0, 1);
    assert_eq!(lines(&v), vec!["", "", ""]);
    assert_eq!(v.undo(), Some((0, 1)));
    assert_eq!(lines(&v), vec!["", ""]);
}

#[test]
fn undo_of_removed_empty_row_puts_it_back() {
    let mut v = typed("ab");
    v.insert_row(2, 0);
    assert_eq!(lines(&v), vec!["ab", ""]);
    v.remove_line(1);
    assert_eq!(lines(&v), vec!["ab"]);
    assert_eq!(v.undo(), Some((0, 1)));
    assert_eq!(lines(&v), vec!["ab", ""]);
    assert_eq!(v.line_len(), 0);
}

#[test]
fn undo_with_nothing_recorded_answers_none() {
    let mut v = View::new(size(5, 20));
    assert_eq!(v.undo(), None);
    assert_eq!(v.redo(), None);
}

#[test]
fn resize_sets_the_size() {
    let mut v = View::new(size(5, 20));
    assert!(v.render().is_some());
    assert!(v.render().is_none());
    v.resize(size(3, 4));
    let rows = v.render().unwrap();
    assert_eq!(rows.len(), 3);
}

#[test]
fn render_draws_rows_and_tildes() {
    let mut v = typed("hello");
    v.insert_row(5, 0);
    v.insert_char('w', 1, 1);
    v.resize(size(4, 3));
    let rows = v.render().unwrap();
    assert_eq!(rows, vec!["hel", "w", "~", "~"]);
    assert!(v.render().is_none());
}

#[test]
fn render_with_no_room_draws_nothing() {
    let mut v = typed("a");
    v.resize(size(0, 10));
    assert!(v.render().is_none());
    v.resize(size(10, 0));
    assert!(v.render().is_none());
}

#[test]
fn render_cuts_by_bytes() {
    let mut v = typed("äbc");
    v.resize(size(1, 3));
    assert!(v.can_render());
    assert_eq!(v.render().unwrap(), vec!["äb"]);
    v.resize(size(1, 1));
    assert!(!v.can_render());
}

#[test]
fn render_greets_on_an_empty_buffer() {
    let mut v = View::new(size(6, 80));
    let rows = v.render().unwrap();
    assert_eq!(rows.len(), 6);
    assert_eq!(rows[2], View::build_welcome_message(80));
    assert_eq!(rows[0], "~");
    assert_eq!(rows[5], "~");
}

#[test]
fn welcome_message_for_each_width() {
    let message = "seppo o(〃＾▽＾〃)o tekstieditowi -- vewsio 0.1.0";
    assert_eq!(View::build_welcome_message(0), " ");
    assert_eq!(View::build_welcome_message(1), "~");
    assert_eq!(View::build_welcome_message(message.len()), "~");
    let width = message.len() + 11;
    let expected = format!("~{}{}", " ".repeat(5), message);
    assert_eq!(View::build_welcome_message(width), expected);
    assert!(expected.len() <= width);
}

#[test]
fn load_sets_the_buffer() {
    let mut v = View::new(size(5, 20));
    assert_eq!(v.load("notes.txt", Some("one\ntwo\n")), Ok(()));
    assert_eq!(lines(&v), vec!["one", "two"]);
    assert_eq!(v.buffer().file_name, Some("notes.txt".to_string()));
}

#[test]
fn load_failure_reports_the_file() {
    let mut v = View::new(size(5, 20));
    assert_eq!(v.load("missing.txt", None), Err("Failed to load file: missing.txt".to_string()));
    assert_eq!(v.buffer_len(), 0);
}

#[test]
fn checks_tell_which_edits_may_run() {
    let mut v = typed("ab");
    assert!(v.can_insert_char(3, 0));
    assert!(!v.can_insert_char(4, 0));
    assert!(!v.can_insert_char(0, 0));
    assert!(v.can_remove_char(1, 0));
    assert!(!v.can_remove_char(2, 0));
    assert!(!v.can_remove_line(0));
    assert!(!v.can_join_lines(1));
    assert!(!v.can_del_line(0));
    assert!(v.can_insert_row(1, 0));
    assert!(!v.can_insert_row(1, 1));
    assert!(v.can_undo());
    assert!(v.can_redo());
    v.insert_row(1, 0);
    assert!(v.can_remove_line(1));
    assert!(v.can_join_lines(1));
    v.move_line(0);
    assert!(v.can_del_line(0));
    assert_eq!(v.row_len(1), 1);
    assert_eq!(v.row_len(2), 0);
}

#[test]
fn rendered_rows_fit_the_width() {
    for width in 1..70 {
        let mut v = View::new(size(4, width));
        for row in v.render().unwrap() {
            assert!(row.len() <= width, "width {width}: {row:?}");
        }
        let mut w = typed("a rather long line of text");
        w.resize(size(3, width));
        for row in w.render().unwrap() {
            assert!(row.len() <= width, "width {width}: {row:?}");
        }
    }
}

#[test]
fn undo_of_a_join_splits_at_the_end_of_the_joined_row() {
    let mut v = typed("ab");
    v.insert_row(2, 0);
    v.insert_char('c', 1, 1);
    v.insert_char('d', 2, 1);
    assert_eq!(lines(&v), vec!["ab", "cd"]);
    v.join_lines(1);
    assert_eq!(lines(&v), vec!["abcd"]);
    assert_eq!(v.undo(), Some((0, 1)));
    assert_eq!(lines(&v), vec!["abcd", ""]);
}

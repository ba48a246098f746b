use seppo::text::split_lines;
use seppo::Buffer;

fn buffer_of(lines: &[&str]) -> Buffer {
    Buffer { lines: lines.iter().map(|l| l.to_string()).collect(), file_name: None }
}

#[test]
fn refresh_on_empty_buffer_adds_the_line() {
    let mut b = buffer_of(&[]);
    assert!(b.is_empty());
    b.refresh_buffer("abc".to_string(), 0);
    assert_eq!(b.lines, vec!["abc".to_string()]);
    assert!(!b.is_empty());
}

#[test]
fn refresh_replaces_the_row() {
    let mut b = buffer_of(&["one", "two", "three"]);
    b.refresh_buffer("TWO".to_string(), 1);
    assert_eq!(b.lines, vec!["one", "TWO", "three"]);
}

#[test]
fn refresh_then_read_gives_the_line() {
    let mut b = buffer_of(&["one", "two"]);
    b.refresh_buffer("äö".to_string(), 0);
    assert_eq!(b.get_line(0), vec!['ä', 'ö']);
    assert_eq!(b.get_line(1), vec!['t', 'w', 'o']);
}

#[test]
fn get_line_past_the_end_is_empty() {
    let mut b = buffer_of(&["one"]);
    assert_eq!(b.get_line(1), Vec::<char>::new());
    assert_eq!(b.get_line(100), Vec::<char>::new());
}

#[test]
fn insert_in_the_middle_and_past_the_end() {
    let mut b = buffer_of(&["a", "c"]);
    b.insert("b".to_string(), 1);
    assert_eq!(b.lines, vec!["a", "b", "c"]);
    b.insert("z".to_string(), 10);
    assert_eq!(b.lines, vec!["a", "b", "c", "z"]);
    assert_eq!(b.get_line(3), vec!['z']);
}

#[test]
fn load_splits_lines() {
    let b = Buffer::load("f.txt", "alpha\nbeta\r\ngamma\n");
    assert_eq!(b.lines, vec!["alpha", "beta", "gamma"]);
    assert_eq!(b.file_name, Some("f.txt".to_string()));
}

#[test]
fn load_keeps_empty_lines_and_a_last_line_without_feed() {
    let b = Buffer::load("f", "a\n\nb");
    assert_eq!(b.lines, vec!["a", "", "b"]);
}

#[test]
fn load_of_empty_text_has_no_lines() {
    let b = Buffer::load("f", "");
    assert!(b.is_empty());
}

#[test]
fn split_lines_keeps_a_lone_carriage_return_at_the_end() {
    assert_eq!(split_lines("x\r"), vec!["x\r".to_string()]);
    assert_eq!(split_lines("x\r\ny"), vec!["x".to_string(), "y".to_string()]);
    assert_eq!(split_lines("\n"), vec!["".to_string()]);
}

#[test]
fn split_lines_agrees_with_str_lines() {
    for text in ["", "a", "a\n", "a\nb", "a\r\nb\r\n", "\n\n", "é\r\r\nü", "a\rb"] {
        let expected: Vec<String> = text.lines().map(|l| l.to_string()).collect();
        assert_eq!(split_lines(text), expected, "text {:?}", text);
    }
}

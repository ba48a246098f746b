use seppo::{Action, Editor, Event, KeyCode, Modifiers, Size, View};

const SIZE: Size = Size { height: 10, width: 20 };

fn key(code: KeyCode) -> Event {
    Event::Key { code, modifiers: Modifiers::Plain }
}

fn ctrl(c: char) -> Event {
    Event::Key { code: KeyCode::Char(c), modifiers: Modifiers::Control }
}

fn press(e: &mut Editor, event: Event) -> Action {
    assert!(e.can_handle(event, SIZE), "event {:?} may not be handled", event);
    e.evaluate_event(event, SIZE)
}

fn type_text(e: &mut Editor, text: &str) {
    for c in text.chars() {
        press(e, key(KeyCode::Char(c)));
    }
}

fn lines(e: &Editor) -> Vec<String> {
    e.text_view().buffer().lines.clone()
}

fn editor() -> Editor {
    Editor::new(View::new(SIZE))
}

#[test]
fn typing_moves_the_cursor() {
    let mut e = editor();
    type_text(&mut e, "hi");
    assert_eq!(lines(&e), vec!["hi"]);
    assert_eq!(e.location(), (2, 0));
    press(&mut e, Event::Key { code: KeyCode::Char('A'), modifiers: Modifiers::Shift });
    assert_eq!(lines(&e), vec!["hiA"]);
}

#[test]
fn typing_stops_the_cursor_at_the_last_column() {
    let mut e = Editor::new(View::new(Size { height: 5, width: 2 }));
    for c in "abc".chars() {
        e.evaluate_event(key(KeyCode::Char(c)), Size { height: 5, width: 2 });
    }
    assert_eq!(e.location(), (1, 0));
    assert_eq!(lines(&e), vec!["acb"]);
}

#[test]
fn enter_splits_and_moves_down() {
    let mut e = editor();
    type_text(&mut e, "abcd");
    press(&mut e, key(KeyCode::Left));
    press(&mut e, key(KeyCode::Left));
    press(&mut e, key(KeyCode::Enter));
    assert_eq!(lines(&e), vec!["ab", "cd"]);
    assert_eq!(e.location(), (0, 1));
}

#[test]
fn backspace_at_the_start_joins_rows() {
    let mut e = editor();
    type_text(&mut e, "abcd");
    press(&mut e, key(KeyCode::Left));
    press(&mut e, key(KeyCode::Left));
    press(&mut e, key(KeyCode::Enter));
    press(&mut e, key(KeyCode::Backspace));
    assert_eq!(lines(&e), vec!["abcd"]);
    assert_eq!(e.location(), (2, 0));
}

#[test]
fn backspace_inside_removes_the_character_before() {
    let mut e = editor();
    type_text(&mut e, "abc");
    press(&mut e, key(KeyCode::Backspace));
    assert_eq!(lines(&e), vec!["ab"]);
    assert_eq!(e.location(), (2, 0));
}

#[test]
fn backspace_on_an_empty_row_removes_it() {
    let mut e = editor();
    type_text(&mut e, "ab");
    press(&mut e, key(KeyCode::Enter));
    assert_eq!(lines(&e), vec!["ab", ""]);
    press(&mut e, key(KeyCode::Backspace));
    assert_eq!(lines(&e), vec!["ab"]);
    assert_eq!(e.location(), (2, 0));
}

#[test]
fn delete_removes_the_character_at_the_cursor() {
    let mut e = editor();
    type_text(&mut e, "abc");
    press(&mut e, key(KeyCode::Home));
    press(&mut e, key(KeyCode::Delete));
    assert_eq!(lines(&e), vec!["bc"]);
    assert_eq!(e.location(), (0, 0));
}

#[test]
fn delete_at_the_end_joins_the_next_row() {
    let mut e = editor();
    type_text(&mut e, "abcd");
    press(&mut e, key(KeyCode::Left));
    press(&mut e, key(KeyCode::Left));
    press(&mut e, key(KeyCode::Enter));
    press(&mut e, key(KeyCode::Up));
    press(&mut e, key(KeyCode::End));
    assert_eq!(e.location(), (2, 0));
    press(&mut e, key(KeyCode::Delete));
    assert_eq!(lines(&e), vec!["abcd"]);
}

#[test]
fn arrows_keep_the_cursor_within_the_text() {
    let mut e = editor();
    type_text(&mut e, "abcd");
    press(&mut e, key(KeyCode::Enter));
    type_text(&mut e, "x");
    assert_eq!(e.location(), (1, 1));
    press(&mut e, key(KeyCode::Up));
    assert_eq!(e.location(), (1, 0));
    press(&mut e, key(KeyCode::End));
    assert_eq!(e.location(), (4, 0));
    press(&mut e, key(KeyCode::Down));
    assert_eq!(e.location(), (1, 1));
    press(&mut e, key(KeyCode::Down));
    assert_eq!(e.location(), (1, 1));
    press(&mut e, key(KeyCode::Right));
    assert_eq!(e.location(), (1, 1));
    press(&mut e, key(KeyCode::Left));
    press(&mut e, key(KeyCode::Left));
    assert_eq!(e.location(), (0, 1));
    press(&mut e, key(KeyCode::PageUp));
    assert_eq!(e.location(), (0, 0));
    press(&mut e, key(KeyCode::End));
    press(&mut e, key(KeyCode::PageDown));
    assert_eq!(e.location(), (1, 1));
}

#[test]
fn page_down_on_an_empty_buffer_may_not_run() {
    let e = editor();
    assert!(!e.can_handle(key(KeyCode::PageDown), SIZE));
    assert!(e.can_handle(key(KeyCode::PageUp), SIZE));
}

#[test]
fn control_keys_give_actions() {
    let mut e = editor();
    assert_eq!(press(&mut e, ctrl('s')), Action::Save);
    assert_eq!(press(&mut e, ctrl('o')), Action::OpenFile);
    assert!(!e.should_quit());
    assert_eq!(press(&mut e, ctrl('q')), Action::Nothing);
    assert!(e.should_quit());
}

#[test]
fn control_z_undoes_typing_and_control_y_redoes_it() {
    let mut e = editor();
    type_text(&mut e, "ab");
    press(&mut e, ctrl('z'));
    assert_eq!(lines(&e), vec!["a"]);
    assert_eq!(e.location(), (1, 0));
    press(&mut e, ctrl('y'));
    assert_eq!(lines(&e), vec!["ab"]);
    assert_eq!(e.location(), (2, 0));
}

#[test]
fn resize_changes_the_screen() {
    let mut e = editor();
    type_text(&mut e, "hello");
    assert!(e.render().is_some());
    assert!(e.render().is_none());
    press(&mut e, Event::Resize { width: 3, height: 2 });
    assert!(e.can_render());
    assert_eq!(e.render().unwrap(), vec!["hel", "~"]);
}

#[test]
fn other_events_change_nothing() {
    let mut e = editor();
    type_text(&mut e, "a");
    assert_eq!(press(&mut e, Event::Other), Action::Nothing);
    assert_eq!(press(&mut e, Event::Key { code: KeyCode::Enter, modifiers: Modifiers::Shift }), Action::Nothing);
    assert_eq!(press(&mut e, Event::Key { code: KeyCode::Char('x'), modifiers: Modifiers::Other }), Action::Nothing);
    assert_eq!(lines(&e), vec!["a"]);
    assert_eq!(e.location(), (1, 0));
}

#[test]
fn open_file_resets_the_cursor() {
    let mut e = editor();
    type_text(&mut e, "abc");
    assert_eq!(e.open_file("f.txt", Some("x\ny\n")), Ok(()));
    assert_eq!(lines(&e), vec!["x", "y"]);
    assert_eq!(e.location(), (0, 0));
    assert_eq!(e.open_file("g.txt", None), Err("Failed to load file: g.txt".to_string()));
    assert_eq!(lines(&e), vec!["x", "y"]);
}

#[test]
fn load_file_keeps_the_cursor() {
    let mut e = editor();
    type_text(&mut e, "ab");
    assert_eq!(e.load_file("f.txt", Some("q")), Ok(()));
    assert_eq!(lines(&e), vec!["q"]);
    assert_eq!(e.location(), (2, 0));
}

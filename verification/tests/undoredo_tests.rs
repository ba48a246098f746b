use seppo::{ChangeType, TextChange, UndoRedo, UndoType};

fn typed(x: usize, c: char) -> TextChange {
    TextChange::new(ChangeType::Character, x, 0, Some(c), None, None)
}

#[test]
fn new_change_records_its_fields() {
    let t = TextChange::new(ChangeType::Enter, 3, 4, None, Some(vec!['a']), Some(vec!['b']));
    assert_eq!(t.change_type, ChangeType::Enter);
    assert_eq!((t.x, t.y), (3, 4));
    assert_eq!(t.front, Some(vec!['a']));
    assert_eq!(t.back, Some(vec!['b']));
    assert_eq!(t.c, None);
    assert_eq!(t.undotype, UndoType::Undo);
    let r = TextChange::new_redo(ChangeType::Removal, 1, 2, Some('q'), None, None);
    assert_eq!(r.undotype, UndoType::Redo);
    assert_eq!(r.c, Some('q'));
}

#[test]
fn default_change_is_nothing() {
    let t = TextChange::default();
    assert_eq!(t.change_type, ChangeType::Nothing);
    assert_eq!((t.x, t.y), (0, 0));
    assert_eq!(t.undotype, UndoType::Undo);
    assert_eq!(ChangeType::default(), ChangeType::Nothing);
    assert_eq!(UndoType::default(), UndoType::Undo);
}

#[test]
fn undo_on_empty_history_gives_nothing() {
    let mut h = UndoRedo::default();
    let t = h.undo();
    assert_eq!(t.change_type, ChangeType::Nothing);
    assert!(h.redos.is_empty());
}

#[test]
fn undo_then_redo_gives_the_change_back() {
    let mut h = UndoRedo::default();
    h.add_change(typed(1, 'a'));
    h.add_change(typed(2, 'b'));
    let u = h.undo();
    assert_eq!(u.c, Some('b'));
    assert_eq!(h.redos.len(), 1);
    let r = h.redo();
    assert_eq!(r.c, Some('b'));
    assert!(h.redos.is_empty());
    assert_eq!(h.undo().c, Some('b'));
    assert_eq!(h.undo().c, Some('a'));
    assert_eq!(h.undo().change_type, ChangeType::Nothing);
}

#[test]
fn adding_a_change_empties_the_redo_stack() {
    let mut h = UndoRedo::default();
    h.add_change(typed(1, 'a'));
    h.undo();
    assert_eq!(h.redos.len(), 1);
    h.add_change(typed(1, 'b'));
    assert!(h.redos.is_empty());
    assert_eq!(h.undo().c, Some('b'));
    assert_eq!(h.undo().change_type, ChangeType::Nothing);
}

#[test]
fn peeks_show_what_undo_and_redo_give() {
    let mut h = UndoRedo::default();
    assert_eq!(h.peek_undo().change_type, ChangeType::Nothing);
    assert!(h.peek_redo().is_none());
    h.add_change(typed(1, 'a'));
    assert_eq!(h.peek_undo().c, Some('a'));
    h.undo();
    assert_eq!(h.peek_redo().map(|t| t.c), Some(Some('a')));
    assert!(!h.redos_is_empty());
}

#[test]
fn a_redo_change_removes_the_first_entry() {
    let mut h = UndoRedo::default();
    h.add_change(typed(1, 'a'));
    h.add_change(TextChange::new_redo(ChangeType::Character, 2, 0, Some('b'), None, None));
    let t = h.undo();
    assert_eq!(t.c, Some('b'));
    assert_eq!(t.undotype, UndoType::Redo);
    assert_eq!(h.undo().change_type, ChangeType::Nothing);
}

#[test]
fn a_lone_redo_change_removes_itself() {
    let mut h = UndoRedo::default();
    h.add_change(TextChange::new_redo(ChangeType::Character, 2, 0, Some('b'), None, None));
    assert_eq!(h.undo().change_type, ChangeType::Nothing);
}

#[test]
fn two_redo_changes_remove_the_even_positions() {
    let mut h = UndoRedo::default();
    h.add_change(typed(1, 'a'));
    h.add_change(typed(2, 'b'));
    h.add_change(TextChange::new_redo(ChangeType::Character, 3, 0, Some('c'), None, None));
    // one redo change among a, b, c: position 0 goes, leaving b, c
    h.add_change(TextChange::new_redo(ChangeType::Character, 4, 0, Some('d'), None, None));
    // b, c, d hold two redo changes: positions 0 and then 1 go, leaving c
    assert_eq!(h.undo().c, Some('c'));
    assert_eq!(h.undo().change_type, ChangeType::Nothing);
}

#[test]
fn duplicate_copies_every_field() {
    let t = TextChange::new(ChangeType::Removal, 7, 8, None, Some(vec!['x', 'y']), None);
    let d = t.duplicate();
    assert_eq!(d.change_type, ChangeType::Removal);
    assert_eq!((d.x, d.y), (7, 8));
    assert_eq!(d.front, Some(vec!['x', 'y']));
    assert_eq!(d.back, None);
}

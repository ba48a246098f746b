use vstd::prelude::*;
use vstd::view::View as _;

use crate::buffer::line_or_empty;
use crate::terminal::Size;
use crate::undoredo::History;
use crate::view::{change, lemma_insert_char_then_undo, rendered, View, ViewState};
use crate::undoredo::ChangeType;
use crate::text::text_lines;

verus! {

/// A key, as the editor tells keys apart.
#[derive(Clone, Copy, PartialEq, Eq, Structural, Debug)]
pub enum KeyCode {
    Char(char),
    Up,
    Down,
    Left,
    Right,
    PageUp,
    PageDown,
    Home,
    End,
    Enter,
    Backspace,
    Delete,
    Other,
}

/// The modifier keys held with a key: none (`Plain`), exactly shift, exactly control,
/// or any other combination.
#[derive(Clone, Copy, PartialEq, Eq, Structural, Debug)]
pub enum Modifiers {
    Plain,
    Shift,
    Control,
    Other,
}

/// What the terminal reports.
#[derive(Clone, Copy, PartialEq, Eq, Structural, Debug)]
pub enum Event {
    Key { code: KeyCode, modifiers: Modifiers },
    Resize { width: u16, height: u16 },
    Other,
}

/// What an event leaves to be done outside the editor.
#[derive(Clone, Copy, PartialEq, Eq, Structural, Debug)]
pub enum Action {
    Nothing,
    Save,
    OpenFile,
}

/// The cursor: column `x` of row `y`.
#[derive(Clone, Copy, PartialEq, Eq, Structural, Debug)]
struct Location {
    x: usize,
    y: usize,
}

/// The value of an `Editor`.
#[verifier::ext_equal]
pub struct EditorState {
    pub should_quit: bool,
    pub x: usize,
    pub y: usize,
    pub view: ViewState,
}

pub open spec fn smaller(a: usize, b: usize) -> usize {
    if a <= b {
        a
    } else {
        b
    }
}

fn min(a: usize, b: usize) -> (r: usize)
    ensures
        r == smaller(a, b),
{
    if a <= b {
        a
    } else {
        b
    }
}

impl EditorState {
    /// The cursor moved by `key` on a screen of `size`: up and left stop at
    /// zero, down stops at the last screen row, right stops at the end of the
    /// line and the last screen column; page up and page down go to the first
    /// and last row, which becomes the line being edited, and keep the column
    /// within it; home and end go to the ends of the line.
    pub open spec fn moved(self, key: KeyCode, size: Size) -> EditorState {
        match key {
            KeyCode::Up => EditorState { y: self.y.saturating_sub(1), ..self },
            KeyCode::Down => EditorState {
                y: smaller(size.height.saturating_sub(1), self.y.saturating_add(1)),
                ..self
            },
            KeyCode::Left => EditorState { x: self.x.saturating_sub(1), ..self },
            KeyCode::Right => if self.x < self.view.line.len() {
                EditorState {
                    x: smaller(size.width.saturating_sub(1), self.x.saturating_add(1)),
                    ..self
                }
            } else {
                self
            },
            KeyCode::PageUp => self.at_row(0),
            KeyCode::PageDown => self.at_row((self.view.lines.len() - 1) as usize),
            KeyCode::Home => EditorState { x: 0, ..self },
            KeyCode::End => EditorState { x: self.view.line.len() as usize, ..self },
            _ => self,
        }
    }

    /// The cursor in row `y`, which becomes the line being edited, with the
    /// column kept within that line.
    pub open spec fn at_row(self, y: usize) -> EditorState {
        let line = line_or_empty(self.view.lines, y as int);
        EditorState {
            y: y,
            x: if self.x > line.len() {
                line.len() as usize
            } else {
                self.x
            },
            view: ViewState { line: line, ..self.view },
            ..self
        }
    }

    pub open spec fn move_ok(self, key: KeyCode) -> bool {
        key == KeyCode::PageDown ==> self.view.lines.len() > 0
    }

    /// The view after `v`, the cursor placed where an undo or redo says.
    pub open spec fn placed(self, v: ViewState, at: Option<(usize, usize)>) -> EditorState {
        match at {
            Some((x, y)) => EditorState { view: v, x: x, y: y, ..self },
            None => EditorState { view: v, ..self },
        }
    }

    pub open spec fn type_ok(self) -> bool {
        self.x < usize::MAX && self.view.insert_char_ok((self.x + 1) as usize, self.y)
    }

    /// `c` typed before the cursor, which moves right within the screen.
    pub open spec fn typed(self, c: char, size: Size) -> EditorState {
        EditorState {
            view: self.view.after_insert_char(c, (self.x + 1) as usize, self.y),
            x: smaller(size.width.saturating_sub(1), self.x.saturating_add(1)),
            ..self
        }
    }

    pub open spec fn enter_ok(self) -> bool {
        self.view.insert_row_ok(self.x, self.y)
    }

    /// The row split at the cursor, which goes to the start of the next row.
    pub open spec fn entered(self, size: Size) -> EditorState {
        EditorState { view: self.view.after_insert_row(self.x, self.y), ..self }.moved(
            KeyCode::Down,
            size,
        ).moved(KeyCode::Home, size)
    }

    pub open spec fn joins(self) -> bool {
        self.x == 0 && line_or_empty(self.view.lines, self.y as int).len() != 0 && self.y != 0
    }

    pub open spec fn removes_char_before(self) -> bool {
        line_or_empty(self.view.lines, self.y as int).len() != 0 && self.x != 0
    }

    pub open spec fn backspace_ok(self, size: Size) -> bool {
        if self.joins() {
            &&& self.view.join_lines_ok(self.y)
            &&& self.view.lines[self.y - 1].len() == 0 || self.view.lines[self.y - 1].len()
                < size.width
        } else if self.removes_char_before() {
            self.view.remove_char_ok((self.x - 1) as usize, self.y)
        } else if self.y != 0 {
            self.view.remove_line_ok(self.y)
        } else {
            true
        }
    }

    /// Backspace: at the start of a non-empty row, the row is joined to the
    /// one above and the cursor goes to the joint; inside a non-empty row,
    /// the character before the cursor goes; on an empty row, the row goes
    /// and the cursor goes to the end of the row above.
    pub open spec fn backspaced(self, size: Size) -> EditorState {
        if self.joins() {
            let length = self.view.lines[self.y - 1].len() as usize;
            EditorState {
                view: self.view.after_join_lines(self.y),
                x: length,
                ..self
            }.moved(KeyCode::Up, size)
        } else if self.removes_char_before() {
            let s = self.moved(KeyCode::Left, size);
            EditorState { view: s.view.after_remove_char(s.x, s.y), ..s }
        } else if self.y != 0 {
            EditorState { view: self.view.after_remove_line(self.y), ..self }.moved(
                KeyCode::End,
                size,
            ).moved(KeyCode::Up, size)
        } else {
            self
        }
    }

    pub open spec fn joins_next(self) -> bool {
        self.x == self.view.line.len() && self.view.lines.len() > self.y + 1
    }

    pub open spec fn delete_ok(self) -> bool {
        &&& self.x == self.view.line.len() ==> self.y < usize::MAX
        &&& self.joins_next() ==> self.view.del_line_ok(self.y)
        &&& !self.joins_next() && self.x < self.view.line.len() ==> self.view.remove_char_ok(
            self.x,
            self.y,
        )
    }

    /// Delete: at the end of the line the next row is joined to it; inside
    /// the line the character at the cursor goes.
    pub open spec fn deleted(self) -> EditorState {
        if self.joins_next() {
            EditorState { view: self.view.after_del_line(self.y), ..self }
        } else if self.x < self.view.line.len() {
            EditorState { view: self.view.after_remove_char(self.x, self.y), ..self }
        } else {
            self
        }
    }

    pub open spec fn vertical_ok(self, code: KeyCode) -> bool {
        code == KeyCode::Down ==> self.y < usize::MAX
    }

    /// Up, or down where there is a row below: the cursor changes row, that
    /// row becomes the line being edited and the column is kept within it.
    pub open spec fn vertical(self, code: KeyCode, size: Size) -> EditorState {
        if code == KeyCode::Down {
            if self.y + 1 < self.view.lines.len() {
                let s = self.moved(KeyCode::Down, size);
                s.at_row(s.y)
            } else {
                self
            }
        } else {
            let s = self.moved(KeyCode::Up, size);
            s.at_row(s.y)
        }
    }

    pub open spec fn key_ok(self, code: KeyCode, modifiers: Modifiers, size: Size) -> bool {
        match code {
            KeyCode::Char(c) => match modifiers {
                Modifiers::Control => if c == 'z' {
                    self.view.undo_ok()
                } else if c == 'y' {
                    self.view.redo_ok()
                } else {
                    true
                },
                Modifiers::Shift => self.type_ok(),
                Modifiers::Plain => self.type_ok(),
                Modifiers::Other => true,
            },
            KeyCode::Enter => modifiers == Modifiers::Plain ==> self.enter_ok(),
            KeyCode::Backspace => modifiers == Modifiers::Plain ==> self.backspace_ok(size),
            KeyCode::Delete => modifiers == Modifiers::Plain ==> self.delete_ok(),
            KeyCode::PageDown => self.move_ok(code),
            KeyCode::Down => self.vertical_ok(code),
            _ => true,
        }
    }

    /// What a key does, and what it leaves to be done outside.
    pub open spec fn after_key(self, code: KeyCode, modifiers: Modifiers, size: Size) -> (
        EditorState,
        Action,
    ) {
        match code {
            KeyCode::Char(c) => match modifiers {
                Modifiers::Control => if c == 'q' {
                    (EditorState { should_quit: true, ..self }, Action::Nothing)
                } else if c == 's' {
                    (self, Action::Save)
                } else if c == 'o' {
                    (self, Action::OpenFile)
                } else if c == 'z' {
                    let (v, at) = self.view.after_undo();
                    (self.placed(v, at), Action::Nothing)
                } else if c == 'y' {
                    let (v, at) = self.view.after_redo();
                    (self.placed(v, at), Action::Nothing)
                } else {
                    (self, Action::Nothing)
                },
                Modifiers::Shift => (self.typed(c, size), Action::Nothing),
                Modifiers::Plain => (self.typed(c, size), Action::Nothing),
                Modifiers::Other => (self, Action::Nothing),
            },
            KeyCode::Enter => if modifiers == Modifiers::Plain {
                (self.entered(size), Action::Nothing)
            } else {
                (self, Action::Nothing)
            },
            KeyCode::Backspace => if modifiers == Modifiers::Plain {
                (self.backspaced(size), Action::Nothing)
            } else {
                (self, Action::Nothing)
            },
            KeyCode::Delete => if modifiers == Modifiers::Plain {
                (self.deleted(), Action::Nothing)
            } else {
                (self, Action::Nothing)
            },
            KeyCode::Left | KeyCode::Right | KeyCode::PageDown | KeyCode::PageUp | KeyCode::End
            | KeyCode::Home => (self.moved(code, size), Action::Nothing),
            KeyCode::Up | KeyCode::Down => (self.vertical(code, size), Action::Nothing),
            KeyCode::Other => (self, Action::Nothing),
        }
    }

    pub open spec fn event_ok(self, event: Event, size: Size) -> bool {
        match event {
            Event::Key { code, modifiers } => self.key_ok(code, modifiers, size),
            _ => true,
        }
    }

    /// What an event does, and what it leaves to be done outside: a resize
    /// changes the view's size.
    pub open spec fn after_event(self, event: Event, size: Size) -> (EditorState, Action) {
        match event {
            Event::Key { code, modifiers } => self.after_key(code, modifiers, size),
            Event::Resize { width, height } => (
                EditorState {
                    view: ViewState {
                        size: Size { height: height as usize, width: width as usize },
                        needs_redraw: true,
                        ..self.view
                    },
                    ..self
                },
                Action::Nothing,
            ),
            Event::Other => (self, Action::Nothing),
        }
    }
}

/// The editor: the view and the cursor.
pub struct Editor {
    should_quit: bool,
    location: Location,
    view: View,
}

impl vstd::view::View for Editor {
    type V = EditorState;

    closed spec fn view(&self) -> EditorState {
        EditorState {
            should_quit: self.should_quit,
            x: self.location.x,
            y: self.location.y,
            view: self.view@,
        }
    }
}

impl Editor {
    pub closed spec fn wf(&self) -> bool {
        self.view.wf()
    }

    pub fn new(view: View) -> (r: Editor)
        requires
            view.wf(),
        ensures
            r.wf(),
            r@ == (EditorState { should_quit: false, x: 0, y: 0, view: view@ }),
    {
        Self { should_quit: false, location: Location { x: 0, y: 0 }, view }
    }

    fn move_point(&mut self, key_code: KeyCode, size: Size)
        requires
            old(self).wf(),
            old(self)@.move_ok(key_code),
        ensures
            final(self).wf(),
            final(self)@ == old(self)@.moved(key_code, size),
    {
        let Location { mut x, mut y } = self.location;
        let Size { height, width } = size;
        match key_code {
            KeyCode::Up => {
                y = y.saturating_sub(1);
            },
            KeyCode::Down => {
                y = min(height.saturating_sub(1), y.saturating_add(1));
            },
            KeyCode::Left => {
                x = x.saturating_sub(1);
            },
            KeyCode::Right => {
                if x < self.view.line_len() {
                    x = min(width.saturating_sub(1), x.saturating_add(1));
                }
            },
            KeyCode::PageUp => {
                y = 0;
                self.view.move_line(0);
                if x > self.view.line_len() {
                    x = self.view.line_len();
                }
            },
            KeyCode::PageDown => {
                y = self.view.buffer_len() - 1;
                self.view.move_line(y);
                if x > self.view.line_len() {
                    x = self.view.line_len();
                }
            },
            KeyCode::Home => {
                x = 0;
            },
            KeyCode::End => {
                x = self.view.line_len();
            },
            _ => {},
        }
        self.location = Location { x, y };
    }

    fn follow_line(&mut self, size: Size)
        requires
            old(self).wf(),
        ensures
            final(self).wf(),
            final(self)@ == old(self)@.at_row(old(self)@.y),
    {
        self.view.move_line(self.location.y);
        let line_length = self.view.line_len();
        let ghost s = self@;
        while self.location.x > line_length
            invariant
                self.wf(),
                line_length == s.view.line.len(),
                self@ == (EditorState { x: self@.x, ..s }),
                s.x == old(self)@.x,
                s.view.line == line_or_empty(old(self)@.view.lines, old(self)@.y as int),
                self@.x == s.x || line_length <= self@.x < s.x,
            decreases self.location.x,
        {
            self.move_point(KeyCode::Left, size);
        }
        assert(self@ =~= old(self)@.at_row(old(self)@.y));
    }

    pub fn evaluate_event(&mut self, event: Event, size: Size) -> (a: Action)
        requires
            old(self).wf(),
            old(self)@.event_ok(event, size),
        ensures
            final(self).wf(),
            (final(self)@, a) == old(self)@.after_event(event, size),
    {
        match event {
            Event::Key { code, modifiers } => match (code, modifiers) {
                (KeyCode::Char('q'), Modifiers::Control) => {
                    self.should_quit = true;
                    Action::Nothing
                },
                (KeyCode::Char('s'), Modifiers::Control) => Action::Save,
                (KeyCode::Char('o'), Modifiers::Control) => Action::OpenFile,
                (KeyCode::Char('z'), Modifiers::Control) => {
                    if let Some((x, y)) = self.view.undo() {
                        self.location = Location { x, y };
                    }
                    Action::Nothing
                },
                (KeyCode::Char('y'), Modifiers::Control) => {
                    if let Some((x, y)) = self.view.redo() {
                        self.location = Location { x, y };
                    }
                    Action::Nothing
                },
                (KeyCode::Char(c), Modifiers::Shift) => {
                    self.view.insert_char(c, self.location.x + 1, self.location.y);
                    let mut x = self.location.x;
                    let width = size.width;
                    x = min(width.saturating_sub(1), x.saturating_add(1));
                    self.location.x = x;
                    Action::Nothing
                },
                (KeyCode::Char(c), Modifiers::Plain) => {
                    self.view.insert_char(c, self.location.x + 1, self.location.y);
                    let mut x = self.location.x;
                    let width = size.width;
                    x = min(width.saturating_sub(1), x.saturating_add(1));
                    self.location.x = x;
                    Action::Nothing
                },
                (KeyCode::Enter, Modifiers::Plain) => {
                    self.view.insert_row(self.location.x, self.location.y);
                    self.move_point(KeyCode::Down, size);
                    self.move_point(KeyCode::Home, size);
                    Action::Nothing
                },
                (KeyCode::Backspace, Modifiers::Plain) => {
                    if self.location.x == 0 && !self.view.get_line(self.location.y).is_empty()
                        && self.location.y != 0 {
                        let y = self.location.y;
                        let length = self.view.join_lines(y);
                        let ghost s = self@;
                        while self.location.x < length
                            invariant
                                self.wf(),
                                self@ == (EditorState { x: self@.x, ..s }),
                                self@.x <= length,
                                length <= s.view.line.len(),
                                length == 0 || length < size.width,
                            decreases length - self.location.x,
                        {
                            self.move_point(KeyCode::Right, size);
                        }
                        self.move_point(KeyCode::Up, size);
                    } else if !self.view.get_line(self.location.y).is_empty() && self.location.x
                        != 0 {
                        self.move_point(KeyCode::Left, size);
                        self.view.remove_char(self.location.x, self.location.y);
                    } else if self.location.y != 0 {
                        self.view.remove_line(self.location.y);
                        self.move_point(KeyCode::End, size);
                        self.move_point(KeyCode::Up, size);
                    }
                    Action::Nothing
                },
                (KeyCode::Delete, Modifiers::Plain) => {
                    if self.location.x == self.view.line_len() && self.view.buffer_len()
                        > self.location.y + 1 {
                        self.view.del_line(self.location.y);
                    } else if self.location.x < self.view.line_len() {
                        self.view.remove_char(self.location.x, self.location.y);
                    }
                    Action::Nothing
                },
                (KeyCode::Left, _)
                | (KeyCode::Right, _)
                | (KeyCode::PageDown, _)
                | (KeyCode::PageUp, _)
                | (KeyCode::End, _)
                | (KeyCode::Home, _) => {
                    self.move_point(code, size);
                    Action::Nothing
                },
                (KeyCode::Up, _) | (KeyCode::Down, _) => {
                    if code == KeyCode::Down {
                        if self.location.y + 1 < self.view.buffer_len() {
                            self.move_point(code, size);
                            self.follow_line(size);
                        }
                    } else {
                        self.move_point(code, size);
                        self.follow_line(size);
                    }
                    Action::Nothing
                },
                _ => Action::Nothing,
            },
            Event::Resize { width, height } => {
                let height = height as usize;
                let width = width as usize;
                self.view.resize(Size { height, width });
                Action::Nothing
            },
            Event::Other => Action::Nothing,
        }
    }

    pub fn should_quit(&self) -> (r: bool)
        ensures
            r == self@.should_quit,
    {
        self.should_quit
    }

    /// The cursor, as column and row.
    pub fn location(&self) -> (r: (usize, usize))
        ensures
            r == (self@.x, self@.y),
    {
        (self.location.x, self.location.y)
    }

    pub fn text_view(&self) -> (r: &View)
        ensures
            r@ == self@.view,
    {
        &self.view
    }

    /// Whether `render` may be called.
    pub fn can_render(&self) -> (r: bool)
        ensures
            r == self@.view.render_ok(),
    {
        self.view.can_render()
    }

    /// The rows to draw, when a redraw is due.
    pub fn render(&mut self) -> (r: Option<Vec<String>>)
        requires
            old(self).wf(),
            old(self)@.view.render_ok(),
        ensures
            final(self).wf(),
            final(self)@ == (EditorState { view: final(self)@.view, ..old(self)@ }),
            rendered(old(self)@.view, final(self)@.view, r),
    {
        self.view.render()
    }

    /// Loads a file whose text is `contents` (`None` where it could not be
    /// read) and, on success, puts the cursor at the start.
    pub fn open_file(&mut self, file_name: &str, contents: Option<&str>) -> (r: Result<(), String>)
        requires
            old(self).wf(),
        ensures
            final(self).wf(),
            match contents {
                Some(text) => r is Ok && final(self)@ == (EditorState {
                    x: 0,
                    y: 0,
                    view: ViewState {
                        lines: text_lines(text@),
                        filename: Some(file_name@),
                        file_name: Some(file_name@),
                        needs_redraw: true,
                        ..old(self)@.view
                    },
                    ..old(self)@
                }),
                None => r matches Err(e) && e@ == "Failed to load file: "@ + file_name@
                    && final(self)@ == old(self)@,
            },
    {
        match self.view.load(file_name, contents) {
            Ok(()) => {
                self.location = Location { x: 0, y: 0 };
                Ok(())
            },
            Err(err) => Err(err),
        }
    }

    /// Loads a file whose text is `contents` (`None` where it could not be
    /// read); the cursor stays where it is.
    pub fn load_file(&mut self, file_name: &str, contents: Option<&str>) -> (r: Result<(), String>)
        requires
            old(self).wf(),
        ensures
            final(self).wf(),
            match contents {
                Some(text) => r is Ok && final(self)@ == (EditorState {
                    view: ViewState {
                        lines: text_lines(text@),
                        filename: Some(file_name@),
                        file_name: Some(file_name@),
                        needs_redraw: true,
                        ..old(self)@.view
                    },
                    ..old(self)@
                }),
                None => r matches Err(e) && e@ == "Failed to load file: "@ + file_name@
                    && final(self)@ == old(self)@,
            },
    {
        self.view.load(file_name, contents)
    }

    fn can_backspace(&self, size: Size) -> (r: bool)
        ensures
            r == self@.backspace_ok(size),
    {
        let x = self.location.x;
        let y = self.location.y;
        let row = self.view.row_len(y);
        if x == 0 && row != 0 && y != 0 {
            if self.view.can_join_lines(y) {
                let front = self.view.row_len(y - 1);
                front == 0 || front < size.width
            } else {
                false
            }
        } else if row != 0 && x != 0 {
            self.view.can_remove_char(x - 1, y)
        } else if y != 0 {
            self.view.can_remove_line(y)
        } else {
            true
        }
    }

    fn can_delete(&self) -> (r: bool)
        ensures
            r == self@.delete_ok(),
    {
        let x = self.location.x;
        let y = self.location.y;
        let n = self.view.line_len();
        let buffer = self.view.buffer();
        let rows = buffer.lines.len();
        proof {
            assert(buffer.lines.len() == buffer@.len());
        }
        if x == n && y == usize::MAX {
            false
        } else if x == n && rows > y + 1 {
            self.view.can_del_line(y)
        } else if x < n {
            self.view.can_remove_char(x, y)
        } else {
            true
        }
    }

    /// Whether `evaluate_event(event, size)` may be called.
    pub fn can_handle(&self, event: Event, size: Size) -> (r: bool)
        ensures
            r == self@.event_ok(event, size),
    {
        match event {
            Event::Key { code, modifiers } => match code {
                KeyCode::Char(c) => match modifiers {
                    Modifiers::Control => {
                        if c == 'z' {
                            self.view.can_undo()
                        } else if c == 'y' {
                            self.view.can_redo()
                        } else {
                            true
                        }
                    },
                    Modifiers::Shift | Modifiers::Plain => self.location.x < usize::MAX
                        && self.view.can_insert_char(self.location.x + 1, self.location.y),
                    Modifiers::Other => true,
                },
                KeyCode::Enter => modifiers != Modifiers::Plain || self.view.can_insert_row(
                    self.location.x,
                    self.location.y,
                ),
                KeyCode::Backspace => modifiers != Modifiers::Plain || self.can_backspace(size),
                KeyCode::Delete => modifiers != Modifiers::Plain || self.can_delete(),
                KeyCode::PageDown => {
                    let buffer = self.view.buffer();
                    proof {
                        assert(buffer.lines.len() == buffer@.len());
                    }
                    buffer.lines.len() > 0
                },
                KeyCode::Down => self.location.y < usize::MAX,
                _ => true,
            },
            _ => true,
        }
    }
}

/// How each key moves the cursor: right moves one column within the line
/// (stopping at the last screen column) and never past the line's end; left
/// and up move one back, stopping at zero; down moves one row on, stopping at
/// the last screen row; home and end go to the ends of the line; page up and
/// page down go to the first and last row, which becomes the line being
/// edited, and keep the column within it. Only page up and page down change
/// the view, and only its line being edited.
pub proof fn lemma_moves(s: EditorState, size: Size)
    requires
        s.view.line.len() <= usize::MAX,
        s.view.lines.len() <= usize::MAX,
        forall|i: int| 0 <= i < s.view.lines.len() ==> #[trigger] s.view.lines[i].len() <= usize::MAX,
    ensures
        ({
            let m = s.moved(KeyCode::Right, size);
            &&& m.y == s.y && m.view == s.view && m.should_quit == s.should_quit
            &&& s.x < s.view.line.len() ==> {
                &&& m.x <= s.x + 1
                &&& m.x <= s.view.line.len()
                &&& m.x == s.x + 1 || m.x == size.width.saturating_sub(1)
                &&& s.x + 1 < size.width ==> m.x == s.x + 1
            }
            &&& s.x >= s.view.line.len() ==> m.x == s.x
        }),
        ({
            let m = s.moved(KeyCode::Left, size);
            &&& m.y == s.y && m.view == s.view
            &&& s.x > 0 ==> m.x + 1 == s.x
            &&& s.x == 0 ==> m.x == 0
        }),
        ({
            let m = s.moved(KeyCode::Up, size);
            &&& m.x == s.x && m.view == s.view
            &&& s.y > 0 ==> m.y + 1 == s.y
            &&& s.y == 0 ==> m.y == 0
        }),
        ({
            let m = s.moved(KeyCode::Down, size);
            &&& m.x == s.x && m.view == s.view
            &&& m.y <= s.y + 1
            &&& m.y == s.y + 1 || m.y == size.height.saturating_sub(1)
            &&& s.y + 1 < size.height ==> m.y == s.y + 1
        }),
        ({
            let m = s.moved(KeyCode::Home, size);
            m.x == 0 && m.y == s.y && m.view == s.view
        }),
        ({
            let m = s.moved(KeyCode::End, size);
            m.x == s.view.line.len() && m.y == s.y && m.view == s.view
        }),
        ({
            let m = s.moved(KeyCode::PageUp, size);
            let row = line_or_empty(s.view.lines, 0);
            &&& m.y == 0
            &&& m.view.line == row
            &&& m.view.lines == s.view.lines && m.view.history == s.view.history
            &&& m.x <= s.x && m.x <= row.len()
            &&& m.x == s.x || m.x == row.len()
        }),
        s.view.lines.len() > 0 ==> {
            let m = s.moved(KeyCode::PageDown, size);
            let row = s.view.lines.last();
            &&& m.y + 1 == s.view.lines.len()
            &&& m.view.line == row
            &&& m.view.lines == s.view.lines && m.view.history == s.view.history
            &&& m.x <= s.x && m.x <= row.len()
            &&& m.x == s.x || m.x == row.len()
        },
{
}

/// What the keys do. Control-q asks to quit, control-s and control-o leave
/// saving and opening to be done, and none of them edits; a typed character
/// goes in before the cursor, which moves one column on (stopping at the
/// last screen column); enter splits the line at the cursor and goes to the
/// start of the next row; backspace at the start of a non-empty row joins it
/// to the row above, the cursor going to the joint, inside a non-empty row it
/// removes the character before the cursor, and on an empty row it removes
/// the row, the cursor going to the end of the row above; delete at the end
/// of the line pulls the next row up, and inside it removes the character at
/// the cursor; a resize only changes the size.
pub proof fn lemma_keys(s: EditorState, size: Size, c: char, w: u16, h: u16)
    requires
        s.view.line.len() <= usize::MAX,
        forall|i: int| 0 <= i < s.view.lines.len() ==> #[trigger] s.view.lines[i].len() <= usize::MAX,
    ensures
        s.after_key(KeyCode::Char('q'), Modifiers::Control, size) == (
            EditorState { should_quit: true, ..s },
            Action::Nothing,
        ),
        s.after_key(KeyCode::Char('s'), Modifiers::Control, size) == (s, Action::Save),
        s.after_key(KeyCode::Char('o'), Modifiers::Control, size) == (s, Action::OpenFile),
        ({
            let (r, a) = s.after_key(KeyCode::Char('z'), Modifiers::Control, size);
            let (v, at) = s.view.after_undo();
            &&& a == Action::Nothing && r.view == v && r.should_quit == s.should_quit
            &&& at matches Some((x, y)) ==> r.x == x && r.y == y
            &&& at is None ==> r.x == s.x && r.y == s.y
        }),
        ({
            let (r, a) = s.after_key(KeyCode::Char('y'), Modifiers::Control, size);
            let (v, at) = s.view.after_redo();
            &&& a == Action::Nothing && r.view == v && r.should_quit == s.should_quit
            &&& at matches Some((x, y)) ==> r.x == x && r.y == y
            &&& at is None ==> r.x == s.x && r.y == s.y
        }),
        ({
            let (r, a) = s.after_key(KeyCode::Char(c), Modifiers::Plain, size);
            let (r2, a2) = s.after_key(KeyCode::Char(c), Modifiers::Shift, size);
            &&& a == Action::Nothing && r2 == r && a2 == a
            &&& s.x < usize::MAX ==> r.view == s.view.after_insert_char(c, (s.x + 1) as usize, s.y)
            &&& r.y == s.y && r.should_quit == s.should_quit
            &&& r.x <= s.x + 1
            &&& r.x == s.x + 1 || r.x == size.width.saturating_sub(1)
            &&& s.x + 1 < size.width ==> r.x == s.x + 1
        }),
        ({
            let (r, a) = s.after_key(KeyCode::Enter, Modifiers::Plain, size);
            &&& a == Action::Nothing
            &&& r.view == s.view.after_insert_row(s.x, s.y)
            &&& r.x == 0
            &&& r.y <= s.y + 1
            &&& r.y == s.y + 1 || r.y == size.height.saturating_sub(1)
        }),
        ({
            let (r, a) = s.after_key(KeyCode::Backspace, Modifiers::Plain, size);
            let row = line_or_empty(s.view.lines, s.y as int);
            &&& a == Action::Nothing
            &&& s.x == 0 && row.len() > 0 && s.y > 0 ==> {
                &&& r.view == s.view.after_join_lines(s.y)
                &&& r.x == s.view.lines[s.y - 1].len()
                &&& r.y + 1 == s.y
            }
            &&& row.len() > 0 && s.x > 0 ==> {
                &&& r.view == s.view.after_remove_char((s.x - 1) as usize, s.y)
                &&& r.x + 1 == s.x
                &&& r.y == s.y
            }
            &&& row.len() == 0 && 0 < s.y < s.view.lines.len() ==> {
                &&& r.view == s.view.after_remove_line(s.y)
                &&& r.x == s.view.lines[s.y - 1].len()
                &&& r.y + 1 == s.y
            }
            &&& row.len() == 0 && s.y == 0 ==> r == s
        }),
        ({
            let (r, a) = s.after_key(KeyCode::Delete, Modifiers::Plain, size);
            &&& a == Action::Nothing
            &&& r.x == s.x && r.y == s.y
            &&& s.x == s.view.line.len() && s.y + 1 < s.view.lines.len() ==> r.view
                == s.view.after_del_line(s.y)
            &&& s.x < s.view.line.len() ==> r.view == s.view.after_remove_char(s.x, s.y)
            &&& s.x > s.view.line.len() ==> r == s
        }),
        ({
            let (r, a) = s.after_key(KeyCode::Up, Modifiers::Plain, size);
            let y = s.y.saturating_sub(1);
            let row = line_or_empty(s.view.lines, y as int);
            &&& a == Action::Nothing
            &&& r.y == y
            &&& r.view == (ViewState { line: row, ..s.view })
            &&& r.x <= s.x && r.x <= row.len()
            &&& r.x == s.x || r.x == row.len()
        }),
        ({
            let (r, a) = s.after_key(KeyCode::Down, Modifiers::Plain, size);
            &&& a == Action::Nothing
            &&& s.y + 1 >= s.view.lines.len() ==> r == s
            &&& s.y + 1 < s.view.lines.len() ==> {
                let row = line_or_empty(s.view.lines, r.y as int);
                &&& r.y <= s.y + 1
                &&& r.y == s.y + 1 || r.y == size.height.saturating_sub(1)
                &&& r.view == (ViewState { line: row, ..s.view })
                &&& r.x <= s.x && r.x <= row.len()
                &&& r.x == s.x || r.x == row.len()
            }
        }),
        s.after_event(Event::Resize { width: w, height: h }, size) == (
                EditorState {
                    view: ViewState {
                        size: Size { height: h as usize, width: w as usize },
                        needs_redraw: true,
                        ..s.view
                    },
                    ..s
                },
                Action::Nothing,
            ),
{
}

/// Typing a character at the cursor in a row that holds the line being
/// edited, then pressing control-z, gives back the text and the line, and
/// puts the cursor back where it was.
pub proof fn lemma_type_then_undo(s: EditorState, c: char, size: Size)
    requires
        !s.view.undoing,
        s.x <= s.view.line.len(),
        s.x < usize::MAX,
        s.y < s.view.lines.len(),
        s.view.lines[s.y as int] == s.view.line,
    ensures
        s.key_ok(KeyCode::Char(c), Modifiers::Plain, size),
        s.after_key(KeyCode::Char(c), Modifiers::Plain, size).0.key_ok(
            KeyCode::Char('z'),
            Modifiers::Control,
            size,
        ),
        s.after_key(KeyCode::Char(c), Modifiers::Plain, size).0.after_key(
            KeyCode::Char('z'),
            Modifiers::Control,
            size,
        ) == (
            EditorState {
                view: ViewState {
                    history: History {
                        changes: s.view.history.changes,
                        redos: seq![
                            change(
                                ChangeType::Character,
                                (s.x + 1) as usize,
                                s.y,
                                Some(c),
                                None,
                                None,
                            ),
                        ],
                    },
                    needs_redraw: true,
                    ..s.view
                },
                ..s
            },
            Action::Nothing,
        ),
{
    lemma_insert_char_then_undo(s.view, c, (s.x + 1) as usize, s.y);
}

} // verus!

use vstd::prelude::*;
use vstd::view::View as _;

use crate::buffer::{line_or_empty, refreshed, Buffer};
use crate::terminal::Size;
use crate::text::{lemma_ascii_len, lemma_encode_concat, string_from_chars, text_lines};
use vstd::utf8::is_ascii_chars;
use vstd::utf8::{encode_utf8, is_char_boundary};
use crate::undoredo::{
    lemma_add_undo_only, lemma_redone_undo_only, lemma_undone_undo_only, Change, ChangeType,
    History, TextChange, UndoRedo, UndoType,
};

verus! {

/// The value of a `View`: the buffer's lines, the text of the line being
/// edited, the undo history and the flags.
#[verifier::ext_equal]
pub struct ViewState {
    pub lines: Seq<Seq<char>>,
    pub line: Seq<char>,
    pub history: History,
    pub undoing: bool,
    pub needs_redraw: bool,
    pub size: Size,
    pub filename: Option<Seq<char>>,
    pub file_name: Option<Seq<char>>,
}

pub open spec fn opt_string(o: Option<String>) -> Option<Seq<char>> {
    match o {
        Some(s) => Some(s@),
        None => None,
    }
}

/// A change as an edit records it.
pub open spec fn change(
    change_type: ChangeType,
    x: usize,
    y: usize,
    c: Option<char>,
    front: Option<Seq<char>>,
    back: Option<Seq<char>>,
) -> Change {
    Change { change_type, x, y, front, back, c, undotype: UndoType::Undo }
}

/// The history after an edit: the change is recorded, and the redo stack
/// emptied, unless an undo is running.
pub open spec fn record(h: History, undoing: bool, c: Change) -> History {
    if undoing {
        h
    } else {
        History { changes: h.changes.push(c), redos: Seq::empty() }
    }
}

/// The history after an edit that records several changes in turn.
pub open spec fn record_all(h: History, undoing: bool, cs: Seq<Change>) -> History {
    if undoing || cs.len() == 0 {
        h
    } else {
        History { changes: h.changes + cs, redos: Seq::empty() }
    }
}

/// The changes that typing `back` at the end of a line of length `base`, in
/// row `y`, records one character after another.
pub open spec fn typed_changes(base: int, back: Seq<char>, y: usize) -> Seq<Change> {
    Seq::new(
        back.len(),
        |i: int| change(ChangeType::Character, (base + i + 1) as usize, y, Some(back[i]), None, None),
    )
}

/// Row `y` can be written as the buffer's first line, or is a line of it.
pub open spec fn row_exists(lines: Seq<Seq<char>>, y: int) -> bool {
    if lines.len() == 0 {
        y == 0
    } else {
        0 <= y < lines.len()
    }
}

/// `refresh_buffer` at row `y` does not fail.
pub open spec fn refresh_ok(lines: Seq<Seq<char>>, y: int) -> bool {
    lines.len() > 0 ==> y < lines.len()
}

impl ViewState {
    pub open spec fn insert_char_ok(self, posx: usize, posy: usize) -> bool {
        &&& self.line.len() == 0 || 1 <= posx <= self.line.len() + 1
        &&& refresh_ok(self.lines, posy as int)
    }

    /// `c` goes in before column `posx - 1` of the line (or is the whole
    /// line where it was empty), and the line is written to row `posy`.
    pub open spec fn after_insert_char(self, c: char, posx: usize, posy: usize) -> ViewState {
        let line = if self.line.len() == 0 {
            seq![c]
        } else {
            self.line.insert(posx - 1, c)
        };
        ViewState {
            line: line,
            lines: refreshed(self.lines, line, posy as int),
            needs_redraw: true,
            history: record(
                self.history,
                self.undoing,
                change(ChangeType::Character, posx, posy, Some(c), None, None),
            ),
            ..self
        }
    }

    pub open spec fn insert_row_ok(self, x: usize, y: usize) -> bool {
        (self.line.len() == 0 || x <= self.line.len()) ==> row_exists(self.lines, y as int)
    }

    /// The line is split at column `x`: the part before it stays in row `y`,
    /// the rest becomes a new row `y + 1` and the line being edited. An empty
    /// line gives two empty rows. Past the end of the line nothing changes.
    pub open spec fn after_insert_row(self, x: usize, y: usize) -> ViewState {
        if self.line.len() != 0 && x <= self.line.len() {
            let front = self.line.take(x as int);
            let back = self.line.skip(x as int);
            ViewState {
                lines: refreshed(self.lines, front, y as int).insert(y + 1, back),
                line: back,
                needs_redraw: true,
                history: record(
                    self.history,
                    self.undoing,
                    change(ChangeType::Enter, x, y, None, Some(front), Some(back)),
                ),
                ..self
            }
        } else if self.line.len() == 0 {
            ViewState {
                lines: refreshed(self.lines, Seq::empty(), y as int).insert(y + 1, Seq::empty()),
                line: Seq::empty(),
                needs_redraw: true,
                history: record(
                    self.history,
                    self.undoing,
                    change(ChangeType::Enter, x, y, None, None, None),
                ),
                ..self
            }
        } else {
            ViewState { needs_redraw: true, ..self }
        }
    }

    pub open spec fn remove_char_ok(self, posx: usize, posy: usize) -> bool {
        &&& posx < self.line.len()
        &&& refresh_ok(self.lines, posy as int)
    }

    /// The character at column `posx` leaves the line, and the line is
    /// written to row `posy`.
    pub open spec fn after_remove_char(self, posx: usize, posy: usize) -> ViewState {
        let line = self.line.remove(posx as int);
        ViewState {
            line: line,
            lines: refreshed(self.lines, line, posy as int),
            needs_redraw: true,
            history: record(
                self.history,
                self.undoing,
                change(ChangeType::Removal, posx, posy, Some(self.line[posx as int]), None, None),
            ),
            ..self
        }
    }

    pub open spec fn remove_line_ok(self, pos: usize) -> bool {
        1 <= pos < self.lines.len()
    }

    /// Row `pos` leaves the buffer and row `pos - 1` becomes the line being
    /// edited.
    pub open spec fn after_remove_line(self, pos: usize) -> ViewState {
        let line = self.lines[pos - 1];
        ViewState {
            line: line,
            lines: self.lines.remove(pos as int),
            needs_redraw: true,
            history: record(
                self.history,
                self.undoing,
                change(ChangeType::Removal, 0, pos, None, Some(line), None),
            ),
            ..self
        }
    }

    pub open spec fn join_lines_ok(self, y: usize) -> bool {
        &&& 1 <= y < self.lines.len()
        &&& self.lines[y - 1].len() + self.line.len() < usize::MAX
    }

    /// The line being edited is appended to row `y - 1`, which takes the
    /// place of rows `y - 1` and `y` and becomes the line being edited.
    pub open spec fn after_join_lines(self, y: usize) -> ViewState {
        let front = self.lines[y - 1];
        let back = self.line;
        let joined = front + back;
        ViewState {
            line: joined,
            lines: self.lines.remove(y as int).update(y - 1, joined),
            needs_redraw: true,
            history: record_all(
                self.history,
                self.undoing,
                seq![change(ChangeType::Removal, 0, y, None, Some(front), None)] + typed_changes(
                    front.len() as int,
                    back,
                    (y - 1) as usize,
                ) + seq![change(ChangeType::Removal, 0, y, None, Some(front), Some(back))],
            ),
            ..self
        }
    }

    pub open spec fn del_line_ok(self, y: usize) -> bool {
        &&& y + 1 < self.lines.len()
        &&& self.line.len() + self.lines[y + 1].len() < usize::MAX
    }

    /// Row `y + 1` is appended to the line being edited, written to row `y`
    /// where row `y + 1` is not empty, and leaves the buffer.
    pub open spec fn after_del_line(self, y: usize) -> ViewState {
        let back = self.lines[y + 1];
        let joined = self.line + back;
        let lines = if back.len() > 0 {
            self.lines.update(y as int, joined)
        } else {
            self.lines
        };
        ViewState {
            line: joined,
            lines: lines.remove(y + 1),
            needs_redraw: true,
            history: record_all(
                self.history,
                self.undoing,
                typed_changes(self.line.len() as int, back, y),
            ),
            ..self
        }
    }
    /// The state in which an undo or a redo makes its edit: the history has
    /// already moved, and recording is switched off.
    pub open spec fn replaying(self, h: History) -> ViewState {
        ViewState { history: h, undoing: true, ..self }
    }

    pub open spec fn undo_ok(self) -> bool {
        let ch = self.history.undo_result();
        let s = self.replaying(self.history.undone());
        match ch.change_type {
            ChangeType::Character => 1 <= ch.x && s.remove_char_ok((ch.x - 1) as usize, ch.y),
            ChangeType::Removal => if ch.c is Some {
                ch.x < usize::MAX && s.insert_char_ok((ch.x + 1) as usize, ch.y)
            } else if ch.front is Some {
                1 <= ch.y && s.insert_row_ok(
                    line_or_empty(s.lines, ch.y - 1).len() as usize,
                    (ch.y - 1) as usize,
                )
            } else {
                true
            },
            ChangeType::Enter => if ch.front is Some && ch.back is Some {
                ch.y < usize::MAX && s.join_lines_ok((ch.y + 1) as usize)
            } else if ch.front is None && ch.back is None {
                ch.y < usize::MAX && s.remove_line_ok((ch.y + 1) as usize)
            } else {
                true
            },
            ChangeType::Nothing => true,
        }
    }

    /// The last change is taken off the history and its opposite edit made
    /// with recording switched off: a typed character is removed, a removed
    /// character typed again, a removed row split off again, a split row
    /// joined or an added empty row removed. Answers the cursor position.
    pub open spec fn after_undo(self) -> (ViewState, Option<(usize, usize)>) {
        let ch = self.history.undo_result();
        let s = self.replaying(self.history.undone());
        match ch.change_type {
            ChangeType::Character => (
                ViewState { undoing: false, ..s.after_remove_char((ch.x - 1) as usize, ch.y) },
                Some(((ch.x - 1) as usize, ch.y)),
            ),
            ChangeType::Removal => if ch.c is Some {
                (
                    ViewState {
                        undoing: false,
                        ..s.after_insert_char(ch.c.unwrap(), (ch.x + 1) as usize, ch.y)
                    },
                    Some(((ch.x + 1) as usize, ch.y)),
                )
            } else if ch.front is Some {
                (
                    ViewState {
                        undoing: false,
                        ..s.after_insert_row(
                            line_or_empty(s.lines, ch.y - 1).len() as usize,
                            (ch.y - 1) as usize,
                        )
                    },
                    Some((ch.x, ch.y)),
                )
            } else {
                (ViewState { undoing: false, ..s }, None)
            },
            ChangeType::Enter => {
                let s2 = if ch.front is Some && ch.back is Some {
                    s.after_join_lines((ch.y + 1) as usize)
                } else if ch.front is None && ch.back is None {
                    s.after_remove_line((ch.y + 1) as usize)
                } else {
                    s
                };
                (ViewState { undoing: false, ..s2 }, Some((ch.x, ch.y)))
            },
            ChangeType::Nothing => (ViewState { undoing: false, ..s }, None),
        }
    }

    pub open spec fn redo_ok(self) -> bool {
        self.history.redos.len() > 0 ==> {
            let ch = self.history.redos.last();
            let s = self.replaying(self.history.redone());
            match ch.change_type {
                ChangeType::Character => ch.c is Some ==> s.insert_char_ok(ch.x, ch.y),
                ChangeType::Removal => if ch.c is Some {
                    s.remove_char_ok(ch.x, ch.y)
                } else if ch.front is Some && ch.back is None {
                    s.remove_line_ok(ch.y)
                } else if ch.front is Some && ch.back is Some {
                    ch.y < usize::MAX && s.join_lines_ok((ch.y + 1) as usize)
                } else {
                    true
                },
                ChangeType::Enter => (ch.front is Some && ch.back is Some) || (ch.front is None
                    && ch.back is None) ==> s.insert_row_ok(ch.x, ch.y),
                ChangeType::Nothing => true,
            }
        }
    }

    /// The last undone change goes back onto the history and its edit is made
    /// again with recording switched off; recording is switched back on only
    /// after a typed character. Answers the cursor position.
    pub open spec fn after_redo(self) -> (ViewState, Option<(usize, usize)>) {
        if self.history.redos.len() == 0 {
            (self, None)
        } else {
            let ch = self.history.redos.last();
            let s = self.replaying(self.history.redone());
            match ch.change_type {
                ChangeType::Character => if ch.c is Some {
                    (
                        ViewState { undoing: false, ..s.after_insert_char(ch.c.unwrap(), ch.x, ch.y) },
                        Some((ch.x, ch.y)),
                    )
                } else {
                    (s, None)
                },
                ChangeType::Removal => if ch.c is Some {
                    (s.after_remove_char(ch.x, ch.y), Some((ch.x, ch.y)))
                } else if ch.front is Some && ch.back is None {
                    (s.after_remove_line(ch.y), Some((ch.x, (ch.y - 1) as usize)))
                } else if ch.front is Some && ch.back is Some {
                    (s.after_join_lines((ch.y + 1) as usize), Some((ch.x, ch.y)))
                } else {
                    (s, None)
                },
                ChangeType::Enter => if (ch.front is Some && ch.back is Some) || (ch.front is None
                    && ch.back is None) {
                    (s.after_insert_row(ch.x, ch.y), Some((ch.x, ch.y)))
                } else {
                    (s, Some((ch.x, ch.y)))
                },
                ChangeType::Nothing => (s, None),
            }
        }
    }
}

/// The greeting shown on an empty buffer.
pub open spec fn welcome_text() -> Seq<char> {
    "seppo"@ + " o(〃＾▽＾〃)o tekstieditowi -- vewsio "@ + "0.1.0"@
}

pub open spec fn spaces(n: int) -> Seq<char> {
    Seq::new(n as nat, |i: int| ' ')
}

/// The greeting centred in a row `width` bytes wide, after a `~`; a lone
/// `~` where it does not fit, a space in a row of no width.
pub open spec fn welcome_row(width: usize) -> Seq<char> {
    let len = encode_utf8(welcome_text()).len();
    if width == 0 {
        " "@
    } else if width <= len {
        "~"@
    } else {
        "~"@ + spaces((width - len - 1) / 2) + welcome_text()
    }
}

/// Row `i` of a screen `height` rows high and `width` bytes wide: the
/// buffer's line `i`, cut to its first `width` bytes; the greeting a third of
/// the way down an empty buffer; `~` below the text.
pub open spec fn is_row(lines: Seq<Seq<char>>, i: int, height: usize, width: usize, row: Seq<char>) -> bool {
    if i < lines.len() {
        let bytes = encode_utf8(lines[i]);
        if bytes.len() >= width {
            encode_utf8(row) == bytes.take(width as int)
        } else {
            row == lines[i]
        }
    } else if i == height / 3 && lines.len() == 0 {
        row == welcome_row(width)
    } else {
        row == "~"@
    }
}

/// What `render` leaves and answers: nothing where no redraw is due or the
/// screen has no room; otherwise every row of the screen, and no redraw due.
pub open spec fn rendered(before: ViewState, after: ViewState, r: Option<Vec<String>>) -> bool {
    match r {
        None => !before.draws() && after == before,
        Some(rows) => {
            &&& before.draws()
            &&& after == (ViewState { needs_redraw: false, ..before })
            &&& rows@.len() == before.size.height
            &&& forall|i: int|
                0 <= i < rows@.len() ==> is_row(
                    before.lines,
                    i,
                    before.size.height,
                    before.size.width,
                    #[trigger] rows@[i]@,
                )
        },
    }
}

impl ViewState {
    /// A redraw is due and the screen has room.
    pub open spec fn draws(self) -> bool {
        self.needs_redraw && self.size.height > 0 && self.size.width > 0
    }

    /// Each line that is drawn and is at least as long as a row can be cut
    /// at the row's width without splitting a character.
    pub open spec fn render_ok(self) -> bool {
        self.draws() ==> forall|i: int|
            0 <= i < self.size.height && 0 <= i < self.lines.len() && encode_utf8(
                #[trigger] self.lines[i],
            ).len() >= self.size.width ==> is_char_boundary(
                encode_utf8(self.lines[i]),
                self.size.width as int,
            )
    }
}

/// The part of the editor that holds the text: the buffer, the line being
/// edited and the undo history.
pub struct View {
    buffer: Buffer,
    filename: Option<String>,
    needs_redraw: bool,
    size: Size,
    line: Vec<char>,
    undoredo: UndoRedo,
    undoing: bool,
    redoing: bool,
}

impl vstd::view::View for View {
    type V = ViewState;

    closed spec fn view(&self) -> ViewState {
        ViewState {
            lines: self.buffer@,
            line: self.line@,
            history: self.undoredo@,
            undoing: self.undoing,
            needs_redraw: self.needs_redraw,
            size: self.size,
            filename: opt_string(self.filename),
            file_name: opt_string(self.buffer.file_name),
        }
    }
}

impl View {
    /// Nothing is ever redone with recording switched on, so the history
    /// holds no change recorded while redoing.
    pub closed spec fn wf(&self) -> bool {
        &&& !self.redoing
        &&& self.undoredo@.undo_only()
    }

    pub fn new(size: Size) -> (r: View)
        ensures
            r.wf(),
            r@ == (ViewState {
                lines: Seq::empty(),
                line: Seq::empty(),
                history: History::empty(),
                undoing: false,
                needs_redraw: true,
                size,
                filename: None,
                file_name: None,
            }),
    {
        let r = View {
            buffer: Buffer { lines: Vec::new(), file_name: None },
            filename: None,
            needs_redraw: true,
            size: size,
            line: Vec::new(),
            undoredo: UndoRedo::default(),
            undoing: false,
            redoing: false,
        };
        assert(r@.lines =~= Seq::<Seq<char>>::empty());
        r
    }

    pub fn resize(&mut self, to: Size)
        requires
            old(self).wf(),
        ensures
            final(self).wf(),
            final(self)@ == (ViewState { size: to, needs_redraw: true, ..old(self)@ }),
    {
        self.size = to;
        self.needs_redraw = true;
    }

    pub fn insert_char(&mut self, c: char, posx: usize, posy: usize)
        requires
            old(self).wf(),
            old(self)@.insert_char_ok(posx, posy),
        ensures
            final(self).wf(),
            final(self)@ == old(self)@.after_insert_char(c, posx, posy),
    {
        if self.line.is_empty() {
            self.line.push(c);
        } else {
            self.line.insert(posx - 1, c);
            self.needs_redraw = true;
        }
        self.buffer.refresh_buffer(string_from_chars(&self.line), posy);
        self.needs_redraw = true;
        if !self.undoing {
            let ch = TextChange::new(ChangeType::Character, posx, posy, Some(c), None, None);
            proof {
                lemma_add_undo_only(self.undoredo@, ch@);
            }
            self.undoredo.add_change(ch);
        }
        if self.redoing {
            self.undoredo.add_change(
                TextChange::new_redo(ChangeType::Character, posx, posy, Some(c), None, None),
            );
        }
        assert(self@.line =~= old(self)@.after_insert_char(c, posx, posy).line);
        assert(self@.lines =~= old(self)@.after_insert_char(c, posx, posy).lines);
        assert(self@.history =~= old(self)@.after_insert_char(c, posx, posy).history);
        assert(self@ =~= old(self)@.after_insert_char(c, posx, posy));
    }

    pub fn insert_row(&mut self, x: usize, y: usize)
        requires
            old(self).wf(),
            old(self)@.insert_row_ok(x, y),
        ensures
            final(self).wf(),
            final(self)@ == old(self)@.after_insert_row(x, y),
    {
        let new_row = String::new();
        assert(self.buffer.lines.len() == self.buffer@.len());
        if self.line_len() >= x && (self.line_len() != 0) {
            let back = self.line.split_off(x);
            let front = self.line.clone();
            assert(front@ =~= self.line@);
            self.line = front.clone();
            assert(self.line@ =~= front@);
            self.buffer.refresh_buffer(string_from_chars(&self.line), y);
            self.line = back.clone();
            assert(self.line@ =~= back@);
            assert(self.buffer.lines.len() == self.buffer@.len());
            self.buffer.insert(string_from_chars(&back), y + 1);
            self.buffer.refresh_buffer(string_from_chars(&self.line), y + 1);
            if !self.undoing {
                let ch = TextChange::new(ChangeType::Enter, x, y, None, Some(front.clone()), Some(back.clone()));
                proof {
                    lemma_add_undo_only(self.undoredo@, ch@);
                }
                self.undoredo.add_change(ch);
            }
            if self.redoing {
                self.undoredo.add_change(
                    TextChange::new_redo(ChangeType::Enter, x, y, None, Some(front), Some(back)),
                );
            }
        } else if self.line_len() == 0 {
            self.buffer.refresh_buffer(String::new(), y);
            assert(self.buffer.lines.len() == self.buffer@.len());
            self.buffer.insert(new_row, y + 1);
            self.line = Vec::new();
            self.buffer.refresh_buffer(String::new(), y + 1);
            if !self.undoing {
                let ch = TextChange::new(ChangeType::Enter, x, y, None, None, None);
                proof {
                    lemma_add_undo_only(self.undoredo@, ch@);
                }
                self.undoredo.add_change(ch);
            }
            if self.redoing {
                self.undoredo.add_change(TextChange::new_redo(ChangeType::Enter, x, y, None, None, None));
            }
        }
        self.needs_redraw = true;
        assert(self@ =~= old(self)@.after_insert_row(x, y));
    }

    pub fn remove_char(&mut self, posx: usize, posy: usize)
        requires
            old(self).wf(),
            old(self)@.remove_char_ok(posx, posy),
        ensures
            final(self).wf(),
            final(self)@ == old(self)@.after_remove_char(posx, posy),
    {
        let c = self.line.remove(posx);
        self.needs_redraw = true;
        self.buffer.refresh_buffer(string_from_chars(&self.line), posy);
        if !self.undoing {
            let ch = TextChange::new(ChangeType::Removal, posx, posy, Some(c), None, None);
            proof {
                lemma_add_undo_only(self.undoredo@, ch@);
            }
            self.undoredo.add_change(ch);
        }
        if self.redoing {
            self.undoredo.add_change(
                TextChange::new_redo(ChangeType::Removal, posx, posy, Some(c), None, None),
            );
        }
        assert(self@ =~= old(self)@.after_remove_char(posx, posy));
    }

    pub fn remove_line(&mut self, pos: usize)
        requires
            old(self).wf(),
            old(self)@.remove_line_ok(pos),
        ensures
            final(self).wf(),
            final(self)@ == old(self)@.after_remove_line(pos),
    {
        self.line = self.buffer.get_line(pos - 1);
        self.buffer.lines.remove(pos);
        self.buffer.refresh_buffer(string_from_chars(&self.line), pos - 1);
        if !self.undoing {
            let ch = TextChange::new(ChangeType::Removal, 0, pos, None, Some(self.line.clone()), None);
            proof {
                lemma_add_undo_only(self.undoredo@, ch@);
            }
            self.undoredo.add_change(ch);
        }
        if self.redoing {
            self.undoredo.add_change(
                TextChange::new(ChangeType::Removal, 0, pos, None, Some(self.line.clone()), None),
            );
        }
        self.needs_redraw = true;
        assert(self@ =~= old(self)@.after_remove_line(pos));
    }

    pub fn join_lines(&mut self, y: usize) -> (r: usize)
        requires
            old(self).wf(),
            old(self)@.join_lines_ok(y),
        ensures
            final(self).wf(),
            final(self)@ == old(self)@.after_join_lines(y),
            r == old(self)@.lines[y - 1].len(),
    {
        let back = self.line.clone();
        assert(back@ =~= old(self)@.line);
        let front = self.buffer.get_line(y - 1).clone();
        assert(front@ =~= old(self)@.lines[y - 1]);
        self.remove_line(y);
        let length = self.line_len();
        let ghost s0 = self@;
        let ghost base = front@.len() as int;
        assert(s0.lines.update(y - 1, front@ + back@.take(0)) =~= s0.lines);
        assert(self@.line =~= front@ + back@.take(0));
        assert(typed_changes(base, back@.take(0), (y - 1) as usize) =~= Seq::<Change>::empty());
        for i in 0..back.len()
            invariant
                self.wf(),
                back@ == old(self)@.line,
                front@ == old(self)@.lines[y - 1],
                old(self)@.join_lines_ok(y),
                base == front@.len(),
                s0 == old(self)@.after_remove_line(y),
                self@ == (ViewState {
                    line: front@ + back@.take(i as int),
                    lines: s0.lines.update(y - 1, front@ + back@.take(i as int)),
                    history: record_all(
                        s0.history,
                        s0.undoing,
                        typed_changes(base, back@.take(i as int), (y - 1) as usize),
                    ),
                    needs_redraw: true,
                    ..s0
                }),
        {
            let n = self.line_len();
            let ghost before = self@;
            self.insert_char(back[i], n + 1, y - 1);
            assert(self@.line =~= front@ + back@.take(i + 1));
            assert(self@.lines =~= s0.lines.update(y - 1, front@ + back@.take(i + 1)));
            assert(typed_changes(base, back@.take(i + 1), (y - 1) as usize) =~= typed_changes(
                base,
                back@.take(i as int),
                (y - 1) as usize,
            ).push(change(ChangeType::Character, (n + 1) as usize, (y - 1) as usize, Some(back@[i as int]), None, None)));
            assert(self@.history =~= record_all(
                s0.history,
                s0.undoing,
                typed_changes(base, back@.take(i + 1), (y - 1) as usize),
            ));
        }
        assert(back@.take(back@.len() as int) =~= back@);
        self.buffer.refresh_buffer(string_from_chars(&self.line), y - 1);
        self.needs_redraw = true;
        if !self.undoing {
            let ch = TextChange::new(ChangeType::Removal, 0, y, None, Some(front.clone()), Some(back.clone()));
            proof {
                lemma_add_undo_only(self.undoredo@, ch@);
            }
            self.undoredo.add_change(ch);
        }
        if self.redoing {
            self.undoredo.add_change(
                TextChange::new_redo(ChangeType::Removal, 0, y, None, Some(front), Some(back)),
            );
        }
        assert(self@.lines =~= old(self)@.after_join_lines(y).lines);
        assert(self@.history.changes =~= old(self)@.after_join_lines(y).history.changes);
        assert(self@ =~= old(self)@.after_join_lines(y));
        length
    }

    pub fn del_line(&mut self, y: usize)
        requires
            old(self).wf(),
            old(self)@.del_line_ok(y),
        ensures
            final(self).wf(),
            final(self)@ == old(self)@.after_del_line(y),
    {
        assert(self.buffer.lines.len() == self.buffer@.len());
        let back = self.get_line(y + 1);
        let ghost s = self@;
        let ghost base = s.line.len() as int;
        assert(self@.line =~= s.line + back@.take(0));
        assert(typed_changes(base, back@.take(0), y) =~= Seq::<Change>::empty());
        for i in 0..back.len()
            invariant
                self.wf(),
                s == old(self)@,
                s.del_line_ok(y),
                back@ == s.lines[y + 1],
                base == s.line.len(),
                self@ == (ViewState {
                    line: s.line + back@.take(i as int),
                    lines: if i > 0 {
                        s.lines.update(y as int, s.line + back@.take(i as int))
                    } else {
                        s.lines
                    },
                    history: record_all(s.history, s.undoing, typed_changes(base, back@.take(i as int), y)),
                    needs_redraw: if i > 0 {
                        true
                    } else {
                        s.needs_redraw
                    },
                    ..s
                }),
        {
            let n = self.line_len();
            self.insert_char(back[i], n + 1, y);
            assert(self@.line =~= s.line + back@.take(i + 1));
            assert(self@.lines =~= s.lines.update(y as int, s.line + back@.take(i + 1)));
            assert(typed_changes(base, back@.take(i + 1), y) =~= typed_changes(
                base,
                back@.take(i as int),
                y,
            ).push(change(ChangeType::Character, (n + 1) as usize, y, Some(back@[i as int]), None, None)));
            assert(self@.history =~= record_all(s.history, s.undoing, typed_changes(base, back@.take(i + 1), y)));
        }
        assert(back@.take(back@.len() as int) =~= back@);
        assert(self.buffer.lines.len() == self.buffer@.len());
        self.buffer.lines.remove(y + 1);
        self.needs_redraw = true;
        assert(self@.lines =~= old(self)@.after_del_line(y).lines);
        assert(self@ =~= old(self)@.after_del_line(y));
    }

    pub fn undo(&mut self) -> (r: Option<(usize, usize)>)
        requires
            old(self).wf(),
            old(self)@.undo_ok(),
        ensures
            final(self).wf(),
            (final(self)@, r) == old(self)@.after_undo(),
    {
        let TextChange { c, x, y, change_type, front, back, .. } = self.undoredo.undo();
        proof {
            lemma_undone_undo_only(old(self)@.history);
        }
        self.undoing = true;
        assert(self@ =~= old(self)@.replaying(old(self)@.history.undone()));
        match change_type {
            ChangeType::Character => {
                self.remove_char(x - 1, y);
                self.undoing = false;
                Some((x - 1, y))
            },
            ChangeType::Removal => {
                if c.is_some() {
                    self.insert_char(c?, x + 1, y);
                    self.undoing = false;
                    Some((x + 1, y))
                } else if front.is_some() && back.is_none() {
                    let loc = self.get_line(y - 1).len();
                    self.insert_row(loc, y - 1);
                    self.undoing = false;
                    Some((x, y))
                } else if front.is_some() && back.is_some() {
                    let loc = self.get_line(y - 1).len();
                    self.insert_row(loc, y - 1);
                    self.undoing = false;
                    Some((x, y))
                } else {
                    self.undoing = false;
                    None
                }
            },
            ChangeType::Enter => {
                if front.is_some() && back.is_some() {
                    self.join_lines(y + 1);
                } else if front.is_none() && back.is_none() {
                    self.remove_line(y + 1);
                }
                self.undoing = false;
                Some((x, y))
            },
            ChangeType::Nothing => {
                self.undoing = false;
                None
            },
        }
    }

    pub fn redo(&mut self) -> (r: Option<(usize, usize)>)
        requires
            old(self).wf(),
            old(self)@.redo_ok(),
        ensures
            final(self).wf(),
            (final(self)@, r) == old(self)@.after_redo(),
    {
        if !self.undoredo.redos_is_empty() {
            let TextChange { c, x, y, change_type, front, back, .. } = self.undoredo.redo();
            proof {
                lemma_redone_undo_only(old(self)@.history);
            }
            self.undoing = true;
            assert(self@ =~= old(self)@.replaying(old(self)@.history.redone()));
            match change_type {
                ChangeType::Character => {
                    self.insert_char(c?, x, y);
                    self.undoing = false;
                    Some((x, y))
                },
                ChangeType::Removal => {
                    if c.is_some() {
                        self.remove_char(x, y);
                        Some((x, y))
                    } else if front.is_some() && back.is_none() {
                        self.remove_line(y);
                        Some((x, y - 1))
                    } else if front.is_some() && back.is_some() {
                        self.join_lines(y + 1);
                        Some((x, y))
                    } else {
                        None
                    }
                },
                ChangeType::Enter => {
                    if front.is_some() && back.is_some() {
                        self.insert_row(x, y);
                    } else if front.is_none() && back.is_none() {
                        self.insert_row(x, y);
                    }
                    Some((x, y))
                },
                ChangeType::Nothing => None,
            }
        } else {
            None
        }
    }

    fn welcome_message() -> (s: String)
        ensures
            s@ == welcome_text(),
    {
        let mut s = "seppo".to_owned();
        s.append(" o(〃＾▽＾〃)o tekstieditowi -- vewsio ");
        s.append("0.1.0");
        s
    }

    pub fn build_welcome_message(width: usize) -> (r: String)
        ensures
            r@ == welcome_row(width),
            width > 0 ==> encode_utf8(r@).len() <= width,
    {
        if width == 0 {
            return " ".to_owned();
        }
        let welcome_message = Self::welcome_message();
        let len = welcome_message.as_str().as_bytes().len();
        proof {
            lemma_welcome_row_fits(width);
        }
        if width <= len {
            return "~".to_owned();
        }
        let padding = (width.saturating_sub(len).saturating_sub(1)) / 2;
        assert(len == encode_utf8(welcome_text()).len());
        assert(padding == (width - len - 1) / 2);
        let mut full_message = "~".to_owned();
        let mut i: usize = 0;
        while i < padding
            invariant
                i <= padding,
                full_message@ == "~"@ + spaces(i as int),
            decreases padding - i,
        {
            proof {
                reveal_strlit(" ");
            }
            full_message.append(" ");
            assert(full_message@ =~= "~"@ + spaces(i + 1));
            i += 1;
        }
        full_message.append(welcome_message.as_str());
        assert(full_message@ =~= welcome_row(width));
        full_message
    }

    pub fn render(&mut self) -> (r: Option<Vec<String>>)
        requires
            old(self).wf(),
            old(self)@.render_ok(),
        ensures
            final(self).wf(),
            rendered(old(self)@, final(self)@, r),
    {
        if !self.needs_redraw {
            return None;
        }
        let Size { height, width } = self.size;
        if height == 0 || width == 0 {
            return None;
        }
        let vertical_center = height / 3;
        let mut rows: Vec<String> = Vec::new();
        for current_row in 0..height
            invariant
                self@ == old(self)@,
                self.wf(),
                old(self)@.render_ok(),
                old(self)@.draws(),
                height == old(self)@.size.height,
                width == old(self)@.size.width,
                vertical_center == height / 3,
                rows@.len() == current_row,
                forall|i: int|
                    0 <= i < current_row ==> is_row(
                        old(self)@.lines,
                        i,
                        height,
                        width,
                        #[trigger] rows@[i]@,
                    ),
        {
            assert(self.buffer.lines.len() == self.buffer@.len());
            let ghost lines = old(self)@.lines;
            let ghost before = rows@;
            if current_row < self.buffer.lines.len() {
                let line: &String = &self.buffer.lines[current_row];
                let text = line.as_str();
                assert(lines[current_row as int] == text@);
                if text.as_bytes().len() >= width {
                    assert(encode_utf8(lines[current_row as int]).len() >= width);
                    let (head, _) = text.split_at(width);
                    rows.push(head.to_owned());
                    assert(is_row(lines, current_row as int, height, width, rows@[current_row as int]@));
                } else {
                    rows.push(line.clone());
                    assert(is_row(lines, current_row as int, height, width, rows@[current_row as int]@));
                }
            } else if current_row == vertical_center && self.buffer.is_empty() {
                rows.push(Self::build_welcome_message(width));
                assert(is_row(lines, current_row as int, height, width, rows@[current_row as int]@));
            } else {
                rows.push("~".to_owned());
                assert(is_row(lines, current_row as int, height, width, rows@[current_row as int]@));
            }
            assert forall|i: int| 0 <= i < current_row + 1 implies is_row(
                lines,
                i,
                height,
                width,
                #[trigger] rows@[i]@,
            ) by {
                if i < current_row {
                    assert(rows@[i] == before[i]);
                }
            }
        }
        self.needs_redraw = false;
        Some(rows)
    }

    pub fn load(&mut self, file_name: &str, contents: Option<&str>) -> (r: Result<(), String>)
        requires
            old(self).wf(),
        ensures
            final(self).wf(),
            match contents {
                Some(text) => r is Ok && final(self)@ == (ViewState {
                    lines: text_lines(text@),
                    filename: Some(file_name@),
                    file_name: Some(file_name@),
                    needs_redraw: true,
                    ..old(self)@
                }),
                None => r matches Err(e) && e@ == "Failed to load file: "@ + file_name@
                    && final(self)@ == old(self)@,
            },
    {
        if let Some(text) = contents {
            let buffer = Buffer::load(file_name, text);
            self.buffer = buffer;
            self.filename = Some(file_name.to_owned());
            self.needs_redraw = true;
            Ok(())
        } else {
            let mut message = "Failed to load file: ".to_owned();
            message.append(file_name);
            Err(message)
        }
    }

    /// The buffer, for writing it out.
    pub fn buffer(&self) -> (r: &Buffer)
        ensures
            r@ == self@.lines,
            opt_string(r.file_name) == self@.file_name,
    {
        &self.buffer
    }

    /// The number of characters in row `i`; zero where there is no such row.
    pub fn row_len(&self, i: usize) -> (r: usize)
        ensures
            r == line_or_empty(self@.lines, i as int).len(),
    {
        if i < self.buffer.lines.len() {
            self.buffer.lines[i].as_str().unicode_len()
        } else {
            0
        }
    }

    /// Whether `insert_char(_, posx, posy)` may be called.
    pub fn can_insert_char(&self, posx: usize, posy: usize) -> (r: bool)
        ensures
            r == self@.insert_char_ok(posx, posy),
    {
        let n = self.line.len();
        let rows = self.buffer.lines.len();
        (n == 0 || (1 <= posx && posx - 1 <= n)) && (rows == 0 || posy < rows)
    }

    /// Whether `insert_row(x, y)` may be called.
    pub fn can_insert_row(&self, x: usize, y: usize) -> (r: bool)
        ensures
            r == self@.insert_row_ok(x, y),
    {
        let n = self.line.len();
        let rows = self.buffer.lines.len();
        !(n == 0 || x <= n) || (if rows == 0 {
            y == 0
        } else {
            y < rows
        })
    }

    /// Whether `remove_char(posx, posy)` may be called.
    pub fn can_remove_char(&self, posx: usize, posy: usize) -> (r: bool)
        ensures
            r == self@.remove_char_ok(posx, posy),
    {
        let rows = self.buffer.lines.len();
        posx < self.line.len() && (rows == 0 || posy < rows)
    }

    /// Whether `remove_line(pos)` may be called.
    pub fn can_remove_line(&self, pos: usize) -> (r: bool)
        ensures
            r == self@.remove_line_ok(pos),
    {
        1 <= pos && pos < self.buffer.lines.len()
    }

    /// Whether `join_lines(y)` may be called.
    pub fn can_join_lines(&self, y: usize) -> (r: bool)
        ensures
            r == self@.join_lines_ok(y),
    {
        1 <= y && y < self.buffer.lines.len() && self.row_len(y - 1) < usize::MAX - self.line.len()
    }

    /// Whether `del_line(y)` may be called.
    pub fn can_del_line(&self, y: usize) -> (r: bool)
        ensures
            r == self@.del_line_ok(y),
    {
        assert(self.buffer.lines.len() == self.buffer@.len());
        y < usize::MAX && y + 1 < self.buffer.lines.len() && self.line.len() < usize::MAX
            - self.row_len(y + 1)
    }

    /// Whether `undo` may be called.
    pub fn can_undo(&self) -> (r: bool)
        ensures
            r == self@.undo_ok(),
    {
        let ch = self.undoredo.peek_undo();
        let ghost s = self@.replaying(self@.history.undone());
        assert(s.lines == self@.lines && s.line == self@.line);
        match ch.change_type {
            ChangeType::Character => ch.x >= 1 && self.can_remove_char(ch.x - 1, ch.y),
            ChangeType::Removal => {
                if ch.c.is_some() {
                    ch.x < usize::MAX && self.can_insert_char(ch.x + 1, ch.y)
                } else if ch.front.is_some() {
                    if ch.y >= 1 {
                        let loc = self.row_len(ch.y - 1);
                        self.can_insert_row(loc, ch.y - 1)
                    } else {
                        false
                    }
                } else {
                    true
                }
            },
            ChangeType::Enter => {
                if ch.front.is_some() && ch.back.is_some() {
                    ch.y < usize::MAX && self.can_join_lines(ch.y + 1)
                } else if ch.front.is_none() && ch.back.is_none() {
                    ch.y < usize::MAX && self.can_remove_line(ch.y + 1)
                } else {
                    true
                }
            },
            ChangeType::Nothing => true,
        }
    }

    /// Whether `redo` may be called.
    pub fn can_redo(&self) -> (r: bool)
        ensures
            r == self@.redo_ok(),
    {
        match self.undoredo.peek_redo() {
            None => true,
            Some(ch) => {
                let ghost s = self@.replaying(self@.history.redone());
                assert(s.lines == self@.lines && s.line == self@.line);
                match ch.change_type {
                    ChangeType::Character => ch.c.is_none() || self.can_insert_char(ch.x, ch.y),
                    ChangeType::Removal => {
                        if ch.c.is_some() {
                            self.can_remove_char(ch.x, ch.y)
                        } else if ch.front.is_some() && ch.back.is_none() {
                            self.can_remove_line(ch.y)
                        } else if ch.front.is_some() && ch.back.is_some() {
                            ch.y < usize::MAX && self.can_join_lines(ch.y + 1)
                        } else {
                            true
                        }
                    },
                    ChangeType::Enter => {
                        if (ch.front.is_some() && ch.back.is_some()) || (ch.front.is_none()
                            && ch.back.is_none()) {
                            self.can_insert_row(ch.x, ch.y)
                        } else {
                            true
                        }
                    },
                    ChangeType::Nothing => true,
                }
            },
        }
    }

    /// Whether `render` may be called.
    pub fn can_render(&self) -> (r: bool)
        ensures
            r == self@.render_ok(),
    {
        let Size { height, width } = self.size;
        if !(self.needs_redraw && height > 0 && width > 0) {
            return true;
        }
        let rows = self.buffer.lines.len();
        let n = if height < rows {
            height
        } else {
            rows
        };
        assert(self@.draws());
        for i in 0..n
            invariant
                self@.draws(),
                n <= height,
                n <= self@.lines.len(),
                height == self@.size.height,
                width == self@.size.width,
                forall|j: int|
                    0 <= j < i && encode_utf8(#[trigger] self@.lines[j]).len() >= width
                        ==> is_char_boundary(encode_utf8(self@.lines[j]), width as int),
        {
            let text = self.buffer.lines[i].as_str();
            assert(text@ == self@.lines[i as int]);
            if text.as_bytes().len() >= width && !text.is_char_boundary(width) {
                assert(encode_utf8(self@.lines[i as int]).len() >= width);
                assert(!is_char_boundary(encode_utf8(self@.lines[i as int]), width as int));
                assert(self@.draws());
                assert(!self@.render_ok());
                return false;
            }
        }
        true
    }

    pub fn move_line(&mut self, new_index: usize)
        requires
            old(self).wf(),
        ensures
            final(self).wf(),
            final(self)@ == (ViewState {
                line: line_or_empty(old(self)@.lines, new_index as int),
                ..old(self)@
            }),
    {
        self.line = self.buffer.get_line(new_index);
    }

    pub fn buffer_len(&mut self) -> (r: usize)
        ensures
            r == old(self)@.lines.len(),
            *final(self) == *old(self),
    {
        self.buffer.lines.len()
    }

    pub fn line_len(&self) -> (r: usize)
        ensures
            r == self@.line.len(),
    {
        self.line.len()
    }

    pub fn get_line(&mut self, pos: usize) -> (r: Vec<char>)
        ensures
            r@ == line_or_empty(old(self)@.lines, pos as int),
            *final(self) == *old(self),
    {
        self.buffer.get_line(pos)
    }
}

/// The greeting row is never wider than the screen.
pub proof fn lemma_welcome_row_fits(width: usize)
    requires
        width > 0,
    ensures
        encode_utf8(welcome_row(width)).len() <= width,
{
    reveal_strlit("~");
    assert(is_ascii_chars("~"@));
    lemma_ascii_len("~"@);
    let len = encode_utf8(welcome_text()).len();
    if width > len {
        let pad = spaces((width - len - 1) / 2);
        assert(is_ascii_chars(pad));
        lemma_ascii_len(pad);
        lemma_encode_concat("~"@, pad);
        lemma_encode_concat("~"@ + pad, welcome_text());
    }
}

/// Every row that `render` draws fits in the screen's width.
pub proof fn lemma_rows_fit(lines: Seq<Seq<char>>, i: int, height: usize, width: usize, row: Seq<char>)
    requires
        width > 0,
        is_row(lines, i, height, width, row),
    ensures
        encode_utf8(row).len() <= width,
{
    reveal_strlit("~");
    assert(is_ascii_chars("~"@));
    lemma_ascii_len("~"@);
    lemma_welcome_row_fits(width);
}

/// Typing a character into a row that holds the line being edited, then
/// undoing, gives back the text, the line and the recorded history; the
/// change waits on the redo stack and the cursor goes back one column.
pub proof fn lemma_insert_char_then_undo(s: ViewState, c: char, posx: usize, posy: usize)
    requires
        !s.undoing,
        1 <= posx <= s.line.len() + 1,
        posy < s.lines.len(),
        s.lines[posy as int] == s.line,
    ensures
        s.after_insert_char(c, posx, posy).undo_ok(),
        s.after_insert_char(c, posx, posy).after_undo() == (
            ViewState {
                history: History {
                    changes: s.history.changes,
                    redos: seq![change(ChangeType::Character, posx, posy, Some(c), None, None)],
                },
                needs_redraw: true,
                ..s
            },
            Some(((posx - 1) as usize, posy)),
        ),
{
    let t = s.after_insert_char(c, posx, posy);
    assert(t.history.changes.drop_last() =~= s.history.changes);
    let u = t.replaying(t.history.undone());
    assert(u.line.remove(posx - 1) =~= s.line);
    assert(u.after_remove_char((posx - 1) as usize, posy).lines =~= s.lines);
    assert(t.history.undone().redos =~= seq![change(ChangeType::Character, posx, posy, Some(c), None, None)]);
}

/// Typing a character, undoing and redoing it leaves the view as typing alone
/// left it.
pub proof fn lemma_insert_char_undo_redo(s: ViewState, c: char, posx: usize, posy: usize)
    requires
        !s.undoing,
        1 <= posx <= s.line.len() + 1,
        posy < s.lines.len(),
        s.lines[posy as int] == s.line,
    ensures
        s.after_insert_char(c, posx, posy).after_undo().0.redo_ok(),
        s.after_insert_char(c, posx, posy).after_undo().0.after_redo() == (
            s.after_insert_char(c, posx, posy),
            Some((posx, posy)),
        ),
{
    lemma_insert_char_then_undo(s, c, posx, posy);
    let t = s.after_insert_char(c, posx, posy);
    let u = t.after_undo().0;
    let w = u.replaying(u.history.redone());
    assert(w.history =~= t.history);
    assert(w.after_insert_char(c, posx, posy).lines =~= t.lines);
}

/// Removing a character from a row that holds the line being edited, then
/// undoing, gives back the text, the line and the recorded history; the
/// cursor goes to the column after the character.
pub proof fn lemma_remove_char_then_undo(s: ViewState, posx: usize, posy: usize)
    requires
        !s.undoing,
        posx < s.line.len(),
        s.line.len() < usize::MAX,
        posy < s.lines.len(),
        s.lines[posy as int] == s.line,
    ensures
        s.after_remove_char(posx, posy).undo_ok(),
        s.after_remove_char(posx, posy).after_undo() == (
            ViewState {
                history: History {
                    changes: s.history.changes,
                    redos: seq![
                        change(ChangeType::Removal, posx, posy, Some(s.line[posx as int]), None, None),
                    ],
                },
                needs_redraw: true,
                ..s
            },
            Some(((posx + 1) as usize, posy)),
        ),
{
    let t = s.after_remove_char(posx, posy);
    assert(t.history.changes.drop_last() =~= s.history.changes);
    let u = t.replaying(t.history.undone());
    let back = if u.line.len() == 0 {
        seq![s.line[posx as int]]
    } else {
        u.line.insert(posx as int, s.line[posx as int])
    };
    assert(back =~= s.line);
    assert(u.after_insert_char(s.line[posx as int], (posx + 1) as usize, posy).lines =~= s.lines);
    assert(t.history.undone().redos =~= seq![
        change(ChangeType::Removal, posx, posy, Some(s.line[posx as int]), None, None),
    ]);
}

/// Splitting a row that holds the line being edited, then undoing, joins
/// the two parts again: text, line and recorded history come back.
pub proof fn lemma_split_then_undo(s: ViewState, x: usize, y: usize)
    requires
        !s.undoing,
        0 < s.line.len() < usize::MAX,
        x <= s.line.len(),
        y < s.lines.len(),
        s.lines.len() < usize::MAX,
        s.lines[y as int] == s.line,
    ensures
        s.after_insert_row(x, y).undo_ok(),
        s.after_insert_row(x, y).after_undo() == (
            ViewState {
                history: History {
                    changes: s.history.changes,
                    redos: seq![
                        change(
                            ChangeType::Enter,
                            x,
                            y,
                            None,
                            Some(s.line.take(x as int)),
                            Some(s.line.skip(x as int)),
                        ),
                    ],
                },
                needs_redraw: true,
                ..s
            },
            Some((x, y)),
        ),
{
    let t = s.after_insert_row(x, y);
    assert(t.history.changes.drop_last() =~= s.history.changes);
    let u = t.replaying(t.history.undone());
    assert(u.lines[y as int] == s.line.take(x as int));
    assert(s.line.take(x as int) + s.line.skip(x as int) =~= s.line);
    let j = u.after_join_lines((y + 1) as usize);
    assert(j.line =~= s.line);
    assert(j.lines =~= s.lines);
    assert(t.history.undone().redos =~= seq![
        change(ChangeType::Enter, x, y, None, Some(s.line.take(x as int)), Some(s.line.skip(x as int))),
    ]);
}

/// Adding an empty row after an empty row, then undoing, removes it again.
pub proof fn lemma_empty_row_then_undo(s: ViewState, x: usize, y: usize)
    requires
        !s.undoing,
        s.line.len() == 0,
        y < s.lines.len(),
        s.lines.len() < usize::MAX,
        s.lines[y as int].len() == 0,
    ensures
        s.after_insert_row(x, y).undo_ok(),
        s.after_insert_row(x, y).after_undo() == (
            ViewState {
                history: History {
                    changes: s.history.changes,
                    redos: seq![change(ChangeType::Enter, x, y, None, None, None)],
                },
                needs_redraw: true,
                ..s
            },
            Some((x, y)),
        ),
{
    let t = s.after_insert_row(x, y);
    assert(t.history.changes.drop_last() =~= s.history.changes);
    let u = t.replaying(t.history.undone());
    let r = u.after_remove_line((y + 1) as usize);
    assert(s.lines[y as int] =~= Seq::<char>::empty());
    assert(s.lines.update(y as int, Seq::<char>::empty()) =~= s.lines);
    assert(r.line =~= s.line);
    assert(r.lines =~= s.lines);
    assert(t.history.undone().redos =~= seq![change(ChangeType::Enter, x, y, None, None, None)]);
}

/// Removing an empty row, then undoing, puts the empty row back; the line
/// being edited is then that empty row.
pub proof fn lemma_remove_empty_row_then_undo(s: ViewState, pos: usize)
    requires
        !s.undoing,
        1 <= pos < s.lines.len(),
        s.lines[pos as int].len() == 0,
        s.lines[pos - 1].len() < usize::MAX,
    ensures
        s.after_remove_line(pos).undo_ok(),
        s.after_remove_line(pos).after_undo() == (
            ViewState {
                line: Seq::empty(),
                history: History {
                    changes: s.history.changes,
                    redos: seq![
                        change(ChangeType::Removal, 0, pos, None, Some(s.lines[pos - 1]), None),
                    ],
                },
                needs_redraw: true,
                ..s
            },
            Some((0usize, pos)),
        ),
{
    let t = s.after_remove_line(pos);
    assert(t.history.changes.drop_last() =~= s.history.changes);
    let u = t.replaying(t.history.undone());
    let loc = line_or_empty(u.lines, pos - 1).len() as usize;
    assert(loc == s.lines[pos - 1].len());
    let r = u.after_insert_row(loc, (pos - 1) as usize);
    assert(s.lines[pos - 1].take(loc as int) =~= s.lines[pos - 1]);
    assert(s.lines[pos - 1].skip(loc as int) =~= Seq::<char>::empty());
    assert(s.lines[pos as int] =~= Seq::<char>::empty());
    assert(r.lines =~= s.lines);
    assert(r.line =~= Seq::<char>::empty());
    assert(t.history.undone().redos =~= seq![
        change(ChangeType::Removal, 0, pos, None, Some(s.lines[pos - 1]), None),
    ]);
}

} // verus!

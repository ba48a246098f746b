use vstd::prelude::*;

use crate::view::{
    is_row, lemma_empty_row_then_undo, lemma_remove_char_then_undo, lemma_remove_empty_row_then_undo,
    lemma_split_then_undo, rendered, spaces, welcome_row, welcome_text, ViewState,
};
use vstd::utf8::encode_utf8;

verus! {

/// `r` is `lines` with row `y` replaced by `front` and `back` put in after
/// it: the rows before `y` stay, the rows after it move down by one.
pub open spec fn is_split(
    lines: Seq<Seq<char>>,
    y: int,
    front: Seq<char>,
    back: Seq<char>,
    r: Seq<Seq<char>>,
) -> bool {
    &&& r.len() == lines.len() + 1
    &&& forall|i: int| 0 <= i < y ==> r[i] == lines[i]
    &&& r[y] == front
    &&& r[y + 1] == back
    &&& forall|i: int| y + 1 < i < r.len() ==> r[i] == lines[i - 1]
}

/// `r` is `lines` with row `y` replaced by `row` and row `y + 1` gone: the
/// rows before `y` stay, the rows after it move up by one.
pub open spec fn is_merge(lines: Seq<Seq<char>>, y: int, row: Seq<char>, r: Seq<Seq<char>>) -> bool {
    &&& r.len() == lines.len() - 1
    &&& forall|i: int| 0 <= i < y ==> r[i] == lines[i]
    &&& r[y] == row
    &&& forall|i: int| y < i < r.len() ==> r[i] == lines[i + 1]
}

/// `r` is `lines` with row `y` replaced by `row`, the other rows kept.
pub open spec fn is_rewrite(lines: Seq<Seq<char>>, y: int, row: Seq<char>, r: Seq<Seq<char>>) -> bool {
    &&& r.len() == lines.len()
    &&& r[y] == row
    &&& forall|i: int| 0 <= i < r.len() && i != y ==> r[i] == lines[i]
}

/// Typing `c` at column `posx - 1` puts it there, between the characters
/// before and after it, writes the line to row `posy` (the first row of an
/// empty buffer) and, unless an undo is running, records exactly one more
/// change and empties the redo stack.
pub proof fn lemma_insert_char_shape(s: ViewState, c: char, posx: usize, posy: usize)
    requires
        s.insert_char_ok(posx, posy),
    ensures
        ({
            let r = s.after_insert_char(c, posx, posy);
            &&& r.line.len() == s.line.len() + 1
            &&& s.line.len() > 0 ==> {
                &&& r.line[posx - 1] == c
                &&& forall|i: int| 0 <= i < posx - 1 ==> r.line[i] == s.line[i]
                &&& forall|i: int| posx - 1 < i < r.line.len() ==> r.line[i] == s.line[i - 1]
            }
            &&& s.line.len() == 0 ==> r.line == seq![c]
            &&& s.lines.len() > 0 ==> is_rewrite(s.lines, posy as int, r.line, r.lines)
            &&& s.lines.len() == 0 ==> r.lines == seq![r.line]
            &&& r.needs_redraw
            &&& r.size == s.size && r.undoing == s.undoing && r.filename == s.filename
            &&& s.undoing ==> r.history == s.history
            &&& !s.undoing ==> {
                &&& r.history.changes.len() == s.history.changes.len() + 1
                &&& r.history.changes.drop_last() == s.history.changes
                &&& r.history.changes.last().c == Some(c)
                &&& r.history.changes.last().x == posx
                &&& r.history.changes.last().y == posy
                &&& r.history.redos.len() == 0
            }
        }),
{
    let r = s.after_insert_char(c, posx, posy);
    if !s.undoing {
        assert(r.history.changes.drop_last() =~= s.history.changes);
    }
}

/// Removing the character at column `posx` takes out exactly that one and
/// writes the line to row `posy`.
pub proof fn lemma_remove_char_shape(s: ViewState, posx: usize, posy: usize)
    requires
        s.remove_char_ok(posx, posy),
    ensures
        ({
            let r = s.after_remove_char(posx, posy);
            &&& r.line.len() + 1 == s.line.len()
            &&& forall|i: int| 0 <= i < posx ==> r.line[i] == s.line[i]
            &&& forall|i: int| posx <= i < r.line.len() ==> r.line[i] == s.line[i + 1]
            &&& s.lines.len() > 0 ==> is_rewrite(s.lines, posy as int, r.line, r.lines)
            &&& s.lines.len() == 0 ==> r.lines == seq![r.line]
            &&& !s.undoing ==> r.history.changes.len() == s.history.changes.len() + 1
                && r.history.changes.last().c == Some(s.line[posx as int])
            &&& s.undoing ==> r.history == s.history
        }),
{
}

/// Splitting the line at column `x` in row `y` leaves the first `x`
/// characters in row `y` and puts the rest in a new row `y + 1`, which
/// becomes the line being edited.
pub proof fn lemma_split_shape(s: ViewState, x: usize, y: usize)
    requires
        s.insert_row_ok(x, y),
        0 < s.line.len(),
        x <= s.line.len(),
        y < s.lines.len(),
    ensures
        ({
            let r = s.after_insert_row(x, y);
            &&& is_split(s.lines, y as int, s.line.take(x as int), s.line.skip(x as int), r.lines)
            &&& r.line == s.line.skip(x as int)
            &&& r.line.len() + x == s.line.len()
        }),
{
}

/// On an empty line, a new empty row goes in after row `y`, which is
/// emptied.
pub proof fn lemma_empty_split_shape(s: ViewState, x: usize, y: usize)
    requires
        s.line.len() == 0,
        y < s.lines.len(),
    ensures
        ({
            let r = s.after_insert_row(x, y);
            &&& is_split(s.lines, y as int, Seq::empty(), Seq::empty(), r.lines)
            &&& r.line.len() == 0
        }),
{
}

/// Past the end of a non-empty line, a new row changes nothing but the
/// redraw flag.
pub proof fn lemma_split_past_end(s: ViewState, x: usize, y: usize)
    requires
        0 < s.line.len() < x,
    ensures
        s.after_insert_row(x, y) == (ViewState { needs_redraw: true, ..s }),
{
}

/// Removing row `pos` moves the later rows up and makes row `pos - 1` the
/// line being edited.
pub proof fn lemma_remove_line_shape(s: ViewState, pos: usize)
    requires
        s.remove_line_ok(pos),
    ensures
        ({
            let r = s.after_remove_line(pos);
            &&& r.lines.len() == s.lines.len() - 1
            &&& forall|i: int| 0 <= i < pos ==> r.lines[i] == s.lines[i]
            &&& forall|i: int| pos <= i < r.lines.len() ==> r.lines[i] == s.lines[i + 1]
            &&& r.line == s.lines[pos - 1]
        }),
{
}

/// Joining row `y` to the row above leaves one row fewer, the row above
/// followed by the line being edited; that becomes the line being edited.
pub proof fn lemma_join_shape(s: ViewState, y: usize)
    requires
        s.join_lines_ok(y),
    ensures
        ({
            let r = s.after_join_lines(y);
            &&& is_merge(s.lines, y - 1, s.lines[y - 1] + s.line, r.lines)
            &&& r.line == s.lines[y - 1] + s.line
            &&& r.line.len() == s.lines[y - 1].len() + s.line.len()
        }),
{
}

/// Delete at the end of row `y` leaves one row fewer: row `y + 1`, empty
/// or not, is gone and the rows after it move up; its text follows the line
/// being edited, which is written to row `y` where that text is not empty.
/// Where row `y` holds the line being edited, it then holds the old row `y`
/// followed by the old row `y + 1`.
pub proof fn lemma_del_line_shape(s: ViewState, y: usize)
    requires
        s.del_line_ok(y),
    ensures
        ({
            let r = s.after_del_line(y);
            &&& r.lines.len() == s.lines.len() - 1
            &&& forall|i: int| 0 <= i < y ==> r.lines[i] == s.lines[i]
            &&& forall|i: int| y < i < r.lines.len() ==> r.lines[i] == s.lines[i + 1]
            &&& r.lines[y as int] == if s.lines[y + 1].len() > 0 {
                s.line + s.lines[y + 1]
            } else {
                s.lines[y as int]
            }
            &&& r.line == s.line + s.lines[y + 1]
            &&& s.lines[y as int] == s.line ==> is_merge(
                s.lines,
                y as int,
                s.lines[y as int] + s.lines[y + 1],
                r.lines,
            )
        }),
{
    let r = s.after_del_line(y);
    if s.lines[y as int] == s.line && s.lines[y + 1].len() == 0 {
        assert(s.line + s.lines[y + 1] =~= s.line);
    }
}

/// Splitting a row that holds the line being edited, undoing and redoing
/// leaves the rows and the line as the split alone left them: row `y` holds
/// the first `x` characters and row `y + 1` the rest.
pub proof fn lemma_split_undo_redo(s: ViewState, x: usize, y: usize)
    requires
        !s.undoing,
        0 < s.line.len() < usize::MAX,
        x <= s.line.len(),
        y < s.lines.len(),
        s.lines.len() < usize::MAX,
        s.lines[y as int] == s.line,
    ensures
        s.after_insert_row(x, y).after_undo().0.redo_ok(),
        ({
            let (r, at) = s.after_insert_row(x, y).after_undo().0.after_redo();
            &&& at == Some((x, y))
            &&& is_split(s.lines, y as int, s.line.take(x as int), s.line.skip(x as int), r.lines)
            &&& r.line == s.line.skip(x as int)
            &&& r.history.changes == s.after_insert_row(x, y).history.changes
            &&& r.history.redos.len() == 0
        }),
{
    lemma_split_then_undo(s, x, y);
    let t = s.after_insert_row(x, y);
    let u = t.after_undo().0;
    let w = u.replaying(u.history.redone());
    assert(w.lines == s.lines && w.line == s.line);
    assert(w.history.changes =~= t.history.changes);
}

/// Removing a character, undoing and redoing leaves the rows and the line
/// as the removal alone left them.
pub proof fn lemma_remove_char_undo_redo(s: ViewState, posx: usize, posy: usize)
    requires
        !s.undoing,
        posx < s.line.len(),
        s.line.len() < usize::MAX,
        posy < s.lines.len(),
        s.lines[posy as int] == s.line,
    ensures
        s.after_remove_char(posx, posy).after_undo().0.redo_ok(),
        ({
            let (r, at) = s.after_remove_char(posx, posy).after_undo().0.after_redo();
            &&& at == Some((posx, posy))
            &&& r.line == s.line.remove(posx as int)
            &&& is_rewrite(s.lines, posy as int, s.line.remove(posx as int), r.lines)
            &&& r.history.changes == s.after_remove_char(posx, posy).history.changes
        }),
{
    lemma_remove_char_then_undo(s, posx, posy);
    let t = s.after_remove_char(posx, posy);
    let u = t.after_undo().0;
    let w = u.replaying(u.history.redone());
    assert(w.lines == s.lines && w.line == s.line);
    assert(w.history.changes =~= t.history.changes);
}

/// Undo takes the last change off the history onto the redo stack and
/// answers it; redo takes it back.
pub proof fn lemma_history_moves(s: ViewState)
    ensures
        s.history.changes.len() > 0 ==> {
            let h = s.history.undone();
            &&& h.changes.len() + 1 == s.history.changes.len()
            &&& h.redos.len() == s.history.redos.len() + 1
            &&& h.redos.last() == s.history.changes.last()
            &&& s.history.undo_result() == s.history.changes.last()
            &&& forall|i: int| 0 <= i < h.changes.len() ==> h.changes[i] == s.history.changes[i]
        },
        s.history.redos.len() > 0 ==> {
            let h = s.history.redone();
            &&& h.redos.len() + 1 == s.history.redos.len()
            &&& h.changes.len() == s.history.changes.len() + 1
            &&& h.changes.last() == s.history.redos.last()
            &&& forall|i: int| 0 <= i < h.redos.len() ==> h.redos[i] == s.history.redos[i]
        },
{
}

/// What a redraw shows: every row of the screen that has a line of the
/// buffer shows that line, cut to its first `width` bytes where it is longer
/// (an empty line is an empty row); the rows past the end of the text show
/// `~`, or the greeting a third of the way down an empty buffer.
pub proof fn lemma_render_shows_lines(before: ViewState, after: ViewState, rows: Vec<String>)
    requires
        rendered(before, after, Some(rows)),
    ensures
        rows@.len() == before.size.height,
        after.lines == before.lines,
        after.line == before.line,
        !after.needs_redraw,
        forall|i: int|
            #![trigger rows@[i]]
            0 <= i < rows@.len() && i < before.lines.len() ==> {
                let bytes = encode_utf8(before.lines[i]);
                &&& bytes.len() < before.size.width ==> rows@[i]@ == before.lines[i]
                &&& bytes.len() >= before.size.width ==> encode_utf8(rows@[i]@) == bytes.take(
                    before.size.width as int,
                )
                &&& before.lines[i].len() == 0 ==> rows@[i]@.len() == 0
            },
        forall|i: int|
            #![trigger rows@[i]]
            before.lines.len() <= i < rows@.len() ==> rows@[i]@ == "~"@ || (before.lines.len() == 0
                && i == before.size.height / 3 && rows@[i]@ == welcome_row(before.size.width)),
{
    assert forall|i: int|
        #![trigger rows@[i]]
        0 <= i < rows@.len() && i < before.lines.len() && before.lines[i].len() == 0 implies rows@[i]@.len()
        == 0 by {
        assert(is_row(before.lines, i, before.size.height, before.size.width, rows@[i]@));
        assert(encode_utf8(before.lines[i]).len() == 0);
    }
    assert forall|i: int|
        #![trigger rows@[i]]
        0 <= i < rows@.len() && i < before.lines.len() implies ({
        let bytes = encode_utf8(before.lines[i]);
        &&& bytes.len() < before.size.width ==> rows@[i]@ == before.lines[i]
        &&& bytes.len() >= before.size.width ==> encode_utf8(rows@[i]@) == bytes.take(
            before.size.width as int,
        )
    }) by {
        assert(is_row(before.lines, i, before.size.height, before.size.width, rows@[i]@));
    }
    assert forall|i: int|
        #![trigger rows@[i]]
        before.lines.len() <= i < rows@.len() implies rows@[i]@ == "~"@ || (before.lines.len()
        == 0 && i == before.size.height / 3 && rows@[i]@ == welcome_row(before.size.width)) by {
        assert(is_row(before.lines, i, before.size.height, before.size.width, rows@[i]@));
    }
}

/// Adding an empty row after an empty row, undoing and redoing gives the
/// two empty rows back.
pub proof fn lemma_empty_row_undo_redo(s: ViewState, x: usize, y: usize)
    requires
        !s.undoing,
        s.line.len() == 0,
        y < s.lines.len(),
        s.lines.len() < usize::MAX,
        s.lines[y as int].len() == 0,
    ensures
        s.after_insert_row(x, y).after_undo().0.redo_ok(),
        ({
            let (r, at) = s.after_insert_row(x, y).after_undo().0.after_redo();
            &&& at == Some((x, y))
            &&& is_split(s.lines, y as int, Seq::empty(), Seq::empty(), r.lines)
            &&& r.line.len() == 0
            &&& r.history.changes == s.after_insert_row(x, y).history.changes
        }),
{
    lemma_empty_row_then_undo(s, x, y);
    let t = s.after_insert_row(x, y);
    let u = t.after_undo().0;
    let w = u.replaying(u.history.redone());
    assert(w.lines == s.lines && w.line == s.line);
    assert(w.history.changes =~= t.history.changes);
}

/// Removing an empty row, undoing and redoing removes it again: the rows
/// after it move up and the row above becomes the line being edited, and
/// the cursor goes to the row above.
pub proof fn lemma_remove_empty_row_undo_redo(s: ViewState, pos: usize)
    requires
        !s.undoing,
        1 <= pos < s.lines.len(),
        s.lines[pos as int].len() == 0,
        s.lines[pos - 1].len() < usize::MAX,
    ensures
        s.after_remove_line(pos).after_undo().0.redo_ok(),
        ({
            let (r, at) = s.after_remove_line(pos).after_undo().0.after_redo();
            &&& at == Some((0usize, (pos - 1) as usize))
            &&& r.lines.len() + 1 == s.lines.len()
            &&& forall|i: int| 0 <= i < pos ==> r.lines[i] == s.lines[i]
            &&& forall|i: int| pos <= i < r.lines.len() ==> r.lines[i] == s.lines[i + 1]
            &&& r.line == s.lines[pos - 1]
            &&& r.history.changes == s.after_remove_line(pos).history.changes
        }),
{
    lemma_remove_empty_row_then_undo(s, pos);
    let t = s.after_remove_line(pos);
    let u = t.after_undo().0;
    let w = u.replaying(u.history.redone());
    assert(w.lines == s.lines);
    assert(w.history.changes =~= t.history.changes);
}

/// The greeting row: a space where there is no width, a lone `~` where the
/// greeting does not fit, and otherwise `~`, then spaces, then the greeting,
/// the spaces as many as leave the greeting centred in the rest of the row.
pub proof fn lemma_welcome_row_centred(width: usize)
    ensures
        width == 0 ==> welcome_row(width) == " "@,
        0 < width <= encode_utf8(welcome_text()).len() ==> welcome_row(width) == "~"@,
        width > encode_utf8(welcome_text()).len() ==> exists|p: int|
            {
                &&& 0 <= p
                &&& welcome_row(width) == "~"@ + spaces(p) + welcome_text()
                &&& 1 + 2 * p + encode_utf8(welcome_text()).len() <= width
                &&& width <= 2 * p + encode_utf8(welcome_text()).len() + 2
            },
{
    let len = encode_utf8(welcome_text()).len();
    if width > len {
        let p = (width - len - 1) / 2;
        assert(welcome_row(width) == "~"@ + spaces(p) + welcome_text());
    }
}

/// The edits run on every input on which they do not reach past the text:
/// typing at any column from the start to just past the end of the line,
/// removing any character of the line, splitting in an existing row,
/// removing or joining any row but the first, pulling up any row but the
/// first, each in a row that exists (or the first row of an empty buffer).
pub proof fn lemma_edits_accepted(s: ViewState, x: usize, y: usize)
    ensures
        (s.line.len() == 0 || 1 <= x <= s.line.len() + 1) && (s.lines.len() == 0 || y
            < s.lines.len()) ==> s.insert_char_ok(x, y),
        x < s.line.len() && (s.lines.len() == 0 || y < s.lines.len()) ==> s.remove_char_ok(x, y),
        (y < s.lines.len() || (s.lines.len() == 0 && y == 0)) ==> s.insert_row_ok(x, y),
        1 <= y < s.lines.len() ==> s.remove_line_ok(y),
        1 <= y < s.lines.len() && s.lines[y - 1].len() + s.line.len() < usize::MAX
            ==> s.join_lines_ok(y),
        y + 1 < s.lines.len() && s.line.len() + s.lines[y + 1].len() < usize::MAX
            ==> s.del_line_ok(y),
{
}

/// With nothing recorded, undo changes no text and answers no position;
/// with nothing undone, redo changes nothing and answers no position.
pub proof fn lemma_nothing_to_undo_or_redo(s: ViewState)
    ensures
        s.history.changes.len() == 0 ==> s.undo_ok() && s.after_undo() == (
            ViewState { undoing: false, ..s },
            None::<(usize, usize)>,
        ),
        s.history.redos.len() == 0 ==> s.redo_ok() && s.after_redo() == (s, None::<(usize, usize)>),
{
}

} // verus!

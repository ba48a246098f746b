use vstd::prelude::*;

use crate::text::{split_lines, text_lines};

verus! {

/// The lines of a file, each held as a `String`.
pub struct Buffer {
    pub lines: Vec<String>,
    pub file_name: Option<String>,
}

impl View for Buffer {
    type V = Seq<Seq<char>>;

    open spec fn view(&self) -> Seq<Seq<char>> {
        self.lines@.map_values(|s: String| s@)
    }
}

/// The text of line `pos`, or the empty text where there is no such line.
pub open spec fn line_or_empty(lines: Seq<Seq<char>>, pos: int) -> Seq<char> {
    if 0 <= pos < lines.len() {
        lines[pos]
    } else {
        Seq::empty()
    }
}

/// What `refresh_buffer` makes of the lines: the line at `pos` is replaced,
/// or, in an empty buffer, the line becomes the only one.
pub open spec fn refreshed(lines: Seq<Seq<char>>, line: Seq<char>, pos: int) -> Seq<Seq<char>> {
    if lines.len() == 0 {
        seq![line]
    } else {
        lines.update(pos, line)
    }
}

/// What `insert` makes of the lines: the line goes in at `y`, or at the end
/// where `y` is not below the number of lines.
pub open spec fn inserted(lines: Seq<Seq<char>>, line: Seq<char>, y: int) -> Seq<Seq<char>> {
    if y < lines.len() {
        lines.insert(y, line)
    } else {
        lines.push(line)
    }
}

impl Buffer {
    /// The buffer of a file named `file_name` whose text is `contents`.
    pub fn load(file_name: &str, contents: &str) -> (r: Buffer)
        ensures
            r@ == text_lines(contents@),
            r.file_name matches Some(n) && n@ == file_name@,
    {
        let lines = split_lines(contents);
        Self { lines, file_name: Some(file_name.to_owned()) }
    }

    pub fn is_empty(&self) -> (r: bool)
        ensures
            r == (self@.len() == 0),
    {
        self.lines.is_empty()
    }

    pub fn refresh_buffer(&mut self, line: String, pos: usize)
        requires
            old(self)@.len() > 0 ==> pos < old(self)@.len(),
        ensures
            final(self)@ == refreshed(old(self)@, line@, pos as int),
            final(self).file_name == old(self).file_name,
    {
        let ghost line_view = line@;
        if !self.is_empty() {
            self.lines.remove(pos);
            self.lines.insert(pos, line);
            assert(self@ =~= refreshed(old(self)@, line_view, pos as int));
        } else {
            self.lines.push(line);
            assert(self@ =~= refreshed(old(self)@, line_view, pos as int));
        }
    }

    pub fn get_line(&mut self, pos: usize) -> (r: Vec<char>)
        ensures
            r@ == line_or_empty(old(self)@, pos as int),
            *final(self) == *old(self),
    {
        let mut ret: Vec<char> = Vec::new();
        if pos < self.lines.len() {
            let line: &String = &self.lines[pos];
            for ch in it: line.chars()
                invariant
                    ret@ == it.seq().take(it.index()),
            {
                ret.push(ch);
            }
            assert(ret@ =~= line@);
        }
        ret
    }

    pub fn insert(&mut self, string: String, y: usize)
        ensures
            final(self)@ == inserted(old(self)@, string@, y as int),
            final(self).file_name == old(self).file_name,
    {
        let ghost line_view = string@;
        if self.lines.len() > y {
            self.lines.insert(y, string);
        } else {
            self.lines.push(string);
        }
        assert(self@ =~= inserted(old(self)@, line_view, y as int));
    }
}

/// Writing a row and reading it back gives what was written; every other
/// row keeps its text.
pub proof fn lemma_refresh_then_read(lines: Seq<Seq<char>>, line: Seq<char>, pos: int, other: int)
    requires
        if lines.len() == 0 {
            pos == 0
        } else {
            0 <= pos < lines.len()
        },
    ensures
        line_or_empty(refreshed(lines, line, pos), pos) == line,
        refreshed(lines, line, pos).len() == if lines.len() == 0 {
            1
        } else {
            lines.len()
        },
        other != pos && 0 <= other < lines.len() ==> line_or_empty(refreshed(lines, line, pos), other)
            == lines[other],
{
}

/// Inserting a row and reading it back gives what was inserted; the rows
/// before it keep their places and the rows from it on move down by one.
pub proof fn lemma_insert_then_read(lines: Seq<Seq<char>>, line: Seq<char>, y: int, other: int)
    requires
        0 <= y,
    ensures
        line_or_empty(inserted(lines, line, y), if y < lines.len() { y } else { lines.len() as int })
            == line,
        inserted(lines, line, y).len() == lines.len() + 1,
        0 <= other < lines.len() && other < y ==> line_or_empty(inserted(lines, line, y), other)
            == lines[other],
        y <= other < lines.len() ==> line_or_empty(inserted(lines, line, y), other + 1)
            == lines[other],
{
}

} // verus!

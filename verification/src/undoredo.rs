use vstd::prelude::*;

verus! {

/// Whether a change was recorded by an edit (`Undo`) or by an edit made while
/// redoing (`Redo`).
#[derive(Clone, Copy, PartialEq, Eq, Structural, Debug)]
pub enum UndoType {
    Undo,
    Redo,
}

impl Default for UndoType {
    fn default() -> (r: Self)
        ensures
            r == UndoType::Undo,
    {
        UndoType::Undo
    }
}

/// The kind of edit that a change records.
#[derive(Clone, Copy, PartialEq, Eq, Structural, Debug)]
pub enum ChangeType {
    Character,
    Removal,
    Enter,
    Nothing,
}

impl Default for ChangeType {
    fn default() -> (r: Self)
        ensures
            r == ChangeType::Nothing,
    {
        ChangeType::Nothing
    }
}

/// The value of a recorded change, with its texts as sequences of characters.
#[verifier::ext_equal]
pub struct Change {
    pub change_type: ChangeType,
    pub x: usize,
    pub y: usize,
    pub front: Option<Seq<char>>,
    pub back: Option<Seq<char>>,
    pub c: Option<char>,
    pub undotype: UndoType,
}

pub open spec fn opt_chars(o: Option<Vec<char>>) -> Option<Seq<char>> {
    match o {
        Some(v) => Some(v@),
        None => None,
    }
}

/// The change that an empty history hands back on undo.
pub open spec fn no_change() -> Change {
    Change {
        change_type: ChangeType::Nothing,
        x: 0,
        y: 0,
        front: None,
        back: None,
        c: None,
        undotype: UndoType::Undo,
    }
}

/// One edit, as the undo history records it.
#[derive(Clone, Debug)]
pub struct TextChange {
    pub change_type: ChangeType,
    pub x: usize,
    pub y: usize,
    pub front: Option<Vec<char>>,
    pub back: Option<Vec<char>>,
    pub c: Option<char>,
    pub undotype: UndoType,
}

impl View for TextChange {
    type V = Change;

    open spec fn view(&self) -> Change {
        Change {
            change_type: self.change_type,
            x: self.x,
            y: self.y,
            front: opt_chars(self.front),
            back: opt_chars(self.back),
            c: self.c,
            undotype: self.undotype,
        }
    }
}

fn copy_chars(o: &Option<Vec<char>>) -> (r: Option<Vec<char>>)
    ensures
        opt_chars(r) == opt_chars(*o),
{
    match o {
        Some(v) => {
            let w = v.clone();
            assert(w@ =~= v@);
            Some(w)
        },
        None => None,
    }
}

impl TextChange {
    pub fn new(
        change: ChangeType,
        x: usize,
        y: usize,
        c: Option<char>,
        front: Option<Vec<char>>,
        back: Option<Vec<char>>,
    ) -> (r: Self)
        ensures
            r@ == (Change {
                change_type: change,
                x,
                y,
                front: opt_chars(front),
                back: opt_chars(back),
                c,
                undotype: UndoType::Undo,
            }),
    {
        Self { change_type: change, x: x, y: y, c: c, front: front, back: back, undotype: UndoType::Undo }
    }

    pub fn new_redo(
        change: ChangeType,
        x: usize,
        y: usize,
        c: Option<char>,
        front: Option<Vec<char>>,
        back: Option<Vec<char>>,
    ) -> (r: Self)
        ensures
            r@ == (Change {
                change_type: change,
                x,
                y,
                front: opt_chars(front),
                back: opt_chars(back),
                c,
                undotype: UndoType::Redo,
            }),
    {
        Self { change_type: change, x: x, y: y, c: c, front: front, back: back, undotype: UndoType::Redo }
    }

    /// A copy of the change, texts included.
    pub fn duplicate(&self) -> (r: Self)
        ensures
            r@ == self@,
    {
        TextChange {
            change_type: self.change_type,
            x: self.x,
            y: self.y,
            front: copy_chars(&self.front),
            back: copy_chars(&self.back),
            c: self.c,
            undotype: self.undotype,
        }
    }
}

impl Default for TextChange {
    fn default() -> (r: Self)
        ensures
            r@ == no_change(),
    {
        TextChange {
            change_type: ChangeType::Nothing,
            x: 0,
            y: 0,
            front: None,
            back: None,
            c: None,
            undotype: UndoType::Undo,
        }
    }
}

pub open spec fn is_redo(c: Change) -> bool {
    c.undotype == UndoType::Redo
}

/// How many changes of `s` were recorded while redoing.
pub open spec fn redo_count(s: Seq<Change>) -> nat
    decreases s.len(),
{
    if s.len() == 0 {
        0
    } else {
        redo_count(s.drop_last()) + if is_redo(s.last()) {
            1nat
        } else {
            0nat
        }
    }
}

/// `s` without the changes at the even positions below `2 * k`: what is left
/// when positions 0, 1, ..., k - 1 are removed one after another.
pub open spec fn without_even_prefix(s: Seq<Change>, k: nat) -> Seq<Change> {
    Seq::new((s.len() - k) as nat, |j: int| if j < k { s[2 * j + 1] } else { s[j + k] })
}

/// The two stacks of the undo history, oldest change first.
#[verifier::ext_equal]
pub struct History {
    pub changes: Seq<Change>,
    pub redos: Seq<Change>,
}

impl History {
    pub open spec fn empty() -> History {
        History { changes: Seq::empty(), redos: Seq::empty() }
    }

    /// Recording `c` does not run past the end of the history: with `k`
    /// changes recorded while redoing, position `k - 1` of the shrinking list
    /// must still exist when it is removed.
    pub open spec fn can_add(self, c: Change) -> bool {
        let k = redo_count(self.changes.push(c));
        k == 0 || 2 * (k - 1) < self.changes.len() + 1
    }

    pub open spec fn add(self, c: Change) -> History {
        let s = self.changes.push(c);
        History { changes: without_even_prefix(s, redo_count(s)), redos: Seq::empty() }
    }

    pub open spec fn undone(self) -> History {
        if self.changes.len() > 0 {
            History { changes: self.changes.drop_last(), redos: self.redos.push(self.changes.last()) }
        } else {
            self
        }
    }

    pub open spec fn undo_result(self) -> Change {
        if self.changes.len() > 0 {
            self.changes.last()
        } else {
            no_change()
        }
    }

    pub open spec fn redone(self) -> History {
        History { changes: self.changes.push(self.redos.last()), redos: self.redos.drop_last() }
    }

    /// No change in either stack was recorded while redoing.
    pub open spec fn undo_only(self) -> bool {
        &&& forall|i: int| 0 <= i < self.changes.len() ==> !is_redo(#[trigger] self.changes[i])
        &&& forall|i: int| 0 <= i < self.redos.len() ==> !is_redo(#[trigger] self.redos[i])
    }
}

/// The undo and redo stacks of the editor.
pub struct UndoRedo {
    changes: Vec<TextChange>,
    pub redos: Vec<TextChange>,
}

pub open spec fn change_views(s: Seq<TextChange>) -> Seq<Change> {
    s.map_values(|t: TextChange| t@)
}

impl View for UndoRedo {
    type V = History;

    closed spec fn view(&self) -> History {
        History { changes: change_views(self.changes@), redos: change_views(self.redos@) }
    }
}

proof fn lemma_redo_count_take(s: Seq<Change>, i: int)
    requires
        0 <= i <= s.len(),
    ensures
        redo_count(s.take(i)) <= redo_count(s),
    decreases s.len(),
{
    if i < s.len() {
        assert(s.drop_last().take(i) =~= s.take(i));
        lemma_redo_count_take(s.drop_last(), i);
    } else {
        assert(s.take(i) =~= s);
    }
}

proof fn lemma_without_even_prefix_step(s: Seq<Change>, k: nat)
    requires
        2 * k < s.len(),
    ensures
        without_even_prefix(s, k).remove(k as int) =~= without_even_prefix(s, k + 1),
{
}

proof fn lemma_redo_count_none(s: Seq<Change>)
    requires
        forall|i: int| 0 <= i < s.len() ==> !is_redo(#[trigger] s[i]),
    ensures
        redo_count(s) == 0,
    decreases s.len(),
{
    if s.len() > 0 {
        lemma_redo_count_none(s.drop_last());
    }
}

/// `s` after removing the entry at position `j`, then the one at `j + 1`,
/// and so on, `k` times in all.
pub open spec fn remove_in_turn(s: Seq<Change>, j: int, k: nat) -> Seq<Change>
    decreases k,
{
    if k == 0 {
        s
    } else {
        remove_in_turn(s.remove(j), j + 1, (k - 1) as nat)
    }
}

proof fn lemma_remove_in_turn_from(s: Seq<Change>, j: nat, k: nat)
    requires
        j <= k,
        k == 0 || 2 * (k - 1) < s.len(),
    ensures
        remove_in_turn(without_even_prefix(s, j), j as int, (k - j) as nat) == without_even_prefix(s, k),
    decreases k - j,
{
    if j < k {
        lemma_without_even_prefix_step(s, j);
        lemma_remove_in_turn_from(s, j + 1, k);
    }
}

/// The number of changes recorded while redoing is the length of the list
/// of those changes.
pub proof fn lemma_redo_count_is_filter(s: Seq<Change>)
    ensures
        redo_count(s) == s.filter(|c: Change| is_redo(c)).len(),
    decreases s.len(),
{
    reveal(Seq::filter);
    if s.len() > 0 {
        lemma_redo_count_is_filter(s.drop_last());
    }
}

/// Recording a change pushes it; then, with `k` changes recorded while
/// redoing among them, the entries at positions 0, 1, ..., k - 1 of the
/// shrinking list are removed in turn; the redo stack is emptied.
pub proof fn lemma_add_removes_in_turn(h: History, c: Change)
    requires
        h.can_add(c),
    ensures
        h.add(c).changes == remove_in_turn(
            h.changes.push(c),
            0,
            h.changes.push(c).filter(|x: Change| is_redo(x)).len(),
        ),
        h.add(c).redos.len() == 0,
{
    let s = h.changes.push(c);
    lemma_redo_count_is_filter(s);
    assert(without_even_prefix(s, 0) =~= s);
    lemma_remove_in_turn_from(s, 0, redo_count(s));
}

/// With no change recorded while redoing, recording a change that was not
/// recorded while redoing pushes it and empties the redo stack.
pub proof fn lemma_add_undo_only(h: History, c: Change)
    requires
        h.undo_only(),
        !is_redo(c),
    ensures
        h.can_add(c),
        h.add(c) == (History { changes: h.changes.push(c), redos: Seq::empty() }),
        h.add(c).undo_only(),
{
    let s = h.changes.push(c);
    assert forall|i: int| 0 <= i < s.len() implies !is_redo(#[trigger] s[i]) by {
        if i < h.changes.len() {
            assert(s[i] == h.changes[i]);
        }
    }
    lemma_redo_count_none(s);
    assert(without_even_prefix(s, 0) =~= s);
}

impl Default for UndoRedo {
    fn default() -> (r: Self)
        ensures
            r@ == History::empty(),
    {
        let r = UndoRedo { changes: Vec::new(), redos: Vec::new() };
        assert(r@.changes =~= Seq::<Change>::empty());
        assert(r@.redos =~= Seq::<Change>::empty());
        r
    }
}

impl UndoRedo {
    pub fn add_change(&mut self, change: TextChange)
        requires
            old(self)@.can_add(change@),
        ensures
            final(self)@ == old(self)@.add(change@),
    {
        let ghost s = old(self)@.changes.push(change@);
        self.changes.push(change);
        assert(change_views(self.changes@) =~= s);
        if !self.redos.is_empty() {
            self.redos = Vec::new();
        }
        let n = self.changes.len();
        let mut flags: Vec<bool> = Vec::new();
        for i in 0..n
            invariant
                n == self.changes@.len(),
                change_views(self.changes@) == s,
                flags@.len() == i,
                forall|j: int| 0 <= j < i ==> flags@[j] == is_redo(#[trigger] s[j]),
        {
            flags.push(self.changes[i].undotype == UndoType::Redo);
        }
        let mut index: usize = 0;
        assert(s.take(0) =~= Seq::<Change>::empty());
        assert(without_even_prefix(s, 0) =~= s);
        for i in 0..n
            invariant
                n == s.len(),
                flags@.len() == n,
                forall|j: int| 0 <= j < n ==> flags@[j] == is_redo(#[trigger] s[j]),
                index == redo_count(s.take(i as int)),
                redo_count(s) == 0 || 2 * (redo_count(s) - 1) < n,
                change_views(self.changes@) == without_even_prefix(s, index as nat),
                self.redos@.len() == 0,
        {
            proof {
                assert(s.take(i + 1).drop_last() =~= s.take(i as int));
                lemma_redo_count_take(s, i + 1);
                assert(s.take(i + 1).last() == s[i as int]);
                assert(redo_count(s.take(i + 1)) == redo_count(s.take(i as int)) + if is_redo(s[i as int]) {
                    1nat
                } else {
                    0nat
                });
                assert(self.changes@.len() == change_views(self.changes@).len());
            }
            if flags[i] {
                assert(index < self.changes@.len());
                let ghost before = self.changes@;
                self.changes.remove(index);
                assert(change_views(self.changes@) =~= change_views(before).remove(index as int));
                proof {
                    lemma_without_even_prefix_step(s, index as nat);
                }
                index += 1;
            }
        }
        assert(s.take(n as int) =~= s);
        assert(change_views(self.redos@) =~= Seq::<Change>::empty());
    }

    pub fn undo(&mut self) -> (r: TextChange)
        ensures
            final(self)@ == old(self)@.undone(),
            r@ == old(self)@.undo_result(),
    {
        if !self.changes.is_empty() {
            let change = self.changes.pop().unwrap();
            self.redos.push(change.duplicate());
            assert(self@.changes =~= old(self)@.undone().changes);
            assert(self@.redos =~= old(self)@.undone().redos);
            change
        } else {
            TextChange::default()
        }
    }

    pub fn redo(&mut self) -> (r: TextChange)
        requires
            old(self)@.redos.len() > 0,
        ensures
            final(self)@ == old(self)@.redone(),
            r@ == old(self)@.redos.last(),
    {
        let redo = self.redos.pop().unwrap();
        self.changes.push(redo.duplicate());
        assert(self@.changes =~= old(self)@.redone().changes);
        assert(self@.redos =~= old(self)@.redone().redos);
        redo
    }

    /// The change that `undo` would hand back.
    pub fn peek_undo(&self) -> (r: TextChange)
        ensures
            r@ == self@.undo_result(),
    {
        let n = self.changes.len();
        if n > 0 {
            self.changes[n - 1].duplicate()
        } else {
            TextChange::default()
        }
    }

    /// The change that `redo` would hand back, if there is one.
    pub fn peek_redo(&self) -> (r: Option<TextChange>)
        ensures
            match r {
                Some(c) => self@.redos.len() > 0 && c@ == self@.redos.last(),
                None => self@.redos.len() == 0,
            },
    {
        let n = self.redos.len();
        if n > 0 {
            Some(self.redos[n - 1].duplicate())
        } else {
            None
        }
    }

    pub fn redos_is_empty(&self) -> (r: bool)
        ensures
            r == (self@.redos.len() == 0),
    {
        self.redos.is_empty()
    }
}

/// Undoing keeps a history free of changes recorded while redoing.
pub proof fn lemma_undone_undo_only(h: History)
    requires
        h.undo_only(),
    ensures
        h.undone().undo_only(),
{
    if h.changes.len() > 0 {
        assert(h.undone().redos.last() == h.changes.last());
        assert forall|i: int| 0 <= i < h.undone().changes.len() implies !is_redo(
            #[trigger] h.undone().changes[i],
        ) by {
            assert(h.undone().changes[i] == h.changes[i]);
        }
        assert forall|i: int| 0 <= i < h.undone().redos.len() implies !is_redo(
            #[trigger] h.undone().redos[i],
        ) by {
            if i < h.redos.len() {
                assert(h.undone().redos[i] == h.redos[i]);
            } else {
                assert(h.undone().redos[i] == h.changes[h.changes.len() - 1]);
            }
        }
    }
}

/// Redoing keeps a history free of changes recorded while redoing.
pub proof fn lemma_redone_undo_only(h: History)
    requires
        h.undo_only(),
        h.redos.len() > 0,
    ensures
        h.redone().undo_only(),
{
    assert forall|i: int| 0 <= i < h.redone().changes.len() implies !is_redo(
        #[trigger] h.redone().changes[i],
    ) by {
        if i < h.changes.len() {
            assert(h.redone().changes[i] == h.changes[i]);
        } else {
            assert(h.redone().changes[i] == h.redos[h.redos.len() - 1]);
        }
    }
    assert forall|i: int| 0 <= i < h.redone().redos.len() implies !is_redo(
        #[trigger] h.redone().redos[i],
    ) by {
        assert(h.redone().redos[i] == h.redos[i]);
    }
}

/// Undoing a change and redoing it gives back the history as it was.
pub proof fn lemma_undo_then_redo(h: History)
    requires
        h.changes.len() > 0,
    ensures
        h.undone().redos.len() > 0,
        h.undone().redone() == h,
        h.undone().redos.last() == h.undo_result(),
{
    assert(h.undone().redone().changes =~= h.changes);
    assert(h.undone().redone().redos =~= h.redos);
}

/// Redoing a change and undoing it gives back the history as it was.
pub proof fn lemma_redo_then_undo(h: History)
    requires
        h.redos.len() > 0,
    ensures
        h.redone().undone() == h,
        h.redone().undo_result() == h.redos.last(),
{
    assert(h.redone().undone().changes =~= h.changes);
    assert(h.redone().undone().redos =~= h.redos);
}

} // verus!

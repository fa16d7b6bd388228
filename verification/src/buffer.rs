//! The document buffer: an always non-empty sequence of lines, a cursor and
//! an optional selection anchor.
//!
//! Text is split into lines on `'\n'`. A trailing newline does not add an
//! extra (empty) final line; serialization joins the lines with `'\n'`, so a
//! text that does not end in a newline round-trips exactly and a trailing
//! newline is dropped.

use vstd::prelude::*;

verus! {

/// A cursor motion. Selection-free motions clear the selection anchor.
#[derive(Clone, Copy, Debug, PartialEq, Eq, Structural)]
pub enum Motion {
    Left,
    Right,
    Up,
    Down,
    LineStart,
    LineEnd,
    DocumentStart,
    DocumentEnd,
}

/// One structural edit of the buffer: a content edit (insert a character,
/// break the line, delete backward or forward) or a cursor/selection move.
#[derive(Clone, Copy, Debug, PartialEq, Eq, Structural)]
pub enum EditAction {
    Insert(char),
    Enter,
    Backspace,
    Delete,
    Move(Motion),
    Select(Motion),
    SelectAll,
}

impl EditAction {
    /// Whether the action is a pure cursor or selection move, as opposed to
    /// a content edit.
    pub open spec fn is_motion(self) -> bool {
        match self {
            EditAction::Move(_) => true,
            EditAction::Select(_) => true,
            EditAction::SelectAll => true,
            _ => false,
        }
    }
}

/// The views of a vector of line vectors, as a sequence of character
/// sequences.
pub open spec fn views_of(ls: Seq<Vec<char>>) -> Seq<Seq<char>> {
    ls.map_values(|l: Vec<char>| l@)
}

/// A well-formed line holds no newline character.
pub open spec fn line_ok(l: Seq<char>) -> bool {
    forall|i: int| 0 <= i < l.len() ==> l[i] != '\n'
}

/// Mathematical model of a buffer: its lines, the cursor position and the
/// optional selection anchor.
pub ghost struct BufferView {
    pub lines: Seq<Seq<char>>,
    pub line: int,
    pub col: int,
    pub anchor: Option<(int, int)>,
}

/// Joins lines with a single `'\n'` between consecutive lines.
pub open spec fn join_lines(ls: Seq<Seq<char>>) -> Seq<char>
    decreases ls.len(),
{
    if ls.len() == 0 {
        Seq::empty()
    } else if ls.len() == 1 {
        ls[0]
    } else {
        ls[0].push('\n') + join_lines(ls.drop_first())
    }
}

/// The naive split of a text on `'\n'`: one segment more than there are
/// newlines, so a trailing newline yields a final empty segment.
pub open spec fn split_text(t: Seq<char>) -> Seq<Seq<char>>
    decreases t.len(),
{
    if t.len() == 0 {
        seq![Seq::<char>::empty()]
    } else if t[0] == '\n' {
        seq![Seq::<char>::empty()] + split_text(t.drop_first())
    } else {
        seq![seq![t[0]] + split_text(t.drop_first())[0]] + split_text(t.drop_first()).drop_first()
    }
}

/// The lines a buffer is created with from a text: the naive split, except
/// that a trailing newline does not add an extra empty line.
pub open spec fn lines_of_text(t: Seq<char>) -> Seq<Seq<char>> {
    if t.len() > 0 && t.last() == '\n' {
        split_text(t).drop_last()
    } else {
        split_text(t)
    }
}

/// The buffer that holds a single empty line, cursor at the origin.
pub open spec fn empty_buffer_view() -> BufferView {
    BufferView { lines: seq![Seq::<char>::empty()], line: 0, col: 0, anchor: None }
}

/// The buffer freshly created from a text, cursor at the origin.
pub open spec fn buffer_of_text(t: Seq<char>) -> BufferView {
    BufferView { lines: lines_of_text(t), line: 0, col: 0, anchor: None }
}

impl BufferView {
    /// Buffer invariant: at least one line, no line holds a newline, the
    /// cursor addresses a line and a column within that line (the end-of-line
    /// position included), and the anchor, when present, does the same.
    pub open spec fn wf(self) -> bool {
        &&& self.lines.len() >= 1
        &&& forall|i: int| 0 <= i < self.lines.len() ==> line_ok(#[trigger] self.lines[i])
        &&& 0 <= self.line < self.lines.len()
        &&& 0 <= self.col <= self.lines[self.line].len()
        &&& match self.anchor {
            Some(a) => 0 <= a.0 < self.lines.len() && 0 <= a.1 <= self.lines[a.0].len(),
            None => true,
        }
    }

    /// The serialized content of the buffer.
    pub open spec fn text(self) -> Seq<char> {
        join_lines(self.lines)
    }
}

pub proof fn lemma_split_text_len(t: Seq<char>)
    ensures
        split_text(t).len() >= 1,
    decreases t.len(),
{
    if t.len() == 0 {
    } else {
        lemma_split_text_len(t.drop_first());
    }
}

pub proof fn lemma_split_text_lines_ok(t: Seq<char>)
    ensures
        forall|i: int| 0 <= i < split_text(t).len() ==> line_ok(#[trigger] split_text(t)[i]),
    decreases t.len(),
{
    if t.len() == 0 {
    } else {
        lemma_split_text_lines_ok(t.drop_first());
        lemma_split_text_len(t.drop_first());
    }
}

/// Joining the naive split of a text gives the text back exactly.
pub proof fn lemma_join_split(t: Seq<char>)
    ensures
        join_lines(split_text(t)) == t,
    decreases t.len(),
{
    if t.len() == 0 {
        assert(join_lines(split_text(t)) =~= t);
    } else if t[0] == '\n' {
        lemma_join_split(t.drop_first());
        lemma_split_text_len(t.drop_first());
        let s = seq![Seq::<char>::empty()] + split_text(t.drop_first());
        assert(s.drop_first() =~= split_text(t.drop_first()));
        assert(join_lines(s) == s[0].push('\n') + join_lines(s.drop_first()));
        assert(join_lines(split_text(t)) =~= t);
    } else {
        lemma_join_split(t.drop_first());
        lemma_split_text_len(t.drop_first());
        let rest = split_text(t.drop_first());
        let s = seq![seq![t[0]] + rest[0]] + rest.drop_first();
        assert(split_text(t) == s);
        if rest.len() == 1 {
            assert(join_lines(rest) == rest[0]);
            assert(s.len() == 1);
            assert(join_lines(s) == s[0]);
            assert(join_lines(s) =~= t);
        } else {
            assert(s.drop_first() =~= rest.drop_first());
            assert(join_lines(s) == s[0].push('\n') + join_lines(rest.drop_first()));
            assert(join_lines(rest) == rest[0].push('\n') + join_lines(rest.drop_first()));
            assert(join_lines(s) =~= seq![t[0]] + join_lines(rest));
            assert(seq![t[0]] + t.drop_first() =~= t);
        }
    }
}

/// Extending a text by one character extends the naive split: a newline opens
/// a new empty segment, any other character lengthens the final segment.
pub proof fn lemma_split_push(t: Seq<char>, c: char)
    ensures
        c == '\n' ==> split_text(t.push(c)) == split_text(t).push(Seq::<char>::empty()),
        c != '\n' ==> split_text(t.push(c)) == split_text(t).update(
            split_text(t).len() - 1,
            split_text(t).last().push(c),
        ),
    decreases t.len(),
{
    lemma_split_text_len(t);
    if t.len() == 0 {
        let u = t.push(c);
        let ghost e = Seq::<char>::empty();
        assert(u.len() == 1 && u[0] == c);
        assert(u.drop_first() =~= e);
        assert(split_text(e) == seq![e]);
        assert(split_text(u.drop_first()) == seq![e]);
        if c == '\n' {
            assert(split_text(u) == seq![e] + seq![e]);
            assert(split_text(u) =~~= split_text(t).push(e));
        } else {
            assert(split_text(u) == seq![seq![c] + e] + seq![e].drop_first());
            assert(seq![c] + e =~= e.push(c));
            assert(seq![e].drop_first() =~= Seq::<Seq<char>>::empty());
            assert(split_text(u) =~~= split_text(t).update(0, split_text(t).last().push(c)));
        }
    } else {
        let u = t.push(c);
        assert(u[0] == t[0]);
        assert(u.drop_first() =~= t.drop_first().push(c));
        lemma_split_push(t.drop_first(), c);
        lemma_split_text_len(t.drop_first());
        let rest = split_text(t.drop_first());
        let rest2 = split_text(u.drop_first());
        if t[0] == '\n' {
            if c == '\n' {
                assert(rest2 == rest.push(Seq::<char>::empty()));
                assert(split_text(u) == seq![Seq::<char>::empty()] + rest2);
                assert(split_text(t) == seq![Seq::<char>::empty()] + rest);
                assert(split_text(u) =~~= split_text(t).push(Seq::<char>::empty()));
            } else {
                assert(rest2 == rest.update(rest.len() - 1, rest.last().push(c)));
                assert(split_text(t).last() == rest.last());
                assert(split_text(u) =~~= split_text(t).update(
                    split_text(t).len() - 1,
                    split_text(t).last().push(c),
                ));
            }
        } else {
            if c == '\n' {
                assert(rest2 == rest.push(Seq::<char>::empty()));
                assert(rest2[0] == rest[0]);
                assert(rest2.drop_first() =~= rest.drop_first().push(Seq::<char>::empty()));
                assert(split_text(u) =~~= split_text(t).push(Seq::<char>::empty()));
            } else {
                assert(rest2 == rest.update(rest.len() - 1, rest.last().push(c)));
                if rest.len() == 1 {
                    assert(rest2[0] == rest[0].push(c));
                    assert(rest2.drop_first() =~= rest.drop_first());
                    assert(split_text(u) =~~= split_text(t).update(
                        split_text(t).len() - 1,
                        split_text(t).last().push(c),
                    ));
                } else {
                    assert(rest2[0] == rest[0]);
                    assert(rest2.drop_first() =~= rest.drop_first().update(
                        rest.len() - 2,
                        rest.last().push(c),
                    ));
                    assert(split_text(u) =~~= split_text(t).update(
                        split_text(t).len() - 1,
                        split_text(t).last().push(c),
                    ));
                }
            }
        }
    }
}

/// A text that ends in a newline splits into at least two segments, the last
/// of them empty.
pub proof fn lemma_split_trailing_newline(t: Seq<char>)
    requires
        t.len() > 0,
        t.last() == '\n',
    ensures
        split_text(t).len() >= 2,
        split_text(t).last() == Seq::<char>::empty(),
{
    let u = t.drop_last();
    assert(u.push('\n') =~= t);
    lemma_split_push(u, '\n');
    lemma_split_text_len(u);
}

/// Appending a line to a non-empty sequence of lines appends a newline and
/// that line to the joined text.
pub proof fn lemma_join_push(ls: Seq<Seq<char>>, l: Seq<char>)
    ensures
        ls.len() == 0 ==> join_lines(ls.push(l)) == l,
        ls.len() > 0 ==> join_lines(ls.push(l)) == join_lines(ls).push('\n') + l,
    decreases ls.len(),
{
    if ls.len() == 0 {
        assert(ls.push(l).len() == 1);
        assert(ls.push(l)[0] == l);
    } else if ls.len() == 1 {
        let s = ls.push(l);
        assert(s.len() == 2);
        assert(s.drop_first() =~= seq![l]);
        assert(join_lines(s.drop_first()) == l);
        assert(join_lines(s) == ls[0].push('\n') + l);
    } else {
        lemma_join_push(ls.drop_first(), l);
        let s = ls.push(l);
        assert(s.drop_first() =~= ls.drop_first().push(l));
        assert(join_lines(s) == s[0].push('\n') + join_lines(ls.drop_first().push(l)));
        assert(join_lines(s) =~= join_lines(ls).push('\n') + l);
    }
}

/// Round trip: the serialized content of a buffer created from a text `t`
/// that does not end in a newline is `t` itself, whatever characters
/// (carriage returns included) it holds elsewhere. Under the documented
/// trailing-newline policy, a text ending in `'\n'` loses exactly that final
/// newline.
pub proof fn lemma_with_text_text_round_trip(t: Seq<char>)
    requires
        !t.contains('\r'),
        t.len() == 0 || t.last() != '\n',
    ensures
        buffer_of_text(t).text() == t,
{
    lemma_join_split(t);
}

/// The cursor position a motion reaches from `(line, col)` in `lines`.
/// Columns are clamped to the target line; motions at the edges of the
/// document leave the cursor in place (or move it to the nearer end of the
/// neighbouring line, for `Left` and `Right`).
pub open spec fn move_spec(lines: Seq<Seq<char>>, line: int, col: int, m: Motion) -> (int, int) {
    match m {
        Motion::Left => if col > 0 {
            (line, col - 1)
        } else if line > 0 {
            (line - 1, lines[line - 1].len() as int)
        } else {
            (line, col)
        },
        Motion::Right => if col < lines[line].len() {
            (line, col + 1)
        } else if line < lines.len() - 1 {
            (line + 1, 0)
        } else {
            (line, col)
        },
        Motion::Up => if line > 0 {
            (line - 1, if col <= lines[line - 1].len() { col } else { lines[line - 1].len() as int })
        } else {
            (line, col)
        },
        Motion::Down => if line < lines.len() - 1 {
            (line + 1, if col <= lines[line + 1].len() { col } else { lines[line + 1].len() as int })
        } else {
            (line, col)
        },
        Motion::LineStart => (line, 0),
        Motion::LineEnd => (line, lines[line].len() as int),
        Motion::DocumentStart => (0, 0),
        Motion::DocumentEnd => (lines.len() - 1, lines[lines.len() - 1].len() as int),
    }
}

/// Breaking the current line at the cursor: the part before the cursor stays,
/// the part after it becomes the next line, and the cursor moves to the start
/// of that next line.
pub open spec fn enter_spec(v: BufferView) -> BufferView {
    BufferView {
        lines: v.lines.update(v.line, v.lines[v.line].take(v.col)).insert(
            v.line + 1,
            v.lines[v.line].skip(v.col),
        ),
        line: v.line + 1,
        col: 0,
        anchor: None,
    }
}

/// The buffer an edit action produces. Content edits act at the cursor and
/// clear the selection anchor; `Move` clears it, `Select` keeps or plants it.
pub open spec fn apply_spec(v: BufferView, a: EditAction) -> BufferView {
    match a {
        EditAction::Insert(c) => if c == '\n' {
            enter_spec(v)
        } else {
            BufferView {
                lines: v.lines.update(v.line, v.lines[v.line].insert(v.col, c)),
                line: v.line,
                col: v.col + 1,
                anchor: None,
            }
        },
        EditAction::Enter => enter_spec(v),
        EditAction::Backspace => if v.col > 0 {
            BufferView {
                lines: v.lines.update(v.line, v.lines[v.line].remove(v.col - 1)),
                line: v.line,
                col: v.col - 1,
                anchor: None,
            }
        } else if v.line > 0 {
            BufferView {
                lines: v.lines.update(v.line - 1, v.lines[v.line - 1] + v.lines[v.line]).remove(
                    v.line,
                ),
                line: v.line - 1,
                col: v.lines[v.line - 1].len() as int,
                anchor: None,
            }
        } else {
            BufferView { lines: v.lines, line: v.line, col: v.col, anchor: None }
        },
        EditAction::Delete => if v.col < v.lines[v.line].len() {
            BufferView {
                lines: v.lines.update(v.line, v.lines[v.line].remove(v.col)),
                line: v.line,
                col: v.col,
                anchor: None,
            }
        } else if v.line < v.lines.len() - 1 {
            BufferView {
                lines: v.lines.update(v.line, v.lines[v.line] + v.lines[v.line + 1]).remove(
                    v.line + 1,
                ),
                line: v.line,
                col: v.col,
                anchor: None,
            }
        } else {
            BufferView { lines: v.lines, line: v.line, col: v.col, anchor: None }
        },
        EditAction::Move(m) => BufferView {
            lines: v.lines,
            line: move_spec(v.lines, v.line, v.col, m).0,
            col: move_spec(v.lines, v.line, v.col, m).1,
            anchor: None,
        },
        EditAction::Select(m) => BufferView {
            lines: v.lines,
            line: move_spec(v.lines, v.line, v.col, m).0,
            col: move_spec(v.lines, v.line, v.col, m).1,
            anchor: match v.anchor {
                Some(p) => Some(p),
                None => Some((v.line, v.col)),
            },
        },
        EditAction::SelectAll => BufferView {
            lines: v.lines,
            line: v.lines.len() - 1,
            col: v.lines[v.lines.len() - 1].len() as int,
            anchor: Some((0, 0)),
        },
    }
}

/// Whether the action inserts or deletes at least one character in `v`, as
/// opposed to a pure cursor or selection move (or a delete at the very edge
/// of the document, which removes nothing).
pub open spec fn is_content_edit(v: BufferView, a: EditAction) -> bool {
    match a {
        EditAction::Insert(_) => true,
        EditAction::Enter => true,
        EditAction::Backspace => v.col > 0 || v.line > 0,
        EditAction::Delete => v.col < v.lines[v.line].len() || v.line < v.lines.len() - 1,
        EditAction::Move(_) => false,
        EditAction::Select(_) => false,
        EditAction::SelectAll => false,
    }
}

/// A motion stays within the buffer.
pub proof fn lemma_move_in_bounds(v: BufferView, m: Motion)
    requires
        v.wf(),
    ensures
        0 <= move_spec(v.lines, v.line, v.col, m).0 < v.lines.len(),
        0 <= move_spec(v.lines, v.line, v.col, m).1 <= v.lines[move_spec(
            v.lines,
            v.line,
            v.col,
            m,
        ).0].len(),
{
}

/// Every edit action preserves the buffer invariant.
pub proof fn lemma_apply_wf(v: BufferView, a: EditAction)
    requires
        v.wf(),
    ensures
        apply_spec(v, a).wf(),
{
    let w = apply_spec(v, a);
    match a {
        EditAction::Insert(c) => {
            if c == '\n' {
                lemma_enter_wf(v);
            } else {
                let l2 = v.lines[v.line].insert(v.col, c);
                assert(line_ok(l2));
                assert forall|i: int| 0 <= i < w.lines.len() implies line_ok(
                    #[trigger] w.lines[i],
                ) by {
                    if i != v.line {
                        assert(w.lines[i] == v.lines[i]);
                    }
                }
            }
        }
        EditAction::Enter => {
            lemma_enter_wf(v);
        }
        EditAction::Backspace => {
            if v.col > 0 {
                let l2 = v.lines[v.line].remove(v.col - 1);
                assert(line_ok(l2));
                assert forall|i: int| 0 <= i < w.lines.len() implies line_ok(
                    #[trigger] w.lines[i],
                ) by {
                    if i != v.line {
                        assert(w.lines[i] == v.lines[i]);
                    }
                }
            } else if v.line > 0 {
                let joined = v.lines[v.line - 1] + v.lines[v.line];
                assert(line_ok(joined));
                let u = v.lines.update(v.line - 1, joined);
                assert forall|i: int| 0 <= i < w.lines.len() implies line_ok(
                    #[trigger] w.lines[i],
                ) by {
                    if i < v.line {
                        assert(w.lines[i] == u[i]);
                    } else {
                        assert(w.lines[i] == u[i + 1]);
                    }
                }
            }
        }
        EditAction::Delete => {
            if v.col < v.lines[v.line].len() {
                let l2 = v.lines[v.line].remove(v.col);
                assert(line_ok(l2));
                assert forall|i: int| 0 <= i < w.lines.len() implies line_ok(
                    #[trigger] w.lines[i],
                ) by {
                    if i != v.line {
                        assert(w.lines[i] == v.lines[i]);
                    }
                }
            } else if v.line < v.lines.len() - 1 {
                let joined = v.lines[v.line] + v.lines[v.line + 1];
                assert(line_ok(joined));
                let u = v.lines.update(v.line, joined);
                assert forall|i: int| 0 <= i < w.lines.len() implies line_ok(
                    #[trigger] w.lines[i],
                ) by {
                    if i < v.line + 1 {
                        assert(w.lines[i] == u[i]);
                    } else {
                        assert(w.lines[i] == u[i + 1]);
                    }
                }
            }
        }
        EditAction::Move(m) => {
            lemma_move_in_bounds(v, m);
        }
        EditAction::Select(m) => {
            lemma_move_in_bounds(v, m);
        }
        EditAction::SelectAll => {
        }
    }
}

/// Breaking a line preserves the buffer invariant.
pub proof fn lemma_enter_wf(v: BufferView)
    requires
        v.wf(),
    ensures
        enter_spec(v).wf(),
{
    let w = enter_spec(v);
    let head = v.lines[v.line].take(v.col);
    let tail = v.lines[v.line].skip(v.col);
    assert(line_ok(head));
    assert(line_ok(tail));
    let u = v.lines.update(v.line, head);
    assert forall|i: int| 0 <= i < w.lines.len() implies line_ok(#[trigger] w.lines[i]) by {
        if i <= v.line {
            assert(w.lines[i] == u[i]);
        } else if i == v.line + 1 {
            assert(w.lines[i] == tail);
        } else {
            assert(w.lines[i] == u[i - 1]);
        }
    }
}

/// An action changes the line contents exactly when it is a content edit:
/// cursor and selection moves leave every line as it was, and an insert or
/// delete of at least one character never leaves the lines unchanged.
pub proof fn lemma_content_edit_changes_lines(v: BufferView, a: EditAction)
    requires
        v.wf(),
    ensures
        is_content_edit(v, a) <==> apply_spec(v, a).lines != v.lines,
{
    let w = apply_spec(v, a);
    match a {
        EditAction::Insert(c) => {
            if c == '\n' {
                assert(w.lines.len() != v.lines.len());
            } else {
                assert(w.lines[v.line].len() == v.lines[v.line].len() + 1);
            }
        }
        EditAction::Enter => {
            assert(w.lines.len() != v.lines.len());
        }
        EditAction::Backspace => {
            if v.col > 0 {
                assert(w.lines[v.line].len() == v.lines[v.line].len() - 1);
            } else if v.line > 0 {
                assert(w.lines.len() != v.lines.len());
            }
        }
        EditAction::Delete => {
            if v.col < v.lines[v.line].len() {
                assert(w.lines[v.line].len() == v.lines[v.line].len() - 1);
            } else if v.line < v.lines.len() - 1 {
                assert(w.lines.len() != v.lines.len());
            }
        }
        EditAction::Move(_) => {
        }
        EditAction::Select(_) => {
        }
        EditAction::SelectAll => {
        }
    }
}

/// The other half of the round-trip policy: a text that does end in a
/// newline serializes back with exactly that final newline dropped, since
/// the trailing newline adds no line.
pub proof fn lemma_with_text_drops_trailing_newline(t: Seq<char>)
    requires
        t.len() > 0,
        t.last() == '\n',
    ensures
        buffer_of_text(t).text() == t.drop_last(),
{
    lemma_split_push(t.drop_last(), '\n');
    assert(t.drop_last().push('\n') =~= t);
    lemma_split_text_len(t.drop_last());
    assert(split_text(t) == split_text(t.drop_last()).push(Seq::<char>::empty()));
    assert(split_text(t).drop_last() =~= split_text(t.drop_last()));
    lemma_join_split(t.drop_last());
}

/// Relies on `String::push`: appends the single character to the string.
pub assume_specification[ String::push ](s: &mut String, c: char)
    ensures
        final(s)@ == old(s)@.push(c),
;

/// The in-memory editable document: an always non-empty vector of lines,
/// a cursor and an optional selection anchor.
pub struct Buffer {
    lines: Vec<Vec<char>>,
    line: usize,
    col: usize,
    anchor: Option<(usize, usize)>,
}

impl View for Buffer {
    type V = BufferView;

    closed spec fn view(&self) -> BufferView {
        BufferView {
            lines: views_of(self.lines@),
            line: self.line as int,
            col: self.col as int,
            anchor: match self.anchor {
                Some(a) => Some((a.0 as int, a.1 as int)),
                None => None,
            },
        }
    }
}

impl Buffer {
    /// A buffer with one empty line, cursor at the origin.
    pub fn new_empty() -> (b: Buffer)
        ensures
            b@ == empty_buffer_view(),
            b@.wf(),
    {
        let mut lines: Vec<Vec<char>> = Vec::new();
        lines.push(Vec::new());
        let b = Buffer { lines, line: 0, col: 0, anchor: None };
        proof {
            assert(b@.lines =~= empty_buffer_view().lines);
            assert(b@ == empty_buffer_view());
        }
        b
    }

    /// A buffer pre-populated from a text, split on `'\n'`; a trailing
    /// newline does not add an extra line. Cursor at the origin.
    pub fn with_text(text: &str) -> (b: Buffer)
        ensures
            b@ == buffer_of_text(text@),
            b@.wf(),
    {
        let n = text.unicode_len();
        let mut lines: Vec<Vec<char>> = Vec::new();
        let mut cur: Vec<char> = Vec::new();
        let mut i: usize = 0;
        proof {
            assert(text@.take(0) =~= Seq::<char>::empty());
            assert(split_text(text@.take(0)) =~= views_of(lines@).push(cur@));
        }
        while i < n
            invariant
                i <= n,
                n == text@.len(),
                split_text(text@.take(i as int)) == views_of(lines@).push(cur@),
            decreases n - i,
        {
            let c = text.get_char(i);
            let ghost prefix = text@.take(i as int);
            let ghost old_lines = lines@;
            let ghost old_cur = cur@;
            if c == '\n' {
                lines.push(cur);
                cur = Vec::new();
            } else {
                cur.push(c);
            }
            i = i + 1;
            proof {
                lemma_split_push(prefix, c);
                lemma_split_text_len(prefix);
                assert(text@.take(i as int) =~= prefix.push(c));
                if c == '\n' {
                    assert(views_of(lines@) =~= views_of(old_lines).push(old_cur));
                    assert(split_text(text@.take(i as int)) =~= views_of(lines@).push(cur@));
                } else {
                    let s = split_text(prefix);
                    assert(s.last() == old_cur);
                    assert(views_of(lines@) =~= views_of(old_lines));
                    assert(split_text(text@.take(i as int)) =~= views_of(lines@).push(cur@));
                }
            }
        }
        proof {
            assert(text@.take(n as int) =~= text@);
        }
        let trailing = if n == 0 {
            false
        } else {
            text.get_char(n - 1) == '\n'
        };
        if !trailing {
            let ghost old_lines = lines@;
            let ghost old_cur = cur@;
            lines.push(cur);
            proof {
                assert(views_of(lines@) =~= views_of(old_lines).push(old_cur));
                assert(views_of(lines@) == lines_of_text(text@));
            }
        } else {
            proof {
                lemma_split_trailing_newline(text@);
                assert(split_text(text@).drop_last() =~= views_of(lines@));
                assert(views_of(lines@) == lines_of_text(text@));
            }
        }
        let b = Buffer { lines, line: 0, col: 0, anchor: None };
        proof {
            lemma_split_text_lines_ok(text@);
            assert(b@ == buffer_of_text(text@));
            if text@.len() > 0 && text@.last() == '\n' {
                assert(forall|j: int|
                    0 <= j < b@.lines.len() ==> line_ok(#[trigger] b@.lines[j]));
            }
            assert(b@.wf());
        }
        b
    }

    /// Serializes the buffer back to a single text, lines joined by `'\n'`.
    pub fn text(&self) -> (r: String)
        requires
            self@.wf(),
        ensures
            r@ == self@.text(),
    {
        let mut out = String::new();
        let mut i: usize = 0;
        let ghost v = self@.lines;
        proof {
            assert(v.take(0) =~= Seq::<Seq<char>>::empty());
        }
        while i < self.lines.len()
            invariant
                i <= self.lines.len(),
                v == views_of(self.lines@),
                out@ == join_lines(v.take(i as int)),
            decreases self.lines.len() - i,
        {
            let ghost out_before = out@;
            if i > 0 {
                out.push('\n');
            }
            let mut j: usize = 0;
            while j < self.lines[i].len()
                invariant
                    i < self.lines.len(),
                    j <= self.lines[i as int]@.len(),
                    v == views_of(self.lines@),
                    out_before == join_lines(v.take(i as int)),
                    i == 0 ==> out@ == out_before + v[i as int].take(j as int),
                    i > 0 ==> out@ == out_before.push('\n') + v[i as int].take(j as int),
                decreases self.lines[i as int]@.len() - j,
            {
                let c = self.lines[i][j];
                out.push(c);
                j = j + 1;
                proof {
                    assert(v[i as int].take(j as int) =~= v[i as int].take(j - 1).push(c));
                    if i == 0 {
                        assert(out@ =~= out_before + v[i as int].take(j as int));
                    } else {
                        assert(out@ =~= out_before.push('\n') + v[i as int].take(j as int));
                    }
                }
            }
            proof {
                assert(v[i as int].take(v[i as int].len() as int) =~= v[i as int]);
                lemma_join_push(v.take(i as int), v[i as int]);
                assert(v.take(i + 1) =~= v.take(i as int).push(v[i as int]));
                if i == 0 {
                    assert(out@ =~= join_lines(v.take(i + 1)));
                } else {
                    assert(out@ =~= join_lines(v.take(i + 1)));
                }
            }
            i = i + 1;
        }
        proof {
            assert(v.take(self.lines@.len() as int) =~= v);
        }
        out
    }

    /// The cursor position, zero-based line and column. A presentation layer
    /// that displays one-based positions adds one at its own boundary.
    pub fn cursor_position(&self) -> (p: (usize, usize))
        ensures
            p.0 as int == self@.line,
            p.1 as int == self@.col,
    {
        (self.line, self.col)
    }

    /// The selection anchor, when a selection is active. The selected range
    /// runs between the anchor and the cursor, in either order.
    pub fn selection_anchor(&self) -> (a: Option<(usize, usize)>)
        ensures
            match a {
                Some(p) => self@.anchor == Some((p.0 as int, p.1 as int)),
                None => self@.anchor is None,
            },
    {
        self.anchor
    }

    /// The cursor position the motion reaches from the current one.
    fn target(&self, m: Motion) -> (p: (usize, usize))
        requires
            self@.wf(),
        ensures
            (p.0 as int, p.1 as int) == move_spec(self@.lines, self@.line, self@.col, m),
    {
        match m {
            Motion::Left => {
                if self.col > 0 {
                    (self.line, self.col - 1)
                } else if self.line > 0 {
                    (self.line - 1, self.lines[self.line - 1].len())
                } else {
                    (self.line, self.col)
                }
            }
            Motion::Right => {
                let n = self.lines.len();
                if self.col < self.lines[self.line].len() {
                    (self.line, self.col + 1)
                } else if self.line + 1 < n {
                    (self.line + 1, 0)
                } else {
                    (self.line, self.col)
                }
            }
            Motion::Up => {
                if self.line > 0 {
                    let l = self.lines[self.line - 1].len();
                    (self.line - 1, if self.col <= l { self.col } else { l })
                } else {
                    (self.line, self.col)
                }
            }
            Motion::Down => {
                let n = self.lines.len();
                if self.line + 1 < n {
                    let l = self.lines[self.line + 1].len();
                    (self.line + 1, if self.col <= l { self.col } else { l })
                } else {
                    (self.line, self.col)
                }
            }
            Motion::LineStart => (self.line, 0),
            Motion::LineEnd => (self.line, self.lines[self.line].len()),
            Motion::DocumentStart => (0, 0),
            Motion::DocumentEnd => (
                self.lines.len() - 1,
                self.lines[self.lines.len() - 1].len(),
            ),
        }
    }

    /// Inserts a character other than a newline at the cursor.
    fn insert_char(&mut self, c: char)
        requires
            old(self)@.wf(),
            c != '\n',
        ensures
            final(self)@ == apply_spec(old(self)@, EditAction::Insert(c)),
    {
        self.anchor = None;
        let cl = self.line;
        let cc = self.col;
        self.lines[cl].insert(cc, c);
        let nl = self.lines[cl].len();
        proof {
            assert(cc < nl);
        }
        self.col = cc + 1;
        proof {
            assert(views_of(self.lines@) =~~= old(self)@.lines.update(
                cl as int,
                old(self)@.lines[cl as int].insert(cc as int, c),
            ));
            assert(self@ == apply_spec(old(self)@, EditAction::Insert(c)));
        }
    }

    /// Breaks the current line at the cursor.
    fn newline(&mut self)
        requires
            old(self)@.wf(),
        ensures
            final(self)@ == enter_spec(old(self)@),
    {
        self.anchor = None;
        let cl = self.line;
        let cc = self.col;
        let n = self.lines.len();
        proof {
            assert(cl < n);
        }
        let tail = self.lines[cl].split_off(cc);
        self.lines.insert(cl + 1, tail);
        self.line = cl + 1;
        self.col = 0;
        proof {
            assert(old(self)@.lines[cl as int].take(cc as int) == old(
                self,
            ).lines@[cl as int]@.subrange(0, cc as int));
            assert(views_of(self.lines@) =~~= old(self)@.lines.update(
                cl as int,
                old(self)@.lines[cl as int].take(cc as int),
            ).insert(cl + 1, old(self)@.lines[cl as int].skip(cc as int)));
            assert(self@ == enter_spec(old(self)@));
        }
    }

    /// Applies one edit action in place and reports whether it changed the
    /// content (as opposed to only moving the cursor or the selection), so
    /// the caller can maintain its dirty flag.
    pub fn apply(&mut self, action: EditAction) -> (changed: bool)
        requires
            old(self)@.wf(),
        ensures
            final(self)@ == apply_spec(old(self)@, action),
            final(self)@.wf(),
            changed == is_content_edit(old(self)@, action),
    {
        proof {
            lemma_apply_wf(old(self)@, action);
        }
        match action {
            EditAction::Insert(c) => {
                if c == '\n' {
                    self.newline();
                } else {
                    self.insert_char(c);
                }
                true
            }
            EditAction::Enter => {
                self.newline();
                true
            }
            EditAction::Backspace => {
                if self.col > 0 {
                    self.anchor = None;
                    let cl = self.line;
                    let cc = self.col;
                    self.lines[cl].remove(cc - 1);
                    self.col = cc - 1;
                    proof {
                        assert(views_of(self.lines@) =~~= old(self)@.lines.update(
                            cl as int,
                            old(self)@.lines[cl as int].remove(cc - 1),
                        ));
                        assert(self@ == apply_spec(old(self)@, action));
                    }
                    true
                } else if self.line > 0 {
                    self.anchor = None;
                    let cl = self.line;
                    let mut tail = self.lines.remove(cl);
                    let prev_len = self.lines[cl - 1].len();
                    self.lines[cl - 1].append(&mut tail);
                    self.line = cl - 1;
                    self.col = prev_len;
                    proof {
                        assert(views_of(self.lines@) =~~= old(self)@.lines.update(
                            cl - 1,
                            old(self)@.lines[cl - 1] + old(self)@.lines[cl as int],
                        ).remove(cl as int));
                        assert(self@ == apply_spec(old(self)@, action));
                    }
                    true
                } else {
                    self.anchor = None;
                    proof {
                        assert(self@ == apply_spec(old(self)@, action));
                    }
                    false
                }
            }
            EditAction::Delete => {
                let cl = self.line;
                let cc = self.col;
                let n = self.lines.len();
                let ll = self.lines[cl].len();
                if cc < ll {
                    self.anchor = None;
                    self.lines[cl].remove(cc);
                    proof {
                        assert(views_of(self.lines@) =~~= old(self)@.lines.update(
                            cl as int,
                            old(self)@.lines[cl as int].remove(cc as int),
                        ));
                        assert(self@ == apply_spec(old(self)@, action));
                    }
                    true
                } else if cl + 1 < n {
                    self.anchor = None;
                    let mut tail = self.lines.remove(cl + 1);
                    self.lines[cl].append(&mut tail);
                    proof {
                        assert(views_of(self.lines@) =~~= old(self)@.lines.update(
                            cl as int,
                            old(self)@.lines[cl as int] + old(self)@.lines[cl + 1],
                        ).remove(cl + 1));
                        assert(self@ == apply_spec(old(self)@, action));
                    }
                    true
                } else {
                    self.anchor = None;
                    proof {
                        assert(self@ == apply_spec(old(self)@, action));
                    }
                    false
                }
            }
            EditAction::Move(m) => {
                let p = self.target(m);
                self.line = p.0;
                self.col = p.1;
                self.anchor = None;
                proof {
                    assert(self@ == apply_spec(old(self)@, action));
                }
                false
            }
            EditAction::Select(m) => {
                let p = self.target(m);
                let a = match self.anchor {
                    Some(q) => q,
                    None => (self.line, self.col),
                };
                self.anchor = Some(a);
                self.line = p.0;
                self.col = p.1;
                proof {
                    assert(self@ == apply_spec(old(self)@, action));
                }
                false
            }
            EditAction::SelectAll => {
                self.anchor = Some((0, 0));
                let last = self.lines.len() - 1;
                self.line = last;
                self.col = self.lines[last].len();
                proof {
                    assert(self@ == apply_spec(old(self)@, action));
                }
                false
            }
        }
    }
}

} // verus!

//! Abstract state of the text buffer.
//!
//! A buffer is modelled as a character sequence, a cursor offset, an optional
//! selection anchor, and two stacks of reversible edit actions. Every public
//! operation of [`crate::buffer::TextBuffer`] is specified as a function from
//! model to model; the executable methods promise to realise exactly these
//! functions.

use vstd::prelude::*;

use crate::classify::{cat_of, word_delete_start, word_left_pos, word_right_pos, run_start, run_end};
use crate::text_spec::{line_count, line_len, line_of, line_start, newlines_before};

verus! {

/// A reversible edit, as recorded on the undo and redo stacks.
#[verifier::ext_equal]
pub enum ActView {
    Insert { start: int, text: Seq<char> },
    Delete { start: int, text: Seq<char> },
    Replace { start: int, old_text: Seq<char>, new_text: Seq<char> },
}

/// Abstract state of a text buffer.
#[verifier::ext_equal]
pub struct BufView {
    pub text: Seq<char>,
    pub cursor: int,
    pub anchor: Option<int>,
    pub undo: Seq<ActView>,
    pub redo: Seq<ActView>,
}

/// `s` with `t` spliced in at offset `i`.
pub open spec fn splice(s: Seq<char>, i: int, t: Seq<char>) -> Seq<char> {
    s.subrange(0, i) + t + s.subrange(i, s.len() as int)
}

/// `s` with the characters of `[a, b)` removed.
pub open spec fn cut(s: Seq<char>, a: int, b: int) -> Seq<char> {
    s.subrange(0, a) + s.subrange(b, s.len() as int)
}

/// Undoing an action must fit the current text length.
pub open spec fn act_undo_ok(len: int, a: ActView) -> bool {
    match a {
        ActView::Insert { start, text } => 0 <= start && start + text.len() <= len,
        ActView::Delete { start, text } => 0 <= start <= len,
        ActView::Replace { start, old_text, new_text } => 0 <= start && start + new_text.len()
            <= len,
    }
}

/// Change in text length caused by undoing an action.
pub open spec fn act_undo_delta(a: ActView) -> int {
    match a {
        ActView::Insert { start, text } => -(text.len() as int),
        ActView::Delete { start, text } => text.len() as int,
        ActView::Replace { start, old_text, new_text } => old_text.len() - new_text.len(),
    }
}

/// Redoing (re-applying) an action must fit the current text length.
pub open spec fn act_redo_ok(len: int, a: ActView) -> bool {
    match a {
        ActView::Insert { start, text } => 0 <= start <= len,
        ActView::Delete { start, text } => 0 <= start && start + text.len() <= len,
        ActView::Replace { start, old_text, new_text } => 0 <= start && start + old_text.len()
            <= len,
    }
}

/// Undoing the whole stack, top first, stays within bounds throughout.
pub open spec fn undo_chain_ok(len: int, stack: Seq<ActView>) -> bool
    decreases stack.len(),
{
    stack.len() == 0 || {
        let a = stack.last();
        act_undo_ok(len, a) && undo_chain_ok(len + act_undo_delta(a), stack.drop_last())
    }
}

/// Redoing the whole stack, top first, stays within bounds throughout.
pub open spec fn redo_chain_ok(len: int, stack: Seq<ActView>) -> bool
    decreases stack.len(),
{
    stack.len() == 0 || {
        let a = stack.last();
        act_redo_ok(len, a) && redo_chain_ok(len - act_undo_delta(a), stack.drop_last())
    }
}

/// Pushing a freshly recorded action keeps the undo chain replayable: the
/// action itself fits the new text length, and undoing it restores the
/// length the rest of the chain was replayable from.
pub proof fn lemma_undo_chain_push(len: int, stack: Seq<ActView>, a: ActView)
    requires
        act_undo_ok(len, a),
        undo_chain_ok(len + act_undo_delta(a), stack),
    ensures
        undo_chain_ok(len, stack.push(a)),
{
    assert(stack.push(a).last() == a);
    assert(stack.push(a).drop_last() =~= stack);
}

/// The mirror image for the redo chain.
pub proof fn lemma_redo_chain_push(len: int, stack: Seq<ActView>, a: ActView)
    requires
        act_redo_ok(len, a),
        redo_chain_ok(len - act_undo_delta(a), stack),
    ensures
        redo_chain_ok(len, stack.push(a)),
{
    assert(stack.push(a).last() == a);
    assert(stack.push(a).drop_last() =~= stack);
}

/// Replayability only loosens when the text grows: every bound in the chain
/// is an upper bound against the current length.
pub proof fn lemma_undo_chain_grow(len: int, d: int, stack: Seq<ActView>)
    requires
        undo_chain_ok(len, stack),
        d >= 0,
    ensures
        undo_chain_ok(len + d, stack),
    decreases stack.len(),
{
    if stack.len() > 0 {
        lemma_undo_chain_grow(len + act_undo_delta(stack.last()), d, stack.drop_last());
    }
}

/// The mirror image for the redo chain.
pub proof fn lemma_redo_chain_grow(len: int, d: int, stack: Seq<ActView>)
    requires
        redo_chain_ok(len, stack),
        d >= 0,
    ensures
        redo_chain_ok(len + d, stack),
    decreases stack.len(),
{
    if stack.len() > 0 {
        lemma_redo_chain_grow(len - act_undo_delta(stack.last()), d, stack.drop_last());
    }
}

impl BufView {
    /// Well-formedness: cursor and anchor lie within the text, and both
    /// history stacks can be replayed without running out of bounds.
    pub open spec fn wf(self) -> bool {
        &&& 0 <= self.cursor <= self.text.len()
        &&& match self.anchor {
            Some(a) => 0 <= a <= self.text.len(),
            None => true,
        }
        &&& undo_chain_ok(self.text.len() as int, self.undo)
        &&& redo_chain_ok(self.text.len() as int, self.redo)
    }

    /// The selection as an ascending range, or `None` when collapsed.
    pub open spec fn sel_range(self) -> Option<(int, int)> {
        match self.anchor {
            None => None,
            Some(a) => if a == self.cursor {
                None
            } else if a < self.cursor {
                Some((a, self.cursor))
            } else {
                Some((self.cursor, a))
            },
        }
    }

    /// Whether a non-collapsed selection is active.
    pub open spec fn has_sel(self) -> bool {
        self.sel_range() is Some
    }
}

/// Anchor handling shared by all movement operations: selecting movement
/// plants an anchor at the current cursor if none is active; non-selecting
/// movement clears it.
pub open spec fn with_selection(v: BufView, selecting: bool) -> BufView {
    if selecting {
        if v.anchor is None {
            BufView { anchor: Some(v.cursor), ..v }
        } else {
            v
        }
    } else {
        BufView { anchor: None, ..v }
    }
}

/// Recording a fresh edit: push onto the undo stack, clear the redo stack.
pub open spec fn record(v: BufView, a: ActView) -> BufView {
    BufView { undo: v.undo.push(a), redo: Seq::empty(), ..v }
}

/// Deleting the selected span: the span is removed, a `Delete` is recorded,
/// and the cursor collapses to the start of the cut.
pub open spec fn delete_selection_step(v: BufView) -> BufView {
    match v.sel_range() {
        None => v,
        Some((a, b)) => {
            let v1 = record(v, ActView::Delete { start: a, text: v.text.subrange(a, b) });
            BufView { text: cut(v.text, a, b), cursor: a, anchor: None, ..v1 }
        },
    }
}

/// Inserting text at the cursor. An active selection is deleted first; a
/// collapsed anchor is dropped, so that the edit cannot leave an anchor
/// dangling past the end of the text; the cursor ends just past the inserted
/// text.
pub open spec fn insert_str_step(v: BufView, t: Seq<char>) -> BufView {
    let v1 = if v.has_sel() {
        delete_selection_step(v)
    } else {
        BufView { anchor: None, ..v }
    };
    let v2 = record(v1, ActView::Insert { start: v1.cursor, text: t });
    BufView { text: splice(v1.text, v1.cursor, t), cursor: v1.cursor + t.len(), ..v2 }
}

/// Backspace: delete the selection, or the single character before the
/// cursor. A collapsed anchor is dropped.
pub open spec fn backspace_step(v: BufView) -> BufView {
    if v.has_sel() {
        delete_selection_step(v)
    } else if v.cursor > 0 {
        let c = v.cursor;
        let v1 = record(v, ActView::Delete { start: c - 1, text: v.text.subrange(c - 1, c) });
        BufView { text: cut(v.text, c - 1, c), cursor: c - 1, anchor: None, ..v1 }
    } else {
        v
    }
}

/// Forward delete: delete the selection, or the single character after the
/// cursor.
pub open spec fn delete_step(v: BufView) -> BufView {
    if v.has_sel() {
        delete_selection_step(v)
    } else if v.cursor < v.text.len() {
        let c = v.cursor;
        let v1 = record(v, ActView::Delete { start: c, text: v.text.subrange(c, c + 1) });
        BufView { text: cut(v.text, c, c + 1), anchor: None, ..v1 }
    } else {
        v
    }
}

/// Word-leftward deletion: delete the selection if one is active; otherwise
/// remove from the word-deletion boundary up to the cursor as one action.
pub open spec fn delete_word_left_step(v: BufView) -> BufView {
    if v.has_sel() {
        delete_selection_step(v)
    } else if v.cursor == 0 {
        v
    } else {
        let start = word_delete_start(v.text, v.cursor) as int;
        if start < v.cursor {
            let v1 = record(
                v,
                ActView::Delete { start: start, text: v.text.subrange(start, v.cursor) },
            );
            BufView { text: cut(v.text, start, v.cursor), cursor: start, anchor: None, ..v1 }
        } else {
            v
        }
    }
}

pub open spec fn move_left_step(v: BufView, selecting: bool) -> BufView {
    let v1 = with_selection(v, selecting);
    if v.cursor > 0 {
        BufView { cursor: v.cursor - 1, ..v1 }
    } else {
        v1
    }
}

pub open spec fn move_right_step(v: BufView, selecting: bool) -> BufView {
    let v1 = with_selection(v, selecting);
    if v.cursor < v.text.len() {
        BufView { cursor: v.cursor + 1, ..v1 }
    } else {
        v1
    }
}

pub open spec fn move_word_left_step(v: BufView, selecting: bool) -> BufView {
    let v1 = with_selection(v, selecting);
    BufView { cursor: word_left_pos(v.text, v.cursor) as int, ..v1 }
}

pub open spec fn move_word_right_step(v: BufView, selecting: bool) -> BufView {
    let v1 = with_selection(v, selecting);
    BufView { cursor: word_right_pos(v.text, v.cursor) as int, ..v1 }
}

pub open spec fn move_up_step(v: BufView, selecting: bool) -> BufView {
    let v1 = with_selection(v, selecting);
    let l = line_of(v.text, v.cursor) as int;
    if l == 0 {
        BufView { cursor: 0, ..v1 }
    } else {
        let col = v.cursor - line_start(v.text, l);
        let plen = line_len(v.text, l - 1) - 1;
        let c = line_start(v.text, l - 1) + (if col < plen {
            col
        } else {
            plen
        });
        BufView { cursor: c, ..v1 }
    }
}

pub open spec fn move_down_step(v: BufView, selecting: bool) -> BufView {
    let v1 = with_selection(v, selecting);
    let l = line_of(v.text, v.cursor) as int;
    let total = line_count(v.text) as int;
    if l >= total - 1 {
        BufView { cursor: v.text.len() as int, ..v1 }
    } else {
        let col = v.cursor - line_start(v.text, l);
        let nlen = if l + 1 < total - 1 {
            line_len(v.text, l + 1) - 1
        } else {
            line_len(v.text, l + 1) as int
        };
        let c = line_start(v.text, l + 1) + (if col < nlen {
            col
        } else {
            nlen
        });
        BufView { cursor: c, ..v1 }
    }
}

pub open spec fn move_to_line_start_step(v: BufView, selecting: bool) -> BufView {
    let v1 = with_selection(v, selecting);
    BufView { cursor: line_start(v.text, line_of(v.text, v.cursor) as int) as int, ..v1 }
}

/// End-of-line movement stops before a trailing `'\n'`.
pub open spec fn move_to_line_end_step(v: BufView, selecting: bool) -> BufView {
    let v1 = with_selection(v, selecting);
    let l = line_of(v.text, v.cursor) as int;
    let e = line_start(v.text, l + 1) as int;
    let c = if e > line_start(v.text, l) && v.text[e - 1] == '\n' {
        e - 1
    } else {
        e
    };
    BufView { cursor: c, ..v1 }
}

pub open spec fn move_to_start_step(v: BufView, selecting: bool) -> BufView {
    let v1 = with_selection(v, selecting);
    BufView { cursor: 0, ..v1 }
}

pub open spec fn move_to_end_step(v: BufView, selecting: bool) -> BufView {
    let v1 = with_selection(v, selecting);
    BufView { cursor: v.text.len() as int, ..v1 }
}

/// The effective length of a line: without its trailing `'\n'`, except on the
/// last line, which has none.
pub open spec fn effective_line_len(s: Seq<char>, l: int) -> int {
    if l < line_count(s) - 1 {
        line_len(s, l) - 1
    } else {
        line_len(s, l) as int
    }
}

/// Jump to a line and column, both clamped to what the text offers.
pub open spec fn set_cursor_line_col_step(v: BufView, line: int, col: int, selecting: bool) -> BufView {
    let v1 = with_selection(v, selecting);
    let total = line_count(v.text) as int;
    let tl = if line < total - 1 {
        line
    } else {
        total - 1
    };
    let eff = effective_line_len(v.text, tl);
    let tc = if col < eff {
        col
    } else {
        eff
    };
    BufView { cursor: line_start(v.text, tl) + tc, ..v1 }
}

pub open spec fn select_all_step(v: BufView) -> BufView {
    BufView { anchor: Some(0int), cursor: v.text.len() as int, ..v }
}

/// Select the category run around the cursor: the character at the cursor
/// (or the last character, if the cursor is at the end) picks the category.
pub open spec fn select_word_step(v: BufView) -> BufView {
    if v.text.len() == 0 {
        v
    } else {
        let idx = if v.cursor == v.text.len() {
            v.text.len() - 1
        } else {
            v.cursor
        };
        let cat = cat_of(v.text[idx]);
        let start = run_start(v.text, idx, cat) as int;
        let end = run_end(v.text, idx + 1, cat) as int;
        BufView { anchor: Some(start), cursor: end, ..v }
    }
}

/// Select the whole line under the cursor, including its trailing `'\n'`.
pub open spec fn select_line_step(v: BufView) -> BufView {
    if v.text.len() == 0 {
        v
    } else {
        let l = line_of(v.text, v.cursor) as int;
        BufView {
            anchor: Some(line_start(v.text, l) as int),
            cursor: line_start(v.text, l + 1) as int,
            ..v
        }
    }
}

/// The inclusive range of lines that a line transposition moves: the lines
/// spanned by the selection, or the cursor's line. A selection ending
/// exactly at a line start does not pull that line in.
pub open spec fn line_range_of(v: BufView) -> (int, int) {
    match v.sel_range() {
        Some((a, b)) => {
            let sl = line_of(v.text, a) as int;
            let el0 = line_of(v.text, b) as int;
            let el = if b > 0 && b == line_start(v.text, el0) {
                if el0 > 0 {
                    el0 - 1
                } else {
                    0
                }
            } else {
                el0
            };
            (sl, el)
        },
        None => {
            let l = line_of(v.text, v.cursor) as int;
            (l, l)
        },
    }
}

/// The text with a trailing `'\n'` appended when it lacks one (and is not
/// empty), so that every line taking part in a transposition ends with a
/// break.
pub open spec fn ensure_nl(s: Seq<char>) -> Seq<char> {
    if s.len() > 0 && s[s.len() - 1] != '\n' {
        s.push('\n')
    } else {
        s
    }
}

/// Move the selected lines (or the cursor's line) up by one line. A missing
/// trailing newline is appended first, so the content may gain one; the
/// cursor and anchor shift with the moved block. Not recorded as an undo
/// step.
pub open spec fn move_lines_up_step(v: BufView) -> BufView {
    let (sl0, el0) = line_range_of(v);
    if sl0 == 0 {
        v
    } else {
        let t1 = ensure_nl(v.text);
        let v1 = BufView { text: t1, ..v };
        let (sl, el) = line_range_of(v1);
        let a = line_start(t1, sl0 - 1) as int;
        let b = line_start(t1, sl) as int;
        let c = line_start(t1, el + 1) as int;
        let moved = t1.subrange(0, a) + t1.subrange(b, c) + t1.subrange(a, b) + t1.subrange(
            c,
            t1.len() as int,
        );
        BufView {
            text: moved,
            cursor: v.cursor - (b - a),
            anchor: match v.anchor {
                None => None,
                Some(x) => Some(x - (b - a)),
            },
            ..v
        }
    }
}

/// Move the selected lines (or the cursor's line) down by one line, the
/// mirror image of [`move_lines_up_step`].
pub open spec fn move_lines_down_step(v: BufView) -> BufView {
    let (sl0, el0) = line_range_of(v);
    let total0 = line_count(v.text) as int;
    if el0 + 1 >= total0 {
        v
    } else {
        let t1 = ensure_nl(v.text);
        let v1 = BufView { text: t1, ..v };
        let (sl, el) = line_range_of(v1);
        let total1 = line_count(t1) as int;
        if el + 1 >= total1 {
            BufView { text: t1, ..v }
        } else {
            let b = line_start(t1, sl) as int;
            let c = line_start(t1, el + 1) as int;
            let ins = line_start(t1, el + 2) as int;
            let moved = t1.subrange(0, b) + t1.subrange(c, ins) + t1.subrange(b, c) + t1.subrange(
                ins,
                t1.len() as int,
            );
            BufView {
                text: moved,
                cursor: v.cursor + (ins - c),
                anchor: match v.anchor {
                    None => None,
                    Some(x) => Some(x + (ins - c)),
                },
                ..v
            }
        }
    }
}

/// Appending the trailing newline moves no existing line boundary, so the
/// transposition range is computed the same before and after it.
pub proof fn lemma_line_range_preserved(v: BufView)
    requires
        v.wf(),
    ensures
        line_range_of(BufView { text: ensure_nl(v.text), ..v }) == line_range_of(v),
        line_count(ensure_nl(v.text)) >= line_count(v.text),
        forall|l: int|
            0 <= l < line_count(v.text) ==> line_start(ensure_nl(v.text), l) == line_start(
                v.text,
                l,
            ),
        forall|i: int|
            0 <= i <= v.text.len() ==> newlines_before(ensure_nl(v.text), i) == newlines_before(
                v.text,
                i,
            ),
{
    let s = v.text;
    let t = ensure_nl(s);
    if s.len() > 0 && s[s.len() - 1] != '\n' {
        assert forall|i: int| 0 <= i <= s.len() implies newlines_before(t, i) == newlines_before(
            s,
            i,
        ) by {
            crate::text_spec::lemma_push_newlines(s, '\n', i);
        }
        assert forall|l: int| 0 <= l < line_count(s) implies line_start(t, l) == line_start(
            s,
            l,
        ) by {
            crate::text_spec::lemma_push_line_start(s, '\n', l);
        }
        crate::text_spec::lemma_push_nl_count(s);
        match v.sel_range() {
            Some((a, b)) => {
                crate::text_spec::lemma_line_start_le(s, b);
            },
            None => {
                crate::text_spec::lemma_line_start_le(s, v.cursor);
            },
        }
    }
}

/// Undo: pop the newest action, apply its inverse, collapse the selection,
/// and hand the action to the redo stack.
pub open spec fn undo_step(v: BufView) -> BufView {
    if v.undo.len() == 0 {
        v
    } else {
        let a = v.undo.last();
        let popped = BufView { undo: v.undo.drop_last(), redo: v.redo.push(a), anchor: None, ..v };
        match a {
            ActView::Insert { start, text } => BufView {
                text: cut(v.text, start, start + text.len()),
                cursor: start,
                ..popped
            },
            ActView::Delete { start, text } => BufView {
                text: splice(v.text, start, text),
                cursor: start + text.len(),
                ..popped
            },
            ActView::Replace { start, old_text, new_text } => BufView {
                text: splice(cut(v.text, start, start + new_text.len()), start, old_text),
                cursor: start + old_text.len(),
                ..popped
            },
        }
    }
}

/// Redo: pop the newest undone action, re-apply it, collapse the selection,
/// and hand the action back to the undo stack.
pub open spec fn redo_step(v: BufView) -> BufView {
    if v.redo.len() == 0 {
        v
    } else {
        let a = v.redo.last();
        let popped = BufView { redo: v.redo.drop_last(), undo: v.undo.push(a), anchor: None, ..v };
        match a {
            ActView::Insert { start, text } => BufView {
                text: splice(v.text, start, text),
                cursor: start + text.len(),
                ..popped
            },
            ActView::Delete { start, text } => BufView {
                text: cut(v.text, start, start + text.len()),
                cursor: start,
                ..popped
            },
            ActView::Replace { start, old_text, new_text } => BufView {
                text: splice(cut(v.text, start, start + old_text.len()), start, new_text),
                cursor: start + new_text.len(),
                ..popped
            },
        }
    }
}

} // verus!

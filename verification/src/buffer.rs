//! The text buffer: rope-backed storage with cursor, selection, and history.
//!
//! Every method's effect on the abstract state is given by the corresponding
//! `*_step` function of [`crate::buffer_model`]; the methods here promise
//! exactly those transitions and preserve well-formedness.

use vstd::prelude::*;
use vstd::string::StrSliceExecFns;

use crate::buffer_model::{
    backspace_step, cut, delete_selection_step, delete_step, delete_word_left_step, ensure_nl,
    insert_str_step, lemma_line_range_preserved, lemma_redo_chain_grow, lemma_redo_chain_push,
    lemma_undo_chain_grow, lemma_undo_chain_push, line_range_of, move_down_step, move_left_step,
    move_lines_down_step, move_lines_up_step,
    move_right_step, move_to_end_step, move_up_step, move_to_line_end_step,
    move_to_line_start_step, move_to_start_step, move_word_left_step, move_word_right_step, record,
    redo_step, select_all_step, select_line_step, select_word_step, set_cursor_line_col_step,
    undo_step, with_selection, ActView, BufView,
};
use crate::classify::{
    cat_of, classify, run_end, run_start, word_delete_start, word_left_pos, word_right_pos,
    CharCat,
};
use crate::rope_store::{
    rope_char, rope_char_to_line, rope_chars, rope_from_str, rope_insert, rope_insert_char,
    rope_len_chars, rope_len_lines, rope_line_len, rope_line_to_char, rope_new, rope_remove,
    rope_slice_to_string, rope_to_string,
};
use crate::text_spec::{
    lemma_line_start_end, lemma_line_start_le, lemma_line_start_mono, lemma_line_start_mono_multi,
    lemma_line_start_props, lemma_newlines_mono, line_count, line_of, line_start, newlines_before,
};

verus! {

/// Relies on char::to_string from std: a one-character string.
#[verifier::external_body]
fn char_to_string(c: char) -> (s: String)
    ensures
        s@ == seq![c],
{
    c.to_string()
}

/// A reversible edit recorded for undo/redo.
enum EditAction {
    Insert { start: usize, text: String },
    Delete { start: usize, text: String },
    Replace { start: usize, old_text: String, new_text: String },
}

impl View for EditAction {
    type V = ActView;

    closed spec fn view(&self) -> ActView {
        match self {
            EditAction::Insert { start, text } => ActView::Insert {
                start: *start as int,
                text: text@,
            },
            EditAction::Delete { start, text } => ActView::Delete {
                start: *start as int,
                text: text@,
            },
            EditAction::Replace { start, old_text, new_text } => ActView::Replace {
                start: *start as int,
                old_text: old_text@,
                new_text: new_text@,
            },
        }
    }
}

/// A character buffer with logarithmic-time edits, a cursor/selection pair,
/// and an undo/redo log.
pub struct TextBuffer {
    rope: ropey::Rope,
    cursor: usize,
    selection_anchor: Option<usize>,
    undo_stack: Vec<EditAction>,
    redo_stack: Vec<EditAction>,
}

impl View for TextBuffer {
    type V = BufView;

    closed spec fn view(&self) -> BufView {
        BufView {
            text: rope_chars(self.rope),
            cursor: self.cursor as int,
            anchor: match self.selection_anchor {
                Some(a) => Some(a as int),
                None => None,
            },
            undo: self.undo_stack@.map_values(|a: EditAction| a@),
            redo: self.redo_stack@.map_values(|a: EditAction| a@),
        }
    }
}

impl TextBuffer {
    /// An empty buffer.
    pub fn new() -> (r: Self)
        ensures
            r@.wf(),
            r@ == (BufView {
                text: Seq::<char>::empty(),
                cursor: 0int,
                anchor: None::<int>,
                undo: Seq::<ActView>::empty(),
                redo: Seq::<ActView>::empty(),
            }),
    {
        let r = TextBuffer {
            rope: rope_new(),
            cursor: 0,
            selection_anchor: None,
            undo_stack: Vec::new(),
            redo_stack: Vec::new(),
        };
        proof {
            assert(r@.undo =~= Seq::<ActView>::empty());
            assert(r@.redo =~= Seq::<ActView>::empty());
        }
        r
    }

    /// A buffer holding the given initial text, cursor at the start.
    pub fn from_str(text: &str) -> (r: Self)
        ensures
            r@.wf(),
            r@ == (BufView {
                text: text@,
                cursor: 0int,
                anchor: None::<int>,
                undo: Seq::<ActView>::empty(),
                redo: Seq::<ActView>::empty(),
            }),
    {
        let r = TextBuffer {
            rope: rope_from_str(text),
            cursor: 0,
            selection_anchor: None,
            undo_stack: Vec::new(),
            redo_stack: Vec::new(),
        };
        proof {
            assert(r@.undo =~= Seq::<ActView>::empty());
            assert(r@.redo =~= Seq::<ActView>::empty());
        }
        r
    }

    /// The whole text as a string.
    pub fn content(&self) -> (s: String)
        ensures
            s@ == self@.text,
    {
        rope_to_string(&self.rope)
    }

    /// The cursor's character offset.
    pub fn cursor(&self) -> (c: usize)
        ensures
            c as int == self@.cursor,
    {
        self.cursor
    }

    /// Number of characters in the buffer.
    pub fn len(&self) -> (n: usize)
        ensures
            n as nat == self@.text.len(),
    {
        rope_len_chars(&self.rope)
    }

    /// Whether the buffer holds no characters.
    pub fn is_empty(&self) -> (r: bool)
        ensures
            r == (self@.text.len() == 0),
    {
        rope_len_chars(&self.rope) == 0
    }

    /// Number of lines; one more than the number of `'\n'` characters.
    pub fn len_lines(&self) -> (n: usize)
        ensures
            n as nat == line_count(self@.text),
    {
        rope_len_lines(&self.rope)
    }

    /// Plant the selection anchor at the cursor if none is active.
    pub fn start_selection(&mut self)
        requires
            old(self)@.wf(),
        ensures
            final(self)@.wf(),
            final(self)@ == with_selection(old(self)@, true),
    {
        if self.selection_anchor.is_none() {
            self.selection_anchor = Some(self.cursor);
        }
    }

    /// Drop the selection anchor.
    pub fn clear_selection(&mut self)
        requires
            old(self)@.wf(),
        ensures
            final(self)@.wf(),
            final(self)@ == with_selection(old(self)@, false),
    {
        self.selection_anchor = None;
    }

    /// Whether a non-collapsed selection is active.
    pub fn has_selection(&self) -> (r: bool)
        ensures
            r == self@.has_sel(),
    {
        match self.selection_anchor {
            None => false,
            Some(a) => a != self.cursor,
        }
    }

    /// The selection as an ascending offset range, or `None` when collapsed.
    pub fn selection_range(&self) -> (r: Option<(usize, usize)>)
        ensures
            match r {
                Some(p) => self@.sel_range() == Some((p.0 as int, p.1 as int)),
                None => self@.sel_range() is None,
            },
    {
        match self.selection_anchor {
            None => None,
            Some(a) => {
                if a == self.cursor {
                    None
                } else if a < self.cursor {
                    Some((a, self.cursor))
                } else {
                    Some((self.cursor, a))
                }
            },
        }
    }

    /// The selected text, or the empty string when nothing is selected.
    pub fn selected_text(&self) -> (s: String)
        requires
            self@.wf(),
        ensures
            match self@.sel_range() {
                Some(p) => s@ == self@.text.subrange(p.0, p.1),
                None => s@ == Seq::<char>::empty(),
            },
    {
        match self.selection_range() {
            Some((start, end)) => rope_slice_to_string(&self.rope, start, end),
            None => String::new(),
        }
    }

    /// Select the whole buffer: anchor at the start, cursor at the end.
    pub fn select_all(&mut self)
        requires
            old(self)@.wf(),
        ensures
            final(self)@.wf(),
            final(self)@ == select_all_step(old(self)@),
    {
        self.selection_anchor = Some(0);
        self.cursor = rope_len_chars(&self.rope);
    }

    /// The line and column of a character offset; offsets past the end are
    /// clamped to the end of the text.
    pub fn char_to_line_col(&self, char_idx: usize) -> (r: (usize, usize))
        requires
            self@.wf(),
        ensures
            ({
                let i = if char_idx as int <= self@.text.len() as int {
                    char_idx as int
                } else {
                    self@.text.len() as int
                };
                r.0 as int == line_of(self@.text, i) && r.1 as int == i - line_start(
                    self@.text,
                    line_of(self@.text, i) as int,
                )
            }),
    {
        let len = rope_len_chars(&self.rope);
        let idx = if char_idx < len {
            char_idx
        } else {
            len
        };
        proof {
            lemma_line_start_le(self@.text, idx as int);
        }
        let line = rope_char_to_line(&self.rope, idx);
        let ls = rope_line_to_char(&self.rope, line);
        (line, idx - ls)
    }

    /// Move one character left; at the start of the text the cursor stays.
    pub fn move_left(&mut self, selecting: bool)
        requires
            old(self)@.wf(),
        ensures
            final(self)@.wf(),
            final(self)@ == move_left_step(old(self)@, selecting),
    {
        if selecting {
            self.start_selection();
        } else {
            self.clear_selection();
        }
        if self.cursor > 0 {
            self.cursor = self.cursor - 1;
        }
    }

    /// Move one character right; at the end of the text the cursor stays.
    pub fn move_right(&mut self, selecting: bool)
        requires
            old(self)@.wf(),
        ensures
            final(self)@.wf(),
            final(self)@ == move_right_step(old(self)@, selecting),
    {
        if selecting {
            self.start_selection();
        } else {
            self.clear_selection();
        }
        if self.cursor < rope_len_chars(&self.rope) {
            self.cursor = self.cursor + 1;
        }
    }

    /// Jump to the start of the text.
    pub fn move_to_start(&mut self, selecting: bool)
        requires
            old(self)@.wf(),
        ensures
            final(self)@.wf(),
            final(self)@ == move_to_start_step(old(self)@, selecting),
    {
        if selecting {
            self.start_selection();
        } else {
            self.clear_selection();
        }
        self.cursor = 0;
    }

    /// Jump to the end of the text.
    pub fn move_to_end(&mut self, selecting: bool)
        requires
            old(self)@.wf(),
        ensures
            final(self)@.wf(),
            final(self)@ == move_to_end_step(old(self)@, selecting),
    {
        if selecting {
            self.start_selection();
        } else {
            self.clear_selection();
        }
        self.cursor = rope_len_chars(&self.rope);
    }

    /// Jump to the start of the cursor's line.
    pub fn move_to_line_start(&mut self, selecting: bool)
        requires
            old(self)@.wf(),
        ensures
            final(self)@.wf(),
            final(self)@ == move_to_line_start_step(old(self)@, selecting),
    {
        if selecting {
            self.start_selection();
        } else {
            self.clear_selection();
        }
        proof {
            lemma_line_start_le(self@.text, self.cursor as int);
        }
        let line = rope_char_to_line(&self.rope, self.cursor);
        self.cursor = rope_line_to_char(&self.rope, line);
    }

    /// Jump to the end of the cursor's line, before its `'\n'` if it has one.
    pub fn move_to_line_end(&mut self, selecting: bool)
        requires
            old(self)@.wf(),
        ensures
            final(self)@.wf(),
            final(self)@ == move_to_line_end_step(old(self)@, selecting),
    {
        if selecting {
            self.start_selection();
        } else {
            self.clear_selection();
        }
        let ghost s = self@.text;
        proof {
            lemma_line_start_le(s, self.cursor as int);
        }
        let line = rope_char_to_line(&self.rope, self.cursor);
        let line_len_here = rope_line_len(&self.rope, line);
        let ls = rope_line_to_char(&self.rope, line);
        let len = rope_len_chars(&self.rope);
        proof {
            lemma_line_start_mono(s, line as int);
            assert(ls as int + line_len_here as int == line_start(s, line as int + 1));
            assert(line_start(s, line as int + 1) <= len as int);
        }
        let mut end = ls + line_len_here;
        if end > ls {
            let prev = end - 1;
            if rope_char(&self.rope, prev) == '\n' {
                end = prev;
            }
        }
        self.cursor = end;
    }

    /// Jump to a line and column; the line is clamped to the text, the
    /// column to the line's effective length.
    pub fn set_cursor_by_line_col(&mut self, line: usize, col: usize, selecting: bool)
        requires
            old(self)@.wf(),
        ensures
            final(self)@.wf(),
            final(self)@ == set_cursor_line_col_step(
                old(self)@,
                line as int,
                col as int,
                selecting,
            ),
    {
        if selecting {
            self.start_selection();
        } else {
            self.clear_selection();
        }
        let ghost s = self@.text;
        let total = rope_len_lines(&self.rope);
        let target_line = if line < total - 1 {
            line
        } else {
            total - 1
        };
        proof {
            lemma_line_start_mono(s, target_line as int);
            lemma_line_start_end(s);
        }
        let ls = rope_line_to_char(&self.rope, target_line);
        let line_len_here = rope_line_len(&self.rope, target_line);
        let eff = if target_line < total - 1 {
            line_len_here - 1
        } else {
            line_len_here
        };
        let tc = if col < eff {
            col
        } else {
            eff
        };
        let len = rope_len_chars(&self.rope);
        proof {
            assert(ls as int + line_len_here as int == line_start(s, target_line as int + 1));
            assert(line_start(s, target_line as int + 1) <= len as int);
        }
        self.cursor = ls + tc;
    }

    /// Move to the previous line, keeping the column where possible; from the
    /// first line the cursor goes to the start of the text.
    pub fn move_up(&mut self, selecting: bool)
        requires
            old(self)@.wf(),
        ensures
            final(self)@.wf(),
            final(self)@ == move_up_step(old(self)@, selecting),
    {
        if selecting {
            self.start_selection();
        } else {
            self.clear_selection();
        }
        let ghost s = self@.text;
        proof {
            lemma_line_start_le(s, self.cursor as int);
        }
        let line = rope_char_to_line(&self.rope, self.cursor);
        if line == 0 {
            self.cursor = 0;
            return ;
        }
        let ls = rope_line_to_char(&self.rope, line);
        let col = self.cursor - ls;
        let prev_start = rope_line_to_char(&self.rope, line - 1);
        proof {
            lemma_line_start_mono(s, line as int - 1);
        }
        let prev_raw = rope_line_len(&self.rope, line - 1);
        let prev_len = prev_raw - 1;
        self.cursor = prev_start + (if col < prev_len {
            col
        } else {
            prev_len
        });
    }

    /// Move to the next line, keeping the column where possible; from the
    /// last line the cursor goes to the end of the text.
    pub fn move_down(&mut self, selecting: bool)
        requires
            old(self)@.wf(),
        ensures
            final(self)@.wf(),
            final(self)@ == move_down_step(old(self)@, selecting),
    {
        if selecting {
            self.start_selection();
        } else {
            self.clear_selection();
        }
        let ghost s = self@.text;
        proof {
            lemma_line_start_le(s, self.cursor as int);
        }
        let line = rope_char_to_line(&self.rope, self.cursor);
        let total = rope_len_lines(&self.rope);
        if line >= total - 1 {
            self.cursor = rope_len_chars(&self.rope);
            return ;
        }
        let ls = rope_line_to_char(&self.rope, line);
        let col = self.cursor - ls;
        let next_start = rope_line_to_char(&self.rope, line + 1);
        proof {
            lemma_line_start_mono(s, line as int);
            lemma_line_start_mono(s, line as int + 1);
            lemma_line_start_end(s);
        }
        let next_raw = rope_line_len(&self.rope, line + 1);
        let next_len = if line + 1 < total - 1 {
            next_raw - 1
        } else {
            next_raw
        };
        let len = rope_len_chars(&self.rope);
        proof {
            assert(next_start as int + next_raw as int == line_start(s, line as int + 2));
            assert(line_start(s, line as int + 2) <= len as int);
        }
        self.cursor = next_start + (if col < next_len {
            col
        } else {
            next_len
        });
    }

    /// The word-step target to the left of offset `i`: skip whitespace, then
    /// one maximal same-category run.
    fn word_left_from(&self, i: usize) -> (r: usize)
        requires
            self@.wf(),
            i as int <= self@.text.len(),
        ensures
            r as int == word_left_pos(self@.text, i as int),
            r <= i,
    {
        let ghost s = self@.text;
        let mut pos = i;
        while pos > 0 && classify(rope_char(&self.rope, pos - 1)) == CharCat::Whitespace
            invariant
                self@.wf(),
                s == self@.text,
                0 <= pos <= i,
                i as int <= s.len(),
                run_start(s, i as int, CharCat::Whitespace) == run_start(
                    s,
                    pos as int,
                    CharCat::Whitespace,
                ),
            decreases pos,
        {
            pos = pos - 1;
        }
        proof {
            assert(pos as int == run_start(s, i as int, CharCat::Whitespace));
        }
        if pos > 0 {
            let cat = classify(rope_char(&self.rope, pos - 1));
            let ghost j = pos as int;
            while pos > 0 && classify(rope_char(&self.rope, pos - 1)) == cat
                invariant
                    self@.wf(),
                    s == self@.text,
                    0 <= pos <= j,
                    j <= s.len(),
                    j > 0,
                    cat == cat_of(s[j - 1]),
                    run_start(s, j, cat_of(s[j - 1])) == run_start(s, pos as int, cat_of(s[j - 1])),
                decreases pos,
            {
                pos = pos - 1;
            }
            proof {
                assert(pos as int == run_start(s, j, cat_of(s[j - 1])));
            }
        }
        pos
    }

    /// The word-step target to the right of offset `i`: skip whitespace, then
    /// one maximal same-category run.
    fn word_right_from(&self, i: usize) -> (r: usize)
        requires
            self@.wf(),
            i as int <= self@.text.len(),
        ensures
            r as int == word_right_pos(self@.text, i as int),
            i <= r,
            r as int <= self@.text.len(),
    {
        let ghost s = self@.text;
        let len = rope_len_chars(&self.rope);
        let mut pos = i;
        while pos < len && classify(rope_char(&self.rope, pos)) == CharCat::Whitespace
            invariant
                self@.wf(),
                s == self@.text,
                i <= pos,
                pos as int <= s.len(),
                len as int == s.len(),
                run_end(s, i as int, CharCat::Whitespace) == run_end(
                    s,
                    pos as int,
                    CharCat::Whitespace,
                ),
            decreases len - pos,
        {
            pos = pos + 1;
        }
        proof {
            assert(pos as int == run_end(s, i as int, CharCat::Whitespace));
        }
        if pos < len {
            let cat = classify(rope_char(&self.rope, pos));
            let ghost j = pos as int;
            while pos < len && classify(rope_char(&self.rope, pos)) == cat
                invariant
                    self@.wf(),
                    s == self@.text,
                    j <= pos,
                    pos as int <= s.len(),
                    len as int == s.len(),
                    0 <= j < s.len(),
                    cat == cat_of(s[j]),
                    run_end(s, j, cat_of(s[j])) == run_end(s, pos as int, cat_of(s[j])),
                decreases len - pos,
            {
                pos = pos + 1;
            }
            proof {
                assert(pos as int == run_end(s, j, cat_of(s[j])));
            }
        }
        pos
    }

    /// Move one word left: over any whitespace, then over one category run.
    pub fn move_word_left(&mut self, selecting: bool)
        requires
            old(self)@.wf(),
        ensures
            final(self)@.wf(),
            final(self)@ == move_word_left_step(old(self)@, selecting),
    {
        if selecting {
            self.start_selection();
        } else {
            self.clear_selection();
        }
        if self.cursor == 0 {
            return ;
        }
        self.cursor = self.word_left_from(self.cursor);
    }

    /// Move one word right: over any whitespace, then over one category run.
    pub fn move_word_right(&mut self, selecting: bool)
        requires
            old(self)@.wf(),
        ensures
            final(self)@.wf(),
            final(self)@ == move_word_right_step(old(self)@, selecting),
    {
        if selecting {
            self.start_selection();
        } else {
            self.clear_selection();
        }
        let len = rope_len_chars(&self.rope);
        if self.cursor >= len {
            proof {
                assert(word_right_pos(self@.text, self.cursor as int) == self@.text.len());
            }
            return ;
        }
        self.cursor = self.word_right_from(self.cursor);
    }

    /// Delete leftward to a word boundary as one action. A run of two or
    /// more whitespace characters is deleted as its own unit; the selection,
    /// if active, is deleted instead.
    pub fn delete_word_left(&mut self)
        requires
            old(self)@.wf(),
        ensures
            final(self)@.wf(),
            final(self)@ == delete_word_left_step(old(self)@),
    {
        let ghost v = self@;
        if self.has_selection() {
            self.delete_selection();
            return ;
        }
        if self.cursor == 0 {
            return ;
        }
        let c = self.cursor;
        let ghost s = self@.text;
        // length of the whitespace run just before the cursor
        let mut ws_start = c;
        while ws_start > 0 && classify(rope_char(&self.rope, ws_start - 1)) == CharCat::Whitespace
            invariant
                self@.wf(),
                self@ == v,
                s == self@.text,
                0 <= ws_start <= c,
                c as int == self@.cursor,
                c as int <= s.len(),
                run_start(s, c as int, CharCat::Whitespace) == run_start(
                    s,
                    ws_start as int,
                    CharCat::Whitespace,
                ),
            decreases ws_start,
        {
            ws_start = ws_start - 1;
        }
        proof {
            assert(ws_start as int == run_start(s, c as int, CharCat::Whitespace));
        }
        let start = if c - ws_start >= 2 {
            ws_start
        } else {
            self.word_left_from(c)
        };
        proof {
            assert(start as int == word_delete_start(s, c as int));
        }
        if start < c {
            let text = rope_slice_to_string(&self.rope, start, c);
            self.record_action(EditAction::Delete { start, text });
            rope_remove(&mut self.rope, start, c);
            self.cursor = start;
            self.selection_anchor = None;
            proof {
                lemma_undo_chain_push(
                    self@.text.len() as int,
                    v.undo,
                    ActView::Delete { start: start as int, text: s.subrange(start as int, c as int) },
                );
                assert(self@ =~= delete_word_left_step(v));
            }
        }
    }

    /// Select the category run around the cursor; at the end of the text the
    /// run of the last character is taken.
    pub fn select_word_at_cursor(&mut self)
        requires
            old(self)@.wf(),
        ensures
            final(self)@.wf(),
            final(self)@ == select_word_step(old(self)@),
    {
        let ghost s = self@.text;
        let len = rope_len_chars(&self.rope);
        if len == 0 {
            return ;
        }
        let check_idx = if self.cursor == len {
            len - 1
        } else {
            self.cursor
        };
        let cat = classify(rope_char(&self.rope, check_idx));
        let mut start = check_idx;
        while start > 0 && classify(rope_char(&self.rope, start - 1)) == cat
            invariant
                self@.wf(),
                s == self@.text,
                0 <= start <= check_idx,
                (check_idx as int) < s.len(),
                cat == cat_of(s[check_idx as int]),
                run_start(s, check_idx as int, cat) == run_start(s, start as int, cat),
            decreases start,
        {
            start = start - 1;
        }
        let mut end = check_idx + 1;
        while end < len && classify(rope_char(&self.rope, end)) == cat
            invariant
                self@.wf(),
                s == self@.text,
                check_idx < end,
                end as int <= s.len(),
                len as int == s.len(),
                (check_idx as int) < s.len(),
                cat == cat_of(s[check_idx as int]),
                run_end(s, check_idx as int + 1, cat) == run_end(s, end as int, cat),
            decreases len - end,
        {
            end = end + 1;
        }
        proof {
            assert(start as int == run_start(s, check_idx as int, cat));
            assert(end as int == run_end(s, check_idx as int + 1, cat));
        }
        self.selection_anchor = Some(start);
        self.cursor = end;
    }

    /// Select the whole line under the cursor, including its trailing
    /// `'\n'`.
    pub fn select_line_at_cursor(&mut self)
        requires
            old(self)@.wf(),
        ensures
            final(self)@.wf(),
            final(self)@ == select_line_step(old(self)@),
    {
        let ghost s = self@.text;
        let len = rope_len_chars(&self.rope);
        if len == 0 {
            return ;
        }
        proof {
            lemma_line_start_le(s, self.cursor as int);
        }
        let line = rope_char_to_line(&self.rope, self.cursor);
        let total = rope_len_lines(&self.rope);
        proof {
            assert((line as int) < total as int);
        }
        let start = rope_line_to_char(&self.rope, line);
        let end = rope_line_to_char(&self.rope, line + 1);
        proof {
            lemma_line_start_mono(s, line as int);
        }
        self.selection_anchor = Some(start);
        self.cursor = end;
    }

    /// The inclusive line range a transposition moves, with the bounds the
    /// transposition proofs lean on.
    fn get_line_range_to_move(&self) -> (r: (usize, usize))
        requires
            self@.wf(),
        ensures
            (r.0 as int, r.1 as int) == line_range_of(self@),
            r.0 <= r.1,
            (r.1 as int) < line_count(self@.text),
            line_start(self@.text, r.0 as int) <= self@.cursor,
            self@.cursor <= line_start(self@.text, r.1 as int + 1),
            match self@.anchor {
                Some(x) => line_start(self@.text, r.0 as int) <= x <= line_start(
                    self@.text,
                    r.1 as int + 1,
                ),
                None => true,
            },
    {
        let ghost s = self@.text;
        match self.selection_range() {
            Some((a, b)) => {
                proof {
                    lemma_line_start_le(s, a as int);
                    lemma_line_start_le(s, b as int);
                    lemma_newlines_mono(s, a as int, b as int);
                    lemma_line_start_end(s);
                }
                let sl = rope_char_to_line(&self.rope, a);
                let mut el = rope_char_to_line(&self.rope, b);
                if b > 0 {
                    let ls_el = rope_line_to_char(&self.rope, el);
                    if b == ls_el {
                        proof {
                            lemma_line_start_props(s, el as int);
                            assert(el > 0);
                            assert(newlines_before(s, b as int) == newlines_before(
                                s,
                                b as int - 1,
                            ) + 1);
                            lemma_newlines_mono(s, a as int, b as int - 1);
                        }
                        el = el - 1;
                    }
                }
                (sl, el)
            },
            None => {
                proof {
                    lemma_line_start_le(s, self.cursor as int);
                    lemma_line_start_end(s);
                }
                let l = rope_char_to_line(&self.rope, self.cursor);
                (l, l)
            },
        }
    }

    /// Append a trailing `'\n'` when the text is nonempty and lacks one, so
    /// that line-boundary arithmetic is uniform for a transposition.
    fn ensure_trailing_newline(&mut self)
        requires
            old(self)@.wf(),
        ensures
            final(self)@.wf(),
            final(self)@ == (BufView { text: ensure_nl(old(self)@.text), ..old(self)@ }),
    {
        let ghost v = self@;
        let len0 = rope_len_chars(&self.rope);
        if len0 > 0 {
            let last = rope_char(&self.rope, len0 - 1);
            if last != '\n' {
                rope_insert_char(&mut self.rope, len0, '\n');
                proof {
                    assert(self@.text =~= v.text.push('\n'));
                    lemma_undo_chain_grow(v.text.len() as int, 1, v.undo);
                    lemma_redo_chain_grow(v.text.len() as int, 1, v.redo);
                }
            }
        }
        proof {
            assert(self@ =~= (BufView { text: ensure_nl(v.text), ..v }));
        }
    }

    /// Move the selected lines, or the cursor's line, up by one line. The
    /// content may gain a trailing newline; this transform is not recorded
    /// as an undo step.
    pub fn move_lines_up(&mut self)
        requires
            old(self)@.wf(),
        ensures
            final(self)@.wf(),
            final(self)@ == move_lines_up_step(old(self)@),
    {
        let ghost v = self@;
        let r0 = self.get_line_range_to_move();
        let start_line0 = r0.0;
        if start_line0 == 0 {
            return ;
        }
        let swap_target = start_line0 - 1;
        self.ensure_trailing_newline();
        let ghost t1 = self@.text;
        let ghost v1 = self@;
        proof {
            lemma_line_range_preserved(v);
        }
        let r1 = self.get_line_range_to_move();
        let start_line = r1.0;
        let end_line = r1.1;
        proof {
            assert(start_line == start_line0);
        }
        let total1 = rope_len_lines(&self.rope);
        let len1 = rope_len_chars(&self.rope);
        let target_start = rope_line_to_char(&self.rope, swap_target);
        let block_start = rope_line_to_char(&self.rope, start_line);
        let block_end = rope_line_to_char(&self.rope, end_line + 1);
        proof {
            lemma_line_start_mono(t1, swap_target as int);
            lemma_line_start_mono_multi(t1, start_line as int, end_line as int + 1);
            lemma_line_start_mono_multi(t1, end_line as int + 1, line_count(t1) as int);
            lemma_line_start_end(t1);
        }
        let block_text = rope_slice_to_string(&self.rope, block_start, block_end);
        rope_remove(&mut self.rope, block_start, block_end);
        rope_insert(&mut self.rope, target_start, block_text.as_str());
        let ghost a = target_start as int;
        let ghost b = block_start as int;
        let ghost c = block_end as int;
        proof {
            let t2 = t1.subrange(0, b) + t1.subrange(c, t1.len() as int);
            assert(t2.subrange(0, a) =~= t1.subrange(0, a));
            assert(t2.subrange(a, t2.len() as int) =~= t1.subrange(a, b) + t1.subrange(
                c,
                t1.len() as int,
            ));
            assert(self@.text =~= t1.subrange(0, a) + t1.subrange(b, c) + t1.subrange(a, b)
                + t1.subrange(c, t1.len() as int));
        }
        let move_amount = block_start - target_start;
        self.cursor = self.cursor - move_amount;
        match self.selection_anchor {
            None => {},
            Some(anchor) => {
                self.selection_anchor = Some(anchor - move_amount);
            },
        }
        proof {
            lemma_undo_chain_grow(v1.text.len() as int, 0, v1.undo);
            assert(self@ =~= move_lines_up_step(v));
        }
    }

    /// Move the selected lines, or the cursor's line, down by one line. The
    /// content may gain a trailing newline; this transform is not recorded
    /// as an undo step.
    pub fn move_lines_down(&mut self)
        requires
            old(self)@.wf(),
        ensures
            final(self)@.wf(),
            final(self)@ == move_lines_down_step(old(self)@),
    {
        let ghost v = self@;
        let r0 = self.get_line_range_to_move();
        let total0 = rope_len_lines(&self.rope);
        if r0.1 + 1 >= total0 {
            return ;
        }
        self.ensure_trailing_newline();
        let ghost t1 = self@.text;
        let ghost v1 = self@;
        proof {
            lemma_line_range_preserved(v);
        }
        let r1 = self.get_line_range_to_move();
        let start_line = r1.0;
        let end_line = r1.1;
        let total1 = rope_len_lines(&self.rope);
        if end_line + 1 >= total1 {
            proof {
                assert(self@ =~= move_lines_down_step(v));
            }
            return ;
        }
        let len1 = rope_len_chars(&self.rope);
        let block_start = rope_line_to_char(&self.rope, start_line);
        proof {
            lemma_line_start_mono_multi(t1, start_line as int, end_line as int + 1);
            lemma_line_start_mono(t1, end_line as int + 1);
            lemma_line_start_mono_multi(t1, end_line as int + 2, line_count(t1) as int);
            lemma_line_start_end(t1);
        }
        let block_end = rope_line_to_char(&self.rope, end_line + 1);
        let block_len = block_end - block_start;
        let block_text = rope_slice_to_string(&self.rope, block_start, block_end);
        let insertion = rope_line_to_char(&self.rope, end_line + 2);
        rope_remove(&mut self.rope, block_start, block_end);
        let new_insertion = insertion - block_len;
        rope_insert(&mut self.rope, new_insertion, block_text.as_str());
        let ghost b = block_start as int;
        let ghost c = block_end as int;
        let ghost ins = insertion as int;
        proof {
            let t2 = t1.subrange(0, b) + t1.subrange(c, t1.len() as int);
            assert(t2.subrange(0, ins - (c - b)) =~= t1.subrange(0, b) + t1.subrange(c, ins));
            assert(t2.subrange(ins - (c - b), t2.len() as int) =~= t1.subrange(
                ins,
                t1.len() as int,
            ));
            assert(self@.text =~= t1.subrange(0, b) + t1.subrange(c, ins) + t1.subrange(b, c)
                + t1.subrange(ins, t1.len() as int));
        }
        let move_up_len = new_insertion - block_start;
        self.cursor = self.cursor + move_up_len;
        match self.selection_anchor {
            None => {},
            Some(anchor) => {
                self.selection_anchor = Some(anchor + move_up_len);
            },
        }
        proof {
            lemma_undo_chain_grow(v1.text.len() as int, 0, v1.undo);
            assert(self@ =~= move_lines_down_step(v));
        }
    }

    /// Record a fresh edit: push it onto the undo stack and clear the redo
    /// stack.
    fn record_action(&mut self, action: EditAction)
        ensures
            final(self)@ == record(old(self)@, action@),
    {
        self.undo_stack.push(action);
        self.redo_stack.clear();
        proof {
            assert(self@.undo =~= old(self)@.undo.push(action@));
            assert(self@.redo =~= Seq::<ActView>::empty());
        }
    }

    /// Delete the selected span, if any, recording one `Delete` action; the
    /// cursor collapses to the start of the cut.
    pub fn delete_selection(&mut self)
        requires
            old(self)@.wf(),
        ensures
            final(self)@.wf(),
            final(self)@ == delete_selection_step(old(self)@),
    {
        let ghost v = self@;
        match self.selection_range() {
            None => {},
            Some((start, end)) => {
                let text = rope_slice_to_string(&self.rope, start, end);
                self.record_action(EditAction::Delete { start, text });
                rope_remove(&mut self.rope, start, end);
                self.cursor = start;
                self.selection_anchor = None;
                proof {
                    lemma_undo_chain_push(
                        self@.text.len() as int,
                        v.undo,
                        ActView::Delete { start: start as int, text: v.text.subrange(start as int, end as int) },
                    );
                    assert(self@ =~= delete_selection_step(v));
                }
            },
        }
    }

    /// Insert one character at the cursor, replacing the selection if one is
    /// active.
    pub fn insert(&mut self, ch: char)
        requires
            old(self)@.wf(),
        ensures
            final(self)@.wf(),
            final(self)@ == insert_str_step(old(self)@, seq![ch]),
    {
        if self.has_selection() {
            self.delete_selection();
        } else {
            self.clear_selection();
        }
        let ghost v1 = self@;
        let start = self.cursor;
        self.record_action(EditAction::Insert { start, text: char_to_string(ch) });
        rope_insert_char(&mut self.rope, start, ch);
        let new_len = rope_len_chars(&self.rope);
        self.cursor = start + 1;
        proof {
            lemma_undo_chain_push(
                self@.text.len() as int,
                v1.undo,
                ActView::Insert { start: start as int, text: seq![ch] },
            );
            assert(self@ =~= insert_str_step(old(self)@, seq![ch]));
        }
    }

    /// Insert a string at the cursor, replacing the selection if one is
    /// active; the cursor ends just past the inserted text.
    pub fn insert_str(&mut self, text: &str)
        requires
            old(self)@.wf(),
        ensures
            final(self)@.wf(),
            final(self)@ == insert_str_step(old(self)@, text@),
    {
        if self.has_selection() {
            self.delete_selection();
        } else {
            self.clear_selection();
        }
        let ghost v1 = self@;
        let start = self.cursor;
        self.record_action(EditAction::Insert { start, text: text.to_owned() });
        rope_insert(&mut self.rope, start, text);
        let n = text.unicode_len();
        let new_len = rope_len_chars(&self.rope);
        proof {
            assert(start as int + n as int <= new_len as int);
        }
        self.cursor = start + n;
        proof {
            lemma_undo_chain_push(
                self@.text.len() as int,
                v1.undo,
                ActView::Insert { start: start as int, text: text@ },
            );
            assert(self@ =~= insert_str_step(old(self)@, text@));
        }
    }

    /// Remove the character before the cursor, or the selection if one is
    /// active; at the start of the text nothing happens.
    pub fn backspace(&mut self)
        requires
            old(self)@.wf(),
        ensures
            final(self)@.wf(),
            final(self)@ == backspace_step(old(self)@),
    {
        let ghost v = self@;
        if self.has_selection() {
            self.delete_selection();
        } else if self.cursor > 0 {
            let c = self.cursor;
            let text = rope_slice_to_string(&self.rope, c - 1, c);
            self.record_action(EditAction::Delete { start: c - 1, text });
            self.cursor = c - 1;
            self.selection_anchor = None;
            rope_remove(&mut self.rope, c - 1, c);
            proof {
                lemma_undo_chain_push(
                    self@.text.len() as int,
                    v.undo,
                    ActView::Delete { start: c as int - 1, text: v.text.subrange(c as int - 1, c as int) },
                );
                assert(self@ =~= backspace_step(v));
            }
        }
    }

    /// Remove the character after the cursor, or the selection if one is
    /// active; at the end of the text nothing happens.
    pub fn delete(&mut self)
        requires
            old(self)@.wf(),
        ensures
            final(self)@.wf(),
            final(self)@ == delete_step(old(self)@),
    {
        let ghost v = self@;
        if self.has_selection() {
            self.delete_selection();
        } else if self.cursor < rope_len_chars(&self.rope) {
            let c = self.cursor;
            let text = rope_slice_to_string(&self.rope, c, c + 1);
            self.record_action(EditAction::Delete { start: c, text });
            self.selection_anchor = None;
            rope_remove(&mut self.rope, c, c + 1);
            proof {
                lemma_undo_chain_push(
                    self@.text.len() as int,
                    v.undo,
                    ActView::Delete { start: c as int, text: v.text.subrange(c as int, c as int + 1) },
                );
                assert(self@ =~= delete_step(v));
            }
        }
    }

    /// Cut: the selected text, which is then deleted; `None` when nothing is
    /// selected.
    pub fn cut(&mut self) -> (r: Option<String>)
        requires
            old(self)@.wf(),
        ensures
            final(self)@.wf(),
            match old(self)@.sel_range() {
                Some(p) => (r matches Some(s) && s@ == old(self)@.text.subrange(p.0, p.1))
                    && final(self)@ == delete_selection_step(old(self)@),
                None => r is None && final(self)@ == old(self)@,
            },
    {
        let text = self.selected_text();
        if text.as_str().unicode_len() != 0 {
            self.delete_selection();
            Some(text)
        } else {
            proof {
                if old(self)@.sel_range() is Some {
                    let p = old(self)@.sel_range()->Some_0;
                    assert(old(self)@.text.subrange(p.0, p.1).len() > 0);
                }
            }
            None
        }
    }

    /// Paste: insert nonempty text at the cursor, replacing the selection;
    /// whether anything was inserted.
    pub fn paste(&mut self, text: &str) -> (r: bool)
        requires
            old(self)@.wf(),
        ensures
            final(self)@.wf(),
            r == (text@.len() > 0),
            final(self)@ == (if text@.len() > 0 {
                insert_str_step(old(self)@, text@)
            } else {
                old(self)@
            }),
    {
        if text.unicode_len() != 0 {
            self.insert_str(text);
            true
        } else {
            false
        }
    }

    /// Undo the newest edit, collapsing the selection; a no-op when the undo
    /// stack is empty.
    pub fn undo(&mut self)
        requires
            old(self)@.wf(),
        ensures
            final(self)@.wf(),
            final(self)@ == undo_step(old(self)@),
    {
        let ghost v = self@;
        match self.undo_stack.pop() {
            None => {
                proof {
                    assert(self@ =~= v);
                }
            },
            Some(action) => {
                proof {
                    assert(v.undo.len() > 0);
                    assert(action@ == v.undo.last());
                    assert(self@.undo =~= v.undo.drop_last());
                }
                match action {
                    EditAction::Insert { start, text } => {
                        let n = text.as_str().unicode_len();
                        let len = rope_len_chars(&self.rope);
                        proof {
                            assert(start as int + n as int <= len as int);
                        }
                        rope_remove(&mut self.rope, start, start + n);
                        self.cursor = start;
                        self.redo_stack.push(EditAction::Insert { start, text });
                    },
                    EditAction::Delete { start, text } => {
                        rope_insert(&mut self.rope, start, text.as_str());
                        let n = text.as_str().unicode_len();
                        let new_len = rope_len_chars(&self.rope);
                        proof {
                            assert(start as int + n as int <= new_len as int);
                        }
                        self.cursor = start + n;
                        self.redo_stack.push(EditAction::Delete { start, text });
                    },
                    EditAction::Replace { start, old_text, new_text } => {
                        let n_new = new_text.as_str().unicode_len();
                        let len = rope_len_chars(&self.rope);
                        proof {
                            assert(start as int + n_new as int <= len as int);
                        }
                        rope_remove(&mut self.rope, start, start + n_new);
                        rope_insert(&mut self.rope, start, old_text.as_str());
                        let n_old = old_text.as_str().unicode_len();
                        let new_len = rope_len_chars(&self.rope);
                        proof {
                            assert(start as int + n_old as int <= new_len as int);
                        }
                        self.cursor = start + n_old;
                        self.redo_stack.push(EditAction::Replace { start, old_text, new_text });
                    },
                }
                self.selection_anchor = None;
                proof {
                    let a = v.undo.last();
                    lemma_redo_chain_push(self@.text.len() as int, v.redo, a);
                    assert(self@.redo =~= v.redo.push(a));
                    assert(self@ =~= undo_step(v));
                }
            },
        }
    }

    /// Re-apply the newest undone edit, collapsing the selection; a no-op
    /// when the redo stack is empty.
    pub fn redo(&mut self)
        requires
            old(self)@.wf(),
        ensures
            final(self)@.wf(),
            final(self)@ == redo_step(old(self)@),
    {
        let ghost v = self@;
        match self.redo_stack.pop() {
            None => {
                proof {
                    assert(self@ =~= v);
                }
            },
            Some(action) => {
                proof {
                    assert(v.redo.len() > 0);
                    assert(action@ == v.redo.last());
                    assert(self@.redo =~= v.redo.drop_last());
                }
                match action {
                    EditAction::Insert { start, text } => {
                        rope_insert(&mut self.rope, start, text.as_str());
                        let n = text.as_str().unicode_len();
                        let new_len = rope_len_chars(&self.rope);
                        proof {
                            assert(start as int + n as int <= new_len as int);
                        }
                        self.cursor = start + n;
                        self.undo_stack.push(EditAction::Insert { start, text });
                    },
                    EditAction::Delete { start, text } => {
                        let n = text.as_str().unicode_len();
                        let len = rope_len_chars(&self.rope);
                        proof {
                            assert(start as int + n as int <= len as int);
                        }
                        rope_remove(&mut self.rope, start, start + n);
                        self.cursor = start;
                        self.undo_stack.push(EditAction::Delete { start, text });
                    },
                    EditAction::Replace { start, old_text, new_text } => {
                        let n_old = old_text.as_str().unicode_len();
                        let len = rope_len_chars(&self.rope);
                        proof {
                            assert(start as int + n_old as int <= len as int);
                        }
                        rope_remove(&mut self.rope, start, start + n_old);
                        rope_insert(&mut self.rope, start, new_text.as_str());
                        let n_new = new_text.as_str().unicode_len();
                        let new_len = rope_len_chars(&self.rope);
                        proof {
                            assert(start as int + n_new as int <= new_len as int);
                        }
                        self.cursor = start + n_new;
                        self.undo_stack.push(EditAction::Replace { start, old_text, new_text });
                    },
                }
                self.selection_anchor = None;
                proof {
                    let a = v.redo.last();
                    lemma_undo_chain_push(self@.text.len() as int, v.undo, a);
                    assert(self@.undo =~= v.undo.push(a));
                    assert(self@ =~= redo_step(v));
                }
            },
        }
    }
}

} // verus!

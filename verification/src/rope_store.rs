//! Trusted boundary around `ropey::Rope`.
//!
//! The rope is the text container: a balanced tree over the character
//! sequence with logarithmic-time edits and line lookups. Verus sees it as an
//! opaque type whose contents are named by [`rope_chars`]; each wrapper below
//! states, over that name and the line model of [`crate::text_spec`], what
//! the corresponding `ropey` call does. The crate is built with ropey's
//! default features off, so a line break is exactly `'\n'`, which is what the
//! line model counts.

use vstd::prelude::*;

use crate::text_spec::{line_count, line_start, newlines_before};

verus! {

#[verifier::external_type_specification]
#[verifier::external_body]
pub struct ExRope(ropey::Rope);

/// The sequence of Unicode scalar values held by a rope.
pub uninterp spec fn rope_chars(r: ropey::Rope) -> Seq<char>;

/// Relies on ropey::Rope::new: an empty rope.
#[verifier::external_body]
pub(crate) fn rope_new() -> (r: ropey::Rope)
    ensures
        rope_chars(r) == Seq::<char>::empty(),
{
    ropey::Rope::new()
}

/// Relies on ropey::Rope::from_str: a rope holding exactly the characters of
/// the string.
#[verifier::external_body]
pub(crate) fn rope_from_str(text: &str) -> (r: ropey::Rope)
    ensures
        rope_chars(r) == text@,
{
    ropey::Rope::from_str(text)
}

/// Relies on ropey::Rope::len_chars: the total number of characters.
#[verifier::external_body]
pub(crate) fn rope_len_chars(r: &ropey::Rope) -> (n: usize)
    ensures
        n as nat == rope_chars(*r).len(),
{
    r.len_chars()
}

/// Relies on ropey::Rope::len_lines: one more than the number of line breaks.
#[verifier::external_body]
pub(crate) fn rope_len_lines(r: &ropey::Rope) -> (n: usize)
    ensures
        n as nat == line_count(rope_chars(*r)),
{
    r.len_lines()
}

/// Relies on ropey::Rope::char_to_line: the number of line breaks before the
/// given character offset; a one-past-the-end offset gives the last line.
#[verifier::external_body]
pub(crate) fn rope_char_to_line(r: &ropey::Rope, char_idx: usize) -> (l: usize)
    requires
        char_idx as nat <= rope_chars(*r).len(),
    ensures
        l as nat == newlines_before(rope_chars(*r), char_idx as int),
{
    r.char_to_line(char_idx)
}

/// Relies on ropey::Rope::line_to_char: the character offset at which the
/// given line starts; a one-past-the-end line gives the end of the text.
#[verifier::external_body]
pub(crate) fn rope_line_to_char(r: &ropey::Rope, line_idx: usize) -> (c: usize)
    requires
        line_idx as nat <= line_count(rope_chars(*r)),
    ensures
        c as nat == line_start(rope_chars(*r), line_idx as int),
{
    r.line_to_char(line_idx)
}

/// Relies on ropey::Rope::line and ropey::RopeSlice::len_chars: the length of
/// the given line including its trailing line break, if any.
#[verifier::external_body]
pub(crate) fn rope_line_len(r: &ropey::Rope, line_idx: usize) -> (n: usize)
    requires
        (line_idx as nat) < line_count(rope_chars(*r)),
    ensures
        n as nat == line_start(rope_chars(*r), line_idx as int + 1) - line_start(
            rope_chars(*r),
            line_idx as int,
        ),
{
    r.line(line_idx).len_chars()
}

/// Relies on ropey::Rope::char: the character at the given offset.
#[verifier::external_body]
pub(crate) fn rope_char(r: &ropey::Rope, char_idx: usize) -> (c: char)
    requires
        (char_idx as nat) < rope_chars(*r).len(),
    ensures
        c == rope_chars(*r)[char_idx as int],
{
    r.char(char_idx)
}

/// Relies on ropey::Rope::insert: splices the string's characters in at the
/// given offset.
#[verifier::external_body]
pub(crate) fn rope_insert(r: &mut ropey::Rope, char_idx: usize, text: &str)
    requires
        char_idx as nat <= rope_chars(*old(r)).len(),
    ensures
        rope_chars(*final(r)) == rope_chars(*old(r)).subrange(0, char_idx as int) + text@
            + rope_chars(*old(r)).subrange(
            char_idx as int,
            rope_chars(*old(r)).len() as int,
        ),
{
    r.insert(char_idx, text);
}

/// Relies on ropey::Rope::insert_char: splices one character in at the given
/// offset.
#[verifier::external_body]
pub(crate) fn rope_insert_char(r: &mut ropey::Rope, char_idx: usize, ch: char)
    requires
        char_idx as nat <= rope_chars(*old(r)).len(),
    ensures
        rope_chars(*final(r)) == rope_chars(*old(r)).subrange(0, char_idx as int) + seq![ch]
            + rope_chars(*old(r)).subrange(
            char_idx as int,
            rope_chars(*old(r)).len() as int,
        ),
{
    r.insert_char(char_idx, ch);
}

/// Relies on ropey::Rope::remove: deletes the characters in `[start, end)`.
#[verifier::external_body]
pub(crate) fn rope_remove(r: &mut ropey::Rope, start: usize, end: usize)
    requires
        start <= end,
        end as nat <= rope_chars(*old(r)).len(),
    ensures
        rope_chars(*final(r)) == rope_chars(*old(r)).subrange(0, start as int) + rope_chars(
            *old(r),
        ).subrange(end as int, rope_chars(*old(r)).len() as int),
{
    r.remove(start..end);
}

/// Relies on ropey::Rope::slice and ropey::RopeSlice's Display impl, which
/// writes every chunk of the slice in order.
#[verifier::external_body]
pub(crate) fn rope_slice_to_string(r: &ropey::Rope, start: usize, end: usize) -> (s: String)
    requires
        start <= end,
        end as nat <= rope_chars(*r).len(),
    ensures
        s@ == rope_chars(*r).subrange(start as int, end as int),
{
    r.slice(start..end).to_string()
}

/// Relies on ropey::Rope's Display impl, which writes every chunk in order.
#[verifier::external_body]
pub(crate) fn rope_to_string(r: &ropey::Rope) -> (s: String)
    ensures
        s@ == rope_chars(*r),
{
    r.to_string()
}

} // verus!

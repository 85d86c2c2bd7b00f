//! Character classification for word-aware movement and deletion.
//!
//! Every character falls into one of three categories: word characters
//! (alphanumerics and `'_'`), whitespace, and everything else. Word movement
//! and word deletion treat maximal same-category runs as units.

use vstd::prelude::*;

verus! {

/// Category of a character for word-boundary purposes.
#[derive(Clone, Copy, Debug, PartialEq, Eq, Structural)]
pub enum CharCat {
    Word,
    Whitespace,
    Other,
}

/// What `char::is_alphanumeric` returns; the result depends on the character
/// alone.
pub uninterp spec fn alphanumeric_char(c: char) -> bool;

/// What `char::is_whitespace` returns; the result depends on the character
/// alone.
pub uninterp spec fn whitespace_char(c: char) -> bool;

/// A word character is an alphanumeric or an underscore.
pub open spec fn word_char(c: char) -> bool {
    alphanumeric_char(c) || c == '_'
}

/// The category of a character. Word characters win over whitespace.
pub open spec fn cat_of(c: char) -> CharCat {
    if word_char(c) {
        CharCat::Word
    } else if whitespace_char(c) {
        CharCat::Whitespace
    } else {
        CharCat::Other
    }
}

/// Relies on char::is_alphanumeric from std.
#[verifier::external_body]
fn char_is_alphanumeric(c: char) -> (r: bool)
    ensures
        r == alphanumeric_char(c),
{
    c.is_alphanumeric()
}

/// Relies on char::is_whitespace from std.
#[verifier::external_body]
fn char_is_whitespace(c: char) -> (r: bool)
    ensures
        r == whitespace_char(c),
{
    c.is_whitespace()
}

/// Classify a character as a word character, whitespace, or other.
pub fn classify(c: char) -> (r: CharCat)
    ensures
        r == cat_of(c),
{
    if char_is_alphanumeric(c) || c == '_' {
        CharCat::Word
    } else if char_is_whitespace(c) {
        CharCat::Whitespace
    } else {
        CharCat::Other
    }
}

/// Scan left from offset `i`, skipping characters of category `cat`; the
/// offset of the leftmost end of the run ending at `i`.
pub open spec fn run_start(s: Seq<char>, i: int, cat: CharCat) -> nat
    decreases i,
{
    if i <= 0 || i > s.len() {
        0
    } else if cat_of(s[i - 1]) == cat {
        run_start(s, i - 1, cat)
    } else {
        i as nat
    }
}

/// Scan right from offset `i`, skipping characters of category `cat`; the
/// offset just past the run starting at `i`.
pub open spec fn run_end(s: Seq<char>, i: int, cat: CharCat) -> nat
    decreases s.len() - i,
{
    if i < 0 {
        0
    } else if i >= s.len() {
        s.len()
    } else if cat_of(s[i]) == cat {
        run_end(s, i + 1, cat)
    } else {
        i as nat
    }
}

/// Where the cursor lands on a leftward word step from offset `i`: skip
/// whitespace, then skip one run of the category that precedes it.
pub open spec fn word_left_pos(s: Seq<char>, i: int) -> nat {
    let j = run_start(s, i, CharCat::Whitespace) as int;
    if j > 0 {
        run_start(s, j, cat_of(s[j - 1]))
    } else {
        0
    }
}

/// Where the cursor lands on a rightward word step from offset `i`: skip
/// whitespace, then skip one run of the category that follows it.
pub open spec fn word_right_pos(s: Seq<char>, i: int) -> nat {
    let j = run_end(s, i, CharCat::Whitespace) as int;
    if j < s.len() {
        run_end(s, j, cat_of(s[j]))
    } else {
        s.len()
    }
}

/// Where a word-leftward deletion from offset `i` begins. A run of two or
/// more whitespace characters before the cursor is deleted as its own unit;
/// otherwise the deletion reaches a full word step to the left.
pub open spec fn word_delete_start(s: Seq<char>, i: int) -> nat {
    let j = run_start(s, i, CharCat::Whitespace) as int;
    if i - j >= 2 {
        j as nat
    } else {
        word_left_pos(s, i)
    }
}

} // verus!

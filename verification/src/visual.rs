//! Visual column arithmetic for tab-expanded rendering.
//!
//! Text is stored as characters, but drawn with tabs expanded to
//! [`TAB_WIDTH`] columns and newlines taking no room. This module converts
//! between character columns and visual columns, and computes the line and
//! column of a cursor offset in a text.

use vstd::prelude::*;
use vstd::string::StrSliceExecFns;

use crate::text_spec::{
    lemma_next_line_start_find, line_of, line_start, newlines_before,
};

verus! {

/// Width of a tab character in visual columns.
pub const TAB_WIDTH: usize = 4;

/// The visual width of one character: a tab spans [`TAB_WIDTH`] columns, a
/// newline none, anything else one.
pub open spec fn char_width(c: char) -> int {
    if c == '\t' {
        TAB_WIDTH as int
    } else if c == '\n' {
        0
    } else {
        1
    }
}

/// The visual column at character column `k`: the summed widths of the first
/// `k` characters (clamped to the text).
pub open spec fn visual_col_of(s: Seq<char>, k: int) -> int
    decreases k,
{
    if k <= 0 {
        0
    } else if k > s.len() {
        visual_col_of(s, k - 1)
    } else {
        visual_col_of(s, k - 1) + char_width(s[k - 1])
    }
}

/// The character column reached by walking toward visual column `vcol`,
/// starting at character `i` with `cur` visual columns consumed: the walk
/// stops on the character whose span holds `vcol`.
pub open spec fn char_col_of_visual_from(s: Seq<char>, vcol: int, i: int, cur: int) -> int
    decreases s.len() - i,
{
    if i < 0 {
        0
    } else if i >= s.len() || cur + char_width(s[i]) > vcol {
        i
    } else {
        char_col_of_visual_from(s, vcol, i + 1, cur + char_width(s[i]))
    }
}

/// The character column whose span contains visual column `vcol` (the end of
/// the line, for a visual column past its width).
pub open spec fn char_col_of_visual(s: Seq<char>, vcol: int) -> int {
    char_col_of_visual_from(s, vcol, 0, 0)
}

/// Visual columns never exceed [`TAB_WIDTH`] per character.
pub proof fn lemma_visual_col_bound(s: Seq<char>, k: int)
    requires
        0 <= k,
    ensures
        0 <= visual_col_of(s, k) <= TAB_WIDTH as int * k,
    decreases k,
{
    if k > 0 {
        lemma_visual_col_bound(s, k - 1);
    }
}

/// The visual width of a character in columns.
pub fn get_char_visual_width(ch: char) -> (r: usize)
    ensures
        r as int == char_width(ch),
{
    if ch == '\t' {
        TAB_WIDTH
    } else if ch == '\n' {
        0
    } else {
        1
    }
}

/// Convert a character column to a visual column for a line's content.
pub fn char_col_to_visual_col(line_content: &str, char_col: usize) -> (r: usize)
    requires
        TAB_WIDTH as int * line_content@.len() <= usize::MAX as int,
    ensures
        r as int == visual_col_of(line_content@, char_col as int),
{
    let ghost s = line_content@;
    let n = line_content.unicode_len();
    let limit = if char_col < n {
        char_col
    } else {
        n
    };
    let mut i: usize = 0;
    let mut vcol: usize = 0;
    while i < limit
        invariant
            i <= limit,
            limit as int <= s.len(),
            limit <= char_col,
            s == line_content@,
            TAB_WIDTH as int * s.len() <= usize::MAX as int,
            vcol as int == visual_col_of(s, i as int),
        decreases limit - i,
    {
        proof {
            lemma_visual_col_bound(s, i as int + 1);
            assert(TAB_WIDTH as int * (i as int + 1) <= TAB_WIDTH as int * s.len())
                by (nonlinear_arith)
                requires
                    i as int + 1 <= s.len(),
            ;
        }
        let ch = line_content.get_char(i);
        vcol = vcol + get_char_visual_width(ch);
        i = i + 1;
    }
    proof {
        if char_col as int > s.len() {
            lemma_visual_clamp(s, char_col as int);
        }
    }
    vcol
}

/// Past-the-end character columns reach the same visual column as the end.
proof fn lemma_visual_clamp(s: Seq<char>, k: int)
    requires
        k >= s.len(),
    ensures
        visual_col_of(s, k) == visual_col_of(s, s.len() as int),
    decreases k,
{
    if k > s.len() {
        lemma_visual_clamp(s, k - 1);
    }
}

/// Convert a visual column to the character column whose span contains it.
pub fn visual_col_to_char_col(line_content: &str, visual_col: usize) -> (r: usize)
    ensures
        r as int == char_col_of_visual(line_content@, visual_col as int),
{
    let ghost s = line_content@;
    let n = line_content.unicode_len();
    let mut ccol: usize = 0;
    let mut cur: usize = 0;
    loop
        invariant_except_break
            ccol <= n,
            n as int == s.len(),
            s == line_content@,
            cur <= visual_col,
            char_col_of_visual(s, visual_col as int) == char_col_of_visual_from(
                s,
                visual_col as int,
                ccol as int,
                cur as int,
            ),
        ensures
            ccol as int == char_col_of_visual(s, visual_col as int),
        decreases n - ccol,
    {
        if ccol >= n {
            break ;
        }
        let ch = line_content.get_char(ccol);
        let w = get_char_visual_width(ch);
        if w > visual_col - cur {
            break ;
        }
        cur = cur + w;
        ccol = ccol + 1;
    }
    ccol
}

/// A line of text with visual position awareness.
pub struct VisualLine<'a> {
    content: &'a str,
}

impl<'a> View for VisualLine<'a> {
    type V = Seq<char>;

    closed spec fn view(&self) -> Seq<char> {
        self.content@
    }
}

impl<'a> VisualLine<'a> {
    /// Wrap a line's content.
    pub fn new(content: &'a str) -> (r: Self)
        ensures
            r@ == content@,
    {
        VisualLine { content }
    }

    /// The visual column at a character column.
    pub fn char_col_to_visual_col(&self, char_col: usize) -> (r: usize)
        requires
            TAB_WIDTH as int * self@.len() <= usize::MAX as int,
        ensures
            r as int == visual_col_of(self@, char_col as int),
    {
        char_col_to_visual_col(self.content, char_col)
    }

    /// The character column whose span contains a visual column.
    pub fn visual_col_to_char_col(&self, visual_col: usize) -> (r: usize)
        ensures
            r as int == char_col_of_visual(self@, visual_col as int),
    {
        visual_col_to_char_col(self.content, visual_col)
    }

    /// The character at a character column, if the line is that long.
    pub fn char_at(&self, char_col: usize) -> (r: Option<char>)
        ensures
            r == (if (char_col as int) < self@.len() {
                Some(self@[char_col as int])
            } else {
                None::<char>
            }),
    {
        let n = self.content.unicode_len();
        if char_col < n {
            Some(self.content.get_char(char_col))
        } else {
            None
        }
    }

    /// The visual width of the character at a character column; one column
    /// for positions past the end.
    pub fn char_visual_width_at(&self, char_col: usize) -> (r: usize)
        ensures
            r as int == (if (char_col as int) < self@.len() {
                char_width(self@[char_col as int])
            } else {
                1
            }),
    {
        match self.char_at(char_col) {
            Some(ch) => get_char_visual_width(ch),
            None => 1,
        }
    }

    /// The total visual width of the line.
    pub fn visual_width(&self) -> (r: usize)
        requires
            TAB_WIDTH as int * self@.len() <= usize::MAX as int,
        ensures
            r as int == visual_col_of(self@, self@.len() as int),
    {
        let n = self.content.unicode_len();
        char_col_to_visual_col(self.content, n)
    }

    /// The number of characters in the line.
    pub fn char_count(&self) -> (r: usize)
        ensures
            r as int == self@.len(),
    {
        self.content.unicode_len()
    }
}

/// The line and column of a cursor offset in a text; offsets past the end
/// are clamped to the end.
pub fn get_cursor_line_col(text: &str, cursor_pos: usize) -> (r: (usize, usize))
    ensures
        ({
            let s = text@;
            let i = if cursor_pos as int <= s.len() {
                cursor_pos as int
            } else {
                s.len() as int
            };
            r.0 as int == line_of(s, i) && r.1 as int == i - line_start(s, line_of(s, i) as int)
        }),
{
    let ghost s = text@;
    let n = text.unicode_len();
    let limit = if cursor_pos < n {
        cursor_pos
    } else {
        n
    };
    let mut line: usize = 0;
    let mut col: usize = 0;
    let mut pos: usize = 0;
    while pos < limit
        invariant
            pos <= limit,
            limit as int <= s.len(),
            s == text@,
            col <= pos,
            line <= pos,
            line as int == newlines_before(s, pos as int),
            line_start(s, line as int) == pos - col,
            forall|j: int| pos - col <= j < pos ==> s[j] != '\n',
        decreases limit - pos,
    {
        let ch = text.get_char(pos);
        if ch == '\n' {
            proof {
                lemma_next_line_start_find(s, pos as int - col as int, pos as int);
            }
            line = line + 1;
            col = 0;
        } else {
            col = col + 1;
        }
        pos = pos + 1;
    }
    (line, col)
}

} // verus!

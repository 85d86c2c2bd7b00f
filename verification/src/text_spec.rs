//! Mathematical model of line structure over a sequence of characters.
//!
//! A text is a `Seq<char>`; lines are the maximal runs separated by `'\n'`.
//! The functions here define line counting, the starting offset of each line,
//! and the line index of a character offset, together with the lemmas that
//! relate them. They are the vocabulary in which the buffer's contracts and
//! the rope wrappers' contracts are stated.

use vstd::prelude::*;

verus! {

/// Number of newline characters strictly before offset `i` (clamped to the
/// bounds of `s`).
pub open spec fn newlines_before(s: Seq<char>, i: int) -> nat
    decreases i,
{
    if i <= 0 {
        0
    } else if i > s.len() {
        newlines_before(s, i - 1)
    } else {
        newlines_before(s, i - 1) + (if s[i - 1] == '\n' {
            1nat
        } else {
            0nat
        })
    }
}

/// Line index of character offset `i`: the number of line breaks before it.
pub open spec fn line_of(s: Seq<char>, i: int) -> nat {
    newlines_before(s, i)
}

/// Total number of lines: one more than the number of line breaks.
pub open spec fn line_count(s: Seq<char>) -> nat {
    newlines_before(s, s.len() as int) + 1
}

/// Offset of the first line start at or after offset `i`: one past the next
/// `'\n'`, or the end of the text if no further `'\n'` exists.
pub open spec fn next_line_start(s: Seq<char>, i: int) -> nat
    decreases s.len() - i,
{
    if i < 0 {
        next_line_start(s, 0)
    } else if i >= s.len() {
        s.len()
    } else if s[i] == '\n' {
        (i + 1) as nat
    } else {
        next_line_start(s, i + 1)
    }
}

/// Offset of the start of line `l`, clamped to the end of the text for line
/// indices at or past the number of lines.
pub open spec fn line_start(s: Seq<char>, l: int) -> nat
    decreases l,
{
    if l <= 0 {
        0
    } else {
        next_line_start(s, line_start(s, l - 1) as int)
    }
}

/// Length in characters of line `l`, counting its trailing `'\n'` if any.
pub open spec fn line_len(s: Seq<char>, l: int) -> nat {
    (line_start(s, l + 1) - line_start(s, l)) as nat
}

/// Past-the-end offsets count the same breaks as the end itself.
pub proof fn lemma_newlines_clamp(s: Seq<char>, i: int)
    requires
        i >= s.len(),
    ensures
        newlines_before(s, i) == newlines_before(s, s.len() as int),
    decreases i,
{
    if i > s.len() {
        lemma_newlines_clamp(s, i - 1);
    }
}

proof fn lemma_newlines_mono_in(s: Seq<char>, i: int, j: int)
    requires
        i <= j <= s.len(),
    ensures
        newlines_before(s, i) <= newlines_before(s, j),
    decreases j,
{
    if j > 0 && i < j {
        lemma_newlines_mono_in(s, i, j - 1);
    }
}

pub proof fn lemma_newlines_mono(s: Seq<char>, i: int, j: int)
    requires
        i <= j,
    ensures
        newlines_before(s, i) <= newlines_before(s, j),
{
    let ic = if i <= s.len() {
        i
    } else {
        s.len() as int
    };
    let jc = if j <= s.len() {
        j
    } else {
        s.len() as int
    };
    if i > s.len() {
        lemma_newlines_clamp(s, i);
    }
    if j > s.len() {
        lemma_newlines_clamp(s, j);
    }
    lemma_newlines_mono_in(s, ic, jc);
}

proof fn lemma_newlines_bound_in(s: Seq<char>, i: int)
    requires
        0 <= i <= s.len(),
    ensures
        newlines_before(s, i) <= i,
    decreases i,
{
    if i > 0 {
        lemma_newlines_bound_in(s, i - 1);
    }
}

pub proof fn lemma_newlines_bound(s: Seq<char>, i: int)
    ensures
        newlines_before(s, i) <= i || i < 0,
        newlines_before(s, i) <= s.len(),
{
    lemma_newlines_bound_in(s, s.len() as int);
    if i > s.len() {
        lemma_newlines_clamp(s, i);
    } else if i >= 0 {
        lemma_newlines_bound_in(s, i);
        lemma_newlines_mono(s, i, s.len() as int);
    }
}

/// `next_line_start` lands at or after `i`, within bounds, crosses no `'\n'`,
/// and stops just past one unless it ran off the end.
pub proof fn lemma_next_line_start(s: Seq<char>, i: int)
    requires
        0 <= i,
    ensures
        i <= next_line_start(s, i) <= s.len() || i >= s.len(),
        next_line_start(s, i) == s.len() || (i < next_line_start(s, i) && s[next_line_start(
            s,
            i,
        ) - 1] == '\n'),
        forall|j: int|
            i <= j < next_line_start(s, i) - 1 && j < s.len() ==> s[j] != '\n',
    decreases s.len() - i,
{
    if i < s.len() && s[i] != '\n' {
        lemma_next_line_start(s, i + 1);
    }
}

/// Counting newlines across a step from `i` to `next_line_start(s, i)`:
/// exactly one break is crossed unless the scan ran to the end of the text.
pub proof fn lemma_newlines_at_next(s: Seq<char>, i: int)
    requires
        0 <= i <= s.len(),
    ensures
        next_line_start(s, i) < s.len() + 1,
        newlines_before(s, next_line_start(s, i) as int) == newlines_before(s, i) + (
        if next_line_start(s, i) == s.len() && (next_line_start(s, i) == i || s[next_line_start(
            s,
            i,
        ) - 1] != '\n') {
            0nat
        } else {
            1nat
        }),
    decreases s.len() - i,
{
    lemma_next_line_start(s, i);
    if i >= s.len() {
    } else if s[i] == '\n' {
        assert(newlines_before(s, i + 1) == newlines_before(s, i) + 1);
    } else {
        lemma_newlines_at_next(s, i + 1);
        assert(newlines_before(s, i + 1) == newlines_before(s, i));
    }
}

/// Basic facts about the start of line `l`: it is in bounds, it carries line
/// index `l` (when line `l` exists), and a positive line start follows a
/// `'\n'`.
pub proof fn lemma_line_start_props(s: Seq<char>, l: int)
    requires
        0 <= l < line_count(s),
    ensures
        line_start(s, l) <= s.len(),
        newlines_before(s, line_start(s, l) as int) == l,
        l > 0 ==> line_start(s, l) > 0 && s[line_start(s, l) - 1] == '\n',
    decreases l,
{
    if l == 0 {
    } else {
        lemma_line_start_props(s, l - 1);
        let p = line_start(s, l - 1) as int;
        lemma_next_line_start(s, p);
        lemma_newlines_at_next(s, p);
        lemma_newlines_bound(s, s.len() as int);
        if next_line_start(s, p) == s.len() && (next_line_start(s, p) == p || s[next_line_start(
            s,
            p,
        ) - 1] != '\n') {
            // the scan found no further break, so lines l-1 is the last line:
            // newlines_before(s, len) == l - 1, contradicting l < line_count
            assert(newlines_before(s, s.len() as int) == l - 1);
            assert(false);
        }
    }
}

/// The start of the one-past-the-last line is the end of the text.
pub proof fn lemma_line_start_end(s: Seq<char>)
    ensures
        line_start(s, line_count(s) as int) == s.len(),
{
    let l = line_count(s) as int - 1;
    lemma_line_start_props(s, l);
    let p = line_start(s, l) as int;
    lemma_next_line_start(s, p);
    lemma_newlines_at_next(s, p);
    if next_line_start(s, p) < s.len() {
        lemma_newlines_mono(s, next_line_start(s, p) as int, s.len() as int);
        assert(false);
    } else if next_line_start(s, p) == s.len() && p < s.len() && s[s.len() - 1] == '\n' {
        assert(newlines_before(s, s.len() as int) == l + 1);
        assert(false);
    }
}

/// Line starts are ordered, and strictly so below the last line.
pub proof fn lemma_line_start_mono(s: Seq<char>, l: int)
    requires
        0 <= l < line_count(s),
    ensures
        line_start(s, l) <= line_start(s, l + 1) <= s.len(),
        l + 1 < line_count(s) ==> line_start(s, l) < line_start(s, l + 1),
{
    lemma_line_start_props(s, l);
    let p = line_start(s, l) as int;
    lemma_next_line_start(s, p);
    if l + 1 < line_count(s) {
        lemma_line_start_props(s, l + 1);
        if line_start(s, l + 1) == line_start(s, l) {
            assert(false);
        }
    }
    if l + 1 == line_count(s) {
        lemma_line_start_end(s);
    } else {
        lemma_line_start_props(s, l + 1);
    }
}

/// Every offset within line `l` (from its start up to, but not including, the
/// next line start) has line index `l`.
pub proof fn lemma_line_of_within(s: Seq<char>, l: int, i: int)
    requires
        0 <= l < line_count(s),
        line_start(s, l) <= i < line_start(s, l + 1),
    ensures
        line_of(s, i) == l,
{
    lemma_line_start_props(s, l);
    let p = line_start(s, l) as int;
    lemma_next_line_start(s, p);
    lemma_line_start_mono(s, l);
    // count newlines from p to i: none of s[p..i] is '\n'
    lemma_newlines_no_break_range(s, p, i);
}

/// If no character in `s[p..i)` is a `'\n'`, the newline count does not grow.
pub proof fn lemma_newlines_no_break_range(s: Seq<char>, p: int, i: int)
    requires
        0 <= p <= i <= s.len(),
        forall|j: int| p <= j < i ==> s[j] != '\n',
    ensures
        newlines_before(s, i) == newlines_before(s, p),
    decreases i - p,
{
    if i > p {
        lemma_newlines_no_break_range(s, p, i - 1);
    }
}

/// An offset lies at or after the start of its own line, and strictly before
/// the start of the following line unless it is the end of the text.
pub proof fn lemma_line_start_le(s: Seq<char>, i: int)
    requires
        0 <= i <= s.len(),
    ensures
        line_of(s, i) < line_count(s),
        line_start(s, line_of(s, i) as int) <= i,
        i < line_start(s, line_of(s, i) as int + 1) || i == s.len(),
    decreases i,
{
    lemma_newlines_mono(s, i, s.len() as int);
    if i == 0 {
        if 0 < s.len() {
            lemma_line_start_mono(s, 0);
            lemma_line_start_end(s);
        }
    } else {
        lemma_line_start_le(s, i - 1);
        let l0 = line_of(s, i - 1) as int;
        if s[i - 1] == '\n' {
            // i starts a fresh line: line_of(s, i) == l0 + 1
            assert(newlines_before(s, i) == newlines_before(s, i - 1) + 1);
            lemma_line_start_props(s, l0);
            let p = line_start(s, l0) as int;
            lemma_next_line_start(s, p);
            // next_line_start from p is exactly i
            lemma_next_line_start_find(s, p, i - 1);
            assert(line_start(s, l0 + 1) == i);
            assert(line_of(s, i) == l0 + 1);
            if l0 + 2 < line_count(s) {
                lemma_line_start_mono(s, l0 + 1);
            } else if l0 + 2 == line_count(s) {
                lemma_line_start_end(s);
            } else {
                // l0 + 2 > line_count(s) contradicts the newline count bound
                assert(newlines_before(s, i) <= newlines_before(s, s.len() as int));
                assert(false);
            }
        } else {
            assert(newlines_before(s, i) == newlines_before(s, i - 1));
            if i < line_start(s, l0 + 1) {
            } else {
                // i - 1 < line_start(s, l0 + 1) <= i, so line_start(l0 + 1) == i
                assert(i - 1 < s.len());
                assert(line_start(s, l0 + 1) == i);
                if l0 + 1 < line_count(s) {
                    // a positive line start follows a '\n', contradiction
                    lemma_line_start_props(s, l0 + 1);
                    assert(false);
                } else {
                    lemma_line_start_end(s);
                    assert(i == s.len());
                }
            }
        }
    }
}

/// Helper: if `s[k] == '\n'` and no `'\n'` lies in `s[p..k)`, then the next
/// line start from `p` is `k + 1`.
pub proof fn lemma_next_line_start_find(s: Seq<char>, p: int, k: int)
    requires
        0 <= p <= k < s.len(),
        s[k] == '\n',
        forall|j: int| p <= j < k ==> s[j] != '\n',
    ensures
        next_line_start(s, p) == k + 1,
    decreases k - p,
{
    if p < k {
        lemma_next_line_start_find(s, p + 1, k);
    }
}

/// Line starts are ordered across any span of line indices.
pub proof fn lemma_line_start_mono_multi(s: Seq<char>, l: int, m: int)
    requires
        0 <= l <= m <= line_count(s),
    ensures
        line_start(s, l) <= line_start(s, m),
    decreases m - l,
{
    if l < m {
        lemma_line_start_mono_multi(s, l, m - 1);
        lemma_line_start_mono(s, m - 1);
    }
}

/// Appending one character does not change the newline count at any offset
/// within the original text.
pub proof fn lemma_push_newlines(s: Seq<char>, x: char, i: int)
    requires
        0 <= i <= s.len(),
    ensures
        newlines_before(s.push(x), i) == newlines_before(s, i),
    decreases i,
{
    if i > 0 {
        lemma_push_newlines(s, x, i - 1);
        assert(s.push(x)[i - 1] == s[i - 1]);
    }
}

/// Appending one character does not move the start of any existing line.
pub proof fn lemma_push_line_start(s: Seq<char>, x: char, l: int)
    requires
        0 <= l < line_count(s),
    ensures
        line_start(s.push(x), l) == line_start(s, l),
    decreases l,
{
    if l > 0 {
        lemma_push_line_start(s, x, l - 1);
        lemma_line_start_props(s, l - 1);
        lemma_line_start_props(s, l);
        let p = line_start(s, l - 1) as int;
        let r = line_start(s, l) as int;
        lemma_next_line_start(s, p);
        assert(s.push(x)[r - 1] == s[r - 1]);
        assert(forall|j: int| p <= j < r - 1 ==> s.push(x)[j] == s[j] && s[j] != '\n');
        lemma_next_line_start_find(s.push(x), p, r - 1);
    }
}

/// Appending a newline adds exactly one line.
pub proof fn lemma_push_nl_count(s: Seq<char>)
    ensures
        line_count(s.push('\n')) == line_count(s) + 1,
{
    lemma_push_newlines(s, '\n', s.len() as int);
    let t = s.push('\n');
    assert(t[t.len() - 1] == '\n');
    assert(newlines_before(t, t.len() as int) == newlines_before(t, t.len() as int - 1) + 1);
}

/// Texts that agree up to `j` count the same breaks there.
pub proof fn lemma_newlines_agree(u: Seq<char>, w: Seq<char>, j: int)
    requires
        0 <= j <= u.len(),
        j <= w.len(),
        forall|k: int| 0 <= k < j ==> u[k] == w[k],
    ensures
        newlines_before(u, j) == newlines_before(w, j),
    decreases j,
{
    if j > 0 {
        lemma_newlines_agree(u, w, j - 1);
    }
}

/// Texts that agree up to `p` place every line start at or before `p` the
/// same way.
pub proof fn lemma_line_start_agree(u: Seq<char>, w: Seq<char>, m: int, p: int)
    requires
        0 <= m < line_count(w),
        line_start(w, m) <= p,
        p <= u.len(),
        p <= w.len(),
        forall|k: int| 0 <= k < p ==> u[k] == w[k],
    ensures
        line_start(u, m) == line_start(w, m),
    decreases m,
{
    if m > 0 {
        lemma_line_start_props(w, m - 1);
        lemma_line_start_props(w, m);
        lemma_line_start_mono(w, m - 1);
        lemma_line_start_agree(u, w, m - 1, p);
        let q = line_start(w, m - 1) as int;
        let r = line_start(w, m) as int;
        lemma_next_line_start(w, q);
        assert(u[r - 1] == w[r - 1]);
        assert(forall|j: int| q <= j < r - 1 ==> u[j] == w[j] && w[j] != '\n');
        lemma_next_line_start_find(u, q, r - 1);
    }
}

/// The break count of a slice is the difference of the break counts at its
/// ends.
pub proof fn lemma_newlines_subrange(u: Seq<char>, p: int, q: int)
    requires
        0 <= p <= q <= u.len(),
    ensures
        newlines_before(u.subrange(p, q), q - p) == newlines_before(u, q) - newlines_before(u, p),
    decreases q - p,
{
    if q > p {
        lemma_newlines_subrange(u, p, q - 1);
        lemma_newlines_agree(u.subrange(p, q), u.subrange(p, q - 1), q - 1 - p);
        assert(u.subrange(p, q)[q - p - 1] == u[q - 1]);
    }
}

/// Breaks in a concatenation: the counts of the parts add.
pub proof fn lemma_newlines_concat(x: Seq<char>, y: Seq<char>)
    ensures
        newlines_before(x + y, (x + y).len() as int) == newlines_before(x, x.len() as int)
            + newlines_before(y, y.len() as int),
{
    lemma_newlines_subrange(x + y, 0, x.len() as int);
    lemma_newlines_subrange(x + y, x.len() as int, (x + y).len() as int);
    lemma_newlines_agree((x + y).subrange(0, x.len() as int), x, x.len() as int);
    lemma_newlines_agree(
        (x + y).subrange(x.len() as int, (x + y).len() as int),
        y,
        y.len() as int,
    );
}

/// Equal segments hold equal numbers of breaks: if `u` starting at `ua`
/// matches `w` starting at `wa` for `m` characters, the break counts across
/// those segments agree.
pub proof fn lemma_newlines_segment(u: Seq<char>, w: Seq<char>, ua: int, wa: int, m: int)
    requires
        0 <= ua,
        0 <= wa,
        0 <= m,
        ua + m <= u.len(),
        wa + m <= w.len(),
        forall|k: int| 0 <= k < m ==> #[trigger] u[ua + k] == w[wa + k],
    ensures
        newlines_before(u, ua + m) - newlines_before(u, ua) == newlines_before(w, wa + m)
            - newlines_before(w, wa),
{
    lemma_newlines_subrange(u, ua, ua + m);
    lemma_newlines_subrange(w, wa, wa + m);
    assert forall|k: int| 0 <= k < m implies #[trigger] u.subrange(ua, ua + m)[k] == w.subrange(
        wa,
        wa + m,
    )[k] by {
        assert(u[ua + k] == w[wa + k]);
    }
    assert(u.subrange(ua, ua + m) =~= w.subrange(wa, wa + m));
}

/// Helper for `lemma_line_start_le`: once the start of line `l` is known to be
/// at offset `i`, any offset inside that line maps back to `l`.
proof fn lemma_line_of_within_ready(s: Seq<char>, l: int, i: int)
    requires
        0 <= l,
        l < line_count(s),
        line_start(s, l) == i,
        0 <= i <= s.len(),
    ensures
        line_of(s, i) == l,
{
    lemma_line_start_props(s, l);
}

} // verus!

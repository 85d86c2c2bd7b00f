//! Laws of the buffer: round-trip and clamping properties that hold of every
//! buffer state, proved from the transition functions of
//! [`crate::buffer_model`].

use vstd::prelude::*;

use crate::buffer_model::{
    backspace_step, delete_selection_step, effective_line_len, ensure_nl, insert_str_step,
    lemma_line_range_preserved, line_range_of, move_lines_down_step, move_lines_up_step,
    set_cursor_line_col_step, undo_step, BufView,
};
use crate::text_spec::{
    lemma_line_of_within, lemma_line_start_agree, lemma_line_start_end, lemma_line_start_le,
    lemma_line_start_mono, lemma_line_start_mono_multi, lemma_line_start_props,
    lemma_newlines_agree, lemma_newlines_concat, lemma_newlines_mono,
    lemma_newlines_no_break_range, lemma_newlines_segment, lemma_newlines_subrange,
    lemma_next_line_start, lemma_next_line_start_find, line_count, line_of, line_start,
    newlines_before,
};

verus! {

/// Jumping to a line and column and reading the position back never
/// overshoots: the line lands at or below both the requested line and the
/// last line, and the column within the line's effective length.
pub proof fn lemma_set_cursor_line_col_clamps(v: BufView, line: int, col: int, selecting: bool)
    requires
        v.wf(),
        0 <= line,
        0 <= col,
    ensures
        ({
            let v1 = set_cursor_line_col_step(v, line, col, selecting);
            let l1 = line_of(v1.text, v1.cursor) as int;
            let c1 = v1.cursor - line_start(v1.text, l1);
            &&& l1 <= line
            &&& l1 <= line_count(v.text) - 1
            &&& c1 <= effective_line_len(v.text, l1)
        }),
{
    let s = v.text;
    let total = line_count(s) as int;
    let tl = if line < total - 1 {
        line
    } else {
        total - 1
    };
    let eff = effective_line_len(s, tl);
    let tc = if col < eff {
        col
    } else {
        eff
    };
    let cur = line_start(s, tl) + tc;
    lemma_line_start_props(s, tl);
    lemma_line_start_mono(s, tl);
    lemma_line_start_end(s);
    if tl < total - 1 {
        // the target column stays short of the trailing newline
        lemma_line_of_within(s, tl, cur);
    } else {
        // the last line: the cursor may land exactly at the end of the text
        if cur < line_start(s, tl + 1) {
            lemma_line_of_within(s, tl, cur);
        } else {
            assert(cur == s.len());
            assert(line_of(s, cur) == total - 1);
        }
    }
}

/// Inserting text with no selection active and then undoing restores the
/// exact prior content and cursor position.
pub proof fn lemma_insert_then_undo(v: BufView, t: Seq<char>)
    requires
        v.wf(),
        !v.has_sel(),
    ensures
        undo_step(insert_str_step(v, t)).text == v.text,
        undo_step(insert_str_step(v, t)).cursor == v.cursor,
{
    let v1 = insert_str_step(v, t);
    let v2 = undo_step(v1);
    assert(v2.text =~= v.text);
}

/// Deleting the selection and then undoing restores the exact prior content,
/// with the selection collapsed at the end of the restored span.
pub proof fn lemma_delete_selection_then_undo(v: BufView)
    requires
        v.wf(),
        v.has_sel(),
    ensures
        undo_step(delete_selection_step(v)).text == v.text,
        undo_step(delete_selection_step(v)).cursor == v.sel_range()->Some_0.1,
        undo_step(delete_selection_step(v)).anchor is None,
{
    let v1 = delete_selection_step(v);
    let v2 = undo_step(v1);
    assert(v2.text =~= v.text);
}

/// `n` backspaces in a row.
pub open spec fn backspace_n(v: BufView, n: int) -> BufView
    decreases n,
{
    if n <= 0 {
        v
    } else {
        backspace_n(backspace_step(v), n - 1)
    }
}

/// Helper for the insertion round trip: from a state holding `t` spliced
/// into `s` at `c` with the cursor just past it and no selection, one
/// backspace per inserted character peels `t` off again.
proof fn lemma_backspaces_peel(s: Seq<char>, c: int, t: Seq<char>, w: BufView)
    requires
        0 <= c <= s.len(),
        w.text == s.subrange(0, c) + t + s.subrange(c, s.len() as int),
        w.cursor == c + t.len(),
        !w.has_sel(),
    ensures
        backspace_n(w, t.len() as int).text == s,
        backspace_n(w, t.len() as int).cursor == c,
    decreases t.len(),
{
    if t.len() == 0 {
        assert(w.text =~= s);
    } else {
        let w1 = backspace_step(w);
        assert(w1.text =~= s.subrange(0, c) + t.drop_last() + s.subrange(c, s.len() as int));
        assert(w1.cursor == c + t.drop_last().len());
        lemma_backspaces_peel(s, c, t.drop_last(), w1);
    }
}

/// Moving the selected lines (or the cursor's line) up and then down
/// restores the original line order; the content may gain a trailing newline
/// if it lacked one, which is the only difference. Stated on states where
/// the upward move is possible: when it is not, the downward move alone
/// still reorders the lines.
#[verifier::rlimit(100)]
#[verifier::spinoff_prover]
pub proof fn lemma_move_lines_round_trip(v: BufView)
    requires
        v.wf(),
        line_range_of(v).0 > 0,
    ensures
        move_lines_down_step(move_lines_up_step(v)).text == ensure_nl(v.text),
{
    let s0 = v.text;
    let t1 = ensure_nl(s0);
    let len1 = t1.len() as int;
    lemma_line_range_preserved(v);
    let sl = line_range_of(v).0;
    let el = line_range_of(v).1;
    match v.sel_range() {
        None => {
            lemma_newlines_bound_pos(s0, v.cursor);
        },
        Some((p, q)) => {
            lemma_newlines_bound_pos(s0, p);
        },
    }
    assert(s0.len() > 0);
    assert(t1.len() > 0 && t1[len1 - 1] == '\n');
    let count1 = line_count(t1) as int;
    // bounds of the line range, established the way the range is defined
    match v.sel_range() {
        None => {
            assert(newlines_before(t1, v.cursor) == sl);
            lemma_line_start_le(t1, v.cursor);
        },
        Some((p, q)) => {
            assert(newlines_before(t1, p) == sl);
            let el0 = line_of(t1, q) as int;
            lemma_line_start_le(t1, p);
            lemma_line_start_le(t1, q);
            if q == line_start(t1, el0) {
                // the selection ends exactly at a line start
                lemma_line_start_props(t1, el0);
                assert(newlines_before(t1, q) == newlines_before(t1, q - 1) + 1);
                lemma_newlines_mono(t1, p, q - 1);
                assert(sl <= el);
            } else {
                lemma_newlines_mono(t1, p, q);
                if el0 == count1 - 1 {
                    lemma_last_line_empty(t1);
                    assert(q >= len1);
                    assert(false);
                }
            }
        },
    }
    assert(1 <= sl <= el < count1);
    let a = line_start(t1, sl - 1) as int;
    let b = line_start(t1, sl) as int;
    let c = line_start(t1, el + 1) as int;
    lemma_line_start_props(t1, sl - 1);
    lemma_line_start_props(t1, sl);
    lemma_line_start_mono(t1, sl - 1);
    lemma_line_start_mono_multi(t1, sl, el + 1);
    lemma_line_start_mono_multi(t1, el + 1, count1);
    lemma_line_start_end(t1);
    assert(a < b);
    assert(b <= c <= len1);
    let v1 = move_lines_up_step(v);
    let tt = t1.subrange(0, a) + t1.subrange(b, c) + t1.subrange(a, b) + t1.subrange(c, len1);
    assert(v1.text == tt);
    assert(forall|j: int| 0 <= j < a ==> tt[j] == t1[j]);
    assert(forall|x: int| a <= x < a + (c - b) ==> tt[x] == t1[b + (x - a)]);
    assert(newlines_before(tt, a) == newlines_before(t1, a)) by {
        lemma_newlines_agree(tt, t1, a);
    }
    assert(newlines_before(t1, a) == sl - 1);
    assert(line_start(tt, sl - 1) == a) by {
        if sl - 1 > 0 {
            lemma_line_start_agree(tt, t1, sl - 1, a);
        }
    }
    // the range the downward move sees is one line up
    match v.sel_range() {
        None => {
            // a collapsed anchor shifts with the cursor, so the range is
            // still the cursor's line
            let cu1 = v1.cursor;
            assert(cu1 == v.cursor - (b - a));
            assert(v1.sel_range() is None);
            lemma_line_start_le(t1, v.cursor);
            assert(b <= v.cursor);
            if b == c {
                // the cursor sits on the empty final line
                if sl + 1 < count1 {
                    assert(b < c);
                    assert(false);
                }
                lemma_last_line_empty(t1);
                assert(v.cursor == len1);
                assert(cu1 == a);
                assert(newlines_before(tt, cu1) == sl - 1);
            } else {
                assert(el + 1 < count1) by {
                    if el + 1 == count1 {
                        lemma_last_line_empty(t1);
                        assert(b == len1);
                        assert(false);
                    }
                }
                assert(v.cursor < c) by {
                    if v.cursor == c {
                        lemma_line_start_props(t1, el + 1);
                        assert(newlines_before(t1, c) == el + 1);
                        assert(false);
                    }
                }
                assert(forall|j: int| a <= j < cu1 ==> tt[j] == t1[b + (j - a)] && tt[j] != '\n')
                    by {
                    lemma_next_line_start(t1, b);
                    assert forall|j: int|
                        a <= j < cu1 implies tt[j] == t1[b + (j - a)] && tt[j] != '\n' by {
                        assert(tt[j] == t1[b + (j - a)]);
                        assert(b + (j - a) < c - 1);
                    }
                }
                assert(newlines_before(tt, cu1) == sl - 1) by {
                    lemma_newlines_no_break_range(tt, a, cu1);
                }
            }
            assert(line_range_of(v1) == (sl - 1, el - 1));
        },
        Some((p, q)) => {
            let pp = p - (b - a);
            let qq = q - (b - a);
            lemma_line_start_le(t1, p);
            assert(b <= p);
            assert(v1.sel_range() == Some((pp, qq)));
            let el0 = line_of(t1, q) as int;
            // the selection never reaches past the empty final line, so the
            // moved block ends below the last line and is nonempty
            assert(el + 1 < count1) by {
                if el + 1 == count1 {
                    if q == line_start(t1, el0) {
                    } else {
                        lemma_last_line_empty(t1);
                        assert(q >= len1);
                        assert(q == line_start(t1, el0));
                    }
                    assert(false);
                }
            }
            assert(b < c);
            assert(q <= c) by {
                if q == line_start(t1, el0) {
                } else {
                    if q == len1 {
                        lemma_last_line_empty(t1);
                        assert(false);
                    }
                }
            }
            // the start of the shifted selection keeps line sl - 1
            assert(newlines_before(tt, pp) == sl - 1) by {
                lemma_newlines_segment(tt, t1, a, b, p - b);
            }
            // transport the block's line starts
            assert forall|k: int| 0 <= k <= el + 1 - sl implies #[trigger] line_start(
                tt,
                sl - 1 + k,
            ) == a + (line_start(t1, sl + k) - b) by {
                lemma_block_line_starts(tt, t1, a, b, c, sl, el, k);
            }
            if q == line_start(t1, el0) {
                // the selection ends at a line start: so does its image
                assert(el == el0 - 1);
                assert(q == c);
                assert(qq == a + (c - b));
                assert(newlines_before(tt, qq) == sl - 1 + (el0 - sl)) by {
                    lemma_newlines_segment(tt, t1, a, b, c - b);
                    lemma_line_start_props(t1, el0);
                }
                assert(line_start(tt, el) == qq);
                assert(line_range_of(v1) == (sl - 1, el - 1));
            } else {
                assert(el == el0);
                assert(q < c);
                assert(newlines_before(tt, qq) == sl - 1 + (el - sl)) by {
                    lemma_newlines_segment(tt, t1, a, b, q - b);
                }
                // its image is not a line start either
                assert(line_start(tt, el - 1) == a + (line_start(t1, el) - b));
                assert(qq != line_start(tt, el - 1));
                assert(line_range_of(v1) == (sl - 1, el - 1));
            }
        },
    }
    lemma_round_trip_down(v1, t1, sl, el, a, b, c);
}

/// With a final line break, the last line is empty: it starts at the very
/// end of the text.
proof fn lemma_last_line_empty(t: Seq<char>)
    requires
        t.len() > 0,
        t[t.len() - 1] == '\n',
    ensures
        line_start(t, line_count(t) - 1) == t.len(),
{
    let cm1 = line_count(t) as int - 1;
    lemma_line_start_props(t, cm1);
    let ls = line_start(t, cm1) as int;
    if ls < t.len() {
        lemma_newlines_mono(t, ls, t.len() - 1);
        assert(newlines_before(t, t.len() as int) == newlines_before(t, t.len() - 1) + 1);
        assert(false);
    }
}

/// A break count of one or more at some offset forces a nonempty text.
proof fn lemma_newlines_bound_pos(s: Seq<char>, i: int)
    requires
        newlines_before(s, i) > 0,
    ensures
        s.len() > 0,
{
    if s.len() == 0 {
        if i >= 0 {
            crate::text_spec::lemma_newlines_clamp(s, i);
        }
        assert(false);
    }
}

/// Line starts inside the moved block: line `sl - 1 + k` of the permuted
/// text starts where line `sl + k` of the original starts, shifted by the
/// block's displacement.
proof fn lemma_block_line_starts(
    tt: Seq<char>,
    t1: Seq<char>,
    a: int,
    b: int,
    c: int,
    sl: int,
    el: int,
    k: int,
)
    requires
        t1.len() > 0,
        0 <= a <= b <= c <= t1.len(),
        1 <= sl <= el,
        el + 1 < line_count(t1),
        line_start(t1, sl) == b,
        line_start(t1, el + 1) == c,
        a + (c - b) <= tt.len(),
        forall|x: int| a <= x < a + (c - b) ==> tt[x] == t1[b + (x - a)],
        line_start(tt, sl - 1) == a,
        0 <= k <= el + 1 - sl,
    ensures
        line_start(tt, sl - 1 + k) == a + (line_start(t1, sl + k) - b),
    decreases k,
{
    if k > 0 {
        lemma_block_line_starts(tt, t1, a, b, c, sl, el, k - 1);
        let m = sl + k;
        let prev1 = line_start(t1, m - 1) as int;
        let next1 = line_start(t1, m) as int;
        lemma_line_start_props(t1, m - 1);
        lemma_line_start_props(t1, m);
        lemma_line_start_mono(t1, m - 1);
        lemma_line_start_mono_multi(t1, sl, m - 1);
        lemma_line_start_mono_multi(t1, m, el + 1);
        lemma_next_line_start(t1, prev1);
        let pos = a + (prev1 - b);
        assert(tt[pos + (next1 - prev1) - 1] == t1[next1 - 1]);
        assert(forall|j: int|
            pos <= j < pos + (next1 - prev1) - 1 ==> tt[j] == t1[b + (j - a)] && t1[b + (j - a)]
                != '\n');
        lemma_next_line_start_find(tt, pos, pos + (next1 - prev1) - 1);
    }
}

/// The downward half of the round trip: from the permuted text, moving the
/// block's new lines down restores the original text.
proof fn lemma_round_trip_down(
    v1: BufView,
    t1: Seq<char>,
    sl: int,
    el: int,
    a: int,
    b: int,
    c: int,
)
    requires
        t1.len() > 0,
        t1[t1.len() - 1] == '\n',
        1 <= sl <= el,
        el < line_count(t1),
        el + 1 < line_count(t1) || b == c,
        line_start(t1, sl - 1) == a,
        line_start(t1, sl) == b,
        line_start(t1, el + 1) == c,
        a < b,
        b <= c <= t1.len(),
        v1.text == t1.subrange(0, a) + t1.subrange(b, c) + t1.subrange(a, b) + t1.subrange(
            c,
            t1.len() as int,
        ),
        line_range_of(v1) == (sl - 1, el - 1),
    ensures
        move_lines_down_step(v1).text == t1,
{
    let len1 = t1.len() as int;
    let tt = v1.text;
    let lent = tt.len() as int;
    assert(lent == len1);
    let yt = c - b;
    let xt = b - a;
    lemma_line_start_props(t1, sl - 1);
    lemma_line_start_props(t1, sl);
    lemma_next_line_start(t1, a);
    lemma_next_line_start(t1, b);
    // tt agrees with t1 on the prefix [0, a)
    assert(forall|j: int| 0 <= j < a ==> tt[j] == t1[j]);
    assert(forall|x: int| a <= x < a + (c - b) ==> tt[x] == t1[b + (x - a)]);
    assert(newlines_before(tt, a) == newlines_before(t1, a)) by {
        lemma_newlines_agree(tt, t1, a);
    }
    assert(newlines_before(t1, a) == sl - 1);
    // total line counts agree: the permutation moves every break with its
    // segment
    assert(line_count(tt) == line_count(t1)) by {
        let p0 = t1.subrange(0, a);
        let p1 = t1.subrange(b, c);
        let p2 = t1.subrange(a, b);
        let p3 = t1.subrange(c, len1);
        lemma_newlines_concat(p0 + p1 + p2, p3);
        lemma_newlines_concat(p0 + p1, p2);
        lemma_newlines_concat(p0, p1);
        assert(((p0 + p1) + p2) + p3 =~= tt);
        lemma_newlines_subrange(t1, 0, a);
        lemma_newlines_subrange(t1, b, c);
        lemma_newlines_subrange(t1, a, b);
        lemma_newlines_subrange(t1, c, len1);
    }
    let count = line_count(t1) as int;
    // tt already ends with a break
    assert(tt[lent - 1] == '\n') by {
        if c < len1 {
            assert(tt[lent - 1] == t1[len1 - 1]);
        } else {
            assert(tt[lent - 1] == t1[b - 1]);
        }
    }
    assert(ensure_nl(tt) == tt);
    assert(line_start(tt, sl - 1) == a) by {
        if sl - 1 > 0 {
            lemma_line_start_agree(tt, t1, sl - 1, a);
        }
    }
    let c2 = line_start(tt, el) as int;
    let ins2 = line_start(tt, el + 1) as int;
    if b < c {
        assert(el + 1 < count);
        assert(c2 == a + yt) by {
            lemma_block_line_starts(tt, t1, a, b, c, sl, el, el + 1 - sl);
        }
        assert(ins2 == c) by {
            assert(tt[a + yt + xt - 1] == t1[b - 1]);
            assert(t1[b - 1] == '\n');
            assert(forall|j: int|
                a + yt <= j < a + yt + xt - 1 ==> tt[j] == t1[a + (j - a - yt)] && tt[j] != '\n');
            lemma_next_line_start_find(tt, a + yt, a + yt + xt - 1);
        }
        let v2 = move_lines_down_step(v1);
        assert(v2.text == tt.subrange(0, a) + tt.subrange(c2, ins2) + tt.subrange(a, c2)
            + tt.subrange(ins2, lent));
        assert(v2.text =~= t1);
    } else {
        // the moved block is the empty final line: the permutation was the
        // identity, and so is the downward move
        assert(sl == el) by {
            if sl < el {
                lemma_line_start_mono(t1, sl);
                lemma_line_start_mono_multi(t1, sl + 1, el + 1);
                assert(false);
            }
        }
        assert(tt =~= t1);
        assert(b == len1) by {
            lemma_line_start_mono(t1, sl);
            lemma_line_start_end(t1);
            if sl + 1 < count {
                assert(b < c);
                assert(false);
            }
        }
        assert(c2 == b) by {
            assert(tt[a + xt - 1] == t1[b - 1]);
            assert(forall|j: int| a <= j < a + xt - 1 ==> tt[j] == t1[j] && tt[j] != '\n');
            lemma_next_line_start_find(tt, a, a + xt - 1);
        }
        assert(ins2 == b);
        let v2 = move_lines_down_step(v1);
        assert(v2.text == tt.subrange(0, a) + tt.subrange(c2, ins2) + tt.subrange(a, c2)
            + tt.subrange(ins2, lent));
        assert(v2.text =~= t1);
    }
}

/// Inserting a string with no selection active and then pressing backspace
/// once per inserted character restores the original content and cursor.
pub proof fn lemma_insert_then_backspaces(v: BufView, t: Seq<char>)
    requires
        v.wf(),
        !v.has_sel(),
    ensures
        backspace_n(insert_str_step(v, t), t.len() as int).text == v.text,
        backspace_n(insert_str_step(v, t), t.len() as int).cursor == v.cursor,
{
    let w = insert_str_step(v, t);
    lemma_backspaces_peel(v.text, v.cursor, t, w);
}

} // verus!

//! The minimal control-sequence model: a sequence opens with ESC `[` and
//! runs to the first scalar in the final-byte range; nothing inside it
//! occupies a column. On that model: the visible width of a styled line,
//! well-formedness of a styled line, and the budget-driven truncation walk.

use vstd::prelude::*;

use crate::chars::str_to_chars;
use crate::width::char_cols;
use crate::width::char_width;
use crate::width::plain_width;

verus! {

/// The escape scalar that opens a control sequence.
pub open spec fn esc() -> char {
    '\u{1b}'
}

/// A scalar in the range 0x40..=0x7E terminates a control sequence.
pub open spec fn is_final_byte(c: char) -> bool {
    0x40 <= c as u32 <= 0x7e
}

/// Executable test for the final-byte range.
pub fn final_byte(c: char) -> (b: bool)
    ensures
        b == is_final_byte(c),
{
    let u = c as u32;
    0x40 <= u && u <= 0x7e
}

/// True when the line opens a control sequence: ESC followed by `[`.
pub open spec fn starts_csi(s: Seq<char>) -> bool {
    s.len() >= 2 && s[0] == esc() && s[1] == '['
}

/// Visible column count of a line walked from a given state: `in_seq` says
/// whether the walk stands inside a control sequence, still looking for the
/// final byte. Scalars inside a sequence occupy no columns; every other
/// scalar occupies its own column count.
pub open spec fn vis_width_from(s: Seq<char>, in_seq: bool) -> nat
    decreases s.len(),
{
    if s.len() == 0 {
        0
    } else if in_seq {
        vis_width_from(s.skip(1), !is_final_byte(s[0]))
    } else if starts_csi(s) {
        vis_width_from(s.skip(2), true)
    } else {
        char_cols(s[0]) + vis_width_from(s.skip(1), false)
    }
}

/// Visible column count of a styled line.
pub open spec fn vis_width(s: Seq<char>) -> nat {
    vis_width_from(s, false)
}

/// Well-formedness of a line walked from a given state: every ESC opens a
/// complete control sequence (ESC, `[`, a final byte eventually), and the
/// line does not end in the middle of one.
pub open spec fn line_wf_from(s: Seq<char>, in_seq: bool) -> bool
    decreases s.len(),
{
    if s.len() == 0 {
        !in_seq
    } else if in_seq {
        line_wf_from(s.skip(1), !is_final_byte(s[0]))
    } else if s[0] == esc() {
        starts_csi(s) && line_wf_from(s.skip(2), true)
    } else {
        line_wf_from(s.skip(1), false)
    }
}

/// Well-formed styled line: all control sequences in it are complete.
pub open spec fn line_wf(s: Seq<char>) -> bool {
    line_wf_from(s, false)
}

/// Text free of the escape scalar, as plain segment text must be.
pub open spec fn no_esc(s: Seq<char>) -> bool {
    forall|i: int| 0 <= i < s.len() ==> s[i] != esc()
}

/// Escape-freedom survives concatenation.
pub proof fn lemma_no_esc_concat(a: Seq<char>, b: Seq<char>)
    requires
        no_esc(a),
        no_esc(b),
    ensures
        no_esc(a + b),
{
    assert forall|i: int| 0 <= i < (a + b).len() implies (a + b)[i] != esc() by {
        if i < a.len() {
            assert((a + b)[i] == a[i]);
        } else {
            assert((a + b)[i] == b[i - a.len()]);
        }
    }
}

/// The truncation walk from a given state: the count of scalars consumed,
/// where `cols` counts the visible columns seen so far and the walk stops
/// exactly when `cols` reaches `budget` after a visible scalar. Scalars of
/// a control sequence are consumed without adding columns and without a
/// stop check.
pub open spec fn trunc_from(s: Seq<char>, in_seq: bool, cols: nat, budget: nat) -> nat
    decreases s.len(),
{
    if s.len() == 0 {
        0
    } else if in_seq {
        1 + trunc_from(s.skip(1), !is_final_byte(s[0]), cols, budget)
    } else if starts_csi(s) {
        2 + trunc_from(s.skip(2), true, cols, budget)
    } else if cols + char_cols(s[0]) == budget {
        1
    } else {
        1 + trunc_from(s.skip(1), false, (cols + char_cols(s[0])) as nat, budget)
    }
}

/// The count of leading scalars of `s` retained by truncation to `budget`
/// visible columns.
pub open spec fn trunc_count(s: Seq<char>, budget: nat) -> nat {
    trunc_from(s, false, 0, budget)
}

/// The truncation walk consumes at most the whole line.
pub proof fn lemma_trunc_le_len(s: Seq<char>, in_seq: bool, cols: nat, budget: nat)
    ensures
        trunc_from(s, in_seq, cols, budget) <= s.len(),
    decreases s.len(),
{
    if s.len() == 0 {
    } else if in_seq {
        lemma_trunc_le_len(s.skip(1), !is_final_byte(s[0]), cols, budget);
    } else if starts_csi(s) {
        lemma_trunc_le_len(s.skip(2), true, cols, budget);
    } else if cols + char_cols(s[0]) == budget {
    } else {
        lemma_trunc_le_len(s.skip(1), false, (cols + char_cols(s[0])) as nat, budget);
    }
}

/// Once the column count stands past the budget it never equals it again,
/// so the walk consumes the whole line.
pub proof fn lemma_trunc_overshoot(s: Seq<char>, in_seq: bool, cols: nat, budget: nat)
    requires
        cols > budget,
    ensures
        trunc_from(s, in_seq, cols, budget) == s.len(),
    decreases s.len(),
{
    if s.len() == 0 {
    } else if in_seq {
        lemma_trunc_overshoot(s.skip(1), !is_final_byte(s[0]), cols, budget);
    } else if starts_csi(s) {
        lemma_trunc_overshoot(s.skip(2), true, cols, budget);
    } else {
        lemma_trunc_overshoot(s.skip(1), false, (cols + char_cols(s[0])) as nat, budget);
    }
}

/// A line whose remaining visible width stays under the budget is consumed
/// whole: the stop condition is never met.
pub proof fn lemma_trunc_under_budget(s: Seq<char>, in_seq: bool, cols: nat, budget: nat)
    requires
        cols + vis_width_from(s, in_seq) < budget,
    ensures
        trunc_from(s, in_seq, cols, budget) == s.len(),
    decreases s.len(),
{
    if s.len() == 0 {
    } else if in_seq {
        lemma_trunc_under_budget(s.skip(1), !is_final_byte(s[0]), cols, budget);
    } else if starts_csi(s) {
        lemma_trunc_under_budget(s.skip(2), true, cols, budget);
    } else {
        lemma_trunc_under_budget(
            s.skip(1),
            false,
            (cols + char_cols(s[0])) as nat,
            budget,
        );
    }
}

/// Either the walk consumes the whole line, or the retained prefix's
/// visible width (on top of the columns already seen) is exactly the
/// budget.
pub proof fn lemma_trunc_dichotomy(s: Seq<char>, in_seq: bool, cols: nat, budget: nat)
    ensures
        trunc_from(s, in_seq, cols, budget) == s.len() || cols + vis_width_from(
            s.take(trunc_from(s, in_seq, cols, budget) as int),
            in_seq,
        ) == budget,
    decreases s.len(),
{
    let n = trunc_from(s, in_seq, cols, budget);
    lemma_trunc_le_len(s, in_seq, cols, budget);
    if s.len() == 0 {
    } else if in_seq {
        let n2 = trunc_from(s.skip(1), !is_final_byte(s[0]), cols, budget);
        lemma_trunc_le_len(s.skip(1), !is_final_byte(s[0]), cols, budget);
        lemma_trunc_dichotomy(s.skip(1), !is_final_byte(s[0]), cols, budget);
        if n2 != s.skip(1).len() {
            let p = s.take(n as int);
            assert(p.len() == n == 1 + n2);
            assert(p[0] == s[0]);
            assert(p.skip(1) =~= s.skip(1).take(n2 as int));
            assert(vis_width_from(p, in_seq) == vis_width_from(
                s.skip(1).take(n2 as int),
                !is_final_byte(s[0]),
            ));
        }
    } else if starts_csi(s) {
        let n2 = trunc_from(s.skip(2), true, cols, budget);
        lemma_trunc_le_len(s.skip(2), true, cols, budget);
        lemma_trunc_dichotomy(s.skip(2), true, cols, budget);
        if n2 != s.skip(2).len() {
            let p = s.take(n as int);
            assert(p.len() == n == 2 + n2);
            assert(p[0] == s[0] && p[1] == s[1]);
            assert(starts_csi(p));
            assert(p.skip(2) =~= s.skip(2).take(n2 as int));
            assert(vis_width_from(p, in_seq) == vis_width_from(s.skip(2).take(n2 as int), true));
        }
    } else if cols + char_cols(s[0]) == budget {
        let p = s.take(1);
        assert(p.len() == 1);
        assert(p[0] == s[0]);
        assert(!starts_csi(p));
        assert(p.skip(1) =~= Seq::<char>::empty());
        assert(vis_width_from(Seq::<char>::empty(), false) == 0);
        assert(vis_width_from(p, in_seq) == char_cols(s[0]));
    } else {
        let c2 = (cols + char_cols(s[0])) as nat;
        let n2 = trunc_from(s.skip(1), false, c2, budget);
        lemma_trunc_le_len(s.skip(1), false, c2, budget);
        lemma_trunc_dichotomy(s.skip(1), false, c2, budget);
        if n2 != s.skip(1).len() {
            let p = s.take(n as int);
            assert(p.len() == n == 1 + n2);
            assert(p[0] == s[0]);
            assert(!starts_csi(p));
            assert(p.skip(1) =~= s.skip(1).take(n2 as int));
            assert(vis_width_from(p, in_seq) == char_cols(s[0]) + vis_width_from(
                s.skip(1).take(n2 as int),
                false,
            ));
        }
    }
}

/// On a line of narrow scalars (each at most one column) whose remaining
/// visible width reaches the budget, the walk does stop, exactly at the
/// budget.
pub proof fn lemma_trunc_reaches(s: Seq<char>, in_seq: bool, cols: nat, budget: nat)
    requires
        forall|i: int| 0 <= i < s.len() ==> char_cols(s[i]) <= 1,
        cols < budget,
        cols + vis_width_from(s, in_seq) >= budget,
    ensures
        cols + vis_width_from(s.take(trunc_from(s, in_seq, cols, budget) as int), in_seq)
            == budget,
        trunc_from(s, in_seq, cols, budget) <= s.len(),
    decreases s.len(),
{
    let n = trunc_from(s, in_seq, cols, budget);
    lemma_trunc_le_len(s, in_seq, cols, budget);
    if s.len() == 0 {
        assert(false);
    } else if in_seq {
        let st2 = !is_final_byte(s[0]);
        assert(forall|i: int|
            0 <= i < s.skip(1).len() ==> char_cols(s.skip(1)[i]) <= 1) by {
            assert(forall|i: int| 0 <= i < s.skip(1).len() ==> s.skip(1)[i] == s[i + 1]);
        }
        lemma_trunc_reaches(s.skip(1), st2, cols, budget);
        let n2 = trunc_from(s.skip(1), st2, cols, budget);
        let p = s.take(n as int);
        assert(p.len() == n == 1 + n2);
        assert(p[0] == s[0]);
        assert(p.skip(1) =~= s.skip(1).take(n2 as int));
        assert(vis_width_from(p, in_seq) == vis_width_from(s.skip(1).take(n2 as int), st2));
    } else if starts_csi(s) {
        assert(forall|i: int|
            0 <= i < s.skip(2).len() ==> char_cols(s.skip(2)[i]) <= 1) by {
            assert(forall|i: int| 0 <= i < s.skip(2).len() ==> s.skip(2)[i] == s[i + 2]);
        }
        lemma_trunc_reaches(s.skip(2), true, cols, budget);
        let n2 = trunc_from(s.skip(2), true, cols, budget);
        let p = s.take(n as int);
        assert(p.len() == n == 2 + n2);
        assert(p[0] == s[0] && p[1] == s[1]);
        assert(starts_csi(p));
        assert(p.skip(2) =~= s.skip(2).take(n2 as int));
        assert(vis_width_from(p, in_seq) == vis_width_from(s.skip(2).take(n2 as int), true));
    } else if cols + char_cols(s[0]) == budget {
        let p = s.take(1);
        assert(p.len() == 1);
        assert(p[0] == s[0]);
        assert(!starts_csi(p));
        assert(p.skip(1) =~= Seq::<char>::empty());
        assert(vis_width_from(Seq::<char>::empty(), false) == 0);
        assert(vis_width_from(p, in_seq) == char_cols(s[0]));
    } else {
        let w = char_cols(s[0]);
        assert(w <= 1);
        let c2 = (cols + w) as nat;
        assert(c2 < budget);
        assert(forall|i: int|
            0 <= i < s.skip(1).len() ==> char_cols(s.skip(1)[i]) <= 1) by {
            assert(forall|i: int| 0 <= i < s.skip(1).len() ==> s.skip(1)[i] == s[i + 1]);
        }
        lemma_trunc_reaches(s.skip(1), false, c2, budget);
        let n2 = trunc_from(s.skip(1), false, c2, budget);
        let p = s.take(n as int);
        assert(p.len() == n == 1 + n2);
        assert(p[0] == s[0]);
        assert(!starts_csi(p));
        assert(p.skip(1) =~= s.skip(1).take(n2 as int));
        assert(vis_width_from(p, in_seq) == w + vis_width_from(s.skip(1).take(n2 as int), false));
    }
}

/// On a well-formed line, the retained prefix is well-formed too: no
/// control sequence is ever split.
pub proof fn lemma_trunc_prefix_wf(s: Seq<char>, in_seq: bool, cols: nat, budget: nat)
    requires
        line_wf_from(s, in_seq),
    ensures
        line_wf_from(s.take(trunc_from(s, in_seq, cols, budget) as int), in_seq),
    decreases s.len(),
{
    let n = trunc_from(s, in_seq, cols, budget);
    lemma_trunc_le_len(s, in_seq, cols, budget);
    if s.len() == 0 {
        assert(s.take(0) =~= s);
    } else if in_seq {
        let st2 = !is_final_byte(s[0]);
        lemma_trunc_prefix_wf(s.skip(1), st2, cols, budget);
        let n2 = trunc_from(s.skip(1), st2, cols, budget);
        let p = s.take(n as int);
        assert(p.len() == n == 1 + n2);
        assert(p[0] == s[0]);
        assert(p.skip(1) =~= s.skip(1).take(n2 as int));
    } else if s[0] == esc() {
        assert(starts_csi(s));
        lemma_trunc_prefix_wf(s.skip(2), true, cols, budget);
        let n2 = trunc_from(s.skip(2), true, cols, budget);
        let p = s.take(n as int);
        assert(p.len() == n == 2 + n2);
        assert(p[0] == s[0] && p[1] == s[1]);
        assert(starts_csi(p));
        assert(p.skip(2) =~= s.skip(2).take(n2 as int));
    } else if cols + char_cols(s[0]) == budget {
        let p = s.take(1);
        assert(p.len() == 1);
        assert(p[0] == s[0]);
        assert(!starts_csi(p));
        assert(p.skip(1) =~= Seq::<char>::empty());
        assert(line_wf_from(Seq::<char>::empty(), false));
    } else {
        lemma_trunc_prefix_wf(s.skip(1), false, (cols + char_cols(s[0])) as nat, budget);
        let n2 = trunc_from(s.skip(1), false, (cols + char_cols(s[0])) as nat, budget);
        let p = s.take(n as int);
        assert(p.len() == n == 1 + n2);
        assert(p[0] == s[0]);
        assert(p.skip(1) =~= s.skip(1).take(n2 as int));
    }
}

/// Walking a well-formed piece and then the rest adds the widths, and the
/// whole is well-formed exactly when the rest is.
pub proof fn lemma_concat(a: Seq<char>, b: Seq<char>, in_seq: bool)
    requires
        line_wf_from(a, in_seq),
    ensures
        vis_width_from(a + b, in_seq) == vis_width_from(a, in_seq) + vis_width_from(b, false),
        line_wf_from(a + b, in_seq) == line_wf_from(b, false),
    decreases a.len(),
{
    if a.len() == 0 {
        assert(!in_seq);
        assert(a + b =~= b);
    } else {
        let ab = a + b;
        assert(ab.len() == a.len() + b.len());
        assert(ab[0] == a[0]);
        if in_seq {
            assert(ab.skip(1) =~= a.skip(1) + b);
            lemma_concat(a.skip(1), b, !is_final_byte(a[0]));
        } else if a[0] == esc() {
            assert(starts_csi(a));
            assert(ab[1] == a[1]);
            assert(starts_csi(ab));
            assert(ab.skip(2) =~= a.skip(2) + b);
            lemma_concat(a.skip(2), b, true);
        } else {
            assert(!starts_csi(a));
            assert(!starts_csi(ab));
            assert(ab.skip(1) =~= a.skip(1) + b);
            lemma_concat(a.skip(1), b, false);
        }
    }
}

/// Escape-free text is a well-formed line whose visible width is its plain
/// display width.
pub proof fn lemma_plain_text(t: Seq<char>)
    requires
        no_esc(t),
    ensures
        line_wf(t),
        vis_width(t) == plain_width(t),
    decreases t.len(),
{
    if t.len() == 0 {
    } else {
        assert(t[0] != esc());
        assert(!starts_csi(t));
        assert(forall|i: int| 0 <= i < t.skip(1).len() ==> t.skip(1)[i] == t[i + 1]);
        lemma_plain_text(t.skip(1));
    }
}

/// Walking a control-sequence body (no final byte in it) inside a sequence
/// consumes it with no columns; the final byte then closes the sequence.
proof fn lemma_seq_body(body: Seq<char>, fin: char, rest: Seq<char>)
    requires
        forall|i: int| 0 <= i < body.len() ==> !is_final_byte(body[i]),
        is_final_byte(fin),
    ensures
        vis_width_from(body + seq![fin] + rest, true) == vis_width_from(rest, false),
        line_wf_from(body + seq![fin] + rest, true) == line_wf_from(rest, false),
    decreases body.len(),
{
    let u = body + seq![fin] + rest;
    if body.len() == 0 {
        assert(u.len() == 1 + rest.len());
        assert(u[0] == fin);
        assert(u.skip(1) =~= rest);
    } else {
        assert(u[0] == body[0]);
        assert(!is_final_byte(u[0]));
        assert(u.skip(1) =~= body.skip(1) + seq![fin] + rest);
        assert(forall|i: int|
            0 <= i < body.skip(1).len() ==> body.skip(1)[i] == body[i + 1]);
        lemma_seq_body(body.skip(1), fin, rest);
    }
}

/// A complete control sequence — ESC, `[`, a body free of final bytes, and
/// one final byte — is a well-formed line of visible width zero.
pub proof fn lemma_csi_unit(body: Seq<char>, fin: char)
    requires
        forall|i: int| 0 <= i < body.len() ==> !is_final_byte(body[i]),
        is_final_byte(fin),
    ensures
        line_wf(seq![esc(), '['] + body + seq![fin]),
        vis_width(seq![esc(), '['] + body + seq![fin]) == 0,
{
    let u = seq![esc(), '['] + body + seq![fin];
    assert(u.len() == 3 + body.len());
    assert(u[0] == esc());
    assert(u[1] == '[');
    assert(starts_csi(u));
    assert(u.skip(2) =~= body + seq![fin] + Seq::<char>::empty());
    lemma_seq_body(body, fin, Seq::<char>::empty());
    assert(vis_width_from(u, false) == vis_width_from(Seq::<char>::empty(), false));
}

/// The count of leading scalars of `v` to keep so that the kept prefix
/// shows at most `budget` columns, never splitting a control sequence: the
/// walk of the truncation specification, step for step.
pub fn truncate_chars(v: &Vec<char>, budget: usize) -> (n: usize)
    ensures
        n == trunc_count(v@, budget as nat),
        n <= v@.len(),
{
    let len = v.len();
    let mut i: usize = 0;
    let mut cols: usize = 0;
    let mut in_seq: bool = false;
    proof {
        assert(v@.skip(0) =~= v@);
    }
    while i < len
        invariant
            len == v@.len(),
            i <= len,
            cols <= budget,
            trunc_count(v@, budget as nat) == i + trunc_from(
                v@.skip(i as int),
                in_seq,
                cols as nat,
                budget as nat,
            ),
        decreases len - i,
    {
        let c = v[i];
        let ghost rem = v@.skip(i as int);
        proof {
            assert(rem.len() == len - i);
            assert(rem[0] == v@[i as int]);
            assert(rem.skip(1) =~= v@.skip(i + 1 as int));
        }
        if in_seq {
            in_seq = !final_byte(c);
            i = i + 1;
        } else if c == '\u{1b}' && i + 1 < len && v[i + 1] == '[' {
            proof {
                assert(rem[1] == v@[i + 1 as int]);
                assert(starts_csi(rem));
                assert(rem.skip(2) =~= v@.skip(i + 2 as int));
            }
            in_seq = true;
            i = i + 2;
        } else {
            proof {
                assert(!starts_csi(rem));
            }
            let w = char_width(c);
            let room = budget - cols;
            if w == room {
                return i + 1;
            } else if w < room {
                cols = cols + w;
                i = i + 1;
            } else {
                proof {
                    lemma_trunc_overshoot(
                        v@.skip(i + 1 as int),
                        false,
                        (cols + char_cols(rem[0])) as nat,
                        budget as nat,
                    );
                }
                return len;
            }
        }
    }
    proof {
        assert(v@.skip(len as int) =~= Seq::<char>::empty());
    }
    len
}

/// The count of leading scalars of `line` to keep so that the kept prefix
/// shows at most `budget` visible columns; scalars inside control
/// sequences are consumed without counting toward the width, and a
/// detected sequence is always consumed through its final byte.
pub fn get_chars_to_truncate(line: &str, budget: usize) -> (n: usize)
    ensures
        n == trunc_count(line@, budget as nat),
        n <= line@.len(),
{
    let v = str_to_chars(line);
    truncate_chars(&v, budget)
}

} // verus!

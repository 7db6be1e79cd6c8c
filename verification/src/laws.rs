//! The layout engine's general guarantees, stated and proved once over
//! all inputs: width additivity over segment texts, and what truncation
//! does and does not do to a composed line.

use vstd::prelude::*;

use crate::ansi::lemma_no_esc_concat;
use crate::ansi::lemma_plain_text;
use crate::ansi::lemma_trunc_dichotomy;
use crate::ansi::lemma_trunc_prefix_wf;
use crate::ansi::lemma_trunc_reaches;
use crate::ansi::lemma_trunc_under_budget;
use crate::ansi::line_wf;
use crate::ansi::no_esc;
use crate::ansi::trunc_count;
use crate::ansi::vis_width;
use crate::width::char_cols;
use crate::width::lemma_plain_width_concat;
use crate::width::plain_width;

verus! {

/// The concatenation of a list of segment texts, in order.
pub open spec fn concat_texts(ts: Seq<Seq<char>>) -> Seq<char>
    decreases ts.len(),
{
    if ts.len() == 0 {
        Seq::<char>::empty()
    } else {
        ts[0] + concat_texts(ts.skip(1))
    }
}

/// The sum of the per-text plain display widths.
pub open spec fn sum_plain_widths(ts: Seq<Seq<char>>) -> nat
    decreases ts.len(),
{
    if ts.len() == 0 {
        0
    } else {
        (plain_width(ts[0]) + sum_plain_widths(ts.skip(1))) as nat
    }
}

/// Width additivity: over any list of segment texts free of control
/// sequences, the summed per-segment display widths equal the display
/// width of the concatenated plain text, and that is also the visible
/// width of the concatenation.
pub proof fn width_additivity(ts: Seq<Seq<char>>)
    requires
        forall|i: int| 0 <= i < ts.len() ==> no_esc(#[trigger] ts[i]),
    ensures
        sum_plain_widths(ts) == plain_width(concat_texts(ts)),
        no_esc(concat_texts(ts)),
        vis_width(concat_texts(ts)) == plain_width(concat_texts(ts)),
    decreases ts.len(),
{
    if ts.len() == 0 {
        lemma_plain_text(concat_texts(ts));
    } else {
        assert(forall|i: int| 0 <= i < ts.skip(1).len() ==> ts.skip(1)[i] == ts[i + 1]);
        width_additivity(ts.skip(1));
        lemma_plain_width_concat(ts[0], concat_texts(ts.skip(1)));
        lemma_no_esc_concat(ts[0], concat_texts(ts.skip(1)));
        lemma_plain_text(concat_texts(ts));
    }
}

/// Truncation never splits a control sequence: on a well-formed line the
/// retained prefix is itself well-formed, for every budget — it ends at
/// a plain scalar or exactly at a sequence's final byte, never inside
/// one.
pub proof fn truncation_never_splits(s: Seq<char>, budget: nat)
    requires
        line_wf(s),
    ensures
        line_wf(s.take(trunc_count(s, budget) as int)),
{
    lemma_trunc_prefix_wf(s, false, 0, budget);
}

/// Truncation stops only on an exact hit: for every line and every
/// budget, the walk either consumes the whole line or the retained
/// prefix shows exactly the budget's visible columns — overshooting the
/// budget mid-line never stops it short.
pub proof fn truncation_dichotomy(s: Seq<char>, budget: nat)
    ensures
        trunc_count(s, budget) == s.len() || vis_width(s.take(trunc_count(s, budget) as int))
            == budget,
{
    lemma_trunc_dichotomy(s, false, 0, budget);
}

/// Truncation respects the budget, on lines of narrow scalars (one
/// column each at most) and a positive budget: the retained prefix shows
/// at most `budget` columns; exactly `budget` when the whole line shows
/// at least that many; and a line already within the budget is retained
/// whole. A double-width scalar straddling the budget boundary, or a
/// zero budget, escapes the exact-match stop and retains the whole line
/// instead.
pub proof fn truncation_respects_budget(s: Seq<char>, budget: nat)
    requires
        forall|i: int| 0 <= i < s.len() ==> char_cols(#[trigger] s[i]) <= 1,
        budget > 0,
    ensures
        vis_width(s.take(trunc_count(s, budget) as int)) <= budget,
        vis_width(s) >= budget ==> vis_width(s.take(trunc_count(s, budget) as int)) == budget,
        vis_width(s) < budget ==> trunc_count(s, budget) == s.len() && s.take(
            trunc_count(s, budget) as int,
        ) == s,
{
    if vis_width(s) < budget {
        lemma_trunc_under_budget(s, false, 0, budget);
        assert(s.take(s.len() as int) =~= s);
    } else {
        lemma_trunc_reaches(s, false, 0, budget);
    }
}

} // verus!

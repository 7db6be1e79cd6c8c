//! The line composer: concatenates the left and right segment groups,
//! pads the gap with a background-colored filler to exactly fill the
//! column budget, or truncates and appends a one-column overflow marker
//! when the content does not fit.

use vstd::prelude::*;
use vstd::string::StrSliceExecFns;
use vstd::string::StringExecFns;

use crate::ansi::line_wf;
use crate::ansi::lemma_concat;
use crate::ansi::lemma_trunc_prefix_wf;
use crate::ansi::no_esc;
use crate::ansi::trunc_count;
use crate::ansi::truncate_chars;
use crate::ansi::vis_width;
use crate::chars::chars_to_string;
use crate::chars::str_to_chars;
use crate::color::Colors;
use crate::segment::all_wf;
use crate::segment::append_segment;
use crate::segment::join_segments;
use crate::segment::lemma_styled_text;
use crate::segment::seg_concat;
use crate::segment::styled_seq;
use crate::segment::widths_sum;
use crate::segment::Segment;
use crate::width::char_cols;
use crate::width::char_width;
use crate::width::lemma_plain_width_snoc;
use crate::width::plain_width;

verus! {

/// A run of space characters.
pub open spec fn spaces(n: nat) -> Seq<char> {
    Seq::new(n, |i: int| ' ')
}

/// The filler: spaces styled with the background-only color pairing used
/// for empty space.
pub open spec fn filler_seq(colors: Colors, n: nat) -> Seq<char> {
    styled_seq(colors.gray, colors.gray, true, spaces(n))
}

/// The overflow marker: a single `+` styled with the attention pairing.
pub open spec fn marker_seq(colors: Colors) -> Seq<char> {
    styled_seq(colors.white, colors.orange, true, seq!['+'])
}

/// The composed line: left group, filler, right group when the content
/// fits the budget; otherwise the truncated line with the overflow marker
/// appended; an empty line for a zero budget; the marker alone when not
/// even one column is left beside it.
pub open spec fn compose_spec(
    lt: Seq<char>,
    rt: Seq<char>,
    content: nat,
    colors: Colors,
    target: nat,
) -> Seq<char> {
    if target == 0 {
        Seq::<char>::empty()
    } else if content <= target {
        lt + filler_seq(colors, (target - content) as nat) + rt
    } else if target == 1 {
        marker_seq(colors)
    } else {
        (lt + filler_seq(colors, 0) + rt).take(
            trunc_count(lt + filler_seq(colors, 0) + rt, (target - 1) as nat) as int,
        ) + marker_seq(colors)
    }
}

/// Spaces are escape-free and one column each.
proof fn lemma_spaces_props(n: nat)
    requires
        char_cols(' ') == 1,
    ensures
        no_esc(spaces(n)),
        plain_width(spaces(n)) == n,
    decreases n,
{
    if n == 0 {
        assert(plain_width(spaces(0)) == 0);
    } else {
        lemma_spaces_props((n - 1) as nat);
        assert(spaces(n) =~= spaces((n - 1) as nat).push(' '));
        lemma_plain_width_snoc(spaces((n - 1) as nat), ' ');
    }
}

/// The filler segment of the given width.
fn spaces_segment(colors: &Colors, n: usize) -> (s: Segment)
    ensures
        s.wf(),
        s.width == n,
        s.text@ == filler_seq(*colors, n as nat),
{
    let _space_cols = char_width(' ');
    let mut v: Vec<char> = Vec::new();
    let mut i: usize = 0;
    while i < n
        invariant
            i <= n,
            v@ =~= spaces(i as nat),
        decreases n - i,
    {
        v.push(' ');
        proof {
            assert(v@ =~= spaces((i + 1) as nat));
        }
        i = i + 1;
    }
    let st = chars_to_string(&v);
    proof {
        lemma_spaces_props(n as nat);
    }
    let t = crate::segment::paint_styled(&colors.gray, &colors.gray, true, st.as_str());
    proof {
        crate::segment::lemma_styled_text(colors.gray, colors.gray, true, spaces(n as nat));
    }
    Segment { text: t, width: n }
}

/// The overflow marker segment: one column wide.
fn marker_segment(colors: &Colors) -> (s: Segment)
    ensures
        s.wf(),
        s.text@ == marker_seq(*colors),
        s.width == char_cols('+'),
{
    proof {
        reveal_strlit("+");
        assert("+"@ =~= seq!['+']);
    }
    let s = Segment::styled_text(&colors.white, &colors.orange, true, "+");
    proof {
        assert(plain_width(Seq::<char>::empty()) == 0);
        assert(plain_width(seq!['+']) == char_cols('+') + plain_width(seq!['+'].skip(1)));
        assert(seq!['+'].skip(1) =~= Seq::<char>::empty());
    }
    s
}

/// Composes the styled line for one render: concatenates the left group,
/// a filler of exactly the missing columns, and the right group when the
/// summed content width fits `target`; for a zero budget emits the empty
/// line; otherwise truncates the composed content to one column less than
/// the budget and appends the overflow marker.
pub fn compose(left: &Vec<Segment>, right: &Vec<Segment>, colors: &Colors, target: usize) -> (line:
    String)
    requires
        all_wf(left@),
        all_wf(right@),
        widths_sum(left@) + widths_sum(right@) <= usize::MAX,
    ensures
        line@ == compose_spec(
            seg_concat(left@),
            seg_concat(right@),
            (widths_sum(left@) + widths_sum(right@)) as nat,
            *colors,
            target as nat,
        ),
        line_wf(line@),
        target > 0 && widths_sum(left@) + widths_sum(right@) <= target ==> vis_width(line@)
            == target as nat,
{
    if target == 0 {
        let out = String::new();
        proof {
            assert(line_wf(out@));
        }
        return out;
    }
    let jl = join_segments(left);
    let jr = join_segments(right);
    let content = jl.width + jr.width;
    if content <= target {
        let fill = spaces_segment(colors, target - content);
        let mut out = jl;
        append_segment(&mut out, &fill);
        append_segment(&mut out, &jr);
        proof {
            assert(out.wf());
            assert(vis_width(out.text@) == out.width);
        }
        out.text
    } else if target == 1 {
        let m = marker_segment(colors);
        m.text
    } else {
        let fill0 = spaces_segment(colors, 0);
        let mut whole = jl;
        append_segment(&mut whole, &fill0);
        append_segment(&mut whole, &jr);
        let v = str_to_chars(whole.text.as_str());
        let n = truncate_chars(&v, target - 1);
        let mut p: Vec<char> = Vec::new();
        let mut i: usize = 0;
        proof {
            assert(p@ =~= v@.take(0));
        }
        while i < n
            invariant
                i <= n,
                n <= v@.len(),
                p@ == v@.take(i as int),
            decreases n - i,
        {
            p.push(v[i]);
            proof {
                assert(p@ =~= v@.take(i + 1 as int));
            }
            i = i + 1;
        }
        let mut out = chars_to_string(&p);
        let m = marker_segment(colors);
        proof {
            lemma_trunc_prefix_wf(whole.text@, false, 0, (target - 1) as nat);
            lemma_concat(out@, m.text@, false);
        }
        out.append(m.text.as_str());
        out
    }
}

/// The summed widths of a run of segments, or nothing when the sum does
/// not fit a `usize`.
fn sum_widths_checked(v: &Vec<Segment>) -> (r: Option<usize>)
    ensures
        r matches Option::Some(s) ==> s == widths_sum(v@),
        r is None ==> widths_sum(v@) > usize::MAX,
{
    let n = v.len();
    let mut total: usize = 0;
    let mut i: usize = 0;
    proof {
        assert(widths_sum(v@.take(0)) == 0);
    }
    while i < n
        invariant
            n == v@.len(),
            i <= n,
            total == widths_sum(v@.take(i as int)),
        decreases n - i,
    {
        proof {
            assert(v@.take(i + 1 as int) =~= v@.take(i as int).push(v@[i as int]));
            crate::segment::lemma_seg_snoc(v@.take(i as int), v@[i as int]);
            assert(v@ =~= v@.take(i + 1 as int) + v@.skip(i + 1 as int));
            crate::segment::lemma_widths_split(v@.take(i + 1 as int), v@.skip(i + 1 as int));
        }
        if v[i].width > usize::MAX - total {
            return Option::None;
        }
        total = total + v[i].width;
        i = i + 1;
    }
    proof {
        assert(v@.take(n as int) =~= v@);
    }
    Option::Some(total)
}

/// Composes the line when the summed content width is representable, and
/// reports the (physically unreachable) overflow otherwise.
pub fn compose_checked(left: &Vec<Segment>, right: &Vec<Segment>, colors: &Colors, target: usize) -> (r:
    Option<String>)
    requires
        all_wf(left@),
        all_wf(right@),
    ensures
        widths_sum(left@) + widths_sum(right@) <= usize::MAX ==> (r matches Option::Some(line)
            && line@ == compose_spec(
            seg_concat(left@),
            seg_concat(right@),
            (widths_sum(left@) + widths_sum(right@)) as nat,
            *colors,
            target as nat,
        ) && line_wf(line@) && (target > 0 && widths_sum(left@) + widths_sum(right@) <= target
            ==> vis_width(line@) == target as nat)),
        widths_sum(left@) + widths_sum(right@) > usize::MAX ==> r is None,
{
    let lw = sum_widths_checked(left);
    let rw = sum_widths_checked(right);
    match (lw, rw) {
        (Option::Some(a), Option::Some(b)) => {
            if b > usize::MAX - a {
                Option::None
            } else {
                Option::Some(compose(left, right, colors, target))
            }
        },
        _ => Option::None,
    }
}

} // verus!

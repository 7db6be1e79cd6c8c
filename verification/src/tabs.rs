//! The tab-strip renderer: maps the host-supplied tab descriptors, in
//! order, to styled segments with directional separator glyphs, and
//! accounts for each tab's contributed width with an exact formula.

use vstd::prelude::*;

use crate::ansi::esc;
use crate::ansi::no_esc;
use crate::chars::append_chars;
use crate::chars::str_to_chars;
use crate::color::Colors;
use crate::color::ColorSpec;
use crate::segment::append_segment;
use crate::segment::one_char_segment;
use crate::segment::raw_segment;
use crate::segment::styled_seq;
use crate::segment::Segment;
use crate::width::char_cols;
use crate::width::char_width;
use crate::width::display_width;
use crate::width::lemma_plain_width_concat;
use crate::width::plain_width;

verus! {

/// One open tab as the host describes it.
pub struct TabDescriptor {
    pub name: String,
    pub active: bool,
    pub fullscreen_active: bool,
    pub sync_panes_active: bool,
    pub floating_panes_visible: bool,
}

/// The directional separator glyph drawn at both edges of a tab.
pub open spec fn tab_sep() -> char {
    '\u{e0b0}'
}

/// How many activity flags the tab shows.
pub open spec fn flag_count(t: TabDescriptor) -> nat {
    ((if t.fullscreen_active {
        1int
    } else {
        0int
    }) + (if t.sync_panes_active {
        1int
    } else {
        0int
    }) + (if t.floating_panes_visible {
        1int
    } else {
        0int
    })) as nat
}

/// Joins two flag runs with a single space, dropping empty sides.
pub open spec fn join_space(a: Seq<char>, b: Seq<char>) -> Seq<char> {
    if a.len() == 0 {
        b
    } else if b.len() == 0 {
        a
    } else {
        a + seq![' '] + b
    }
}

/// The flags run in fixed order: fullscreen `F`, sync-panes `S`, floating
/// panes `f`, joined by single spaces.
pub open spec fn flags_text(t: TabDescriptor) -> Seq<char> {
    join_space(
        join_space(
            if t.fullscreen_active {
                seq!['F']
            } else {
                Seq::<char>::empty()
            },
            if t.sync_panes_active {
                seq!['S']
            } else {
                Seq::<char>::empty()
            },
        ),
        if t.floating_panes_visible {
            seq!['f']
        } else {
            Seq::<char>::empty()
        },
    )
}

/// A tab's contributed visible width: a leading space, the name, the two
/// separator glyphs, and — only when flags are shown — the bracket pair
/// with a space and a letter per flag.
pub open spec fn tab_width(t: TabDescriptor) -> nat {
    (3 + plain_width(t.name@) + (if flag_count(t) == 0 {
        0
    } else {
        2 + 2 * flag_count(t)
    })) as nat
}

/// The background of a tab: the accent for the active tab, plain black
/// otherwise.
pub open spec fn tab_bg(t: TabDescriptor, colors: Colors) -> ColorSpec {
    if t.active {
        colors.green
    } else {
        colors.black
    }
}

/// The unstyled middle of a tab: a space and the name, and when flags are
/// shown another space and the styled bracketed flags run.
pub open spec fn tab_inner(t: TabDescriptor, colors: Colors) -> Seq<char> {
    if flag_count(t) == 0 {
        seq![' '] + t.name@
    } else {
        seq![' '] + t.name@ + seq![' '] + styled_seq(
            colors.orange,
            tab_bg(t, colors),
            true,
            seq!['<'],
        ) + styled_seq(colors.white, tab_bg(t, colors), true, flags_text(t)) + styled_seq(
            colors.orange,
            tab_bg(t, colors),
            true,
            seq!['>'],
        )
    }
}

/// The full styled render of one tab: separator, middle, separator, with
/// the separators' colors swapped against the strip's ambient background.
pub open spec fn tab_seq(t: TabDescriptor, colors: Colors) -> Seq<char> {
    styled_seq(colors.gray, tab_bg(t, colors), true, seq![tab_sep()]) + styled_seq(
        colors.gray,
        tab_bg(t, colors),
        true,
        tab_inner(t, colors),
    ) + styled_seq(tab_bg(t, colors), colors.gray, true, seq![tab_sep()])
}

/// The full styled render of the whole strip, in the host's order.
pub open spec fn tabs_seq(tabs: Seq<TabDescriptor>, colors: Colors) -> Seq<char>
    decreases tabs.len(),
{
    if tabs.len() == 0 {
        Seq::<char>::empty()
    } else {
        tab_seq(tabs[0], colors) + tabs_seq(tabs.skip(1), colors)
    }
}

/// The summed contributed widths of the whole strip.
pub open spec fn tabs_width(tabs: Seq<TabDescriptor>) -> nat
    decreases tabs.len(),
{
    if tabs.len() == 0 {
        0
    } else {
        (tab_width(tabs[0]) + tabs_width(tabs.skip(1))) as nat
    }
}

/// Appending one tab extends the strip's render and width.
pub proof fn lemma_tabs_snoc(tabs: Seq<TabDescriptor>, t: TabDescriptor, colors: Colors)
    ensures
        tabs_seq(tabs.push(t), colors) == tabs_seq(tabs, colors) + tab_seq(t, colors),
        tabs_width(tabs.push(t)) == tabs_width(tabs) + tab_width(t),
    decreases tabs.len(),
{
    let u = tabs.push(t);
    assert(u.len() == tabs.len() + 1);
    if tabs.len() == 0 {
        assert(u[0] == t);
        assert(u.skip(1) =~= Seq::<TabDescriptor>::empty());
        assert(tabs_seq(Seq::<TabDescriptor>::empty(), colors) =~= Seq::<char>::empty());
        assert(tabs_width(Seq::<TabDescriptor>::empty()) == 0);
        assert(tabs_seq(u, colors) == tab_seq(t, colors) + tabs_seq(
            Seq::<TabDescriptor>::empty(),
            colors,
        ));
        assert(tabs_width(u) == tab_width(t) + tabs_width(Seq::<TabDescriptor>::empty()));
        assert(tabs_seq(tabs, colors) + tab_seq(t, colors) =~= tab_seq(t, colors));
    } else {
        assert(u[0] == tabs[0]);
        assert(u.skip(1) =~= tabs.skip(1).push(t));
        lemma_tabs_snoc(tabs.skip(1), t, colors);
        assert(tabs_seq(tabs, colors) + tab_seq(t, colors) =~= tab_seq(tabs[0], colors) + (
        tabs_seq(tabs.skip(1), colors) + tab_seq(t, colors)));
    }
}

/// The plain width of a single scalar, spelled out.
proof fn lemma_plain_width_one(c: char)
    ensures
        plain_width(seq![c]) == char_cols(c),
{
    assert(plain_width(Seq::<char>::empty()) == 0);
    assert(seq![c].skip(1) =~= Seq::<char>::empty());
    assert(plain_width(seq![c]) == char_cols(c) + plain_width(seq![c].skip(1)));
}

/// The flags run is escape-free, short, and — when the flag letters and
/// the space are one column each — exactly two columns per flag minus the
/// one saved on the first.
proof fn lemma_flags_text(t: TabDescriptor)
    requires
        char_cols('F') == 1,
        char_cols('S') == 1,
        char_cols('f') == 1,
        char_cols(' ') == 1,
    ensures
        no_esc(flags_text(t)),
        flags_text(t).len() <= 5,
        flag_count(t) == 0 ==> plain_width(flags_text(t)) == 0,
        flag_count(t) > 0 ==> plain_width(flags_text(t)) == 2 * flag_count(t) - 1,
{
    let sp = seq![' '];
    lemma_plain_width_one('F');
    lemma_plain_width_one('S');
    lemma_plain_width_one('f');
    lemma_plain_width_one(' ');
    assert(plain_width(Seq::<char>::empty()) == 0);
    lemma_plain_width_concat(seq!['F'], sp);
    lemma_plain_width_concat(seq!['F'] + sp, seq!['S']);
    lemma_plain_width_concat(seq!['S'], sp);
    lemma_plain_width_concat(seq!['S'] + sp, seq!['f']);
    lemma_plain_width_concat(seq!['F'], sp);
    lemma_plain_width_concat(seq!['F'] + sp, seq!['f']);
    lemma_plain_width_concat(seq!['F'] + sp + seq!['S'], sp);
    lemma_plain_width_concat(seq!['F'] + sp + seq!['S'] + sp, seq!['f']);
}

/// Renders one tab into one styled segment with the exact formula width.
fn render_one_tab(t: &TabDescriptor, colors: &Colors) -> (seg: Segment)
    requires
        no_esc(t.name@),
        t.name@.len() * 3 + 16 <= usize::MAX,
    ensures
        seg.wf(),
        seg.text@ == tab_seq(*t, *colors),
        seg.width == tab_width(*t),
{
    let bg = if t.active {
        colors.green
    } else {
        colors.black
    };
    let _space_cols = char_width(' ');
    let _f_cols = char_width('F');
    let _s_cols = char_width('S');
    let _fl_cols = char_width('f');
    let _open_cols = char_width('<');
    let _close_cols = char_width('>');
    let name_w = display_width(t.name.as_str());

    // The unstyled middle: a space and the name.
    let mut inner_chars: Vec<char> = Vec::new();
    inner_chars.push(' ');
    let name_chars = str_to_chars(t.name.as_str());
    append_chars(&mut inner_chars, &name_chars);
    proof {
        assert(inner_chars@ =~= seq![' '] + t.name@);
        lemma_plain_width_concat(seq![' '], t.name@);
        lemma_plain_width_one(' ');
    }
    let mut inner = raw_segment(&inner_chars);

    let has_flags = t.fullscreen_active || t.sync_panes_active || t.floating_panes_visible;
    if has_flags {
        proof {
            lemma_flags_text(*t);
        }
        let mut sp_chars: Vec<char> = Vec::new();
        sp_chars.push(' ');
        proof {
            assert(sp_chars@ =~= seq![' ']);
            lemma_plain_width_one(' ');
        }
        let sp_seg = raw_segment(&sp_chars);
        append_segment(&mut inner, &sp_seg);

        let open_seg = one_char_segment(&colors.orange, &bg, '<');
        append_segment(&mut inner, &open_seg);

        let mut fl: Vec<char> = Vec::new();
        if t.fullscreen_active {
            fl.push('F');
        }
        if t.sync_panes_active {
            if fl.len() > 0 {
                fl.push(' ');
            }
            fl.push('S');
        }
        if t.floating_panes_visible {
            if fl.len() > 0 {
                fl.push(' ');
            }
            fl.push('f');
        }
        proof {
            assert(fl@ =~= flags_text(*t));
        }
        let flags_seg = raw_segment(&fl);
        let flags_styled = Segment::styled_over(&colors.white, &bg, true, &flags_seg);
        append_segment(&mut inner, &flags_styled);

        let close_seg = one_char_segment(&colors.orange, &bg, '>');
        append_segment(&mut inner, &close_seg);
    }

    let middle = Segment::styled_over(&colors.gray, &bg, true, &inner);
    let _sep_cols = char_width('\u{e0b0}');
    let mut seg = one_char_segment(&colors.gray, &bg, '\u{e0b0}');
    append_segment(&mut seg, &middle);
    let sep2 = one_char_segment(&bg, &colors.gray, '\u{e0b0}');
    append_segment(&mut seg, &sep2);
    proof {
        assert(seg.text@ =~= tab_seq(*t, *colors));
    }
    seg
}

/// Renders the tab strip: one styled segment per tab, in the host's
/// order, each with the exact formula width.
pub fn render_tabs(tabs: &Vec<TabDescriptor>, colors: &Colors) -> (segs: Vec<Segment>)
    requires
        forall|i: int| 0 <= i < tabs@.len() ==> no_esc((#[trigger] tabs@[i]).name@),
        forall|i: int|
            0 <= i < tabs@.len() ==> (#[trigger] tabs@[i]).name@.len() * 3 + 16 <= usize::MAX,
    ensures
        segs@.len() == tabs@.len(),
        forall|i: int|
            0 <= i < tabs@.len() ==> (#[trigger] segs@[i]).wf() && segs@[i].text@ == tab_seq(
                tabs@[i],
                *colors,
            ) && segs@[i].width == tab_width(tabs@[i]),
{
    let n = tabs.len();
    let mut segs: Vec<Segment> = Vec::new();
    let mut i: usize = 0;
    while i < n
        invariant
            n == tabs@.len(),
            i <= n,
            segs@.len() == i,
            forall|j: int| 0 <= j < tabs@.len() ==> no_esc((#[trigger] tabs@[j]).name@),
            forall|j: int|
                0 <= j < tabs@.len() ==> (#[trigger] tabs@[j]).name@.len() * 3 + 16
                    <= usize::MAX,
            forall|j: int|
                0 <= j < i ==> (#[trigger] segs@[j]).wf() && segs@[j].text@ == tab_seq(
                    tabs@[j],
                    *colors,
                ) && segs@[j].width == tab_width(tabs@[j]),
        decreases n - i,
    {
        let seg = render_one_tab(&tabs[i], colors);
        segs.push(seg);
        i = i + 1;
    }
    segs
}

} // verus!

//! Styled segments: a unit of already-styled text together with its
//! visible column width. The styled bytes are pinned down exactly: a
//! style-opening control sequence, the text, and a reset sequence.

use vstd::prelude::*;
use vstd::string::StrSliceExecFns;
use vstd::string::StringExecFns;

use crate::ansi::esc;
use crate::ansi::is_final_byte;
use crate::ansi::line_wf;
use crate::ansi::lemma_concat;
use crate::ansi::lemma_csi_unit;
use crate::ansi::lemma_plain_text;
use crate::ansi::no_esc;
use crate::ansi::vis_width;
use crate::color::dec_u8;
use crate::color::is_code_char;
use crate::color::lemma_dec_u8_code;
use crate::color::ColorSpec;
use crate::width::display_width;
use crate::width::plain_width;

verus! {

/// The color code placed after `38;` or `48;`: `5;n` for an indexed color,
/// `2;r;g;b` for an RGB triple, as the styling library writes them.
pub open spec fn color_code(c: ColorSpec) -> Seq<char> {
    match c {
        ColorSpec::Indexed(n) => seq!['5', ';'] + dec_u8(n),
        ColorSpec::Rgb(r, g, b) => seq!['2', ';'] + dec_u8(r) + seq![';'] + dec_u8(g) + seq![';']
            + dec_u8(b),
    }
}

/// The full foreground code: `38;` and the color code.
pub open spec fn fg_code(c: ColorSpec) -> Seq<char> {
    seq!['3', '8', ';'] + color_code(c)
}

/// The full background code: `48;` and the color code.
pub open spec fn bg_code(c: ColorSpec) -> Seq<char> {
    seq!['4', '8', ';'] + color_code(c)
}

/// The codes of a style: the bold code if emphasis is on, then the
/// background, then the foreground, separated by semicolons — the order
/// the styling library writes them in.
pub open spec fn style_codes(fg: ColorSpec, bg: ColorSpec, bold: bool) -> Seq<char> {
    (if bold {
        seq!['1', ';']
    } else {
        Seq::<char>::empty()
    }) + bg_code(bg) + seq![';'] + fg_code(fg)
}

/// The style-opening control sequence.
pub open spec fn style_prefix(fg: ColorSpec, bg: ColorSpec, bold: bool) -> Seq<char> {
    seq![esc(), '['] + style_codes(fg, bg, bold) + seq!['m']
}

/// The style-reset control sequence.
pub open spec fn reset_seq() -> Seq<char> {
    seq![esc(), '[', '0', 'm']
}

/// A styled run: the opening sequence, the content, and the reset.
pub open spec fn styled_seq(fg: ColorSpec, bg: ColorSpec, bold: bool, t: Seq<char>) -> Seq<char> {
    style_prefix(fg, bg, bold) + t + reset_seq()
}

/// Every scalar of a color code is a code character.
pub proof fn lemma_color_code_chars(c: ColorSpec)
    ensures
        forall|i: int| 0 <= i < color_code(c).len() ==> is_code_char(#[trigger] color_code(c)[i]),
{
    match c {
        ColorSpec::Indexed(n) => {
            lemma_dec_u8_code(n);
        },
        ColorSpec::Rgb(r, g, b) => {
            lemma_dec_u8_code(r);
            lemma_dec_u8_code(g);
            lemma_dec_u8_code(b);
        },
    }
}

/// Every scalar of a style's codes is a code character.
pub proof fn lemma_style_codes_chars(fg: ColorSpec, bg: ColorSpec, bold: bool)
    ensures
        forall|i: int|
            0 <= i < style_codes(fg, bg, bold).len() ==> is_code_char(
                #[trigger] style_codes(fg, bg, bold)[i],
            ),
{
    lemma_color_code_chars(fg);
    lemma_color_code_chars(bg);
}

/// Styling a well-formed line gives a well-formed line of the same
/// visible width: the added control sequences occupy no columns.
pub proof fn lemma_styled_line(fg: ColorSpec, bg: ColorSpec, bold: bool, t: Seq<char>)
    requires
        line_wf(t),
    ensures
        line_wf(styled_seq(fg, bg, bold, t)),
        vis_width(styled_seq(fg, bg, bold, t)) == vis_width(t),
{
    let codes = style_codes(fg, bg, bold);
    let prefix = style_prefix(fg, bg, bold);
    let reset = reset_seq();
    lemma_style_codes_chars(fg, bg, bold);
    assert(forall|i: int| 0 <= i < codes.len() ==> !is_final_byte(codes[i])) by {
        assert(forall|i: int|
            0 <= i < codes.len() ==> is_code_char(#[trigger] codes[i]) && !is_final_byte(
                codes[i],
            ));
    }
    assert(is_final_byte('m'));
    lemma_csi_unit(codes, 'm');
    assert(prefix =~= seq![esc(), '['] + codes + seq!['m']);
    assert(is_final_byte('m'));
    lemma_csi_unit(seq!['0'], 'm');
    assert(reset =~= seq![esc(), '['] + seq!['0'] + seq!['m']);
    lemma_concat(t, reset, false);
    lemma_concat(prefix, t + reset, false);
    assert(styled_seq(fg, bg, bold, t) =~= prefix + (t + reset));
}

/// Styling escape-free text gives a well-formed line whose visible width
/// is the text's plain display width.
pub proof fn lemma_styled_text(fg: ColorSpec, bg: ColorSpec, bold: bool, t: Seq<char>)
    requires
        no_esc(t),
    ensures
        line_wf(styled_seq(fg, bg, bold, t)),
        vis_width(styled_seq(fg, bg, bold, t)) == plain_width(t),
{
    lemma_plain_text(t);
    lemma_styled_line(fg, bg, bold, t);
}

/// Relies on `ansi_term`'s `Style::paint` and the `Display` of the
/// painted string: with a foreground, a background and optionally bold
/// set, the output is `ESC [`, the bold code, the background code, the
/// foreground code (semicolon-separated, colors as `38;5;n`/`38;2;r;g;b`
/// and `48;...`), `m`, the text, then the reset `ESC [ 0 m`.
#[verifier::external_body]
pub(crate) fn paint_styled(fg: &ColorSpec, bg: &ColorSpec, bold: bool, text: &str) -> (r: String)
    ensures
        r@ == styled_seq(*fg, *bg, bold, text@),
{
    let f = match *fg {
        ColorSpec::Rgb(r, g, b) => ansi_term::Color::RGB(r, g, b),
        ColorSpec::Indexed(n) => ansi_term::Color::Fixed(n),
    };
    let h = match *bg {
        ColorSpec::Rgb(r, g, b) => ansi_term::Color::RGB(r, g, b),
        ColorSpec::Indexed(n) => ansi_term::Color::Fixed(n),
    };
    let style = ansi_term::Style::new().fg(f).on(h);
    let style = if bold { style.bold() } else { style };
    style.paint(text).to_string()
}

/// One styled run with its visible column width: the width the layout
/// arithmetic uses, equal by construction to the styled text's visible
/// width.
pub struct Segment {
    pub text: String,
    pub width: usize,
}

impl Segment {
    /// Well-formed segment: the styled text is a well-formed line and the
    /// recorded width is its visible width.
    pub open spec fn wf(self) -> bool {
        line_wf(self.text@) && self.width == vis_width(self.text@)
    }

    /// The empty segment.
    pub fn empty() -> (s: Segment)
        ensures
            s.wf(),
            s.text@ == Seq::<char>::empty(),
            s.width == 0,
    {
        let s = Segment { text: String::new(), width: 0 };
        proof {
            assert(line_wf(s.text@));
            assert(vis_width(s.text@) == 0);
        }
        s
    }

    /// A copy of the segment.
    pub fn clone_segment(&self) -> (s: Segment)
        ensures
            s == *self,
    {
        Segment { text: self.text.clone(), width: self.width }
    }

    /// Styles plain text: wraps it in the opening and reset sequences and
    /// records its plain display width, computed from the unstyled text.
    pub fn styled_text(fg: &ColorSpec, bg: &ColorSpec, bold: bool, text: &str) -> (s: Segment)
        requires
            no_esc(text@),
            text@.len() * 3 <= usize::MAX,
        ensures
            s.wf(),
            s.text@ == styled_seq(*fg, *bg, bold, text@),
            s.width == plain_width(text@),
    {
        let w = display_width(text);
        let t = paint_styled(fg, bg, bold, text);
        proof {
            lemma_styled_text(*fg, *bg, bold, text@);
        }
        Segment { text: t, width: w }
    }

    /// Styles an already-styled run: wraps it in a further opening and
    /// reset sequence, leaving the visible width unchanged.
    pub fn styled_over(fg: &ColorSpec, bg: &ColorSpec, bold: bool, inner: &Segment) -> (s: Segment)
        requires
            inner.wf(),
        ensures
            s.wf(),
            s.text@ == styled_seq(*fg, *bg, bold, inner.text@),
            s.width == inner.width,
    {
        let t = paint_styled(fg, bg, bold, inner.text.as_str());
        proof {
            lemma_styled_line(*fg, *bg, bold, inner.text@);
        }
        Segment { text: t, width: inner.width }
    }
}

/// An unstyled chunk: escape-free scalars carried as a segment, with
/// their plain display width.
pub fn raw_segment(v: &Vec<char>) -> (s: Segment)
    requires
        no_esc(v@),
        v@.len() * 3 <= usize::MAX,
    ensures
        s.wf(),
        s.text@ == v@,
        s.width == plain_width(v@),
        s.width <= v@.len() * 3,
{
    let w = crate::width::chars_width(v);
    let t = crate::chars::chars_to_string(v);
    proof {
        lemma_plain_text(v@);
    }
    Segment { text: t, width: w }
}

/// One scalar styled bold with the given color pairing.
pub fn one_char_segment(fg: &ColorSpec, bg: &ColorSpec, c: char) -> (s: Segment)
    requires
        c != esc(),
    ensures
        s.wf(),
        s.text@ == styled_seq(*fg, *bg, true, seq![c]),
        s.width == crate::width::char_cols(c),
        s.width <= 3,
{
    let mut v: Vec<char> = Vec::new();
    v.push(c);
    proof {
        assert(v@ =~= seq![c]);
    }
    let w = crate::width::char_width(c);
    let st = crate::chars::chars_to_string(&v);
    let t = paint_styled(fg, bg, true, st.as_str());
    proof {
        assert(no_esc(seq![c]));
        lemma_styled_text(*fg, *bg, true, seq![c]);
        assert(plain_width(Seq::<char>::empty()) == 0);
        assert(seq![c].skip(1) =~= Seq::<char>::empty());
        assert(plain_width(seq![c]) == crate::width::char_cols(c) + plain_width(
            seq![c].skip(1),
        ));
    }
    Segment { text: t, width: w }
}

/// Appends one segment to another: text concatenates, widths add.
pub fn append_segment(acc: &mut Segment, piece: &Segment)
    requires
        old(acc).wf(),
        piece.wf(),
        old(acc).width + piece.width <= usize::MAX,
    ensures
        final(acc).wf(),
        final(acc).text@ == old(acc).text@ + piece.text@,
        final(acc).width == old(acc).width + piece.width,
{
    proof {
        lemma_concat(acc.text@, piece.text@, false);
    }
    acc.text.append(piece.text.as_str());
    acc.width = acc.width + piece.width;
}

/// The concatenated styled text of a run of segments.
pub open spec fn seg_concat(segs: Seq<Segment>) -> Seq<char>
    decreases segs.len(),
{
    if segs.len() == 0 {
        Seq::<char>::empty()
    } else {
        segs[0].text@ + seg_concat(segs.skip(1))
    }
}

/// The summed recorded widths of a run of segments.
pub open spec fn widths_sum(segs: Seq<Segment>) -> nat
    decreases segs.len(),
{
    if segs.len() == 0 {
        0
    } else {
        (segs[0].width + widths_sum(segs.skip(1))) as nat
    }
}

/// Every segment of the run is well-formed.
pub open spec fn all_wf(segs: Seq<Segment>) -> bool {
    forall|i: int| 0 <= i < segs.len() ==> (#[trigger] segs[i]).wf()
}

/// Appending one segment to a run extends the concatenation and the sum.
pub proof fn lemma_seg_snoc(segs: Seq<Segment>, x: Segment)
    ensures
        seg_concat(segs.push(x)) == seg_concat(segs) + x.text@,
        widths_sum(segs.push(x)) == widths_sum(segs) + x.width,
    decreases segs.len(),
{
    let t = segs.push(x);
    assert(t.len() == segs.len() + 1);
    if segs.len() == 0 {
        assert(t[0] == x);
        assert(t.skip(1) =~= Seq::<Segment>::empty());
        assert(seg_concat(Seq::<Segment>::empty()) =~= Seq::<char>::empty());
        assert(widths_sum(Seq::<Segment>::empty()) == 0);
        assert(seg_concat(t) == x.text@ + seg_concat(Seq::<Segment>::empty()));
        assert(widths_sum(t) == x.width + widths_sum(Seq::<Segment>::empty()));
        assert(seg_concat(segs) + x.text@ =~= x.text@);
    } else {
        assert(t[0] == segs[0]);
        assert(t.skip(1) =~= segs.skip(1).push(x));
        lemma_seg_snoc(segs.skip(1), x);
        assert(seg_concat(segs) + x.text@ =~= segs[0].text@ + (seg_concat(segs.skip(1))
            + x.text@));
    }
}

/// A run of well-formed segments concatenates to a well-formed line whose
/// visible width is the summed recorded widths.
pub proof fn lemma_seg_concat_wf(segs: Seq<Segment>)
    requires
        all_wf(segs),
    ensures
        line_wf(seg_concat(segs)),
        vis_width(seg_concat(segs)) == widths_sum(segs),
    decreases segs.len(),
{
    if segs.len() == 0 {
    } else {
        assert(segs[0].wf());
        assert(forall|i: int|
            0 <= i < segs.skip(1).len() ==> segs.skip(1)[i] == segs[i + 1]);
        lemma_seg_concat_wf(segs.skip(1));
        lemma_concat(segs[0].text@, seg_concat(segs.skip(1)), false);
    }
}

/// The sum of a split run is the sum of its parts.
pub proof fn lemma_widths_split(a: Seq<Segment>, b: Seq<Segment>)
    ensures
        widths_sum(a + b) == widths_sum(a) + widths_sum(b),
    decreases a.len(),
{
    if a.len() == 0 {
        assert(a + b =~= b);
    } else {
        assert((a + b)[0] == a[0]);
        assert((a + b).skip(1) =~= a.skip(1) + b);
        lemma_widths_split(a.skip(1), b);
    }
}

/// Joins a run of segments into one: the concatenated text with the
/// summed width.
pub fn join_segments(v: &Vec<Segment>) -> (r: Segment)
    requires
        all_wf(v@),
        widths_sum(v@) <= usize::MAX,
    ensures
        r.wf(),
        r.text@ == seg_concat(v@),
        r.width == widths_sum(v@),
{
    let mut acc = Segment::empty();
    let n = v.len();
    let mut i: usize = 0;
    proof {
        assert(seg_concat(v@.take(0)) =~= Seq::<char>::empty());
        assert(widths_sum(v@.take(0)) == 0);
        assert(acc.text@ =~= seg_concat(v@.take(0)));
    }
    while i < n
        invariant
            n == v@.len(),
            i <= n,
            all_wf(v@),
            widths_sum(v@) <= usize::MAX,
            acc.wf(),
            acc.text@ == seg_concat(v@.take(i as int)),
            acc.width == widths_sum(v@.take(i as int)),
        decreases n - i,
    {
        proof {
            assert(v@.take(i + 1 as int) =~= v@.take(i as int).push(v@[i as int]));
            lemma_seg_snoc(v@.take(i as int), v@[i as int]);
            assert(v@ =~= v@.take(i + 1 as int) + v@.skip(i + 1 as int));
            lemma_widths_split(v@.take(i + 1 as int), v@.skip(i + 1 as int));
            assert(v@[i as int].wf());
        }
        append_segment(&mut acc, &v[i]);
        i = i + 1;
    }
    proof {
        assert(v@.take(n as int) =~= v@);
    }
    acc
}

} // verus!

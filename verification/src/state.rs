//! The render state, the host events that mutate it, and the renderer
//! that lays the status line out to an exact column count.

use vstd::prelude::*;
use vstd::string::StrSliceExecFns;

use crate::ansi::esc;
use crate::ansi::no_esc;
use crate::chars::chars_to_string;
use crate::chars::str_to_chars;
use crate::clock::clock_seq;
use crate::clock::clock_text;
use crate::clock::lemma_clock_seq;
use crate::color::Colors;
use crate::tabs::TabDescriptor;

verus! {

/// The swap-layout indicator of the active tab: the layout's name and
/// whether the layout has been edited away from.
pub struct SwapLayout {
    pub name: String,
    pub dirty: bool,
}

/// The per-frame inputs of a render: what the host events have last
/// reported.
pub struct RenderState {
    pub session_name: String,
    pub mode: String,
    pub tabs: Vec<TabDescriptor>,
    pub time: String,
    pub clip_set_at: Option<u64>,
    pub branch: Option<String>,
    pub swap_layout: Option<SwapLayout>,
    pub colors: Colors,
}

/// A string the layout can account for: it fits the width arithmetic.
pub open spec fn str_ok(s: Seq<char>) -> bool {
    s.len() * 3 + 16 <= usize::MAX
}

/// A well-formed render state: every string is free of the escape scalar
/// and short enough for the width arithmetic.
pub open spec fn state_wf(st: RenderState) -> bool {
    &&& no_esc(st.session_name@) && str_ok(st.session_name@)
    &&& no_esc(st.mode@) && str_ok(st.mode@)
    &&& no_esc(st.time@) && str_ok(st.time@)
    &&& (st.branch matches Option::Some(b) ==> no_esc(b@) && str_ok(b@))
    &&& (st.swap_layout matches Option::Some(sl) ==> no_esc(sl.name@) && str_ok(sl.name@))
    &&& (forall|i: int|
        0 <= i < st.tabs@.len() ==> no_esc((#[trigger] st.tabs@[i]).name@) && str_ok(
            st.tabs@[i].name@,
        ))
}

impl Default for RenderState {
    fn default() -> (st: RenderState)
        ensures
            state_wf(st),
            st.session_name@ == Seq::<char>::empty(),
            st.mode@ == Seq::<char>::empty(),
            st.time@ == Seq::<char>::empty(),
            st.tabs@.len() == 0,
            st.clip_set_at is None,
            st.branch is None,
            st.swap_layout is None,
            st.colors == Colors::spec_default(),
    {
        RenderState {
            session_name: String::new(),
            mode: String::new(),
            tabs: Vec::new(),
            time: String::new(),
            clip_set_at: Option::None,
            branch: Option::None,
            swap_layout: Option::None,
            colors: Colors::default(),
        }
    }
}

/// One host event, reduced to plain values.
pub enum Event {
    /// The input mode, the session name and the palette changed.
    ModeChanged { mode: String, session: Option<String>, colors: Colors },
    /// The tab list changed; carries the active tab's swap layout too.
    TabsChanged { tabs: Vec<TabDescriptor>, swap_layout: Option<SwapLayout> },
    /// The repeating timer fired: `now` is a monotonic reading in whole
    /// seconds, the rest the wall clock.
    TimerFired { now: u64, hour: u8, minute: u8, second: u8 },
    /// Text was copied to the clipboard at monotonic instant `now`.
    ClipboardCopied { now: u64 },
    /// Any other host event: nothing to record.
    Other,
}

/// A well-formed event: clock fields in range, strings escape-free and
/// short enough for the width arithmetic.
pub open spec fn event_wf(e: Event) -> bool {
    match e {
        Event::ModeChanged { mode, session, colors } => {
            &&& no_esc(mode@) && str_ok(mode@)
            &&& (session matches Option::Some(s) ==> no_esc(s@) && str_ok(s@))
        },
        Event::TabsChanged { tabs, swap_layout } => {
            &&& (forall|i: int|
                0 <= i < tabs@.len() ==> no_esc((#[trigger] tabs@[i]).name@) && str_ok(
                    tabs@[i].name@,
                ))
            &&& (swap_layout matches Option::Some(sl) ==> no_esc(sl.name@) && str_ok(sl.name@))
        },
        Event::TimerFired { now, hour, minute, second } => hour < 24 && minute < 60 && second
            < 60,
        _ => true,
    }
}

/// The clipboard acknowledgement after a timer tick: cleared once more
/// than two seconds have passed since it was recorded.
pub open spec fn clip_after_tick(clip: Option<u64>, now: u64) -> Option<u64> {
    match clip {
        Option::None => Option::None,
        Option::Some(t) => if now > t + 2 {
            Option::None
        } else {
            Option::Some(t)
        },
    }
}

/// Applies one host event to the state. Every event asks for a redraw.
pub fn update(state: &mut RenderState, event: Event) -> (redraw: bool)
    requires
        state_wf(*old(state)),
        event_wf(event),
    ensures
        redraw,
        state_wf(*final(state)),
        event matches Event::ModeChanged { mode, session, colors } ==> {
            &&& final(state).mode == mode
            &&& final(state).colors == colors
            &&& final(state).session_name@ == (match session {
                Option::Some(s) => s@,
                Option::None => Seq::<char>::empty(),
            })
            &&& final(state).tabs == old(state).tabs
            &&& final(state).time == old(state).time
            &&& final(state).clip_set_at == old(state).clip_set_at
            &&& final(state).branch == old(state).branch
            &&& final(state).swap_layout == old(state).swap_layout
        },
        event matches Event::TabsChanged { tabs, swap_layout } ==> {
            &&& final(state).tabs == tabs
            &&& final(state).swap_layout == swap_layout
            &&& final(state).session_name == old(state).session_name
            &&& final(state).mode == old(state).mode
            &&& final(state).time == old(state).time
            &&& final(state).clip_set_at == old(state).clip_set_at
            &&& final(state).branch == old(state).branch
            &&& final(state).colors == old(state).colors
        },
        event matches Event::TimerFired { now, hour, minute, second } ==> {
            &&& final(state).time@ == clock_seq(hour as nat, minute as nat, second as nat)
            &&& final(state).clip_set_at == clip_after_tick(old(state).clip_set_at, now)
            &&& final(state).session_name == old(state).session_name
            &&& final(state).mode == old(state).mode
            &&& final(state).tabs == old(state).tabs
            &&& final(state).branch == old(state).branch
            &&& final(state).swap_layout == old(state).swap_layout
            &&& final(state).colors == old(state).colors
        },
        event matches Event::ClipboardCopied { now } ==> {
            &&& final(state).clip_set_at == Option::Some(now)
            &&& final(state).session_name == old(state).session_name
            &&& final(state).mode == old(state).mode
            &&& final(state).tabs == old(state).tabs
            &&& final(state).time == old(state).time
            &&& final(state).branch == old(state).branch
            &&& final(state).swap_layout == old(state).swap_layout
            &&& final(state).colors == old(state).colors
        },
        event is Other ==> *final(state) == *old(state),
{
    match event {
        Event::ModeChanged { mode, session, colors } => {
            state.mode = mode;
            state.session_name = match session {
                Option::Some(s) => s,
                Option::None => String::new(),
            };
            state.colors = colors;
        },
        Event::TabsChanged { tabs, swap_layout } => {
            state.tabs = tabs;
            state.swap_layout = swap_layout;
        },
        Event::TimerFired { now, hour, minute, second } => {
            state.time = clock_text(hour, minute, second);
            proof {
                lemma_clock_seq(hour as nat, minute as nat, second as nat);
            }
            match state.clip_set_at {
                Option::Some(t) => {
                    if now > t && now - t > 2 {
                        state.clip_set_at = Option::None;
                    }
                },
                Option::None => {},
            }
        },
        Event::ClipboardCopied { now } => {
            state.clip_set_at = Option::Some(now);
        },
        Event::Other => {},
    }
    true
}

/// An ASCII whitespace scalar, where the reference name ends.
pub open spec fn is_space(c: char) -> bool {
    c == ' ' || c == '\t' || c == '\n' || c == '\r' || c == '\u{b}' || c == '\u{c}'
}

/// The run of scalars before the first whitespace.
pub open spec fn until_space(s: Seq<char>) -> Seq<char>
    decreases s.len(),
{
    if s.len() == 0 {
        Seq::<char>::empty()
    } else if is_space(s[0]) {
        Seq::<char>::empty()
    } else {
        seq![s[0]] + until_space(s.skip(1))
    }
}

/// The prefix before the first whitespace is the whole scanned stretch.
proof fn lemma_until_space(s: Seq<char>, j: int)
    requires
        0 <= j <= s.len(),
        forall|k: int| 0 <= k < j ==> !is_space(s[k]),
        j == s.len() || is_space(s[j]),
    ensures
        until_space(s) == s.take(j),
    decreases s.len(),
{
    if j == 0 {
        assert(s.take(0) =~= Seq::<char>::empty());
    } else {
        assert(!is_space(s[0]));
        assert(forall|k: int| 0 <= k < j - 1 ==> s.skip(1)[k] == s[k + 1]);
        lemma_until_space(s.skip(1), j - 1);
        assert(s.take(j) =~= seq![s[0]] + s.skip(1).take(j - 1));
    }
}

/// Executable test for ASCII whitespace.
fn is_space_exec(c: char) -> (b: bool)
    ensures
        b == is_space(c),
{
    c == ' ' || c == '\t' || c == '\n' || c == '\r' || c == '\u{b}' || c == '\u{c}'
}

/// The branch label read from a version-control HEAD file: skips the
/// sixteen-scalar fixed prefix, keeps the reference name up to the first
/// whitespace, and puts one space in front. A file too short to hold the
/// prefix yields no label.
pub fn extract_branch(content: &str) -> (r: Option<String>)
    ensures
        content@.len() < 16 ==> r is None,
        content@.len() >= 16 ==> (r matches Option::Some(b) && b@ == seq![' '] + until_space(
            content@.skip(16),
        )),
{
    let v = str_to_chars(content);
    if v.len() < 16 {
        return Option::None;
    }
    let n = v.len();
    let mut out: Vec<char> = Vec::new();
    out.push(' ');
    let mut i: usize = 16;
    let mut stop = false;
    while i < n && !stop
        invariant
            16 <= i <= n,
            n == v@.len(),
            out@ == seq![' '] + v@.subrange(16, i as int),
            forall|k: int| 16 <= k < i ==> !is_space(v@[k]),
            stop ==> i < n && is_space(v@[i as int]),
        decreases n - i, (if stop { 0int } else { 1int }),
    {
        let c = v[i];
        if is_space_exec(c) {
            stop = true;
        } else {
            out.push(c);
            proof {
                assert(out@ =~= seq![' '] + v@.subrange(16, i + 1 as int));
            }
            i = i + 1;
        }
    }
    proof {
        let t = v@.skip(16);
        assert(forall|k: int| 0 <= k < t.len() ==> t[k] == v@[k + 16]);
        lemma_until_space(t, i - 16);
        assert(t.take(i - 16) =~= v@.subrange(16, i as int));
    }
    Option::Some(chars_to_string(&out))
}

/// Installs the branch label extracted from the given HEAD-file content,
/// dropping a label the layout could not account for; no content clears
/// the label.
pub fn load_branch(state: &mut RenderState, content: Option<&String>)
    requires
        state_wf(*old(state)),
    ensures
        state_wf(*final(state)),
        final(state).session_name == old(state).session_name,
        final(state).mode == old(state).mode,
        final(state).tabs == old(state).tabs,
        final(state).time == old(state).time,
        final(state).clip_set_at == old(state).clip_set_at,
        final(state).swap_layout == old(state).swap_layout,
        final(state).colors == old(state).colors,
        content matches Option::Some(c) ==> ((c@.len() >= 16 && no_esc(
            seq![' '] + until_space(c@.skip(16)),
        ) && str_ok(seq![' '] + until_space(c@.skip(16)))) ==> (final(state).branch
            matches Option::Some(b) && b@ == seq![' '] + until_space(c@.skip(16)))),
        content matches Option::Some(c) ==> ((c@.len() < 16 || !no_esc(
            seq![' '] + until_space(c@.skip(16)),
        ) || !str_ok(seq![' '] + until_space(c@.skip(16)))) ==> final(state).branch is None),
        content is None ==> final(state).branch is None,
{
    match content {
        Option::Some(c) => {
            let b = extract_branch(c.as_str());
            match b {
                Option::Some(label) => {
                    let lv = str_to_chars(label.as_str());
                    let n = lv.len();
                    let mut ok = n <= (usize::MAX - 16) / 3;
                    proof {
                        assert(ok == str_ok(lv@));
                    }
                    let mut i: usize = 0;
                    while i < n
                        invariant
                            i <= n,
                            n == lv@.len(),
                            ok == (str_ok(lv@) && forall|k: int|
                                0 <= k < i ==> lv@[k] != esc()),
                        decreases n - i,
                    {
                        if lv[i] == '\u{1b}' {
                            ok = false;
                        }
                        i = i + 1;
                    }
                    if ok {
                        state.branch = Option::Some(label);
                    } else {
                        state.branch = Option::None;
                    }
                },
                Option::None => {
                    state.branch = Option::None;
                },
            }
        },
        Option::None => {
            state.branch = Option::None;
        },
    }
}

/// The left-pointing separator glyph.
pub open spec fn lsep() -> char {
    '\u{e0b2}'
}

/// The session field's text: the session name between single spaces.
pub open spec fn session_text(st: RenderState) -> Seq<char> {
    seq![' '] + st.session_name@ + seq![' ']
}

/// The accent color of the mode field: blue for the normal mode, purple
/// for the locked mode, orange for every other mode.
pub open spec fn mode_accent(st: RenderState) -> crate::color::ColorSpec {
    if st.mode@ == "Normal"@ {
        st.colors.blue
    } else if st.mode@ == "Locked"@ {
        st.colors.purple
    } else {
        st.colors.orange
    }
}

/// The mode field's text: the mode name uppercased.
pub open spec fn mode_text(st: RenderState) -> Seq<char> {
    crate::chars::upper_seq(st.mode@)
}

/// The clipboard acknowledgement text.
pub open spec fn clip_chars() -> Seq<char> {
    seq!['C', 'o', 'p', 'p', 'i', 'e', 'd', '!', ' ']
}

/// The clock field's text: the time string between single spaces.
pub open spec fn time_text(st: RenderState) -> Seq<char> {
    seq![' '] + st.time@ + seq![' ']
}

/// The accent of the swap-layout field: the green of its frame while the
/// layout is edited away from, black otherwise.
pub open spec fn layout_accent(sl: SwapLayout, st: RenderState) -> crate::color::ColorSpec {
    if sl.dirty {
        st.colors.green
    } else {
        st.colors.black
    }
}

/// The left group: session field, mode field between separators, and the
/// tab strip.
pub open spec fn left_seq(st: RenderState) -> Seq<char> {
    crate::segment::styled_seq(st.colors.white, st.colors.gray, true, session_text(st))
        + crate::segment::styled_seq(st.colors.black, st.colors.gray, true, seq![lsep()])
        + crate::segment::styled_seq(mode_accent(st), st.colors.black, true, mode_text(st))
        + crate::segment::styled_seq(
        st.colors.black,
        st.colors.gray,
        true,
        seq![crate::tabs::tab_sep()],
    ) + crate::tabs::tabs_seq(st.tabs@, st.colors)
}

/// The clipboard acknowledgement piece, shown while the flag is set.
pub open spec fn clip_piece(st: RenderState) -> Seq<char> {
    if st.clip_set_at is Some {
        crate::segment::styled_seq(st.colors.white, st.colors.gray, true, clip_chars())
    } else {
        Seq::<char>::empty()
    }
}

/// The swap-layout field, shown when an active tab reports one.
pub open spec fn layout_pieces(st: RenderState) -> Seq<char> {
    match st.swap_layout {
        Option::Some(sl) => crate::segment::styled_seq(
            st.colors.green,
            st.colors.gray,
            true,
            seq![lsep()],
        ) + crate::segment::styled_seq(
            layout_accent(sl, st),
            st.colors.green,
            true,
            crate::chars::upper_seq(sl.name@) + seq![' '],
        ) + crate::segment::styled_seq(st.colors.gray, st.colors.green, true, seq![lsep()]),
        Option::None => Seq::<char>::empty(),
    }
}

/// The branch field, shown when a label was loaded.
pub open spec fn branch_pieces(st: RenderState) -> Seq<char> {
    match st.branch {
        Option::Some(b) => crate::segment::styled_seq(
            st.colors.black,
            st.colors.gray,
            true,
            seq![lsep()],
        ) + crate::segment::styled_seq(st.colors.blue, st.colors.black, true, b@)
            + crate::segment::styled_seq(
            st.colors.black,
            st.colors.gray,
            true,
            seq![crate::tabs::tab_sep()],
        ),
        Option::None => Seq::<char>::empty(),
    }
}

/// The right group: clipboard acknowledgement, swap layout, branch, and
/// the clock.
pub open spec fn right_seq(st: RenderState) -> Seq<char> {
    clip_piece(st) + layout_pieces(st) + branch_pieces(st) + crate::segment::styled_seq(
        st.colors.white,
        st.colors.gray,
        true,
        time_text(st),
    )
}

/// The summed visible width of the left group's fields.
pub open spec fn left_width(st: RenderState) -> nat {
    (crate::width::plain_width(session_text(st)) + crate::width::char_cols(lsep())
        + crate::width::plain_width(mode_text(st)) + crate::width::char_cols(
        crate::tabs::tab_sep(),
    ) + crate::tabs::tabs_width(st.tabs@)) as nat
}

/// The summed visible width of the right group's fields.
pub open spec fn right_width(st: RenderState) -> nat {
    ((if st.clip_set_at is Some {
        crate::width::plain_width(clip_chars())
    } else {
        0
    }) + (match st.swap_layout {
        Option::Some(sl) => crate::width::char_cols(lsep()) + crate::width::plain_width(
            crate::chars::upper_seq(sl.name@) + seq![' '],
        ) + crate::width::char_cols(lsep()),
        Option::None => 0,
    }) + (match st.branch {
        Option::Some(b) => crate::width::char_cols(lsep()) + crate::width::plain_width(b@)
            + crate::width::char_cols(crate::tabs::tab_sep()),
        Option::None => 0,
    }) + crate::width::plain_width(time_text(st))) as nat
}

/// The summed visible width of every field of the frame.
pub open spec fn content_width(st: RenderState) -> nat {
    (left_width(st) + right_width(st)) as nat
}

/// Builds the left group's segments: session, mode between separators,
/// and the tab strip.
#[verifier::rlimit(60)]
fn build_left(state: &RenderState) -> (left: Vec<crate::segment::Segment>)
    requires
        state_wf(*state),
    ensures
        crate::segment::all_wf(left@),
        crate::segment::seg_concat(left@) == left_seq(*state),
        crate::segment::widths_sum(left@) == left_width(*state),
{
    let c = &state.colors;

    // Session field.
    let mut sess_chars: Vec<char> = Vec::new();
    sess_chars.push(' ');
    let sn = str_to_chars(state.session_name.as_str());
    crate::chars::append_chars(&mut sess_chars, &sn);
    sess_chars.push(' ');
    proof {
        assert(sess_chars@ =~= session_text(*state));
        assert(no_esc(seq![' ']));
        crate::ansi::lemma_no_esc_concat(seq![' '], state.session_name@);
        crate::ansi::lemma_no_esc_concat(seq![' '] + state.session_name@, seq![' ']);
    }
    let sess_raw = crate::segment::raw_segment(&sess_chars);
    let sess_seg = crate::segment::Segment::styled_over(&c.white, &c.gray, true, &sess_raw);

    // Mode field and its accent.
    let nrm = <String as vstd::string::StringExecFns>::from_str("Normal");
    let lck = <String as vstd::string::StringExecFns>::from_str("Locked");
    let accent = if state.mode == nrm {
        c.blue
    } else if state.mode == lck {
        c.purple
    } else {
        c.orange
    };
    proof {
        assert(accent == mode_accent(*state));
    }
    let mode_raw_chars = str_to_chars(state.mode.as_str());
    let mode_up = crate::chars::upper_chars(&mode_raw_chars);
    proof {
        crate::chars::lemma_upper_no_esc(state.mode@);
    }
    let mode_raw = crate::segment::raw_segment(&mode_up);
    let mode_seg = crate::segment::Segment::styled_over(&accent, &c.black, true, &mode_raw);

    let lsep_seg = crate::segment::one_char_segment(&c.black, &c.gray, '\u{e0b2}');
    let rsep_seg = crate::segment::one_char_segment(&c.black, &c.gray, '\u{e0b0}');

    let mut left: Vec<crate::segment::Segment> = Vec::new();
    proof {
        assert(crate::segment::seg_concat(left@) =~= Seq::<char>::empty());
        assert(crate::segment::widths_sum(left@) == 0);
        crate::segment::lemma_seg_snoc(left@, sess_seg);
    }
    left.push(sess_seg);
    proof {
        crate::segment::lemma_seg_snoc(left@, lsep_seg);
    }
    left.push(lsep_seg);
    proof {
        crate::segment::lemma_seg_snoc(left@, mode_seg);
    }
    left.push(mode_seg);
    proof {
        crate::segment::lemma_seg_snoc(left@, rsep_seg);
    }
    left.push(rsep_seg);

    let tab_segs = crate::tabs::render_tabs(&state.tabs, c);
    let ghost base = crate::segment::seg_concat(left@);
    let ghost basew = crate::segment::widths_sum(left@);
    let tn = tab_segs.len();
    let mut ti: usize = 0;
    proof {
        assert(state.tabs@.take(0) =~= Seq::<TabDescriptor>::empty());
        assert(crate::tabs::tabs_seq(Seq::<TabDescriptor>::empty(), state.colors)
            =~= Seq::<char>::empty());
        assert(crate::tabs::tabs_width(Seq::<TabDescriptor>::empty()) == 0);
        assert(base + Seq::<char>::empty() =~= base);
    }
    while ti < tn
        invariant
            tn == tab_segs@.len(),
            tn == state.tabs@.len(),
            ti <= tn,
            forall|j: int|
                0 <= j < tn ==> (#[trigger] tab_segs@[j]).wf() && tab_segs@[j].text@
                    == crate::tabs::tab_seq(state.tabs@[j], state.colors) && tab_segs@[j].width
                    == crate::tabs::tab_width(state.tabs@[j]),
            crate::segment::seg_concat(left@) == base + crate::tabs::tabs_seq(
                state.tabs@.take(ti as int),
                state.colors,
            ),
            crate::segment::widths_sum(left@) == basew + crate::tabs::tabs_width(
                state.tabs@.take(ti as int),
            ),
            crate::segment::all_wf(left@),
        decreases tn - ti,
    {
        proof {
            crate::segment::lemma_seg_snoc(left@, tab_segs@[ti as int]);
            assert(state.tabs@.take(ti + 1 as int) =~= state.tabs@.take(ti as int).push(
                state.tabs@[ti as int],
            ));
            crate::tabs::lemma_tabs_snoc(
                state.tabs@.take(ti as int),
                state.tabs@[ti as int],
                state.colors,
            );
        }
        let seg = tab_segs[ti].clone_segment();
        left.push(seg);
        ti = ti + 1;
    }
    proof {
        assert(state.tabs@.take(tn as int) =~= state.tabs@);
        assert(crate::segment::seg_concat(left@) =~= left_seq(*state));
    }
    left
}

/// Builds the right group's segments: clipboard acknowledgement, swap
/// layout, branch, and the clock.
#[verifier::rlimit(60)]
fn build_right(state: &RenderState) -> (right: Vec<crate::segment::Segment>)
    requires
        state_wf(*state),
    ensures
        crate::segment::all_wf(right@),
        crate::segment::seg_concat(right@) == right_seq(*state),
        crate::segment::widths_sum(right@) == right_width(*state),
{
    let c = &state.colors;
    let mut right: Vec<crate::segment::Segment> = Vec::new();
    proof {
        assert(crate::segment::seg_concat(right@) =~= Seq::<char>::empty());
        assert(crate::segment::widths_sum(right@) == 0);
    }
    if state.clip_set_at.is_some() {
        proof {
            reveal_strlit("Coppied! ");
            assert("Coppied! "@ =~= clip_chars());
        }
        let clip_seg = crate::segment::Segment::styled_text(&c.white, &c.gray, true, "Coppied! ");
        proof {
            crate::segment::lemma_seg_snoc(right@, clip_seg);
        }
        right.push(clip_seg);
    }
    match &state.swap_layout {
        Option::Some(sl) => {
            let l1 = crate::segment::one_char_segment(&c.green, &c.gray, '\u{e0b2}');
            proof {
                crate::segment::lemma_seg_snoc(right@, l1);
            }
            right.push(l1);
            let la = if sl.dirty {
                c.green
            } else {
                c.black
            };
            let ln_chars = str_to_chars(sl.name.as_str());
            let mut ln_up = crate::chars::upper_chars(&ln_chars);
            ln_up.push(' ');
            proof {
                crate::chars::lemma_upper_no_esc(sl.name@);
                assert(ln_up@ =~= crate::chars::upper_seq(sl.name@) + seq![' ']);
                assert(no_esc(seq![' ']));
                crate::ansi::lemma_no_esc_concat(crate::chars::upper_seq(sl.name@), seq![' ']);
            }
            let ln_raw = crate::segment::raw_segment(&ln_up);
            let l2 = crate::segment::Segment::styled_over(&la, &c.green, true, &ln_raw);
            proof {
                crate::segment::lemma_seg_snoc(right@, l2);
            }
            right.push(l2);
            let l3 = crate::segment::one_char_segment(&c.gray, &c.green, '\u{e0b2}');
            proof {
                crate::segment::lemma_seg_snoc(right@, l3);
            }
            right.push(l3);
        },
        Option::None => {},
    }
    match &state.branch {
        Option::Some(b) => {
            let b1 = crate::segment::one_char_segment(&c.black, &c.gray, '\u{e0b2}');
            proof {
                crate::segment::lemma_seg_snoc(right@, b1);
            }
            right.push(b1);
            let bc = str_to_chars(b.as_str());
            let b_raw = crate::segment::raw_segment(&bc);
            let b2 = crate::segment::Segment::styled_over(&c.blue, &c.black, true, &b_raw);
            proof {
                crate::segment::lemma_seg_snoc(right@, b2);
            }
            right.push(b2);
            let b3 = crate::segment::one_char_segment(&c.black, &c.gray, '\u{e0b0}');
            proof {
                crate::segment::lemma_seg_snoc(right@, b3);
            }
            right.push(b3);
        },
        Option::None => {},
    }
    let mut time_chars: Vec<char> = Vec::new();
    time_chars.push(' ');
    let tc = str_to_chars(state.time.as_str());
    crate::chars::append_chars(&mut time_chars, &tc);
    time_chars.push(' ');
    proof {
        assert(time_chars@ =~= time_text(*state));
        assert(no_esc(seq![' ']));
        crate::ansi::lemma_no_esc_concat(seq![' '], state.time@);
        crate::ansi::lemma_no_esc_concat(seq![' '] + state.time@, seq![' ']);
    }
    let time_raw = crate::segment::raw_segment(&time_chars);
    let time_seg = crate::segment::Segment::styled_over(&c.white, &c.gray, true, &time_raw);
    proof {
        crate::segment::lemma_seg_snoc(right@, time_seg);
    }
    right.push(time_seg);
    proof {
        assert(crate::segment::seg_concat(right@) =~= right_seq(*state));
    }
    right
}

/// Renders the status line for the given column count: the left and
/// right groups composed to exactly `cols` columns, or truncated with the
/// overflow marker when they do not fit.
pub fn render_status(state: &RenderState, cols: usize) -> (line: String)
    requires
        state_wf(*state),
    ensures
        crate::ansi::line_wf(line@),
        content_width(*state) <= usize::MAX ==> line@ == crate::compose::compose_spec(
            left_seq(*state),
            right_seq(*state),
            content_width(*state),
            state.colors,
            cols as nat,
        ),
        content_width(*state) <= usize::MAX && cols > 0 && content_width(*state) <= cols
            ==> crate::ansi::vis_width(line@) == cols as nat,
        content_width(*state) > usize::MAX ==> line@.len() == 0,
{
    let left = build_left(state);
    let right = build_right(state);
    match crate::compose::compose_checked(&left, &right, &state.colors, cols) {
        Option::Some(line) => line,
        Option::None => {
            let out = String::new();
            proof {
                assert(crate::ansi::line_wf(out@));
            }
            out
        },
    }
}

} // verus!

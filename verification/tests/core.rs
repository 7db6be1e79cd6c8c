use statusline::ansi::get_chars_to_truncate;
use statusline::color::ColorSpec;
use statusline::color::Colors;
use statusline::compose::compose;
use statusline::segment::Segment;
use statusline::tabs::render_tabs;
use statusline::tabs::TabDescriptor;
use statusline::width::display_width;

fn measure(s: &str) -> usize {
    let mut w = 0;
    let mut it = s.chars().peekable();
    while let Some(c) = it.next() {
        if c == '\u{1b}' && it.peek() == Some(&'[') {
            it.next();
            for d in it.by_ref() {
                if ('\x40'..='\x7e').contains(&d) {
                    break;
                }
            }
        } else {
            w += unicode_width::UnicodeWidthChar::width(c).unwrap_or(0);
        }
    }
    w
}

fn sequences_complete(s: &str) -> bool {
    let mut it = s.chars().peekable();
    while let Some(c) = it.next() {
        if c == '\u{1b}' && it.peek() == Some(&'[') {
            it.next();
            let mut done = false;
            for d in it.by_ref() {
                if ('\x40'..='\x7e').contains(&d) {
                    done = true;
                    break;
                }
            }
            if !done {
                return false;
            }
        }
    }
    true
}

fn tab(name: &str, active: bool, fs: bool, sync: bool, float: bool) -> TabDescriptor {
    TabDescriptor {
        name: name.to_string(),
        active,
        fullscreen_active: fs,
        sync_panes_active: sync,
        floating_panes_visible: float,
    }
}

#[test]
fn display_width_ascii_and_wide() {
    assert_eq!(display_width("main"), 4);
    assert_eq!(display_width(""), 0);
    assert_eq!(display_width("\u{6f22}"), 2);
    assert_eq!(display_width("\u{e0b0}"), 1);
    assert_eq!(display_width("\u{e0b2}"), 1);
    assert_eq!(display_width("\u{7}"), 0);
}

#[test]
fn display_width_adds_over_concatenation() {
    let a = "ab\u{6f22}";
    let b = " xy\u{e0b0}";
    let joined = format!("{a}{b}");
    assert_eq!(display_width(a) + display_width(b), display_width(&joined));
}

#[test]
fn styled_text_exact_bytes() {
    let seg = Segment::styled_text(&ColorSpec::Indexed(5), &ColorSpec::Rgb(1, 2, 3), true, "hi");
    assert_eq!(seg.text, "\u{1b}[1;48;2;1;2;3;38;5;5mhi\u{1b}[0m");
    assert_eq!(seg.width, 2);
    let plain = Segment::styled_text(&ColorSpec::Indexed(200), &ColorSpec::Indexed(0), false, "x");
    assert_eq!(plain.text, "\u{1b}[48;5;0;38;5;200mx\u{1b}[0m");
    assert_eq!(plain.width, 1);
}

#[test]
fn truncate_plain_text_exact_budget() {
    assert_eq!(get_chars_to_truncate("hello", 3), 3);
    assert_eq!(get_chars_to_truncate("hello", 5), 5);
}

#[test]
fn truncate_under_budget_keeps_everything() {
    assert_eq!(get_chars_to_truncate("hi", 10), 2);
}

#[test]
fn truncate_skips_control_sequences() {
    let line = "\u{1b}[1;31mabc\u{1b}[0mdef";
    // The seven scalars of the first sequence, then three visible ones.
    assert_eq!(get_chars_to_truncate(line, 3), 10);
    let kept: String = line.chars().take(10).collect();
    assert_eq!(kept, "\u{1b}[1;31mabc");
    assert!(sequences_complete(&kept));
    assert_eq!(measure(&kept), 3);
}

#[test]
fn truncate_never_splits_a_sequence() {
    let line = "ab\u{1b}[38;5;10mcd\u{1b}[0mef";
    for budget in 0..=8 {
        let n = get_chars_to_truncate(line, budget);
        let kept: String = line.chars().take(n).collect();
        assert!(sequences_complete(&kept), "split at budget {budget}: {kept:?}");
        assert!(measure(&kept) <= budget.max(measure(line)));
    }
}

#[test]
fn truncate_malformed_sequence_runs_to_end() {
    let line = "ab\u{1b}[1;2;3";
    assert_eq!(get_chars_to_truncate(line, 10), line.chars().count());
}

#[test]
fn truncate_double_width_straddle_keeps_line() {
    // 'a' shows one column, the ideograph two: no prefix shows exactly
    // two columns, so the exact-match stop never fires.
    let line = "a\u{6f22}";
    assert_eq!(get_chars_to_truncate(line, 2), 2);
    assert_eq!(measure(line), 3);
}

#[test]
fn tab_width_formula_no_flags() {
    let tabs = vec![tab("main", false, false, false, false)];
    let segs = render_tabs(&tabs, &Colors::default());
    assert_eq!(segs.len(), 1);
    assert_eq!(segs[0].width, 3 + 4);
    assert_eq!(measure(&segs[0].text), 7);
}

#[test]
fn tab_width_formula_with_flags() {
    let tabs = vec![tab("main", true, true, true, false)];
    let segs = render_tabs(&tabs, &Colors::default());
    assert_eq!(segs[0].width, 3 + 4 + 2 + 2 * 2);
    assert_eq!(measure(&segs[0].text), 13);
    // The flags run reads "F S" between brackets.
    assert!(segs[0].text.contains('<'));
    assert!(segs[0].text.contains("F"));
    assert!(segs[0].text.contains("S"));
    assert!(segs[0].text.contains('>'));
}

#[test]
fn tab_strip_keeps_host_order() {
    let tabs = vec![
        tab("one", false, false, false, false),
        tab("two", true, false, false, false),
        tab("three", false, false, false, false),
    ];
    let segs = render_tabs(&tabs, &Colors::default());
    assert_eq!(segs.len(), 3);
    assert!(segs[0].text.contains("one"));
    assert!(segs[1].text.contains("two"));
    assert!(segs[2].text.contains("three"));
}

#[test]
fn compose_pads_to_exact_width() {
    let colors = Colors::default();
    let left = vec![Segment::styled_text(
        &colors.white,
        &colors.gray,
        true,
        "left",
    )];
    let right = vec![Segment::styled_text(
        &colors.white,
        &colors.gray,
        true,
        "right",
    )];
    for target in 9..40 {
        let line = compose(&left, &right, &colors, target);
        assert_eq!(measure(&line), target, "target {target}");
        assert!(!line.contains('+'));
    }
}

#[test]
fn compose_zero_budget_is_empty() {
    let colors = Colors::default();
    let left = vec![Segment::styled_text(&colors.white, &colors.gray, true, "x")];
    let line = compose(&left, &Vec::new(), &colors, 0);
    assert_eq!(line, "");
}

#[test]
fn compose_one_column_overflow_is_marker_only() {
    let colors = Colors::default();
    let left = vec![Segment::styled_text(&colors.white, &colors.gray, true, "xy")];
    let line = compose(&left, &Vec::new(), &colors, 1);
    assert_eq!(line, "\u{1b}[1;48;5;0;38;5;0m+\u{1b}[0m");
    assert_eq!(measure(&line), 1);
}

#[test]
fn compose_overflow_truncates_and_marks() {
    let colors = Colors::default();
    let left = vec![Segment::styled_text(
        &colors.white,
        &colors.gray,
        true,
        "abcdefgh",
    )];
    let line = compose(&left, &Vec::new(), &colors, 5);
    assert!(line.ends_with("\u{1b}[1;48;5;0;38;5;0m+\u{1b}[0m"));
    assert_eq!(measure(&line), 5);
    assert!(sequences_complete(&line));
}

#[test]
fn truncate_zero_budget_stops_only_on_exact_match() {
    // No prefix of visible width exactly zero ends at a visible scalar,
    // so the walk runs to the end of the line.
    assert_eq!(get_chars_to_truncate("abc", 0), 3);
}

#[test]
fn segment_widths_add_like_plain_text() {
    let colors = Colors::default();
    let a = Segment::styled_text(&colors.white, &colors.gray, true, "ab\u{6f22}");
    let b = Segment::styled_text(&colors.blue, &colors.black, false, "xy");
    assert_eq!(a.width + b.width, display_width("ab\u{6f22}xy"));
    let joined = format!("{}{}", a.text, b.text);
    assert_eq!(measure(&joined), a.width + b.width);
}

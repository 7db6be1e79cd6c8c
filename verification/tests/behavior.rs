use statusline::clock::clock_text;
use statusline::clock::time;
use statusline::state::extract_branch;
use statusline::state::load_branch;
use statusline::state::render_status;
use statusline::state::update;
use statusline::state::Event;
use statusline::state::RenderState;
use statusline::state::SwapLayout;
use statusline::tabs::TabDescriptor;

fn measure_line(s: &str) -> usize {
    let mut w = 0;
    let mut it = s.chars().peekable();
    while let Some(c) = it.next() {
        if c == '\u{1b}' && it.peek() == Some(&'[') {
            it.next();
            for d in it.by_ref() {
                if ('\x40'..='\x7e').contains(&d) {
                    break;
                }
            }
        } else {
            w += unicode_width::UnicodeWidthChar::width(c).unwrap_or(0);
        }
    }
    w
}

fn scenario_state() -> RenderState {
    let mut st = RenderState::default();
    st.session_name = "ide".to_string();
    st.mode = "Normal".to_string();
    st.tabs = vec![TabDescriptor {
        name: "a".to_string(),
        active: false,
        fullscreen_active: false,
        sync_panes_active: false,
        floating_panes_visible: false,
    }];
    st.time = "01:02:03 AM".to_string();
    st
}

#[test]
fn clock_midnight_reads_twelve_am() {
    assert_eq!(clock_text(0, 5, 7), "12:05:07 AM");
}

#[test]
fn clock_noon_reads_twelve_pm() {
    assert_eq!(clock_text(12, 0, 0), "12:00:00 PM");
}

#[test]
fn clock_afternoon_drops_twelve() {
    assert_eq!(clock_text(15, 30, 45), "03:30:45 PM");
    assert_eq!(clock_text(9, 59, 1), "09:59:01 AM");
}

#[test]
fn time_has_fixed_length() {
    assert_eq!(time().chars().count(), 11);
}

#[test]
fn branch_label_from_head_file() {
    let r = extract_branch("ref: refs/heads/main\n");
    assert_eq!(r, Some(" main".to_string()));
}

#[test]
fn branch_label_stops_at_whitespace() {
    let r = extract_branch("ref: refs/heads/feature/x rest");
    assert_eq!(r, Some(" feature/x".to_string()));
}

#[test]
fn branch_label_missing_prefix_is_absent() {
    assert_eq!(extract_branch("short"), None);
}

#[test]
fn load_branch_installs_label() {
    let mut st = RenderState::default();
    let content = "ref: refs/heads/main\n".to_string();
    load_branch(&mut st, Some(&content));
    assert_eq!(st.branch, Some(" main".to_string()));
    load_branch(&mut st, None);
    assert_eq!(st.branch, None);
}

#[test]
fn mode_change_updates_fields() {
    let mut st = RenderState::default();
    let redraw = update(
        &mut st,
        Event::ModeChanged {
            mode: "Locked".to_string(),
            session: Some("work".to_string()),
            colors: statusline::color::Colors::default(),
        },
    );
    assert!(redraw);
    assert_eq!(st.mode, "Locked");
    assert_eq!(st.session_name, "work");
}

#[test]
fn tabs_change_replaces_list() {
    let mut st = RenderState::default();
    let redraw = update(
        &mut st,
        Event::TabsChanged {
            tabs: vec![TabDescriptor {
                name: "t".to_string(),
                active: true,
                fullscreen_active: false,
                sync_panes_active: false,
                floating_panes_visible: false,
            }],
            swap_layout: Some(SwapLayout { name: "tall".to_string(), dirty: false }),
        },
    );
    assert!(redraw);
    assert_eq!(st.tabs.len(), 1);
    assert!(st.swap_layout.is_some());
}

#[test]
fn timer_sets_clock_text() {
    let mut st = RenderState::default();
    update(&mut st, Event::TimerFired { now: 0, hour: 13, minute: 2, second: 3 });
    assert_eq!(st.time, "01:02:03 PM");
}

#[test]
fn clipboard_notice_appears_and_expires() {
    let mut st = scenario_state();
    let t = 100;
    update(&mut st, Event::ClipboardCopied { now: t });
    update(&mut st, Event::TimerFired { now: t + 1, hour: 1, minute: 2, second: 3 });
    assert!(st.clip_set_at.is_some());
    let shown = render_status(&st, 80);
    assert!(shown.contains("Coppied! "));
    update(&mut st, Event::TimerFired { now: t + 3, hour: 1, minute: 2, second: 4 });
    assert!(st.clip_set_at.is_none());
    let cleared = render_status(&st, 80);
    assert!(!cleared.contains("Coppied! "));
}

#[test]
fn exact_fit_pads_with_nothing_and_no_marker() {
    let st = scenario_state();
    // session 5, mode 8, tab 4, time 13.
    let line = render_status(&st, 30);
    assert_eq!(measure_line(&line), 30);
    assert!(!line.contains('+'));
    assert!(line.contains("NORMAL"));
    assert!(line.contains(" ide "));
}

#[test]
fn one_column_short_overflows_with_marker() {
    let st = scenario_state();
    let line = render_status(&st, 29);
    assert_eq!(measure_line(&line), 29);
    assert!(line.ends_with("\u{1b}[1;48;5;0;38;5;0m+\u{1b}[0m"));
}

#[test]
fn render_width_tracks_any_budget() {
    let mut st = scenario_state();
    st.branch = Some(" main".to_string());
    st.swap_layout = Some(SwapLayout { name: "tall".to_string(), dirty: true });
    for cols in 2..60 {
        let line = render_status(&st, cols);
        assert_eq!(measure_line(&line), cols, "cols {cols}");
    }
    assert_eq!(render_status(&st, 0), "");
}

#[test]
fn mode_renders_uppercased() {
    let mut st = scenario_state();
    st.mode = "Search".to_string();
    let line = render_status(&st, 80);
    assert!(line.contains("SEARCH"));
    assert!(!line.contains("Search"));
}

#[test]
fn branch_and_layout_fields_appear() {
    let mut st = scenario_state();
    st.branch = Some(" main".to_string());
    st.swap_layout = Some(SwapLayout { name: "tall".to_string(), dirty: false });
    let line = render_status(&st, 80);
    assert!(line.contains(" main"));
    assert!(line.contains("TALL "));
}

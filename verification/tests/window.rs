use emenu::compose::{render_line, TextRun};
use emenu::window::{select_window, DisplayWindow};

fn pairs(runs: Vec<TextRun>) -> Vec<(String, bool)> {
    runs.into_iter().map(|r| (r.text, r.highlighted)).collect()
}

fn width(w: &DisplayWindow) -> usize {
    w.end - w.start + (w.start_ellipsis as usize) + (w.end_ellipsis as usize)
}

#[test]
fn window_short_candidate_shown_whole() {
    let w = select_window(4, &vec![1], 10, 5);
    assert_eq!(
        w,
        DisplayWindow { start: 0, end: 4, start_ellipsis: false, end_ellipsis: false }
    );
}

#[test]
fn window_long_candidate_defaults_to_prefix() {
    // Highlight well inside the budget: no recentering, trailing ellipsis
    // takes the last slot.
    let w = select_window(10, &vec![3], 6, 2);
    assert_eq!(
        w,
        DisplayWindow { start: 0, end: 5, start_ellipsis: false, end_ellipsis: true }
    );
    assert_eq!(width(&w), 6);
}

#[test]
fn window_recenters_on_late_highlight() {
    let w = select_window(20, &vec![8], 6, 2);
    assert_eq!(
        w,
        DisplayWindow { start: 5, end: 9, start_ellipsis: true, end_ellipsis: true }
    );
    assert_eq!(width(&w), 6);
}

#[test]
fn window_recenter_reaches_candidate_end() {
    let w = select_window(20, &vec![18], 6, 5);
    assert_eq!(
        w,
        DisplayWindow { start: 15, end: 20, start_ellipsis: true, end_ellipsis: false }
    );
    assert_eq!(width(&w), 6);
}

#[test]
fn window_no_highlights_keeps_prefix() {
    let w = select_window(10, &vec![], 4, 5);
    assert_eq!(
        w,
        DisplayWindow { start: 0, end: 3, start_ellipsis: false, end_ellipsis: true }
    );
    assert_eq!(width(&w), 4);
}

#[test]
fn window_width_never_exceeds_budget() {
    for len in 0..14usize {
        for max in 2..10usize {
            for h in 0..len {
                let w = select_window(len, &vec![h], max, 5);
                assert!(w.start <= w.end && w.end <= len);
                assert!(width(&w) <= max, "len {len} max {max} h {h} -> {w:?}");
            }
        }
    }
}

#[test]
fn window_budget_one_interior_is_degenerate() {
    // A budget of one with cut-offs on both sides cannot fit its two
    // ellipsis glyphs; the range collapses instead of failing.
    let w = select_window(10, &vec![0], 1, 5);
    assert_eq!(
        w,
        DisplayWindow { start: 4, end: 4, start_ellipsis: true, end_ellipsis: true }
    );
}

#[test]
fn render_line_alternating_runs() {
    let runs = pairs(render_line("lo", "hello", "> ", " ", 20));
    assert_eq!(
        runs,
        vec![
            (String::from("> "), false),
            (String::from(" "), false),
            (String::from("he"), false),
            (String::from("l"), true),
            (String::from("l"), false),
            (String::from("o"), true),
        ]
    );
}

#[test]
fn render_line_truncates_and_keeps_highlight_visible() {
    let runs = pairs(render_line("j", "abcdefghij", "", "", 6));
    assert_eq!(
        runs,
        vec![
            (String::from("\u{2026}"), false),
            (String::from("fghi"), false),
            (String::from("j"), true),
        ]
    );
}

#[test]
fn render_line_prefix_larger_than_budget_clamps_to_ellipsis_only() {
    let runs = pairs(render_line("", "abc", "****", "", 2));
    assert_eq!(
        runs,
        vec![(String::from("****"), false), (String::from("\u{2026}"), false)]
    );
}

#[test]
fn render_line_no_empty_runs() {
    let runs = render_line("ace", "abcdef", "", "", 20);
    assert!(runs.iter().all(|r| !r.text.is_empty()));
    let texts: Vec<String> = runs.iter().map(|r| r.text.clone()).collect();
    assert_eq!(texts.concat(), "abcdef");
    let flags: Vec<bool> = runs.iter().map(|r| r.highlighted).collect();
    assert_eq!(flags, vec![true, false, true, false, true, false]);
}

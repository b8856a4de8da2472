use emenu::nav::{exit_decision, NavEvent, NavState};

fn state(first: u32, sel: u32) -> NavState {
    NavState { first_idx: first, selected_idx: sel, multi_selection: Vec::new() }
}

#[test]
fn nav_down_steps_then_scrolls() {
    // view_rows 3, matched 10: the selection walks to the last visible
    // row, then the content scrolls beneath it.
    let mut s = state(0, 0);
    s.step(NavEvent::MoveDown, 3, 10, false, 1);
    assert_eq!((s.first_idx, s.selected_idx), (0, 1));
    s.step(NavEvent::MoveDown, 3, 10, false, 1);
    assert_eq!((s.first_idx, s.selected_idx), (0, 2));
    s.step(NavEvent::MoveDown, 3, 10, false, 1);
    assert_eq!((s.first_idx, s.selected_idx), (1, 2));
    s.step(NavEvent::MoveDown, 3, 10, false, 1);
    assert_eq!((s.first_idx, s.selected_idx), (2, 2));
}

#[test]
fn nav_down_saturates_without_cycle() {
    // Last row of the last page, cycling off: nothing moves.
    let mut s = state(7, 2);
    s.step(NavEvent::MoveDown, 3, 10, false, 1);
    assert_eq!((s.first_idx, s.selected_idx), (7, 2));
}

#[test]
fn nav_down_wraps_with_cycle() {
    // Last row of the last page, cycling on: wrap to the very top.
    let mut s = state(7, 2);
    s.step(NavEvent::MoveDown, 3, 10, true, 1);
    assert_eq!((s.first_idx, s.selected_idx), (0, 0));
}

#[test]
fn nav_up_steps_then_scrolls() {
    let mut s = state(3, 1);
    s.step(NavEvent::MoveUp, 3, 10, false, 1);
    assert_eq!((s.first_idx, s.selected_idx), (3, 0));
    s.step(NavEvent::MoveUp, 3, 10, false, 1);
    assert_eq!((s.first_idx, s.selected_idx), (2, 0));
}

#[test]
fn nav_up_wraps_with_cycle() {
    // Top of the list, cycling on: wrap to the last item of the last page.
    let mut s = state(0, 0);
    s.step(NavEvent::MoveUp, 3, 10, true, 1);
    assert_eq!((s.first_idx, s.selected_idx), (7, 2));
}

#[test]
fn nav_up_cycle_short_list_clamps_to_zero() {
    // Fewer matches than rows would underflow the wrap offset; it clamps.
    let mut s = state(0, 0);
    s.step(NavEvent::MoveUp, 2, 2, true, 1);
    assert_eq!(s.first_idx, 0);
    assert!(s.selected_idx < 2);
}

#[test]
fn nav_up_saturates_at_top_without_cycle() {
    let mut s = state(0, 0);
    s.step(NavEvent::MoveUp, 3, 10, false, 1);
    assert_eq!((s.first_idx, s.selected_idx), (0, 0));
}

#[test]
fn nav_query_change_resets_scroll_and_selection() {
    let mut s = state(5, 2);
    s.multi_selection = vec![4, 9];
    s.step(NavEvent::QueryChanged, 3, 10, false, 4);
    assert_eq!((s.first_idx, s.selected_idx), (0, 0));
    assert_eq!(s.multi_selection, vec![4, 9]);
}

#[test]
fn nav_click_selects_row_directly() {
    let mut s = state(2, 0);
    s.step(NavEvent::ClickRow { row: 2 }, 3, 10, false, 1);
    assert_eq!((s.first_idx, s.selected_idx), (2, 2));
}

#[test]
fn nav_selection_clamped_when_rows_shrink() {
    // The window shrank between frames: the clamp silently corrects.
    let mut s = state(0, 4);
    s.clamp_frame(2);
    assert_eq!(s.selected_idx, 1);
    s.clamp_frame(0);
    assert_eq!(s.selected_idx, 0);
}

#[test]
fn nav_many_moves_keep_selection_inside_rows() {
    let mut s = state(0, 0);
    let moves = [true, true, false, true, true, true, false, false, true, true, true, true];
    for (i, &down) in moves.iter().enumerate() {
        let ev = if down { NavEvent::MoveDown } else { NavEvent::MoveUp };
        s.step(ev, 4, 9, i % 2 == 0, 1);
        assert!(s.selected_idx < 4);
        assert!(s.first_idx + s.selected_idx < 9);
    }
}

#[test]
fn nav_toggle_adds_then_removes() {
    let mut s = state(0, 0);
    s.step(NavEvent::ToggleMulti { id: 5 }, 3, 10, false, 8);
    assert_eq!(s.multi_selection, vec![5]);
    s.step(NavEvent::ToggleMulti { id: 7 }, 3, 10, false, 8);
    assert_eq!(s.multi_selection, vec![5, 7]);
    s.step(NavEvent::ToggleMulti { id: 5 }, 3, 10, false, 8);
    assert_eq!(s.multi_selection, vec![7]);
}

#[test]
fn nav_toggle_respects_limit() {
    let mut s = state(0, 0);
    s.step(NavEvent::ToggleMulti { id: 1 }, 3, 10, false, 2);
    s.step(NavEvent::ToggleMulti { id: 2 }, 3, 10, false, 2);
    s.step(NavEvent::ToggleMulti { id: 3 }, 3, 10, false, 2);
    assert_eq!(s.multi_selection, vec![1, 2]);
}

#[test]
fn nav_commit_prefers_accumulated_selection() {
    let mut s = state(0, 1);
    s.multi_selection = vec![9, 3, 6];
    assert_eq!(s.commit_ids(Some(1)), vec![9, 3, 6]);
}

#[test]
fn nav_commit_falls_back_to_current_row() {
    let s = state(0, 1);
    assert_eq!(s.commit_ids(Some(1)), vec![1]);
    assert_eq!(s.commit_ids(None), Vec::<u32>::new());
}

#[test]
fn nav_absolute_index_adds_offset() {
    let s = state(4, 2);
    assert_eq!(s.absolute_index(), 6);
}

#[test]
fn nav_process_frame_applies_precedence() {
    // A query edit resets everything first; the move-down then walks from
    // the fresh state.
    let mut s = state(5, 2);
    s.process_frame(true, None, None, true, false, 3, 10, false, 1);
    assert_eq!((s.first_idx, s.selected_idx), (0, 1));
}

#[test]
fn nav_process_frame_clamps_without_events() {
    let mut s = state(0, 2);
    s.process_frame(false, None, None, false, false, 2, 10, false, 1);
    assert_eq!((s.first_idx, s.selected_idx), (0, 1));
}

#[test]
fn exit_on_interrupt_or_escape() {
    assert!(exit_decision(true, false, true, false, false).0);
    assert!(exit_decision(false, true, true, false, false).0);
    assert!(!exit_decision(false, false, true, false, false).0);
}

#[test]
fn exit_on_focus_loss_only_after_focus_held() {
    // Focus never held yet: losing it does not exit, but it is recorded.
    let r = exit_decision(false, false, true, true, false);
    assert!(!r.0);
    assert!(r.1);
    // Focus held before, now lost, and the option is on: exit.
    let r2 = exit_decision(false, false, false, true, true);
    assert!(r2.0);
    // Same but the option is off: stay.
    let r3 = exit_decision(false, false, false, false, true);
    assert!(!r3.0);
    assert!(r3.1);
}

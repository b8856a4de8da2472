//! Navigation state machine: a pure reducer over discrete input events.
//!
//! The state is a scroll offset `first_idx`, a selection `selected_idx`
//! relative to it, and the multi-select accumulator. Each frame the caller
//! measures how many rows fit (`view_rows`) and how many candidates
//! currently match (`matched_count`), and feeds events through `step`; a
//! post-transition clamp keeps the selection inside the visible rows
//! whatever happened.

use vstd::prelude::*;

verus! {

/// A discrete input event the reducer reacts to.
#[derive(Clone, Copy)]
pub enum NavEvent {
    /// The query text changed: scroll and selection reset optimistically.
    QueryChanged,
    /// Move the selection one row down (arrow, control-n, wheel, tab).
    MoveDown,
    /// Move the selection one row up (arrow, control-p, wheel).
    MoveUp,
    /// A pointer click on visible row `row` selects it directly.
    ClickRow { row: u32 },
    /// Toggle the candidate with identity `id` in the multi-selection.
    ToggleMulti { id: u32 },
}

/// Scroll offset, relative selection, and the multi-select accumulator
/// (candidate identities, insertion order, no duplicates).
pub struct NavState {
    pub first_idx: u32,
    pub selected_idx: u32,
    pub multi_selection: Vec<u32>,
}

/// The post-transition clamp: the selection never exceeds the last
/// visible row; with no rows it is forced to 0.
pub open spec fn clamp_spec(first: int, sel: int, view_rows: int) -> (int, int) {
    (first, vstd::math::min(sel, vstd::math::max(view_rows - 1, 0)))
}

/// Move down, before the clamp: at the last visible row with unseen rows
/// below, scroll; at the last row of the last page with cycling on, wrap
/// to the top; otherwise step the selection down.
pub open spec fn down_spec(first: int, sel: int, view_rows: int, matched: int, cycle: bool) -> (
    int,
    int,
) {
    if view_rows <= 0 {
        (first, sel)
    } else if sel == view_rows - 1 && first + sel < matched - 1 {
        (first + 1, sel)
    } else if cycle && sel == view_rows - 1 {
        (0, 0)
    } else {
        (first, sel + 1)
    }
}

/// Move up, before the clamp: at the top visible row with rows scrolled
/// off above, scroll up; then, with cycling on and the selection still at
/// the top row, wrap to the bottom of the last page; finally the
/// selection steps up, saturating at 0.
pub open spec fn up_spec(first: int, sel: int, view_rows: int, matched: int, cycle: bool) -> (
    int,
    int,
) {
    if view_rows <= 0 {
        (first, sel)
    } else {
        let f1 = if first != 0 && sel == 0 {
            first - 1
        } else {
            first
        };
        let f2 = if cycle && sel == 0 {
            vstd::math::max(matched - view_rows, 0)
        } else {
            f1
        };
        let s2 = if cycle && sel == 0 {
            matched
        } else {
            sel
        };
        (f2, vstd::math::max(s2 - 1, 0))
    }
}

/// One move transition (down or up) followed by the clamp.
pub open spec fn move_spec(
    first: int,
    sel: int,
    down: bool,
    view_rows: int,
    matched: int,
    cycle: bool,
) -> (int, int) {
    let t = if down {
        down_spec(first, sel, view_rows, matched, cycle)
    } else {
        up_spec(first, sel, view_rows, matched, cycle)
    };
    clamp_spec(t.0, t.1, view_rows)
}

/// Well-formedness of the counters against a frame's measurements: the
/// selection lies inside the visible rows (and is 0 when nothing is
/// shown), the rows drawn all exist in the matched set, and the absolute
/// selection addresses a matched candidate whenever any matches.
pub open spec fn nav_wf(first: int, sel: int, view_rows: int, matched: int) -> bool {
    &&& 0 <= first
    &&& 0 <= sel
    &&& view_rows > 0 ==> sel < view_rows
    &&& view_rows == 0 ==> sel == 0
    &&& first + view_rows <= matched
    &&& matched > 0 ==> first + sel < matched
}

/// A single move transition preserves well-formedness.
pub proof fn lemma_move_preserves_wf(
    first: int,
    sel: int,
    down: bool,
    view_rows: int,
    matched: int,
    cycle: bool,
)
    requires
        nav_wf(first, sel, view_rows, matched),
    ensures
        nav_wf(
            move_spec(first, sel, down, view_rows, matched, cycle).0,
            move_spec(first, sel, down, view_rows, matched, cycle).1,
            view_rows,
            matched,
        ),
{
}

/// The outcome of a sequence of move transitions, each one down (`true`)
/// or up (`false`).
pub open spec fn run_moves(
    first: int,
    sel: int,
    moves: Seq<bool>,
    view_rows: int,
    matched: int,
    cycle: bool,
) -> (int, int)
    decreases moves.len(),
{
    if moves.len() == 0 {
        (first, sel)
    } else {
        let t = move_spec(first, sel, moves[0], view_rows, matched, cycle);
        run_moves(t.0, t.1, moves.drop_first(), view_rows, matched, cycle)
    }
}

/// After any sequence of move-down / move-up transitions from a well
/// formed state, the state stays well formed; in particular the selection
/// stays strictly below `view_rows` whenever rows are shown.
pub proof fn lemma_moves_keep_selection_clamped(
    first: int,
    sel: int,
    moves: Seq<bool>,
    view_rows: int,
    matched: int,
    cycle: bool,
)
    requires
        nav_wf(first, sel, view_rows, matched),
    ensures
        nav_wf(
            run_moves(first, sel, moves, view_rows, matched, cycle).0,
            run_moves(first, sel, moves, view_rows, matched, cycle).1,
            view_rows,
            matched,
        ),
        view_rows > 0 ==> run_moves(first, sel, moves, view_rows, matched, cycle).1 < view_rows,
    decreases moves.len(),
{
    if moves.len() == 0 {
    } else {
        let t = move_spec(first, sel, moves[0], view_rows, matched, cycle);
        lemma_move_preserves_wf(first, sel, moves[0], view_rows, matched, cycle);
        lemma_moves_keep_selection_clamped(
            t.0,
            t.1,
            moves.drop_first(),
            view_rows,
            matched,
            cycle,
        );
    }
}

/// The multi-selection after a toggle: a present identity leaves (order
/// of the others kept), an absent one joins at the end while the
/// accumulator is below the limit.
pub open spec fn toggle_spec(multi: Seq<u32>, id: u32, limit: int) -> Seq<u32> {
    if multi.contains(id) {
        multi.remove(multi.index_of(id))
    } else if multi.len() < limit {
        multi.push(id)
    } else {
        multi
    }
}

/// What a click event may address: only a visible row.
pub open spec fn event_ok(event: NavEvent, view_rows: int) -> bool {
    match event {
        NavEvent::ClickRow { row } => row < view_rows,
        _ => true,
    }
}

/// What `step` leaves behind for each event.
pub open spec fn step_goal(
    pre: NavState,
    post: NavState,
    event: NavEvent,
    view_rows: int,
    matched: int,
    cycle: bool,
    limit: int,
) -> bool {
    match event {
        NavEvent::QueryChanged => {
            &&& post.first_idx == 0
            &&& post.selected_idx == 0
            &&& post.multi_selection@ == pre.multi_selection@
        },
        NavEvent::MoveDown => {
            &&& (post.first_idx as int, post.selected_idx as int) == move_spec(
                pre.first_idx as int,
                pre.selected_idx as int,
                true,
                view_rows,
                matched,
                cycle,
            )
            &&& post.multi_selection@ == pre.multi_selection@
        },
        NavEvent::MoveUp => {
            &&& (post.first_idx as int, post.selected_idx as int) == move_spec(
                pre.first_idx as int,
                pre.selected_idx as int,
                false,
                view_rows,
                matched,
                cycle,
            )
            &&& post.multi_selection@ == pre.multi_selection@
        },
        NavEvent::ClickRow { row } => {
            &&& (post.first_idx as int, post.selected_idx as int) == clamp_spec(
                pre.first_idx as int,
                row as int,
                view_rows,
            )
            &&& post.multi_selection@ == pre.multi_selection@
        },
        NavEvent::ToggleMulti { id } => {
            &&& post.first_idx == pre.first_idx
            &&& post.selected_idx as int == clamp_spec(
                pre.first_idx as int,
                pre.selected_idx as int,
                view_rows,
            ).1
            &&& post.multi_selection@ == toggle_spec(pre.multi_selection@, id, limit)
        },
    }
}

/// The first position of `id` in the accumulator, if present.
fn find_id(v: &Vec<u32>, id: u32) -> (r: Option<usize>)
    ensures
        match r {
            Some(k) => k < v@.len() && v@[k as int] == id,
            None => !v@.contains(id),
        },
{
    let mut i: usize = 0;
    while i < v.len()
        invariant
            i <= v@.len(),
            forall|k: int| 0 <= k < i ==> #[trigger] v@[k] != id,
        decreases v@.len() - i,
    {
        if v[i] == id {
            return Some(i);
        }
        i = i + 1;
    }
    None
}

impl NavState {
    /// A fresh state: nothing scrolled, nothing selected, nothing
    /// accumulated.
    pub fn new() -> (s: NavState)
        ensures
            s.first_idx == 0,
            s.selected_idx == 0,
            s.multi_selection@ == Seq::<u32>::empty(),
    {
        NavState { first_idx: 0, selected_idx: 0, multi_selection: Vec::new() }
    }

    /// Well-formedness of the whole state against a frame's measurements.
    pub open spec fn wf(&self, view_rows: int, matched: int) -> bool {
        &&& nav_wf(self.first_idx as int, self.selected_idx as int, view_rows, matched)
        &&& self.multi_selection@.no_duplicates()
    }

    /// React to one event, then apply the post-transition clamp.
    pub fn step(
        &mut self,
        event: NavEvent,
        view_rows: u32,
        matched_count: u32,
        cycle: bool,
        multi_limit: usize,
    )
        requires
            old(self).wf(view_rows as int, matched_count as int),
            event_ok(event, view_rows as int),
        ensures
            final(self).wf(view_rows as int, matched_count as int),
            step_goal(
                *old(self),
                *final(self),
                event,
                view_rows as int,
                matched_count as int,
                cycle,
                multi_limit as int,
            ),
    {
        match event {
            NavEvent::QueryChanged => {
                self.first_idx = 0;
                self.selected_idx = 0;
            },
            NavEvent::MoveDown => {
                if view_rows > 0 {
                    let first = self.first_idx;
                    let sel = self.selected_idx;
                    if sel == view_rows - 1 && (first as u64 + sel as u64) + 1
                        < matched_count as u64 {
                        self.first_idx = first + 1;
                    } else if cycle && sel == view_rows - 1 {
                        self.selected_idx = 0;
                        self.first_idx = 0;
                    } else {
                        self.selected_idx = sel + 1;
                    }
                }
                proof {
                    lemma_move_preserves_wf(
                        old(self).first_idx as int,
                        old(self).selected_idx as int,
                        true,
                        view_rows as int,
                        matched_count as int,
                        cycle,
                    );
                }
            },
            NavEvent::MoveUp => {
                if view_rows > 0 {
                    if self.first_idx != 0 && self.selected_idx == 0 {
                        self.first_idx = self.first_idx - 1;
                    }
                    if cycle && self.selected_idx == 0 {
                        self.selected_idx = matched_count;
                        self.first_idx = if matched_count > view_rows {
                            matched_count - view_rows
                        } else {
                            0
                        };
                    }
                    self.selected_idx = if self.selected_idx > 0 {
                        self.selected_idx - 1
                    } else {
                        0
                    };
                }
                proof {
                    lemma_move_preserves_wf(
                        old(self).first_idx as int,
                        old(self).selected_idx as int,
                        false,
                        view_rows as int,
                        matched_count as int,
                        cycle,
                    );
                }
            },
            NavEvent::ClickRow { row } => {
                self.selected_idx = row;
            },
            NavEvent::ToggleMulti { id } => {
                let ghost pre = self.multi_selection@;
                match find_id(&self.multi_selection, id) {
                    Some(k) => {
                        self.multi_selection.remove(k);
                        proof {
                            assert(pre.contains(id));
                            let j = pre.index_of(id);
                            assert(0 <= j < pre.len() && pre[j] == id);
                            assert(j == k);
                            pre.remove_ensures(k as int);
                            assert forall|a: int, b: int|
                                0 <= a < b < pre.remove(k as int).len() implies pre.remove(
                                k as int,
                            )[a] != pre.remove(k as int)[b] by {
                                let a0 = if a < k {
                                    a
                                } else {
                                    a + 1
                                };
                                let b0 = if b < k {
                                    b
                                } else {
                                    b + 1
                                };
                                assert(pre.remove(k as int)[a] == pre[a0]);
                                assert(pre.remove(k as int)[b] == pre[b0]);
                            }
                        }
                    },
                    None => {
                        if self.multi_selection.len() < multi_limit {
                            self.multi_selection.push(id);
                        }
                    },
                }
            },
        }
        let cap = if view_rows > 0 {
            view_rows - 1
        } else {
            0
        };
        if self.selected_idx > cap {
            self.selected_idx = cap;
        }
    }

    /// The absolute index of the selected row in the matched sequence.
    pub fn absolute_index(&self) -> (r: u32)
        requires
            self.first_idx + self.selected_idx <= u32::MAX,
        ensures
            r == self.first_idx + self.selected_idx,
    {
        self.first_idx + self.selected_idx
    }

    /// The identities to emit on commit: the accumulated multi-selection
    /// in insertion order; or, when none was accumulated, the currently
    /// selected candidate alone, if any.
    pub fn commit_ids(&self, current: Option<u32>) -> (r: Vec<u32>)
        ensures
            self.multi_selection@.len() > 0 ==> r@ == self.multi_selection@,
            self.multi_selection@.len() == 0 ==> r@ == (match current {
                Some(id) => seq![id],
                None => Seq::<u32>::empty(),
            }),
    {
        if self.multi_selection.len() > 0 {
            let mut out: Vec<u32> = Vec::new();
            let mut i: usize = 0;
            while i < self.multi_selection.len()
                invariant
                    i <= self.multi_selection@.len(),
                    out@ == self.multi_selection@.take(i as int),
                decreases self.multi_selection@.len() - i,
            {
                out.push(self.multi_selection[i]);
                proof {
                    assert(out@ =~= self.multi_selection@.take(i + 1));
                }
                i = i + 1;
            }
            proof {
                assert(self.multi_selection@.take(self.multi_selection@.len() as int)
                    =~= self.multi_selection@);
            }
            out
        } else {
            match current {
                Some(id) => {
                    let mut v: Vec<u32> = Vec::new();
                    v.push(id);
                    proof {
                        assert(v@ =~= seq![id]);
                    }
                    v
                },
                None => {
                    let v: Vec<u32> = Vec::new();
                    proof {
                        assert(v@ =~= Seq::<u32>::empty());
                    }
                    v
                },
            }
        }
    }
}

/// The outcome of one frame's input pass over the whole state, in the
/// fixed precedence order: query reset, direct selection, multi-select
/// toggle, move down, move up, and the final clamp that runs whether or
/// not any transition fired.
pub open spec fn frame_spec(
    first: int,
    sel: int,
    multi: Seq<u32>,
    query_changed: bool,
    clicked: Option<u32>,
    toggled: Option<u32>,
    move_down: bool,
    move_up: bool,
    view_rows: int,
    matched: int,
    cycle: bool,
    limit: int,
) -> (int, int, Seq<u32>) {
    let s1 = if query_changed {
        (0int, 0int, multi)
    } else {
        (first, sel, multi)
    };
    let s2 = match clicked {
        Some(row) => (s1.0, clamp_spec(s1.0, row as int, view_rows).1, s1.2),
        None => s1,
    };
    let s3 = match toggled {
        Some(id) => (s2.0, clamp_spec(s2.0, s2.1, view_rows).1, toggle_spec(s2.2, id, limit)),
        None => s2,
    };
    let s4 = if move_down {
        let t = move_spec(s3.0, s3.1, true, view_rows, matched, cycle);
        (t.0, t.1, s3.2)
    } else {
        s3
    };
    let s5 = if move_up {
        let t = move_spec(s4.0, s4.1, false, view_rows, matched, cycle);
        (t.0, t.1, s4.2)
    } else {
        s4
    };
    let c = clamp_spec(s5.0, s5.1, view_rows);
    (c.0, c.1, s5.2)
}

impl NavState {
    /// The post-transition clamp alone, for a frame in which no
    /// transition fired.
    pub fn clamp_frame(&mut self, view_rows: u32)
        ensures
            final(self).first_idx == old(self).first_idx,
            final(self).selected_idx as int == clamp_spec(
                old(self).first_idx as int,
                old(self).selected_idx as int,
                view_rows as int,
            ).1,
            final(self).multi_selection@ == old(self).multi_selection@,
    {
        let cap = if view_rows > 0 {
            view_rows - 1
        } else {
            0
        };
        if self.selected_idx > cap {
            self.selected_idx = cap;
        }
    }

    /// One frame's input pass: every event that fired this frame, applied
    /// in the fixed precedence order of `frame_spec`, ending with the
    /// clamp that runs regardless.
    pub fn process_frame(
        &mut self,
        query_changed: bool,
        clicked: Option<u32>,
        toggled: Option<u32>,
        move_down: bool,
        move_up: bool,
        view_rows: u32,
        matched_count: u32,
        cycle: bool,
        multi_limit: usize,
    )
        requires
            old(self).wf(view_rows as int, matched_count as int),
            match clicked {
                Some(row) => row < view_rows,
                None => true,
            },
        ensures
            final(self).wf(view_rows as int, matched_count as int),
            (
                final(self).first_idx as int,
                final(self).selected_idx as int,
                final(self).multi_selection@,
            ) == frame_spec(
                old(self).first_idx as int,
                old(self).selected_idx as int,
                old(self).multi_selection@,
                query_changed,
                clicked,
                toggled,
                move_down,
                move_up,
                view_rows as int,
                matched_count as int,
                cycle,
                multi_limit as int,
            ),
    {
        if query_changed {
            self.step(NavEvent::QueryChanged, view_rows, matched_count, cycle, multi_limit);
        }
        match clicked {
            Some(row) => {
                self.step(
                    NavEvent::ClickRow { row },
                    view_rows,
                    matched_count,
                    cycle,
                    multi_limit,
                );
            },
            None => {},
        }
        match toggled {
            Some(id) => {
                self.step(
                    NavEvent::ToggleMulti { id },
                    view_rows,
                    matched_count,
                    cycle,
                    multi_limit,
                );
            },
            None => {},
        }
        if move_down {
            self.step(NavEvent::MoveDown, view_rows, matched_count, cycle, multi_limit);
        }
        if move_up {
            self.step(NavEvent::MoveUp, view_rows, matched_count, cycle, multi_limit);
        }
        self.clamp_frame(view_rows);
    }
}

/// Whether the session ends with no output: an interrupt, escape, or ---
/// when configured --- focus lost after having been held. Also yields the
/// updated focus memory.
pub fn exit_decision(
    ctrl_c: bool,
    escape: bool,
    focused: bool,
    exit_lost_focus: bool,
    had_focus: bool,
) -> (r: (bool, bool))
    ensures
        r.0 == (ctrl_c || escape || (exit_lost_focus && had_focus && !focused)),
        r.1 == (had_focus || focused),
{
    let exit_now = ctrl_c || escape || (exit_lost_focus && had_focus && !focused);
    (exit_now, had_focus || focused)
}

} // verus!

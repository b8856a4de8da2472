//! Window selector: which contiguous character range of an over-long
//! candidate to display, so that the latest highlighted region stays
//! visible, together with ellipsis markers for what was cut off.

use vstd::prelude::*;
use crate::highlight::offsets_view;

verus! {

/// The chosen display range of a candidate. `start <= end` are character
/// offsets into the candidate; an active ellipsis flag means characters
/// were cut off on that side and one ellipsis glyph takes up a slot of the
/// budget there.
#[derive(Clone, Copy, Debug, PartialEq, Eq, Structural)]
pub struct DisplayWindow {
    pub start: usize,
    pub end: usize,
    pub start_ellipsis: bool,
    pub end_ellipsis: bool,
}

/// The window before ellipsis adjustment: the full budget from the left,
/// or, when the last highlight would fall within `keep` characters of the
/// budget's right edge or beyond, recentered so that `keep` characters
/// stay visible to the right of the last highlight.
pub open spec fn raw_window(len: int, highs: Seq<int>, max: int, keep: int) -> (int, int) {
    if highs.len() > 0 && highs.max() + keep > max {
        let e = vstd::math::min(highs.max() + keep, len);
        (e - max, e)
    } else {
        (0, vstd::math::min(max, len))
    }
}

/// The display window for a candidate of `len` characters with highlight
/// offsets `highs`, a budget of `max` characters, keeping `keep`
/// characters visible to the right of the last highlight. A candidate that
/// fits is shown whole. Otherwise the raw window is computed, the ellipsis
/// flags are evaluated, and then each active ellipsis gives up one slot of
/// the window for its glyph; defensive clamping keeps the range well
/// formed instead of failing.
pub open spec fn window_spec(len: int, highs: Seq<int>, max: int, keep: int) -> (
    int,
    int,
    bool,
    bool,
) {
    if len <= max {
        (0, len, false, false)
    } else {
        let s0 = raw_window(len, highs, max, keep).0;
        let e0 = raw_window(len, highs, max, keep).1;
        let se = s0 > 0;
        let ee = e0 < len;
        let e1 = if ee && e0 > 0 {
            e0 - 1
        } else {
            e0
        };
        let s1 = if se {
            if s0 >= e1 {
                e1
            } else {
                s0 + 1
            }
        } else {
            s0
        };
        (s1, e1, se, ee)
    }
}

/// The width the window takes up on screen: its characters plus one slot
/// for each active ellipsis glyph.
pub open spec fn rendered_width(w: (int, int, bool, bool)) -> int {
    w.1 - w.0 + (if w.2 {
        1int
    } else {
        0int
    }) + (if w.3 {
        1int
    } else {
        0int
    })
}

/// The largest recorded offset.
fn max_offset(v: &Vec<usize>) -> (m: usize)
    requires
        v@.len() > 0,
    ensures
        m as int == offsets_view(v@).max(),
        offsets_view(v@).contains(m as int),
{
    let mut m = v[0];
    let mut i: usize = 1;
    while i < v.len()
        invariant
            1 <= i <= v@.len(),
            exists|k: int| 0 <= k < i && v@[k] == m,
            forall|k: int| 0 <= k < i ==> #[trigger] v@[k] <= m,
        decreases v@.len() - i,
    {
        if v[i] > m {
            m = v[i];
        }
        i = i + 1;
    }
    proof {
        let hv = offsets_view(v@);
        hv.max_ensures();
        let k = choose|k: int| 0 <= k < v@.len() && v@[k] == m;
        assert(hv[k] == m as int);
        assert(hv.contains(m as int));
        assert forall|j: int| 0 <= j < hv.len() implies #[trigger] hv[j] <= m as int by {
            assert(v@[j] <= m);
        }
        let kk = choose|kk: int| 0 <= kk < hv.len() && hv[kk] == hv.max();
        assert(v@[kk] <= m);
    }
    m
}

/// The display window for a candidate, per `window_spec`. Highlight
/// offsets must lie inside the candidate, as the highlight calculator
/// guarantees.
pub fn select_window(
    candidate_len: usize,
    highlights: &Vec<usize>,
    max_characters: usize,
    keep_chars_on_right: usize,
) -> (w: DisplayWindow)
    requires
        forall|k: int| 0 <= k < highlights@.len() ==> #[trigger] highlights@[k] < candidate_len,
    ensures
        ({
            let ws = window_spec(
                candidate_len as int,
                offsets_view(highlights@),
                max_characters as int,
                keep_chars_on_right as int,
            );
            w.start == ws.0 && w.end == ws.1 && w.start_ellipsis == ws.2 && w.end_ellipsis == ws.3
        }),
        w.start <= w.end <= candidate_len,
        max_characters >= 1 && w.start_ellipsis ==> w.start > 0,
        w.end_ellipsis ==> w.end < candidate_len,
{
    let ghost hv = offsets_view(highlights@);
    let len = candidate_len;
    let maxc = max_characters;
    let keep = keep_chars_on_right;
    if len <= maxc {
        return DisplayWindow { start: 0, end: len, start_ellipsis: false, end_ellipsis: false };
    }
    let mut start: usize = 0;
    let mut end: usize = maxc;
    if highlights.len() > 0 {
        let last = max_offset(highlights);
        proof {
            assert(hv.contains(last as int));
            let k = choose|k: int| 0 <= k < hv.len() && hv[k] == last as int;
            assert(highlights@[k] < candidate_len);
            assert((last as int) < len as int);
        }
        if keep > maxc || last > maxc - keep {
            end = if keep >= len - last {
                len
            } else {
                last + keep
            };
            proof {
                assert(end as int == vstd::math::min(hv.max() + keep as int, len as int));
                assert(end > maxc);
            }
            start = end - maxc;
        }
    }
    proof {
        assert((start as int, end as int) == raw_window(
            len as int,
            hv,
            maxc as int,
            keep as int,
        ));
    }
    let se = start > 0;
    let ee = end < len;
    if ee && end > 0 {
        end = end - 1;
    }
    if se {
        if start >= end {
            start = end;
        } else {
            start = start + 1;
        }
    }
    DisplayWindow { start, end, start_ellipsis: se, end_ellipsis: ee }
}

/// The window selector never exceeds the character budget: for any budget
/// of at least one character, the rendered width (window characters plus
/// ellipsis glyphs) is at most the budget. The one excluded corner is a
/// budget of exactly 1 with an ellipsis on both sides, where the two
/// ellipsis glyphs alone already take two slots.
pub proof fn lemma_window_width(len: int, highs: Seq<int>, max: int, keep: int)
    requires
        max >= 1,
        !(max == 1 && window_spec(len, highs, max, keep).2 && window_spec(len, highs, max, keep).3),
    ensures
        rendered_width(window_spec(len, highs, max, keep)) <= max,
{
}

} // verus!

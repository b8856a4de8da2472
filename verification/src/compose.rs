//! Render composer: assembles one display line as a sequence of styled
//! text runs: pointer and marker prefixes, a leading ellipsis if flagged,
//! the windowed candidate text split into highlighted and unhighlighted
//! runs, and a trailing ellipsis if flagged.

use vstd::prelude::*;
use crate::highlight::{contains_offset, highlight_spec, lemma_highlight_offsets_valid, offsets_view};
use crate::text::{push_char, string_of_range};
use crate::window::{select_window, window_spec, DisplayWindow};
use vstd::string::StrSliceExecFns;

verus! {

/// One run of display text, either highlighted or not.
pub struct TextRun {
    pub text: String,
    pub highlighted: bool,
}

impl View for TextRun {
    type V = (Seq<char>, bool);

    open spec fn view(&self) -> (Seq<char>, bool) {
        (self.text@, self.highlighted)
    }
}

/// The runs as pairs of character sequence and highlight flag.
pub open spec fn runs_view(v: Seq<TextRun>) -> Seq<(Seq<char>, bool)> {
    v.map_values(|t: TextRun| t@)
}

/// The first highlighted position at or after `from` and before `end`, or
/// `end` if there is none.
pub open spec fn next_highlight(from: int, end: int, hs: Seq<int>) -> int
    decreases end - from,
{
    if from >= end {
        end
    } else if hs.contains(from) {
        from
    } else {
        next_highlight(from + 1, end, hs)
    }
}

proof fn lemma_next_highlight_bounds(from: int, end: int, hs: Seq<int>)
    requires
        from <= end,
    ensures
        from <= next_highlight(from, end, hs) <= end,
    decreases end - from,
{
    if from >= end {
    } else if hs.contains(from) {
    } else {
        lemma_next_highlight_bounds(from + 1, end, hs);
    }
}

/// The runs covering the window `[from, end)` of the candidate: each
/// highlighted position is a run of its own single character, and each
/// maximal stretch of unhighlighted characters between them is a single
/// run; no empty runs.
pub open spec fn runs_spec(cand: Seq<char>, from: int, end: int, hs: Seq<int>) -> Seq<
    (Seq<char>, bool),
>
    decreases end - from,
    via runs_spec_decreases
{
    if from >= end {
        Seq::empty()
    } else if hs.contains(from) {
        seq![(seq![cand[from]], true)] + runs_spec(cand, from + 1, end, hs)
    } else {
        let j = next_highlight(from, end, hs);
        seq![(cand.subrange(from, j), false)] + runs_spec(cand, j, end, hs)
    }
}

#[via_fn]
proof fn runs_spec_decreases(cand: Seq<char>, from: int, end: int, hs: Seq<int>) {
    if from < end && !hs.contains(from) {
        lemma_next_highlight_bounds(from + 1, end, hs);
    }
}

/// The full composed line for a window `w` of the candidate: pointer
/// prefix, marker prefix, leading ellipsis if flagged, the windowed runs,
/// trailing ellipsis if flagged. Empty prefixes contribute no run.
pub open spec fn compose_spec(
    pointer: Seq<char>,
    marker: Seq<char>,
    cand: Seq<char>,
    w: (int, int, bool, bool),
    hs: Seq<int>,
) -> Seq<(Seq<char>, bool)> {
    let pruns: Seq<(Seq<char>, bool)> = if pointer.len() > 0 {
        seq![(pointer, false)]
    } else {
        Seq::empty()
    };
    let mruns: Seq<(Seq<char>, bool)> = if marker.len() > 0 {
        seq![(marker, false)]
    } else {
        Seq::empty()
    };
    let lead: Seq<(Seq<char>, bool)> = if w.2 {
        seq![(seq!['\u{2026}'], false)]
    } else {
        Seq::empty()
    };
    let trail: Seq<(Seq<char>, bool)> = if w.3 {
        seq![(seq!['\u{2026}'], false)]
    } else {
        Seq::empty()
    };
    pruns + mruns + lead + runs_spec(cand, w.0, w.1, hs) + trail
}

/// An owned one-character ellipsis run.
fn ellipsis_run() -> (t: TextRun)
    ensures
        t@ == (seq!['\u{2026}'], false),
{
    let mut s = String::new();
    push_char(&mut s, '\u{2026}');
    proof {
        assert(s@ =~= seq!['\u{2026}']);
    }
    TextRun { text: s, highlighted: false }
}

/// The first highlighted position at or after `from` and before `end`, or
/// `end` if there is none.
fn next_highlight_exec(from: usize, end: usize, hs: &Vec<usize>) -> (j: usize)
    requires
        from <= end,
    ensures
        from <= j <= end,
        j as int == next_highlight(from as int, end as int, offsets_view(hs@)),
{
    let mut j = from;
    while j < end
        invariant
            from <= j <= end,
            next_highlight(from as int, end as int, offsets_view(hs@)) == next_highlight(
                j as int,
                end as int,
                offsets_view(hs@),
            ),
        decreases end - j,
    {
        if contains_offset(hs, j) {
            return j;
        }
        j = j + 1;
    }
    j
}

/// The composed line for a window of a candidate, as `compose_spec` says.
pub fn compose_line(
    pointer: &str,
    marker: &str,
    cand_chars: &Vec<char>,
    w: DisplayWindow,
    highlights: &Vec<usize>,
) -> (runs: Vec<TextRun>)
    requires
        w.start <= w.end <= cand_chars@.len(),
    ensures
        runs_view(runs@) == compose_spec(
            pointer@,
            marker@,
            cand_chars@,
            (w.start as int, w.end as int, w.start_ellipsis, w.end_ellipsis),
            offsets_view(highlights@),
        ),
{
    let ghost hs = offsets_view(highlights@);
    let ghost target = compose_spec(
        pointer@,
        marker@,
        cand_chars@,
        (w.start as int, w.end as int, w.start_ellipsis, w.end_ellipsis),
        hs,
    );
    let ghost trail: Seq<(Seq<char>, bool)> = if w.end_ellipsis {
        seq![(seq!['\u{2026}'], false)]
    } else {
        Seq::<(Seq<char>, bool)>::empty()
    };
    let mut runs: Vec<TextRun> = Vec::new();
    if !pointer.is_empty() {
        runs.push(TextRun { text: pointer.to_owned(), highlighted: false });
    }
    if !marker.is_empty() {
        runs.push(TextRun { text: marker.to_owned(), highlighted: false });
    }
    if w.start_ellipsis {
        let e = ellipsis_run();
        runs.push(e);
    }
    proof {
        assert(runs_view(runs@) + runs_spec(cand_chars@, w.start as int, w.end as int, hs) + trail
            =~= target);
    }
    let mut i: usize = w.start;
    while i < w.end
        invariant
            w.start <= i <= w.end <= cand_chars@.len(),
            hs == offsets_view(highlights@),
            runs_view(runs@) + runs_spec(cand_chars@, i as int, w.end as int, hs) + trail
                == target,
        decreases w.end - i,
    {
        let ghost runs0 = runs_view(runs@);
        if contains_offset(highlights, i) {
            let t = string_of_range(cand_chars, i, i + 1);
            proof {
                assert(t@ =~= seq![cand_chars@[i as int]]);
            }
            runs.push(TextRun { text: t, highlighted: true });
            proof {
                assert(runs_view(runs@) =~= runs0.push((seq![cand_chars@[i as int]], true)));
                assert(runs0 + runs_spec(cand_chars@, i as int, w.end as int, hs) + trail
                    =~= runs_view(runs@) + runs_spec(cand_chars@, i + 1, w.end as int, hs)
                    + trail);
            }
            i = i + 1;
        } else {
            let j = next_highlight_exec(i, w.end, highlights);
            let t = string_of_range(cand_chars, i, j);
            runs.push(TextRun { text: t, highlighted: false });
            proof {
                assert(runs_view(runs@) =~= runs0.push(
                    (cand_chars@.subrange(i as int, j as int), false),
                ));
                assert(runs0 + runs_spec(cand_chars@, i as int, w.end as int, hs) + trail
                    =~= runs_view(runs@) + runs_spec(cand_chars@, j as int, w.end as int, hs)
                    + trail);
            }
            i = j;
        }
    }
    if w.end_ellipsis {
        let e = ellipsis_run();
        let ghost runs0 = runs_view(runs@);
        runs.push(e);
        proof {
            assert(runs_view(runs@) =~= runs0.push((seq!['\u{2026}'], false)));
        }
    }
    proof {
        assert(runs_view(runs@) =~= target);
    }
    runs
}

/// The budget left for candidate text once the fixed pointer and marker
/// prefixes are subtracted, clamped at zero rather than failing.
pub open spec fn budget_spec(max: int, pointer_len: int, marker_len: int) -> int {
    vstd::math::max(max - pointer_len - marker_len, 0)
}

/// A composed line never exceeds the width budget: the fixed pointer and
/// marker prefixes plus the windowed characters and their ellipsis glyphs
/// stay within `max_characters`. The one excluded corner is a leftover
/// budget of exactly one character with the window cut off on both sides,
/// where the two ellipsis glyphs alone already take two slots.
pub proof fn lemma_line_width(
    cand_len: int,
    hs: Seq<int>,
    max_characters: int,
    pointer_len: int,
    marker_len: int,
)
    requires
        0 <= pointer_len,
        0 <= marker_len,
        budget_spec(max_characters, pointer_len, marker_len) >= 1,
        !(budget_spec(max_characters, pointer_len, marker_len) == 1 && window_spec(
            cand_len,
            hs,
            budget_spec(max_characters, pointer_len, marker_len),
            5,
        ).2 && window_spec(
            cand_len,
            hs,
            budget_spec(max_characters, pointer_len, marker_len),
            5,
        ).3),
    ensures
        ({
            let budget = budget_spec(max_characters, pointer_len, marker_len);
            pointer_len + marker_len + crate::window::rendered_width(
                window_spec(cand_len, hs, budget, 5),
            ) <= max_characters
        }),
{
    let budget = budget_spec(max_characters, pointer_len, marker_len);
    crate::window::lemma_window_width(cand_len, hs, budget, 5);
}

/// One fully composed display line: highlights computed from the query,
/// the window chosen for the remaining budget with five characters kept
/// visible to the right of the last highlight, and the runs assembled.
pub fn render_line(
    query: &str,
    candidate: &str,
    pointer: &str,
    marker: &str,
    max_characters: usize,
) -> (runs: Vec<TextRun>)
    ensures
        ({
            let hs = highlight_spec(query@, candidate@);
            let budget = budget_spec(
                max_characters as int,
                pointer@.len() as int,
                marker@.len() as int,
            );
            runs_view(runs@) == compose_spec(
                pointer@,
                marker@,
                candidate@,
                window_spec(candidate@.len() as int, hs, budget, 5),
                hs,
            )
        }),
{
    let cand_chars = crate::text::chars_of(candidate);
    let highlights = crate::highlight::fuzzy_search_highlight(query, candidate);
    proof {
        lemma_highlight_offsets_valid(query@, candidate@);
        assert(forall|k: int|
            0 <= k < highlights@.len() ==> #[trigger] highlights@[k] < cand_chars@.len()) by {
            assert(forall|k: int|
                0 <= k < highlights@.len() ==> offsets_view(highlights@)[k]
                    == #[trigger] highlights@[k] as int);
        }
    }
    let plen = pointer.unicode_len();
    let mlen = marker.unicode_len();
    let b1 = if plen > max_characters {
        0
    } else {
        max_characters - plen
    };
    let budget = if mlen > b1 {
        0
    } else {
        b1 - mlen
    };
    proof {
        assert(budget as int == budget_spec(max_characters as int, plen as int, mlen as int));
    }
    let w = select_window(cand_chars.len(), &highlights, budget, 5);
    compose_line(pointer, marker, &cand_chars, w, &highlights)
}

} // verus!

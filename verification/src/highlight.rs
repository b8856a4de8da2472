//! Highlight calculator: which character positions of a candidate a
//! multi-word query matches, for display purposes.
//!
//! Both query and candidate are folded to lowercase. The query is split on
//! whitespace into words; each word scans the candidate from the left with
//! its own cursor, recording for each word character the first not yet
//! recorded occurrence at or after the cursor. Positions recorded earlier
//! (by any word) are never recorded twice.

use vstd::prelude::*;
use crate::text::{is_space, is_space_char, lower_seq};

verus! {

/// A sequence of recorded offsets, as mathematical integers.
pub open spec fn offsets_view(v: Seq<usize>) -> Seq<int> {
    v.map_values(|x: usize| x as int)
}

/// The first position `i >= from` with `cand[i] == ch` that is not already
/// recorded in `used`, if any.
pub open spec fn find_unused(cand: Seq<char>, ch: char, from: int, used: Seq<int>) -> Option<int>
    decreases cand.len() - from,
{
    if from < 0 || from >= cand.len() {
        None
    } else if cand[from] == ch && !used.contains(from) {
        Some(from)
    } else {
        find_unused(cand, ch, from + 1, used)
    }
}

/// One pass of the scan over the (already lowercased) query characters.
/// A whitespace character starts a new word: the cursor returns to 0. A
/// word character records the first unused occurrence at or after the
/// cursor, advancing the cursor past it; if there is none, the cursor and
/// the recorded offsets stay as they are.
pub open spec fn scan_query(q: Seq<char>, cand: Seq<char>, cursor: int, acc: Seq<int>) -> Seq<int>
    decreases q.len(),
{
    if q.len() == 0 {
        acc
    } else if is_space(q[0]) {
        scan_query(q.drop_first(), cand, 0, acc)
    } else {
        match find_unused(cand, q[0], cursor, acc) {
            Some(i) => scan_query(q.drop_first(), cand, i + 1, acc.push(i)),
            None => scan_query(q.drop_first(), cand, cursor, acc),
        }
    }
}

/// The highlight offsets for a query and a candidate: the scan over the
/// lowercase foldings, starting with cursor 0 and nothing recorded.
pub open spec fn highlight_spec(query: Seq<char>, cand: Seq<char>) -> Seq<int> {
    scan_query(lower_seq(query), lower_seq(cand), 0, Seq::empty())
}

proof fn lemma_find_unused_props(cand: Seq<char>, ch: char, from: int, used: Seq<int>)
    ensures
        match find_unused(cand, ch, from, used) {
            Some(i) => from <= i < cand.len() && cand[i] == ch && !used.contains(i),
            None => true,
        },
    decreases cand.len() - from,
{
    if from < 0 || from >= cand.len() {
    } else if cand[from] == ch && !used.contains(from) {
    } else {
        lemma_find_unused_props(cand, ch, from + 1, used);
    }
}

/// The scan only appends: what was recorded stays, in place, and every
/// newly recorded offset is a fresh in-range position, so the result has
/// no duplicates if the accumulator had none.
pub proof fn lemma_scan_query_valid(q: Seq<char>, cand: Seq<char>, cursor: int, acc: Seq<int>)
    requires
        acc.no_duplicates(),
        forall|k: int| 0 <= k < acc.len() ==> 0 <= #[trigger] acc[k] < cand.len(),
    ensures
        scan_query(q, cand, cursor, acc).len() >= acc.len(),
        scan_query(q, cand, cursor, acc).subrange(0, acc.len() as int) == acc,
        scan_query(q, cand, cursor, acc).no_duplicates(),
        forall|k: int|
            0 <= k < scan_query(q, cand, cursor, acc).len() ==> 0 <= #[trigger] scan_query(
                q,
                cand,
                cursor,
                acc,
            )[k] < cand.len(),
    decreases q.len(),
{
    if q.len() == 0 {
        assert(scan_query(q, cand, cursor, acc).subrange(0, acc.len() as int) =~= acc);
    } else if is_space(q[0]) {
        lemma_scan_query_valid(q.drop_first(), cand, 0, acc);
    } else {
        lemma_find_unused_props(cand, q[0], cursor, acc);
        match find_unused(cand, q[0], cursor, acc) {
            Some(i) => {
                let acc2 = acc.push(i);
                assert(acc2.no_duplicates());
                lemma_scan_query_valid(q.drop_first(), cand, i + 1, acc2);
                let r = scan_query(q, cand, cursor, acc);
                assert(r.subrange(0, acc2.len() as int) == acc2);
                assert(r.subrange(0, acc.len() as int) =~= acc) by {
                    assert(forall|k: int|
                        0 <= k < acc2.len() ==> r.subrange(0, acc2.len() as int)[k]
                            == #[trigger] r[k]);
                }
            },
            None => {
                lemma_scan_query_valid(q.drop_first(), cand, cursor, acc);
            },
        }
    }
}

/// Every highlight offset lies inside the candidate, and no offset is
/// recorded twice.
pub proof fn lemma_highlight_offsets_valid(query: Seq<char>, cand: Seq<char>)
    ensures
        forall|k: int|
            0 <= k < highlight_spec(query, cand).len() ==> 0 <= #[trigger] highlight_spec(
                query,
                cand,
            )[k] < cand.len(),
        highlight_spec(query, cand).no_duplicates(),
{
    assert(lower_seq(cand).len() == cand.len());
    lemma_scan_query_valid(lower_seq(query), lower_seq(cand), 0, Seq::empty());
}

/// How many characters of a query are word characters (not whitespace).
pub open spec fn word_char_count(q: Seq<char>) -> int
    decreases q.len(),
{
    if q.len() == 0 {
        0
    } else {
        (if is_space(q[0]) {
            0int
        } else {
            1int
        }) + word_char_count(q.drop_first())
    }
}

proof fn lemma_scan_query_size(q: Seq<char>, cand: Seq<char>, cursor: int, acc: Seq<int>)
    ensures
        scan_query(q, cand, cursor, acc).len() <= acc.len() + word_char_count(q),
    decreases q.len(),
{
    if q.len() == 0 {
    } else if is_space(q[0]) {
        lemma_scan_query_size(q.drop_first(), cand, 0, acc);
    } else {
        match find_unused(cand, q[0], cursor, acc) {
            Some(i) => {
                lemma_scan_query_size(q.drop_first(), cand, i + 1, acc.push(i));
            },
            None => {
                lemma_scan_query_size(q.drop_first(), cand, cursor, acc);
            },
        }
    }
}

/// Each word character of the query records at most one offset, so the
/// highlight set is never larger than the query's non-space character
/// count.
pub proof fn lemma_highlight_size_bound(query: Seq<char>, cand: Seq<char>)
    ensures
        highlight_spec(query, cand).len() <= word_char_count(lower_seq(query)),
{
    lemma_scan_query_size(lower_seq(query), lower_seq(cand), 0, Seq::empty());
}

/// Within a single query word's scan (no whitespace among the scanned
/// characters), the offsets are recorded in strictly increasing order, each
/// at or after the cursor the word started from. Across different words
/// the merged result need not be globally sorted.
pub proof fn lemma_word_scan_monotone(word: Seq<char>, cand: Seq<char>, cursor: int, acc: Seq<int>)
    requires
        forall|k: int| 0 <= k < word.len() ==> !is_space(#[trigger] word[k]),
    ensures
        scan_query(word, cand, cursor, acc).len() >= acc.len(),
        scan_query(word, cand, cursor, acc).subrange(0, acc.len() as int) == acc,
        forall|k: int|
            acc.len() <= k < scan_query(word, cand, cursor, acc).len() ==> #[trigger] scan_query(
                word,
                cand,
                cursor,
                acc,
            )[k] >= cursor,
        forall|k1: int, k2: int|
            acc.len() <= k1 < k2 < scan_query(word, cand, cursor, acc).len()
                ==> #[trigger] scan_query(word, cand, cursor, acc)[k1] < #[trigger] scan_query(
                word,
                cand,
                cursor,
                acc,
            )[k2],
    decreases word.len(),
{
    if word.len() == 0 {
        assert(scan_query(word, cand, cursor, acc).subrange(0, acc.len() as int) =~= acc);
    } else {
        assert(!is_space(word[0]));
        lemma_find_unused_props(cand, word[0], cursor, acc);
        match find_unused(cand, word[0], cursor, acc) {
            Some(i) => {
                let acc2 = acc.push(i);
                lemma_word_scan_monotone(word.drop_first(), cand, i + 1, acc2);
                let r = scan_query(word, cand, cursor, acc);
                assert(r.subrange(0, acc2.len() as int) == acc2);
                assert(r.subrange(0, acc.len() as int) =~= acc) by {
                    assert(forall|k: int|
                        0 <= k < acc2.len() ==> r.subrange(0, acc2.len() as int)[k]
                            == #[trigger] r[k]);
                }
                assert(r[acc.len() as int] == acc2[acc.len() as int]);
            },
            None => {
                lemma_word_scan_monotone(word.drop_first(), cand, cursor, acc);
            },
        }
    }
}

/// A whitespace character splits the scan: everything after it is a
/// fresh scan with cursor 0, starting from whatever the part before it
/// recorded. Together with the word-scan lemma this says the offsets of
/// each word of a multi-word query are recorded in increasing order,
/// though the merged result need not be.
pub proof fn lemma_scan_query_word_split(
    q1: Seq<char>,
    sp: char,
    q2: Seq<char>,
    cand: Seq<char>,
    cursor: int,
    acc: Seq<int>,
)
    requires
        is_space(sp),
    ensures
        scan_query(q1.push(sp) + q2, cand, cursor, acc) == scan_query(
            q2,
            cand,
            0,
            scan_query(q1, cand, cursor, acc),
        ),
    decreases q1.len(),
{
    let q = q1.push(sp) + q2;
    if q1.len() == 0 {
        assert(q[0] == sp);
        assert(q.drop_first() =~= q2);
    } else {
        assert(q[0] == q1[0]);
        assert(q.drop_first() =~= q1.drop_first().push(sp) + q2);
        if is_space(q1[0]) {
            lemma_scan_query_word_split(q1.drop_first(), sp, q2, cand, 0, acc);
        } else {
            match find_unused(cand, q1[0], cursor, acc) {
                Some(i) => {
                    lemma_scan_query_word_split(
                        q1.drop_first(),
                        sp,
                        q2,
                        cand,
                        i + 1,
                        acc.push(i),
                    );
                },
                None => {
                    lemma_scan_query_word_split(q1.drop_first(), sp, q2, cand, cursor, acc);
                },
            }
        }
    }
}

/// The highlight computation is a function of the query and the candidate
/// alone: any two results for the same arguments coincide.
pub proof fn lemma_highlight_idempotent(
    query: Seq<char>,
    cand: Seq<char>,
    r1: Seq<int>,
    r2: Seq<int>,
)
    requires
        r1 == highlight_spec(query, cand),
        r2 == highlight_spec(query, cand),
    ensures
        r1 == r2,
{
}

/// Whether `x` occurs among the recorded offsets.
pub(crate) fn contains_offset(v: &Vec<usize>, x: usize) -> (r: bool)
    ensures
        r == offsets_view(v@).contains(x as int),
{
    let mut i: usize = 0;
    while i < v.len()
        invariant
            i <= v@.len(),
            forall|k: int| 0 <= k < i ==> #[trigger] v@[k] != x,
        decreases v@.len() - i,
    {
        if v[i] == x {
            proof {
                assert(offsets_view(v@)[i as int] == x as int);
            }
            return true;
        }
        i = i + 1;
    }
    proof {
        assert forall|k: int| 0 <= k < offsets_view(v@).len() implies #[trigger] offsets_view(v@)[k]
            != x as int by {
            assert(v@[k] != x);
        }
    }
    false
}

/// The first unused occurrence of `ch` in `cand` at or after `from`.
fn find_unused_exec(cand: &Vec<char>, ch: char, from: usize, used: &Vec<usize>) -> (r: Option<
    usize,
>)
    ensures
        match r {
            Some(i) => find_unused(cand@, ch, from as int, offsets_view(used@)) == Some(i as int)
                && i < cand@.len(),
            None => find_unused(cand@, ch, from as int, offsets_view(used@)) is None,
        },
{
    let mut j: usize = from;
    while j < cand.len()
        invariant
            from <= j,
            find_unused(cand@, ch, from as int, offsets_view(used@)) == find_unused(
                cand@,
                ch,
                j as int,
                offsets_view(used@),
            ),
        decreases cand@.len() - j,
    {
        if cand[j] == ch && !contains_offset(used, j) {
            return Some(j);
        }
        j = j + 1;
    }
    None
}

/// The character positions of `match_str` that the query `search` matches,
/// in the order the scan records them. Offsets from different query words
/// need not be globally sorted; callers that need sorted order sort them.
pub fn fuzzy_search_highlight(search: &str, match_str: &str) -> (r: Vec<usize>)
    ensures
        offsets_view(r@) == highlight_spec(search@, match_str@),
{
    let q = crate::text::to_lower_vec(search);
    let c = crate::text::to_lower_vec(match_str);
    let ghost full = highlight_spec(search@, match_str@);
    let mut result: Vec<usize> = Vec::new();
    let mut cursor: usize = 0;
    let mut qi: usize = 0;
    proof {
        assert(q@.skip(0) =~= q@);
        assert(offsets_view(result@) =~= Seq::<int>::empty());
    }
    while qi < q.len()
        invariant
            qi <= q@.len(),
            q@ == lower_seq(search@),
            c@ == lower_seq(match_str@),
            full == highlight_spec(search@, match_str@),
            scan_query(q@.skip(qi as int), c@, cursor as int, offsets_view(result@)) == full,
        decreases q@.len() - qi,
    {
        let ghost rest = q@.skip(qi as int);
        let ghost used0 = offsets_view(result@);
        proof {
            assert(rest.len() == q@.len() - qi);
            assert(rest[0] == q@[qi as int]);
            assert(rest.drop_first() =~= q@.skip(qi as int + 1));
        }
        let ch = q[qi];
        if is_space_char(ch) {
            cursor = 0;
        } else {
            match find_unused_exec(&c, ch, cursor, &result) {
                Some(i) => {
                    let n = c.len();
                    result.push(i);
                    proof {
                        assert(offsets_view(result@) =~= used0.push(i as int));
                        assert(i < n);
                    }
                    cursor = i + 1;
                },
                None => {},
            }
        }
        qi = qi + 1;
    }
    proof {
        assert(q@.skip(q@.len() as int) =~= Seq::<char>::empty());
    }
    result
}

} // verus!

//! Match feed adapter: a thin pull interface over the external ranking
//! engine (nucleo).
//!
//! The engine keeps a snapshot of the current ranked matches as a plain
//! field that only `tick` (through `&mut self`) rewrites; reads through
//! `&self` between ticks all see the same snapshot, unaffected by
//! concurrent pushes from the ingestion thread. `ranked_of` names the
//! identity and text of each matched item of that snapshot in rank order,
//! and `total_of` the snapshot's total item count. Candidates are pushed
//! as an identity paired with the line's text; the identity is the
//! caller's stable handle (its position in ingestion order).

use vstd::prelude::*;
use crate::nav::NavState;

verus! {

/// Relies on nucleo::Nucleo being usable as an opaque engine handle.
#[verifier::external_type_specification]
#[verifier::external_body]
#[verifier::reject_recursive_types(T)]
pub struct ExNucleo<T: Sync + Send + 'static>(nucleo::Nucleo<T>);

/// Relies on nucleo::Injector being usable as an opaque handle for
/// pushing candidates, from any thread.
#[verifier::external_type_specification]
#[verifier::external_body]
#[verifier::reject_recursive_types(T)]
pub struct ExInjector<T>(nucleo::Injector<T>);

/// What the engine's current snapshot ranks: the identity and text of
/// each matched item, best match first.
pub uninterp spec fn ranked_of(engine: nucleo::Nucleo<(u32, String)>) -> Seq<(u32, Seq<char>)>;

/// How many items the engine's current snapshot knows of in total.
pub uninterp spec fn total_of(engine: nucleo::Nucleo<(u32, String)>) -> int;

/// The ranking engine behind the feed's pull interface.
pub struct MatchFeed {
    pub engine: nucleo::Nucleo<(u32, String)>,
}

impl MatchFeed {
    /// The matched items of the current snapshot, in rank order.
    pub open spec fn ranked(&self) -> Seq<(u32, Seq<char>)> {
        ranked_of(self.engine)
    }

    /// The total item count of the current snapshot.
    pub open spec fn total(&self) -> int {
        total_of(self.engine)
    }

    /// The model stays within the engine's own index space: counts are
    /// `u32` there.
    pub open spec fn wf(&self) -> bool {
        &&& 0 <= total_of(self.engine) <= u32::MAX
        &&& ranked_of(self.engine).len() <= u32::MAX
    }

    /// Relies on nucleo::Nucleo::new: a fresh engine with one match
    /// column and an empty snapshot (no items, no matches).
    #[verifier::external_body]
    pub fn new(ignore_case: bool, normalize: bool) -> (r: MatchFeed)
        ensures
            r.wf(),
            ranked_of(r.engine).len() == 0,
            total_of(r.engine) == 0,
    {
        let mut config = nucleo::Config::DEFAULT;
        config.ignore_case = ignore_case;
        config.normalize = normalize;
        let engine = nucleo::Nucleo::new(config, std::sync::Arc::new(|| {}), None, 1);
        MatchFeed { engine }
    }

    /// Relies on nucleo::Nucleo::injector: a cheaply clonable handle that
    /// appends candidates; new items become visible only after a tick.
    #[verifier::external_body]
    pub fn injector(&self) -> (r: nucleo::Injector<(u32, String)>) {
        self.engine.injector()
    }

    /// Relies on nucleo::Nucleo::tick: advances the engine by at most
    /// `timeout_ms` milliseconds and installs the latest finished ranking
    /// as the new snapshot; the result says whether the snapshot changed.
    #[verifier::external_body]
    pub fn tick(&mut self, timeout_ms: u64) -> (changed: bool)
        ensures
            final(self).wf(),
    {
        self.engine.tick(timeout_ms).changed
    }

    /// Relies on nucleo::pattern::MultiPattern::reparse: installs the new
    /// query for future ranking, touching only the pattern, never the
    /// current snapshot.
    #[verifier::external_body]
    pub fn reparse(&mut self, query: &str)
        ensures
            final(self).wf() == old(self).wf(),
            ranked_of(final(self).engine) == ranked_of(old(self).engine),
            total_of(final(self).engine) == total_of(old(self).engine),
    {
        self.engine.pattern.reparse(
            0,
            query,
            nucleo::pattern::CaseMatching::Smart,
            nucleo::pattern::Normalization::Smart,
            false,
        );
    }

    /// Relies on nucleo::Snapshot::matched_item_count: the number of
    /// matches in the current snapshot.
    #[verifier::external_body]
    pub fn matched_count(&self) -> (n: u32)
        requires
            self.wf(),
        ensures
            n as int == ranked_of(self.engine).len() as int,
    {
        self.engine.snapshot().matched_item_count()
    }

    /// Relies on nucleo::Snapshot::item_count: the total number of items
    /// the current snapshot knows of.
    #[verifier::external_body]
    pub fn total_count(&self) -> (n: u32)
        requires
            self.wf(),
        ensures
            n as int == total_of(self.engine),
    {
        self.engine.snapshot().item_count()
    }

    /// Relies on nucleo::Snapshot::get_matched_item: the nth match of the
    /// current snapshot, present exactly for indices below the matched
    /// count.
    #[verifier::external_body]
    pub fn get_matched(&self, index: u32) -> (r: Option<(u32, String)>)
        requires
            self.wf(),
        ensures
            match r {
                Some(p) => index < ranked_of(self.engine).len() && p.0 == ranked_of(
                    self.engine,
                )[index as int].0 && p.1@ == ranked_of(self.engine)[index as int].1,
                None => index >= ranked_of(self.engine).len(),
            },
    {
        self.engine.snapshot().get_matched_item(index).map(|item| item.data.clone())
    }

    /// Relies on nucleo::Snapshot::matched_items: the matches of the
    /// current snapshot in rank order over an in-bounds range.
    #[verifier::external_body]
    pub fn matched_slice(&self, start: u32, end: u32) -> (r: Vec<(u32, String)>)
        requires
            self.wf(),
            start <= end,
            end as int <= ranked_of(self.engine).len() as int,
        ensures
            r@.len() == end - start,
            forall|i: int|
                0 <= i < r@.len() ==> #[trigger] r@[i].0 == ranked_of(self.engine)[start + i].0
                    && r@[i].1@ == ranked_of(self.engine)[start + i].1,
    {
        self.engine.snapshot().matched_items(start..end).map(|item| item.data.clone()).collect()
    }
}

/// Relies on nucleo::Injector::push: appends one candidate, carrying its
/// identity and text, with the text as the single match column; safe to
/// call from the ingestion thread while the consumer reads snapshots.
#[verifier::external_body]
pub fn injector_push(inj: &nucleo::Injector<(u32, String)>, id: u32, text: String) -> u32 {
    inj.push((id, text), |value, columns| {
        columns[0] = value.1.as_str().into();
    })
}

/// The slice of matched candidates a frame shows: at most `max_rows`
/// items starting at `first`, clamped to what the snapshot holds.
pub fn visible_items(feed: &MatchFeed, first: u32, max_rows: u32) -> (r: Vec<(u32, String)>)
    requires
        feed.wf(),
    ensures
        ({
            let m = feed.ranked().len() as int;
            let lo = vstd::math::min(first as int, m);
            let n = vstd::math::min(max_rows as int, m - lo);
            &&& r@.len() == n
            &&& forall|i: int|
                0 <= i < n ==> #[trigger] r@[i].0 == feed.ranked()[lo + i].0 && r@[i].1@
                    == feed.ranked()[lo + i].1
        }),
{
    let m = feed.matched_count();
    let lo = if first > m {
        m
    } else {
        first
    };
    let hi = if max_rows > m - lo {
        m
    } else {
        lo + max_rows
    };
    feed.matched_slice(lo, hi)
}

/// The candidate a commit resolves to: the item at the absolute selected
/// index, or nothing when the selection lies outside the matched set (an
/// empty result set commits nothing).
pub fn commit_text(feed: &MatchFeed, nav: &NavState) -> (r: Option<String>)
    requires
        feed.wf(),
        nav.first_idx + nav.selected_idx <= u32::MAX,
    ensures
        match r {
            Some(s) => nav.first_idx + nav.selected_idx < feed.ranked().len() && s@
                == feed.ranked()[nav.first_idx + nav.selected_idx].1,
            None => nav.first_idx + nav.selected_idx >= feed.ranked().len(),
        },
{
    let abs = nav.absolute_index();
    match feed.get_matched(abs) {
        Some(p) => Some(p.1),
        None => None,
    }
}

} // verus!

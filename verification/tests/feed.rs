use emenu::feed::{commit_text, injector_push, visible_items, MatchFeed};
use emenu::nav::NavState;

fn feed_with(lines: &[&str]) -> MatchFeed {
    let mut feed = MatchFeed::new(true, true);
    let inj = feed.injector();
    for (i, line) in lines.iter().enumerate() {
        injector_push(&inj, i as u32, String::from(*line));
    }
    let mut tries = 0;
    while feed.matched_count() < lines.len() as u32 && tries < 400 {
        feed.tick(10);
        tries += 1;
    }
    feed
}

fn narrow(feed: &mut MatchFeed, query: &str, expect: u32) {
    feed.reparse(query);
    let mut tries = 0;
    while feed.matched_count() != expect && tries < 400 {
        feed.tick(10);
        tries += 1;
    }
}

#[test]
fn feed_starts_empty() {
    let feed = MatchFeed::new(true, true);
    assert_eq!(feed.total_count(), 0);
    assert_eq!(feed.matched_count(), 0);
    assert!(visible_items(&feed, 0, 10).is_empty());
    let nav = NavState { first_idx: 0, selected_idx: 0, multi_selection: Vec::new() };
    assert_eq!(commit_text(&feed, &nav), None);
}

#[test]
fn feed_counts_ingested_items() {
    let feed = feed_with(&["alpha", "beta", "gamma"]);
    assert_eq!(feed.total_count(), 3);
    assert_eq!(feed.matched_count(), 3);
}

#[test]
fn feed_empty_query_matches_everything() {
    let feed = feed_with(&["alpha", "beta", "gamma"]);
    let items = visible_items(&feed, 0, 10);
    assert_eq!(items.len(), 3);
    let mut texts: Vec<String> = items.iter().map(|p| p.1.clone()).collect();
    texts.sort();
    assert_eq!(texts, vec!["alpha", "beta", "gamma"]);
}

#[test]
fn feed_visible_items_clamp_to_snapshot() {
    let feed = feed_with(&["alpha", "beta", "gamma"]);
    assert_eq!(visible_items(&feed, 0, 2).len(), 2);
    assert_eq!(visible_items(&feed, 2, 10).len(), 1);
    assert_eq!(visible_items(&feed, 5, 10).len(), 0);
}

#[test]
fn feed_reparse_narrows_matches() {
    let mut feed = feed_with(&["alpha", "beta", "gamma"]);
    narrow(&mut feed, "bet", 1);
    assert_eq!(feed.matched_count(), 1);
    assert_eq!(feed.total_count(), 3);
    let top = feed.get_matched(0).expect("one match");
    assert_eq!(top.0, 1);
    assert_eq!(top.1, "beta");
}

#[test]
fn feed_get_matched_out_of_range_is_none() {
    let feed = feed_with(&["alpha", "beta"]);
    assert!(feed.get_matched(2).is_none());
    assert!(feed.get_matched(100).is_none());
}

#[test]
fn feed_commit_resolves_selected_item() {
    let mut feed = feed_with(&["alpha", "beta", "gamma"]);
    narrow(&mut feed, "gam", 1);
    let nav = NavState { first_idx: 0, selected_idx: 0, multi_selection: Vec::new() };
    assert_eq!(commit_text(&feed, &nav), Some(String::from("gamma")));
}

#[test]
fn feed_commit_out_of_range_is_nothing() {
    let mut feed = feed_with(&["alpha", "beta", "gamma"]);
    narrow(&mut feed, "nomatchforthis", 0);
    let nav = NavState { first_idx: 0, selected_idx: 0, multi_selection: Vec::new() };
    assert_eq!(commit_text(&feed, &nav), None);
}

use emenu::highlight::fuzzy_search_highlight;

#[test]
fn highlight_empty_query_empty_candidate() {
    assert_eq!(fuzzy_search_highlight("", ""), Vec::<usize>::new());
}

#[test]
fn highlight_repeated_query_char() {
    assert_eq!(fuzzy_search_highlight("ss", "some"), vec![0]);
}

#[test]
fn highlight_scattered_word() {
    assert_eq!(
        fuzzy_search_highlight("aihh", "There shall be neither light nor safety"),
        vec![8, 17, 19, 26]
    );
}

#[test]
fn highlight_interleaved_word() {
    assert_eq!(fuzzy_search_highlight("ulul", "En un lugar de la Mancha"), vec![3, 6, 7, 15]);
}

#[test]
fn highlight_no_match() {
    assert_eq!(fuzzy_search_highlight("xyz", "hello world"), Vec::<usize>::new());
}

#[test]
fn highlight_empty_candidate() {
    assert_eq!(fuzzy_search_highlight("a", ""), Vec::<usize>::new());
}

#[test]
fn highlight_full_match() {
    assert_eq!(fuzzy_search_highlight("hello", "hello"), vec![0, 1, 2, 3, 4]);
}

#[test]
fn highlight_subsequence() {
    assert_eq!(fuzzy_search_highlight("hlo", "hello"), vec![0, 2, 4]);
}

#[test]
fn highlight_case_insensitive() {
    assert_eq!(fuzzy_search_highlight("rust", "Rust is great"), vec![0, 1, 2, 3]);
}

#[test]
fn highlight_doubled_letters() {
    assert_eq!(fuzzy_search_highlight("abc", "aabbcc"), vec![0, 2, 4]);
}

#[test]
fn highlight_prefix_of_first_word() {
    assert_eq!(fuzzy_search_highlight("test", "testing tests"), vec![0, 1, 2, 3]);
}

#[test]
fn highlight_suffix() {
    assert_eq!(fuzzy_search_highlight("ing", "testing"), vec![4, 5, 6]);
}

#[test]
fn highlight_single_char() {
    assert_eq!(fuzzy_search_highlight("x", "x"), vec![0]);
}

#[test]
fn highlight_same_char_twice() {
    assert_eq!(fuzzy_search_highlight("aa", "banana"), vec![1, 3]);
}

#[test]
fn highlight_word_in_sentence() {
    assert_eq!(fuzzy_search_highlight("code", "The code is clean"), vec![4, 5, 6, 7]);
}

#[test]
fn highlight_uppercase_query_matches_lowercase_candidate() {
    // Fails if case folding handed its input back unchanged.
    assert_eq!(fuzzy_search_highlight("AbC", "abc"), vec![0, 1, 2]);
}

#[test]
fn highlight_two_words_restart_at_zero() {
    // The second word scans from the start again, so the merged result is
    // not sorted: fails if whitespace splitting were broken.
    assert_eq!(fuzzy_search_highlight("b a", "ab"), vec![1, 0]);
}

#[test]
fn highlight_shared_used_set_across_words() {
    // Both words want the same positions; the second finds them taken.
    assert_eq!(fuzzy_search_highlight("ab ab", "ab"), vec![0, 1]);
}

#[test]
fn highlight_leading_and_trailing_spaces_ignored() {
    assert_eq!(fuzzy_search_highlight("  hlo  ", "hello"), vec![0, 2, 4]);
}

#[test]
fn highlight_offsets_in_range_and_distinct() {
    let cand = "mississippi river delta";
    let r = fuzzy_search_highlight("sip rde", cand);
    let n = cand.chars().count();
    for &o in &r {
        assert!(o < n);
    }
    let mut sorted = r.clone();
    sorted.sort_unstable();
    sorted.dedup();
    assert_eq!(sorted.len(), r.len());
}

#[test]
fn highlight_identical_calls_agree() {
    let a = fuzzy_search_highlight("que ry", "some candidate text");
    let b = fuzzy_search_highlight("que ry", "some candidate text");
    assert_eq!(a, b);
}

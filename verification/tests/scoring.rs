use fuzzy_search::{checked_fuzzy_match, fuzzy_match, score_folded};

#[test]
fn empty_query_scores_one_hundred() {
    assert_eq!(fuzzy_match("", "react"), 100);
    assert_eq!(fuzzy_match("", "Introduction to React.js"), 100);
    assert_eq!(fuzzy_match("", "x"), 100);
}

#[test]
fn empty_query_wins_over_empty_text() {
    assert_eq!(fuzzy_match("", ""), 100);
}

#[test]
fn empty_text_scores_zero() {
    assert_eq!(fuzzy_match("a", ""), 0);
    assert_eq!(fuzzy_match("react", ""), 0);
}

#[test]
fn case_of_either_input_does_not_matter() {
    let expected: i32 = fuzzy_match("re", "react");
    assert_eq!(expected, 20);
    assert_eq!(fuzzy_match("RE", "react"), expected);
    assert_eq!(fuzzy_match("re", "REACT"), expected);
    assert_eq!(fuzzy_match("Re", "rEaCt"), expected);
    assert_eq!(fuzzy_match("RE", "REACT"), expected);
}

#[test]
fn upper_case_query_is_folded_before_matching() {
    assert_eq!(fuzzy_match("REACT", "react"), 50);
    assert_eq!(fuzzy_match("react", "REACT"), 50);
}

#[test]
fn characters_out_of_order_do_not_match() {
    assert_eq!(fuzzy_match("abc", "acb"), 0);
    assert_eq!(fuzzy_match("ba", "ab"), 0);
}

#[test]
fn prefix_earns_ten_per_character() {
    assert_eq!(fuzzy_match("re", "react"), 20);
    assert_eq!(fuzzy_match("react", "react"), 50);
}

#[test]
fn distance_lowers_the_score() {
    assert_eq!(fuzzy_match("rt", "react"), 17);
    assert!(fuzzy_match("rt", "react") < fuzzy_match("re", "react"));
}

#[test]
fn same_inputs_same_score() {
    let first: i32 = fuzzy_match("rt", "React Router");
    let second: i32 = fuzzy_match("rt", "React Router");
    assert_eq!(first, second);
    assert_eq!(first, 17);
}

#[test]
fn failed_match_drops_a_negative_partial_score() {
    assert_eq!(fuzzy_match("az", "bbbbbbbbbbbbbbbbbbbba"), 0);
    assert_eq!(fuzzy_match("az", "bbbbbbbbbbbbbbbbbbbbab"), 0);
}

#[test]
fn failed_match_drops_a_positive_partial_score() {
    assert_eq!(fuzzy_match("reactz", "react"), 0);
}

#[test]
fn distant_match_may_score_below_zero() {
    assert_eq!(fuzzy_match("a", "bbbbbbbbbbbbbbbbbbbba"), -10);
}

#[test]
fn distant_match_may_score_exactly_zero() {
    assert_eq!(fuzzy_match("a", "bbbbbbbbbba"), 0);
}

#[test]
fn a_position_is_used_once() {
    assert_eq!(fuzzy_match("aa", "a"), 0);
    assert_eq!(fuzzy_match("aa", "aa"), 20);
    assert_eq!(fuzzy_match("aa", "aba"), 19);
}

#[test]
fn first_occurrence_is_taken() {
    assert_eq!(fuzzy_match("ab", "abab"), 20);
    assert_eq!(fuzzy_match("bb", "abab"), 18);
}

#[test]
fn query_longer_than_text_does_not_match() {
    assert_eq!(fuzzy_match("reactor", "react"), 0);
}

#[test]
fn word_inside_a_sentence() {
    assert_eq!(fuzzy_match("react", "Introduction to React.js"), 34);
}

#[test]
fn distance_counts_characters_not_bytes() {
    assert_eq!(fuzzy_match("a", "\u{e9}a"), 9);
    assert_eq!(fuzzy_match("\u{e9}a", "\u{e9}a"), 20);
    assert_eq!(fuzzy_match("\u{c9}", "caf\u{e9}"), 7);
}

#[test]
fn score_folded_compares_characters_as_they_stand() {
    assert_eq!(score_folded("r", "react"), 10);
    assert_eq!(score_folded("R", "react"), 0);
    assert_eq!(score_folded("rt", "react"), 17);
    assert_eq!(score_folded("", "react"), 100);
    assert_eq!(score_folded("", ""), 100);
    assert_eq!(score_folded("r", ""), 0);
    assert_eq!(score_folded("abc", "acb"), 0);
}

#[test]
fn checked_match_agrees_with_plain_match() {
    assert_eq!(checked_fuzzy_match("rt", "react"), Some(17));
    assert_eq!(checked_fuzzy_match("RE", "react"), Some(20));
    assert_eq!(checked_fuzzy_match("", "react"), Some(100));
    assert_eq!(checked_fuzzy_match("react", ""), Some(0));
    assert_eq!(checked_fuzzy_match("abc", "acb"), Some(0));
}

#[test]
fn matched_score_stays_within_its_bounds() {
    let query = "rjs";
    let text = "Introduction to React.js";
    let score: i32 = fuzzy_match(query, text);
    assert_eq!(score, 7 - 8 + 10);
    assert!(score <= 10 * 3);
    assert!(score >= 11 * 3 - 24);
}

#[test]
fn only_a_prefix_earns_the_most() {
    assert_eq!(fuzzy_match("intro", "Introduction to React.js"), 50);
    assert!(fuzzy_match("ntrod", "Introduction to React.js") < 50);
}

#[test]
fn long_inputs_within_limits_are_scored() {
    let text = "b".repeat(100_000) + "a";
    assert_eq!(fuzzy_match("a", &text), 10 - 100_000);
    assert_eq!(checked_fuzzy_match("a", &text), Some(10 - 100_000));
    assert_eq!(score_folded(&text, &text), 1_000_010);
}

#[test]
fn query_over_the_limit_is_not_scored() {
    let query = "a".repeat(214_748_365);
    assert_eq!(checked_fuzzy_match(&query, "a"), None);
    assert_eq!(checked_fuzzy_match(&query, ""), Some(0));
    assert_eq!(checked_fuzzy_match(&query[..214_748_364], "a"), Some(0));
}

#[test]
fn score_depends_on_where_the_match_ends() {
    assert_eq!(fuzzy_match("rt", "react"), 11 * 2 - 5);
    assert_eq!(fuzzy_match("rt", "reactor"), 11 * 2 - 5);
    assert_eq!(fuzzy_match("re", "react"), 11 * 2 - 2);
    assert_eq!(fuzzy_match("ct", "react"), 11 * 2 - 5);
    assert_eq!(fuzzy_match("rt", "rt"), 11 * 2 - 2);
}

#[test]
fn inputs_are_compared_by_their_lowercase_forms() {
    assert_eq!(fuzzy_match("\u{df}", "\u{df}"), 10);
    assert_eq!(fuzzy_match("SS", "\u{df}"), 0);
    assert_eq!(fuzzy_match("ss", "SS"), 20);
    assert_eq!(fuzzy_match("\u{3c3}", "\u{3a3}\u{3a3}"), 10);
}

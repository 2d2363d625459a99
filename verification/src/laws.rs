//! What holds of every score, proved of the model.

use vstd::prelude::*;
use crate::fold::lowercase;
use crate::matcher::fuzzy_score;
use crate::model::{embeds, first_at_or_after, is_subsequence, scan_from, score};

verus! {

/// Whether `places` embeds `query` in `text` with every position at or after
/// `low` and before `high`.
spec fn embeds_within(
    query: Seq<char>,
    text: Seq<char>,
    places: Seq<int>,
    low: int,
    high: int,
) -> bool {
    &&& embeds(query, text, places)
    &&& forall|k: int| 0 <= k < places.len() ==> low <= #[trigger] places[k] < high
}

/// Where a scan that succeeds from `cursor` for the query from index `i` on
/// leaves the cursor: each character earns eleven less the distance that
/// the cursor moves for it.
spec fn scan_stop(query: Seq<char>, text: Seq<char>, i: int, cursor: int) -> int {
    cursor + 11 * (query.len() - i) - scan_from(query, text, i, cursor)->0
}

/// `first_at_or_after` gives a position that holds `c` with no `c` between
/// `from` and it, and gives none only where no `c` is left.
pub proof fn first_at_or_after_is_first(text: Seq<char>, c: char, from: int)
    requires
        0 <= from,
    ensures
        match first_at_or_after(text, c, from) {
            Some(p) => {
                &&& from <= p < text.len()
                &&& text[p] == c
                &&& forall|j: int| from <= j < p ==> text[j] != c
            },
            None => forall|j: int| from <= j < text.len() ==> text[j] != c,
        },
    decreases text.len() - from,
{
    if from < text.len() && text[from] != c {
        first_at_or_after_is_first(text, c, from + 1);
    }
}

/// What the scan from `cursor` earns for the query from index `i` on lies
/// between eleven for each character less the text that is left, and ten
/// for each character.
proof fn scan_earns_within_bounds(query: Seq<char>, text: Seq<char>, i: int, cursor: int)
    requires
        0 <= i <= query.len(),
        0 <= cursor <= text.len(),
    ensures
        scan_from(query, text, i, cursor) matches Some(earned) ==> {
            &&& cursor + (query.len() - i) <= text.len()
            &&& 11 * (query.len() - i) - (text.len() - cursor) <= earned
            &&& earned <= 10 * (query.len() - i)
        },
    decreases query.len() - i,
{
    if i < query.len() {
        first_at_or_after_is_first(text, query[i], cursor);
        if let Some(p) = first_at_or_after(text, query[i], cursor) {
            scan_earns_within_bounds(query, text, i + 1, p + 1);
        }
    }
}

/// Where the scan from `cursor` finds the query from index `i` on, the
/// places it took embed that rest of the query between `cursor` and where
/// the scan stopped.
proof fn scan_gives_places(query: Seq<char>, text: Seq<char>, i: int, cursor: int)
    requires
        0 <= i <= query.len(),
        0 <= cursor <= text.len(),
        scan_from(query, text, i, cursor) is Some,
    ensures
        exists|places: Seq<int>|
            embeds_within(
                query.skip(i),
                text,
                places,
                cursor,
                scan_stop(query, text, i, cursor),
            ),
    decreases query.len() - i,
{
    let stop = scan_stop(query, text, i, cursor);
    if i == query.len() {
        let places = Seq::<int>::empty();
        assert(embeds_within(query.skip(i), text, places, cursor, stop));
    } else {
        first_at_or_after_is_first(text, query[i], cursor);
        let p = first_at_or_after(text, query[i], cursor)->0;
        scan_gives_places(query, text, i + 1, p + 1);
        scan_earns_within_bounds(query, text, i + 1, p + 1);
        let rest = query.skip(i + 1);
        let start = p + 1;
        assert(stop == scan_stop(query, text, i + 1, start));
        let later = choose|places: Seq<int>| embeds_within(rest, text, places, start, stop);
        let places = seq![p] + later;
        assert forall|k: int| 0 <= k < places.len() implies 0 <= #[trigger] places[k] < text.len()
            && text[places[k]] == query.skip(i)[k] && cursor <= places[k] < stop by {
            if k > 0 {
                assert(places[k] == later[k - 1]);
                assert(query.skip(i + 1)[k - 1] == query.skip(i)[k]);
            }
        }
        assert forall|j: int, k: int| 0 <= j < k < places.len() implies places[j] < places[k] by {
            assert(places[k] == later[k - 1]);
            if j > 0 {
                assert(places[j] == later[j - 1]);
            }
        }
        assert(embeds_within(query.skip(i), text, places, cursor, stop));
    }
}

/// Where the rest of the query from index `i` on can be embedded at or after
/// `cursor`, the scan from `cursor` finds it, and stops no later than just
/// past the last place of the embedding.
proof fn places_make_scan(
    query: Seq<char>,
    text: Seq<char>,
    i: int,
    cursor: int,
    places: Seq<int>,
)
    requires
        0 <= i <= query.len(),
        0 <= cursor,
        embeds_within(query.skip(i), text, places, cursor, text.len() as int),
    ensures
        scan_from(query, text, i, cursor) is Some,
        i < query.len() ==> scan_stop(query, text, i, cursor) <= places.last() + 1,
    decreases query.len() - i,
{
    if i < query.len() {
        assert(places[0] >= cursor);
        assert(text[places[0]] == query.skip(i)[0]);
        first_at_or_after_is_first(text, query[i], cursor);
        let p = first_at_or_after(text, query[i], cursor)->0;
        let later = places.skip(1);
        assert forall|k: int| 0 <= k < later.len() implies 0 <= #[trigger] later[k] < text.len()
            && text[later[k]] == query.skip(i + 1)[k] && later[k] >= p + 1 by {
            assert(later[k] == places[k + 1]);
            assert(places[0] < places[k + 1]);
            assert(query.skip(i + 1)[k] == query.skip(i)[k + 1]);
        }
        assert forall|j: int, k: int| 0 <= j < k < later.len() implies later[j] < later[k] by {
            assert(later[j] == places[j + 1]);
            assert(later[k] == places[k + 1]);
        }
        assert(embeds_within(query.skip(i + 1), text, later, p + 1, text.len() as int));
        places_make_scan(query, text, i + 1, p + 1, later);
        if i + 1 < query.len() {
            assert(later.last() == places.last());
        }
    }
}

/// The greedy scan succeeds on exactly the queries that are subsequences of
/// the text: taking each character at its first occurrence loses no match.
pub proof fn scan_succeeds_iff_subsequence(query: Seq<char>, text: Seq<char>)
    ensures
        scan_from(query, text, 0, 0) is Some <==> is_subsequence(query, text),
{
    assert(query.skip(0) =~= query);
    if scan_from(query, text, 0, 0) is Some {
        scan_gives_places(query, text, 0, 0);
    }
    if is_subsequence(query, text) {
        let places = choose|places: Seq<int>| embeds(query, text, places);
        places_make_scan(query, text, 0, 0, places);
    }
}

/// A query that matches scores eleven for each of its characters less the
/// length of the shortest prefix of the text that it is a subsequence of:
/// it is a subsequence of the first `n` characters of the text exactly when
/// `n` is at least eleven times its length less its score.
pub proof fn score_measures_shortest_prefix(query: Seq<char>, text: Seq<char>, n: int)
    requires
        query.len() > 0,
        is_subsequence(query, text),
        0 <= n <= text.len(),
    ensures
        is_subsequence(query, text.take(n)) <==> 11 * query.len() - score(query, text) <= n,
{
    assert(query.skip(0) =~= query);
    scan_succeeds_iff_subsequence(query, text);
    let stop = scan_stop(query, text, 0, 0);
    assert(stop == 11 * query.len() - score(query, text));
    if stop <= n {
        scan_gives_places(query, text, 0, 0);
        let places = choose|places: Seq<int>| embeds_within(query, text, places, 0, stop);
        assert(embeds(query, text.take(n), places));
    }
    if is_subsequence(query, text.take(n)) {
        let places = choose|places: Seq<int>| embeds(query, text.take(n), places);
        assert(embeds_within(query, text, places, 0, text.len() as int));
        places_make_scan(query, text, 0, 0, places);
        assert(places.last() < n);
    }
}

/// An empty query scores 100 against every text.
pub proof fn empty_query_scores_hundred(text: Seq<char>)
    ensures
        score(Seq::<char>::empty(), text) == 100,
{
}

/// A query that is not empty scores 0 against the empty text.
pub proof fn empty_text_scores_zero(query: Seq<char>)
    requires
        query.len() > 0,
    ensures
        score(query, Seq::<char>::empty()) == 0,
{
}

/// A query whose characters do not occur in the text in order scores
/// exactly 0, whatever the characters found before the scan failed had
/// earned.
pub proof fn no_subsequence_scores_zero(query: Seq<char>, text: Seq<char>)
    requires
        !is_subsequence(query, text),
    ensures
        score(query, text) == 0,
{
    scan_succeeds_iff_subsequence(query, text);
    if query.len() == 0 {
        assert(embeds(query, text, Seq::<int>::empty()));
    }
}

/// Where the query from index `i` on stands in the text at `cursor`,
/// character by character, the scan from `cursor` earns ten for each.
proof fn scan_of_adjacent_earns_most(query: Seq<char>, text: Seq<char>, i: int, cursor: int)
    requires
        0 <= i <= query.len(),
        0 <= cursor,
        cursor + (query.len() - i) <= text.len(),
        forall|k: int| i <= k < query.len() ==> text[cursor + (k - i)] == #[trigger] query[k],
    ensures
        scan_from(query, text, i, cursor) == Some(10 * (query.len() - i)),
    decreases query.len() - i,
{
    if i < query.len() {
        assert(text[cursor + (i - i)] == query[i]);
        assert forall|k: int| i + 1 <= k < query.len() implies text[cursor + 1 + (k - (i + 1))]
            == #[trigger] query[k] by {
            assert(cursor + 1 + (k - (i + 1)) == cursor + (k - i));
        }
        scan_of_adjacent_earns_most(query, text, i + 1, cursor + 1);
    }
}

/// A query that matches scores at most ten for each of its characters, and
/// at least eleven for each less the length of the text; and it is no longer
/// than the text.
pub proof fn matched_score_is_bounded(query: Seq<char>, text: Seq<char>)
    requires
        query.len() > 0,
        is_subsequence(query, text),
    ensures
        query.len() <= text.len(),
        11 * query.len() - text.len() <= score(query, text) <= 10 * query.len(),
{
    scan_succeeds_iff_subsequence(query, text);
    scan_earns_within_bounds(query, text, 0, 0);
}

/// A query that the text begins with scores ten for each of its characters,
/// the most that a query of its length can score.
pub proof fn prefix_scores_ten_each(query: Seq<char>, text: Seq<char>)
    requires
        query.len() > 0,
        query.is_prefix_of(text),
    ensures
        score(query, text) == 10 * query.len(),
{
    assert forall|k: int| 0 <= k < query.len() implies text[0 + (k - 0)] == #[trigger] query[k] by {
        assert(text.subrange(0, query.len() as int)[k] == text[k]);
    }
    scan_of_adjacent_earns_most(query, text, 0, 0);
}

/// Only the lowercase forms of the inputs count: two queries with one
/// lowercase form score alike against two texts with one lowercase form.
pub proof fn case_does_not_change_the_score(
    query: Seq<char>,
    text: Seq<char>,
    other_query: Seq<char>,
    other_text: Seq<char>,
)
    ensures
        lowercase(query) == lowercase(other_query) && lowercase(text) == lowercase(other_text)
            ==> fuzzy_score(query, text) == fuzzy_score(other_query, other_text),
{
}

/// The score depends on the two inputs and on nothing else: scoring equal
/// inputs again gives the same score.
pub proof fn equal_inputs_score_alike(
    query: Seq<char>,
    text: Seq<char>,
    other_query: Seq<char>,
    other_text: Seq<char>,
)
    requires
        query == other_query,
        text == other_text,
    ensures
        fuzzy_score(query, text) == fuzzy_score(other_query, other_text),
        score(query, text) == score(other_query, other_text),
{
}

} // verus!

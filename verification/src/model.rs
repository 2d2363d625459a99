//! The mathematical model of the matcher: sequences of characters, positions
//! counted in characters, and scores as unbounded integers.

use vstd::prelude::*;

verus! {

/// What a character found right at the cursor adds to the score.
pub const MATCH_REWARD: i32 = 10;

/// The score of an empty query, whatever the text.
pub const EMPTY_QUERY_SCORE: i32 = 100;

/// The score of a query that does not match.
pub const NO_MATCH_SCORE: i32 = 0;

/// Whether `places` gives each character of `query` a position in `text`
/// that holds it, the positions strictly increasing.
pub open spec fn embeds(query: Seq<char>, text: Seq<char>, places: Seq<int>) -> bool {
    &&& places.len() == query.len()
    &&& forall|k: int|
        0 <= k < places.len() ==> 0 <= #[trigger] places[k] < text.len() && text[places[k]]
            == query[k]
    &&& forall|j: int, k: int| 0 <= j < k < places.len() ==> places[j] < places[k]
}

/// Whether the characters of `query` occur in `text` in order, not
/// necessarily side by side.
pub open spec fn is_subsequence(query: Seq<char>, text: Seq<char>) -> bool {
    exists|places: Seq<int>| embeds(query, text, places)
}

/// The position of the first `c` in `text` at or after `from`, if there is one.
pub open spec fn first_at_or_after(text: Seq<char>, c: char, from: int) -> Option<int>
    decreases text.len() - from,
{
    if from < 0 || from >= text.len() {
        None
    } else if text[from] == c {
        Some(from)
    } else {
        first_at_or_after(text, c, from + 1)
    }
}

/// The greedy scan of `text` from `cursor` for the characters of `query` from
/// index `i` on: each character is taken at its first occurrence at or after
/// the cursor and adds `MATCH_REWARD` less its distance from the cursor; the
/// cursor then moves just past it. `None` when some character is not found.
pub open spec fn scan_from(query: Seq<char>, text: Seq<char>, i: int, cursor: int) -> Option<int>
    decreases query.len() - i,
{
    if i < 0 || i >= query.len() {
        Some(0)
    } else {
        match first_at_or_after(text, query[i], cursor) {
            None => None,
            Some(p) => match scan_from(query, text, i + 1, p + 1) {
                None => None,
                Some(rest) => Some(MATCH_REWARD - (p - cursor) + rest),
            },
        }
    }
}

/// The score of a query against a text, both already folded to one case.
pub open spec fn score(query: Seq<char>, text: Seq<char>) -> int {
    if query.len() == 0 {
        EMPTY_QUERY_SCORE as int
    } else if text.len() == 0 {
        NO_MATCH_SCORE as int
    } else {
        match scan_from(query, text, 0, 0) {
            Some(total) => total,
            None => NO_MATCH_SCORE as int,
        }
    }
}

} // verus!

//! The matcher: fold both inputs to lowercase, then score.

use vstd::prelude::*;
use vstd::string::StrSliceExecFns;
use crate::fold::lowercase;
use crate::model::{is_subsequence, score, EMPTY_QUERY_SCORE, NO_MATCH_SCORE};
use crate::scan::{score_folded, within_limits, MAX_QUERY_LEN, MAX_TEXT_LEN};

verus! {

/// The score of `query` against `text` without regard to case.
pub open spec fn fuzzy_score(query: Seq<char>, text: Seq<char>) -> int {
    score(lowercase(query), lowercase(text))
}

/// Whether `fuzzy_match` can score `query` against `text`: one of them is
/// empty, or their lowercase forms are within the limits of the scorer.
pub open spec fn scorable(query: Seq<char>, text: Seq<char>) -> bool {
    ||| query.len() == 0
    ||| text.len() == 0
    ||| within_limits(lowercase(query), lowercase(text))
}

/// Scores `query` against `text` without regard to case: 100 for an empty
/// query, 0 for an empty text or a query whose lowercase form is no
/// subsequence of that of the text, else the sum of what each character of
/// the query earns.
pub fn fuzzy_match(query: &str, text: &str) -> (result: i32)
    requires
        scorable(query@, text@),
    ensures
        result == fuzzy_score(query@, text@),
        query@.len() == 0 ==> result == EMPTY_QUERY_SCORE,
        query@.len() > 0 && text@.len() == 0 ==> result == NO_MATCH_SCORE,
        !is_subsequence(lowercase(query@), lowercase(text@)) ==> result == NO_MATCH_SCORE,
{
    let query = query.to_lowercase();
    let text = text.to_lowercase();
    score_folded(query.as_str(), text.as_str())
}

/// Scores `query` against `text` as `fuzzy_match` does, or returns `None`
/// where their lowercase forms are too long for it.
pub fn checked_fuzzy_match(query: &str, text: &str) -> (result: Option<i32>)
    ensures
        result is Some <==> scorable(query@, text@),
        result matches Some(value) ==> value == fuzzy_score(query@, text@),
        query@.len() == 0 ==> result == Some(EMPTY_QUERY_SCORE),
        query@.len() > 0 && text@.len() == 0 ==> result == Some(NO_MATCH_SCORE),
{
    if query.is_empty() || text.is_empty() {
        return Some(fuzzy_match(query, text));
    }
    let folded_query = query.to_lowercase();
    let folded_text = text.to_lowercase();
    if folded_query.as_str().unicode_len() <= MAX_QUERY_LEN
        && folded_text.as_str().unicode_len() <= MAX_TEXT_LEN {
        Some(fuzzy_match(query, text))
    } else {
        None
    }
}

} // verus!

//! The scorer on case-folded input: one forward pass over the text.

use vstd::prelude::*;
use vstd::std_specs::iter::IteratorSpec;
use crate::laws::no_subsequence_scores_zero;
use crate::model::{
    first_at_or_after, is_subsequence, scan_from, score, EMPTY_QUERY_SCORE, MATCH_REWARD,
    NO_MATCH_SCORE,
};

verus! {

/// The longest query that is scanned for: ten times its length, the most it
/// can earn, still fits the result.
pub const MAX_QUERY_LEN: usize = 214_748_364;

/// The longest text that is scanned: its length, the most a match can lose,
/// still fits the result.
pub const MAX_TEXT_LEN: usize = 2_147_483_647;

/// Whether the score of `query` against `text` is sure to fit the result
/// type: nothing is scanned where either is empty, and else both are within
/// their limits, counted in characters.
pub open spec fn within_limits(query: Seq<char>, text: Seq<char>) -> bool {
    ||| query.len() == 0
    ||| text.len() == 0
    ||| (query.len() <= MAX_QUERY_LEN && text.len() <= MAX_TEXT_LEN)
}

/// Scores `query` against `text`, comparing characters as they stand: 100
/// for an empty query, 0 where the characters of the query do not occur in
/// the text in order, else the sum of what the greedy scan earns.
pub fn score_folded(query: &str, text: &str) -> (result: i32)
    requires
        within_limits(query@, text@),
    ensures
        result == score(query@, text@),
        !is_subsequence(query@, text@) ==> result == NO_MATCH_SCORE,
{
    proof {
        if !is_subsequence(query@, text@) {
            no_subsequence_scores_zero(query@, text@);
        }
    }
    if query.is_empty() {
        return EMPTY_QUERY_SCORE;
    }
    if text.is_empty() {
        return NO_MATCH_SCORE;
    }
    let mut wanted = query.chars();
    let mut rest = text.chars();
    let mut total: i32 = 0;
    let ghost mut i: int = 0;
    let ghost mut cursor: int = 0;
    loop
        invariant
            query@.len() <= MAX_QUERY_LEN,
            text@.len() <= MAX_TEXT_LEN,
            query@.len() > 0,
            text@.len() > 0,
            is_subsequence(query@, text@) || score(query@, text@) == NO_MATCH_SCORE,
            0 <= i <= query@.len(),
            0 <= cursor <= text@.len(),
            i <= cursor,
            wanted.remaining() == query@.skip(i),
            rest.remaining() == text@.skip(cursor),
            total == 11 * i - cursor,
            scan_from(query@, text@, 0, 0) == match scan_from(query@, text@, i, cursor) {
                Some(more) => Some(total + more),
                None => None,
            },
        decreases query@.len() - i,
    {
        let c = match wanted.next() {
            Some(c) => c,
            None => {
                return total;
            },
        };
        let mut gap: i32 = 0;
        loop
            invariant_except_break
                rest.remaining() == text@.skip(cursor + gap),
            invariant
                query@.len() <= MAX_QUERY_LEN,
                text@.len() <= MAX_TEXT_LEN,
                query@.len() > 0,
                text@.len() > 0,
                0 <= i < query@.len(),
                c == query@[i],
                0 <= cursor <= text@.len(),
                0 <= gap,
                cursor + gap <= text@.len(),
                first_at_or_after(text@, c, cursor) == first_at_or_after(text@, c, cursor + gap),
                scan_from(query@, text@, 0, 0) == match scan_from(query@, text@, i, cursor) {
                    Some(more) => Some(total + more),
                    None => None,
                },
            ensures
                0 <= cursor + gap < text@.len(),
                text@[cursor + gap] == c,
                rest.remaining() == text@.skip(cursor + gap + 1),
            decreases text@.len() - cursor - gap,
        {
            match rest.next() {
                None => {
                    return NO_MATCH_SCORE;
                },
                Some(t) => {
                    assert(text@.skip(cursor + gap).drop_first() =~= text@.skip(cursor + gap + 1));
                    if t == c {
                        break;
                    }
                    gap = gap + 1;
                },
            }
        }
        assert(query@.skip(i).drop_first() =~= query@.skip(i + 1));
        total = total + (MATCH_REWARD - gap);
        proof {
            cursor = cursor + gap + 1;
            i = i + 1;
        }
    }
}

} // verus!

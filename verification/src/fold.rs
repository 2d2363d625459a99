//! Case folding, which is left to the standard library.

use vstd::prelude::*;

verus! {

/// The lowercase form of a sequence of characters under the standard
/// library's Unicode case mapping, which knows no locale.
pub uninterp spec fn lowercase(s: Seq<char>) -> Seq<char>;

/// `str::to_lowercase` is taken on trust: what it returns depends on the
/// characters of `s` alone and is called `lowercase(s@)` here, and, since it
/// maps every character to one character or more, the result is empty
/// exactly when `s` is.
pub assume_specification[ str::to_lowercase ](s: &str) -> (folded: String)
    ensures
        folded@ == lowercase(s@),
        folded@.len() == 0 <==> s@.len() == 0,
;

} // verus!

//! Searching in strings.

use vstd::prelude::*;
use crate::semantics::is_substring;

verus! {

/// Whether `pat` occurs in `text`. This is `str::contains` of the standard
/// library with a string as the pattern, which is true exactly when the
/// pattern matches a part of the text; the contract is taken on trust.
#[verifier::external_body]
pub(crate) fn str_contains(text: &str, pat: &str) -> (r: bool)
    ensures
        r == is_substring(pat@, text@),
{
    text.contains(pat)
}

} // verus!

//! Matching strings against regular expressions, through the `regex` crate.

use vstd::prelude::*;
use regex::Regex;

verus! {

/// Whether `re` is a regular expression that `regex::Regex::new` accepts.
pub uninterp spec fn regex_valid(re: Seq<char>) -> bool;

/// Whether `regex::Regex::is_match` finds the compiled `re` in `text`.
pub uninterp spec fn regex_is_match(re: Seq<char>, text: Seq<char>) -> bool;

/// Compiles `re` with `regex::Regex::new` and, where that succeeds, tells
/// whether `Regex::is_match` finds it in `text`. Claimed: the result is
/// `None` exactly when `re` does not compile, and otherwise the answer of
/// `is_match`; what either computes is not stated beyond these names.
#[verifier::external_body]
pub(crate) fn regex_match(re: &str, text: &str) -> (r: Option<bool>)
    ensures
        r is Some <==> regex_valid(re@),
        r matches Some(b) ==> b == regex_is_match(re@, text@),
{
    match Regex::new(re) {
        Ok(compiled) => Some(compiled.is_match(text)),
        Err(_) => None,
    }
}

} // verus!

//! Bridges to std's string handling — lowercasing and substring search —
//! which the name-search operations build on.

use vstd::prelude::*;

verus! {

/// What `str::to_lowercase` returns: the Unicode-lowercased text.
pub uninterp spec fn lower_of(s: Seq<char>) -> Seq<char>;

/// `needle` stands at position `i` of `hay`.
pub open spec fn substring_at(hay: Seq<char>, needle: Seq<char>, i: int) -> bool {
    0 <= i && i + needle.len() <= hay.len() && hay.subrange(i, i + needle.len()) == needle
}

/// `needle` occurs contiguously somewhere inside `hay`.
pub open spec fn is_substring(needle: Seq<char>, hay: Seq<char>) -> bool {
    exists|i: int| substring_at(hay, needle, i)
}

/// Relies on `str::to_lowercase`: the result is the lowercase mapping of the
/// input, and depends on the input's characters alone; an empty string stays
/// empty.
#[verifier::external_body]
pub fn lowercase(s: &str) -> (r: String)
    ensures
        r@ == lower_of(s@),
        s@.len() == 0 ==> r@.len() == 0,
{
    s.to_lowercase()
}

/// Relies on `str::contains` with a `&str` pattern: true exactly when the
/// pattern occurs as a contiguous substring of the text.
#[verifier::external_body]
pub fn contains_sub(hay: &str, needle: &str) -> (r: bool)
    ensures
        r == is_substring(needle@, hay@),
{
    hay.contains(needle)
}

} // verus!

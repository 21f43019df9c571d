//! Text matching primitives for the query engine.
//!
//! Substring containment and prefix tests are stated exactly over the
//! character sequences of the strings involved. Case folding has no short
//! mathematical statement, so its result is only given a name, `lower_of`;
//! every contract that depends on it speaks of that name.

use vstd::prelude::*;

verus! {

/// `needle` occurs contiguously somewhere in `hay`.
pub open spec fn contains_seq(hay: Seq<char>, needle: Seq<char>) -> bool {
    exists|i: int|
        0 <= i && i + needle.len() <= hay.len() && #[trigger] hay.subrange(i, i + needle.len())
            == needle
}

/// The character sequence `str::to_lowercase` produces: a locale-independent
/// case fold, a function of the input characters alone.
pub uninterp spec fn lower_of(s: Seq<char>) -> Seq<char>;

/// Substring containment on `hay`, after lower-casing both sides when
/// `case_sensitive` is false.
pub open spec fn text_matches(hay: Seq<char>, needle: Seq<char>, case_sensitive: bool) -> bool {
    if case_sensitive {
        contains_seq(hay, needle)
    } else {
        contains_seq(lower_of(hay), lower_of(needle))
    }
}

/// Relies on `str::contains` with a `&str` pattern: true exactly when the
/// pattern matches a sub-slice of `hay`; on valid UTF-8 a byte sub-slice
/// always falls on character boundaries, so this is containment of the
/// character sequence.
#[verifier::external_body]
pub fn str_contains(hay: &str, needle: &str) -> (r: bool)
    ensures
        r == contains_seq(hay@, needle@),
{
    hay.contains(needle)
}

/// Relies on `str::starts_with` with a `&str` pattern: true exactly when the
/// pattern is a prefix of `s`.
#[verifier::external_body]
pub fn str_starts_with(s: &str, prefix: &str) -> (r: bool)
    ensures
        r == prefix@.is_prefix_of(s@),
{
    s.starts_with(prefix)
}

/// Relies on `str`'s `PartialEq`: equality of the two character sequences.
#[verifier::external_body]
pub fn str_eq(a: &str, b: &str) -> (r: bool)
    ensures
        r == (a@ == b@),
{
    a == b
}

/// Relies on `str::to_lowercase`: the result depends on the characters alone.
#[verifier::external_body]
pub fn to_lowercase(s: &str) -> (r: String)
    ensures
        r@ == lower_of(s@),
{
    s.to_lowercase()
}

/// Containment with an optional case fold of the haystack. The needle is
/// handed in already folded when `case_sensitive` is false, so that one fold
/// of the query serves a whole scan.
pub fn matches_folded(hay: &str, needle: &str, case_sensitive: bool) -> (r: bool)
    ensures
        r == (if case_sensitive {
            contains_seq(hay@, needle@)
        } else {
            contains_seq(lower_of(hay@), needle@)
        }),
{
    if case_sensitive {
        str_contains(hay, needle)
    } else {
        let lowered = to_lowercase(hay);
        str_contains(lowered.as_str(), needle)
    }
}

} // verus!

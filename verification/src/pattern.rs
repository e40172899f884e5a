//! Searches with regular expressions, done by the `regex` crate.
//!
//! What a pattern matches in a text is not stated here: each search has a
//! name, a function of the pattern and the text, and the contracts of the
//! library speak of these names.

use regex::Regex;
use vstd::prelude::*;

verus! {

/// The text that the capture group `group` holds in the first match of
/// `pattern` in `text`. It is `None` where `pattern` is no valid pattern,
/// where it matches nowhere in `text`, and where the group took no part in
/// the match.
pub uninterp spec fn captured(pattern: Seq<char>, group: Seq<char>, text: Seq<char>) -> Option<
    Seq<char>,
>;

/// The texts of the successive matches of `pattern` in `text`, left to
/// right, none overlapping another. It is empty where `pattern` is no
/// valid pattern.
pub uninterp spec fn matches_of(pattern: Seq<char>, text: Seq<char>) -> Seq<Seq<char>>;

/// The texts that the strings of `v` hold.
pub open spec fn texts_of(v: Seq<String>) -> Seq<Seq<char>> {
    v.map_values(|t: String| t@)
}

/// `Regex::new`, `Regex::captures` and `Captures::name` of the `regex`
/// crate: compiles `pattern`, searches `text` for its first match and hands
/// out what the group named `group` holds there. Nothing is claimed of the
/// result but that it depends on the three arguments alone.
#[verifier::external_body]
pub(crate) fn capture(pattern: &str, group: &str, text: &str) -> (r: Option<String>)
    ensures
        match captured(pattern@, group@, text@) {
            Some(held) => r is Some && r->Some_0@ == held,
            None => r is None,
        },
{
    match Regex::new(pattern) {
        Ok(re) => re.captures(text).and_then(|found| found.name(group)).map(
            |held| held.as_str().to_owned(),
        ),
        Err(_) => None,
    }
}

/// `Regex::new` and `Regex::find_iter` of the `regex` crate: compiles
/// `pattern` and hands out the text of each successive match in `text`.
/// Nothing is claimed of the result but that it depends on the two
/// arguments alone.
#[verifier::external_body]
pub(crate) fn find_all(pattern: &str, text: &str) -> (r: Vec<String>)
    ensures
        texts_of(r@) == matches_of(pattern@, text@),
{
    match Regex::new(pattern) {
        Ok(re) => re.find_iter(text).map(|found| found.as_str().to_owned()).collect(),
        Err(_) => Vec::new(),
    }
}

/// The texts between the successive matches of `pattern` in `text`: what
/// stands before the first match, between one match and the next, and
/// behind the last. It is `text` alone where `pattern` is no valid
/// pattern.
pub uninterp spec fn gaps_of(pattern: Seq<char>, text: Seq<char>) -> Seq<Seq<char>>;

/// `gaps` and `fills` in turn, up to the gap with the index `k`: the
/// first gap, the first fill, the second gap, and so on.
pub open spec fn woven(gaps: Seq<Seq<char>>, fills: Seq<Seq<char>>, k: int) -> Seq<char>
    decreases k,
{
    if k <= 0 {
        gaps[0]
    } else {
        woven(gaps, fills, k - 1) + fills[k - 1] + gaps[k]
    }
}

/// `Regex::new` and `Regex::split` of the `regex` crate: compiles
/// `pattern` and hands out the stretches of `text` that its successive
/// matches delimit. As the crate's `Split` yields what stands before each
/// match of `Regex::find_iter` and at last what stands behind the last
/// one, there is one stretch more than there are matches, and stretches
/// and matches in turn make up `text`.
#[verifier::external_body]
pub(crate) fn split_all(pattern: &str, text: &str) -> (r: Vec<String>)
    ensures
        texts_of(r@) == gaps_of(pattern@, text@),
        r@.len() == matches_of(pattern@, text@).len() + 1,
        woven(texts_of(r@), matches_of(pattern@, text@), r@.len() - 1) == text@,
{
    match Regex::new(pattern) {
        Ok(re) => re.split(text).map(|gap| gap.to_owned()).collect(),
        Err(_) => vec![text.to_owned()],
    }
}

} // verus!

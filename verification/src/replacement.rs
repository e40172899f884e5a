//! Replacement of every match of a pattern by what a function makes of it.

use crate::error::{ScrapeError, ScrapeErrorView};
use crate::pattern::{find_all, gaps_of, matches_of, split_all, texts_of, woven};
use vstd::prelude::*;
use vstd::string::StringExecFns;

verus! {

/// A call of `f` on a string that holds `piece` can return a string that
/// holds `fill`.
pub open spec fn gives<F: Fn(&str) -> Result<String, ScrapeError>>(
    f: F,
    piece: Seq<char>,
    fill: Seq<char>,
) -> bool {
    exists|given: &str, made: String|
        given@ == piece && made@ == fill && call_ensures(f, (given,), Ok(made))
}

/// A call of `f` on a string that holds `piece` can fail with `e`.
pub open spec fn refuses<F: Fn(&str) -> Result<String, ScrapeError>>(
    f: F,
    piece: Seq<char>,
    e: ScrapeErrorView,
) -> bool {
    exists|given: &str, error: ScrapeError|
        given@ == piece && error@ == e && call_ensures(f, (given,), Err(error))
}

/// `r` is what comes of putting, between the stretches `gaps`, what
/// `replace_fn` makes of each of the pieces `found`: the text woven of
/// the stretches and of one result for each piece, or the error of a
/// piece that `replace_fn` refuses after it gave a result for each piece
/// before it.
pub open spec fn replaced<F: Fn(&str) -> Result<String, ScrapeError>>(
    gaps: Seq<Seq<char>>,
    found: Seq<Seq<char>>,
    replace_fn: F,
    r: Result<String, ScrapeError>,
) -> bool {
    match r {
        Ok(text) => exists|fills: Seq<Seq<char>>|
            fills.len() == found.len() && text@ == woven(gaps, fills, found.len() as int) && forall|
                k: int,
            |
                0 <= k < found.len() ==> gives(replace_fn, found[k], #[trigger] fills[k]),
        Err(e) => exists|k: int, fills: Seq<Seq<char>>|
            0 <= k < found.len() && fills.len() == k && refuses(replace_fn, found[k], e@) && forall|
                j: int,
            |
                0 <= j < k ==> gives(replace_fn, found[j], #[trigger] fills[j]),
    }
}

proof fn lemma_woven_grows(gaps: Seq<Seq<char>>, fills: Seq<Seq<char>>, fill: Seq<char>, k: int)
    requires
        0 <= k <= fills.len(),
        k < gaps.len(),
    ensures
        woven(gaps, fills.push(fill), k) == woven(gaps, fills, k),
    decreases k,
{
    if k > 0 {
        lemma_woven_grows(gaps, fills, fill, k - 1);
    }
}

/// Weaves the stretches `gaps` and what `replace_fn` makes of each of the
/// pieces `found`, in turn. The first piece that `replace_fn` refuses
/// ends the work with its error.
pub fn replace_pieces<F: Fn(&str) -> Result<String, ScrapeError>>(
    gaps: &Vec<String>,
    found: &Vec<String>,
    replace_fn: F,
) -> (r: Result<String, ScrapeError>)
    requires
        gaps@.len() == found@.len() + 1,
        forall|piece: &str| call_requires(replace_fn, (piece,)),
    ensures
        replaced(texts_of(gaps@), texts_of(found@), replace_fn, r),
{
    let mut out = String::from_str(gaps[0].as_str());
    let ghost mut fills: Seq<Seq<char>> = Seq::empty();
    let mut k: usize = 0;
    while k < found.len()
        invariant
            k <= found@.len(),
            gaps@.len() == found@.len() + 1,
            forall|piece: &str| call_requires(replace_fn, (piece,)),
            fills.len() == k,
            out@ == woven(texts_of(gaps@), fills, k as int),
            forall|j: int|
                0 <= j < k ==> gives(replace_fn, texts_of(found@)[j], #[trigger] fills[j]),
        decreases found@.len() - k,
    {
        let piece = found[k].as_str();
        match replace_fn(piece) {
            Ok(made) => {
                out.append(made.as_str());
                out.append(gaps[k + 1].as_str());
                proof {
                    lemma_woven_grows(texts_of(gaps@), fills, made@, k as int);
                    assert(gives(replace_fn, texts_of(found@)[k as int], made@));
                    fills = fills.push(made@);
                }
            },
            Err(e) => {
                proof {
                    assert(refuses(replace_fn, texts_of(found@)[k as int], e@));
                }
                return Err(e);
            },
        }
        k += 1;
    }
    Ok(out)
}

/// Replaces every match of the pattern `regex` in `text` by what
/// `replace_fn` makes of it, and leaves what stands between the matches.
/// The first match that `replace_fn` refuses ends the work with its
/// error. A pattern that is not valid matches nothing.
pub fn replace_matches<F: Fn(&str) -> Result<String, ScrapeError>>(
    text: &str,
    regex: &str,
    replace_fn: F,
) -> (r: Result<String, ScrapeError>)
    requires
        forall|piece: &str| call_requires(replace_fn, (piece,)),
    ensures
        replaced(gaps_of(regex@, text@), matches_of(regex@, text@), replace_fn, r),
        gaps_of(regex@, text@).len() == matches_of(regex@, text@).len() + 1,
        woven(
            gaps_of(regex@, text@),
            matches_of(regex@, text@),
            matches_of(regex@, text@).len() as int,
        ) == text@,
{
    let found = find_all(regex, text);
    let gaps = split_all(regex, text);
    replace_pieces(&gaps, &found, replace_fn)
}

} // verus!

//! Normalization of a text blob: tag repair, fix-ups, and the check of
//! the invariants that normalized text obeys.

use crate::chars::{chars_of, string_of, trim, trim_chars};
use crate::check::{find_violation, first_violation, is_normalized};
use crate::error::{ScrapeError, ScrapeErrorView};
use crate::fixup::{
    close_links, close_links_chars, hoist_back, hoist_back_chars, hoist_front, hoist_front_chars,
    join_lines, move_colons, move_colons_chars, squeeze, squeeze_spaces, tighten_breaks,
    tighten_breaks_chars,
};
use crate::token::{fix_tags, fix_tags_chars};
use vstd::prelude::*;

verus! {

/// The fix-ups that follow the repair of the tags, in order: links are
/// closed, white space is moved out of spans, colons are moved in front of
/// tags closing emphasis, runs of spaces become one space, white space
/// around line breaks goes, and the whole is trimmed.
pub open spec fn tidy(s: Seq<char>) -> Seq<char> {
    trim(
        tighten_breaks(squeeze_spaces(move_colons(hoist_back(hoist_front(close_links(s)))))),
    )
}

/// What `normalize_text` returns for the text `raw`.
pub open spec fn normalize_text_spec(raw: Seq<char>) -> Result<Seq<char>, ScrapeErrorView> {
    match fix_tags(join_lines(raw)) {
        Ok(fixed) => match first_violation(tidy(fixed)) {
            None => Ok(tidy(fixed)),
            Some(name) => Err(ScrapeErrorView::HTMLFixing(name)),
        },
        Err(e) => Err(e),
    }
}

/// The fix-ups that follow the repair of the tags.
pub fn tidy_chars(text: &Vec<char>) -> (r: Vec<char>)
    ensures
        r@ == tidy(text@),
{
    let closed = close_links_chars(text);
    let front = hoist_front_chars(&closed);
    let back = hoist_back_chars(&front);
    let colons = move_colons_chars(&back);
    let spaces = squeeze(&colons, ' ', ' ');
    let breaks = tighten_breaks_chars(&spaces);
    trim_chars(&breaks)
}

/// Normalizes a text blob.
///
/// Line feeds become spaces, every tag-like token is brought into
/// canonical form, and the fix-ups of `tidy` are applied. The result is
/// then held against the invariants of normalized text. A token of no
/// kind, or an invariant that does not hold in the end, makes the call
/// fail with an error that names it; nothing is repaired beyond that.
pub fn normalize_text(text: &str) -> (r: Result<String, ScrapeError>)
    ensures
        match normalize_text_spec(text@) {
            Ok(normal) => r is Ok && r->Ok_0@ == normal,
            Err(e) => r is Err && r->Err_0@ == e,
        },
        r is Ok ==> is_normalized(r->Ok_0@),
{
    let raw = chars_of(text);
    let joined = squeeze(&raw, '\n', ' ');
    match fix_tags_chars(&joined) {
        Ok(fixed) => {
            let tidied = tidy_chars(&fixed);
            match find_violation(&tidied) {
                Some(name) => Err(ScrapeError::html_fixing(name)),
                None => Ok(string_of(&tidied)),
            }
        },
        Err(e) => Err(e),
    }
}

} // verus!

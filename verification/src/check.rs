//! The invariants that normalized text obeys, and their check.

use crate::chars::{
    chars_of, find_char, find_char_in, has_at, is_letter_char, is_lower, is_space, is_space_char,
    is_upper, lemma_find_char_bounds, lit_at, push_range,
};
use crate::error::{ScrapeError, ScrapeErrorView};
use crate::fixup::link_start;
use crate::tag::{is_address_char, is_address_char_exec};
use crate::translation::{has_char, has_lit, link_head, link_tail, occurs};
use crate::url::{lemma_letters_end_bounds, letters_end};
use vstd::prelude::*;

verus! {

/// The name of a tag that starts at `i` holds an upper-case letter. The
/// name is the run of letters behind `<` or `</`.
pub open spec fn upper_tag_at(s: Seq<char>, i: int) -> bool {
    let name = if i + 1 < s.len() && s[i + 1] == '/' {
        i + 2
    } else {
        i + 1
    };
    0 <= i < s.len() && s[i] == '<' && exists|k: int|
        name <= k < letters_end(s, name) && is_upper(#[trigger] s[k])
}

/// Something that looks like the start of an opening link starts at `i`:
/// `<a` and white space, or `<ahref`.
pub open spec fn link_like_at(s: Seq<char>, i: int) -> bool {
    has_at(s, i, "<ahref"@) || (has_at(s, i, link_start()) && i + link_start().len() < s.len()
        && is_space(s[i + link_start().len()]))
}

/// The end of the run of address characters that starts at `i`.
pub open spec fn address_end(s: Seq<char>, i: int) -> int
    decreases s.len() - i,
{
    if 0 <= i < s.len() && is_address_char(s[i]) {
        address_end(s, i + 1)
    } else {
        i
    }
}

/// A canonical opening link starts at `i`.
pub open spec fn link_at(s: Seq<char>, i: int) -> bool {
    let url = i + link_head().len();
    has_at(s, i, link_head()) && url < address_end(s, url) && has_at(
        s,
        address_end(s, url),
        link_tail(),
    )
}

/// How many indices from `i` on look like the start of an opening link.
pub open spec fn count_link_like(s: Seq<char>, i: int) -> nat
    decreases s.len() - i,
{
    if i < 0 || i >= s.len() {
        0
    } else if link_like_at(s, i) {
        1 + count_link_like(s, i + 1)
    } else {
        count_link_like(s, i + 1)
    }
}

/// How many canonical opening links start at indices from `i` on.
pub open spec fn count_links(s: Seq<char>, i: int) -> nat
    decreases s.len() - i,
{
    if i < 0 || i >= s.len() {
        0
    } else if link_at(s, i) {
        1 + count_links(s, i + 1)
    } else {
        count_links(s, i + 1)
    }
}

/// Where the tag without white space ends that starts at `i`: `<`, at
/// least one character, and the nearest `>` behind it, with no white space
/// in between.
pub open spec fn solid_tag_end(s: Seq<char>, i: int) -> Option<int> {
    let gt = find_char(s, i + 2, '>');
    if 0 <= i < s.len() && s[i] == '<' && gt < s.len() && forall|k: int|
        i < k < gt ==> !is_space(#[trigger] s[k]) {
        Some(gt + 1)
    } else {
        None
    }
}

/// `t` has the shape of a canonical closing tag: `</`, lower-case letters
/// and `>`.
pub open spec fn is_closing_shape(t: Seq<char>) -> bool {
    t.len() >= 4 && t[0] == '<' && t[1] == '/' && t[t.len() - 1] == '>' && forall|k: int|
        2 <= k < t.len() - 1 ==> is_lower(#[trigger] t[k])
}

/// Among the tags without white space that `s` holds from index `i` on,
/// taken left to right, one holds a slash and is no canonical closing tag.
pub open spec fn bad_closing_from(s: Seq<char>, i: int) -> bool
    decreases s.len() - i,
    via bad_closing_from_decreases
{
    if i < 0 || i >= s.len() {
        false
    } else {
        match solid_tag_end(s, i) {
            Some(end) => (s.subrange(i, end).contains('/') && !is_closing_shape(
                s.subrange(i, end),
            )) || bad_closing_from(s, end),
            None => bad_closing_from(s, i + 1),
        }
    }
}

#[via_fn]
proof fn bad_closing_from_decreases(s: Seq<char>, i: int) {
    if 0 <= i && i + 2 <= s.len() {
        lemma_find_char_bounds(s, i + 2, '>');
    }
}

/// The invariants of normalized text, in the order in which they are
/// checked, each with the sentence that names it.
pub open spec fn first_violation(s: Seq<char>) -> Option<Seq<char>> {
    if s.len() > 0 && is_space(s[0]) {
        Some("Empty space at beginning of text"@)
    } else if s.len() > 0 && is_space(s[s.len() - 1]) {
        Some("Empty space at end of text"@)
    } else if occurs(s, "</b>:"@) || occurs(s, "</i>:"@) {
        Some("Colon after closing </b> or </i> tag"@)
    } else if occurs(s, "\n\n\n"@) {
        Some("More than 2 consecutive newlines"@)
    } else if occurs(s, "  "@) {
        Some("More than 1 consecutive space"@)
    } else if exists|i: int| upper_tag_at(s, i) {
        Some("Upper case tag"@)
    } else if count_link_like(s, 0) != count_links(s, 0) {
        Some("Link opening tag with bad format"@)
    } else if bad_closing_from(s, 0) {
        Some("Closing tag with bad format"@)
    } else {
        None
    }
}

/// `s` obeys the invariants of normalized text.
pub open spec fn is_normalized(s: Seq<char>) -> bool {
    first_violation(s) is None
}

fn upper_tag_in(text: &Vec<char>, i: usize) -> (b: bool)
    requires
        i < text.len(),
    ensures
        b == upper_tag_at(text@, i as int),
{
    let n = text.len();
    if text[i] != '<' {
        return false;
    }
    let name = if i + 1 < n && text[i + 1] == '/' {
        i + 2
    } else {
        i + 1
    };
    let mut k = name;
    while k < n && is_letter_char(text[k])
        invariant
            name <= k <= n,
            n == text.len(),
            i < n,
            text@[i as int] == '<',
            name == if i + 1 < n && text@[i + 1] == '/' {
                i + 2
            } else {
                i + 1
            },
            letters_end(text@, name as int) == letters_end(text@, k as int),
            forall|j: int| name <= j < k ==> !is_upper(#[trigger] text@[j]),
        decreases n - k,
    {
        if 'A' <= text[k] && text[k] <= 'Z' {
            proof {
                lemma_letters_end_bounds(text@, k + 1);
            }
            assert(is_upper(text@[k as int]));
            return true;
        }
        k += 1;
    }
    false
}

/// Tells whether the name of some tag of `text` holds an upper-case letter.
pub fn has_upper_tag(text: &Vec<char>) -> (b: bool)
    ensures
        b == exists|i: int| upper_tag_at(text@, i),
{
    let mut i: usize = 0;
    while i < text.len()
        invariant
            i <= text.len(),
            forall|j: int| 0 <= j < i ==> !upper_tag_at(text@, j),
        decreases text.len() - i,
    {
        if upper_tag_in(text, i) {
            return true;
        }
        i += 1;
    }
    false
}

/// How many indices of `text` look like the start of an opening link.
pub fn count_link_like_in(text: &Vec<char>) -> (r: usize)
    ensures
        r == count_link_like(text@, 0),
{
    let n = text.len();
    let n_start = "<a".unicode_len();
    let mut count: usize = 0;
    let mut i = n;
    while i > 0
        invariant
            i <= n,
            n == text.len(),
            n_start == link_start().len(),
            count == count_link_like(text@, i as int),
            count <= n - i,
        decreases i,
    {
        i -= 1;
        if lit_at(text, i, "<ahref") || (lit_at(text, i, "<a") && n - i > n_start && is_space_char(
            text[i + n_start],
        )) {
            count += 1;
        }
    }
    count
}

fn link_in(text: &Vec<char>, i: usize) -> (b: bool)
    requires
        i < text.len(),
    ensures
        b == link_at(text@, i as int),
{
    let n = text.len();
    if !lit_at(text, i, "<a href=\"") {
        return false;
    }
    let url = i + "<a href=\"".unicode_len();
    let mut e = url;
    while e < n && is_address_char_exec(text[e])
        invariant
            url <= e <= n,
            n == text.len(),
            address_end(text@, url as int) == address_end(text@, e as int),
        decreases n - e,
    {
        e += 1;
    }
    url < e && lit_at(text, e, "\">")
}

/// How many canonical opening links `text` holds.
pub fn count_links_in(text: &Vec<char>) -> (r: usize)
    ensures
        r == count_links(text@, 0),
{
    let n = text.len();
    let mut count: usize = 0;
    let mut i = n;
    while i > 0
        invariant
            i <= n,
            n == text.len(),
            count == count_links(text@, i as int),
            count <= n - i,
        decreases i,
    {
        i -= 1;
        if link_in(text, i) {
            count += 1;
        }
    }
    count
}

fn solid_tag_end_in(text: &Vec<char>, i: usize) -> (r: Option<usize>)
    requires
        i < text.len(),
    ensures
        match r {
            Some(e) => solid_tag_end(text@, i as int) == Some(e as int) && i < e <= text.len(),
            None => solid_tag_end(text@, i as int) is None,
        },
{
    let n = text.len();
    if text[i] != '<' || n - i < 2 {
        return None;
    }
    let gt = find_char_in(text, i + 2, '>');
    if gt >= n {
        return None;
    }
    let mut k = i + 1;
    while k < gt
        invariant
            i < k <= gt < n,
            n == text.len(),
            text@[i as int] == '<',
            gt == find_char(text@, i + 2, '>'),
            forall|j: int| i < j < k ==> !is_space(#[trigger] text@[j]),
        decreases gt - k,
    {
        if is_space_char(text[k]) {
            assert(is_space(text@[k as int]));
            return None;
        }
        k += 1;
    }
    Some(gt + 1)
}

fn is_closing_shape_chars(t: &Vec<char>) -> (b: bool)
    ensures
        b == is_closing_shape(t@),
{
    let n = t.len();
    if n < 4 || t[0] != '<' || t[1] != '/' || t[n - 1] != '>' {
        return false;
    }
    let mut k: usize = 2;
    while k < n - 1
        invariant
            2 <= k <= n - 1,
            n == t.len(),
            forall|j: int| 2 <= j < k ==> is_lower(#[trigger] t@[j]),
        decreases n - k,
    {
        if !('a' <= t[k] && t[k] <= 'z') {
            assert(!is_lower(t@[k as int]));
            return false;
        }
        k += 1;
    }
    true
}

/// Tells whether `text` holds a tag with a slash that is no canonical
/// closing tag.
pub fn has_bad_closing(text: &Vec<char>) -> (b: bool)
    ensures
        b == bad_closing_from(text@, 0),
{
    let mut i: usize = 0;
    while i < text.len()
        invariant
            i <= text.len(),
            bad_closing_from(text@, 0) == bad_closing_from(text@, i as int),
        decreases text.len() - i,
    {
        match solid_tag_end_in(text, i) {
            Some(end) => {
                let mut tag: Vec<char> = Vec::new();
                push_range(&mut tag, text, i, end);
                assert(tag@ =~= text@.subrange(i as int, end as int));
                if has_char(&tag, '/') && !is_closing_shape_chars(&tag) {
                    return true;
                }
                i = end;
            },
            None => {
                i += 1;
            },
        }
    }
    false
}

/// The sentence that names the first invariant of normalized text that
/// `text` breaks.
pub fn find_violation(text: &Vec<char>) -> (r: Option<&'static str>)
    ensures
        match first_violation(text@) {
            Some(name) => r is Some && r->Some_0@ == name,
            None => r is None,
        },
{
    let n = text.len();
    if n > 0 && is_space_char(text[0]) {
        Some("Empty space at beginning of text")
    } else if n > 0 && is_space_char(text[n - 1]) {
        Some("Empty space at end of text")
    } else if has_lit(text, "</b>:") || has_lit(text, "</i>:") {
        Some("Colon after closing </b> or </i> tag")
    } else if has_lit(text, "\n\n\n") {
        Some("More than 2 consecutive newlines")
    } else if has_lit(text, "  ") {
        Some("More than 1 consecutive space")
    } else if has_upper_tag(text) {
        Some("Upper case tag")
    } else if count_link_like_in(text) != count_links_in(text) {
        Some("Link opening tag with bad format")
    } else if has_bad_closing(text) {
        Some("Closing tag with bad format")
    } else {
        None
    }
}

/// Holds a text against the invariants of normalized text.
///
/// The text may not start or end with white space; no colon may stand
/// right behind `</b>` or `</i>`; it may hold no three line feeds and no
/// two spaces in a row; no tag name may hold an upper-case letter; what
/// looks like the start of an opening link must be a canonical one; and a
/// tag with a slash must be a canonical closing tag. The first invariant
/// that is broken, in this order, is named by the error.
pub fn check_html(html: &str) -> (r: Result<(), ScrapeError>)
    ensures
        match first_violation(html@) {
            Some(name) => r is Err && r->Err_0@ == ScrapeErrorView::HTMLFixing(name),
            None => r is Ok,
        },
{
    let text = chars_of(html);
    match find_violation(&text) {
        Some(name) => Err(ScrapeError::html_fixing(name)),
        None => Ok(()),
    }
}

} // verus!

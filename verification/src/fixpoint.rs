//! Texts on which normalization has nothing left to do.

use crate::chars::{find_from, has_at, is_space, lemma_find_char_bounds, skip_space, trim};
use crate::check::is_normalized;
use crate::error::ScrapeErrorView;
use crate::fixup::{
    breaks_from, close_links, close_links_from, colon_end, colons_from, emphasis_close_at,
    hoist_back, hoist_back_from, hoist_front, hoist_front_from, join_lines, link_open_end,
    link_start, move_colons, span_close_at, span_open_end, squeeze_from, squeeze_spaces,
    tighten_breaks,
};
use crate::tag::is_canonical;
use crate::text::{normalize_text_spec, tidy};
use crate::token::{fix_tags, fix_tags_from, lemma_token_item_bounds, token_end};
use crate::translation::{link_close, occurs};
use vstd::prelude::*;

verus! {

/// Every tag-like token of `s` is a tag in canonical form.
pub open spec fn tags_are_canonical(s: Seq<char>) -> bool {
    forall|i: int|
        0 <= i < s.len() && (#[trigger] token_end(s, i)) is Some ==> is_canonical(
            s.subrange(i, token_end(s, i)->Some_0),
        )
}

/// Every link of `s` holds a `</a>` before the next link starts.
pub open spec fn links_are_closed(s: Seq<char>) -> bool {
    forall|i: int|
        0 <= i < s.len() && (#[trigger] link_open_end(s, i)) is Some ==> find_from(
            s,
            link_open_end(s, i)->Some_0,
            link_close(),
        ) < find_from(s, link_open_end(s, i)->Some_0, link_start())
}

/// No text of a span of `s` starts or ends with white space.
pub open spec fn spans_are_tight(s: Seq<char>) -> bool {
    &&& forall|i: int|
        0 <= i < s.len() && (#[trigger] span_open_end(s, i)) is Some ==> {
            let tag_end = span_open_end(s, i)->Some_0;
            !(tag_end < skip_space(s, tag_end) && skip_space(s, tag_end) < s.len())
        }
    &&& forall|i: int|
        0 < i < s.len() && !is_space(s[i - 1]) && is_space(s[i]) ==> !span_close_at(
            s,
            #[trigger] skip_space(s, i),
        )
}

/// No colon of `s` stands behind a tag closing emphasis, be it with one
/// white-space character in between.
pub open spec fn colons_are_inside(s: Seq<char>) -> bool {
    forall|i: int| 0 <= i < s.len() && emphasis_close_at(s, i) ==> (#[trigger] colon_end(s, i + 4))
        is None
}

/// No white space of `s` stands next to a line-break tag.
pub open spec fn breaks_are_tight(s: Seq<char>) -> bool {
    forall|i: int|
        0 <= i < s.len() && #[trigger] has_at(s, i, "<br>"@) ==> (i == 0 || !is_space(s[i - 1]))
            && (i + 4 >= s.len() || !is_space(s[i + 4]))
}

/// Normalization has nothing to do on `s` beyond checking it: `s` holds
/// no line feed, its tags are canonical and its links closed, no white
/// space is caught inside a span or next to a line break, and no colon
/// follows a tag closing emphasis.
pub open spec fn is_settled(s: Seq<char>) -> bool {
    &&& !s.contains('\n')
    &&& tags_are_canonical(s)
    &&& links_are_closed(s)
    &&& spans_are_tight(s)
    &&& colons_are_inside(s)
    &&& breaks_are_tight(s)
}

proof fn lemma_rest(s: Seq<char>, i: int)
    requires
        0 <= i <= s.len(),
    ensures
        i < s.len() ==> seq![s[i]] + s.subrange(i + 1, s.len() as int) == s.subrange(
            i,
            s.len() as int,
        ),
        i == s.len() ==> s.subrange(i, s.len() as int) == Seq::<char>::empty(),
        i == 0 ==> s.subrange(i, s.len() as int) == s,
{
    if i < s.len() {
        assert(seq![s[i]] + s.subrange(i + 1, s.len() as int) =~= s.subrange(i, s.len() as int));
    } else {
        assert(s.subrange(i, s.len() as int) =~= Seq::<char>::empty());
    }
    if i == 0 {
        assert(s.subrange(i, s.len() as int) =~= s);
    }
}

proof fn lemma_split(s: Seq<char>, i: int, j: int)
    requires
        0 <= i <= j <= s.len(),
    ensures
        s.subrange(i, j) + s.subrange(j, s.len() as int) == s.subrange(i, s.len() as int),
{
    assert(s.subrange(i, j) + s.subrange(j, s.len() as int) =~= s.subrange(i, s.len() as int));
}

proof fn lemma_squeeze_idle(s: Seq<char>, i: int, c: char, into: char)
    requires
        0 <= i <= s.len(),
        forall|k: int| 0 < k < s.len() ==> !(s[k - 1] == c && #[trigger] s[k] == c),
        c == into || !s.contains(c),
    ensures
        squeeze_from(s, i, c, into) == s.subrange(i, s.len() as int),
    decreases s.len() - i,
{
    lemma_rest(s, i);
    if i < s.len() {
        lemma_squeeze_idle(s, i + 1, c, into);
        if s[i] == c && c != into {
            assert(s.contains(c));
        }
    }
}

proof fn lemma_fix_tags_idle(s: Seq<char>, i: int)
    requires
        0 <= i <= s.len(),
        tags_are_canonical(s),
    ensures
        fix_tags_from(s, i) == Ok::<Seq<char>, ScrapeErrorView>(s.subrange(i, s.len() as int)),
    decreases s.len() - i,
{
    lemma_rest(s, i);
    if i < s.len() {
        match token_end(s, i) {
            Some(end) => {
                lemma_token_item_bounds(s, i + 1);
                lemma_fix_tags_idle(s, end);
                lemma_split(s, i, end);
            },
            None => {
                lemma_fix_tags_idle(s, i + 1);
            },
        }
    }
}

proof fn lemma_close_links_idle(s: Seq<char>, i: int)
    requires
        0 <= i <= s.len(),
        links_are_closed(s),
    ensures
        close_links_from(s, i) == s.subrange(i, s.len() as int),
    decreases s.len() - i,
{
    lemma_rest(s, i);
    if i < s.len() {
        match link_open_end(s, i) {
            Some(body) => {
                lemma_find_char_bounds(s, i + link_start().len(), '>');
                lemma_close_links_idle(s, body);
                lemma_split(s, i, body);
            },
            None => {
                lemma_close_links_idle(s, i + 1);
            },
        }
    }
}

proof fn lemma_hoist_front_idle(s: Seq<char>, i: int)
    requires
        0 <= i <= s.len(),
        spans_are_tight(s),
    ensures
        hoist_front_from(s, i) == s.subrange(i, s.len() as int),
    decreases s.len() - i,
{
    lemma_rest(s, i);
    if i < s.len() {
        lemma_hoist_front_idle(s, i + 1);
    }
}

proof fn lemma_hoist_back_idle(s: Seq<char>, i: int)
    requires
        0 <= i <= s.len(),
        spans_are_tight(s),
    ensures
        hoist_back_from(s, i) == s.subrange(i, s.len() as int),
    decreases s.len() - i,
{
    lemma_rest(s, i);
    if i < s.len() {
        lemma_hoist_back_idle(s, i + 1);
    }
}

proof fn lemma_colons_idle(s: Seq<char>, i: int)
    requires
        0 <= i <= s.len(),
        colons_are_inside(s),
    ensures
        colons_from(s, i) == s.subrange(i, s.len() as int),
    decreases s.len() - i,
{
    lemma_rest(s, i);
    if i < s.len() {
        lemma_colons_idle(s, i + 1);
    }
}

proof fn lemma_breaks_idle(s: Seq<char>, i: int)
    requires
        0 <= i <= s.len(),
        breaks_are_tight(s),
    ensures
        breaks_from(s, i) == s.subrange(i, s.len() as int),
    decreases s.len() - i,
{
    reveal_strlit("<br>");
    lemma_rest(s, i);
    if i < s.len() {
        if has_at(s, i, "<br>"@) {
            lemma_breaks_idle(s, i + 4);
            lemma_split(s, i, i + 4);
        } else {
            if has_at(s, i + 1, "<br>"@) {
                assert(!is_space(s[i]));
            }
            lemma_breaks_idle(s, i + 1);
        }
    }
}

proof fn lemma_trim_idle(s: Seq<char>)
    requires
        s.len() > 0 ==> !is_space(s[0]) && !is_space(s[s.len() - 1]),
    ensures
        trim(s) == s,
{
    lemma_rest(s, 0);
}

/// Where `lit` occurs nowhere in `s`, no two neighbours in `s` are the
/// two characters of `lit`.
proof fn lemma_no_pair(s: Seq<char>, a: char, b: char, lit: Seq<char>)
    requires
        lit == seq![a, b],
        !occurs(s, lit),
    ensures
        forall|k: int| 0 < k < s.len() ==> !(s[k - 1] == a && #[trigger] s[k] == b),
{
    assert forall|k: int| 0 < k < s.len() implies !(s[k - 1] == a && #[trigger] s[k] == b) by {
        if s[k - 1] == a && s[k] == b {
            assert(s.subrange(k - 1, k + 1) =~= lit);
            assert(has_at(s, k - 1, lit));
        }
    }
}

/// A text that obeys the invariants of normalized text, and on which no
/// step of the normalization has anything to do, is normalized to itself.
pub proof fn lemma_normalize_text_keeps_settled(t: Seq<char>)
    requires
        is_normalized(t),
        is_settled(t),
    ensures
        normalize_text_spec(t) == Ok::<Seq<char>, ScrapeErrorView>(t),
{
    reveal_strlit("  ");
    assert("  "@ =~= seq![' ', ' ']);
    lemma_no_pair(t, ' ', ' ', "  "@);
    assert forall|k: int| 0 < k < t.len() implies !(t[k - 1] == '\n' && #[trigger] t[k]
        == '\n') by {
        if t[k] == '\n' {
            assert(t.contains('\n'));
        }
    }
    lemma_rest(t, 0);
    lemma_squeeze_idle(t, 0, '\n', ' ');
    assert(join_lines(t) == t);
    lemma_fix_tags_idle(t, 0);
    assert(fix_tags(t) == Ok::<Seq<char>, ScrapeErrorView>(t));
    lemma_close_links_idle(t, 0);
    assert(close_links(t) == t);
    lemma_hoist_front_idle(t, 0);
    assert(hoist_front(t) == t);
    lemma_hoist_back_idle(t, 0);
    assert(hoist_back(t) == t);
    lemma_colons_idle(t, 0);
    assert(move_colons(t) == t);
    lemma_squeeze_idle(t, 0, ' ', ' ');
    assert(squeeze_spaces(t) == t);
    lemma_breaks_idle(t, 0);
    assert(tighten_breaks(t) == t);
    lemma_trim_idle(t);
    assert(tidy(t) == t);
}

} // verus!

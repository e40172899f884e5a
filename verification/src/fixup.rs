//! The fix-ups that follow the repair of the tags: links are closed,
//! white space is moved out of spans and away from line breaks, colons are
//! moved in front of tags closing emphasis, and runs are squeezed.

use crate::chars::{
    find_char, find_char_in, find_from, find_lit, has_at, is_space, is_space_char, is_word,
    is_word_char, lemma_find_char_bounds, lemma_find_from_bounds, lemma_skip_space_bounds, lit_at,
    push_lit, push_range, skip_space, skip_space_in,
};
use crate::translation::{link_close, link_head, link_tail, one_line};
use vstd::prelude::*;

verus! {

/// `s` from index `i` on, with every run of `c` turned into one `into`.
pub open spec fn squeeze_from(s: Seq<char>, i: int, c: char, into: char) -> Seq<char>
    decreases s.len() - i,
{
    if i < 0 || i >= s.len() {
        Seq::empty()
    } else if s[i] != c {
        seq![s[i]] + squeeze_from(s, i + 1, c, into)
    } else if i > 0 && s[i - 1] == c {
        squeeze_from(s, i + 1, c, into)
    } else {
        seq![into] + squeeze_from(s, i + 1, c, into)
    }
}

/// `s` with every run of line feeds turned into one space.
pub open spec fn join_lines(s: Seq<char>) -> Seq<char> {
    squeeze_from(s, 0, '\n', ' ')
}

/// `s` with every run of spaces turned into one space.
pub open spec fn squeeze_spaces(s: Seq<char>) -> Seq<char> {
    squeeze_from(s, 0, ' ', ' ')
}

/// `text` with every run of `c` turned into one `into`.
pub fn squeeze(text: &Vec<char>, c: char, into: char) -> (r: Vec<char>)
    ensures
        r@ == squeeze_from(text@, 0, c, into),
{
    let mut out: Vec<char> = Vec::new();
    let mut i: usize = 0;
    while i < text.len()
        invariant
            i <= text.len(),
            out@ + squeeze_from(text@, i as int, c, into) == squeeze_from(text@, 0, c, into),
        decreases text.len() - i,
    {
        let ghost before = out@;
        let ghost rest = squeeze_from(text@, i as int, c, into);
        if text[i] != c {
            out.push(text[i]);
        } else if !(i > 0 && text[i - 1] == c) {
            out.push(into);
        }
        assert(out@ + squeeze_from(text@, i + 1, c, into) =~= before + rest);
        i += 1;
    }
    assert(out@ + Seq::<char>::empty() =~= out@);
    out
}

/// The two characters that every opening link starts with.
pub open spec fn link_start() -> Seq<char> {
    "<a"@
}

/// Where the text of a link starts whose opening tag starts at `i`:
/// behind `<a`, at least one character that is no `>`, and `>`.
pub open spec fn link_open_end(s: Seq<char>, i: int) -> Option<int> {
    let name_end = i + link_start().len();
    let gt = find_char(s, name_end, '>');
    if has_at(s, i, link_start()) && name_end < gt && gt < s.len() {
        Some(gt + 1)
    } else {
        None
    }
}

/// Characters that may trail behind the text of a link without being part
/// of it: white space and punctuation, but no angle bracket.
pub open spec fn is_trailing(c: char) -> bool {
    !is_word(c) && c != '<' && c != '>'
}

/// Where the run of trailing characters starts that ends at `hi`; it does
/// not reach below `lo`.
pub open spec fn trailing_start(s: Seq<char>, lo: int, hi: int) -> int
    decreases hi - lo,
{
    if lo < hi && 0 < hi <= s.len() && is_trailing(s[hi - 1]) {
        trailing_start(s, lo, hi - 1)
    } else {
        hi
    }
}

/// `s` from index `i` on, with every link closed. The text of a link runs
/// to the next opening link or to the end of `s`; where it holds no
/// `</a>`, one is put in, before the white space and punctuation that
/// trail behind the text but behind the first character of the text.
pub open spec fn close_links_from(s: Seq<char>, i: int) -> Seq<char>
    decreases s.len() - i,
    via close_links_from_decreases
{
    if i < 0 || i >= s.len() {
        Seq::empty()
    } else {
        match link_open_end(s, i) {
            Some(body) => {
                let next = find_from(s, body, link_start());
                if find_from(s, body, link_close()) < next {
                    s.subrange(i, body) + close_links_from(s, body)
                } else {
                    let keep = if body < next {
                        body + 1
                    } else {
                        body
                    };
                    let cut = trailing_start(s, keep, next);
                    s.subrange(i, cut) + link_close() + s.subrange(cut, next) + close_links_from(
                        s,
                        next,
                    )
                }
            },
            None => seq![s[i]] + close_links_from(s, i + 1),
        }
    }
}

#[via_fn]
proof fn close_links_from_decreases(s: Seq<char>, i: int) {
    if 0 <= i < s.len() && link_open_end(s, i) is Some {
        lemma_find_char_bounds(s, i + link_start().len(), '>');
        lemma_find_from_bounds(s, link_open_end(s, i)->Some_0, link_start());
    }
}

/// `s` with every link closed.
pub open spec fn close_links(s: Seq<char>) -> Seq<char> {
    close_links_from(s, 0)
}

fn link_open_end_in(text: &Vec<char>, i: usize) -> (r: Option<usize>)
    requires
        i < text.len(),
    ensures
        match r {
            Some(body) => link_open_end(text@, i as int) == Some(body as int) && i < body
                <= text.len(),
            None => link_open_end(text@, i as int) is None,
        },
{
    if !lit_at(text, i, "<a") {
        return None;
    }
    let name_end = i + "<a".unicode_len();
    let gt = find_char_in(text, name_end, '>');
    if name_end < gt && gt < text.len() {
        Some(gt + 1)
    } else {
        None
    }
}

fn is_trailing_char(c: char) -> (b: bool)
    ensures
        b == is_trailing(c),
{
    !is_word_char(c) && c != '<' && c != '>'
}

/// `text` with every link closed.
pub fn close_links_chars(text: &Vec<char>) -> (r: Vec<char>)
    ensures
        r@ == close_links(text@),
{
    let mut out: Vec<char> = Vec::new();
    let mut i: usize = 0;
    while i < text.len()
        invariant
            i <= text.len(),
            out@ + close_links_from(text@, i as int) == close_links(text@),
        decreases text.len() - i,
    {
        let ghost before = out@;
        let ghost rest = close_links_from(text@, i as int);
        match link_open_end_in(text, i) {
            Some(body) => {
                let next = find_lit(text, body, "<a");
                let close = find_lit(text, body, "</a>");
                if close < next {
                    push_range(&mut out, text, i, body);
                    assert(out@ + close_links_from(text@, body as int) =~= before + rest);
                    i = body;
                } else {
                    let keep = if body < next {
                        body + 1
                    } else {
                        body
                    };
                    let mut cut = next;
                    while keep < cut && is_trailing_char(text[cut - 1])
                        invariant
                            keep <= cut <= next <= text.len(),
                            trailing_start(text@, keep as int, cut as int) == trailing_start(
                                text@,
                                keep as int,
                                next as int,
                            ),
                        decreases cut,
                    {
                        cut -= 1;
                    }
                    push_range(&mut out, text, i, cut);
                    push_lit(&mut out, "</a>");
                    push_range(&mut out, text, cut, next);
                    assert(out@ + close_links_from(text@, next as int) =~= before + rest);
                    i = next;
                }
            },
            None => {
                out.push(text[i]);
                assert(out@ + close_links_from(text@, i + 1) =~= before + rest);
                i += 1;
            },
        }
    }
    assert(out@ + Seq::<char>::empty() =~= out@);
    out
}

/// Where a canonical opening link ends that starts at `i`: behind
/// `<a href="`, an address of at least one character on one line, and the
/// nearest `">`.
pub open spec fn link_tag_end(s: Seq<char>, i: int) -> Option<int> {
    let url = i + link_head().len();
    let url_end = find_from(s, url + 1, link_tail());
    if has_at(s, i, link_head()) && url_end < s.len() && one_line(s, url, url_end) {
        Some(url_end + link_tail().len())
    } else {
        None
    }
}

/// Where the tag ends that opens a span at `i`: `<i>`, `<b>` or a
/// canonical opening link.
pub open spec fn span_open_end(s: Seq<char>, i: int) -> Option<int> {
    if has_at(s, i, "<i>"@) {
        Some(i + "<i>"@.len())
    } else if has_at(s, i, "<b>"@) {
        Some(i + "<b>"@.len())
    } else {
        link_tag_end(s, i)
    }
}

/// `s` from index `i` on, with the white space that stands right behind
/// the opening tag of a span moved in front of that tag. White space that
/// runs to the end of `s` stays where it is.
pub open spec fn hoist_front_from(s: Seq<char>, i: int) -> Seq<char>
    decreases s.len() - i,
    via hoist_front_from_decreases
{
    if i < 0 || i >= s.len() {
        Seq::empty()
    } else {
        match span_open_end(s, i) {
            Some(tag_end) => {
                let text = skip_space(s, tag_end);
                if tag_end < text && text < s.len() {
                    s.subrange(tag_end, text) + s.subrange(i, tag_end) + hoist_front_from(s, text)
                } else {
                    seq![s[i]] + hoist_front_from(s, i + 1)
                }
            },
            None => seq![s[i]] + hoist_front_from(s, i + 1),
        }
    }
}

proof fn lemma_span_open_end_bounds(s: Seq<char>, i: int)
    requires
        0 <= i < s.len(),
    ensures
        span_open_end(s, i) is Some ==> i < span_open_end(s, i)->Some_0 <= s.len(),
{
    reveal_strlit("<i>");
    reveal_strlit("<b>");
    reveal_strlit("<a href=\"");
    reveal_strlit("\">");
    let url = i + link_head().len();
    if url + 1 <= s.len() {
        lemma_find_from_bounds(s, url + 1, link_tail());
    }
}

#[via_fn]
proof fn hoist_front_from_decreases(s: Seq<char>, i: int) {
    if 0 <= i < s.len() {
        lemma_span_open_end_bounds(s, i);
    }
}

/// `s` with the white space behind the opening tag of a span moved in
/// front of that tag.
pub open spec fn hoist_front(s: Seq<char>) -> Seq<char> {
    hoist_front_from(s, 0)
}

/// A tag that closes a span stands at `i`: `</i>`, `</b>` or `</a>`.
pub open spec fn span_close_at(s: Seq<char>, i: int) -> bool {
    has_at(s, i, "</i>"@) || has_at(s, i, "</b>"@) || has_at(s, i, "</a>"@)
}

/// `s` from index `i` on, with the white space that stands between the
/// text of a span and its closing tag moved behind that tag.
pub open spec fn hoist_back_from(s: Seq<char>, i: int) -> Seq<char>
    decreases s.len() - i,
    via hoist_back_from_decreases
{
    if i < 0 || i >= s.len() {
        Seq::empty()
    } else {
        let tag = skip_space(s, i);
        if i > 0 && !is_space(s[i - 1]) && is_space(s[i]) && span_close_at(s, tag) {
            s.subrange(tag, tag + 4) + s.subrange(i, tag) + hoist_back_from(s, tag + 4)
        } else {
            seq![s[i]] + hoist_back_from(s, i + 1)
        }
    }
}

#[via_fn]
proof fn hoist_back_from_decreases(s: Seq<char>, i: int) {
    reveal_strlit("</i>");
    reveal_strlit("</b>");
    reveal_strlit("</a>");
    if 0 <= i < s.len() {
        lemma_skip_space_bounds(s, i);
    }
}

/// `s` with the white space in front of the closing tag of a span moved
/// behind that tag.
pub open spec fn hoist_back(s: Seq<char>) -> Seq<char> {
    hoist_back_from(s, 0)
}

/// A tag that closes emphasis stands at `i`: `</i>` or `</b>`.
pub open spec fn emphasis_close_at(s: Seq<char>, i: int) -> bool {
    has_at(s, i, "</i>"@) || has_at(s, i, "</b>"@)
}

/// The index behind the colon that stands at `c`, or behind one
/// white-space character at `c`.
pub open spec fn colon_end(s: Seq<char>, c: int) -> Option<int> {
    if 0 <= c < s.len() && s[c] == ':' {
        Some(c + 1)
    } else if 0 <= c && c + 1 < s.len() && is_space(s[c]) && s[c + 1] == ':' {
        Some(c + 2)
    } else {
        None
    }
}

/// `s` from index `i` on, with every colon that follows a tag closing
/// emphasis moved in front of that tag; white space between the two goes.
pub open spec fn colons_from(s: Seq<char>, i: int) -> Seq<char>
    decreases s.len() - i,
{
    if i < 0 || i >= s.len() {
        Seq::empty()
    } else if emphasis_close_at(s, i) && colon_end(s, i + 4) is Some {
        seq![':'] + s.subrange(i, i + 4) + colons_from(s, colon_end(s, i + 4)->Some_0)
    } else {
        seq![s[i]] + colons_from(s, i + 1)
    }
}

/// `s` with every colon behind a tag closing emphasis moved in front of
/// that tag.
pub open spec fn move_colons(s: Seq<char>) -> Seq<char> {
    colons_from(s, 0)
}

/// `s` from index `i` on, with one white-space character taken away on
/// either side of every line-break tag, where there is one.
pub open spec fn breaks_from(s: Seq<char>, i: int) -> Seq<char>
    decreases s.len() - i,
    via breaks_from_decreases
{
    if i < 0 || i >= s.len() {
        Seq::empty()
    } else {
        let tag = if is_space(s[i]) && has_at(s, i + 1, "<br>"@) {
            i + 1
        } else {
            i
        };
        let behind = tag + 4;
        let end = if behind < s.len() && is_space(s[behind]) {
            behind + 1
        } else {
            behind
        };
        if has_at(s, tag, "<br>"@) {
            "<br>"@ + breaks_from(s, end)
        } else {
            seq![s[i]] + breaks_from(s, i + 1)
        }
    }
}

#[via_fn]
proof fn breaks_from_decreases(s: Seq<char>, i: int) {
    reveal_strlit("<br>");
}

/// `s` with one white-space character taken away on either side of every
/// line-break tag.
pub open spec fn tighten_breaks(s: Seq<char>) -> Seq<char> {
    breaks_from(s, 0)
}

fn link_tag_end_in(text: &Vec<char>, i: usize) -> (r: Option<usize>)
    requires
        i < text.len(),
    ensures
        match r {
            Some(e) => link_tag_end(text@, i as int) == Some(e as int) && i < e <= text.len(),
            None => link_tag_end(text@, i as int) is None,
        },
{
    if !lit_at(text, i, "<a href=\"") {
        return None;
    }
    let url = i + "<a href=\"".unicode_len();
    if url >= text.len() {
        return None;
    }
    let url_end = find_lit(text, url + 1, "\">");
    proof {
        lemma_find_from_bounds(text@, url + 1, link_tail());
    }
    if url_end >= text.len() {
        return None;
    }
    let mut k = url;
    while k < url_end
        invariant
            url <= k <= url_end < text.len(),
            url == i + link_head().len(),
            url_end == find_from(text@, url + 1, link_tail()),
            one_line(text@, url as int, k as int),
        decreases url_end - k,
    {
        if text[k] == '\n' {
            assert(text@[k as int] == '\n');
            assert(!one_line(text@, url as int, url_end as int));
            return None;
        }
        k += 1;
    }
    Some(url_end + "\">".unicode_len())
}

fn span_open_end_in(text: &Vec<char>, i: usize) -> (r: Option<usize>)
    requires
        i < text.len(),
    ensures
        match r {
            Some(e) => span_open_end(text@, i as int) == Some(e as int) && i < e <= text.len(),
            None => span_open_end(text@, i as int) is None,
        },
{
    proof {
        lemma_span_open_end_bounds(text@, i as int);
    }
    if lit_at(text, i, "<i>") {
        Some(i + "<i>".unicode_len())
    } else if lit_at(text, i, "<b>") {
        Some(i + "<b>".unicode_len())
    } else {
        link_tag_end_in(text, i)
    }
}

/// `text` with the white space behind the opening tag of a span moved in
/// front of that tag.
pub fn hoist_front_chars(text: &Vec<char>) -> (r: Vec<char>)
    ensures
        r@ == hoist_front(text@),
{
    let mut out: Vec<char> = Vec::new();
    let mut i: usize = 0;
    while i < text.len()
        invariant
            i <= text.len(),
            out@ + hoist_front_from(text@, i as int) == hoist_front(text@),
        decreases text.len() - i,
    {
        let ghost before = out@;
        let ghost rest = hoist_front_from(text@, i as int);
        let mut done = false;
        match span_open_end_in(text, i) {
            Some(tag_end) => {
                let body = skip_space_in(text, tag_end);
                if tag_end < body && body < text.len() {
                    push_range(&mut out, text, tag_end, body);
                    push_range(&mut out, text, i, tag_end);
                    assert(out@ + hoist_front_from(text@, body as int) =~= before + rest);
                    i = body;
                    done = true;
                }
            },
            None => {},
        }
        if !done {
            out.push(text[i]);
            assert(out@ + hoist_front_from(text@, i + 1) =~= before + rest);
            i += 1;
        }
    }
    assert(out@ + Seq::<char>::empty() =~= out@);
    out
}

fn span_close_in(text: &Vec<char>, i: usize) -> (b: bool)
    ensures
        b == span_close_at(text@, i as int),
        b ==> i + 4 <= text.len(),
{
    proof {
        reveal_strlit("</i>");
        reveal_strlit("</b>");
        reveal_strlit("</a>");
    }
    lit_at(text, i, "</i>") || lit_at(text, i, "</b>") || lit_at(text, i, "</a>")
}

/// `text` with the white space in front of the closing tag of a span
/// moved behind that tag.
pub fn hoist_back_chars(text: &Vec<char>) -> (r: Vec<char>)
    ensures
        r@ == hoist_back(text@),
{
    let mut out: Vec<char> = Vec::new();
    let mut i: usize = 0;
    while i < text.len()
        invariant
            i <= text.len(),
            out@ + hoist_back_from(text@, i as int) == hoist_back(text@),
        decreases text.len() - i,
    {
        let ghost before = out@;
        let ghost rest = hoist_back_from(text@, i as int);
        let mut done = false;
        if i > 0 && !is_space_char(text[i - 1]) && is_space_char(text[i]) {
            let tag = skip_space_in(text, i);
            if span_close_in(text, tag) {
                push_range(&mut out, text, tag, tag + 4);
                push_range(&mut out, text, i, tag);
                assert(out@ + hoist_back_from(text@, tag + 4) =~= before + rest);
                i = tag + 4;
                done = true;
            }
        }
        if !done {
            out.push(text[i]);
            assert(out@ + hoist_back_from(text@, i + 1) =~= before + rest);
            i += 1;
        }
    }
    assert(out@ + Seq::<char>::empty() =~= out@);
    out
}

fn emphasis_close_in(text: &Vec<char>, i: usize) -> (b: bool)
    ensures
        b == emphasis_close_at(text@, i as int),
        b ==> i + 4 <= text.len(),
{
    proof {
        reveal_strlit("</i>");
        reveal_strlit("</b>");
    }
    lit_at(text, i, "</i>") || lit_at(text, i, "</b>")
}

/// `text` with every colon behind a tag closing emphasis moved in front
/// of that tag.
pub fn move_colons_chars(text: &Vec<char>) -> (r: Vec<char>)
    ensures
        r@ == move_colons(text@),
{
    let n = text.len();
    let mut out: Vec<char> = Vec::new();
    let mut i: usize = 0;
    while i < n
        invariant
            i <= n,
            n == text.len(),
            out@ + colons_from(text@, i as int) == move_colons(text@),
        decreases n - i,
    {
        let ghost before = out@;
        let ghost rest = colons_from(text@, i as int);
        let mut done = false;
        if emphasis_close_in(text, i) {
            let c = i + 4;
            let end = if c < n && text[c] == ':' {
                c + 1
            } else if c < n && n - c > 1 && is_space_char(text[c]) && text[c + 1] == ':' {
                c + 2
            } else {
                0
            };
            if end != 0 {
                out.push(':');
                push_range(&mut out, text, i, c);
                assert(out@ + colons_from(text@, end as int) =~= before + rest);
                i = end;
                done = true;
            }
        }
        if !done {
            out.push(text[i]);
            assert(out@ + colons_from(text@, i + 1) =~= before + rest);
            i += 1;
        }
    }
    assert(out@ + Seq::<char>::empty() =~= out@);
    out
}

/// `text` with one white-space character taken away on either side of
/// every line-break tag.
pub fn tighten_breaks_chars(text: &Vec<char>) -> (r: Vec<char>)
    ensures
        r@ == tighten_breaks(text@),
{
    let n = text.len();
    let mut out: Vec<char> = Vec::new();
    let mut i: usize = 0;
    proof {
        reveal_strlit("<br>");
    }
    while i < n
        invariant
            i <= n,
            n == text.len(),
            "<br>"@.len() == 4,
            out@ + breaks_from(text@, i as int) == tighten_breaks(text@),
        decreases n - i,
    {
        let ghost before = out@;
        let ghost rest = breaks_from(text@, i as int);
        let tag = if is_space_char(text[i]) && i + 1 < n && lit_at(text, i + 1, "<br>") {
            i + 1
        } else {
            i
        };
        if lit_at(text, tag, "<br>") {
            let behind = tag + 4;
            let end = if behind < n && is_space_char(text[behind]) {
                behind + 1
            } else {
                behind
            };
            push_lit(&mut out, "<br>");
            assert(out@ + breaks_from(text@, end as int) =~= before + rest);
            i = end;
        } else {
            out.push(text[i]);
            assert(out@ + breaks_from(text@, i + 1) =~= before + rest);
            i += 1;
        }
    }
    assert(out@ + Seq::<char>::empty() =~= out@);
    out
}

} // verus!

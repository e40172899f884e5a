//! Translation of canonical markup into plain styled text: emphasis becomes
//! asterisk markers, links become bracket-and-parenthesis syntax, and no
//! tag is left behind.

use crate::chars::{
    chars_of, find_char_in, find_from, find_lit, has_at, is_space, is_space_char,
    lemma_find_char_bounds, lemma_find_from_bounds, lit_at, push_lit, push_range, replace_all,
    replace_lit, string_of, trim, trim_chars,
};
use crate::error::{ScrapeError, ScrapeErrorView};
use vstd::prelude::*;

verus! {

/// `s` from index `i` on, with every span `open X close` turned into
/// `new_open X new_close`. `X` holds at least one character and ends at the
/// nearest `close`; spans are taken left to right and do not overlap.
pub open spec fn rewrap_from(
    s: Seq<char>,
    i: int,
    open: Seq<char>,
    close: Seq<char>,
    new_open: Seq<char>,
    new_close: Seq<char>,
) -> Seq<char>
    decreases s.len() - i,
    via rewrap_from_decreases
{
    if i < 0 || i >= s.len() {
        Seq::empty()
    } else {
        let inner = i + open.len();
        let end = find_from(s, inner + 1, close);
        if has_at(s, i, open) && end < s.len() {
            new_open + s.subrange(inner, end) + new_close + rewrap_from(
                s,
                end + close.len(),
                open,
                close,
                new_open,
                new_close,
            )
        } else {
            seq![s[i]] + rewrap_from(s, i + 1, open, close, new_open, new_close)
        }
    }
}

#[via_fn]
proof fn rewrap_from_decreases(
    s: Seq<char>,
    i: int,
    open: Seq<char>,
    close: Seq<char>,
    new_open: Seq<char>,
    new_close: Seq<char>,
) {
    if 0 <= i < s.len() && i + open.len() + 1 <= s.len() {
        lemma_find_from_bounds(s, i + open.len() + 1, close);
    }
}

/// `s` with every span `open X close` turned into `new_open X new_close`.
pub open spec fn rewrap(
    s: Seq<char>,
    open: Seq<char>,
    close: Seq<char>,
    new_open: Seq<char>,
    new_close: Seq<char>,
) -> Seq<char> {
    rewrap_from(s, 0, open, close, new_open, new_close)
}

/// Every span `open X close` of `text` turned into `new_open X new_close`.
pub fn rewrap_spans(
    text: &Vec<char>,
    open: &str,
    close: &str,
    new_open: &str,
    new_close: &str,
) -> (r: Vec<char>)
    ensures
        r@ == rewrap(text@, open@, close@, new_open@, new_close@),
{
    let n_open = open.unicode_len();
    let n_close = close.unicode_len();
    let mut out: Vec<char> = Vec::new();
    let mut i: usize = 0;
    while i < text.len()
        invariant
            i <= text.len(),
            n_open == open@.len(),
            n_close == close@.len(),
            out@ + rewrap_from(text@, i as int, open@, close@, new_open@, new_close@) == rewrap(
                text@,
                open@,
                close@,
                new_open@,
                new_close@,
            ),
        decreases text.len() - i,
    {
        let ghost before = out@;
        let ghost rest = rewrap_from(text@, i as int, open@, close@, new_open@, new_close@);
        let mut done = false;
        if lit_at(text, i, open) {
            let inner = i + n_open;
            if inner < text.len() {
                let end = find_lit(text, inner + 1, close);
                if end < text.len() {
                    proof {
                        lemma_find_from_bounds(text@, inner + 1, close@);
                    }
                    push_lit(&mut out, new_open);
                    push_range(&mut out, text, inner, end);
                    push_lit(&mut out, new_close);
                    let ghost tail = rewrap_from(
                        text@,
                        end + n_close,
                        open@,
                        close@,
                        new_open@,
                        new_close@,
                    );
                    assert(out@ + tail =~= before + (new_open@ + text@.subrange(
                        inner as int,
                        end as int,
                    ) + new_close@ + tail));
                    i = end + n_close;
                    done = true;
                }
            }
        }
        if !done {
            out.push(text[i]);
            assert(out@ + rewrap_from(text@, i + 1, open@, close@, new_open@, new_close@)
                =~= before + rest);
            i += 1;
        }
    }
    assert(out@ + Seq::<char>::empty() =~= out@);
    out
}

/// The text that opens a canonical link tag, up to the address.
pub open spec fn link_head() -> Seq<char> {
    "<a href=\""@
}

/// The text that ends a canonical link tag, after the address.
pub open spec fn link_tail() -> Seq<char> {
    "\">"@
}

/// The tag that closes a link.
pub open spec fn link_close() -> Seq<char> {
    "</a>"@
}

/// `s` holds no line feed between `from` (included) and `to` (excluded).
pub open spec fn one_line(s: Seq<char>, from: int, to: int) -> bool {
    forall|k: int| from <= k < to ==> s[k] != '\n'
}

/// `s` from index `i` on, with every link `<a href="U">T</a>` turned into
/// `[T](U)`. `U` is not empty, stays on one line and ends at the nearest
/// `">`; `T` is not empty and ends at the nearest `</a>`.
pub open spec fn links_from(s: Seq<char>, i: int) -> Seq<char>
    decreases s.len() - i,
    via links_from_decreases
{
    if i < 0 || i >= s.len() {
        Seq::empty()
    } else {
        let url = i + link_head().len();
        let url_end = find_from(s, url + 1, link_tail());
        let label = url_end + link_tail().len();
        let label_end = find_from(s, label + 1, link_close());
        if has_at(s, i, link_head()) && url_end < s.len() && one_line(s, url, url_end) && label_end
            < s.len() {
            seq!['['] + s.subrange(label, label_end) + seq![']', '('] + s.subrange(url, url_end)
                + seq![')'] + links_from(s, label_end + link_close().len())
        } else {
            seq![s[i]] + links_from(s, i + 1)
        }
    }
}

#[via_fn]
proof fn links_from_decreases(s: Seq<char>, i: int) {
    if 0 <= i < s.len() {
        let url = i + link_head().len();
        if url + 1 <= s.len() {
            lemma_find_from_bounds(s, url + 1, link_tail());
            let url_end = find_from(s, url + 1, link_tail());
            let label = url_end + link_tail().len();
            if label + 1 <= s.len() {
                lemma_find_from_bounds(s, label + 1, link_close());
            }
        }
    }
}

/// `s` with every link in bracket-and-parenthesis syntax.
pub open spec fn translate_links(s: Seq<char>) -> Seq<char> {
    links_from(s, 0)
}

/// Tells whether `text` holds no line feed in `from..to`.
fn is_one_line(text: &Vec<char>, from: usize, to: usize) -> (b: bool)
    requires
        from <= to <= text.len(),
    ensures
        b == one_line(text@, from as int, to as int),
{
    let mut k = from;
    while k < to
        invariant
            from <= k <= to <= text.len(),
            one_line(text@, from as int, k as int),
        decreases to - k,
    {
        if text[k] == '\n' {
            return false;
        }
        k += 1;
    }
    true
}

/// Every link of `text` in bracket-and-parenthesis syntax.
pub fn links_to_markdown(text: &Vec<char>) -> (r: Vec<char>)
    ensures
        r@ == translate_links(text@),
{
    let n_head = "<a href=\"".unicode_len();
    let n_tail = "\">".unicode_len();
    let n_close = "</a>".unicode_len();
    let mut out: Vec<char> = Vec::new();
    let mut i: usize = 0;
    while i < text.len()
        invariant
            i <= text.len(),
            n_head == link_head().len(),
            n_tail == link_tail().len(),
            n_close == link_close().len(),
            out@ + links_from(text@, i as int) == translate_links(text@),
        decreases text.len() - i,
    {
        let ghost before = out@;
        let ghost rest = links_from(text@, i as int);
        let mut done = false;
        if lit_at(text, i, "<a href=\"") {
            let url = i + n_head;
            if url < text.len() {
                let url_end = find_lit(text, url + 1, "\">");
                proof {
                    lemma_find_from_bounds(text@, url + 1, link_tail());
                }
                if url_end < text.len() && is_one_line(text, url, url_end) {
                    let label = url_end + n_tail;
                    if label < text.len() {
                        let label_end = find_lit(text, label + 1, "</a>");
                        proof {
                            lemma_find_from_bounds(text@, label + 1, link_close());
                        }
                        if label_end < text.len() {
                            out.push('[');
                            push_range(&mut out, text, label, label_end);
                            out.push(']');
                            out.push('(');
                            push_range(&mut out, text, url, url_end);
                            out.push(')');
                            let ghost tail = links_from(text@, label_end + n_close);
                            assert(out@ + tail =~= before + (seq!['['] + text@.subrange(
                                label as int,
                                label_end as int,
                            ) + seq![']', '('] + text@.subrange(url as int, url_end as int)
                                + seq![')'] + tail));
                            i = label_end + n_close;
                            done = true;
                        }
                    }
                }
            }
        }
        if !done {
            out.push(text[i]);
            assert(out@ + links_from(text@, i + 1) =~= before + rest);
            i += 1;
        }
    }
    assert(out@ + Seq::<char>::empty() =~= out@);
    out
}

/// A closing marker that may be left over once spans are translated stands
/// at index `i`.
pub open spec fn leftover_at(s: Seq<char>, i: int) -> bool {
    has_at(s, i, "</a>"@) || has_at(s, i, "</b>"@)
}

/// `s` from index `i` on, without leftover closing markers. A marker goes
/// together with one white-space character on either side of it, where
/// there is one; a single space stands in their place if one of the two
/// was a space, and nothing otherwise.
pub open spec fn leftovers_from(s: Seq<char>, i: int) -> Seq<char>
    decreases s.len() - i,
    via leftovers_from_decreases
{
    if i < 0 || i >= s.len() {
        Seq::empty()
    } else {
        let mark = if is_space(s[i]) && leftover_at(s, i + 1) {
            i + 1
        } else {
            i
        };
        let after = mark + 4;
        let end = if after < s.len() && is_space(s[after]) {
            after + 1
        } else {
            after
        };
        if leftover_at(s, mark) {
            (if (i < mark && s[i] == ' ') || (after < end && s[after] == ' ') {
                seq![' ']
            } else {
                Seq::empty()
            }) + leftovers_from(s, end)
        } else {
            seq![s[i]] + leftovers_from(s, i + 1)
        }
    }
}

#[via_fn]
proof fn leftovers_from_decreases(s: Seq<char>, i: int) {
    reveal_strlit("</a>");
    reveal_strlit("</b>");
}

/// `s` without leftover closing markers.
pub open spec fn drop_leftovers(s: Seq<char>) -> Seq<char> {
    leftovers_from(s, 0)
}

fn is_leftover_at(text: &Vec<char>, i: usize) -> (b: bool)
    ensures
        b == leftover_at(text@, i as int),
        b ==> i + 4 <= text.len(),
{
    proof {
        reveal_strlit("</a>");
        reveal_strlit("</b>");
    }
    lit_at(text, i, "</a>") || lit_at(text, i, "</b>")
}

/// `text` without leftover closing markers.
pub fn remove_leftovers(text: &Vec<char>) -> (r: Vec<char>)
    ensures
        r@ == drop_leftovers(text@),
{
    let mut out: Vec<char> = Vec::new();
    let mut i: usize = 0;
    while i < text.len()
        invariant
            i <= text.len(),
            out@ + leftovers_from(text@, i as int) == drop_leftovers(text@),
        decreases text.len() - i,
    {
        let ghost before = out@;
        let ghost rest = leftovers_from(text@, i as int);
        let mark = if is_space_char(text[i]) && i + 1 < text.len() && is_leftover_at(text, i + 1) {
            i + 1
        } else {
            i
        };
        assert(i + 1 >= text.len() ==> !leftover_at(text@, i + 1)) by {
            reveal_strlit("</a>");
            reveal_strlit("</b>");
        }
        if is_leftover_at(text, mark) {
            let after = mark + 4;
            let end = if after < text.len() && is_space_char(text[after]) {
                after + 1
            } else {
                after
            };
            if (i < mark && text[i] == ' ') || (after < end && text[after] == ' ') {
                out.push(' ');
            }
            assert(out@ + leftovers_from(text@, end as int) =~= before + rest);
            i = end;
        } else {
            out.push(text[i]);
            assert(out@ + leftovers_from(text@, i + 1) =~= before + rest);
            i += 1;
        }
    }
    assert(out@ + Seq::<char>::empty() =~= out@);
    out
}

/// `lit` occurs somewhere in `s`.
pub open spec fn occurs(s: Seq<char>, lit: Seq<char>) -> bool {
    exists|i: int| has_at(s, i, lit)
}

/// The first fragment of `s` that styled text may not hold, if there is
/// one: an angle bracket, white space at either end, two spaces in a row,
/// three line feeds in a row, or an asterisk with a colon right after it.
pub open spec fn styled_fault(s: Seq<char>) -> Option<Seq<char>> {
    if s.contains('<') {
        Some("<"@)
    } else if s.contains('>') {
        Some(">"@)
    } else if s.len() > 0 && is_space(s[0]) {
        Some(seq![s[0]])
    } else if s.len() > 0 && is_space(s[s.len() - 1]) {
        Some(seq![s[s.len() - 1]])
    } else if occurs(s, "  "@) {
        Some("  "@)
    } else if occurs(s, "\n\n\n"@) {
        Some("\n\n\n"@)
    } else if occurs(s, "*:"@) {
        Some("*:"@)
    } else {
        None
    }
}

/// The styled text that stands for the markup `s`, before it is checked.
pub open spec fn translate(s: Seq<char>) -> Seq<char> {
    let no_breaks = replace_all(s, "<br>"@, ""@);
    let no_center = rewrap(no_breaks, "<center>"@, "</center>"@, ""@, ""@);
    let italic = rewrap(no_center, "<i>"@, "</i>"@, "*"@, "*"@);
    let bold = rewrap(italic, "<b>"@, "</b>"@, "**"@, "**"@);
    trim(drop_leftovers(translate_links(bold)))
}

/// What `html_to_markdown` returns for the markup `s`.
pub open spec fn html_to_markdown_spec(s: Seq<char>) -> Result<Seq<char>, ScrapeErrorView> {
    match styled_fault(translate(s)) {
        None => Ok(translate(s)),
        Some(fragment) => Err(ScrapeErrorView::HTMLFixing(fragment)),
    }
}

/// Tells whether `c` is among the characters of `text`.
pub fn has_char(text: &Vec<char>, c: char) -> (b: bool)
    ensures
        b == text@.contains(c),
{
    let at = find_char_in(text, 0, c);
    proof {
        lemma_find_char_bounds(text@, 0, c);
    }
    at < text.len()
}

/// Tells whether `lit` occurs somewhere in `text`.
pub fn has_lit(text: &Vec<char>, lit: &str) -> (b: bool)
    ensures
        b == occurs(text@, lit@),
{
    let at = find_lit(text, 0, lit);
    proof {
        lemma_find_from_bounds(text@, 0, lit@);
        if at >= text.len() && lit@.len() == 0 {
            assert(text@.subrange(text@.len() as int, text@.len() as int) =~= lit@);
            assert(has_at(text@, text@.len() as int, lit@));
        }
    }
    if at < text.len() {
        true
    } else {
        lit.unicode_len() == 0
    }
}

fn one_char(c: char) -> (r: String)
    ensures
        r@ == seq![c],
{
    let mut out = String::new();
    out.push(c);
    assert(out@ =~= seq![c]);
    out
}

/// The first fragment of `text` that styled text may not hold.
pub fn find_styled_fault(text: &Vec<char>) -> (r: Option<String>)
    ensures
        match styled_fault(text@) {
            None => r is None,
            Some(fragment) => r is Some && r->Some_0@ == fragment,
        },
{
    if has_char(text, '<') {
        Some("<".to_owned())
    } else if has_char(text, '>') {
        Some(">".to_owned())
    } else if text.len() > 0 && is_space_char(text[0]) {
        Some(one_char(text[0]))
    } else if text.len() > 0 && is_space_char(text[text.len() - 1]) {
        Some(one_char(text[text.len() - 1]))
    } else if has_lit(text, "  ") {
        Some("  ".to_owned())
    } else if has_lit(text, "\n\n\n") {
        Some("\n\n\n".to_owned())
    } else if has_lit(text, "*:") {
        Some("*:".to_owned())
    } else {
        None
    }
}

/// The styled text for `text`, before it is checked.
pub fn translate_chars(text: &Vec<char>) -> (r: Vec<char>)
    ensures
        r@ == translate(text@),
{
    let no_breaks = replace_lit(text, "<br>", "");
    let no_center = rewrap_spans(&no_breaks, "<center>", "</center>", "", "");
    let italic = rewrap_spans(&no_center, "<i>", "</i>", "*", "*");
    let bold = rewrap_spans(&italic, "<b>", "</b>", "**", "**");
    let links = links_to_markdown(&bold);
    let cleaned = remove_leftovers(&links);
    trim_chars(&cleaned)
}

/// Translates canonical markup into styled text.
///
/// Line breaks go, block groups are unwrapped, emphasis becomes asterisk
/// markers (one for `<i>`, two for `<b>`), links become `[text](address)`,
/// leftover closing markers are dropped and the result is trimmed. The
/// result is then held against `styled_fault`: a text that still has a
/// fault is refused with an error that names the fragment.
pub fn html_to_markdown(html: &str) -> (r: Result<String, ScrapeError>)
    ensures
        match html_to_markdown_spec(html@) {
            Ok(text) => r is Ok && r->Ok_0@ == text,
            Err(e) => r is Err && r->Err_0@ == e,
        },
        r is Ok ==> styled_fault(r->Ok_0@) is None,
        r is Ok ==> !r->Ok_0@.contains('<') && !r->Ok_0@.contains('>'),
{
    let text = chars_of(html);
    let styled = translate_chars(&text);
    match find_styled_fault(&styled) {
        None => Ok(string_of(&styled)),
        Some(fragment) => Err(ScrapeError::HTMLFixing(fragment)),
    }
}

/// Styled text that the translation hands out holds no angle bracket.
pub proof fn lemma_styled_text_has_no_bracket(html: Seq<char>)
    ensures
        match html_to_markdown_spec(html) {
            Ok(text) => !text.contains('<') && !text.contains('>'),
            Err(_) => true,
        },
{
}

} // verus!

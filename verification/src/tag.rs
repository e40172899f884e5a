//! The closed vocabulary of tags, and the repair of a tag-like token into
//! its canonical form.

use crate::chars::{
    chars_of, find_char, find_char_in, has_at, is_letter, is_letter_char, lemma_find_char_bounds,
    lit_at, lower, lower_char, push_lit, push_range, skip_space, skip_space_in, string_of,
};
use crate::error::{ScrapeError, ScrapeErrorView};
use crate::translation::{has_char, link_head, link_tail};
use crate::url::{
    is_stray, is_unquoted, lemma_normalize_url_is_address, normalize_url_chars, normalize_url_spec,
};
use vstd::prelude::*;
use vstd::string::StringExecFns;

verus! {

/// The kinds of tag that the archive's markup is reduced to.
#[derive(PartialEq, Eq, Structural, Clone, Copy, Debug)]
pub enum Tag {
    Br,
    OpeningA,
    ClosingA,
    OpeningB,
    ClosingB,
    OpeningI,
    ClosingI,
    OpeningCenter,
    ClosingCenter,
    OpeningP,
    ClosingP,
    OpeningSup,
    ClosingSup,
    OpeningSub,
    ClosingSub,
}

/// The canonical text of a tag of kind `kind`, for every kind but the
/// opening link, whose text depends on its address.
pub open spec fn plain_tag(kind: Tag) -> Seq<char> {
    match kind {
        Tag::Br => "<br>"@,
        Tag::OpeningA => Seq::empty(),
        Tag::ClosingA => "</a>"@,
        Tag::OpeningB => "<b>"@,
        Tag::ClosingB => "</b>"@,
        Tag::OpeningI => "<i>"@,
        Tag::ClosingI => "</i>"@,
        Tag::OpeningCenter => "<center>"@,
        Tag::ClosingCenter => "</center>"@,
        Tag::OpeningP => "<p>"@,
        Tag::ClosingP => "</p>"@,
        Tag::OpeningSup => "<sup>"@,
        Tag::ClosingSup => "</sup>"@,
        Tag::OpeningSub => "<sub>"@,
        Tag::ClosingSub => "</sub>"@,
    }
}

/// `t` is the canonical text of a tag other than an opening link.
pub open spec fn is_plain_tag(t: Seq<char>) -> bool {
    t == "<br>"@ || t == "</a>"@ || t == "<b>"@ || t == "</b>"@ || t == "<i>"@ || t == "</i>"@ || t
        == "<center>"@ || t == "</center>"@ || t == "<p>"@ || t == "</p>"@ || t == "<sup>"@ || t
        == "</sup>"@ || t == "<sub>"@ || t == "</sub>"@
}

/// Characters that the address of a canonical link may hold: anything but
/// a double quote and the characters that are stray in an address.
pub open spec fn is_address_char(c: char) -> bool {
    c != '"' && !is_stray(c)
}

/// `t` is a canonical opening link: `<a href="`, an address of at least
/// one character, and `">`.
pub open spec fn is_link_tag(t: Seq<char>) -> bool {
    &&& t.len() > link_head().len() + link_tail().len()
    &&& has_at(t, 0, link_head())
    &&& has_at(t, t.len() - link_tail().len(), link_tail())
    &&& forall|k: int|
        link_head().len() <= k < t.len() - link_tail().len() ==> is_address_char(#[trigger] t[k])
}

/// `t` is a tag in canonical form.
pub open spec fn is_canonical(t: Seq<char>) -> bool {
    is_plain_tag(t) || is_link_tag(t)
}

/// Tells whether the characters of `lit` are exactly those of `v`.
pub fn chars_are(v: &Vec<char>, lit: &str) -> (b: bool)
    ensures
        b == (v@ == lit@),
{
    let n = lit.unicode_len();
    let same = v.len() == n && lit_at(v, 0, lit);
    proof {
        assert(v@.subrange(0, v@.len() as int) =~= v@);
    }
    same
}

/// Tells whether the address of a canonical link may hold `c`.
pub fn is_address_char_exec(c: char) -> (b: bool)
    ensures
        b == is_address_char(c),
{
    !(c == '"' || c == '\n' || c == ' ' || c == '\t' || c == '>' || c == '<')
}

/// Tells whether the characters in `text` are a canonical opening link.
pub fn is_link_tag_chars(text: &Vec<char>) -> (b: bool)
    ensures
        b == is_link_tag(text@),
{
    let n_head = "<a href=\"".unicode_len();
    let n_tail = "\">".unicode_len();
    if text.len() <= n_head || text.len() - n_head <= n_tail {
        return false;
    }
    if !lit_at(text, 0, "<a href=\"") || !lit_at(text, text.len() - n_tail, "\">") {
        return false;
    }
    let end = text.len() - n_tail;
    let mut k = n_head;
    while k < end
        invariant
            n_head <= k <= end,
            end == text.len() - n_tail,
            n_head == link_head().len(),
            n_tail == link_tail().len(),
            forall|j: int| n_head <= j < k ==> is_address_char(#[trigger] text@[j]),
        decreases end - k,
    {
        if !is_address_char_exec(text[k]) {
            return false;
        }
        k += 1;
    }
    true
}

fn is_plain_tag_chars(text: &Vec<char>) -> (b: bool)
    ensures
        b == is_plain_tag(text@),
{
    chars_are(text, "<br>") || chars_are(text, "</a>") || chars_are(text, "<b>") || chars_are(
        text,
        "</b>",
    ) || chars_are(text, "<i>") || chars_are(text, "</i>") || chars_are(text, "<center>")
        || chars_are(text, "</center>") || chars_are(text, "<p>") || chars_are(text, "</p>")
        || chars_are(text, "<sup>") || chars_are(text, "</sup>") || chars_are(text, "<sub>")
        || chars_are(text, "</sub>")
}

/// Tells whether the characters in `text` are a tag in canonical form.
pub fn is_canonical_chars(text: &Vec<char>) -> (b: bool)
    ensures
        b == is_canonical(text@),
{
    is_plain_tag_chars(text) || is_link_tag_chars(text)
}

/// Tells whether `tag` is already in canonical form, so that nothing has
/// to be repaired: one of the thirteen plain tags and `</a>`, or
/// `<a href="ADDRESS">` with an address of at least one character that
/// holds no double quote, angle bracket, space, tab or line feed.
pub fn tag_syntax_is_valid(tag: &str) -> (b: bool)
    ensures
        b == is_canonical(tag@),
{
    let text = chars_of(tag);
    is_canonical_chars(&text)
}

/// `t` begins like an opening link, well written or not: the tag name may
/// be in upper case, may have an `l` before it or be missing, and the
/// space before `href` may be missing.
pub open spec fn opens_link(t: Seq<char>) -> bool {
    has_at(t, 0, "<a "@) || has_at(t, 0, "<ahref"@) || has_at(t, 0, "<A "@) || has_at(
        t,
        0,
        "<la href"@,
    ) || has_at(t, 0, "<href"@)
}

/// The ASCII letters of `t`, in lower case.
pub open spec fn bare_name(t: Seq<char>) -> Seq<char> {
    t.filter(|c: char| is_letter(c)).map_values(|c: char| lower(c))
}

/// The kind of the tag with the bare name `name`; `closing` tells whether
/// the token holds a slash. A line break is one with or without a slash,
/// and a bare `a` closes a link even without a slash.
pub open spec fn kind_of_name(name: Seq<char>, closing: bool) -> Option<Tag> {
    if name == "br"@ {
        Some(Tag::Br)
    } else if name == "a"@ {
        Some(Tag::ClosingA)
    } else if name == "i"@ {
        Some(if closing { Tag::ClosingI } else { Tag::OpeningI })
    } else if name == "b"@ {
        Some(if closing { Tag::ClosingB } else { Tag::OpeningB })
    } else if name == "center"@ {
        Some(if closing { Tag::ClosingCenter } else { Tag::OpeningCenter })
    } else if name == "p"@ {
        Some(if closing { Tag::ClosingP } else { Tag::OpeningP })
    } else if name == "sub"@ {
        Some(if closing { Tag::ClosingSub } else { Tag::OpeningSub })
    } else if name == "sup"@ {
        Some(if closing { Tag::ClosingSup } else { Tag::OpeningSup })
    } else {
        None
    }
}

/// The kind of the token `t`, if it has one.
pub open spec fn detect_tag_spec(t: Seq<char>) -> Option<Tag> {
    if opens_link(t) {
        Some(Tag::OpeningA)
    } else {
        kind_of_name(bare_name(t), t.contains('/'))
    }
}

/// The error for a token that is of no kind; it carries the token.
pub open spec fn unknown_tag(t: Seq<char>) -> ScrapeErrorView {
    ScrapeErrorView::HTMLFixing("Could not detect tag "@ + t)
}

/// The ASCII letters of `text`, in lower case.
pub fn bare_name_chars(text: &Vec<char>) -> (r: Vec<char>)
    ensures
        r@ == bare_name(text@),
{
    let mut out: Vec<char> = Vec::new();
    let mut i: usize = 0;
    proof {
        reveal(Seq::filter);
        assert(text@.take(0) =~= Seq::<char>::empty());
        assert(bare_name(text@.take(0)) =~= Seq::<char>::empty());
    }
    while i < text.len()
        invariant
            i <= text.len(),
            out@ == bare_name(text@.take(i as int)),
        decreases text.len() - i,
    {
        let c = text[i];
        proof {
            reveal(Seq::filter);
            let before = text@.take(i as int);
            let now = text@.take(i + 1);
            assert(now.drop_last() =~= before);
            let letters = before.filter(|c: char| is_letter(c));
            if is_letter(c) {
                assert(letters.push(c).map_values(|c: char| lower(c)) =~= letters.map_values(
                    |c: char| lower(c),
                ).push(lower(c)));
            }
        }
        if is_letter_char(c) {
            out.push(lower_char(c));
        }
        i += 1;
    }
    assert(text@.take(text@.len() as int) =~= text@);
    out
}

/// Tells whether the characters in `text` begin like an opening link.
pub fn opens_link_chars(text: &Vec<char>) -> (b: bool)
    ensures
        b == opens_link(text@),
{
    lit_at(text, 0, "<a ") || lit_at(text, 0, "<ahref") || lit_at(text, 0, "<A ") || lit_at(
        text,
        0,
        "<la href",
    ) || lit_at(text, 0, "<href")
}

/// The kind of the tag with the bare name `name`.
pub fn kind_of_name_chars(name: &Vec<char>, closing: bool) -> (r: Option<Tag>)
    ensures
        r == kind_of_name(name@, closing),
{
    if chars_are(name, "br") {
        Some(Tag::Br)
    } else if chars_are(name, "a") {
        Some(Tag::ClosingA)
    } else if chars_are(name, "i") {
        Some(if closing { Tag::ClosingI } else { Tag::OpeningI })
    } else if chars_are(name, "b") {
        Some(if closing { Tag::ClosingB } else { Tag::OpeningB })
    } else if chars_are(name, "center") {
        Some(if closing { Tag::ClosingCenter } else { Tag::OpeningCenter })
    } else if chars_are(name, "p") {
        Some(if closing { Tag::ClosingP } else { Tag::OpeningP })
    } else if chars_are(name, "sub") {
        Some(if closing { Tag::ClosingSub } else { Tag::OpeningSub })
    } else if chars_are(name, "sup") {
        Some(if closing { Tag::ClosingSup } else { Tag::OpeningSup })
    } else {
        None
    }
}

/// The kind of the token in `text`, if it has one.
pub fn detect_tag_chars(text: &Vec<char>) -> (r: Option<Tag>)
    ensures
        r == detect_tag_spec(text@),
{
    if opens_link_chars(text) {
        Some(Tag::OpeningA)
    } else {
        let name = bare_name_chars(text);
        kind_of_name_chars(&name, has_char(text, '/'))
    }
}

/// Finds the kind of a tag-like token.
///
/// A token that begins like an opening link is one. Any other token is
/// known by its bare name, the letters it holds in lower case, and by
/// whether it holds a slash. A token of no kind is refused with an error
/// that carries it.
pub fn detect_tag(tag: &str) -> (r: Result<Tag, ScrapeError>)
    ensures
        match detect_tag_spec(tag@) {
            Some(kind) => r is Ok && r->Ok_0 == kind,
            None => r is Err && r->Err_0@ == unknown_tag(tag@),
        },
{
    let text = chars_of(tag);
    match detect_tag_chars(&text) {
        Some(kind) => Ok(kind),
        None => {
            let mut reason = String::from_str("Could not detect tag ");
            reason.append(tag);
            Err(ScrapeError::HTMLFixing(reason))
        },
    }
}

/// Where the address starts when the name of the attribute ends at `p`:
/// behind an equals sign and a double quote, with white space allowed
/// around the equals sign, or else right behind a bare equals sign or a
/// bare double quote at `p`.
pub open spec fn after_connector(s: Seq<char>, p: int) -> Option<int> {
    let eq = skip_space(s, p);
    let quote = skip_space(s, eq + 1);
    if 0 <= p && eq < s.len() && s[eq] == '=' && quote < s.len() && s[quote] == '"' {
        Some(quote + 1)
    } else if 0 <= p < s.len() && (s[p] == '=' || s[p] == '"') {
        Some(p + 1)
    } else {
        None
    }
}

/// Where the address starts when the attribute `name` stands at `p`.
pub open spec fn after_name(s: Seq<char>, p: int, name: Seq<char>) -> Option<int> {
    if has_at(s, p, name) {
        after_connector(s, p + name.len())
    } else {
        None
    }
}

/// Where the address starts when a name of the link attribute, well
/// spelled or not, stands at `p`. The spellings are tried in this order.
pub open spec fn after_href(s: Seq<char>, p: int) -> Option<int> {
    if after_name(s, p, "ref"@) is Some {
        after_name(s, p, "ref"@)
    } else if after_name(s, p, "href"@) is Some {
        after_name(s, p, "href"@)
    } else if after_name(s, p, "rhef"@) is Some {
        after_name(s, p, "rhef"@)
    } else if after_name(s, p, "hre"@) is Some {
        after_name(s, p, "hre"@)
    } else if after_name(s, p, "hef"@) is Some {
        after_name(s, p, "hef"@)
    } else if after_name(s, p, "hrf"@) is Some {
        after_name(s, p, "hrf"@)
    } else if after_name(s, p, "HREF"@) is Some {
        after_name(s, p, "HREF"@)
    } else if after_name(s, p, "h ref"@) is Some {
        after_name(s, p, "h ref"@)
    } else if after_name(s, p, "hreff"@) is Some {
        after_name(s, p, "hreff"@)
    } else {
        after_name(s, p, "herf"@)
    }
}

/// The letter that names a link tag, in either case.
pub open spec fn is_a(c: char) -> bool {
    c == 'a' || c == 'A'
}

/// Where the attribute name starts in an opening link that starts at `i`:
/// behind `<`, the tag name `a`, `A`, `la` or `lA` with the white space
/// that follows it, or right behind `<` where the tag name is missing.
pub open spec fn href_start(s: Seq<char>, i: int) -> int {
    if i + 2 < s.len() && s[i + 1] == 'l' && is_a(s[i + 2]) {
        skip_space(s, i + 3)
    } else if i + 1 < s.len() && is_a(s[i + 1]) {
        skip_space(s, i + 2)
    } else {
        i + 1
    }
}

/// Where the address starts in an opening link that starts at `i`.
pub open spec fn address_start_at(s: Seq<char>, i: int) -> Option<int> {
    if 0 <= i < s.len() && s[i] == '<' {
        after_href(s, href_start(s, i))
    } else {
        None
    }
}

/// Where the address starts in the first opening link at or after `i`.
pub open spec fn address_start(s: Seq<char>, i: int) -> Option<int>
    decreases s.len() - i,
{
    if i < 0 || i >= s.len() {
        None
    } else if address_start_at(s, i) is Some {
        address_start_at(s, i)
    } else {
        address_start(s, i + 1)
    }
}

/// The address in the opening link `t`, as it is written: what stands
/// between the start of the address and the next double quote, or the
/// closing `>` where no quote comes before it. It is empty where `t` does
/// not end in `>` or holds no link attribute.
pub open spec fn extract_url_spec(t: Seq<char>) -> Seq<char> {
    match address_start(t, 0) {
        Some(from) => {
            let quote = find_char(t, from, '"');
            let to = if quote < t.len() - 1 {
                quote
            } else {
                t.len() - 1
            };
            if t.len() > 0 && t[t.len() - 1] == '>' && 0 <= from <= to {
                t.subrange(from, to)
            } else {
                Seq::empty()
            }
        },
        None => Seq::empty(),
    }
}

fn after_connector_in(text: &Vec<char>, p: usize) -> (r: Option<usize>)
    requires
        p <= text.len(),
    ensures
        match r {
            Some(at) => after_connector(text@, p as int) == Some(at as int) && at <= text.len(),
            None => after_connector(text@, p as int) is None,
        },
{
    let eq = skip_space_in(text, p);
    if eq < text.len() && text[eq] == '=' {
        let quote = skip_space_in(text, eq + 1);
        if quote < text.len() && text[quote] == '"' {
            return Some(quote + 1);
        }
    }
    if p < text.len() && (text[p] == '=' || text[p] == '"') {
        Some(p + 1)
    } else {
        None
    }
}

fn after_name_in(text: &Vec<char>, p: usize, name: &str) -> (r: Option<usize>)
    requires
        p <= text.len(),
    ensures
        match r {
            Some(at) => after_name(text@, p as int, name@) == Some(at as int) && at <= text.len(),
            None => after_name(text@, p as int, name@) is None,
        },
{
    if lit_at(text, p, name) {
        let n = name.unicode_len();
        after_connector_in(text, p + n)
    } else {
        None
    }
}

fn after_href_in(text: &Vec<char>, p: usize) -> (r: Option<usize>)
    requires
        p <= text.len(),
    ensures
        match r {
            Some(at) => after_href(text@, p as int) == Some(at as int) && at <= text.len(),
            None => after_href(text@, p as int) is None,
        },
{
    let mut found = after_name_in(text, p, "ref");
    if found.is_none() {
        found = after_name_in(text, p, "href");
    }
    if found.is_none() {
        found = after_name_in(text, p, "rhef");
    }
    if found.is_none() {
        found = after_name_in(text, p, "hre");
    }
    if found.is_none() {
        found = after_name_in(text, p, "hef");
    }
    if found.is_none() {
        found = after_name_in(text, p, "hrf");
    }
    if found.is_none() {
        found = after_name_in(text, p, "HREF");
    }
    if found.is_none() {
        found = after_name_in(text, p, "h ref");
    }
    if found.is_none() {
        found = after_name_in(text, p, "hreff");
    }
    if found.is_none() {
        found = after_name_in(text, p, "herf");
    }
    found
}

fn address_start_in(text: &Vec<char>) -> (r: Option<usize>)
    ensures
        match r {
            Some(at) => address_start(text@, 0) == Some(at as int) && at <= text.len(),
            None => address_start(text@, 0) is None,
        },
{
    let mut i: usize = 0;
    while i < text.len()
        invariant
            i <= text.len(),
            address_start(text@, 0) == address_start(text@, i as int),
        decreases text.len() - i,
    {
        if text[i] == '<' {
            let left = text.len() - i;
            let p = if left > 2 && text[i + 1] == 'l' && (text[i + 2] == 'a' || text[i + 2]
                == 'A') {
                skip_space_in(text, i + 3)
            } else if left > 1 && (text[i + 1] == 'a' || text[i + 1] == 'A') {
                skip_space_in(text, i + 2)
            } else {
                i + 1
            };
            let found = after_href_in(text, p);
            if found.is_some() {
                return found;
            }
        }
        i += 1;
    }
    None
}

/// The range of `text` that holds the address of the opening link.
pub fn find_url(text: &Vec<char>) -> (r: (usize, usize))
    ensures
        r.0 <= r.1 <= text.len(),
        text@.subrange(r.0 as int, r.1 as int) == extract_url_spec(text@),
{
    let n = text.len();
    if n > 0 && text[n - 1] == '>' {
        match address_start_in(text) {
            Some(from) => {
                let quote = find_char_in(text, from, '"');
                let to = if quote < n - 1 {
                    quote
                } else {
                    n - 1
                };
                if from <= to {
                    return (from, to);
                }
            },
            None => {},
        }
    }
    assert(text@.subrange(0, 0) =~= Seq::<char>::empty());
    (0, 0)
}

/// Takes the address out of an opening link, as it is written there.
///
/// The link may be written with its tag name in upper case, missing or
/// preceded by an `l`, with a misspelled `href`, with or without an equals
/// sign and quotes, and with more attributes or a stray `</a>` behind the
/// address. The result is empty where no address can be found.
pub fn extract_url(tag: &str) -> (r: &str)
    ensures
        r@ == extract_url_spec(tag@),
{
    let text = chars_of(tag);
    let (from, to) = find_url(&text);
    tag.substring_char(from, to)
}

/// The canonical opening link for the token `t`: `<a href="`, the address
/// of `t` in canonical form, and `">`; nothing where `t` gives no address.
pub open spec fn fix_opening_a_tag_spec(t: Seq<char>) -> Seq<char> {
    let url = extract_url_spec(t);
    if url.len() == 0 {
        Seq::empty()
    } else {
        link_head() + normalize_url_spec(url) + link_tail()
    }
}

/// The canonical text for the token `t` of kind `kind`.
pub open spec fn fix_tag_spec(t: Seq<char>, kind: Tag) -> Seq<char> {
    if kind == Tag::OpeningA {
        fix_opening_a_tag_spec(t)
    } else {
        plain_tag(kind)
    }
}

/// What `normalize_html_tag` returns for the token `t`.
pub open spec fn normalize_html_tag_spec(t: Seq<char>) -> Result<Seq<char>, ScrapeErrorView> {
    if is_canonical(t) {
        Ok(t)
    } else {
        match detect_tag_spec(t) {
            Some(kind) => Ok(fix_tag_spec(t, kind)),
            None => Err(unknown_tag(t)),
        }
    }
}

/// The canonical opening link for the token in `text`.
pub fn fix_opening_a_tag_chars(text: &Vec<char>) -> (r: Vec<char>)
    ensures
        r@ == fix_opening_a_tag_spec(text@),
{
    let (from, to) = find_url(text);
    let mut out: Vec<char> = Vec::new();
    if from < to {
        let mut url: Vec<char> = Vec::new();
        push_range(&mut url, text, from, to);
        assert(url@ =~= text@.subrange(from as int, to as int));
        let address = normalize_url_chars(&url);
        push_lit(&mut out, "<a href=\"");
        push_range(&mut out, &address, 0, address.len());
        push_lit(&mut out, "\">");
        assert(address@.subrange(0, address@.len() as int) =~= address@);
        assert(out@ =~= link_head() + address@ + link_tail());
    }
    out
}

/// Writes an opening link in canonical form.
///
/// The address is taken out of the token and normalized. Where the token
/// gives no address the result is empty: such a link is dropped.
pub fn fix_opening_a_tag(tag: &str) -> (r: String)
    ensures
        r@ == fix_opening_a_tag_spec(tag@),
        r@.len() == 0 || is_link_tag(r@),
{
    proof {
        lemma_fixed_link_is_canonical(tag@);
    }
    let text = chars_of(tag);
    let out = fix_opening_a_tag_chars(&text);
    string_of(&out)
}

/// The canonical text for the token in `text`, whose kind is `kind`.
pub fn fix_tag_chars(text: &Vec<char>, kind: Tag) -> (r: Vec<char>)
    ensures
        r@ == fix_tag_spec(text@, kind),
{
    match kind {
        Tag::Br => chars_of("<br>"),
        Tag::OpeningA => fix_opening_a_tag_chars(text),
        Tag::ClosingA => chars_of("</a>"),
        Tag::OpeningB => chars_of("<b>"),
        Tag::ClosingB => chars_of("</b>"),
        Tag::OpeningI => chars_of("<i>"),
        Tag::ClosingI => chars_of("</i>"),
        Tag::OpeningCenter => chars_of("<center>"),
        Tag::ClosingCenter => chars_of("</center>"),
        Tag::OpeningP => chars_of("<p>"),
        Tag::ClosingP => chars_of("</p>"),
        Tag::OpeningSup => chars_of("<sup>"),
        Tag::ClosingSup => chars_of("</sup>"),
        Tag::OpeningSub => chars_of("<sub>"),
        Tag::ClosingSub => chars_of("</sub>"),
    }
}

/// Writes the token `tag`, whose kind is `tag_type`, in canonical form.
pub fn fix_tag(tag: &str, tag_type: &Tag) -> (r: String)
    ensures
        r@ == fix_tag_spec(tag@, *tag_type),
{
    let text = chars_of(tag);
    let out = fix_tag_chars(&text, *tag_type);
    string_of(&out)
}

/// The canonical form of the token in `text`, or `None` where the token
/// is of no kind.
pub fn normalize_html_tag_chars(text: &Vec<char>) -> (r: Option<Vec<char>>)
    ensures
        match normalize_html_tag_spec(text@) {
            Ok(fixed) => r is Some && r->Some_0@ == fixed,
            Err(_) => r is None,
        },
{
    if is_canonical_chars(text) {
        let mut out: Vec<char> = Vec::new();
        push_range(&mut out, text, 0, text.len());
        assert(out@ =~= text@);
        Some(out)
    } else {
        match detect_tag_chars(text) {
            Some(kind) => Some(fix_tag_chars(text, kind)),
            None => None,
        }
    }
}

/// Maps a tag-like token to the canonical text of its tag.
///
/// A token that is canonical already comes back unchanged. Any other
/// token is classified and written anew; an opening link without an
/// address comes back empty. A token of no kind is refused with an error
/// that carries it.
pub fn normalize_html_tag(tag: &str) -> (r: Result<String, ScrapeError>)
    ensures
        match normalize_html_tag_spec(tag@) {
            Ok(fixed) => r is Ok && r->Ok_0@ == fixed,
            Err(e) => r is Err && r->Err_0@ == e,
        },
        is_canonical(tag@) ==> r is Ok && r->Ok_0@ == tag@,
        r is Ok ==> r->Ok_0@.len() == 0 || is_canonical(r->Ok_0@),
{
    proof {
        lemma_fixed_tag_is_canonical(tag@);
    }
    let text = chars_of(tag);
    match normalize_html_tag_chars(&text) {
        Some(out) => Ok(string_of(&out)),
        None => {
            let mut reason = String::from_str("Could not detect tag ");
            reason.append(tag);
            Err(ScrapeError::HTMLFixing(reason))
        },
    }
}

/// The address that is taken out of a token holds no double quote.
proof fn lemma_extract_url_is_unquoted(t: Seq<char>)
    ensures
        is_unquoted(extract_url_spec(t)),
{
    match address_start(t, 0) {
        Some(from) => {
            if 0 <= from <= t.len() {
                lemma_find_char_bounds(t, from, '"');
            }
        },
        None => {},
    }
}

/// The repair of an opening link gives a canonical opening link, or
/// nothing.
pub proof fn lemma_fixed_link_is_canonical(t: Seq<char>)
    ensures
        fix_opening_a_tag_spec(t).len() == 0 || is_link_tag(fix_opening_a_tag_spec(t)),
{
    let url = extract_url_spec(t);
    if url.len() > 0 {
        lemma_extract_url_is_unquoted(t);
        lemma_normalize_url_is_address(url);
        let address = normalize_url_spec(url);
        let fixed = link_head() + address + link_tail();
        reveal_strlit("<a href=\"");
        reveal_strlit("\">");
        assert(fixed.subrange(0, 9) =~= link_head());
        assert(fixed.subrange(fixed.len() - 2, fixed.len() as int) =~= link_tail());
        assert forall|k: int| 9 <= k < fixed.len() - 2 implies is_address_char(
            #[trigger] fixed[k],
        ) by {
            assert(fixed[k] == address[k - 9]);
        }
    }
}

/// What the repair of a token gives is a tag in canonical form, or
/// nothing.
pub proof fn lemma_fixed_tag_is_canonical(t: Seq<char>)
    ensures
        match normalize_html_tag_spec(t) {
            Ok(fixed) => fixed.len() == 0 || is_canonical(fixed),
            Err(_) => true,
        },
{
    if !is_canonical(t) {
        match detect_tag_spec(t) {
            Some(kind) => {
                if kind == Tag::OpeningA {
                    lemma_fixed_link_is_canonical(t);
                }
            },
            None => {},
        }
    }
}

/// A tag in canonical form comes out of the repair as it went in.
pub proof fn lemma_canonical_tag_is_kept(t: Seq<char>)
    requires
        is_canonical(t),
    ensures
        normalize_html_tag_spec(t) == Ok::<Seq<char>, ScrapeErrorView>(t),
{
}

} // verus!

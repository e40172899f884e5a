//! Canonical form of a link or media address taken out of markup.

use crate::chars::{
    chars_of, has_at, is_alnum, is_alnum_char, is_letter, is_letter_char, lit_at, push_range,
    replace_all, replace_from, replace_lit, string_of,
};
use vstd::prelude::*;

verus! {

/// The address under which relative paths of the archive are found.
pub open spec fn base_url() -> Seq<char> {
    "https://apod.nasa.gov/apod/"@
}

/// Characters that never belong to an address and are taken out of it.
pub open spec fn is_stray(c: char) -> bool {
    c == '\n' || c == ' ' || c == '\t' || c == '>' || c == '<'
}

/// `s` without its stray characters.
pub open spec fn strip_stray(s: Seq<char>) -> Seq<char> {
    s.filter(|c: char| !is_stray(c))
}

/// One round of undoing the idioms that hide a mail address, in order:
/// `@at@` and `[at]` stand for `@`; `.dot.`, `[dot]` and `.d.o.t.` for `.`.
pub open spec fn reveal_address_once(s: Seq<char>) -> Seq<char> {
    let a = replace_all(s, "@at@"@, "@"@);
    let b = replace_all(a, "[at]"@, "@"@);
    let c = replace_all(b, ".dot."@, "."@);
    let d = replace_all(c, "[dot]"@, "."@);
    replace_all(d, ".d.o.t."@, "."@)
}

/// Rounds of `reveal_address_once`, until one shortens the text no more.
/// Every replacement shortens the text, so that round changes nothing.
pub open spec fn reveal_address(s: Seq<char>) -> Seq<char>
    decreases s.len(),
{
    let next = reveal_address_once(s);
    if next.len() < s.len() {
        reveal_address(next)
    } else {
        s
    }
}

/// Characters that a host-name label may hold: ASCII letters, digits and
/// the hyphen.
pub open spec fn is_label_char(c: char) -> bool {
    is_alnum(c) || c == '-'
}

/// The end of the run of label characters that starts at `i`.
pub open spec fn label_end(s: Seq<char>, i: int) -> int
    decreases s.len() - i,
{
    if 0 <= i < s.len() && is_label_char(s[i]) {
        label_end(s, i + 1)
    } else {
        i
    }
}

/// The end of the run of ASCII letters that starts at `i`.
pub open spec fn letters_end(s: Seq<char>, i: int) -> int
    decreases s.len() - i,
{
    if 0 <= i < s.len() && is_letter(s[i]) {
        letters_end(s, i + 1)
    } else {
        i
    }
}

/// The run of letters that starts at `i` ends at or behind `i`, within `s`.
pub proof fn lemma_letters_end_bounds(s: Seq<char>, i: int)
    requires
        0 <= i <= s.len(),
    ensures
        i <= letters_end(s, i) <= s.len(),
    decreases s.len() - i,
{
    if i < s.len() && is_letter(s[i]) {
        lemma_letters_end_bounds(s, i + 1);
    }
}

/// A host-name label and the dot behind it start at `i`: a run of letters,
/// digits and hyphens that begins and ends with a letter or a digit.
pub open spec fn label_at(s: Seq<char>, i: int) -> bool {
    let e = label_end(s, i);
    0 <= i < e && e < s.len() && s[e] == '.' && is_alnum(s[i]) && is_alnum(s[e - 1])
}

/// A top-level label starts at `i`: two letters or more.
pub open spec fn top_label_at(s: Seq<char>, i: int) -> bool {
    letters_end(s, i) - i >= 2
}

/// Where the top-level label of a host name lies whose further labels start
/// at `i`; `labelled` tells whether a label stands before `i`. As many
/// labels as possible are taken before the top-level label.
pub open spec fn top_label_from(s: Seq<char>, i: int, labelled: bool) -> Option<(int, int)>
    decreases s.len() - i,
{
    let deeper = if label_at(s, i) {
        top_label_from(s, label_end(s, i) + 1, true)
    } else {
        None
    };
    if deeper is Some {
        deeper
    } else if labelled && top_label_at(s, i) {
        Some((i, letters_end(s, i)))
    } else {
        None
    }
}

/// The top-level label of the host name that `s` starts with, if `s`
/// starts with one.
pub open spec fn top_label(s: Seq<char>) -> Option<Seq<char>> {
    match top_label_from(s, 0, false) {
        Some((from, to)) => Some(s.subrange(from, to)),
        None => None,
    }
}

/// The endings of files of the archive; a last label that is one of them
/// ends a path, not a host name.
pub open spec fn is_page_ending(t: Seq<char>) -> bool {
    t == "html"@ || t == "jpg"@ || t == "jpeg"@ || t == "png"@ || t == "swf"@ || t == "gif"@ || t
        == "htm"@ || t == "asp"@ || t == "php"@
}

/// `s` names the scheme `http` or `https`.
pub open spec fn has_scheme(s: Seq<char>) -> bool {
    has_at(s, 0, "http://"@) || has_at(s, 0, "https://"@)
}

/// `s` is a path within the archive: it names no scheme, and it starts
/// with no host name, or with what looks like one and ends in a file
/// ending.
pub open spec fn is_relative(s: Seq<char>) -> bool {
    !has_scheme(s) && match top_label(s) {
        Some(t) => is_page_ending(t),
        None => true,
    }
}

/// The canonical form of the address `url`.
pub open spec fn normalize_url_spec(url: Seq<char>) -> Seq<char> {
    let clean = strip_stray(url);
    if has_at(clean, 0, "mailto:"@) {
        reveal_address(clean)
    } else if has_at(clean, 0, "//"@) {
        "https:"@ + clean
    } else if is_relative(clean) {
        base_url() + clean
    } else {
        clean
    }
}

/// A replacement that is no longer than what it replaces cannot lengthen
/// the text, and one that is shorter leaves the length alone only where
/// it leaves the text alone.
pub proof fn lemma_replace_shrinks(s: Seq<char>, i: int, pat: Seq<char>, rep: Seq<char>)
    requires
        0 <= i <= s.len(),
        rep.len() < pat.len(),
    ensures
        replace_from(s, i, pat, rep).len() <= s.len() - i,
        replace_from(s, i, pat, rep).len() == s.len() - i ==> replace_from(s, i, pat, rep)
            == s.subrange(i, s.len() as int),
    decreases s.len() - i,
{
    if i < s.len() {
        if has_at(s, i, pat) {
            lemma_replace_shrinks(s, i + pat.len(), pat, rep);
        } else {
            lemma_replace_shrinks(s, i + 1, pat, rep);
            if replace_from(s, i, pat, rep).len() == s.len() - i {
                assert(replace_from(s, i, pat, rep) =~= s.subrange(i, s.len() as int));
            }
        }
    } else {
        assert(replace_from(s, i, pat, rep) =~= s.subrange(i, s.len() as int));
    }
}

/// A round of `reveal_address_once` that does not shorten the text does
/// not change it.
pub proof fn lemma_reveal_once_shrinks(s: Seq<char>)
    ensures
        reveal_address_once(s).len() <= s.len(),
        reveal_address_once(s).len() == s.len() ==> reveal_address_once(s) == s,
{
    reveal_strlit("@at@");
    reveal_strlit("[at]");
    reveal_strlit(".dot.");
    reveal_strlit("[dot]");
    reveal_strlit(".d.o.t.");
    reveal_strlit("@");
    reveal_strlit(".");
    let a = replace_all(s, "@at@"@, "@"@);
    let b = replace_all(a, "[at]"@, "@"@);
    let c = replace_all(b, ".dot."@, "."@);
    let d = replace_all(c, "[dot]"@, "."@);
    let e = replace_all(d, ".d.o.t."@, "."@);
    lemma_replace_shrinks(s, 0, "@at@"@, "@"@);
    lemma_replace_shrinks(a, 0, "[at]"@, "@"@);
    lemma_replace_shrinks(b, 0, ".dot."@, "."@);
    lemma_replace_shrinks(c, 0, "[dot]"@, "."@);
    lemma_replace_shrinks(d, 0, ".d.o.t."@, "."@);
    assert(s.subrange(0, s.len() as int) =~= s);
    assert(a.subrange(0, a.len() as int) =~= a);
    assert(b.subrange(0, b.len() as int) =~= b);
    assert(c.subrange(0, c.len() as int) =~= c);
    assert(d.subrange(0, d.len() as int) =~= d);
}

/// `text` without its stray characters.
pub fn strip_stray_chars(text: &Vec<char>) -> (r: Vec<char>)
    ensures
        r@ == strip_stray(text@),
{
    let mut out: Vec<char> = Vec::new();
    let mut i: usize = 0;
    proof {
        reveal(Seq::filter);
        assert(text@.take(0) =~= Seq::<char>::empty());
    }
    while i < text.len()
        invariant
            i <= text.len(),
            out@ == strip_stray(text@.take(i as int)),
        decreases text.len() - i,
    {
        let c = text[i];
        proof {
            reveal(Seq::filter);
            assert(text@.take(i + 1).drop_last() =~= text@.take(i as int));
        }
        if !(c == '\n' || c == ' ' || c == '\t' || c == '>' || c == '<') {
            out.push(c);
        }
        i += 1;
    }
    assert(text@.take(text@.len() as int) =~= text@);
    out
}

/// One round of undoing the idioms that hide a mail address.
fn reveal_address_round(text: &Vec<char>) -> (r: Vec<char>)
    ensures
        r@ == reveal_address_once(text@),
{
    let a = replace_lit(text, "@at@", "@");
    let b = replace_lit(&a, "[at]", "@");
    let c = replace_lit(&b, ".dot.", ".");
    let d = replace_lit(&c, "[dot]", ".");
    replace_lit(&d, ".d.o.t.", ".")
}

/// `text` with every idiom that hides a mail address undone.
pub fn reveal_address_chars(text: Vec<char>) -> (r: Vec<char>)
    ensures
        r@ == reveal_address(text@),
{
    let mut cur = text;
    loop
        invariant
            reveal_address(cur@) == reveal_address(text@),
        decreases cur.len(),
    {
        let next = reveal_address_round(&cur);
        proof {
            lemma_reveal_once_shrinks(cur@);
        }
        if next.len() < cur.len() {
            cur = next;
        } else {
            return cur;
        }
    }
}

fn label_end_in(text: &Vec<char>, i: usize) -> (r: usize)
    requires
        i <= text.len(),
    ensures
        r == label_end(text@, i as int),
        i <= r <= text.len(),
{
    let mut j = i;
    while j < text.len() && (is_alnum_char(text[j]) || text[j] == '-')
        invariant
            i <= j <= text.len(),
            label_end(text@, i as int) == label_end(text@, j as int),
        decreases text.len() - j,
    {
        j += 1;
    }
    j
}

/// The end of the run of ASCII letters that starts at `i`.
pub fn letters_end_in(text: &Vec<char>, i: usize) -> (r: usize)
    requires
        i <= text.len(),
    ensures
        r == letters_end(text@, i as int),
        i <= r <= text.len(),
{
    let mut j = i;
    while j < text.len() && is_letter_char(text[j])
        invariant
            i <= j <= text.len(),
            letters_end(text@, i as int) == letters_end(text@, j as int),
        decreases text.len() - j,
    {
        j += 1;
    }
    j
}

/// Where the top-level label of the host name lies that `text` starts with.
pub fn find_top_label(text: &Vec<char>) -> (r: Option<(usize, usize)>)
    ensures
        match r {
            Some((from, to)) => top_label_from(text@, 0, false) == Some((from as int, to as int))
                && from <= to <= text.len(),
            None => top_label_from(text@, 0, false) is None,
        },
{
    let mut best: Option<(usize, usize)> = None;
    let mut labelled = false;
    let mut i: usize = 0;
    loop
        invariant
            i <= text.len(),
            match best {
                Some((from, to)) => from <= to <= text.len(),
                None => true,
            },
            top_label_from(text@, 0, false) == match top_label_from(text@, i as int, labelled) {
                Some(found) => Some(found),
                None => match best {
                    Some((from, to)) => Some((from as int, to as int)),
                    None => None,
                },
            },
        decreases text.len() - i,
    {
        let top_end = letters_end_in(text, i);
        let here = if labelled && top_end - i >= 2 {
            Some((i, top_end))
        } else {
            best
        };
        let e = label_end_in(text, i);
        if i < e && e < text.len() && text[e] == '.' && is_alnum_char(text[i]) && is_alnum_char(
            text[e - 1],
        ) {
            best = here;
            labelled = true;
            i = e + 1;
        } else {
            return here;
        }
    }
}

/// Tells whether `t` is one of the file endings of the archive.
fn is_page_ending_chars(t: &Vec<char>) -> (b: bool)
    ensures
        b == is_page_ending(t@),
{
    let n = t.len();
    proof {
        reveal_strlit("html");
        reveal_strlit("jpg");
        reveal_strlit("jpeg");
        reveal_strlit("png");
        reveal_strlit("swf");
        reveal_strlit("gif");
        reveal_strlit("htm");
        reveal_strlit("asp");
        reveal_strlit("php");
        assert(t@.subrange(0, t@.len() as int) =~= t@);
    }
    (n == 4 && (lit_at(t, 0, "html") || lit_at(t, 0, "jpeg"))) || (n == 3 && (lit_at(t, 0, "jpg")
        || lit_at(t, 0, "png") || lit_at(t, 0, "swf") || lit_at(t, 0, "gif") || lit_at(t, 0, "htm")
        || lit_at(t, 0, "asp") || lit_at(t, 0, "php")))
}

/// Tells whether `text` is a path within the archive.
pub fn is_relative_chars(text: &Vec<char>) -> (b: bool)
    ensures
        b == is_relative(text@),
{
    if lit_at(text, 0, "http://") || lit_at(text, 0, "https://") {
        return false;
    }
    match find_top_label(text) {
        Some((from, to)) => {
            let mut label: Vec<char> = Vec::new();
            push_range(&mut label, text, from, to);
            assert(label@ =~= text@.subrange(from as int, to as int));
            is_page_ending_chars(&label)
        },
        None => true,
    }
}

/// Tells whether `url` is a path within the archive rather than a full
/// address: it names no scheme and starts with no host name, or the host
/// name it seems to start with ends in a file ending.
pub fn is_rel_website_url(url: &str) -> (b: bool)
    ensures
        b == is_relative(url@),
{
    let text = chars_of(url);
    is_relative_chars(&text)
}

/// The canonical form of the characters of an address.
pub fn normalize_url_chars(url: &Vec<char>) -> (r: Vec<char>)
    ensures
        r@ == normalize_url_spec(url@),
{
    let clean = strip_stray_chars(url);
    if lit_at(&clean, 0, "mailto:") {
        reveal_address_chars(clean)
    } else if lit_at(&clean, 0, "//") {
        let mut out = chars_of("https:");
        push_range(&mut out, &clean, 0, clean.len());
        assert(clean@.subrange(0, clean@.len() as int) =~= clean@);
        out
    } else if is_relative_chars(&clean) {
        let mut out = chars_of("https://apod.nasa.gov/apod/");
        push_range(&mut out, &clean, 0, clean.len());
        assert(clean@.subrange(0, clean@.len() as int) =~= clean@);
        out
    } else {
        clean
    }
}

/// Brings a raw address into canonical form.
///
/// Line feeds, tabs, spaces and angle brackets are taken out. A `mailto:`
/// address then has its hiding idioms undone; an address that starts with
/// `//` gets `https:` in front; a path within the archive gets the
/// archive's base address in front; any other address stays as it is.
pub fn normalize_url(url: &str) -> (r: String)
    ensures
        r@ == normalize_url_spec(url@),
        normalize_url_spec(r@) == r@,
{
    proof {
        lemma_normalize_url_idempotent(url@);
    }
    let text = chars_of(url);
    let out = normalize_url_chars(&text);
    string_of(&out)
}

/// No character of `s` is stray.
pub open spec fn is_clean(s: Seq<char>) -> bool {
    forall|k: int| 0 <= k < s.len() ==> !is_stray(#[trigger] s[k])
}

proof fn lemma_strip_gives_clean(s: Seq<char>)
    ensures
        is_clean(strip_stray(s)),
        is_clean(s) ==> strip_stray(s) == s,
    decreases s.len(),
{
    reveal(Seq::filter);
    if s.len() > 0 {
        lemma_strip_gives_clean(s.drop_last());
        if is_clean(s) {
            assert(is_clean(s.drop_last()));
            assert(!is_stray(s[s.len() - 1]));
            assert(s.drop_last().push(s.last()) =~= s);
        }
    }
}

proof fn lemma_replace_keeps_clean(s: Seq<char>, i: int, pat: Seq<char>, rep: Seq<char>)
    requires
        0 <= i <= s.len(),
        is_clean(s),
        is_clean(rep),
    ensures
        is_clean(replace_from(s, i, pat, rep)),
    decreases s.len() - i,
{
    if i < s.len() {
        if pat.len() > 0 && has_at(s, i, pat) {
            lemma_replace_keeps_clean(s, i + pat.len(), pat, rep);
        } else {
            lemma_replace_keeps_clean(s, i + 1, pat, rep);
        }
    }
}

/// Where `pat` occurs nowhere in `s` from `i` to `k`, replacing it leaves
/// those characters as they are.
proof fn lemma_replace_keeps_head(s: Seq<char>, i: int, k: int, pat: Seq<char>, rep: Seq<char>)
    requires
        0 <= i <= k <= s.len(),
        forall|j: int| i <= j < k ==> !has_at(s, j, pat),
    ensures
        replace_from(s, i, pat, rep).len() >= k - i,
        replace_from(s, i, pat, rep).subrange(0, k - i) == s.subrange(i, k),
    decreases k - i,
{
    if i < k {
        lemma_replace_keeps_head(s, i + 1, k, pat, rep);
        let tail = replace_from(s, i + 1, pat, rep);
        assert(replace_from(s, i, pat, rep) == seq![s[i]] + tail);
        assert((seq![s[i]] + tail).subrange(0, k - i) =~= seq![s[i]] + tail.subrange(0, k - i - 1));
        assert(s.subrange(i, k) =~= seq![s[i]] + s.subrange(i + 1, k));
    } else {
        assert(replace_from(s, i, pat, rep).subrange(0, 0) =~= s.subrange(i, k));
    }
}

/// One replacement of a round keeps a `mailto:` address clean and keeps
/// its scheme, as long as what is replaced starts with none of the letters
/// of the scheme.
proof fn lemma_replace_keeps_mailto(s: Seq<char>, pat: Seq<char>, rep: Seq<char>)
    requires
        has_at(s, 0, "mailto:"@),
        is_clean(s),
        is_clean(rep),
        pat.len() > 0,
        pat[0] == '@' || pat[0] == '[' || pat[0] == '.',
    ensures
        has_at(replace_all(s, pat, rep), 0, "mailto:"@),
        is_clean(replace_all(s, pat, rep)),
{
    reveal_strlit("mailto:");
    lemma_replace_keeps_clean(s, 0, pat, rep);
    assert forall|j: int| 0 <= j < 7 implies !has_at(s, j, pat) by {
        assert(s.subrange(0, 7)[j] == s[j]);
        if has_at(s, j, pat) {
            assert(s.subrange(j, j + pat.len())[0] == pat[0]);
        }
    }
    lemma_replace_keeps_head(s, 0, 7, pat, rep);
}

proof fn lemma_reveal_once_keeps_mailto(s: Seq<char>)
    requires
        has_at(s, 0, "mailto:"@),
        is_clean(s),
    ensures
        has_at(reveal_address_once(s), 0, "mailto:"@),
        is_clean(reveal_address_once(s)),
{
    reveal_strlit("@at@");
    reveal_strlit("[at]");
    reveal_strlit(".dot.");
    reveal_strlit("[dot]");
    reveal_strlit(".d.o.t.");
    reveal_strlit("@");
    reveal_strlit(".");
    let a = replace_all(s, "@at@"@, "@"@);
    let b = replace_all(a, "[at]"@, "@"@);
    let c = replace_all(b, ".dot."@, "."@);
    let d = replace_all(c, "[dot]"@, "."@);
    lemma_replace_keeps_mailto(s, "@at@"@, "@"@);
    lemma_replace_keeps_mailto(a, "[at]"@, "@"@);
    lemma_replace_keeps_mailto(b, ".dot."@, "."@);
    lemma_replace_keeps_mailto(c, "[dot]"@, "."@);
    lemma_replace_keeps_mailto(d, ".d.o.t."@, "."@);
}

/// What `reveal_address` returns is a clean `mailto:` address if what it
/// was given is one, and `reveal_address` leaves it as it is.
proof fn lemma_reveal_address_settles(s: Seq<char>)
    ensures
        reveal_address(reveal_address(s)) == reveal_address(s),
        has_at(s, 0, "mailto:"@) && is_clean(s) ==> has_at(reveal_address(s), 0, "mailto:"@)
            && is_clean(reveal_address(s)),
    decreases s.len(),
{
    let next = reveal_address_once(s);
    if next.len() < s.len() {
        lemma_reveal_address_settles(next);
        if has_at(s, 0, "mailto:"@) && is_clean(s) {
            lemma_reveal_once_keeps_mailto(s);
        }
    }
}

/// No character of `s` is a double quote.
pub open spec fn is_unquoted(s: Seq<char>) -> bool {
    forall|k: int| 0 <= k < s.len() ==> #[trigger] s[k] != '"'
}

proof fn lemma_strip_keeps_unquoted(s: Seq<char>)
    requires
        is_unquoted(s),
    ensures
        is_unquoted(strip_stray(s)),
    decreases s.len(),
{
    reveal(Seq::filter);
    if s.len() > 0 {
        assert(is_unquoted(s.drop_last()));
        lemma_strip_keeps_unquoted(s.drop_last());
        assert(s[s.len() - 1] != '"');
    }
}

proof fn lemma_replace_keeps_unquoted(s: Seq<char>, i: int, pat: Seq<char>, rep: Seq<char>)
    requires
        0 <= i <= s.len(),
        is_unquoted(s),
        is_unquoted(rep),
    ensures
        is_unquoted(replace_from(s, i, pat, rep)),
    decreases s.len() - i,
{
    if i < s.len() {
        if pat.len() > 0 && has_at(s, i, pat) {
            lemma_replace_keeps_unquoted(s, i + pat.len(), pat, rep);
        } else {
            lemma_replace_keeps_unquoted(s, i + 1, pat, rep);
        }
    }
}

proof fn lemma_reveal_address_keeps_unquoted(s: Seq<char>)
    requires
        is_unquoted(s),
    ensures
        is_unquoted(reveal_address(s)),
    decreases s.len(),
{
    let next = reveal_address_once(s);
    if next.len() < s.len() {
        reveal_strlit("@");
        reveal_strlit(".");
        let a = replace_all(s, "@at@"@, "@"@);
        let b = replace_all(a, "[at]"@, "@"@);
        let c = replace_all(b, ".dot."@, "."@);
        let d = replace_all(c, "[dot]"@, "."@);
        lemma_replace_keeps_unquoted(s, 0, "@at@"@, "@"@);
        lemma_replace_keeps_unquoted(a, 0, "[at]"@, "@"@);
        lemma_replace_keeps_unquoted(b, 0, ".dot."@, "."@);
        lemma_replace_keeps_unquoted(c, 0, "[dot]"@, "."@);
        lemma_replace_keeps_unquoted(d, 0, ".d.o.t."@, "."@);
        lemma_reveal_address_keeps_unquoted(next);
    }
}

proof fn lemma_front_keeps_unquoted(front: Seq<char>, s: Seq<char>)
    requires
        is_unquoted(front),
        is_unquoted(s),
    ensures
        is_unquoted(front + s),
{
    assert forall|k: int| 0 <= k < (front + s).len() implies #[trigger] (front + s)[k] != '"' by {
        if k >= front.len() {
            assert((front + s)[k] == s[k - front.len()]);
        } else {
            assert((front + s)[k] == front[k]);
        }
    }
}

/// The canonical form of an address without double quote is not empty
/// and holds neither a double quote nor a stray character.
pub proof fn lemma_normalize_url_is_address(url: Seq<char>)
    requires
        is_unquoted(url),
    ensures
        normalize_url_spec(url).len() > 0,
        is_unquoted(normalize_url_spec(url)),
        is_clean(normalize_url_spec(url)),
{
    let clean = strip_stray(url);
    lemma_strip_gives_clean(url);
    lemma_strip_keeps_unquoted(url);
    if has_at(clean, 0, "mailto:"@) {
        lemma_reveal_address_settles(clean);
        lemma_reveal_address_keeps_unquoted(clean);
        reveal_strlit("mailto:");
    } else if has_at(clean, 0, "//"@) {
        lemma_scheme_in_front(clean);
        reveal_strlit("https:");
        lemma_front_keeps_unquoted("https:"@, clean);
    } else if is_relative(clean) {
        lemma_base_in_front(clean);
        reveal_strlit("https://apod.nasa.gov/apod/");
        lemma_front_keeps_unquoted(base_url(), clean);
    } else {
        if clean.len() == 0 {
            assert(!has_scheme(clean)) by {
                reveal_strlit("http://");
                reveal_strlit("https://");
            }
            assert(top_label_from(clean, 0, false) is None);
            assert(is_relative(clean));
        }
    }
}

/// A clean address that names the scheme `https` is in canonical form.
proof fn lemma_https_is_settled(r: Seq<char>)
    requires
        is_clean(r),
        has_at(r, 0, "https://"@),
    ensures
        normalize_url_spec(r) == r,
{
    reveal_strlit("mailto:");
    reveal_strlit("//");
    reveal_strlit("https://");
    lemma_strip_gives_clean(r);
    assert(r.subrange(0, 8)[0] == r[0]);
    assert(has_at(r, 0, "mailto:"@) ==> r.subrange(0, 7)[0] == 'm');
    assert(has_at(r, 0, "//"@) ==> r.subrange(0, 2)[0] == '/');
    assert(has_scheme(r));
}

proof fn lemma_scheme_in_front(clean: Seq<char>)
    requires
        is_clean(clean),
        has_at(clean, 0, "//"@),
    ensures
        is_clean("https:"@ + clean),
        has_at("https:"@ + clean, 0, "https://"@),
{
    reveal_strlit("//");
    reveal_strlit("https:");
    reveal_strlit("https://");
    let r = "https:"@ + clean;
    assert(clean.subrange(0, 2)[0] == clean[0]);
    assert(clean.subrange(0, 2)[1] == clean[1]);
    assert(r.subrange(0, 8) =~= "https://"@);
    assert forall|k: int| 0 <= k < r.len() implies !is_stray(#[trigger] r[k]) by {
        if k >= 6 {
            assert(r[k] == clean[k - 6]);
        }
    }
}

proof fn lemma_base_in_front(clean: Seq<char>)
    requires
        is_clean(clean),
    ensures
        is_clean(base_url() + clean),
        has_at(base_url() + clean, 0, "https://"@),
{
    reveal_strlit("https://apod.nasa.gov/apod/");
    reveal_strlit("https://");
    let r = base_url() + clean;
    assert(r.subrange(0, 8) =~= "https://"@);
    assert forall|k: int| 0 <= k < r.len() implies !is_stray(#[trigger] r[k]) by {
        if k >= 27 {
            assert(r[k] == clean[k - 27]);
        }
    }
}

/// Normalizing an address that is already normalized changes nothing.
pub proof fn lemma_normalize_url_idempotent(url: Seq<char>)
    ensures
        normalize_url_spec(normalize_url_spec(url)) == normalize_url_spec(url),
{
    let clean = strip_stray(url);
    let once = normalize_url_spec(url);
    lemma_strip_gives_clean(url);
    if has_at(clean, 0, "mailto:"@) {
        lemma_reveal_address_settles(clean);
        lemma_strip_gives_clean(once);
    } else if has_at(clean, 0, "//"@) {
        lemma_scheme_in_front(clean);
        lemma_https_is_settled(once);
    } else if is_relative(clean) {
        lemma_base_in_front(clean);
        lemma_https_is_settled(once);
    } else {
        lemma_strip_gives_clean(clean);
    }
}

} // verus!

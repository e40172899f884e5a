//! Character classes and small scanning helpers over character sequences.
//!
//! Every text-processing step of this library is specified over `Seq<char>`
//! and runs over `Vec<char>`; this module holds the vocabulary the steps share.

use vstd::prelude::*;

verus! {

/// `String::push` appends the given character to the end of the string.
pub assume_specification[ String::push ](s: &mut String, ch: char)
    ensures
        final(s)@ == old(s)@.push(ch),
;

/// Characters with the Unicode `White_Space` property.
pub open spec fn is_space(c: char) -> bool {
    ('\u{9}' <= c && c <= '\u{d}') || c == ' ' || c == '\u{85}' || c == '\u{a0}' || c
        == '\u{1680}' || ('\u{2000}' <= c && c <= '\u{200a}') || c == '\u{2028}' || c
        == '\u{2029}' || c == '\u{202f}' || c == '\u{205f}' || c == '\u{3000}'
}

/// ASCII letters in upper case.
pub open spec fn is_upper(c: char) -> bool {
    'A' <= c && c <= 'Z'
}

/// ASCII letters in lower case.
pub open spec fn is_lower(c: char) -> bool {
    'a' <= c && c <= 'z'
}

/// ASCII letters.
pub open spec fn is_letter(c: char) -> bool {
    is_upper(c) || is_lower(c)
}

/// ASCII digits.
pub open spec fn is_digit(c: char) -> bool {
    '0' <= c && c <= '9'
}

/// ASCII letters and digits.
pub open spec fn is_alnum(c: char) -> bool {
    is_letter(c) || is_digit(c)
}

/// Signs and punctuation beyond ASCII that are no part of a word: those of
/// the Latin-1 supplement, but for the ordinal indicators and the micro
/// sign, and those of the block of general punctuation, but for the
/// connectors and joiners in it.
pub open spec fn is_sign(c: char) -> bool {
    ('\u{80}' <= c && c <= '\u{bf}' && c != '\u{aa}' && c != '\u{b5}' && c != '\u{ba}') || c
        == '\u{d7}' || c == '\u{f7}' || ('\u{2000}' <= c && c <= '\u{206f}' && c != '\u{200c}'
        && c != '\u{200d}' && c != '\u{203f}' && c != '\u{2040}' && c != '\u{2054}')
}

/// Characters that count as part of a word: ASCII letters, digits and the
/// underscore, and every character beyond ASCII that is neither white
/// space nor a sign.
pub open spec fn is_word(c: char) -> bool {
    is_alnum(c) || c == '_' || (c > '\u{7f}' && !is_space(c) && !is_sign(c))
}

/// The lower-case form of an ASCII letter; any other character unchanged.
pub open spec fn lower(c: char) -> char {
    if is_upper(c) {
        ((c as u8) + 32) as char
    } else {
        c
    }
}

/// `lit` occurs in `s` starting at index `i`.
pub open spec fn has_at(s: Seq<char>, i: int, lit: Seq<char>) -> bool {
    0 <= i && i + lit.len() <= s.len() && s.subrange(i, i + lit.len()) == lit
}

/// The first index at or after `i` where `lit` occurs in `s`, or `s.len()`
/// if there is none.
pub open spec fn find_from(s: Seq<char>, i: int, lit: Seq<char>) -> int
    decreases s.len() - i,
{
    if i >= s.len() {
        s.len() as int
    } else if has_at(s, i, lit) {
        i
    } else {
        find_from(s, i + 1, lit)
    }
}

/// The first index at or after `i` that holds `c`, or `s.len()`.
pub open spec fn find_char(s: Seq<char>, i: int, c: char) -> int
    decreases s.len() - i,
{
    if i >= s.len() {
        s.len() as int
    } else if s[i] == c {
        i
    } else {
        find_char(s, i + 1, c)
    }
}

/// The first index at or after `i` that holds no white space, or `s.len()`.
pub open spec fn skip_space(s: Seq<char>, i: int) -> int
    decreases s.len() - i,
{
    if i >= s.len() {
        s.len() as int
    } else if !is_space(s[i]) {
        i
    } else {
        skip_space(s, i + 1)
    }
}

/// The end of the text once trailing white space before index `n` is cut.
pub open spec fn trim_end_index(s: Seq<char>, n: int) -> int
    decreases n,
{
    if n <= 0 {
        0
    } else if n <= s.len() && is_space(s[n - 1]) {
        trim_end_index(s, n - 1)
    } else {
        n
    }
}

/// `s` without its leading and trailing white space.
pub open spec fn trim(s: Seq<char>) -> Seq<char> {
    let a = skip_space(s, 0);
    let b = trim_end_index(s, s.len() as int);
    if a < b {
        s.subrange(a, b)
    } else {
        Seq::empty()
    }
}

/// `s` with every occurrence of `pat` replaced by `rep`, scanning from
/// index `i` left to right; occurrences do not overlap.
pub open spec fn replace_from(s: Seq<char>, i: int, pat: Seq<char>, rep: Seq<char>) -> Seq<char>
    decreases s.len() - i,
{
    if i >= s.len() || i < 0 {
        Seq::empty()
    } else if pat.len() > 0 && has_at(s, i, pat) {
        rep + replace_from(s, i + pat.len(), pat, rep)
    } else {
        seq![s[i]] + replace_from(s, i + 1, pat, rep)
    }
}

/// `s` with every occurrence of `pat` replaced by `rep`.
pub open spec fn replace_all(s: Seq<char>, pat: Seq<char>, rep: Seq<char>) -> Seq<char> {
    replace_from(s, 0, pat, rep)
}

/// `find_from` finds the first occurrence at or after `i`, and nothing
/// before it.
pub proof fn lemma_find_from_bounds(s: Seq<char>, i: int, lit: Seq<char>)
    requires
        0 <= i <= s.len(),
    ensures
        i <= find_from(s, i, lit) <= s.len(),
        find_from(s, i, lit) < s.len() ==> has_at(s, find_from(s, i, lit), lit),
        forall|j: int| i <= j < find_from(s, i, lit) ==> !has_at(s, j, lit),
    decreases s.len() - i,
{
    if i < s.len() && !has_at(s, i, lit) {
        lemma_find_from_bounds(s, i + 1, lit);
    }
}

/// `find_char` finds the first `c` at or after `i`, and none before it.
pub proof fn lemma_find_char_bounds(s: Seq<char>, i: int, c: char)
    requires
        0 <= i <= s.len(),
    ensures
        i <= find_char(s, i, c) <= s.len(),
        find_char(s, i, c) < s.len() ==> s[find_char(s, i, c)] == c,
        forall|j: int| i <= j < find_char(s, i, c) ==> s[j] != c,
    decreases s.len() - i,
{
    if i < s.len() && s[i] != c {
        lemma_find_char_bounds(s, i + 1, c);
    }
}

/// `skip_space` passes over white space only, and stops at the first
/// character that is none.
pub proof fn lemma_skip_space_bounds(s: Seq<char>, i: int)
    requires
        0 <= i <= s.len(),
    ensures
        i <= skip_space(s, i) <= s.len(),
        skip_space(s, i) < s.len() ==> !is_space(s[skip_space(s, i)]),
        forall|j: int| i <= j < skip_space(s, i) ==> is_space(s[j]),
    decreases s.len() - i,
{
    if i < s.len() && is_space(s[i]) {
        lemma_skip_space_bounds(s, i + 1);
    }
}

/// Tells whether `c` is white space.
pub fn is_space_char(c: char) -> (r: bool)
    ensures
        r == is_space(c),
{
    ('\u{9}' <= c && c <= '\u{d}') || c == ' ' || c == '\u{85}' || c == '\u{a0}' || c
        == '\u{1680}' || ('\u{2000}' <= c && c <= '\u{200a}') || c == '\u{2028}' || c
        == '\u{2029}' || c == '\u{202f}' || c == '\u{205f}' || c == '\u{3000}'
}

/// Tells whether `c` is an ASCII letter.
pub fn is_letter_char(c: char) -> (r: bool)
    ensures
        r == is_letter(c),
{
    ('A' <= c && c <= 'Z') || ('a' <= c && c <= 'z')
}

/// Tells whether `c` is an ASCII letter or digit.
pub fn is_alnum_char(c: char) -> (r: bool)
    ensures
        r == is_alnum(c),
{
    is_letter_char(c) || ('0' <= c && c <= '9')
}

/// Tells whether `c` is a sign beyond ASCII that is no part of a word.
pub fn is_sign_char(c: char) -> (r: bool)
    ensures
        r == is_sign(c),
{
    ('\u{80}' <= c && c <= '\u{bf}' && c != '\u{aa}' && c != '\u{b5}' && c != '\u{ba}') || c
        == '\u{d7}' || c == '\u{f7}' || ('\u{2000}' <= c && c <= '\u{206f}' && c != '\u{200c}'
        && c != '\u{200d}' && c != '\u{203f}' && c != '\u{2040}' && c != '\u{2054}')
}

/// Tells whether `c` counts as part of a word.
pub fn is_word_char(c: char) -> (r: bool)
    ensures
        r == is_word(c),
{
    is_alnum_char(c) || c == '_' || (c > '\u{7f}' && !is_space_char(c) && !is_sign_char(c))
}

/// The lower-case form of an ASCII letter; any other character unchanged.
pub fn lower_char(c: char) -> (r: char)
    ensures
        r == lower(c),
{
    if 'A' <= c && c <= 'Z' {
        ((c as u8) + 32) as char
    } else {
        c
    }
}

/// The characters of `s`, in order.
pub fn chars_of(s: &str) -> (r: Vec<char>)
    ensures
        r@ == s@,
{
    let mut out: Vec<char> = Vec::new();
    for c in it: s.chars()
        invariant
            out@ == it.seq().take(it.index() as int),
            it.seq() == s@,
    {
        out.push(c);
    }
    out
}

/// The string made of the characters of `v`, in order.
pub fn string_of(v: &Vec<char>) -> (r: String)
    ensures
        r@ == v@,
{
    let mut out = String::new();
    let mut i: usize = 0;
    while i < v.len()
        invariant
            i <= v.len(),
            out@ == v@.take(i as int),
        decreases v.len() - i,
    {
        out.push(v[i]);
        i += 1;
    }
    out
}

/// Tells whether `lit` occurs in `text` at index `i`.
pub fn lit_at(text: &Vec<char>, i: usize, lit: &str) -> (b: bool)
    ensures
        b == has_at(text@, i as int, lit@),
{
    if i > text.len() {
        return false;
    }
    let mut at = i;
    for c in it: lit.chars()
        invariant
            it.seq() == lit@,
            at == i + it.index(),
            at <= text.len(),
            forall|j: int| 0 <= j < it.index() ==> text@[i + j] == lit@[j],
    {
        if at >= text.len() || text[at] != c {
            assert(!has_at(text@, i as int, lit@)) by {
                if i + lit@.len() <= text@.len() {
                    assert(text@.subrange(i as int, i + lit@.len())[at - i] != lit@[at - i]);
                }
            }
            return false;
        }
        at += 1;
    }
    assert(text@.subrange(i as int, i + lit@.len()) =~= lit@);
    true
}

/// The first index at or after `i` where `lit` occurs, or `text.len()`.
pub fn find_lit(text: &Vec<char>, i: usize, lit: &str) -> (r: usize)
    requires
        i <= text.len(),
    ensures
        r == find_from(text@, i as int, lit@),
        i <= r <= text.len(),
{
    let mut j = i;
    while j < text.len()
        invariant
            i <= j <= text.len(),
            find_from(text@, i as int, lit@) == find_from(text@, j as int, lit@),
        decreases text.len() - j,
    {
        if lit_at(text, j, lit) {
            return j;
        }
        j += 1;
    }
    j
}

/// The first index at or after `i` that holds `c`, or `text.len()`.
pub fn find_char_in(text: &Vec<char>, i: usize, c: char) -> (r: usize)
    requires
        i <= text.len(),
    ensures
        r == find_char(text@, i as int, c),
        i <= r <= text.len(),
{
    let mut j = i;
    while j < text.len()
        invariant
            i <= j <= text.len(),
            find_char(text@, i as int, c) == find_char(text@, j as int, c),
        decreases text.len() - j,
    {
        if text[j] == c {
            return j;
        }
        j += 1;
    }
    j
}

/// The first index at or after `i` that holds no white space, or `text.len()`.
pub fn skip_space_in(text: &Vec<char>, i: usize) -> (r: usize)
    requires
        i <= text.len(),
    ensures
        r == skip_space(text@, i as int),
        i <= r <= text.len(),
{
    let mut j = i;
    while j < text.len()
        invariant
            i <= j <= text.len(),
            skip_space(text@, i as int) == skip_space(text@, j as int),
        decreases text.len() - j,
    {
        if !is_space_char(text[j]) {
            return j;
        }
        j += 1;
    }
    j
}

/// Appends `src[from..to]` to `out`.
pub fn push_range(out: &mut Vec<char>, src: &Vec<char>, from: usize, to: usize)
    requires
        from <= to <= src.len(),
    ensures
        final(out)@ == old(out)@ + src@.subrange(from as int, to as int),
{
    let mut k = from;
    while k < to
        invariant
            from <= k <= to <= src.len(),
            out@ == old(out)@ + src@.subrange(from as int, k as int),
        decreases to - k,
    {
        out.push(src[k]);
        k += 1;
        assert(out@ =~= old(out)@ + src@.subrange(from as int, k as int));
    }
    assert(out@ =~= old(out)@ + src@.subrange(from as int, to as int));
}

/// Appends the characters of `lit` to `out`.
pub fn push_lit(out: &mut Vec<char>, lit: &str)
    ensures
        final(out)@ == old(out)@ + lit@,
{
    let pat = chars_of(lit);
    push_range(out, &pat, 0, pat.len());
    assert(pat@.subrange(0, pat.len() as int) =~= pat@);
}

/// `text` without its leading and trailing white space.
pub fn trim_chars(text: &Vec<char>) -> (r: Vec<char>)
    ensures
        r@ == trim(text@),
{
    let a = skip_space_in(text, 0);
    let mut b = text.len();
    while b > 0 && is_space_char(text[b - 1])
        invariant
            b <= text.len(),
            trim_end_index(text@, text.len() as int) == trim_end_index(text@, b as int),
        decreases b,
    {
        b -= 1;
    }
    let mut out: Vec<char> = Vec::new();
    if a < b {
        push_range(&mut out, text, a, b);
    }
    out
}

/// `text` with every occurrence of `pat` replaced by `rep`.
pub fn replace_lit(text: &Vec<char>, pat: &str, rep: &str) -> (r: Vec<char>)
    ensures
        r@ == replace_all(text@, pat@, rep@),
{
    let n = pat.unicode_len();
    let mut out: Vec<char> = Vec::new();
    let mut i: usize = 0;
    while i < text.len()
        invariant
            i <= text.len(),
            n == pat@.len(),
            out@ + replace_from(text@, i as int, pat@, rep@) == replace_all(text@, pat@, rep@),
        decreases text.len() - i,
    {
        let ghost before = out@;
        if n > 0 && lit_at(text, i, pat) {
            push_lit(&mut out, rep);
            assert(out@ + replace_from(text@, i + n, pat@, rep@) =~= before + (rep@
                + replace_from(text@, i + n, pat@, rep@)));
            i += n;
        } else {
            out.push(text[i]);
            assert(out@ + replace_from(text@, i + 1, pat@, rep@) =~= before + (seq![text@[i as int]]
                + replace_from(text@, i + 1, pat@, rep@)));
            i += 1;
        }
    }
    assert(out@ + Seq::<char>::empty() =~= out@);
    out
}

} // verus!

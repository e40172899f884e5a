//! The grammar of tag-like tokens, and the repair of every token of a
//! text.

use crate::chars::{chars_of, push_range, string_of};
use crate::error::{ScrapeError, ScrapeErrorView};
use crate::pattern::texts_of;
use crate::tag::{normalize_html_tag_chars, normalize_html_tag_spec};
use vstd::prelude::*;
use vstd::string::StringExecFns;

verus! {

/// Where a tag-like token ends that has taken at least one item and has
/// come to index `p`: behind a `>` at `p`, or behind `">` at `p`; else one
/// more item is taken.
pub open spec fn token_close(s: Seq<char>, p: int) -> Option<int>
    decreases s.len() - p, 1int,
{
    if p < 0 || p >= s.len() {
        None
    } else if s[p] == '>' {
        Some(p + 1)
    } else if s[p] == '"' && p + 1 < s.len() && s[p + 1] == '>' {
        Some(p + 2)
    } else {
        token_item(s, p)
    }
}

/// Where a token ends that takes an item at `p`: one character that is
/// no double quote, or a quoted stretch.
pub open spec fn token_item(s: Seq<char>, p: int) -> Option<int>
    decreases s.len() - p, 0int,
{
    if p < 0 || p >= s.len() {
        None
    } else if s[p] != '"' {
        token_close(s, p + 1)
    } else {
        token_quoted(s, p + 1)
    }
}

/// Where a token ends whose quoted stretch has come to index `q`. The
/// stretch stays on one line and ends at the first double quote behind
/// which the token can be brought to its end.
pub open spec fn token_quoted(s: Seq<char>, q: int) -> Option<int>
    decreases s.len() - q, 0int,
{
    if q < 0 || q >= s.len() || s[q] == '\n' {
        None
    } else if s[q] == '"' && token_close(s, q + 1) is Some {
        token_close(s, q + 1)
    } else {
        token_quoted(s, q + 1)
    }
}

/// Where the tag-like token ends that starts at `i`, if one starts there:
/// `<`, one item or more, and `>`, with as few items as possible. A `>`
/// inside a quoted stretch does not end the token.
pub open spec fn token_end(s: Seq<char>, i: int) -> Option<int> {
    if 0 <= i < s.len() && s[i] == '<' {
        token_item(s, i + 1)
    } else {
        None
    }
}

/// A token that has come to `p` ends behind `p` and within `s`.
pub proof fn lemma_token_close_bounds(s: Seq<char>, p: int)
    ensures
        token_close(s, p) is Some ==> p < token_close(s, p)->Some_0 <= s.len(),
    decreases s.len() - p, 1int,
{
    if 0 <= p < s.len() && s[p] != '>' && !(s[p] == '"' && p + 1 < s.len() && s[p + 1] == '>') {
        lemma_token_item_bounds(s, p);
    }
}

/// A token that takes an item at `p` ends behind `p` and within `s`.
pub proof fn lemma_token_item_bounds(s: Seq<char>, p: int)
    ensures
        token_item(s, p) is Some ==> p < token_item(s, p)->Some_0 <= s.len(),
    decreases s.len() - p, 0int,
{
    if 0 <= p < s.len() {
        if s[p] != '"' {
            lemma_token_close_bounds(s, p + 1);
        } else {
            lemma_token_quoted_bounds(s, p + 1);
        }
    }
}

/// A token whose quoted stretch has come to `q` ends behind `q` and within
/// `s`.
pub proof fn lemma_token_quoted_bounds(s: Seq<char>, q: int)
    ensures
        token_quoted(s, q) is Some ==> q < token_quoted(s, q)->Some_0 <= s.len(),
    decreases s.len() - q, 0int,
{
    if 0 <= q < s.len() && s[q] != '\n' {
        lemma_token_close_bounds(s, q + 1);
        if !(s[q] == '"' && token_close(s, q + 1) is Some) {
            lemma_token_quoted_bounds(s, q + 1);
        }
    }
}

/// An index of the text as a table entry: 0 stands for none.
pub open spec fn entry_of(end: Option<int>) -> int {
    match end {
        Some(e) => e,
        None => 0,
    }
}

/// For every index of a text, where a token ends that has come to it.
pub struct TokenTable {
    pub close: Vec<usize>,
    pub quoted: Vec<usize>,
}

impl TokenTable {
    /// The table holds, for each index of `s`, what `token_close` and
    /// `token_quoted` say of it.
    pub open spec fn describes(&self, s: Seq<char>) -> bool {
        &&& self.close@.len() == s.len()
        &&& self.quoted@.len() == s.len()
        &&& forall|k: int|
            0 <= k < s.len() ==> #[trigger] self.close@[k] == entry_of(token_close(s, k))
        &&& forall|k: int|
            0 <= k < s.len() ==> #[trigger] self.quoted@[k] == entry_of(token_quoted(s, k))
    }

    /// The table of `text`.
    pub fn build(text: &Vec<char>) -> (t: TokenTable)
        ensures
            t.describes(text@),
    {
        let n = text.len();
        let mut close: Vec<usize> = Vec::new();
        let mut quoted: Vec<usize> = Vec::new();
        let mut k: usize = 0;
        while k < n
            invariant
                k <= n,
                close@.len() == k,
                quoted@.len() == k,
            decreases n - k,
        {
            close.push(0);
            quoted.push(0);
            k += 1;
        }
        let mut p = n;
        while p > 0
            invariant
                p <= n,
                n == text.len(),
                close@.len() == n,
                quoted@.len() == n,
                forall|j: int|
                    p <= j < n ==> #[trigger] close@[j] == entry_of(token_close(text@, j)),
                forall|j: int|
                    p <= j < n ==> #[trigger] quoted@[j] == entry_of(token_quoted(text@, j)),
            decreases p,
        {
            p -= 1;
            let c = text[p];
            proof {
                lemma_token_close_bounds(text@, p + 1);
                lemma_token_quoted_bounds(text@, p + 1);
            }
            let next_close = if p + 1 < n {
                close[p + 1]
            } else {
                0
            };
            let next_quoted = if p + 1 < n {
                quoted[p + 1]
            } else {
                0
            };
            let item = if c != '"' {
                next_close
            } else {
                next_quoted
            };
            let at_close = if c == '>' {
                p + 1
            } else if c == '"' && p + 1 < n && text[p + 1] == '>' {
                p + 2
            } else {
                item
            };
            let at_quoted = if c == '\n' {
                0
            } else if c == '"' && next_close != 0 {
                next_close
            } else {
                next_quoted
            };
            close.set(p, at_close);
            quoted.set(p, at_quoted);
            proof {
                lemma_token_item_bounds(text@, p as int);
            }
        }
        TokenTable { close, quoted }
    }

    /// Where the token ends that starts at `i`, if one starts there.
    pub fn token_end_at(&self, text: &Vec<char>, i: usize) -> (r: Option<usize>)
        requires
            self.describes(text@),
            i < text.len(),
        ensures
            match r {
                Some(e) => token_end(text@, i as int) == Some(e as int) && i < e <= text.len(),
                None => token_end(text@, i as int) is None,
            },
    {
        let n = text.len();
        if text[i] != '<' || i + 1 >= n {
            return None;
        }
        proof {
            lemma_token_item_bounds(text@, i + 1);
            lemma_token_close_bounds(text@, i + 2);
            lemma_token_quoted_bounds(text@, i + 2);
        }
        let e = if i + 2 >= n {
            0
        } else if text[i + 1] != '"' {
            self.close[i + 2]
        } else {
            self.quoted[i + 2]
        };
        if e == 0 {
            None
        } else {
            Some(e)
        }
    }
}

/// The tag-like tokens of `s` from index `i` on, left to right; tokens do
/// not overlap.
pub open spec fn tokens_from(s: Seq<char>, i: int) -> Seq<Seq<char>>
    decreases s.len() - i,
    via tokens_from_decreases
{
    if i < 0 || i >= s.len() {
        Seq::empty()
    } else {
        match token_end(s, i) {
            Some(end) => seq![s.subrange(i, end)] + tokens_from(s, end),
            None => tokens_from(s, i + 1),
        }
    }
}

#[via_fn]
proof fn tokens_from_decreases(s: Seq<char>, i: int) {
    lemma_token_item_bounds(s, i + 1);
}

/// The tag-like tokens of `text`, left to right.
pub fn find_tag_tokens(text: &str) -> (r: Vec<String>)
    ensures
        texts_of(r@) == tokens_from(text@, 0),
{
    let chars = chars_of(text);
    let table = TokenTable::build(&chars);
    let mut out: Vec<String> = Vec::new();
    let mut i: usize = 0;
    assert(texts_of(out@) =~= Seq::<Seq<char>>::empty());
    while i < chars.len()
        invariant
            i <= chars.len(),
            chars@ == text@,
            table.describes(chars@),
            texts_of(out@) + tokens_from(chars@, i as int) == tokens_from(chars@, 0),
        decreases chars.len() - i,
    {
        let ghost before = texts_of(out@);
        match table.token_end_at(&chars, i) {
            Some(end) => {
                let mut token: Vec<char> = Vec::new();
                push_range(&mut token, &chars, i, end);
                assert(token@ =~= chars@.subrange(i as int, end as int));
                out.push(string_of(&token));
                assert(texts_of(out@) =~= before.push(token@));
                assert(texts_of(out@) + tokens_from(chars@, end as int) =~= before + (seq![
                    token@,
                ] + tokens_from(chars@, end as int)));
                i = end;
            },
            None => {
                i += 1;
            },
        }
    }
    assert(texts_of(out@) + Seq::<Seq<char>>::empty() =~= texts_of(out@));
    out
}

/// `r` with `head` in front of the text it holds; an error stays.
pub open spec fn after(head: Seq<char>, r: Result<Seq<char>, ScrapeErrorView>) -> Result<
    Seq<char>,
    ScrapeErrorView,
> {
    match r {
        Ok(rest) => Ok(head + rest),
        Err(e) => Err(e),
    }
}

/// `s` from index `i` on, with every tag-like token in canonical form.
/// Tokens are taken left to right; the first token of no kind makes the
/// whole an error.
pub open spec fn fix_tags_from(s: Seq<char>, i: int) -> Result<Seq<char>, ScrapeErrorView>
    decreases s.len() - i,
    via fix_tags_from_decreases
{
    if i < 0 || i >= s.len() {
        Ok(Seq::empty())
    } else {
        match token_end(s, i) {
            Some(end) => match normalize_html_tag_spec(s.subrange(i, end)) {
                Ok(fixed) => after(fixed, fix_tags_from(s, end)),
                Err(e) => Err(e),
            },
            None => after(seq![s[i]], fix_tags_from(s, i + 1)),
        }
    }
}

#[via_fn]
proof fn fix_tags_from_decreases(s: Seq<char>, i: int) {
    lemma_token_item_bounds(s, i + 1);
}

/// `s` with every tag-like token in canonical form, or the error of the
/// first token of no kind.
pub open spec fn fix_tags(s: Seq<char>) -> Result<Seq<char>, ScrapeErrorView> {
    fix_tags_from(s, 0)
}

/// `text` with every tag-like token in canonical form.
pub fn fix_tags_chars(text: &Vec<char>) -> (r: Result<Vec<char>, ScrapeError>)
    ensures
        match fix_tags(text@) {
            Ok(fixed) => r is Ok && r->Ok_0@ == fixed,
            Err(e) => r is Err && r->Err_0@ == e,
        },
{
    let table = TokenTable::build(text);
    let mut out: Vec<char> = Vec::new();
    let mut i: usize = 0;
    proof {
        assert(after(out@, fix_tags_from(text@, 0)) == fix_tags(text@)) by {
            match fix_tags_from(text@, 0) {
                Ok(rest) => {
                    assert(out@ + rest =~= rest);
                },
                Err(_) => {},
            }
        }
    }
    while i < text.len()
        invariant
            i <= text.len(),
            table.describes(text@),
            after(out@, fix_tags_from(text@, i as int)) == fix_tags(text@),
        decreases text.len() - i,
    {
        let ghost before = out@;
        match table.token_end_at(text, i) {
            Some(end) => {
                let mut token: Vec<char> = Vec::new();
                push_range(&mut token, text, i, end);
                assert(token@ =~= text@.subrange(i as int, end as int));
                match normalize_html_tag_chars(&token) {
                    Some(fixed) => {
                        push_range(&mut out, &fixed, 0, fixed.len());
                        proof {
                            assert(fixed@.subrange(0, fixed@.len() as int) =~= fixed@);
                            match fix_tags_from(text@, end as int) {
                                Ok(rest) => {
                                    assert(out@ + rest =~= before + (fixed@ + rest));
                                },
                                Err(_) => {},
                            }
                        }
                        i = end;
                    },
                    None => {
                        let mut reason = String::from_str("Could not detect tag ");
                        let shown = string_of(&token);
                        reason.append(shown.as_str());
                        return Err(ScrapeError::HTMLFixing(reason));
                    },
                }
            },
            None => {
                out.push(text[i]);
                proof {
                    match fix_tags_from(text@, i + 1) {
                        Ok(rest) => {
                            assert(out@ + rest =~= before + (seq![text@[i as int]] + rest));
                        },
                        Err(_) => {},
                    }
                }
                i += 1;
            },
        }
    }
    assert(out@ + Seq::<char>::empty() =~= out@);
    Ok(out)
}

} // verus!

//! The table that leads from a date to the page of its entry.

use crate::chars::{
    chars_of, find_char, find_char_in, find_from, find_lit, has_at, is_digit,
    lemma_find_char_bounds, lemma_find_from_bounds, lit_at, push_range, skip_space,
    skip_space_in, string_of, trim, trim_chars,
};
use crate::tag::chars_are;
use crate::translation::{link_close, link_head, link_tail};
use crate::url::{letters_end, letters_end_in};
use vstd::prelude::*;
use vstd::string::StringExecFns;

verus! {

/// One line of the archive's listing.
#[derive(Debug, Clone)]
pub struct ArchiveIndexEntry {
    /// The calendar date, in ISO form.
    pub date: String,
    /// The title, as the listing gives it.
    pub title: String,
    /// Where the page of the entry lies, relative to the archive.
    pub locator: String,
}

/// What an `ArchiveIndexEntry` holds, with text as sequences of
/// characters.
pub struct IndexEntryView {
    pub date: Seq<char>,
    pub title: Seq<char>,
    pub locator: Seq<char>,
}

impl View for ArchiveIndexEntry {
    type V = IndexEntryView;

    open spec fn view(&self) -> IndexEntryView {
        IndexEntryView { date: self.date@, title: self.title@, locator: self.locator@ }
    }
}

/// The index of the first entry of `dates` that is `date`, or the length
/// of `dates` where there is none.
pub open spec fn first_with(dates: Seq<Seq<char>>, date: Seq<char>, from: int) -> int
    decreases dates.len() - from,
{
    if from < 0 || from >= dates.len() {
        dates.len() as int
    } else if dates[from] == date {
        from
    } else {
        first_with(dates, date, from + 1)
    }
}

/// The dates of the entries of `index`.
pub open spec fn dates_of(index: Seq<ArchiveIndexEntry>) -> Seq<Seq<char>> {
    index.map_values(|e: ArchiveIndexEntry| e.date@)
}

/// Looks an entry up by its date. The date has to match exactly; of
/// several entries with the date, the first is found.
pub fn lookup<'a>(index: &'a Vec<ArchiveIndexEntry>, date: &str) -> (r: Option<
    &'a ArchiveIndexEntry,
>)
    ensures
        match r {
            Some(entry) => {
                let at = first_with(dates_of(index@), date@, 0);
                0 <= at < index@.len() && *entry == index@[at] && entry.date@ == date@
            },
            None => first_with(dates_of(index@), date@, 0) == index@.len(),
        },
{
    let wanted = String::from_str(date);
    let mut i: usize = 0;
    while i < index.len()
        invariant
            i <= index@.len(),
            wanted@ == date@,
            first_with(dates_of(index@), date@, 0) == first_with(dates_of(index@), date@, i as int),
        decreases index@.len() - i,
    {
        if index[i].date.eq(&wanted) {
            return Some(&index[i]);
        }
        i += 1;
    }
    None
}

/// The number of the month with the English name `name`.
pub open spec fn month_of(name: Seq<char>) -> Option<int> {
    if name == "January"@ {
        Some(1)
    } else if name == "February"@ {
        Some(2)
    } else if name == "March"@ {
        Some(3)
    } else if name == "April"@ {
        Some(4)
    } else if name == "May"@ {
        Some(5)
    } else if name == "June"@ {
        Some(6)
    } else if name == "July"@ {
        Some(7)
    } else if name == "August"@ {
        Some(8)
    } else if name == "September"@ {
        Some(9)
    } else if name == "October"@ {
        Some(10)
    } else if name == "November"@ {
        Some(11)
    } else if name == "December"@ {
        Some(12)
    } else {
        None
    }
}

/// The end of the run of ASCII digits that starts at `i`.
pub open spec fn digits_end(s: Seq<char>, i: int) -> int
    decreases s.len() - i,
{
    if 0 <= i < s.len() && is_digit(s[i]) {
        digits_end(s, i + 1)
    } else {
        i
    }
}

/// The number that the digit `c` stands for.
pub open spec fn digit_value(c: char) -> int {
    c as int - '0' as int
}

/// The number that the one or two digits of `s` from `i` to `end` stand
/// for.
pub open spec fn short_number(s: Seq<char>, i: int, end: int) -> int {
    if end - i == 1 {
        digit_value(s[i])
    } else {
        10 * digit_value(s[i]) + digit_value(s[i + 1])
    }
}

/// The digit that stands for the number `d`.
pub open spec fn digit_char(d: int) -> char {
    ((d + 48) as u8) as char
}

/// The two digits that stand for the number `n` below 100.
pub open spec fn two_digits(n: int) -> Seq<char> {
    seq![digit_char(n / 10), digit_char(n % 10)]
}

/// The entry that the line `s` of the listing stands for: a year of four
/// digits, the English name of a month and a day of one or two digits, a
/// colon, and a canonical link whose address is the locator and whose
/// text is the title. White space may stand before and between the
/// parts. A line of any other shape stands for no entry.
pub open spec fn index_line_spec(s: Seq<char>) -> Option<IndexEntryView> {
    let year = skip_space(s, 0);
    let year_end = digits_end(s, year);
    let month = skip_space(s, year_end);
    let month_end = letters_end(s, month);
    let day = skip_space(s, month_end);
    let day_end = digits_end(s, day);
    let colon = skip_space(s, day_end);
    let link = skip_space(s, colon + 1);
    let locator = link + link_head().len();
    let locator_end = find_from(s, locator + 1, link_tail());
    let title = locator_end + link_tail().len();
    let title_end = find_from(s, title, link_close());
    let month_number = month_of(s.subrange(month, month_end));
    let day_number = short_number(s, day, day_end);
    if year_end - year == 4 && year_end < month && month_number is Some && month_end < day && 1
        <= day_end - day <= 2 && 1 <= day_number <= 31 && colon < s.len() && s[colon] == ':'
        && has_at(s, link, link_head()) && locator_end < s.len() && title_end < s.len() {
        Some(
            IndexEntryView {
                date: s.subrange(year, year_end) + seq!['-'] + two_digits(month_number->Some_0)
                    + seq!['-'] + two_digits(day_number),
                title: trim(s.subrange(title, title_end)),
                locator: s.subrange(locator, locator_end),
            },
        )
    } else {
        None
    }
}

/// The entries that the lines of `s` from index `i` on stand for, in the
/// order of the lines.
pub open spec fn index_from(s: Seq<char>, i: int) -> Seq<IndexEntryView>
    decreases s.len() - i,
    via index_from_decreases
{
    if i < 0 || i >= s.len() {
        Seq::empty()
    } else {
        let end = find_char(s, i, '\n');
        (match index_line_spec(s.subrange(i, end)) {
            Some(entry) => seq![entry],
            None => Seq::empty(),
        }) + (if end < s.len() {
            index_from(s, end + 1)
        } else {
            Seq::empty()
        })
    }
}

#[via_fn]
proof fn index_from_decreases(s: Seq<char>, i: int) {
    if 0 <= i < s.len() {
        lemma_find_char_bounds(s, i, '\n');
    }
}

/// What the entries of `index` hold.
pub open spec fn views_of(index: Seq<ArchiveIndexEntry>) -> Seq<IndexEntryView> {
    index.map_values(|e: ArchiveIndexEntry| e@)
}

fn digits_end_in(text: &Vec<char>, i: usize) -> (r: usize)
    requires
        i <= text.len(),
    ensures
        r == digits_end(text@, i as int),
        i <= r <= text.len(),
{
    let mut j = i;
    while j < text.len() && '0' <= text[j] && text[j] <= '9'
        invariant
            i <= j <= text.len(),
            digits_end(text@, i as int) == digits_end(text@, j as int),
        decreases text.len() - j,
    {
        j += 1;
    }
    j
}

/// The number of the month with the English name `name`.
pub fn month_number(name: &Vec<char>) -> (r: Option<u8>)
    ensures
        match month_of(name@) {
            Some(n) => r == Some(n as u8) && 1 <= n <= 12,
            None => r is None,
        },
{
    if chars_are(name, "January") {
        Some(1)
    } else if chars_are(name, "February") {
        Some(2)
    } else if chars_are(name, "March") {
        Some(3)
    } else if chars_are(name, "April") {
        Some(4)
    } else if chars_are(name, "May") {
        Some(5)
    } else if chars_are(name, "June") {
        Some(6)
    } else if chars_are(name, "July") {
        Some(7)
    } else if chars_are(name, "August") {
        Some(8)
    } else if chars_are(name, "September") {
        Some(9)
    } else if chars_are(name, "October") {
        Some(10)
    } else if chars_are(name, "November") {
        Some(11)
    } else if chars_are(name, "December") {
        Some(12)
    } else {
        None
    }
}

fn digit_of(c: char) -> (r: u8)
    requires
        is_digit(c),
    ensures
        r == digit_value(c),
        r <= 9,
{
    (c as u8) - 48
}

fn push_two_digits(out: &mut Vec<char>, n: u8)
    requires
        n < 100,
    ensures
        final(out)@ == old(out)@ + two_digits(n as int),
{
    out.push(((n / 10) + 48) as char);
    out.push(((n % 10) + 48) as char);
    assert(out@ =~= old(out)@ + two_digits(n as int));
}

/// The entry that a line of the listing stands for, if it stands for one.
pub fn parse_index_line(line: &Vec<char>) -> (r: Option<ArchiveIndexEntry>)
    ensures
        match index_line_spec(line@) {
            Some(entry) => r is Some && r->Some_0@ == entry,
            None => r is None,
        },
{
    let n = line.len();
    let year = skip_space_in(line, 0);
    let year_end = digits_end_in(line, year);
    let month = skip_space_in(line, year_end);
    let month_end = letters_end_in(line, month);
    let day = skip_space_in(line, month_end);
    let day_end = digits_end_in(line, day);
    let colon = skip_space_in(line, day_end);
    if !(year_end - year == 4 && year_end < month && month_end < day && 1 <= day_end - day
        && day_end - day <= 2 && colon < n && line[colon] == ':') {
        return None;
    }
    let mut name: Vec<char> = Vec::new();
    push_range(&mut name, line, month, month_end);
    assert(name@ =~= line@.subrange(month as int, month_end as int));
    let month_number = match month_number(&name) {
        Some(m) => m,
        None => {
            return None;
        },
    };
    proof {
        assert(is_digit(line@[day as int]));
        assert(day_end - day == 2 ==> is_digit(line@[day + 1])) by {
            if day_end - day == 2 {
                assert(digits_end(line@, day as int) == digits_end(line@, day + 1));
            }
        }
    }
    let day_number = if day_end - day == 1 {
        digit_of(line[day])
    } else {
        10 * digit_of(line[day]) + digit_of(line[day + 1])
    };
    if day_number < 1 || day_number > 31 {
        return None;
    }
    let link = skip_space_in(line, colon + 1);
    if !lit_at(line, link, "<a href=\"") {
        return None;
    }
    let locator = link + "<a href=\"".unicode_len();
    if locator >= n {
        return None;
    }
    let locator_end = find_lit(line, locator + 1, "\">");
    if locator_end >= n {
        return None;
    }
    proof {
        lemma_find_from_bounds(line@, locator + 1, link_tail());
    }
    let title = locator_end + "\">".unicode_len();
    let title_end = find_lit(line, title, "</a>");
    if title_end >= n {
        return None;
    }
    let mut date: Vec<char> = Vec::new();
    push_range(&mut date, line, year, year_end);
    date.push('-');
    push_two_digits(&mut date, month_number);
    date.push('-');
    push_two_digits(&mut date, day_number);
    let mut raw_title: Vec<char> = Vec::new();
    push_range(&mut raw_title, line, title, title_end);
    let trimmed = trim_chars(&raw_title);
    let mut address: Vec<char> = Vec::new();
    push_range(&mut address, line, locator, locator_end);
    proof {
        assert(date@ =~= line@.subrange(year as int, year_end as int) + seq!['-'] + two_digits(
            month_number as int,
        ) + seq!['-'] + two_digits(day_number as int));
        assert(raw_title@ =~= line@.subrange(title as int, title_end as int));
        assert(address@ =~= line@.subrange(locator as int, locator_end as int));
    }
    Some(
        ArchiveIndexEntry {
            date: string_of(&date),
            title: string_of(&trimmed),
            locator: string_of(&address),
        },
    )
}

/// Builds the index from the listing of the archive: one entry for each
/// line that stands for one, in the order of the lines.
pub fn build_index(listing: &str) -> (r: Vec<ArchiveIndexEntry>)
    ensures
        views_of(r@) == index_from(listing@, 0),
{
    let text = chars_of(listing);
    let mut out: Vec<ArchiveIndexEntry> = Vec::new();
    let mut i: usize = 0;
    assert(views_of(out@) =~= Seq::<IndexEntryView>::empty());
    while i < text.len()
        invariant
            i <= text.len(),
            text@ == listing@,
            views_of(out@) + index_from(text@, i as int) == index_from(text@, 0),
        decreases text.len() - i,
    {
        let ghost before = views_of(out@);
        let ghost rest = index_from(text@, i as int);
        let end = find_char_in(&text, i, '\n');
        let mut line: Vec<char> = Vec::new();
        push_range(&mut line, &text, i, end);
        assert(line@ =~= text@.subrange(i as int, end as int));
        let ghost tail = if end < text@.len() {
            index_from(text@, end + 1)
        } else {
            Seq::<IndexEntryView>::empty()
        };
        match parse_index_line(&line) {
            Some(entry) => {
                let ghost held = entry@;
                out.push(entry);
                assert(views_of(out@) =~= before.push(held));
                assert(views_of(out@) + tail =~= before + rest);
            },
            None => {
                assert(views_of(out@) + tail =~= before + rest);
            },
        }
        if end == text.len() {
            assert(views_of(out@) + Seq::<IndexEntryView>::empty() =~= views_of(out@));
            return out;
        }
        i = end + 1;
    }
    assert(views_of(out@) + Seq::<IndexEntryView>::empty() =~= views_of(out@));
    out
}

} // verus!

//! One picture-of-the-day record, and its making from a fetched page.

use crate::chars::{chars_of, push_lit, push_range, string_of};
use crate::error::{ScrapeError, ScrapeErrorView};
use crate::getter::{
    description_spec, get_description, get_img_url, get_meta, get_title, img_url_spec, meta_spec,
    title_spec,
};
use vstd::prelude::*;
use vstd::string::StringExecFns;

verus! {

/// One extracted picture-of-the-day record.
#[derive(Debug, Clone)]
pub struct APOD {
    /// The key under which the record is stored, once it is.
    pub id: Option<u32>,
    /// The calendar date, in ISO form.
    pub date: String,
    pub img_url: String,
    pub title: String,
    pub description: String,
    pub meta: String,
}

/// What an `APOD` holds, with text as sequences of characters.
pub struct ApodView {
    pub id: Option<u32>,
    pub date: Seq<char>,
    pub img_url: Seq<char>,
    pub title: Seq<char>,
    pub description: Seq<char>,
    pub meta: Seq<char>,
}

impl View for APOD {
    type V = ApodView;

    open spec fn view(&self) -> ApodView {
        ApodView {
            id: self.id,
            date: self.date@,
            img_url: self.img_url@,
            title: self.title@,
            description: self.description@,
            meta: self.meta@,
        }
    }
}

impl ApodView {
    /// The title and the credits are plain labels: they hold no emphasis
    /// marker.
    pub open spec fn has_plain_labels(self) -> bool {
        !self.title.contains('*') && !self.meta.contains('*')
    }
}

impl APOD {
    /// A record of the given parts.
    pub fn new(
        id: Option<u32>,
        date: String,
        img_url: String,
        title: String,
        description: String,
        meta: String,
    ) -> (r: Self)
        ensures
            r@ == (ApodView {
                id,
                date: date@,
                img_url: img_url@,
                title: title@,
                description: description@,
                meta: meta@,
            }),
    {
        Self { id, date, img_url, title, description, meta }
    }

    /// Tells whether the record is stored already, so that saving it
    /// updates the stored record rather than making a new one.
    pub fn is_stored(&self) -> (b: bool)
        ensures
            b == self@.id is Some,
    {
        self.id.is_some()
    }
}

/// The character of `s` at index `i` is an ASCII digit.
pub open spec fn is_digit_at(s: Seq<char>, i: int) -> bool {
    '0' <= s[i] && s[i] <= '9'
}

/// `d` is a calendar date in ISO form: four digits, two digits and two
/// digits, with a hyphen between them.
pub open spec fn is_iso_date(d: Seq<char>) -> bool {
    &&& d.len() == 10
    &&& d[4] == '-'
    &&& d[7] == '-'
    &&& is_digit_at(d, 0)
    &&& is_digit_at(d, 1)
    &&& is_digit_at(d, 2)
    &&& is_digit_at(d, 3)
    &&& is_digit_at(d, 5)
    &&& is_digit_at(d, 6)
    &&& is_digit_at(d, 8)
    &&& is_digit_at(d, 9)
}

/// The address of the archive page for the date `d`: the base path, `ap`,
/// the last two digits of the year, the month and the day, and `.html`.
pub open spec fn page_url_spec(d: Seq<char>) -> Seq<char> {
    "https://apod.nasa.gov/apod/ap"@ + d.subrange(2, 4) + d.subrange(5, 7) + d.subrange(8, 10)
        + ".html"@
}

fn is_digit_in(text: &Vec<char>, i: usize) -> (b: bool)
    requires
        i < text.len(),
    ensures
        b == is_digit_at(text@, i as int),
{
    '0' <= text[i] && text[i] <= '9'
}

/// The address of the archive page for a date, or `None` where the date
/// is not in ISO form.
pub fn page_url(date: &str) -> (r: Option<String>)
    ensures
        is_iso_date(date@) ==> r is Some && r->Some_0@ == page_url_spec(date@),
        !is_iso_date(date@) ==> r is None,
{
    let d = chars_of(date);
    if d.len() != 10 {
        return None;
    }
    if d[4] == '-' && d[7] == '-' && is_digit_in(&d, 0) && is_digit_in(&d, 1) && is_digit_in(&d, 2)
        && is_digit_in(&d, 3) && is_digit_in(&d, 5) && is_digit_in(&d, 6) && is_digit_in(&d, 8)
        && is_digit_in(&d, 9) {
        let mut out = chars_of("https://apod.nasa.gov/apod/ap");
        push_range(&mut out, &d, 2, 4);
        push_range(&mut out, &d, 5, 7);
        push_range(&mut out, &d, 8, 10);
        push_lit(&mut out, ".html");
        Some(string_of(&out))
    } else {
        None
    }
}

/// The record for the date `date` whose archive page came back with the
/// status `status` and the text `page`: none where no entry was
/// published, which the status 404 tells; else the record made of the
/// fields of the page, or the error of the first field that cannot be
/// made. The fields are made in the order description, image source,
/// title, credits.
pub open spec fn apod_data_spec(date: Seq<char>, status: u16, page: Seq<char>) -> Result<
    Option<ApodView>,
    ScrapeErrorView,
> {
    if status == 404 {
        Ok(None)
    } else {
        match description_spec(page) {
            Err(e) => Err(e),
            Ok(description) => match img_url_spec(page) {
                Err(e) => Err(e),
                Ok(img_url) => match title_spec(page) {
                    Err(e) => Err(e),
                    Ok(title) => match meta_spec(page) {
                        Err(e) => Err(e),
                        Ok(meta) => Ok(
                            Some(ApodView { id: None, date, img_url, title, description, meta }),
                        ),
                    },
                },
            },
        }
    }
}

/// Makes the record of a date from the answer of the archive.
///
/// A status of 404 says that no entry was published for the date: the
/// result is `Ok(None)`, and the page is not looked at. Any other answer
/// is taken as the page of the date, and the record is made of its
/// fields. A record that is made has plain labels and no key yet.
pub fn get_apod_data(date: &str, status: u16, page: &str) -> (r: Result<Option<APOD>, ScrapeError>)
    ensures
        match apod_data_spec(date@, status, page@) {
            Ok(Some(entry)) => r is Ok && r->Ok_0 is Some && r->Ok_0->Some_0@ == entry,
            Ok(None) => r is Ok && r->Ok_0 is None,
            Err(e) => r is Err && r->Err_0@ == e,
        },
        r is Ok && r->Ok_0 is Some ==> r->Ok_0->Some_0@.has_plain_labels(),
{
    if status == 404 {
        return Ok(None);
    }
    let description = match get_description(page) {
        Ok(text) => text,
        Err(e) => {
            return Err(e);
        },
    };
    let img_url = match get_img_url(page) {
        Ok(text) => text,
        Err(e) => {
            return Err(e);
        },
    };
    let title = match get_title(page) {
        Ok(text) => text,
        Err(e) => {
            return Err(e);
        },
    };
    let meta = match get_meta(page) {
        Ok(text) => text,
        Err(e) => {
            return Err(e);
        },
    };
    Ok(Some(APOD::new(None, String::from_str(date), img_url, title, description, meta)))
}

} // verus!

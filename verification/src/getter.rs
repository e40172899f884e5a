//! The fields of an entry, cut out of an archive page.
//!
//! Where a field lies on the page is found by pattern search; what is
//! found is normalized and translated by the library's own rules.

use crate::chars::{chars_of, string_of};
use crate::error::{ScrapeError, ScrapeErrorView};
use crate::pattern::{capture, captured, find_all, matches_of, texts_of};
use crate::text::{normalize_text, normalize_text_spec};
use crate::translation::{html_to_markdown, html_to_markdown_spec};
use crate::url::{normalize_url, normalize_url_spec};
use vstd::prelude::*;

verus! {

/// The pattern of the description: what stands between the label
/// `Explanation:` with the tag behind it and the next `<p>`.
pub open spec fn description_pattern() -> Seq<char> {
    "<.+?>\\s*Explanation:\\s*<.+?>\\s*(?P<explanation>[\\s\\S]+?)\\s*<p>"@
}

/// The pattern of the source of an image tag.
pub open spec fn image_pattern() -> Seq<char> {
    "<(?:IMG[\\s\\S]+?SRC|img[\\s\\S]+?src)=[\"'](?P<url>.+?)[\"']"@
}

/// The pattern of the source of a frame.
pub open spec fn frame_pattern() -> Seq<char> {
    "<iframe[\\s\\S]+?src=[\"'](?P<url>.+?)[\"']"@
}

/// The pattern of the data of an object.
pub open spec fn object_pattern() -> Seq<char> {
    "<object[\\s\\S]+?data=[\"'](?P<url>.+?)[\"']"@
}

/// The pattern of the value of a movie parameter.
pub open spec fn movie_pattern() -> Seq<char> {
    "<param name=\"movie\" value=[\"'](?P<url>.+?)[\"']"@
}

/// `first` if it holds something, else `second`.
pub open spec fn or_else(first: Option<Seq<char>>, second: Option<Seq<char>>) -> Option<
    Seq<char>,
> {
    if first is Some {
        first
    } else {
        second
    }
}

/// The image source as the page `page` writes it: the source of an image
/// tag if the page holds one, else the source of a frame, else the data
/// of an object, else the value of a movie parameter.
pub open spec fn image_source_of(page: Seq<char>) -> Option<Seq<char>> {
    or_else(
        captured(image_pattern(), "url"@, page),
        or_else(
            captured(frame_pattern(), "url"@, page),
            or_else(
                captured(object_pattern(), "url"@, page),
                captured(movie_pattern(), "url"@, page),
            ),
        ),
    )
}

/// The pattern of a block group.
pub open spec fn block_pattern() -> Seq<char> {
    "<center>[\\s\\S]+?</center>"@
}

/// The pattern of what a block group holds, without the white space
/// around it.
pub open spec fn block_content_pattern() -> Seq<char> {
    "<center>\\s*(?P<content>\\S[\\s\\S]+?\\S)\\s*</center>"@
}

/// The pattern of the title: the first pair of tags with what it holds.
pub open spec fn title_pattern() -> Seq<char> {
    "<[^>]+?>\\s*(\\S[\\s\\S]+?\\S)\\s*</[^>]+?>"@
}

/// The pattern of the credit block: what follows the first pair of tags
/// and the line break behind it.
pub open spec fn meta_pattern() -> Seq<char> {
    "<[^>]+?>[\\s\\S]+?</[^>]+?>\\s*(?:<br>)?\\s*(?P<amb>[\\s\\S]+)"@
}

/// `r` is the result that `spec` describes.
pub open spec fn agrees(r: Result<String, ScrapeError>, spec: Result<Seq<char>, ScrapeErrorView>)
    -> bool {
    match spec {
        Ok(text) => r is Ok && r->Ok_0@ == text,
        Err(e) => r is Err && r->Err_0@ == e,
    }
}

/// `s` without its asterisks.
pub open spec fn strip_marks(s: Seq<char>) -> Seq<char> {
    s.filter(|c: char| c != '*')
}

/// The styled text for the raw markup `raw`: normalized, then translated.
pub open spec fn styled_spec(raw: Seq<char>) -> Result<Seq<char>, ScrapeErrorView> {
    match normalize_text_spec(raw) {
        Ok(normal) => html_to_markdown_spec(normal),
        Err(e) => Err(e),
    }
}

/// The plain text for the raw markup `raw`: its styled text without the
/// emphasis markers.
pub open spec fn plain_spec(raw: Seq<char>) -> Result<Seq<char>, ScrapeErrorView> {
    match styled_spec(raw) {
        Ok(styled) => Ok(strip_marks(styled)),
        Err(e) => Err(e),
    }
}

/// The field made of what was found on the page: a parsing error where
/// nothing was found, else the plain or the styled text of it.
pub open spec fn field_spec(found: Option<Seq<char>>, plain: bool) -> Result<
    Seq<char>,
    ScrapeErrorView,
> {
    match found {
        Some(raw) => if plain {
            plain_spec(raw)
        } else {
            styled_spec(raw)
        },
        None => Err(ScrapeErrorView::Parsing),
    }
}

/// The item of `items` at index `at`, if there is one.
pub open spec fn item_at(items: Seq<Seq<char>>, at: int) -> Option<Seq<char>> {
    if 0 <= at < items.len() {
        Some(items[at])
    } else {
        None
    }
}

proof fn lemma_strip_marks(s: Seq<char>)
    ensures
        !strip_marks(s).contains('*'),
    decreases s.len(),
{
    reveal(Seq::filter);
    if s.len() > 0 {
        lemma_strip_marks(s.drop_last());
        let kept = strip_marks(s.drop_last());
        if strip_marks(s).contains('*') {
            let k = choose|k: int| 0 <= k < strip_marks(s).len() && strip_marks(s)[k] == '*';
            if k < kept.len() {
                assert(kept[k] == '*');
                assert(kept.contains('*'));
            }
        }
    }
}

/// `r` holds no text with an asterisk.
pub open spec fn is_plain(r: Result<Seq<char>, ScrapeErrorView>) -> bool {
    match r {
        Ok(text) => !text.contains('*'),
        Err(_) => true,
    }
}

/// Plain text holds no asterisk.
pub proof fn lemma_plain_text_is_plain(raw: Seq<char>)
    ensures
        is_plain(plain_spec(raw)),
{
    match styled_spec(raw) {
        Ok(styled) => {
            lemma_strip_marks(styled);
        },
        Err(_) => {},
    }
}

/// Normalizes raw markup and translates it into styled text.
pub fn styled_from_raw(raw: &str) -> (r: Result<String, ScrapeError>)
    ensures
        agrees(r, styled_spec(raw@)),
        r is Ok ==> !r->Ok_0@.contains('<') && !r->Ok_0@.contains('>'),
{
    match normalize_text(raw) {
        Ok(normal) => html_to_markdown(normal.as_str()),
        Err(e) => Err(e),
    }
}

/// Normalizes raw markup, translates it and takes the emphasis markers
/// out: the text of a plain label.
pub fn plain_from_raw(raw: &str) -> (r: Result<String, ScrapeError>)
    ensures
        agrees(r, plain_spec(raw@)),
        r is Ok ==> !r->Ok_0@.contains('*'),
{
    match styled_from_raw(raw) {
        Ok(styled) => {
            let text = chars_of(styled.as_str());
            let mut out: Vec<char> = Vec::new();
            let mut i: usize = 0;
            proof {
                reveal(Seq::filter);
                assert(text@.take(0) =~= Seq::<char>::empty());
            }
            while i < text.len()
                invariant
                    i <= text.len(),
                    out@ == strip_marks(text@.take(i as int)),
                decreases text.len() - i,
            {
                proof {
                    reveal(Seq::filter);
                    assert(text@.take(i + 1).drop_last() =~= text@.take(i as int));
                }
                if text[i] != '*' {
                    out.push(text[i]);
                }
                i += 1;
            }
            proof {
                assert(text@.take(text@.len() as int) =~= text@);
                lemma_strip_marks(text@);
            }
            Ok(string_of(&out))
        },
        Err(e) => Err(e),
    }
}

/// Makes a field of what was found on the page.
pub fn field_from(found: Option<String>, plain: bool) -> (r: Result<String, ScrapeError>)
    ensures
        agrees(
            r,
            field_spec(
                match found {
                    Some(raw) => Some(raw@),
                    None => None,
                },
                plain,
            ),
        ),
        plain && r is Ok ==> !r->Ok_0@.contains('*'),
{
    match found {
        Some(raw) => if plain {
            plain_from_raw(raw.as_str())
        } else {
            styled_from_raw(raw.as_str())
        },
        None => Err(ScrapeError::Parsing),
    }
}

/// The item of `items` at index `at`, if there is one.
pub fn pick(items: &Vec<String>, at: usize) -> (r: Option<String>)
    ensures
        match item_at(texts_of(items@), at as int) {
            Some(text) => r is Some && r->Some_0@ == text,
            None => r is None,
        },
{
    if at < items.len() {
        Some(items[at].clone())
    } else {
        None
    }
}

/// The image source of a page, made of what was found there.
pub fn img_url_from(found: Option<String>) -> (r: Result<String, ScrapeError>)
    ensures
        match found {
            Some(raw) => r is Ok && r->Ok_0@ == normalize_url_spec(raw@),
            None => r is Err && r->Err_0@ == ScrapeErrorView::Parsing,
        },
{
    match found {
        Some(raw) => Ok(normalize_url(raw.as_str())),
        None => Err(ScrapeError::Parsing),
    }
}

/// What `get_description` returns for `page`.
pub open spec fn description_spec(page: Seq<char>) -> Result<Seq<char>, ScrapeErrorView> {
    field_spec(captured(description_pattern(), "explanation"@, page), false)
}

/// What `get_img_url` returns for `page`.
pub open spec fn img_url_spec(page: Seq<char>) -> Result<Seq<char>, ScrapeErrorView> {
    match image_source_of(page) {
        Some(raw) => Ok(normalize_url_spec(raw)),
        None => Err(ScrapeErrorView::Parsing),
    }
}

/// What `get_title_meta_block` returns for `page`: what the second block
/// group of the page holds.
pub open spec fn title_meta_block_spec(page: Seq<char>) -> Result<Seq<char>, ScrapeErrorView> {
    match item_at(matches_of(block_pattern(), page), 1) {
        Some(block) => match captured(block_content_pattern(), "content"@, block) {
            Some(content) => Ok(content),
            None => Err(ScrapeErrorView::Parsing),
        },
        None => Err(ScrapeErrorView::Parsing),
    }
}

/// What `get_title` returns for `page`.
pub open spec fn title_spec(page: Seq<char>) -> Result<Seq<char>, ScrapeErrorView> {
    match title_meta_block_spec(page) {
        Ok(block) => field_spec(item_at(matches_of(title_pattern(), block), 0), true),
        Err(e) => Err(e),
    }
}

/// What `get_meta` returns for `page`.
pub open spec fn meta_spec(page: Seq<char>) -> Result<Seq<char>, ScrapeErrorView> {
    match title_meta_block_spec(page) {
        Ok(block) => field_spec(captured(meta_pattern(), "amb"@, block), true),
        Err(e) => Err(e),
    }
}

/// The description of the picture, as styled text.
///
/// It is what stands on the page between the label `Explanation:` and the
/// next paragraph mark, normalized and translated. A page without it
/// gives a parsing error.
pub fn get_description(page: &str) -> (r: Result<String, ScrapeError>)
    ensures
        agrees(r, description_spec(page@)),
{
    let found = capture(
        "<.+?>\\s*Explanation:\\s*<.+?>\\s*(?P<explanation>[\\s\\S]+?)\\s*<p>",
        "explanation",
        page,
    );
    field_from(found, false)
}

/// Of two findings the first, if it holds something, else the second.
pub fn first_of(first: Option<String>, second: Option<String>) -> (r: Option<String>)
    ensures
        r == if first is Some {
            first
        } else {
            second
        },
{
    if first.is_some() {
        first
    } else {
        second
    }
}

/// The image source as the page writes it.
pub fn find_image_source(page: &str) -> (r: Option<String>)
    ensures
        match image_source_of(page@) {
            Some(raw) => r is Some && r->Some_0@ == raw,
            None => r is None,
        },
{
    let image = capture(
        "<(?:IMG[\\s\\S]+?SRC|img[\\s\\S]+?src)=[\"'](?P<url>.+?)[\"']",
        "url",
        page,
    );
    if image.is_some() {
        return image;
    }
    let frame = capture("<iframe[\\s\\S]+?src=[\"'](?P<url>.+?)[\"']", "url", page);
    if frame.is_some() {
        return frame;
    }
    let object = capture("<object[\\s\\S]+?data=[\"'](?P<url>.+?)[\"']", "url", page);
    let movie = capture("<param name=\"movie\" value=[\"'](?P<url>.+?)[\"']", "url", page);
    first_of(object, movie)
}

/// The source of the picture, as a canonical address.
///
/// It is, in this order of priority, the source of an image tag, the
/// source of a frame, the data of an object or the value of a movie
/// parameter. A page without any gives a parsing error.
pub fn get_img_url(page: &str) -> (r: Result<String, ScrapeError>)
    ensures
        agrees(r, img_url_spec(page@)),
{
    img_url_from(find_image_source(page))
}

/// What the second block group of the page holds: the title and the
/// credits. The first block group holds the picture. A page with fewer
/// than two block groups gives a parsing error.
pub fn get_title_meta_block(page: &str) -> (r: Result<String, ScrapeError>)
    ensures
        agrees(r, title_meta_block_spec(page@)),
{
    let blocks = find_all("<center>[\\s\\S]+?</center>", page);
    match pick(&blocks, 1) {
        Some(block) => {
            match capture(
                "<center>\\s*(?P<content>\\S[\\s\\S]+?\\S)\\s*</center>",
                "content",
                block.as_str(),
            ) {
                Some(content) => Ok(content),
                None => Err(ScrapeError::Parsing),
            }
        },
        None => Err(ScrapeError::Parsing),
    }
}

/// The title of the picture, as plain text.
///
/// It is the first pair of tags of the second block group with what it
/// holds, normalized, translated and freed of emphasis markers.
pub fn get_title(page: &str) -> (r: Result<String, ScrapeError>)
    ensures
        agrees(r, title_spec(page@)),
        r is Ok ==> !r->Ok_0@.contains('*'),
{
    match get_title_meta_block(page) {
        Ok(block) => {
            let found = find_all("<[^>]+?>\\s*(\\S[\\s\\S]+?\\S)\\s*</[^>]+?>", block.as_str());
            field_from(pick(&found, 0), true)
        },
        Err(e) => Err(e),
    }
}

/// The credits of the picture, as plain text.
///
/// It is what follows the first pair of tags in the second block group,
/// normalized, translated and freed of emphasis markers.
pub fn get_meta(page: &str) -> (r: Result<String, ScrapeError>)
    ensures
        agrees(r, meta_spec(page@)),
        r is Ok ==> !r->Ok_0@.contains('*'),
{
    match get_title_meta_block(page) {
        Ok(block) => {
            let found = capture(
                "<[^>]+?>[\\s\\S]+?</[^>]+?>\\s*(?:<br>)?\\s*(?P<amb>[\\s\\S]+)",
                "amb",
                block.as_str(),
            );
            field_from(found, true)
        },
        Err(e) => Err(e),
    }
}

/// The title and the credits of a page hold no asterisk.
pub proof fn lemma_labels_are_plain(page: Seq<char>)
    ensures
        is_plain(title_spec(page)),
        is_plain(meta_spec(page)),
{
    match title_meta_block_spec(page) {
        Ok(block) => {
            match item_at(matches_of(title_pattern(), block), 0) {
                Some(raw) => {
                    lemma_plain_text_is_plain(raw);
                },
                None => {},
            }
            match captured(meta_pattern(), "amb"@, block) {
                Some(raw) => {
                    lemma_plain_text_is_plain(raw);
                },
                None => {},
            }
        },
        Err(_) => {},
    }
}

} // verus!

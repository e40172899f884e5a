//! The decisions of thumbnail derivation: which still image stands for a
//! picture, under which name it is stored, and what follows an attempt to
//! fetch it.

use crate::chars::{chars_of, has_at, lit_at};
use crate::error::{ScrapeError, ScrapeErrorView};
use crate::pattern::{capture, captured};
use vstd::prelude::*;
use vstd::string::StringExecFns;

verus! {

/// The width and the height of a thumbnail, in pixels.
pub const THUMBNAIL_SIZE: u32 = 250;

/// How often the fetch of a thumbnail is attempted at most.
pub const MAX_ATTEMPTS: u32 = 5;

/// The pattern of a video embed: the identifier stands behind `embed/`
/// and ends at a question mark or at the end of the address.
pub open spec fn embed_pattern() -> Seq<char> {
    "https://www.youtube.com/embed/(?P<id>.+?)(?:\\?.*|$)"@
}

/// `s` ends with `lit`.
pub open spec fn ends_with(s: Seq<char>, lit: Seq<char>) -> bool {
    has_at(s, s.len() - lit.len(), lit)
}

/// `s` is the address of a video embed.
pub open spec fn is_video_embed(s: Seq<char>) -> bool {
    has_at(s, 0, "https://www.youtube.com/embed"@)
}

/// `s` is the address of a still image of the archive: it lies under the
/// archive's image path and ends neither in `.swf` nor in `.html`.
pub open spec fn is_archive_image(s: Seq<char>) -> bool {
    has_at(s, 0, "https://apod.nasa.gov/apod/image"@) && !ends_with(s, ".swf"@) && !ends_with(
        s,
        ".html"@,
    )
}

/// The address of the still image that the provider keeps for the video
/// with the identifier `id`.
pub open spec fn video_still(id: Seq<char>) -> Seq<char> {
    "https://img.youtube.com/vi/"@ + id + "/0.jpg"@
}

/// The address of the still image for the video whose identifier was
/// found or not.
pub open spec fn video_thumbnail_spec(id: Option<Seq<char>>) -> Result<Seq<char>, ScrapeErrorView> {
    match id {
        Some(id) => Ok(video_still(id)),
        None => Err(ScrapeErrorView::ResourceUnsupported),
    }
}

/// The address of the still image that a thumbnail is made of, for the
/// image source `s`.
pub open spec fn thumbnail_url_spec(s: Seq<char>) -> Result<Seq<char>, ScrapeErrorView> {
    if is_video_embed(s) {
        video_thumbnail_spec(captured(embed_pattern(), "id"@, s))
    } else if is_archive_image(s) {
        Ok(s)
    } else {
        Err(ScrapeErrorView::ResourceUnsupported)
    }
}

/// The address of the still image of a video whose identifier was found
/// or not; a video without identifier is a source that is not supported.
pub fn video_thumbnail_url(id: Option<String>) -> (r: Result<String, ScrapeError>)
    ensures
        match video_thumbnail_spec(
            match id {
                Some(id) => Some(id@),
                None => None,
            },
        ) {
            Ok(url) => r is Ok && r->Ok_0@ == url,
            Err(e) => r is Err && r->Err_0@ == e,
        },
{
    match id {
        Some(id) => {
            let mut out = String::from_str("https://img.youtube.com/vi/");
            out.append(id.as_str());
            out.append("/0.jpg");
            Ok(out)
        },
        None => Err(ScrapeError::ResourceUnsupported),
    }
}

fn ends_with_lit(text: &Vec<char>, lit: &str) -> (b: bool)
    ensures
        b == ends_with(text@, lit@),
{
    let n = lit.unicode_len();
    if text.len() < n {
        false
    } else {
        lit_at(text, text.len() - n, lit)
    }
}

/// Finds the still image that a thumbnail is made of.
///
/// The address of a video embed gives way to the still image that the
/// provider keeps for the video. The address of a still image of the
/// archive stands for itself. Any other source is not supported.
pub fn thumbnail_url(image_source: &str) -> (r: Result<String, ScrapeError>)
    ensures
        match thumbnail_url_spec(image_source@) {
            Ok(url) => r is Ok && r->Ok_0@ == url,
            Err(e) => r is Err && r->Err_0@ == e,
        },
{
    let text = chars_of(image_source);
    if lit_at(&text, 0, "https://www.youtube.com/embed") {
        let id = capture(
            "https://www.youtube.com/embed/(?P<id>.+?)(?:\\?.*|$)",
            "id",
            image_source,
        );
        video_thumbnail_url(id)
    } else if lit_at(&text, 0, "https://apod.nasa.gov/apod/image") && !ends_with_lit(&text, ".swf")
        && !ends_with_lit(&text, ".html") {
        Ok(String::from_str(image_source))
    } else {
        Err(ScrapeError::ResourceUnsupported)
    }
}

/// The name of the file that holds the thumbnail of the date `date_key`.
pub fn thumbnail_file_name(date_key: &str) -> (r: String)
    ensures
        r@ == date_key@ + ".png"@,
{
    let mut out = String::from_str(date_key);
    out.append(".png");
    out
}

/// How an attempt to fetch and store a thumbnail ended.
#[derive(PartialEq, Eq, Structural, Clone, Copy, Debug)]
pub enum Attempt {
    /// The thumbnail is stored.
    Stored,
    /// The image could not be fetched.
    NetworkFailed,
    /// The image could not be decoded or encoded.
    ImageFailed,
    /// The thumbnail could not be written.
    FileSystemFailed,
}

/// What to do after an attempt.
#[derive(PartialEq, Eq, Structural, Clone, Copy, Debug)]
pub enum Step {
    /// The work is done.
    Finish,
    /// Wait for so many seconds, then attempt again.
    RetryAfter(u64),
    /// Give up: the network failed at every attempt.
    FailNetwork,
    /// Give up: the image cannot be decoded or encoded.
    FailImage,
    /// Give up: the thumbnail cannot be written.
    FailFileSystem,
}

/// What follows the attempt with the number `attempt`, counted from 1,
/// that ended as `outcome`. Only a failure of the network is worth
/// another attempt, after twice as many seconds as the number of the
/// failed attempt, and only while fewer than `MAX_ATTEMPTS` were made.
pub open spec fn next_step(attempt: u32, outcome: Attempt) -> Step {
    match outcome {
        Attempt::Stored => Step::Finish,
        Attempt::ImageFailed => Step::FailImage,
        Attempt::FileSystemFailed => Step::FailFileSystem,
        Attempt::NetworkFailed => if attempt < MAX_ATTEMPTS {
            Step::RetryAfter((attempt * 2) as u64)
        } else {
            Step::FailNetwork
        },
    }
}

/// Decides what follows an attempt to fetch and store a thumbnail.
pub fn after_attempt(attempt: u32, outcome: Attempt) -> (step: Step)
    ensures
        step == next_step(attempt, outcome),
{
    match outcome {
        Attempt::Stored => Step::Finish,
        Attempt::ImageFailed => Step::FailImage,
        Attempt::FileSystemFailed => Step::FailFileSystem,
        Attempt::NetworkFailed => if attempt < MAX_ATTEMPTS {
            Step::RetryAfter(attempt as u64 * 2)
        } else {
            Step::FailNetwork
        },
    }
}

/// The error that a step of giving up stands for.
pub fn error_of(step: Step) -> (r: Option<ScrapeError>)
    ensures
        match step {
            Step::FailNetwork => r is Some && r->Some_0@ == ScrapeErrorView::Network,
            Step::FailImage => r is Some && r->Some_0@ == ScrapeErrorView::Image,
            Step::FailFileSystem => r is Some && r->Some_0@ == ScrapeErrorView::FileSystem,
            _ => r is None,
        },
{
    match step {
        Step::FailNetwork => Some(ScrapeError::Network),
        Step::FailImage => Some(ScrapeError::Image),
        Step::FailFileSystem => Some(ScrapeError::FileSystem),
        _ => None,
    }
}

} // verus!

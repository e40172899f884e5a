//! The failures that scraping one archive page can end in.

use vstd::prelude::*;
use vstd::string::StringExecFns;

verus! {

/// What a step of scraping returns: its result, or the failure it ended in.
pub type ScrapeResult<T> = Result<T, ScrapeError>;

/// The failures that scraping can end in.
#[derive(Debug, Clone)]
pub enum ScrapeError {
    /// No entry was published for the requested date.
    NotFound,
    /// The transport failed, or every retry was used up.
    Network,
    /// A structural marker is absent from a page that was fetched.
    Parsing,
    /// A normalization or translation invariant does not hold; the text
    /// names it.
    HTMLFixing(String),
    /// The image source is of a kind that no thumbnail is made from.
    ResourceUnsupported,
    /// The thumbnail could not be stored.
    FileSystem,
    /// The image could not be decoded or encoded.
    Image,
}

/// What a `ScrapeError` holds, with text as a sequence of characters.
pub enum ScrapeErrorView {
    NotFound,
    Network,
    Parsing,
    HTMLFixing(Seq<char>),
    ResourceUnsupported,
    FileSystem,
    Image,
}

impl View for ScrapeError {
    type V = ScrapeErrorView;

    open spec fn view(&self) -> ScrapeErrorView {
        match self {
            ScrapeError::NotFound => ScrapeErrorView::NotFound,
            ScrapeError::Network => ScrapeErrorView::Network,
            ScrapeError::Parsing => ScrapeErrorView::Parsing,
            ScrapeError::HTMLFixing(reason) => ScrapeErrorView::HTMLFixing(reason@),
            ScrapeError::ResourceUnsupported => ScrapeErrorView::ResourceUnsupported,
            ScrapeError::FileSystem => ScrapeErrorView::FileSystem,
            ScrapeError::Image => ScrapeErrorView::Image,
        }
    }
}

/// The sentence that describes an error to a reader.
pub open spec fn message_of(e: ScrapeErrorView) -> Seq<char> {
    match e {
        ScrapeErrorView::NotFound => "No entry was published for this date"@,
        ScrapeErrorView::Network => "The network resource could not be retrieved"@,
        ScrapeErrorView::Parsing => "Parsing failed"@,
        ScrapeErrorView::HTMLFixing(reason) => "HTML fixing was unsuccessful ("@ + reason + ")"@,
        ScrapeErrorView::ResourceUnsupported => "The resource is unsupported"@,
        ScrapeErrorView::FileSystem => "Could not save or load file"@,
        ScrapeErrorView::Image => "Could not load image"@,
    }
}

impl ScrapeError {
    /// An `HTMLFixing` error whose reason is `reason`.
    pub fn html_fixing(reason: &str) -> (e: ScrapeError)
        ensures
            e@ == ScrapeErrorView::HTMLFixing(reason@),
    {
        ScrapeError::HTMLFixing(String::from_str(reason))
    }

    /// The sentence that describes this error.
    pub fn message(&self) -> (r: String)
        ensures
            r@ == message_of(self@),
    {
        match self {
            ScrapeError::NotFound => String::from_str("No entry was published for this date"),
            ScrapeError::Network => String::from_str(
                "The network resource could not be retrieved",
            ),
            ScrapeError::Parsing => String::from_str("Parsing failed"),
            ScrapeError::HTMLFixing(reason) => {
                let mut out = String::from_str("HTML fixing was unsuccessful (");
                out.append(reason.as_str());
                out.append(")");
                out
            },
            ScrapeError::ResourceUnsupported => String::from_str("The resource is unsupported"),
            ScrapeError::FileSystem => String::from_str("Could not save or load file"),
            ScrapeError::Image => String::from_str("Could not load image"),
        }
    }
}

} // verus!

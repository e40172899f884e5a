//! Extraction of picture-of-the-day entries from archive pages: lenient
//! repair of decades of hand-written markup into a small canonical tag
//! vocabulary, and its translation into plain styled text.

pub mod chars;
pub mod check;
pub mod entry;
pub mod error;
pub mod fixpoint;
pub mod fixup;
pub mod getter;
pub mod index;
pub mod pattern;
pub mod replacement;
pub mod tag;
pub mod text;
pub mod thumbnail;
pub mod token;
pub mod translation;
pub mod url;

pub use entry::{get_apod_data, APOD};
pub use error::{ScrapeError, ScrapeResult};
pub use thumbnail::thumbnail_url;

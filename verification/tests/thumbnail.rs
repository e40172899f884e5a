use apod_scraper::thumbnail::{
    after_attempt, error_of, thumbnail_file_name, thumbnail_url, video_thumbnail_url, Attempt,
    Step, MAX_ATTEMPTS, THUMBNAIL_SIZE,
};
use apod_scraper::ScrapeError;

fn unsupported(r: Result<String, ScrapeError>) -> bool {
    matches!(r, Err(ScrapeError::ResourceUnsupported))
}

#[test]
fn video_embed_resolves_to_its_still() {
    assert_eq!(
        thumbnail_url("https://www.youtube.com/embed/abc123?x=1").unwrap(),
        "https://img.youtube.com/vi/abc123/0.jpg"
    );
    assert_eq!(
        thumbnail_url("https://www.youtube.com/embed/abc123").unwrap(),
        "https://img.youtube.com/vi/abc123/0.jpg"
    );
}

#[test]
fn video_embed_without_identifier_is_unsupported() {
    assert!(unsupported(thumbnail_url("https://www.youtube.com/embed/")));
    assert!(unsupported(thumbnail_url("https://www.youtube.com/embed")));
    assert!(unsupported(video_thumbnail_url(None)));
}

#[test]
fn still_of_a_video_is_built_from_its_identifier() {
    assert_eq!(
        video_thumbnail_url(Some(String::from("xyz"))).unwrap(),
        "https://img.youtube.com/vi/xyz/0.jpg"
    );
}

#[test]
fn archive_image_stands_for_itself() {
    assert_eq!(
        thumbnail_url("https://apod.nasa.gov/apod/image/2103/M42_small.jpg").unwrap(),
        "https://apod.nasa.gov/apod/image/2103/M42_small.jpg"
    );
}

#[test]
fn other_sources_are_unsupported() {
    assert!(unsupported(thumbnail_url("https://apod.nasa.gov/apod/image/0001/flash.swf")));
    assert!(unsupported(thumbnail_url("https://apod.nasa.gov/apod/image/0001/page.html")));
    assert!(unsupported(thumbnail_url("https://vimeo.com/12345")));
    assert!(unsupported(thumbnail_url("")));
}

#[test]
fn file_name_is_keyed_by_the_date() {
    assert_eq!(thumbnail_file_name("2021-03-05"), "2021-03-05.png");
}

#[test]
fn thumbnails_are_squares_of_250_pixels() {
    assert_eq!(THUMBNAIL_SIZE, 250);
    assert_eq!(MAX_ATTEMPTS, 5);
}

#[test]
fn network_failures_are_retried_with_growing_waits() {
    assert_eq!(after_attempt(1, Attempt::NetworkFailed), Step::RetryAfter(2));
    assert_eq!(after_attempt(2, Attempt::NetworkFailed), Step::RetryAfter(4));
    assert_eq!(after_attempt(3, Attempt::NetworkFailed), Step::RetryAfter(6));
    assert_eq!(after_attempt(4, Attempt::NetworkFailed), Step::RetryAfter(8));
    assert_eq!(after_attempt(5, Attempt::NetworkFailed), Step::FailNetwork);
    assert_eq!(after_attempt(6, Attempt::NetworkFailed), Step::FailNetwork);
}

#[test]
fn other_failures_are_final_at_once() {
    assert_eq!(after_attempt(1, Attempt::ImageFailed), Step::FailImage);
    assert_eq!(after_attempt(1, Attempt::FileSystemFailed), Step::FailFileSystem);
    assert_eq!(after_attempt(3, Attempt::Stored), Step::Finish);
}

#[test]
fn steps_of_giving_up_name_their_error() {
    assert!(matches!(error_of(Step::FailNetwork), Some(ScrapeError::Network)));
    assert!(matches!(error_of(Step::FailImage), Some(ScrapeError::Image)));
    assert!(matches!(error_of(Step::FailFileSystem), Some(ScrapeError::FileSystem)));
    assert!(error_of(Step::Finish).is_none());
    assert!(error_of(Step::RetryAfter(2)).is_none());
}

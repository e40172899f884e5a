use apod_scraper::ScrapeError;

#[test]
fn every_error_has_its_sentence() {
    assert_eq!(ScrapeError::NotFound.message(), "No entry was published for this date");
    assert_eq!(
        ScrapeError::Network.message(),
        "The network resource could not be retrieved"
    );
    assert_eq!(ScrapeError::Parsing.message(), "Parsing failed");
    assert_eq!(
        ScrapeError::HTMLFixing(String::from("Upper case tag")).message(),
        "HTML fixing was unsuccessful (Upper case tag)"
    );
    assert_eq!(ScrapeError::ResourceUnsupported.message(), "The resource is unsupported");
    assert_eq!(ScrapeError::FileSystem.message(), "Could not save or load file");
    assert_eq!(ScrapeError::Image.message(), "Could not load image");
}

#[test]
fn a_fixing_error_carries_its_reason() {
    match ScrapeError::html_fixing("reason") {
        ScrapeError::HTMLFixing(reason) => assert_eq!(reason, "reason"),
        other => panic!("expected a fixing error, got {:?}", other),
    }
}

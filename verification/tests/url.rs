use apod_scraper::url::{is_rel_website_url, normalize_url};

#[test]
fn url_removes_whitespace() {
    assert_eq!(normalize_url("http://www.google .de"), "http://www.google.de");
}

#[test]
fn url_removes_new_line() {
    assert_eq!(normalize_url("http://www.google\n.de"), "http://www.google.de");
}

#[test]
fn url_removes_tab() {
    assert_eq!(normalize_url("http://www.google\t.de"), "http://www.google.de");
}

#[test]
fn url_removes_caret() {
    assert_eq!(normalize_url("http://www.google.de>"), "http://www.google.de");
    assert_eq!(normalize_url("http://www.google.de<"), "http://www.google.de");
}

#[test]
fn changes_relative_to_absolute_url() {
    assert_eq!(
        normalize_url("images/test.jpeg"),
        "https://apod.nasa.gov/apod/images/test.jpeg"
    )
}

#[test]
fn url_fixes_at_in_mailto() {
    assert_eq!(normalize_url("mailto:me@at@server.com"), "mailto:me@server.com");
    assert_eq!(normalize_url("mailto:me[at]server.com"), "mailto:me@server.com");
}

#[test]
fn url_fixes_dot_in_mailto() {
    assert_eq!(normalize_url("mailto:me@server.dot.com"), "mailto:me@server.com");
    assert_eq!(normalize_url("mailto:me@server[dot]com"), "mailto:me@server.com");
    assert_eq!(normalize_url("mailto:me@server.d.o.t.com"), "mailto:me@server.com");
}

#[test]
fn mod_removes_whitespace() {
    assert_eq!(normalize_url("http://www.google .de"), "http://www.google.de");
}

#[test]
fn mod_removes_new_line() {
    assert_eq!(normalize_url("http://www.google\n.de"), "http://www.google.de");
}

#[test]
fn mod_removes_tab() {
    assert_eq!(normalize_url("http://www.google\t.de"), "http://www.google.de");
}

#[test]
fn mod_removes_caret() {
    assert_eq!(normalize_url("http://www.google.de>"), "http://www.google.de");
    assert_eq!(normalize_url("http://www.google.de<"), "http://www.google.de");
}

#[test]
fn mod_fixes_at_in_mailto() {
    assert_eq!(normalize_url("mailto:me@at@server.com"), "mailto:me@server.com");
    assert_eq!(normalize_url("mailto:me[at]server.com"), "mailto:me@server.com");
}

#[test]
fn mod_fixes_dot_in_mailto() {
    assert_eq!(normalize_url("mailto:me@server.dot.com"), "mailto:me@server.com");
    assert_eq!(normalize_url("mailto:me@server[dot]com"), "mailto:me@server.com");
    assert_eq!(normalize_url("mailto:me@server.d.o.t.com"), "mailto:me@server.com");
}

#[test]
fn adds_missing_protocol() {
    assert_eq!(normalize_url("//www.google.de"), "https://www.google.de")
}

#[test]
fn detects_absolute_urls() {
    assert!(!is_rel_website_url("http://www.google.de"));
    assert!(!is_rel_website_url("www.google.de"));
    assert!(!is_rel_website_url("google.de"));
    assert!(!is_rel_website_url(
        "http://www.google.de/image/1905/TotnAfter_Dai_3000.jpg"
    ));
    assert!(!is_rel_website_url("www.google.de/ap160630.html"));
    assert!(!is_rel_website_url("google.de/images/test.jpeg"));
}

#[test]
fn detects_relative_urls() {
    assert!(is_rel_website_url("image/1905/TotnAfter_Dai_3000.jpg"));
    assert!(is_rel_website_url("ap160630.html"));
    assert!(is_rel_website_url("images/test.jpeg"));
}

#[test]
fn mixed_address_idioms_are_all_undone() {
    assert_eq!(normalize_url("mailto:me[at]server[dot]com"), "mailto:me@server.com");
}

#[test]
fn address_idioms_are_undone_until_none_is_left() {
    assert_eq!(normalize_url("mailto:a@at@at@b"), "mailto:a@b");
    assert_eq!(normalize_url("mailto:a.d.o.t.dot.b"), "mailto:a.b");
}

#[test]
fn normalizing_twice_changes_nothing() {
    for raw in [
        "images/test.jpeg",
        "mailto:me[at]server[dot]com",
        "mailto:a@at@at@b",
        "//www.google.de",
        "http://www.google .de",
        "www.google.de/ap160630.html",
        "ap160630.html",
        "",
        " <> ",
    ] {
        let once = normalize_url(raw);
        assert_eq!(normalize_url(&once), once);
    }
}

#[test]
fn the_last_host_label_decides() {
    assert!(!is_rel_website_url("a.bc.d"));
    assert!(is_rel_website_url("a.b.c"));
    assert!(is_rel_website_url("google.de.html"));
    assert!(is_rel_website_url("-a.de"));
    assert!(!is_rel_website_url("a-b.de"));
    assert!(!is_rel_website_url("https://x"));
    assert!(is_rel_website_url(""));
}

#[test]
fn empty_address_becomes_the_archive_base() {
    assert_eq!(normalize_url(""), "https://apod.nasa.gov/apod/");
}

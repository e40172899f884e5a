use apod_scraper::chars::chars_of;
use apod_scraper::index::{build_index, lookup, month_number, parse_index_line, ArchiveIndexEntry};

fn entry(date: &str, title: &str) -> ArchiveIndexEntry {
    ArchiveIndexEntry {
        date: String::from(date),
        title: String::from(title),
        locator: String::from("ap.html"),
    }
}

#[test]
fn index_is_looked_up_by_exact_date() {
    let index = vec![
        entry("2021-03-05", "first"),
        entry("2021-03-04", "second"),
        entry("2021-03-05", "third"),
    ];
    assert_eq!(lookup(&index, "2021-03-05").unwrap().title, "first");
    assert_eq!(lookup(&index, "2021-03-04").unwrap().title, "second");
    assert!(lookup(&index, "2021-03-03").is_none());
    assert!(lookup(&index, "2021-03-0").is_none());
    assert!(lookup(&Vec::new(), "2021-03-05").is_none());
}

const LISTING: &str = "<b> Archive </b>\n2021 March 05:  <a href=\"ap210305.html\">The Great Nebula</a><br>\n2021 March 4: <a href=\"ap210304.html\"> Second  one </a><br>\n\n1995 June 16: <a href=\"ap950616.html\">Neutron Star Earth</a>";

#[test]
fn index_is_built_from_the_lines_of_the_listing() {
    let index = build_index(LISTING);
    assert_eq!(index.len(), 3);
    assert_eq!(index[0].date, "2021-03-05");
    assert_eq!(index[0].title, "The Great Nebula");
    assert_eq!(index[0].locator, "ap210305.html");
    assert_eq!(index[1].date, "2021-03-04");
    assert_eq!(index[1].title, "Second  one");
    assert_eq!(index[1].locator, "ap210304.html");
    assert_eq!(index[2].date, "1995-06-16");
    assert_eq!(index[2].title, "Neutron Star Earth");
    assert_eq!(index[2].locator, "ap950616.html");
    assert_eq!(lookup(&index, "2021-03-04").unwrap().locator, "ap210304.html");
    assert!(lookup(&index, "2021-03-06").is_none());
}

#[test]
fn an_empty_listing_gives_an_empty_index() {
    assert!(build_index("").is_empty());
    assert!(build_index("\n\n").is_empty());
    assert!(build_index("no line of the right shape\n").is_empty());
}

fn parsed(line: &str) -> Option<(String, String, String)> {
    parse_index_line(&chars_of(line)).map(|e| (e.date, e.title, e.locator))
}

#[test]
fn a_line_of_the_listing_is_a_date_a_colon_and_a_link() {
    assert_eq!(
        parsed("  2009 December 31 : <a href=\"ap091231.html\">Blue Moon</a> tail"),
        Some((
            String::from("2009-12-31"),
            String::from("Blue Moon"),
            String::from("ap091231.html")
        ))
    );
    assert_eq!(
        parsed("2009 January 1:<a href=\"x\"></a>"),
        Some((String::from("2009-01-01"), String::from(""), String::from("x")))
    );
}

#[test]
fn a_line_of_another_shape_is_no_entry() {
    assert_eq!(parsed("2009 Dezember 31: <a href=\"ap091231.html\">Blue Moon</a>"), None);
    assert_eq!(parsed("2009 december 31: <a href=\"ap091231.html\">Blue Moon</a>"), None);
    assert_eq!(parsed("2009 December 32: <a href=\"ap091231.html\">Blue Moon</a>"), None);
    assert_eq!(parsed("2009 December 0: <a href=\"ap091231.html\">Blue Moon</a>"), None);
    assert_eq!(parsed("2009 December 031: <a href=\"ap091231.html\">Blue Moon</a>"), None);
    assert_eq!(parsed("209 December 31: <a href=\"ap091231.html\">Blue Moon</a>"), None);
    assert_eq!(parsed("20091 December 31: <a href=\"ap091231.html\">Blue Moon</a>"), None);
    assert_eq!(parsed("2009December 31: <a href=\"ap091231.html\">Blue Moon</a>"), None);
    assert_eq!(parsed("2009 December31: <a href=\"ap091231.html\">Blue Moon</a>"), None);
    assert_eq!(parsed("2009 December 31 <a href=\"ap091231.html\">Blue Moon</a>"), None);
    assert_eq!(parsed("2009 December 31: <a href=ap091231.html>Blue Moon</a>"), None);
    assert_eq!(parsed("2009 December 31: <a href=\"\">Blue Moon</a>"), None);
    assert_eq!(parsed("2009 December 31: <a href=\"ap091231.html\">Blue Moon"), None);
    assert_eq!(parsed("2009 December 31:"), None);
    assert_eq!(parsed(""), None);
}

#[test]
fn months_have_their_english_names() {
    let names = [
        "January", "February", "March", "April", "May", "June", "July", "August", "September",
        "October", "November", "December",
    ];
    for (i, name) in names.iter().enumerate() {
        assert_eq!(month_number(&chars_of(name)), Some(i as u8 + 1));
    }
    assert_eq!(month_number(&chars_of("Mai")), None);
    assert_eq!(month_number(&chars_of("")), None);
}

use apod_scraper::entry::{get_apod_data, page_url, APOD};
use apod_scraper::getter::{
    field_from, get_description, get_img_url, get_meta, get_title, get_title_meta_block,
    img_url_from, pick, plain_from_raw, styled_from_raw,
};
use apod_scraper::ScrapeError;

const PAGE: &str = "<html><head><title>APOD: 2021 March 5</title></head>\n<body>\n<center>\n<h1> Astronomy Picture of the Day </h1>\n<p>\n2021 March 5\n<br>\n<a href=\"image/2103/M42_big.jpg\">\n<IMG SRC=\"image/2103/M42_small.jpg\" alt=\"The nebula\"></a>\n</center>\n\n<center>\n<b> The Great Nebula </b> <br>\n<b> Image Credit: </b>\n<a href=\"https://example.org/\">Jane Doe</a>\n</center> <p>\n\n<b> Explanation: </b>\nThe <a href=\"https://en.wikipedia.org/wiki/Orion_Nebula\">Orion Nebula</a> is\n<i>very </i>bright.\n<p> <center>\n<b> Tomorrow's picture: </b> open space\n</center>\n</body></html>\n";

fn is_parsing(r: Result<String, ScrapeError>) -> bool {
    matches!(r, Err(ScrapeError::Parsing))
}

#[test]
fn finds_the_description() {
    assert_eq!(
        get_description(PAGE).unwrap(),
        "The [Orion Nebula](https://en.wikipedia.org/wiki/Orion_Nebula) is *very* bright."
    );
}

#[test]
fn finds_the_image_source() {
    assert_eq!(
        get_img_url(PAGE).unwrap(),
        "https://apod.nasa.gov/apod/image/2103/M42_small.jpg"
    );
}

#[test]
fn finds_the_source_of_a_frame() {
    assert_eq!(
        get_img_url("<p><iframe width=\"960\" src=\"https://www.youtube.com/embed/abc123?rel=0\"></iframe>")
            .unwrap(),
        "https://www.youtube.com/embed/abc123?rel=0"
    );
}

#[test]
fn an_image_is_preferred_to_a_frame() {
    let page = "<iframe src=\"https://www.youtube.com/embed/abc\"></iframe> <img src=\"image/a.jpg\">";
    assert_eq!(get_img_url(page).unwrap(), "https://apod.nasa.gov/apod/image/a.jpg");
}

#[test]
fn finds_the_data_of_an_object_and_the_movie_of_a_parameter() {
    assert_eq!(
        get_img_url("<object width=\"1\" data=\"image/a.swf\">").unwrap(),
        "https://apod.nasa.gov/apod/image/a.swf"
    );
    assert_eq!(
        get_img_url("<param name=\"movie\" value='//x.org/a.swf'>").unwrap(),
        "https://x.org/a.swf"
    );
    assert_eq!(
        get_img_url("<param name=\"movie\" value='b.swf'> <object data=\"a.swf\">").unwrap(),
        "https://apod.nasa.gov/apod/a.swf"
    );
}

#[test]
fn finds_the_second_block_group() {
    assert_eq!(
        get_title_meta_block(PAGE).unwrap(),
        "<b> The Great Nebula </b> <br>\n<b> Image Credit: </b>\n<a href=\"https://example.org/\">Jane Doe</a>"
    );
}

#[test]
fn finds_the_title() {
    assert_eq!(get_title(PAGE).unwrap(), "The Great Nebula");
}

#[test]
fn finds_the_credits() {
    assert_eq!(
        get_meta(PAGE).unwrap(),
        "Image Credit: [Jane Doe](https://example.org/)"
    );
}

#[test]
fn title_and_credits_hold_no_asterisk() {
    let page = "<center>x y</center><center><b> A*B </b><br><i>C*</i> d</center>";
    let title = get_title(page).unwrap();
    let meta = get_meta(page).unwrap();
    assert_eq!(title, "AB");
    assert_eq!(meta, "C d");
    assert!(!title.contains('*') && !meta.contains('*'));
}

#[test]
fn a_page_without_markers_gives_a_parsing_error() {
    assert!(is_parsing(get_description("<html></html>")));
    assert!(is_parsing(get_img_url("<html></html>")));
    assert!(is_parsing(get_title_meta_block("<center>only one</center>")));
    assert!(is_parsing(get_title("<center>only one</center>")));
    assert!(is_parsing(get_meta("<center>only one</center>")));
    assert!(is_parsing(get_title("<center>a b</center><center>no tags here</center>")));
}

#[test]
fn a_fixing_error_passes_through() {
    let page = "<b> Explanation: </b> a <table> b <p>";
    match get_description(page) {
        Err(ScrapeError::HTMLFixing(reason)) => assert_eq!(reason, "Could not detect tag <table>"),
        other => panic!("expected a fixing error, got {:?}", other),
    }
}

#[test]
fn styled_text_is_normalized_then_translated() {
    assert_eq!(
        styled_from_raw("Here is<b> bold </b>Text").unwrap(),
        "Here is **bold** Text"
    );
    assert_eq!(
        styled_from_raw("Some <I>Text</I>: Here").unwrap(),
        "Some *Text:* Here"
    );
    assert_eq!(
        styled_from_raw("a <a href=x.html>link").unwrap(),
        "a [link](https://apod.nasa.gov/apod/x.html)"
    );
}

#[test]
fn plain_text_has_its_markers_taken_out() {
    assert_eq!(plain_from_raw("<b> Title </b>").unwrap(), "Title");
    assert_eq!(plain_from_raw("2*3 <i>is</i> 6").unwrap(), "23 is 6");
}

#[test]
fn a_field_that_was_not_found_is_a_parsing_error() {
    assert!(is_parsing(field_from(None, true)));
    assert!(is_parsing(field_from(None, false)));
    assert!(is_parsing(img_url_from(None)));
    assert_eq!(field_from(Some(String::from("<b>x</b>")), false).unwrap(), "**x**");
    assert_eq!(field_from(Some(String::from("<b>x</b>")), true).unwrap(), "x");
    assert_eq!(
        img_url_from(Some(String::from("image/a.jpg"))).unwrap(),
        "https://apod.nasa.gov/apod/image/a.jpg"
    );
}

#[test]
fn pick_takes_the_item_at_an_index() {
    let items = vec![String::from("a"), String::from("b")];
    assert_eq!(pick(&items, 0), Some(String::from("a")));
    assert_eq!(pick(&items, 1), Some(String::from("b")));
    assert_eq!(pick(&items, 2), None);
}

#[test]
fn page_address_is_built_from_the_date() {
    assert_eq!(
        page_url("2021-03-05").unwrap(),
        "https://apod.nasa.gov/apod/ap210305.html"
    );
    assert_eq!(
        page_url("1996-01-01").unwrap(),
        "https://apod.nasa.gov/apod/ap960101.html"
    );
    assert_eq!(page_url("2021-3-5"), None);
    assert_eq!(page_url("2021/03/05"), None);
    assert_eq!(page_url("2021-03-05 "), None);
    assert_eq!(page_url("2021-03-0ü"), None);
    assert_eq!(page_url(""), None);
}

#[test]
fn a_record_is_made_of_the_fields_of_the_page() {
    let entry = get_apod_data("2021-03-05", 200, PAGE).unwrap().unwrap();
    assert_eq!(entry.id, None);
    assert_eq!(entry.date, "2021-03-05");
    assert_eq!(entry.img_url, "https://apod.nasa.gov/apod/image/2103/M42_small.jpg");
    assert_eq!(entry.title, "The Great Nebula");
    assert_eq!(
        entry.description,
        "The [Orion Nebula](https://en.wikipedia.org/wiki/Orion_Nebula) is *very* bright."
    );
    assert_eq!(entry.meta, "Image Credit: [Jane Doe](https://example.org/)");
    assert!(!entry.is_stored());
}

#[test]
fn not_found_is_no_entry_and_no_error() {
    assert!(get_apod_data("2021-03-05", 404, "<html>Not Found</html>").unwrap().is_none());
    assert!(get_apod_data("2021-03-05", 404, PAGE).unwrap().is_none());
}

#[test]
fn a_page_of_unknown_shape_is_an_error() {
    assert!(matches!(
        get_apod_data("2021-03-05", 200, "<html></html>"),
        Err(ScrapeError::Parsing)
    ));
}

#[test]
fn new_keeps_its_parts() {
    let entry = APOD::new(
        Some(7),
        String::from("2021-03-05"),
        String::from("u"),
        String::from("t"),
        String::from("d"),
        String::from("m"),
    );
    assert_eq!(entry.id, Some(7));
    assert_eq!(entry.date, "2021-03-05");
    assert_eq!(entry.img_url, "u");
    assert_eq!(entry.title, "t");
    assert_eq!(entry.description, "d");
    assert_eq!(entry.meta, "m");
    assert!(entry.is_stored());
}

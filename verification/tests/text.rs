use apod_scraper::check::check_html;
use apod_scraper::text::normalize_text;
use apod_scraper::token::find_tag_tokens;
use apod_scraper::ScrapeError;

fn helper(text: &str, compare: &[&str]) {
    let tokens = find_tag_tokens(text);
    assert_eq!(tokens.len(), compare.len());
    for (i, m) in tokens.iter().enumerate() {
        assert_eq!(m.as_str(), compare[i]);
    }
}

fn reason(r: Result<String, ScrapeError>) -> String {
    match r {
        Err(ScrapeError::HTMLFixing(reason)) => reason,
        other => panic!("expected a fixing error, got {:?}", other),
    }
}

fn broken(html: &str) -> String {
    match check_html(html) {
        Err(ScrapeError::HTMLFixing(reason)) => reason,
        other => panic!("expected a fixing error, got {:?}", other),
    }
}

#[test]
fn tag_regex_finds_tags() {
    helper("Text <i> Text", &["<i>"]);
    helper("Text <i>Content</i> Text", &["<i>", "</i>"]);
    helper(
        "Text <a href=\"www.google.de\">Link</a> Text",
        &["<a href=\"www.google.de\">", "</a>"],
    );
    helper(
        "Text <ahref=\"www.google.de\">Link</a> Text",
        &["<ahref=\"www.google.de\">", "</a>"],
    );
    helper(
        "Text <a href=\"www.google.de>\">Link</a> Text",
        &["<a href=\"www.google.de>\">", "</a>"],
    );
    helper(
        "Text <a href=\"www.google.de\" >Link</a> Text",
        &["<a href=\"www.google.de\" >", "</a>"],
    );
    helper("Text <?=/a> Text", &["<?=/a>"]);
    helper(
        "Text <a href=\"image/1905/TotnBefore_Dai_3000.jpg\"</a> Text",
        &["<a href=\"image/1905/TotnBefore_Dai_3000.jpg\"</a>"],
    );
    helper("Text <a href=\"\"> Text", &["<a href=\"\">"]);
    helper("Text <p>Content</p> Text", &["<p>", "</p>"]);
    helper(
        "Text <a h ref=\"www.google.de\"> Text",
        &["<a h ref=\"www.google.de\">"],
    );
    helper(
        "Text <a href=www.google.de\"> Text",
        &["<a href=www.google.de\">"],
    );
    helper(
        "Text <a href\"www.google.de\"> Text",
        &["<a href\"www.google.de\">"],
    );
    helper(
        "Text <la href\"www.google.de\"> Text",
        &["<la href\"www.google.de\">"],
    );
    helper(
      "Text <href=\"http://cosmicdiary.org/fpatat/2009/01/19/ x-shooter-goes-on-sky-again-and-again-nights-2-3-and-4/\"> Text",
      &["<href=\"http://cosmicdiary.org/fpatat/2009/01/19/ x-shooter-goes-on-sky-again-and-again-nights-2-3-and-4/\">"],
    );
}

#[test]
fn tokens_with_quotes_in_odd_places() {
    helper("a <> b > c", &["<> b >"]);
    helper("<\">", &[]);
    helper("<\"\">", &["<\"\">"]);
    helper("<a \"b\" c\" >", &["<a \"b\" c\" >"]);
    helper("<a \"x\ny\">", &[]);
    helper("no tag < here", &[]);
    helper("<i><b>", &["<i>", "<b>"]);
    helper("ü <i> ü", &["<i>"]);
}

#[test]
fn mod_fixes_tags() {
    assert_eq!(
      normalize_text(r#"This is a text with a <a href=www.google.de>Link</a> within it."#).unwrap(),
      r#"This is a text with a <a href="www.google.de">Link</a> within it."#
    );
    assert_eq!(
      normalize_text(
        r#"<a href="https://www.eso.org/public/">ESO</a>/<a href="https://www.eso.org/public/teles-instr/lasilla/mpg22/wfi/">WFI</a> (visible);"#
      ).unwrap(),
      r#"<a href="https://www.eso.org/public/">ESO</a>/<a href="https://www.eso.org/public/teles-instr/lasilla/mpg22/wfi/">WFI</a> (visible);"#
    );
}

#[test]
fn mod_adds_missing_closing_link_tags() {
    assert_eq!(
      normalize_text(
        r#"This is a text with a <a href="www.google.de">Link without end-tag <a href="www.google.de">and another Link</a>."#
      ).unwrap(),
      r#"This is a text with a <a href="www.google.de">Link without end-tag</a> <a href="www.google.de">and another Link</a>."#
    );
    assert_eq!(
        normalize_text(
            r#"This is a text with a lonely <a href="www.google.de">Link without end-tag."#
        )
        .unwrap(),
        r#"This is a text with a lonely <a href="www.google.de">Link without end-tag</a>."#
    );
}

#[test]
fn mod_moves_spaces_out_of_b_to_front() {
    assert_eq!(
        normalize_text(r#"Here is<b> bold</b> Text"#).unwrap(),
        r#"Here is <b>bold</b> Text"#
    );
}

#[test]
fn mod_moves_spaces_out_of_b_to_back() {
    assert_eq!(
        normalize_text(r#"Here is <b>bold </b>Text"#).unwrap(),
        r#"Here is <b>bold</b> Text"#
    );
}

#[test]
fn mod_moves_spaces_out_of_b_to_front_and_back() {
    assert_eq!(
        normalize_text(r#"Here is<b> bold </b>Text"#).unwrap(),
        r#"Here is <b>bold</b> Text"#
    );
}

#[test]
fn mod_leaves_spaces_as_is_in_good_b() {
    assert_eq!(
        normalize_text(r#"Here is <b>bold</b> Text"#).unwrap(),
        r#"Here is <b>bold</b> Text"#
    );
}

#[test]
fn mod_moves_spaces_out_of_i_to_front() {
    assert_eq!(
        normalize_text(r#"Here is<i> italic</i> Text"#).unwrap(),
        r#"Here is <i>italic</i> Text"#
    );
}

#[test]
fn mod_moves_spaces_out_of_i_to_back() {
    assert_eq!(
        normalize_text(r#"Here is <i>italic </i>Text"#).unwrap(),
        r#"Here is <i>italic</i> Text"#
    );
}

#[test]
fn mod_moves_spaces_out_of_i_to_front_and_back() {
    assert_eq!(
        normalize_text(r#"Here is<i> italic </i>Text"#).unwrap(),
        r#"Here is <i>italic</i> Text"#
    );
}

#[test]
fn mod_leaves_spaces_as_is_in_good_i() {
    assert_eq!(
        normalize_text(r#"Here is <i>italic</i> Text"#).unwrap(),
        r#"Here is <i>italic</i> Text"#
    );
}

#[test]
fn mod_moves_spaces_out_of_a_to_front() {
    assert_eq!(
        normalize_text(r#"Here is<a href="www.google.de"> Link</a> Text"#).unwrap(),
        r#"Here is <a href="www.google.de">Link</a> Text"#
    );
}

#[test]
fn mod_moves_spaces_out_of_a_to_back() {
    assert_eq!(
        normalize_text(r#"Here is <a href="www.google.de">Link </a>Text"#).unwrap(),
        r#"Here is <a href="www.google.de">Link</a> Text"#
    );
}

#[test]
fn mod_moves_spaces_out_of_a_to_front_and_back() {
    assert_eq!(
        normalize_text(r#"Here is<a href="www.google.de"> Link </a>Text"#).unwrap(),
        r#"Here is <a href="www.google.de">Link</a> Text"#
    );
}

#[test]
fn mod_leaves_spaces_as_is_in_good_a() {
    assert_eq!(
        normalize_text(r#"Here is <a href="www.google.de">Link</a> Text"#).unwrap(),
        r#"Here is <a href="www.google.de">Link</a> Text"#
    );
}

#[test]
fn moves_colon_into_ib() {
    assert_eq!(
        normalize_text("Some <i>Text</i>: Here").unwrap(),
        "Some <i>Text:</i> Here"
    )
}

#[test]
fn removes_caret_in_url() {
    assert_eq!(
        normalize_text(r#"A <a href="https://www.nasa.gov/>">Link</a> with caret in URL"#).unwrap(),
        r#"A <a href="https://www.nasa.gov/">Link</a> with caret in URL"#
    )
}

#[test]
fn text_fixes_tags() {
    assert_eq!(
        normalize_text("This is a text with a <a href=www.google.de>Link</a> within it.").unwrap(),
        r#"This is a text with a <a href="www.google.de">Link</a> within it."#
    );
    assert_eq!(
      normalize_text("<a href=\"https://www.eso.org/public/\">ESO</a>/<a\nhref=\"https://www.eso.org/public/teles-instr/lasilla/mpg22/wfi/\">WFI</a> (visible);").unwrap(),
      "<a href=\"https://www.eso.org/public/\">ESO</a>/<a href=\"https://www.eso.org/public/teles-instr/lasilla/mpg22/wfi/\">WFI</a> (visible);"
    );
}

#[test]
fn text_adds_missing_closing_link_tags() {
    assert_eq!(
      normalize_text(
        r#"This is a text with a <a href="www.google.de">Link without end-tag <a href="www.google.de">and another Link</a>."#
      ).unwrap(),
      r#"This is a text with a <a href="www.google.de">Link without end-tag</a> <a href="www.google.de">and another Link</a>."#
    );
    assert_eq!(
        normalize_text(
            r#"This is a text with a lonely <a href="www.google.de">Link without end-tag."#
        )
        .unwrap(),
        r#"This is a text with a lonely <a href="www.google.de">Link without end-tag</a>."#
    );
}

#[test]
fn text_moves_spaces_out_of_b_to_front() {
    assert_eq!(
        normalize_text(r#"Here is<b> bold</b> Text"#).unwrap(),
        r#"Here is <b>bold</b> Text"#
    );
}

#[test]
fn text_moves_spaces_out_of_b_to_back() {
    assert_eq!(
        normalize_text(r#"Here is <b>bold </b>Text"#).unwrap(),
        r#"Here is <b>bold</b> Text"#
    );
}

#[test]
fn text_moves_spaces_out_of_b_to_front_and_back() {
    assert_eq!(
        normalize_text(r#"Here is<b> bold </b>Text"#).unwrap(),
        r#"Here is <b>bold</b> Text"#
    );
}

#[test]
fn text_leaves_spaces_as_is_in_good_b() {
    assert_eq!(
        normalize_text(r#"Here is <b>bold</b> Text"#).unwrap(),
        r#"Here is <b>bold</b> Text"#
    );
}

#[test]
fn text_moves_spaces_out_of_i_to_front() {
    assert_eq!(
        normalize_text(r#"Here is<i> italic</i> Text"#).unwrap(),
        r#"Here is <i>italic</i> Text"#
    );
}

#[test]
fn text_moves_spaces_out_of_i_to_back() {
    assert_eq!(
        normalize_text(r#"Here is <i>italic </i>Text"#).unwrap(),
        r#"Here is <i>italic</i> Text"#
    );
}

#[test]
fn text_moves_spaces_out_of_i_to_front_and_back() {
    assert_eq!(
        normalize_text(r#"Here is<i> italic </i>Text"#).unwrap(),
        r#"Here is <i>italic</i> Text"#
    );
}

#[test]
fn text_leaves_spaces_as_is_in_good_i() {
    assert_eq!(
        normalize_text(r#"Here is <i>italic</i> Text"#).unwrap(),
        r#"Here is <i>italic</i> Text"#
    );
}

#[test]
fn text_moves_spaces_out_of_a_to_front() {
    assert_eq!(
        normalize_text(r#"Here is<a href="www.google.de"> Link</a> Text"#).unwrap(),
        r#"Here is <a href="www.google.de">Link</a> Text"#
    );
}

#[test]
fn text_moves_spaces_out_of_a_to_back() {
    assert_eq!(
        normalize_text(r#"Here is <a href="www.google.de">Link </a>Text"#).unwrap(),
        r#"Here is <a href="www.google.de">Link</a> Text"#
    );
}

#[test]
fn text_moves_spaces_out_of_a_to_front_and_back() {
    assert_eq!(
        normalize_text(r#"Here is<a href="www.google.de"> Link </a>Text"#).unwrap(),
        r#"Here is <a href="www.google.de">Link</a> Text"#
    );
}

#[test]
fn text_leaves_spaces_as_is_in_good_a() {
    assert_eq!(
        normalize_text(r#"Here is <a href="www.google.de">Link</a> Text"#).unwrap(),
        r#"Here is <a href="www.google.de">Link</a> Text"#
    );
}

#[test]
fn line_feeds_become_single_spaces() {
    assert_eq!(normalize_text("Some\n\n\n\nnew lines").unwrap(), "Some new lines");
    assert_eq!(
      normalize_text("The <a href=\"https://en.wikipedia.org/wiki/Antikythera_mechanism\"\n>Antikythera mechanism</a>, pictured, is now widely regarded as the \n<a href=\"https://en.wikipedia.org/wiki/Computer#Pre-20th_century\"\n>first</a> <a href=\n\"https://www.smithsonianmag.com/history/decoding-antikythera-mechanism-first-computer-180953979/\"\n>computer</a>.").unwrap(),
      "The <a href=\"https://en.wikipedia.org/wiki/Antikythera_mechanism\">Antikythera mechanism</a>, pictured, is now widely regarded as the <a href=\"https://en.wikipedia.org/wiki/Computer#Pre-20th_century\">first</a> <a href=\"https://www.smithsonianmag.com/history/decoding-antikythera-mechanism-first-computer-180953979/\">computer</a>."
    );
}

#[test]
fn unknown_token_aborts_with_its_text() {
    assert_eq!(
        reason(normalize_text("a <table> b <B>c</B>")),
        "Could not detect tag <table>"
    );
}

#[test]
fn every_open_link_is_closed() {
    assert_eq!(
        normalize_text("x <a href=1.html>foo <a href=2.html>bar").unwrap(),
        "x <a href=\"https://apod.nasa.gov/apod/1.html\">foo</a> <a href=\"https://apod.nasa.gov/apod/2.html\">bar</a>"
    );
    assert_eq!(
        normalize_text("<a href=\"x.de\">foo <b>bar</b>. <a href=\"y.de\">z</a>").unwrap(),
        "<a href=\"x.de\">foo <b>bar</b></a>. <a href=\"y.de\">z</a>"
    );
}

#[test]
fn spaces_around_line_breaks_go() {
    assert_eq!(normalize_text("one <br> two").unwrap(), "one<br>two");
    assert_eq!(normalize_text("one<BR/>two").unwrap(), "one<br>two");
}

#[test]
fn runs_of_spaces_collapse_and_ends_are_trimmed() {
    assert_eq!(normalize_text("  a   b \t").unwrap(), "a b");
}

#[test]
fn colon_behind_bold_moves_inside() {
    assert_eq!(normalize_text("<b>Key</b> : value").unwrap(), "<b>Key:</b> value");
}

#[test]
fn a_fragment_that_breaks_an_invariant_is_named() {
    assert_eq!(reason(normalize_text("x <B")), "Upper case tag");
    assert_eq!(reason(normalize_text("x <a name")), "Link opening tag with bad format");
}

#[test]
fn check_accepts_normalized_text() {
    assert!(check_html("Here is <b>bold</b> Text").is_ok());
    assert!(check_html("<a href=\"www.google.de\">Link</a> x").is_ok());
    assert!(check_html("").is_ok());
    assert!(check_html("a\n\nb").is_ok());
    assert!(check_html("</b> :").is_ok());
}

#[test]
fn check_names_the_first_broken_invariant() {
    assert_eq!(broken(" x"), "Empty space at beginning of text");
    assert_eq!(broken("x\n"), "Empty space at end of text");
    assert_eq!(broken(" x "), "Empty space at beginning of text");
    assert_eq!(broken("<b>x</b>: y"), "Colon after closing </b> or </i> tag");
    assert_eq!(broken("<i>x</i>:"), "Colon after closing </b> or </i> tag");
    assert_eq!(broken("a\n\n\nb"), "More than 2 consecutive newlines");
    assert_eq!(broken("a  b"), "More than 1 consecutive space");
    assert_eq!(broken("a\n\n\nb  c"), "More than 2 consecutive newlines");
    assert_eq!(broken("<B>x</b>"), "Upper case tag");
    assert_eq!(broken("x</bR>"), "Upper case tag");
    assert_eq!(broken("<a href=x>y</a>"), "Link opening tag with bad format");
    assert_eq!(broken("<ahref=\"x\">y</a>"), "Link opening tag with bad format");
    assert_eq!(broken("x<b/>"), "Closing tag with bad format");
    assert_eq!(broken("x</b2>"), "Closing tag with bad format");
}

#[test]
fn settled_text_comes_back_unchanged() {
    for text in [
        "Here is <b>bold</b> Text",
        "Some <i>Text:</i> Here",
        "<a href=\"www.google.de\">Link</a>, then<br>more <sup>2</sup>",
        "",
        "plain",
    ] {
        assert!(check_html(text).is_ok());
        assert_eq!(normalize_text(text).unwrap(), text);
    }
}

#[test]
fn text_with_a_line_feed_obeys_the_invariants_but_is_changed() {
    assert!(check_html("a\nb").is_ok());
    assert_eq!(normalize_text("a\nb").unwrap(), "a b");
}

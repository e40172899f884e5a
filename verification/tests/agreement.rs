use apod_scraper::fixup::{move_colons_chars, squeeze, tighten_breaks_chars};
use apod_scraper::tag::{detect_tag, extract_url, Tag};
use apod_scraper::token::find_tag_tokens;
use apod_scraper::translation::{links_to_markdown, remove_leftovers, rewrap_spans};
use apod_scraper::url::is_rel_website_url;
use regex::{Captures, Regex};

/// A small generator of repeatable pseudo-random numbers.
struct Dice(u64);

impl Dice {
    fn roll(&mut self, sides: usize) -> usize {
        self.0 = self
            .0
            .wrapping_mul(6364136223846793005)
            .wrapping_add(1442695040888963407);
        ((self.0 >> 33) as usize) % sides
    }

    fn pick<'a>(&mut self, options: &[&'a str]) -> &'a str {
        options[self.roll(options.len())]
    }

    fn text(&mut self, pieces: &[&str], most: usize) -> String {
        let n = self.roll(most + 1);
        let mut out = String::new();
        for _ in 0..n {
            out.push_str(pieces[self.roll(pieces.len())]);
        }
        out
    }
}

fn chars(s: &str) -> Vec<char> {
    s.chars().collect()
}

fn string(v: &Vec<char>) -> String {
    v.iter().collect()
}

#[test]
fn tokens_are_what_the_token_pattern_finds() {
    let pattern = Regex::new("<(?:[^\"]|\".*?\")+?\"?>").unwrap();
    let pieces = ["<", ">", "\"", "a", "/", " ", "\n", "x", "<a ", "=\"", "\">", "ü"];
    let mut dice = Dice(1);
    let mut quoted = 0;
    for _ in 0..30000 {
        let text = dice.text(&pieces, 10);
        let expected: Vec<String> = pattern.find_iter(&text).map(|m| m.as_str().to_owned()).collect();
        if expected.iter().any(|token| token.contains('"')) {
            quoted += 1;
        }
        assert_eq!(find_tag_tokens(&text), expected, "in {:?}", text);
    }
    assert!(quoted > 1000);
}

#[test]
fn address_is_what_the_link_pattern_captures() {
    let pattern = Regex::new(
        "<(?:l?[aA]\\s*)?(?:ref|href|rhef|hre|hef|hrf|HREF|h ref|hreff|herf)(?:\\s*=\\s*\"|=|\")(?P<url>[\\S\\s]*?)(?:>$|\"[\\S\\s]*>$|\"</a>$)",
    )
    .unwrap();
    let mut dice = Dice(2);
    let mut found_some = 0;
    for _ in 0..30000 {
        let text = [
            dice.pick(&["", "", "x", "< ", "<b>"]),
            dice.pick(&["<", "<", "<", "", "<<"]),
            dice.pick(&["a", "a", "A", "la", "lA", "", "l", "b"]),
            dice.pick(&["", " ", " ", "  ", "\t", "\n"]),
            dice.pick(&[
                "href", "href", "hre", "hreff", "ref", "rhef", "h ref", "HREF", "herf", "hef",
                "hrf", "hr", "xhref", "Href",
            ]),
            dice.pick(&["=", " = ", "=\"", "=\"", " = \"", "\"", "", " ", "= \n\"", "=="]),
            dice.pick(&["x", "y.de", "", "a b", "u>v", "ü", "q\"r", "//z", "<a href=\"w"]),
            dice.pick(&[">", "\">", "\">", "\" id=\"z\">", "\"</a>", "", "\" >", ">>", "\"\n>"]),
            dice.pick(&["", "", "", " ", "t>"]),
        ]
        .concat();
        let expected = pattern
            .captures(&text)
            .map_or("", |found| found.name("url").unwrap().as_str());
        if !expected.is_empty() {
            found_some += 1;
        }
        assert_eq!(extract_url(&text), expected, "in {:?}", text);
    }
    assert!(found_some > 300);
}

#[test]
fn opening_links_are_what_the_link_start_pattern_matches() {
    let pattern = Regex::new("^<(?:a |ahref|A |la href|href)").unwrap();
    let pieces = ["<", "a", "A", "l", " ", "href", "h", ">", "x", "/"];
    let mut dice = Dice(3);
    for _ in 0..20000 {
        let text = dice.text(&pieces, 6);
        let found = matches!(detect_tag(&text), Ok(Tag::OpeningA));
        assert_eq!(found, pattern.is_match(&text), "in {:?}", text);
    }
}

#[test]
fn relative_addresses_are_what_the_host_pattern_tells() {
    let scheme = Regex::new("^https?://").unwrap();
    let host = Regex::new(
        "^(?:(?:[a-zA-Z0-9][a-zA-Z0-9\\-]+?[a-zA-Z0-9]|[a-zA-Z0-9]{1,2})\\.)+(?P<tld>[a-zA-Z]{2,})",
    )
    .unwrap();
    let pieces = [
        "http://", "https://", "www", ".", "-", "a", "b1", "de", "html", "jpg", "/", "x", "com",
        "é", "_", "9", "Z", "php", "htm", "jpeg",
    ];
    let mut dice = Dice(4);
    let mut absolute = 0;
    for _ in 0..30000 {
        let text = dice.text(&pieces, 8);
        let expected = !scheme.is_match(&text)
            && match host.captures(&text) {
                Some(found) => matches!(
                    found.name("tld").unwrap().as_str(),
                    "html" | "jpg" | "jpeg" | "png" | "swf" | "gif" | "htm" | "asp" | "php"
                ),
                None => true,
            };
        if !expected {
            absolute += 1;
        }
        assert_eq!(is_rel_website_url(&text), expected, "in {:?}", text);
    }
    assert!(absolute > 1000);
}

#[test]
fn spans_are_rewrapped_as_the_span_pattern_replaces() {
    let pattern = Regex::new("<i>(?P<content>[\\s\\S]+?)</i>").unwrap();
    let pieces = ["<i>", "</i>", "x", " ", "\n", "<", ">", "i", "/", "<b>", "ü"];
    let mut dice = Dice(5);
    for _ in 0..30000 {
        let text = dice.text(&pieces, 10);
        let expected = pattern.replace_all(&text, "*$content*").into_owned();
        let got = rewrap_spans(&chars(&text), "<i>", "</i>", "*", "*");
        assert_eq!(string(&got), expected, "in {:?}", text);
    }
}

#[test]
fn links_are_translated_as_the_link_pattern_replaces() {
    let pattern = Regex::new("<a href=\"(?P<url>.+?)\">(?P<text>[\\s\\S]+?)</a>").unwrap();
    let pieces = [
        "<a href=\"u.de\">t</a>", "<a href=\"", "\">", "</a>", "x", " ", "\n", "\"", ">", "u.de", "<",
        "ü", "<a href=\"u\">", "t</a>",
    ];
    let mut dice = Dice(6);
    let mut changed = 0;
    for _ in 0..30000 {
        let text = dice.text(&pieces, 10);
        let expected = pattern
            .replace_all(&text, |found: &Captures| {
                format!("[{}]({})", &found["text"], &found["url"])
            })
            .into_owned();
        if expected != text {
            changed += 1;
        }
        assert_eq!(string(&links_to_markdown(&chars(&text))), expected, "in {:?}", text);
    }
    assert!(changed > 300);
}

#[test]
fn leftovers_go_as_the_leftover_pattern_replaces() {
    let pattern = Regex::new("\\s?(?:</a>|</b>)\\s?").unwrap();
    let pieces = ["</a>", "</b>", " ", "\t", "\n", "x", "<", "/", "</i>", "\u{a0}"];
    let mut dice = Dice(7);
    for _ in 0..30000 {
        let text = dice.text(&pieces, 10);
        let expected = pattern
            .replace_all(&text, |found: &Captures| {
                if found[0].contains(' ') {
                    " "
                } else {
                    ""
                }
            })
            .into_owned();
        assert_eq!(string(&remove_leftovers(&chars(&text))), expected, "in {:?}", text);
    }
}

#[test]
fn runs_are_squeezed_as_the_run_patterns_replace() {
    let spaces = Regex::new(" {2,}").unwrap();
    let lines = Regex::new("\\n+").unwrap();
    let pieces = [" ", "\n", "x", "\t", "  ", "\n\n"];
    let mut dice = Dice(8);
    for _ in 0..20000 {
        let text = dice.text(&pieces, 10);
        assert_eq!(
            string(&squeeze(&chars(&text), ' ', ' ')),
            spaces.replace_all(&text, " "),
            "in {:?}",
            text
        );
        assert_eq!(
            string(&squeeze(&chars(&text), '\n', ' ')),
            lines.replace_all(&text, " "),
            "in {:?}",
            text
        );
    }
}

#[test]
fn breaks_are_tightened_as_the_break_pattern_replaces() {
    let pattern = Regex::new("\\s?<br>\\s?").unwrap();
    let pieces = ["<br>", " ", "\t", "x", "<", "br>", "\u{2003}"];
    let mut dice = Dice(9);
    for _ in 0..30000 {
        let text = dice.text(&pieces, 10);
        let expected = pattern.replace_all(&text, "<br>").into_owned();
        assert_eq!(string(&tighten_breaks_chars(&chars(&text))), expected, "in {:?}", text);
    }
}

#[test]
fn colons_are_moved_as_the_colon_pattern_replaces() {
    let pattern = Regex::new("(?P<c_tag></[ib]>)\\s?:").unwrap();
    let pieces = ["</i>", "</b>", ":", " ", "\t", "x", "</a>", "<", "  "];
    let mut dice = Dice(10);
    for _ in 0..30000 {
        let text = dice.text(&pieces, 10);
        let expected = pattern.replace_all(&text, ":${c_tag}").into_owned();
        assert_eq!(string(&move_colons_chars(&chars(&text))), expected, "in {:?}", text);
    }
}

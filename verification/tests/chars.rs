use apod_scraper::chars::{
    chars_of, find_lit, is_space_char, is_word_char, lit_at, lower_char, replace_lit, string_of,
    trim_chars,
};
use regex::Regex;

#[test]
fn white_space_is_what_the_standard_library_calls_so() {
    for c in '\0'..=char::MAX {
        assert_eq!(is_space_char(c), c.is_whitespace(), "for {:?}", c);
    }
}

#[test]
fn white_space_is_what_patterns_call_so() {
    let space = Regex::new("^\\s$").unwrap();
    let mut buffer = [0u8; 4];
    for c in ('\0'..='\u{3100}').chain('\u{fe00}'..='\u{ffff}') {
        assert_eq!(is_space_char(c), space.is_match(c.encode_utf8(&mut buffer)), "for {:?}", c);
    }
}

#[test]
fn word_characters_are_what_patterns_call_so_in_the_known_blocks() {
    let word = Regex::new("^\\w$").unwrap();
    let mut buffer = [0u8; 4];
    for c in ('\0'..='\u{ff}').chain('\u{2000}'..='\u{206f}') {
        assert_eq!(is_word_char(c), word.is_match(c.encode_utf8(&mut buffer)), "for {:?}", c);
    }
    for c in ['é', 'ß', 'Ω', 'я', '中', 'ñ'] {
        assert!(is_word_char(c));
    }
    for c in ['—', '…', '»', '’', '“', '©', '×', ' ', '.', '-', '<'] {
        assert!(!is_word_char(c));
    }
}

#[test]
fn only_ascii_letters_are_lowered() {
    assert_eq!(lower_char('A'), 'a');
    assert_eq!(lower_char('Z'), 'z');
    assert_eq!(lower_char('m'), 'm');
    assert_eq!(lower_char('É'), 'É');
    assert_eq!(lower_char('['), '[');
    assert_eq!(lower_char('@'), '@');
}

#[test]
fn characters_and_strings_convert_both_ways() {
    let text = "aé中\u{1F600}z";
    let chars = chars_of(text);
    assert_eq!(chars, vec!['a', 'é', '中', '\u{1F600}', 'z']);
    assert_eq!(string_of(&chars), text);
    assert_eq!(string_of(&Vec::new()), "");
}

#[test]
fn literals_are_found_where_they_stand() {
    let text = chars_of("abcabc");
    assert!(lit_at(&text, 0, "abc"));
    assert!(lit_at(&text, 3, "abc"));
    assert!(!lit_at(&text, 4, "abc"));
    assert!(!lit_at(&text, 1, "abc"));
    assert!(lit_at(&text, 6, ""));
    assert!(!lit_at(&text, 7, ""));
    assert_eq!(find_lit(&text, 0, "bc"), 1);
    assert_eq!(find_lit(&text, 2, "bc"), 4);
    assert_eq!(find_lit(&text, 5, "bc"), 6);
}

#[test]
fn replacement_takes_matches_left_to_right() {
    assert_eq!(string_of(&replace_lit(&chars_of("aaa"), "aa", "b")), "ba");
    assert_eq!(string_of(&replace_lit(&chars_of("abab"), "ab", "")), "");
    assert_eq!(string_of(&replace_lit(&chars_of("abc"), "", "x")), "abc");
}

#[test]
fn trimming_takes_white_space_from_both_ends() {
    assert_eq!(string_of(&trim_chars(&chars_of(" \t a b \n"))), "a b");
    assert_eq!(string_of(&trim_chars(&chars_of(" \u{a0}\u{3000} "))), "");
    assert_eq!(string_of(&trim_chars(&chars_of(""))), "");
}

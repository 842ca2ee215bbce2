use i18n::error::I18nError;
use i18n::text::{find, matches_at, to_chars, to_text, trim};

fn chars(s: &str) -> Vec<char> {
    s.chars().collect()
}

#[test]
fn to_chars_gives_each_character_in_order() {
    assert_eq!(to_chars("héllo"), vec!['h', 'é', 'l', 'l', 'o']);
    assert_eq!(to_chars(""), Vec::<char>::new());
}

#[test]
fn to_text_puts_characters_back_together() {
    assert_eq!(to_text(&['h', 'é', 'l', 'l', 'o']), "héllo");
    assert_eq!(to_text(&[]), "");
    let original = "Grüße, 世界! 👾";
    assert_eq!(to_text(&to_chars(original)), original);
}

#[test]
fn trim_strips_white_space_at_both_ends_only() {
    let text = chars(" \t\r\n\u{a0}x  y\u{3000}\u{2028} ");
    assert_eq!(trim(&text), &['x', ' ', ' ', 'y'][..]);
}

#[test]
fn trim_agrees_with_the_standard_library() {
    for sample in ["", " ", "a", " a", "a ", "  a b  ", "\n\n", "\u{85}z\u{1680}", "no space"] {
        let text = chars(sample);
        assert_eq!(to_text(trim(&text)), sample.trim());
    }
}

#[test]
fn trim_of_blank_text_is_empty() {
    assert!(trim(&chars("")).is_empty());
    assert!(trim(&chars("   \t \n")).is_empty());
}

#[test]
fn trim_leaves_tight_text_as_it_is() {
    let text = chars("Hello.");
    assert_eq!(trim(&text), &text[..]);
}

#[test]
fn matches_at_tells_where_the_needle_stands() {
    let hay = chars("abcabc");
    let needle = chars("bc");
    assert!(!matches_at(&hay, &needle, 0));
    assert!(matches_at(&hay, &needle, 1));
    assert!(matches_at(&hay, &needle, 4));
    assert!(!matches_at(&hay, &needle, 5));
    assert!(!matches_at(&hay, &needle, 6));
    assert!(!matches_at(&hay, &needle, usize::MAX));
}

#[test]
fn matches_at_takes_the_empty_needle_anywhere_inside() {
    let hay = chars("ab");
    assert!(matches_at(&hay, &[], 0));
    assert!(matches_at(&hay, &[], 2));
    assert!(!matches_at(&hay, &[], 3));
}

#[test]
fn find_gives_the_first_place_from_the_start_index_on() {
    let hay = chars("abcabc");
    let needle = chars("bc");
    assert_eq!(find(&hay, &needle, 0), Some(1));
    assert_eq!(find(&hay, &needle, 1), Some(1));
    assert_eq!(find(&hay, &needle, 2), Some(4));
    assert_eq!(find(&hay, &needle, 4), Some(4));
    assert_eq!(find(&hay, &needle, 5), None);
    assert_eq!(find(&hay, &needle, 7), None);
}

#[test]
fn find_gives_none_where_the_needle_is_absent_or_too_long() {
    assert_eq!(find(&chars("abc"), &chars("x"), 0), None);
    assert_eq!(find(&chars("abc"), &chars("abcd"), 0), None);
    assert_eq!(find(&chars(""), &chars("a"), 0), None);
}

#[test]
fn find_takes_the_empty_needle_at_the_start_index() {
    assert_eq!(find(&chars("abc"), &[], 0), Some(0));
    assert_eq!(find(&chars("abc"), &[], 3), Some(3));
    assert_eq!(find(&chars("abc"), &[], 4), None);
    assert_eq!(find(&[], &[], 0), Some(0));
}

#[test]
fn find_sees_a_needle_at_the_very_end() {
    assert_eq!(find(&chars("xxab"), &chars("ab"), 0), Some(2));
    assert_eq!(find(&chars("ab"), &chars("ab"), 0), Some(0));
}

#[test]
fn each_failure_has_its_message() {
    assert_eq!(I18nError::EmptyInput.message(), "No text to speak");
    assert_eq!(I18nError::NoAudioReceived.message(), "No audio received");
    assert_eq!(
        I18nError::NetworkError("connection reset".to_string()).message(),
        "Network error: connection reset"
    );
    assert_eq!(
        I18nError::ProtocolError("unexpected event".to_string()).message(),
        "Protocol error: unexpected event"
    );
    assert_eq!(
        I18nError::DecodeError("Invalid padding".to_string()).message(),
        "Decode error: Invalid padding"
    );
}

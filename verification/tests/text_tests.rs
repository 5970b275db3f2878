use gaffa::name_map::NameMap;
use gaffa::text::{
    byte_len_of, char_count, contains_text, is_whitespace, join, lists, padded_left, padded_right,
    push_decimal, push_signed, same_text, split_lines, split_on, split_once, split_words, trim,
    trim_tail,
};

#[test]
fn white_space_is_that_of_unicode() {
    for u in 0..=0x10ffffu32 {
        if let Some(c) = char::from_u32(u) {
            assert_eq!(is_whitespace(c), c.is_whitespace());
        }
    }
}

#[test]
fn lines_and_words_are_split() {
    for text in ["", "a", "a\n", "a\r\nb", "a\n\nb\r", "\n", " x  y\tz ", "\u{a0}q\u{3000}"] {
        let lines: Vec<String> = text.lines().map(|l| l.to_string()).collect();
        assert_eq!(split_lines(text), lines);
        let words: Vec<String> = text.split_whitespace().map(|w| w.to_string()).collect();
        assert_eq!(split_words(text), words);
        assert_eq!(trim(text), text.trim());
        assert_eq!(trim_tail(text), text.trim_end());
        let parts: Vec<String> = text.split('\n').map(|p| p.to_string()).collect();
        assert_eq!(split_on(text, '\n'), parts);
    }
}

#[test]
fn texts_are_parted_at_the_first_match() {
    assert_eq!(
        split_once("a=b=c", '='),
        Some(("a".to_string(), "b=c".to_string()))
    );
    assert_eq!(split_once("abc", '='), None);
}

#[test]
fn numbers_are_written_in_decimal() {
    let mut text = String::new();
    push_decimal(&mut text, 0);
    push_decimal(&mut text, 18446744073709551615);
    assert_eq!(text, "018446744073709551615");
    let mut signed = String::new();
    push_signed(&mut signed, -2147483648);
    push_signed(&mut signed, 7);
    assert_eq!(signed, "-21474836487");
}

#[test]
fn padding_counts_characters() {
    assert_eq!(padded_left("é", 3), "  é");
    assert_eq!(padded_right("é", 3), "é  ");
    assert_eq!(padded_left("long", 2), "long");
    assert_eq!(char_count("é日"), 2);
    assert_eq!(byte_len_of("é日"), 5);
}

#[test]
fn lists_are_searched_and_joined() {
    let names = vec!["web".to_string(), "worker".to_string()];
    assert!(lists(&names, "web"));
    assert!(!lists(&names, "we"));
    assert_eq!(join(&names, ", "), "web, worker");
    assert_eq!(join(&Vec::new(), ", "), "");
    assert!(same_text("a", "a"));
    assert!(contains_text("xxRunningxx", "Running"));
    assert!(!contains_text("Run", "Running"));
    assert!(contains_text("abc", ""));
}

#[test]
fn name_maps_keep_the_order_of_names() {
    let mut map: NameMap<u32> = NameMap::new();
    map.insert("b".to_string(), 1);
    map.insert("a".to_string(), 2);
    map.insert("b".to_string(), 3);
    assert_eq!(map.all_names(), vec!["b".to_string(), "a".to_string()]);
    assert_eq!(map.get("b"), Some(&3));
    assert_eq!(map.get("c"), None);
    let copy = map.copied();
    map.insert("c".to_string(), 4);
    map.retain(&vec!["c".to_string(), "b".to_string(), "x".to_string()]);
    assert_eq!(map.all_names(), vec!["b".to_string(), "c".to_string()]);
    assert_eq!(map.remove("b"), Some(3));
    assert_eq!(map.remove("b"), None);
    assert_eq!(map.len(), 1);
    assert_eq!(copy.len(), 2);
    assert!(copy.contains_key("a"));
}

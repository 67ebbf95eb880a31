use cereal::text::{
    chars_of, contains, decimal, find, is_blank, mentions, parse_u64, same_text, split,
    split_once, string_of, trim, whitespace,
};

fn chars(s: &str) -> Vec<char> {
    s.chars().collect()
}

#[test]
fn contains_finds_a_word_inside_a_sentence() {
    assert!(contains("a new chapter", "new"));
    assert!(!contains("a new chapter", "old"));
    assert!(contains("anything", ""));
    assert!(contains("", ""));
    assert!(!contains("", "x"));
}

#[test]
fn find_gives_the_first_of_several_places() {
    assert_eq!(find(&chars("abcabc"), &chars("bc")), Some(1));
    assert_eq!(find(&chars("abcabc"), &chars("cab")), Some(2));
    assert_eq!(find(&chars("abcabc"), &chars("abcabcd")), None);
    assert_eq!(find(&chars("abc"), &chars("")), Some(0));
}

#[test]
fn blank_texts_are_those_of_white_space() {
    assert!(is_blank(" \t\n\u{3000}"));
    assert!(is_blank(""));
    assert!(!is_blank(" x "));
}

#[test]
fn same_text_compares_letter_for_letter() {
    assert!(same_text("kindle.com", "kindle.com"));
    assert!(!same_text("kindle.com", "Kindle.com"));
    assert!(!same_text("kindle.com", "kindle.co"));
    assert!(same_text("", ""));
}

#[test]
fn chars_and_back_keep_the_text() {
    let text = "Grüße, 世界!";
    assert_eq!(string_of(&chars_of(text)), text);
    assert_eq!(chars_of(text), chars(text));
}

#[test]
fn white_space_is_what_std_says_for_every_character() {
    let mut code: u32 = 0;
    while code <= 0x10FFFF {
        if let Some(c) = char::from_u32(code) {
            assert_eq!(whitespace(c), c.is_whitespace(), "U+{:04X}", code);
        }
        code += 1;
    }
}

#[test]
fn trim_agrees_with_std_on_mixed_white_space() {
    for text in ["  a b  ", "\t\n x", "x \u{a0}", "", "   ", "none", "\u{2003}inner \u{2003} space\u{2003}"] {
        assert_eq!(string_of(&trim(&chars(text))), text.trim(), "{:?}", text);
    }
}

#[test]
fn split_once_cuts_at_the_first_occurrence() {
    let (left, right) = split_once(&chars("Book - One - Two"), &chars(" - ")).unwrap();
    assert_eq!(string_of(&left), "Book");
    assert_eq!(string_of(&right), "One - Two");
    assert!(split_once(&chars("Book"), &chars(" - ")).is_none());
}

#[test]
fn split_gives_empty_pieces_too() {
    let pieces: Vec<String> = split(&chars("/a//b/"), '/').iter().map(string_of).collect();
    assert_eq!(pieces, vec!["", "a", "", "b", ""]);
    let whole: Vec<String> = split(&chars("abc"), '/').iter().map(string_of).collect();
    assert_eq!(whole, vec!["abc"]);
    let empty: Vec<String> = split(&chars(""), '/').iter().map(string_of).collect();
    assert_eq!(empty, vec![""]);
}

#[test]
fn split_agrees_with_std() {
    for text in ["a/b/c", "///", "x", "", "/lead", "trail/", "https://host/p/q"] {
        let ours: Vec<String> = split(&chars(text), '/').iter().map(string_of).collect();
        let theirs: Vec<String> = text.split('/').map(String::from).collect();
        assert_eq!(ours, theirs, "{:?}", text);
    }
}

#[test]
fn parse_u64_reads_what_std_reads() {
    for text in [
        "0", "7", "007", "+5", "18446744073709551615", "18446744073709551616", "", "+", "-1",
        "1 ", " 1", "12a", "++1", "99999999999999999999999", "１２",
    ] {
        assert_eq!(parse_u64(&chars(text)), text.parse::<u64>().ok(), "{:?}", text);
    }
}

#[test]
fn parse_u64_gives_the_largest_number_and_refuses_the_next() {
    assert_eq!(parse_u64(&chars("18446744073709551615")), Some(u64::MAX));
    assert_eq!(parse_u64(&chars("18446744073709551616")), None);
}

#[test]
fn decimal_writes_numbers_as_display_does() {
    for n in [0u64, 1, 9, 10, 11, 99, 100, 101, 12345, 1_000_000_000, u64::MAX] {
        assert_eq!(decimal(n), format!("{}", n));
    }
}

#[test]
fn mentions_looks_at_the_lower_case_form() {
    assert!(mentions("New post from PirateAba", "pirateaba"));
    assert!(mentions("THE DAILY GRIND", "daily grind"));
    assert!(!mentions("pirate aba", "pirateaba"));
    assert!(!mentions("pirateaba", "PirateAba"));
}

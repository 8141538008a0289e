use apache_metrics::text::{
    chars_of, find_char, is_whitespace_char, same_text, string_of, trim_range,
};

#[test]
fn whitespace_is_what_the_standard_library_calls_so() {
    let mut count = 0;
    for c in '\u{0}'..=char::MAX {
        assert_eq!(is_whitespace_char(c), c.is_whitespace(), "{:?}", c);
        if c.is_whitespace() {
            count += 1;
        }
    }
    assert_eq!(count, 25);
}

#[test]
fn characters_come_out_in_order() {
    assert_eq!(chars_of(""), Vec::<char>::new());
    assert_eq!(chars_of("aé\u{1F600}\n"), vec!['a', 'é', '\u{1F600}', '\n']);
    let chars = chars_of("Uptime: 1");
    assert_eq!(string_of(&chars, 0, 6), "Uptime");
    assert_eq!(string_of(&chars, 8, 9), "1");
    assert_eq!(string_of(&chars, 3, 3), "");
    assert_eq!(string_of(&chars, 0, chars.len()), "Uptime: 1");
}

#[test]
fn first_occurrence_is_found() {
    let chars = chars_of("a:b:c\nd");
    assert_eq!(find_char(&chars, 0, chars.len(), ':'), 1);
    assert_eq!(find_char(&chars, 2, chars.len(), ':'), 3);
    assert_eq!(find_char(&chars, 4, chars.len(), ':'), chars.len());
    assert_eq!(find_char(&chars, 0, 1, ':'), 1);
    assert_eq!(find_char(&chars, 0, 0, ':'), 0);
    assert_eq!(find_char(&chars, 0, chars.len(), '\n'), 5);
    assert_eq!(find_char(&chars, 6, chars.len(), '\n'), 7);
}

#[test]
fn trimming_is_what_the_standard_library_does() {
    for text in [
        "",
        " ",
        "   ",
        "a",
        " a",
        "a ",
        " a ",
        "  a b  ",
        "\t\r\n a\u{a0}b \u{3000}\u{2003}",
        "\u{85}x\u{1680}",
        "\u{200b}x\u{200b}",
        "\u{feff}x",
        " \u{2028}\u{2029}\u{202f}\u{205f}é\u{b}\u{c}",
        "x\u{0}",
        "\u{1c}x",
    ] {
        let chars = chars_of(text);
        let (from, to) = trim_range(&chars, 0, chars.len());
        assert_eq!(string_of(&chars, from, to), text.trim(), "{:?}", text);
    }
    let chars = chars_of("ab  cd  ef");
    assert_eq!(trim_range(&chars, 2, 8), (4, 6));
    assert_eq!(trim_range(&chars, 2, 4), (4, 4));
    assert_eq!(trim_range(&chars, 5, 5), (5, 5));
}

#[test]
fn texts_are_the_same_if_their_characters_are() {
    assert!(same_text("", ""));
    assert!(same_text("Uptime", "Uptime"));
    assert!(same_text("größe", "größe"));
    assert!(!same_text("Uptime", "uptime"));
    assert!(!same_text("Uptime", "Uptime "));
    assert!(!same_text("", " "));
    assert!(!same_text("e\u{301}", "é"));
}

use ox_core::text::{text_statistics, to_lower, to_title_case, to_upper, TextStats};

#[test]
fn empty_text_has_zero_counts() {
    let s = text_statistics("");
    assert_eq!(
        s,
        TextStats {
            characters: 0,
            words: 0,
            lines: 0,
            paragraphs: 0,
            non_whitespace: 0,
            average_word_length_tenths: 0,
        }
    );
    assert_eq!(s.average_word_length(), "0");
}

#[test]
fn three_words_of_growing_length() {
    let s = text_statistics("a bb ccc");
    assert_eq!(s.words, 3);
    assert_eq!(s.non_whitespace, 6);
    assert_eq!(s.characters, 8);
    assert_eq!(s.lines, 1);
    assert_eq!(s.paragraphs, 1);
    assert_eq!(s.average_word_length_tenths, 20);
    assert_eq!(s.average_word_length(), "2.0");
}

#[test]
fn lines_follow_newlines() {
    assert_eq!(text_statistics("a\n\nb\n").lines, 3);
    assert_eq!(text_statistics("a\nb").lines, 2);
    assert_eq!(text_statistics("\n").lines, 1);
    assert_eq!(text_statistics("a\r\nb").lines, 2);
}

#[test]
fn paragraphs_split_on_blank_lines() {
    assert_eq!(text_statistics("a\n\nb\n").paragraphs, 2);
    assert_eq!(text_statistics("a\n\n\nb").paragraphs, 2);
    assert_eq!(text_statistics("a\n\n  \n\nb").paragraphs, 2);
    assert_eq!(text_statistics("\n\n").paragraphs, 0);
    assert_eq!(text_statistics("one\ntwo").paragraphs, 1);
}

#[test]
fn average_rounds_to_tenths() {
    assert_eq!(text_statistics("a bb").average_word_length(), "1.5");
    assert_eq!(text_statistics("a b cc").average_word_length(), "1.3");
    assert_eq!(text_statistics("a bb bb").average_word_length(), "1.7");
    assert_eq!(text_statistics("a b c de").average_word_length(), "1.2");
    assert_eq!(text_statistics("a b c ddddd").average_word_length(), "2.0");
    assert_eq!(text_statistics("aaa b c de").average_word_length(), "1.8");
    assert_eq!(
        text_statistics("aaaaaaaaaaaaaaaaaaaa").average_word_length(),
        "20.0"
    );
}

#[test]
fn characters_are_utf8_bytes() {
    let s = text_statistics("h\u{e9}llo w\u{f6}rld");
    assert_eq!(s.characters, 13);
    assert_eq!(text_statistics("\u{e9}").characters, 2);
    assert_eq!(text_statistics("\u{1f980}").characters, 4);
    assert_eq!(s.non_whitespace, 10);
    assert_eq!(s.words, 2);
}

#[test]
fn unicode_whitespace_separates_words() {
    let s = text_statistics("a\u{3000}b\u{a0}c\td");
    assert_eq!(s.words, 4);
    assert_eq!(s.non_whitespace, 4);
}

#[test]
fn whitespace_only_text() {
    let s = text_statistics("   \n\t ");
    assert_eq!(s.words, 0);
    assert_eq!(s.non_whitespace, 0);
    assert_eq!(s.paragraphs, 0);
    assert_eq!(s.lines, 2);
    assert_eq!(s.average_word_length(), "0");
}

#[test]
fn case_transforms() {
    assert_eq!(to_upper("Hello, w\u{f6}rld"), "HELLO, W\u{d6}RLD");
    assert_eq!(to_lower("Hello, W\u{d6}RLD"), "hello, w\u{f6}rld");
    assert_eq!(to_title_case("  hello wORLD\n\u{e9}t\u{e9} "), "Hello WORLD \u{c9}t\u{e9}");
    assert_eq!(to_title_case(""), "");
}

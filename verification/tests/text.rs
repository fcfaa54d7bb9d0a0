use prompt_hub::prompts::estimate_token_count;
use prompt_hub::db::settings::is_production;
use prompt_hub::db::store::Store;
use prompt_hub::http::Reply;
use prompt_hub::prompts::handlers::{star, tag_ids_of_form};
use prompt_hub::text::{count_words, is_blank};

/// The number that a form field of the right name picks, if any.
fn picked(value: &str) -> Option<i64> {
    tag_ids_of_form(&vec![("tags[]".to_string(), value.to_string())]).pop()
}

/// The path of a prompt as a redirect writes it.
fn prompt_path(id: i64) -> String {
    match star(&mut Store::new(), None, id) {
        Reply::Redirect { location, .. } => location["/login?next=".len()..].to_string(),
        other => panic!("{other:?}"),
    }
}

#[test]
fn estimate_of_hello_is_one() {
    // 5 characters, 1 word: (5 / 4 + 1) / 2 = 1
    assert_eq!(estimate_token_count("Hello"), 1);
}

#[test]
fn estimate_of_empty_text_is_zero() {
    assert_eq!(estimate_token_count(""), 0);
}

#[test]
fn estimate_follows_the_formula() {
    // 7 characters, 4 words: (7 / 4 + 4) / 2 = 2
    assert_eq!(estimate_token_count("a b c d"), 2);
    // 43 characters, 9 words: (43 / 4 + 9) / 2 = 9
    assert_eq!(estimate_token_count("The quick brown fox jumps over the lazy dog"), 9);
    // 3 characters, 0 words: (3 / 4 + 0) / 2 = 0
    assert_eq!(estimate_token_count("   "), 0);
}

#[test]
fn estimate_counts_characters_not_bytes() {
    // 8 characters of 2 bytes each, 1 word: (8 / 4 + 1) / 2 = 1
    assert_eq!(estimate_token_count("éééééééé"), 1);
    // 16 characters, 1 word: (16 / 4 + 1) / 2 = 2
    assert_eq!(estimate_token_count("éééééééééééééééé"), 2);
}

#[test]
fn words_are_runs_between_whitespace() {
    assert_eq!(count_words(""), 0);
    assert_eq!(count_words("one"), 1);
    assert_eq!(count_words("  one   two  "), 2);
    assert_eq!(count_words("one\ttwo\nthree\r\nfour"), 4);
}

#[test]
fn words_split_on_unicode_whitespace() {
    assert_eq!(count_words("a\u{00A0}b"), 2);
    assert_eq!(count_words("a\u{0085}b"), 2);
    assert_eq!(count_words("a\u{1680}b\u{2003}c\u{3000}d"), 4);
    assert_eq!(count_words("a\u{2028}b\u{2029}c\u{202F}d\u{205F}e"), 5);
}

#[test]
fn words_do_not_split_on_lookalikes() {
    // zero-width space and the Mongolian vowel separator are no whitespace
    assert_eq!(count_words("a\u{200B}b"), 1);
    assert_eq!(count_words("a\u{180E}b"), 1);
    assert_eq!(count_words("a\u{001F}b"), 1);
}

#[test]
fn word_count_agrees_with_split_whitespace() {
    let samples = [
        "",
        " ",
        "x",
        " x",
        "x ",
        "a  b",
        "\u{000B}a\u{000C}b\u{000D}",
        "tab\tnew\nline",
        "mixed \u{2000}\u{200A} spaces",
    ];
    for sample in samples {
        assert_eq!(count_words(sample), sample.split_whitespace().count());
    }
}

#[test]
fn blank_is_empty_after_trimming() {
    assert!(is_blank(""));
    assert!(is_blank("   "));
    assert!(is_blank("\t\n\u{00A0}"));
    assert!(!is_blank(" a "));
    assert!(!is_blank("\u{200B}"));
}

#[test]
fn numbers_are_read_in_signed_decimal_notation() {
    assert_eq!(picked("1"), Some(1));
    assert_eq!(picked("007"), Some(7));
    assert_eq!(picked("+5"), Some(5));
    assert_eq!(picked("-5"), Some(-5));
    assert_eq!(picked("-0"), Some(0));
    assert_eq!(picked("9223372036854775807"), Some(i64::MAX));
    assert_eq!(picked("-9223372036854775808"), Some(i64::MIN));
}

#[test]
fn nothing_else_is_read_as_a_number() {
    for value in [
        "",
        "-",
        "+",
        "--5",
        "+-5",
        " 5",
        "5 ",
        "1_000",
        "12a",
        "0x10",
        "1.0",
        "٣",
        "9223372036854775808",
        "-9223372036854775809",
    ] {
        assert_eq!(picked(value), None, "{value:?}");
    }
}

#[test]
fn numbers_are_written_in_plain_decimal_notation() {
    assert_eq!(prompt_path(0), "/prompt/0");
    assert_eq!(prompt_path(7), "/prompt/7");
    assert_eq!(prompt_path(10), "/prompt/10");
    assert_eq!(prompt_path(-42), "/prompt/-42");
    assert_eq!(prompt_path(i64::MAX), "/prompt/9223372036854775807");
    assert_eq!(prompt_path(i64::MIN), "/prompt/-9223372036854775808");
}

#[test]
fn numbers_written_are_read_back() {
    for n in [0, 1, -1, 9, 10, 99, 100, -100, 1234567890, i64::MAX, i64::MIN] {
        let path = prompt_path(n);
        assert_eq!(picked(&path["/prompt/".len()..]), Some(n));
    }
}

#[test]
fn texts_are_compared_by_content() {
    assert!(is_production("PROD"));
    assert!(!is_production("PRO"));
    assert!(!is_production("PRODUCT"));
    assert!(!is_production("prod"));
    assert!(!is_production(""));
}

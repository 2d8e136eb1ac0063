use gitcode_engine::text::{decimal_text, occurs, same_text};

#[test]
fn occurs_finds_a_run_of_adjacent_characters() {
    assert!(occurs("https://invalid.url/test", "invalid"));
    assert!(occurs("actix", "act"));
    assert!(occurs("actix", "x"));
    assert!(occurs("actix", ""));
    assert!(occurs("", ""));
    assert!(!occurs("", "a"));
    assert!(!occurs("actix", "atx"));
    assert!(!occurs("act", "actix"));
    assert!(occurs("grüße", "üß"));
    assert!(!occurs("grüße", "us"));
}

#[test]
fn same_text_compares_character_by_character() {
    assert!(same_text("", ""));
    assert!(same_text("abc", "abc"));
    assert!(same_text("grüße", "grüße"));
    assert!(!same_text("abc", "abd"));
    assert!(!same_text("abc", "ab"));
    assert!(!same_text("ab", "abc"));
    assert!(!same_text("", "a"));
    assert!(!same_text("e\u{301}", "\u{e9}"));
}

#[test]
fn decimal_text_writes_base_ten_without_leading_zeros() {
    assert_eq!(decimal_text(0), "0");
    assert_eq!(decimal_text(7), "7");
    assert_eq!(decimal_text(10), "10");
    assert_eq!(decimal_text(909), "909");
    assert_eq!(decimal_text(1000), "1000");
    assert_eq!(decimal_text(u32::MAX), "4294967295");
}

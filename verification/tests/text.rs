use onehistory::text::{chars_of, contains, remove_char};

#[test]
fn contains_finds_a_part() {
    assert!(contains("no such table: visits", "no such table"));
    assert!(contains("prepare failed: no such table: visits in select 1", "no such table"));
    assert!(contains("abc", "abc"));
    assert!(contains("abc", "c"));
    assert!(contains("abc", ""));
    assert!(contains("", ""));
}

#[test]
fn contains_misses_what_is_not_there() {
    assert!(!contains("no such column: x", "no such table"));
    assert!(!contains("ab", "abc"));
    assert!(!contains("", "a"));
    assert!(!contains("aab", "aba"));
}

#[test]
fn contains_tells_case_apart() {
    assert!(!contains("No Such Table", "no such table"));
    assert!(contains("Rust", "Rust"));
    assert!(!contains("Rust", "rust"));
}

#[test]
fn contains_compares_characters_not_bytes() {
    assert!(contains("h\u{e9}llo w\u{f6}rld", "w\u{f6}r"));
    assert!(!contains("h\u{e9}llo", "e"));
}

#[test]
fn remove_char_drops_every_occurrence() {
    assert_eq!(remove_char("it's o'clock", '\''), "its oclock");
    assert_eq!(remove_char("'''", '\''), "");
    assert_eq!(remove_char("", '\''), "");
    assert_eq!(remove_char("plain", '\''), "plain");
    assert_eq!(remove_char("d\u{e9}j\u{e0}'vu", '\''), "d\u{e9}j\u{e0}vu");
}

#[test]
fn chars_of_keeps_the_order() {
    assert_eq!(chars_of("a\u{e9}z"), vec!['a', '\u{e9}', 'z']);
    assert_eq!(chars_of(""), Vec::<char>::new());
}

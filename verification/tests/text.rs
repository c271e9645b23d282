use whitelist_sync::text::{
    chars_of, copy_texts, find_char, find_in, join_texts, matches_at, same_text, slice_of,
    split_text, string_of,
};

#[test]
fn chars_and_back() {
    let chars = chars_of("h\u{e9}llo");
    assert_eq!(chars, vec!['h', '\u{e9}', 'l', 'l', 'o']);
    assert_eq!(string_of(&chars, 1, 4), "\u{e9}ll");
    assert_eq!(string_of(&chars, 2, 2), "");
    assert_eq!(slice_of(&chars, 0, 2), vec!['h', '\u{e9}']);
}

#[test]
fn same_text_compares_contents() {
    assert!(same_text("abc", "abc"));
    assert!(!same_text("abc", "abd"));
    assert!(!same_text("abc", "ab"));
    assert!(same_text("", ""));
    assert!(same_text("\u{fc}", "\u{fc}"));
}

#[test]
fn find_char_gives_length_when_absent() {
    let chars = chars_of("a/b/c");
    assert_eq!(find_char(&chars, '/', 0), 1);
    assert_eq!(find_char(&chars, '/', 1), 1);
    assert_eq!(find_char(&chars, '/', 2), 3);
    assert_eq!(find_char(&chars, '/', 4), 5);
    assert_eq!(find_char(&chars, '/', 5), 5);
}

#[test]
fn find_in_names_first_occurrence() {
    let hay = chars_of("xxabxab");
    let pat = chars_of("ab");
    assert!(matches_at(&hay, &pat, 2));
    assert!(!matches_at(&hay, &pat, 3));
    assert!(!matches_at(&hay, &pat, 6));
    assert!(!matches_at(&hay, &pat, 100));
    assert_eq!(find_in(&hay, &pat, 0), Some(2));
    assert_eq!(find_in(&hay, &pat, 3), Some(5));
    assert_eq!(find_in(&hay, &pat, 6), None);
    assert_eq!(find_in(&hay, &chars_of(""), 3), Some(3));
    assert_eq!(find_in(&pat, &hay, 0), None);
}

#[test]
fn split_keeps_empty_pieces() {
    assert_eq!(split_text("a;b;c", ';'), vec!["a", "b", "c"]);
    assert_eq!(split_text("", ';'), vec![""]);
    assert_eq!(split_text("a;", ';'), vec!["a", ""]);
    assert_eq!(split_text(";a;;b", ';'), vec!["", "a", "", "b"]);
    assert_eq!(split_text("host.example.org", ';'), vec!["host.example.org"]);
}

#[test]
fn join_puts_separator_between() {
    let parts = vec![String::from("a"), String::from("b"), String::from("c")];
    assert_eq!(join_texts(&parts, "; "), "a; b; c");
    assert_eq!(join_texts(&vec![String::from("a")], ";"), "a");
    assert_eq!(join_texts(&Vec::new(), ";"), "");
    assert_eq!(copy_texts(&parts), parts);
}

#[test]
fn join_undoes_split() {
    let text = "one;two;;three;";
    assert_eq!(join_texts(&split_text(text, ';'), ";"), text);
}

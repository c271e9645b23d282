use whitelist_sync::percent::{form_encode, percent_decode, percent_encode};
use whitelist_sync::textmap::TextMap;

#[test]
fn letters_and_digits_stand_as_they_are() {
    assert_eq!(percent_encode("abcXYZ019"), "abcXYZ019");
    assert_eq!(percent_encode(""), "");
}

#[test]
fn reserved_characters_are_escaped() {
    assert_eq!(percent_encode("a;b:c/d,e&f=g"), "a%3Bb%3Ac%2Fd%2Ce%26f%3Dg");
    assert_eq!(percent_encode("1.2.3.4;5.6.7.8"), "1%2E2%2E3%2E4%3B5%2E6%2E7%2E8");
    assert_eq!(percent_encode(" "), "%20");
    assert_eq!(percent_encode("%"), "%25");
    assert_eq!(percent_encode("-_.~"), "%2D%5F%2E%7E");
}

#[test]
fn non_ascii_is_escaped_byte_by_byte() {
    assert_eq!(percent_encode("\u{e9}"), "%C3%A9");
    assert_eq!(percent_encode("\u{20ac}"), "%E2%82%AC");
    assert_eq!(percent_encode("\u{1f496}"), "%F0%9F%92%96");
}

#[test]
fn decode_reads_both_cases_of_digits() {
    assert_eq!(percent_decode("foo%20bar%3f"), Some(String::from("foo bar?")));
    assert_eq!(percent_decode("foo%20bar%3F"), Some(String::from("foo bar?")));
    assert_eq!(percent_decode("%c3%A9"), Some(String::from("\u{e9}")));
}

#[test]
fn decode_leaves_stray_percent() {
    assert_eq!(percent_decode("100%"), Some(String::from("100%")));
    assert_eq!(percent_decode("%zz"), Some(String::from("%zz")));
    assert_eq!(percent_decode("%4"), Some(String::from("%4")));
    assert_eq!(percent_decode("%%41"), Some(String::from("%A")));
}

#[test]
fn decode_refuses_bytes_that_are_not_text() {
    assert_eq!(percent_decode("%FF"), None);
    assert_eq!(percent_decode("%C3"), None);
    assert_eq!(percent_decode("%00%9F%92%96"), None);
}

#[test]
fn encoding_then_decoding_gives_the_text_back() {
    let samples = vec![
        "a;b&c=d e",
        "1.2.3.4;5.6.7.8",
        "caf\u{e9} \u{20ac}5 & more = \u{1f496};",
        "%25 already % encoded %zz",
        "",
        "\u{0}\u{7f}\n\t",
    ];
    for sample in samples {
        let encoded = percent_encode(sample);
        assert!(encoded.is_ascii());
        assert_eq!(percent_decode(&encoded), Some(String::from(sample)));
    }
}

#[test]
fn form_body_joins_fields_with_ampersand() {
    let mut fields = TextMap::new();
    fields.upsert(String::from("name"), String::from("a b"));
    fields.upsert(String::from("deviceapi_host_whitelist"), String::from("1.2.3.4;9.9.9.9"));
    fields.upsert(String::from("empty"), String::from(""));
    assert_eq!(
        form_encode(&fields),
        "name=a%20b&deviceapi_host_whitelist=1%2E2%2E3%2E4%3B9%2E9%2E9%2E9&empty="
    );
}

#[test]
fn form_body_of_no_fields_is_empty() {
    assert_eq!(form_encode(&TextMap::new()), "");
}

#[test]
fn form_body_of_one_field_has_no_ampersand() {
    let mut fields = TextMap::new();
    fields.upsert(String::from("k"), String::from("v&w"));
    assert_eq!(form_encode(&fields), "k=v%26w");
}

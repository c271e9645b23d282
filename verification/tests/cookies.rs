use whitelist_sync::cookies::{absorb_set_cookie, cookie_header, parse_set_cookie, CookieJar};

fn pair(name: &str, value: &str) -> Option<(String, String)> {
    Some((String::from(name), String::from(value)))
}

#[test]
fn set_cookie_with_attributes_sets_first_pair() {
    assert_eq!(parse_set_cookie("CSRF-TOKEN=abc123; Path=/; HttpOnly"), pair("CSRF-TOKEN", "abc123"));
}

#[test]
fn set_cookie_without_attributes() {
    assert_eq!(parse_set_cookie("sid=xyz"), pair("sid", "xyz"));
}

#[test]
fn set_cookie_value_may_hold_equals() {
    assert_eq!(parse_set_cookie("a=b=c; Path=/"), pair("a", "b=c"));
}

#[test]
fn set_cookie_without_equals_sets_nothing() {
    assert_eq!(parse_set_cookie("no pair here"), None);
    assert_eq!(parse_set_cookie(""), None);
    assert_eq!(parse_set_cookie("="), None);
    assert_eq!(parse_set_cookie("a="), None);
}

#[test]
fn set_cookie_pair_may_start_late() {
    assert_eq!(parse_set_cookie("=x=y"), pair("x", "y"));
    assert_eq!(parse_set_cookie("a=;b=c"), pair(";b", "c"));
}

#[test]
fn set_cookie_keeps_non_ascii() {
    assert_eq!(parse_set_cookie("n\u{e4}me=v\u{e4}l\u{fc}e; Path=/"), pair("n\u{e4}me", "v\u{e4}l\u{fc}e"));
}

#[test]
fn jar_replays_cookies_in_order() {
    let mut jar = CookieJar::new();
    absorb_set_cookie(&mut jar, "a=1; Path=/");
    absorb_set_cookie(&mut jar, "b=2");
    absorb_set_cookie(&mut jar, "a=3; Secure");
    assert_eq!(cookie_header(&jar), "a=3; b=2");
}

#[test]
fn jar_takes_cookie_and_overwrites_prior_value() {
    let mut jar = CookieJar::new();
    absorb_set_cookie(&mut jar, "session=old; Path=/");
    absorb_set_cookie(&mut jar, "other=kept; Path=/");
    absorb_set_cookie(&mut jar, "session=new; Path=/dashboard");
    assert_eq!(jar.len(), 2);
    assert_eq!(jar.get("session"), Some(&String::from("new")));
    assert_eq!(jar.get("other"), Some(&String::from("kept")));
    assert_eq!(jar.get("absent"), None);
}

#[test]
fn jar_ignores_malformed_set_cookie() {
    let mut jar = CookieJar::new();
    absorb_set_cookie(&mut jar, "a=1");
    absorb_set_cookie(&mut jar, "garbage");
    assert_eq!(jar.len(), 1);
    assert_eq!(cookie_header(&jar), "a=1");
}

#[test]
fn empty_jar_replays_as_empty_header() {
    let jar = CookieJar::new();
    assert_eq!(cookie_header(&jar), "");
}

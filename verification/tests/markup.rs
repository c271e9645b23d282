use whitelist_sync::markup::{has_name, parse_attributes, value_of};
use whitelist_sync::text::chars_of;

fn attr(name: &str, value: Option<&str>) -> (String, Option<String>) {
    (String::from(name), value.map(String::from))
}

#[test]
fn attributes_in_any_order() {
    let attrs = parse_attributes(&chars_of(" name=\"n\" checked value=\"v\" type=\"checkbox\""));
    assert_eq!(
        attrs,
        vec![
            attr("name", Some("n")),
            attr("checked", None),
            attr("value", Some("v")),
            attr("type", Some("checkbox")),
        ]
    );
    assert_eq!(value_of(&attrs, "type"), Some(&String::from("checkbox")));
    assert_eq!(value_of(&attrs, "value"), Some(&String::from("v")));
    assert_eq!(value_of(&attrs, "checked"), None);
    assert_eq!(value_of(&attrs, "class"), None);
    assert!(has_name(&attrs, "checked"));
    assert!(!has_name(&attrs, "check"));
}

#[test]
fn quoted_value_may_hold_spaces_and_markers() {
    let attrs = parse_attributes(&chars_of(" value=\"not checked = yes/no\" name=\"a\""));
    assert_eq!(attrs, vec![attr("value", Some("not checked = yes/no")), attr("name", Some("a"))]);
    assert!(!has_name(&attrs, "checked"));
}

#[test]
fn empty_and_unclosed_values() {
    assert_eq!(parse_attributes(&chars_of(" value=\"\"")), vec![attr("value", Some(""))]);
    assert_eq!(parse_attributes(&chars_of(" value=\"abc")), vec![attr("value", Some("abc"))]);
    assert_eq!(parse_attributes(&chars_of(" value=\"")), vec![attr("value", Some(""))]);
}

#[test]
fn unquoted_value_is_no_value() {
    let attrs = parse_attributes(&chars_of(" type=checkbox name=\"a\""));
    assert_eq!(attrs, vec![attr("type", None), attr("checkbox", None), attr("name", Some("a"))]);
    assert_eq!(value_of(&attrs, "type"), None);
}

#[test]
fn separators_are_skipped() {
    assert_eq!(parse_attributes(&chars_of("")), vec![]);
    assert_eq!(parse_attributes(&chars_of(" \t\n / ")), vec![]);
    assert_eq!(
        parse_attributes(&chars_of("\n\tname=\"a\"\r\n required /")),
        vec![attr("name", Some("a")), attr("required", None)]
    );
    assert_eq!(parse_attributes(&chars_of("checked=\"checked\"")), vec![attr("checked", Some("checked"))]);
}

#[test]
fn first_attribute_of_a_name_counts() {
    let attrs = parse_attributes(&chars_of(" name=\"first\" name=\"second\""));
    assert_eq!(value_of(&attrs, "name"), Some(&String::from("first")));
    let marker_first = parse_attributes(&chars_of(" name name=\"second\""));
    assert_eq!(value_of(&marker_first, "name"), None);
    assert!(has_name(&marker_first, "name"));
}

#[test]
fn prefixed_names_are_other_names() {
    let attrs = parse_attributes(&chars_of(" data-name=\"x\" name=\"y\""));
    assert_eq!(value_of(&attrs, "name"), Some(&String::from("y")));
}

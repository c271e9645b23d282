use whitelist_sync::whitelist::{desired_whitelist, WHITELIST_FIELD};

fn found(addresses: &[&str]) -> Option<Vec<String>> {
    Some(addresses.iter().map(|a| String::from(*a)).collect())
}

#[test]
fn addresses_join_in_resolution_order() {
    assert_eq!(desired_whitelist(&vec![found(&["1.2.3.4", "9.9.9.9"])]), "1.2.3.4;9.9.9.9");
}

#[test]
fn hostnames_contribute_in_hostname_order() {
    assert_eq!(
        desired_whitelist(&vec![found(&["5.6.7.8"]), found(&["1.2.3.4", "::1"])]),
        "5.6.7.8;1.2.3.4;::1"
    );
}

#[test]
fn failed_hostname_contributes_nothing() {
    assert_eq!(
        desired_whitelist(&vec![found(&["1.1.1.1"]), None, found(&["2.2.2.2"])]),
        "1.1.1.1;2.2.2.2"
    );
    assert_eq!(desired_whitelist(&vec![None, found(&["2.2.2.2"])]), "2.2.2.2");
    assert_eq!(desired_whitelist(&vec![found(&["1.1.1.1"]), None]), "1.1.1.1");
    assert_eq!(
        desired_whitelist(&vec![found(&["1.1.1.1"]), None, found(&["2.2.2.2"])]),
        desired_whitelist(&vec![found(&["1.1.1.1"]), found(&["2.2.2.2"])])
    );
}

#[test]
fn nothing_resolved_gives_empty_whitelist() {
    assert_eq!(desired_whitelist(&vec![]), "");
    assert_eq!(desired_whitelist(&vec![None, None]), "");
    assert_eq!(desired_whitelist(&vec![found(&[])]), "");
}

#[test]
fn shared_addresses_are_not_merged() {
    assert_eq!(
        desired_whitelist(&vec![found(&["1.2.3.4"]), found(&["1.2.3.4"])]),
        "1.2.3.4;1.2.3.4"
    );
}

#[test]
fn whitelist_field_name() {
    assert_eq!(WHITELIST_FIELD, "deviceapi_host_whitelist");
}

use whitelist_sync::cookies::{absorb_set_cookie, CookieJar};
use whitelist_sync::form::FormFieldMap;
use whitelist_sync::reconcile::{
    begin, login, plan, step, update, Action, ConfigError, CycleError, Event, Order, Phase, Plan,
    Reconciler, Settings, Turn, DEFAULT_INTERVAL_SECS, TOKEN_COOKIE,
};
use whitelist_sync::session::{Call, HeaderSet, HttpError};

const PAGE: &str = "<form><input type=\"hidden\" name=\"_csrf\" value=\"tok\">\
    <input type=\"checkbox\" name=\"off\" value=\"1\">\
    <input type=\"text\" name=\"title\" value=\"a &amp; b\">\
    <textarea name=\"deviceapi_host_whitelist\">1.2.3.4</textarea></form>";

fn settings() -> Settings {
    Settings::new("http://rdm:9000/", "admin", "p&ss=w/rd", "h1.example;h2.example", None).unwrap()
}

fn fields(pairs: &[(&str, &str)]) -> FormFieldMap {
    let mut map = FormFieldMap::new();
    for (name, value) in pairs {
        map.upsert(String::from(*name), String::from(*value));
    }
    map
}

fn get(url: &str) -> Action {
    Action::Send(Order {
        call: Call { method: String::from("GET"), url: String::from(url), body: None, hops: 0 },
        headers: None,
    })
}

fn post(url: &str, body: &str, headers: &[(&str, &str)]) -> Action {
    Action::Send(Order {
        call: Call {
            method: String::from("POST"),
            url: String::from(url),
            body: Some(String::from(body)),
            hops: 0,
        },
        headers: Some(fields(headers)),
    })
}

fn at(phase: Phase, failures: u32) -> Reconciler {
    Reconciler { phase, failures }
}

fn found(addresses: &[&str]) -> Option<Vec<String>> {
    Some(addresses.iter().map(|a| String::from(*a)).collect())
}

fn ok(body: &str) -> Event {
    Event::Reply(Ok(String::from(body)))
}

#[test]
fn settings_take_defaults() {
    let s = settings();
    assert_eq!(s.base_url, "http://rdm:9000/");
    assert_eq!(s.username, "admin");
    assert_eq!(s.password, "p&ss=w/rd");
    assert_eq!(s.hostnames, vec!["h1.example", "h2.example"]);
    assert_eq!(s.interval_secs, 60);
    assert_eq!(DEFAULT_INTERVAL_SECS, 60);
    assert_eq!(s.tolerated_failures, 0);
    assert_eq!(s.login_url(), "http://rdm:9000/login");
    assert_eq!(s.settings_url(), "http://rdm:9000/dashboard/settings");
    assert_eq!(TOKEN_COOKIE, "CSRF-TOKEN");
}

#[test]
fn settings_take_interval_and_tolerance() {
    let s = Settings::new("http://h/", "u", "p", "one", Some(5)).unwrap().tolerating(3);
    assert_eq!(s.interval_secs, 5);
    assert_eq!(s.tolerated_failures, 3);
    assert_eq!(s.hostnames, vec!["one"]);
    assert_eq!(s.base_url, "http://h/");
}

#[test]
fn base_url_must_end_with_slash() {
    assert_eq!(Settings::new("http://h", "u", "p", "one", None), Err(ConfigError::BaseUrl));
    assert_eq!(Settings::new("", "u", "p", "one", None), Err(ConfigError::BaseUrl));
    assert!(Settings::new("/", "u", "p", "one", None).is_ok());
}

#[test]
fn loop_begins_with_the_login_page() {
    assert_eq!(
        begin(&settings()),
        Turn { state: at(Phase::LoginPage, 0), action: get("http://rdm:9000/login") }
    );
}

#[test]
fn login_posts_encoded_credentials_and_token() {
    let mut jar = CookieJar::new();
    absorb_set_cookie(&mut jar, "CSRF-TOKEN=t/k;n; Path=/");
    absorb_set_cookie(&mut jar, "CSRF-TOKEN=t/k+n=; Path=/");
    let turn = step(&settings(), at(Phase::LoginPage, 0), ok("<html>login</html>"), &jar);
    assert_eq!(
        turn,
        Turn {
            state: at(Phase::LoggingIn, 0),
            action: post(
                "http://rdm:9000/login",
                "username-email=admin&password=p%26ss%3Dw%2Frd&_csrf=t%2Fk%2Bn%3D",
                &[("Referer", "http://rdm:9000/login")],
            ),
        }
    );
    assert_eq!(
        Action::Send(login(&settings(), "a b")),
        post(
            "http://rdm:9000/login",
            "username-email=admin&password=p%26ss%3Dw%2Frd&_csrf=a%20b",
            &[("Referer", "http://rdm:9000/login")],
        )
    );
}

#[test]
fn login_page_without_token_stops() {
    let mut jar = CookieJar::new();
    absorb_set_cookie(&mut jar, "session=1");
    let turn = step(&settings().tolerating(5), at(Phase::LoginPage, 0), ok(""), &jar);
    assert_eq!(turn, Turn { state: at(Phase::Stopped, 0), action: Action::Stop(CycleError::NoToken) });
}

#[test]
fn failed_login_stops_whatever_is_tolerated() {
    let s = settings().tolerating(9);
    let jar = CookieJar::new();
    let turn = step(&s, at(Phase::LoginPage, 0), Event::Reply(Err(HttpError::Transport)), &jar);
    assert_eq!(
        turn,
        Turn {
            state: at(Phase::Stopped, 0),
            action: Action::Stop(CycleError::Http(HttpError::Transport)),
        }
    );
    let turn = step(
        &s,
        at(Phase::LoggingIn, 0),
        Event::Reply(Err(HttpError::LocationlessRedirect)),
        &jar,
    );
    assert_eq!(
        turn,
        Turn {
            state: at(Phase::Stopped, 0),
            action: Action::Stop(CycleError::Http(HttpError::LocationlessRedirect)),
        }
    );
}

#[test]
fn after_login_the_settings_page_is_fetched() {
    let turn = step(&settings(), at(Phase::LoggingIn, 0), ok("welcome"), &CookieJar::new());
    assert_eq!(
        turn,
        Turn { state: at(Phase::Fetching, 0), action: get("http://rdm:9000/dashboard/settings") }
    );
}

#[test]
fn fetched_page_is_scraped_and_hostnames_are_resolved() {
    let turn = step(&settings(), at(Phase::Fetching, 0), ok(PAGE), &CookieJar::new());
    assert_eq!(
        turn,
        Turn {
            state: at(
                Phase::Resolving(fields(&[
                    ("_csrf", "tok"),
                    ("title", "a & b"),
                    ("deviceapi_host_whitelist", "1.2.3.4"),
                ])),
                0
            ),
            action: Action::Resolve(vec![String::from("h1.example"), String::from("h2.example")]),
        }
    );
}

#[test]
fn equal_whitelist_issues_no_post() {
    let current = fields(&[("a", "1"), ("deviceapi_host_whitelist", "1.2.3.4;5.6.7.8")]);
    let turn = step(
        &settings(),
        at(Phase::Resolving(current), 0),
        Event::Resolved(vec![found(&["1.2.3.4"]), found(&["5.6.7.8"])]),
        &CookieJar::new(),
    );
    assert_eq!(
        turn,
        Turn { state: at(Phase::Sleeping, 0), action: Action::Sleep { seconds: 60, failed: None } }
    );
    assert_eq!(
        plan(
            fields(&[("deviceapi_host_whitelist", "1.2.3.4;5.6.7.8")]),
            String::from("1.2.3.4;5.6.7.8")
        ),
        Plan::InSync
    );
}

#[test]
fn changed_whitelist_posts_the_whole_form() {
    let current = fields(&[
        ("_csrf", "tok"),
        ("deviceapi_host_whitelist", "1.2.3.4"),
        ("title", "a & b"),
    ]);
    let turn = step(
        &settings(),
        at(Phase::Resolving(current), 0),
        Event::Resolved(vec![found(&["1.2.3.4", "9.9.9.9"]), None]),
        &CookieJar::new(),
    );
    assert_eq!(
        turn,
        Turn {
            state: at(Phase::Submitting, 0),
            action: post(
                "http://rdm:9000/dashboard/settings",
                "_csrf=tok&deviceapi_host_whitelist=1%2E2%2E3%2E4%3B9%2E9%2E9%2E9&title=a%20%26%20b",
                &[
                    ("Referer", "http://rdm:9000/dashboard/settings"),
                    ("Content-Type", "application/x-www-form-urlencoded"),
                ],
            ),
        }
    );
}

#[test]
fn plan_overwrites_only_the_whitelist() {
    let current = fields(&[("a", "1"), ("deviceapi_host_whitelist", "1.2.3.4"), ("b", "2")]);
    assert_eq!(
        plan(current, String::from("1.2.3.4;9.9.9.9")),
        Plan::Update(fields(&[
            ("a", "1"),
            ("deviceapi_host_whitelist", "1.2.3.4;9.9.9.9"),
            ("b", "2"),
        ]))
    );
}

#[test]
fn whitelist_is_compared_in_order() {
    let current = fields(&[("deviceapi_host_whitelist", "5.6.7.8;1.2.3.4")]);
    assert_eq!(
        plan(current, String::from("1.2.3.4;5.6.7.8")),
        Plan::Update(fields(&[("deviceapi_host_whitelist", "1.2.3.4;5.6.7.8")]))
    );
}

#[test]
fn form_without_whitelist_field_is_a_failed_poll() {
    assert_eq!(plan(fields(&[("a", "1")]), String::from("1.2.3.4")), Plan::NoField);
    let turn = step(
        &settings(),
        at(Phase::Resolving(fields(&[("a", "1")])), 0),
        Event::Resolved(vec![found(&["1.2.3.4"])]),
        &CookieJar::new(),
    );
    assert_eq!(turn, Turn { state: at(Phase::Stopped, 0), action: Action::Stop(CycleError::NoField) });
}

#[test]
fn update_order_carries_referer_and_content_type() {
    let order = update(&settings(), &fields(&[("k", "v w")]));
    assert_eq!(order.call.method, "POST");
    assert_eq!(order.call.url, "http://rdm:9000/dashboard/settings");
    assert_eq!(order.call.body, Some(String::from("k=v%20w")));
    let mut expected = HeaderSet::new();
    expected.upsert(String::from("Referer"), String::from("http://rdm:9000/dashboard/settings"));
    expected.upsert(
        String::from("Content-Type"),
        String::from("application/x-www-form-urlencoded"),
    );
    assert_eq!(order.headers, Some(expected));
}

#[test]
fn sent_form_is_followed_by_sleep() {
    let turn = step(&settings(), at(Phase::Submitting, 2), ok("saved"), &CookieJar::new());
    assert_eq!(
        turn,
        Turn { state: at(Phase::Sleeping, 0), action: Action::Sleep { seconds: 60, failed: None } }
    );
}

#[test]
fn waking_fetches_the_settings_page_again() {
    let turn = step(&settings(), at(Phase::Sleeping, 1), Event::Woke, &CookieJar::new());
    assert_eq!(
        turn,
        Turn { state: at(Phase::Fetching, 1), action: get("http://rdm:9000/dashboard/settings") }
    );
}

#[test]
fn first_failed_poll_stops_by_default() {
    let error = HttpError::Status { status: 500, headers: vec![], body: b"oops".to_vec() };
    let turn = step(&settings(), at(Phase::Fetching, 0), Event::Reply(Err(error)), &CookieJar::new());
    assert_eq!(
        turn,
        Turn {
            state: at(Phase::Stopped, 0),
            action: Action::Stop(CycleError::Http(HttpError::Status {
                status: 500,
                headers: vec![],
                body: b"oops".to_vec(),
            })),
        }
    );
}

#[test]
fn tolerated_failures_are_counted_then_stop() {
    let s = Settings::new("http://h/", "u", "p", "one", Some(7)).unwrap().tolerating(2);
    let jar = CookieJar::new();
    let turn = step(&s, at(Phase::Fetching, 0), Event::Reply(Err(HttpError::Transport)), &jar);
    assert_eq!(
        turn,
        Turn {
            state: at(Phase::Sleeping, 1),
            action: Action::Sleep {
                seconds: 7,
                failed: Some(CycleError::Http(HttpError::Transport)),
            },
        }
    );
    let turn = step(&s, at(Phase::Submitting, 1), Event::Reply(Err(HttpError::Decode)), &jar);
    assert_eq!(
        turn,
        Turn {
            state: at(Phase::Sleeping, 2),
            action: Action::Sleep { seconds: 7, failed: Some(CycleError::Http(HttpError::Decode)) },
        }
    );
    let turn = step(
        &s,
        at(Phase::Fetching, 2),
        Event::Reply(Err(HttpError::TooManyRedirects)),
        &jar,
    );
    assert_eq!(
        turn,
        Turn {
            state: at(Phase::Stopped, 2),
            action: Action::Stop(CycleError::Http(HttpError::TooManyRedirects)),
        }
    );
}

#[test]
fn page_with_bad_entity_is_a_failed_poll() {
    let page = "<textarea name=\"deviceapi_host_whitelist\">&bogus;</textarea>";
    let turn = step(&settings(), at(Phase::Fetching, 0), ok(page), &CookieJar::new());
    assert_eq!(
        turn,
        Turn {
            state: at(Phase::Stopped, 0),
            action: Action::Stop(CycleError::Entity(String::from("deviceapi_host_whitelist"))),
        }
    );
    let turn = step(&settings().tolerating(1), at(Phase::Fetching, 0), ok(page), &CookieJar::new());
    assert_eq!(
        turn,
        Turn {
            state: at(Phase::Sleeping, 1),
            action: Action::Sleep {
                seconds: 60,
                failed: Some(CycleError::Entity(String::from("deviceapi_host_whitelist"))),
            },
        }
    );
}

#[test]
fn unresolved_hostname_does_not_fail_the_poll() {
    let current = fields(&[("deviceapi_host_whitelist", "2.2.2.2")]);
    let turn = step(
        &settings(),
        at(Phase::Resolving(current), 0),
        Event::Resolved(vec![None, found(&["2.2.2.2"])]),
        &CookieJar::new(),
    );
    assert_eq!(
        turn,
        Turn { state: at(Phase::Sleeping, 0), action: Action::Sleep { seconds: 60, failed: None } }
    );
}

#[test]
fn event_out_of_turn_stops() {
    let jar = CookieJar::new();
    let stopped =
        |failures| Turn { state: at(Phase::Stopped, failures), action: Action::Stop(CycleError::OutOfTurn) };
    assert_eq!(step(&settings(), at(Phase::Sleeping, 0), ok("x"), &jar), stopped(0));
    assert_eq!(step(&settings(), at(Phase::Fetching, 1), Event::Woke, &jar), stopped(1));
    assert_eq!(step(&settings(), at(Phase::LoginPage, 0), Event::Resolved(vec![]), &jar), stopped(0));
    assert_eq!(step(&settings(), at(Phase::LoggingIn, 0), Event::Woke, &jar), stopped(0));
    assert_eq!(step(&settings(), at(Phase::Submitting, 0), Event::Woke, &jar), stopped(0));
    assert_eq!(
        step(&settings(), at(Phase::Resolving(FormFieldMap::new()), 0), ok("x"), &jar),
        stopped(0)
    );
    assert_eq!(step(&settings(), at(Phase::Stopped, 4), Event::Woke, &jar), stopped(4));
}

#[test]
fn whole_cycle_from_login_to_sleep() {
    let s = settings();
    let mut jar = CookieJar::new();
    let first = begin(&s);
    absorb_set_cookie(&mut jar, "CSRF-TOKEN=abc; Path=/");
    let second = step(&s, first.state, ok("login page"), &jar);
    assert_eq!(second.state.phase, Phase::LoggingIn);
    let third = step(&s, second.state, ok("logged in"), &jar);
    assert_eq!(third.state.phase, Phase::Fetching);
    let fourth = step(&s, third.state, ok(PAGE), &jar);
    assert!(matches!(fourth.action, Action::Resolve(_)));
    let fifth = step(
        &s,
        fourth.state,
        Event::Resolved(vec![found(&["1.2.3.4"]), found(&["9.9.9.9"])]),
        &jar,
    );
    assert_eq!(
        fifth.action,
        post(
            "http://rdm:9000/dashboard/settings",
            "_csrf=tok&title=a%20%26%20b&deviceapi_host_whitelist=1%2E2%2E3%2E4%3B9%2E9%2E9%2E9",
            &[
                ("Referer", "http://rdm:9000/dashboard/settings"),
                ("Content-Type", "application/x-www-form-urlencoded"),
            ],
        )
    );
    let sixth = step(&s, fifth.state, ok("saved"), &jar);
    assert_eq!(sixth.action, Action::Sleep { seconds: 60, failed: None });
    let seventh = step(&s, sixth.state, Event::Woke, &jar);
    assert_eq!(seventh.action, get("http://rdm:9000/dashboard/settings"));
}

//! The reconciliation loop as a state machine: log in once, then fetch the
//! settings page, read its form, resolve the hostnames, and send the form
//! again only where the whitelist differs; sleep, and repeat.
//!
//! The machine decides; the caller acts. Each `Action` is carried out by the
//! caller, and what came of it goes back in as an `Event`.

use vstd::prelude::*;
use vstd::string::StringExecFns;
use crate::cookies::CookieJar;
use crate::form::{scrape, scraped, BadEntity, FormFieldMap};
use crate::percent::{form_body_of, form_encode, percent_encode, percent_encoded};
use crate::session::{Call, CallView, HeaderSet, HttpError, HttpErrorView};
use crate::text::{chars_of, copy_texts, same_text, split, split_text};
use crate::textmap::{
    lemma_position_from, lemma_position_none, lemma_upsert, lookup, upsert, Pairs,
};
use crate::whitelist::{desired_whitelist, whitelist_of, Resolutions, WHITELIST_FIELD};

verus! {

/// The seconds between two polls where none are configured.
pub const DEFAULT_INTERVAL_SECS: u64 = 60;

/// The name of the cookie in which the dashboard hands out its anti-forgery
/// token.
pub const TOKEN_COOKIE: &'static str = "CSRF-TOKEN";

/// What the loop is configured with.
#[derive(Debug, PartialEq, Eq)]
pub struct Settings {
    /// The dashboard's base URL; it ends with `/`.
    pub base_url: String,
    /// The account to log in with.
    pub username: String,
    /// Its password.
    pub password: String,
    /// The dynamic-DNS hostnames, in order.
    pub hostnames: Vec<String>,
    /// The seconds to sleep between two polls.
    pub interval_secs: u64,
    /// How many failed polls in a row are let pass before the loop stops;
    /// with zero, the first failure stops it.
    pub tolerated_failures: u32,
}

/// What `Settings` stand for.
pub struct SettingsView {
    pub base_url: Seq<char>,
    pub username: Seq<char>,
    pub password: Seq<char>,
    pub hostnames: Seq<Seq<char>>,
    pub interval_secs: u64,
    pub tolerated_failures: u32,
}

impl View for Settings {
    type V = SettingsView;

    open spec fn view(&self) -> SettingsView {
        SettingsView {
            base_url: self.base_url@,
            username: self.username@,
            password: self.password@,
            hostnames: self.hostnames.deep_view(),
            interval_secs: self.interval_secs,
            tolerated_failures: self.tolerated_failures,
        }
    }
}

/// Why a configuration is refused.
#[derive(Debug, PartialEq, Eq)]
pub enum ConfigError {
    /// The base URL does not end with `/`.
    BaseUrl,
}

/// A request to make under the session: the call, and the headers to set on
/// each of its requests.
#[derive(Debug, PartialEq, Eq)]
pub struct Order {
    pub call: Call,
    pub headers: Option<HeaderSet>,
}

/// What an `Order` stands for.
pub struct OrderView {
    pub call: CallView,
    pub headers: Option<Pairs>,
}

impl View for Order {
    type V = OrderView;

    open spec fn view(&self) -> OrderView {
        OrderView {
            call: self.call@,
            headers: match self.headers {
                Some(h) => Some(h@),
                None => None,
            },
        }
    }
}

/// Why a poll, or the login, failed.
#[derive(Debug, PartialEq, Eq)]
pub enum CycleError {
    /// A call failed.
    Http(HttpError),
    /// The value of this field of the settings page could not be decoded.
    Entity(String),
    /// The login page set no anti-forgery cookie.
    NoToken,
    /// The settings page holds no whitelist field.
    NoField,
    /// An event came that the state does not wait for.
    OutOfTurn,
}

/// What a `CycleError` stands for.
pub enum CycleErrorView {
    Http(HttpErrorView),
    Entity(Seq<char>),
    NoToken,
    NoField,
    OutOfTurn,
}

impl View for CycleError {
    type V = CycleErrorView;

    open spec fn view(&self) -> CycleErrorView {
        match self {
            CycleError::Http(e) => CycleErrorView::Http(e@),
            CycleError::Entity(field) => CycleErrorView::Entity(field@),
            CycleError::NoToken => CycleErrorView::NoToken,
            CycleError::NoField => CycleErrorView::NoField,
            CycleError::OutOfTurn => CycleErrorView::OutOfTurn,
        }
    }
}

/// What the loop waits for.
#[derive(Debug, PartialEq, Eq)]
pub enum Phase {
    /// The reply to the request for the login page.
    LoginPage,
    /// The reply to the login.
    LoggingIn,
    /// The settings page.
    Fetching,
    /// The addresses of the hostnames; the fields of the page are kept.
    Resolving(FormFieldMap),
    /// The reply to the form that was sent.
    Submitting,
    /// The end of the sleep.
    Sleeping,
    /// Nothing: the loop has stopped.
    Stopped,
}

/// What a `Phase` stands for.
pub enum PhaseView {
    LoginPage,
    LoggingIn,
    Fetching,
    Resolving(Pairs),
    Submitting,
    Sleeping,
    Stopped,
}

impl View for Phase {
    type V = PhaseView;

    open spec fn view(&self) -> PhaseView {
        match self {
            Phase::LoginPage => PhaseView::LoginPage,
            Phase::LoggingIn => PhaseView::LoggingIn,
            Phase::Fetching => PhaseView::Fetching,
            Phase::Resolving(fields) => PhaseView::Resolving(fields@),
            Phase::Submitting => PhaseView::Submitting,
            Phase::Sleeping => PhaseView::Sleeping,
            Phase::Stopped => PhaseView::Stopped,
        }
    }
}

/// The state of the loop.
#[derive(Debug, PartialEq, Eq)]
pub struct Reconciler {
    /// What the loop waits for.
    pub phase: Phase,
    /// How many polls in a row have failed.
    pub failures: u32,
}

/// What a `Reconciler` stands for.
pub struct ReconcilerView {
    pub phase: PhaseView,
    pub failures: u32,
}

impl View for Reconciler {
    type V = ReconcilerView;

    open spec fn view(&self) -> ReconcilerView {
        ReconcilerView { phase: self.phase@, failures: self.failures }
    }
}

/// What came of the last action.
#[derive(Debug, PartialEq, Eq)]
pub enum Event {
    /// The call ended, with its body or its error.
    Reply(Result<String, HttpError>),
    /// The hostnames were resolved: for each in order its addresses, or none
    /// where it did not resolve.
    Resolved(Vec<Option<Vec<String>>>),
    /// The sleep ended.
    Woke,
}

/// What an `Event` stands for.
pub enum EventView {
    Reply(Result<Seq<char>, HttpErrorView>),
    Resolved(Resolutions),
    Woke,
}

impl View for Event {
    type V = EventView;

    open spec fn view(&self) -> EventView {
        match self {
            Event::Reply(Ok(body)) => EventView::Reply(Ok(body@)),
            Event::Reply(Err(error)) => EventView::Reply(Err(error@)),
            Event::Resolved(resolutions) => EventView::Resolved(resolutions.deep_view()),
            Event::Woke => EventView::Woke,
        }
    }
}

/// What the caller does next.
#[derive(Debug, PartialEq, Eq)]
pub enum Action {
    /// Make this call under the session, and come back with `Event::Reply`.
    Send(Order),
    /// Resolve these hostnames, each on its own, and come back with
    /// `Event::Resolved`.
    Resolve(Vec<String>),
    /// Sleep, and come back with `Event::Woke`. `failed` holds the error of
    /// the poll where the poll failed and the loop goes on all the same.
    Sleep { seconds: u64, failed: Option<CycleError> },
    /// Give up with this error.
    Stop(CycleError),
}

/// What an `Action` stands for.
pub enum ActionView {
    Send(OrderView),
    Resolve(Seq<Seq<char>>),
    Sleep { seconds: u64, failed: Option<CycleErrorView> },
    Stop(CycleErrorView),
}

impl View for Action {
    type V = ActionView;

    open spec fn view(&self) -> ActionView {
        match self {
            Action::Send(order) => ActionView::Send(order@),
            Action::Resolve(hostnames) => ActionView::Resolve(hostnames.deep_view()),
            Action::Sleep { seconds, failed } => ActionView::Sleep {
                seconds: *seconds,
                failed: match failed {
                    Some(e) => Some(e@),
                    None => None,
                },
            },
            Action::Stop(error) => ActionView::Stop(error@),
        }
    }
}

/// One turn of the loop: the state it is in now, and what to do.
#[derive(Debug, PartialEq, Eq)]
pub struct Turn {
    pub state: Reconciler,
    pub action: Action,
}

/// What a `Turn` stands for.
pub struct TurnView {
    pub state: ReconcilerView,
    pub action: ActionView,
}

impl View for Turn {
    type V = TurnView;

    open spec fn view(&self) -> TurnView {
        TurnView { state: self.state@, action: self.action@ }
    }
}

/// What to do about the whitelist field of a form.
#[derive(Debug, PartialEq, Eq)]
pub enum Plan {
    /// The field holds the desired value: nothing is sent.
    InSync,
    /// The field differs: the form is sent with these fields.
    Update(FormFieldMap),
    /// The form has no whitelist field.
    NoField,
}

/// What a `Plan` stands for.
pub enum PlanView {
    InSync,
    Update(Pairs),
    NoField,
}

impl View for Plan {
    type V = PlanView;

    open spec fn view(&self) -> PlanView {
        match self {
            Plan::InSync => PlanView::InSync,
            Plan::Update(fields) => PlanView::Update(fields@),
            Plan::NoField => PlanView::NoField,
        }
    }
}

/// Whether a URL ends with `/`.
pub open spec fn ends_with_slash(url: Seq<char>) -> bool {
    url.len() > 0 && url.last() == '/'
}

/// The URL of the login page.
pub open spec fn login_url(settings: SettingsView) -> Seq<char> {
    settings.base_url + "login"@
}

/// The URL of the settings page.
pub open spec fn settings_url(settings: SettingsView) -> Seq<char> {
    settings.base_url + "dashboard/settings"@
}

/// A `GET` of a page, with no headers of the caller's.
pub open spec fn page_order(url: Seq<char>) -> OrderView {
    OrderView { call: CallView { method: "GET"@, url, body: None, hops: 0 }, headers: None }
}

/// The body of the login form.
pub open spec fn login_body(settings: SettingsView, token: Seq<char>) -> Seq<char> {
    "username-email="@ + percent_encoded(settings.username) + "&password="@ + percent_encoded(
        settings.password,
    ) + "&_csrf="@ + percent_encoded(token)
}

/// The login: a `POST` of the login form to the login page, with the page as
/// `Referer`.
pub open spec fn login_order(settings: SettingsView, token: Seq<char>) -> OrderView {
    OrderView {
        call: CallView {
            method: "POST"@,
            url: login_url(settings),
            body: Some(login_body(settings, token)),
            hops: 0,
        },
        headers: Some(seq![("Referer"@, login_url(settings))]),
    }
}

/// The update: a `POST` of the whole form to the settings page, with the page
/// as `Referer` and the content type of a form.
pub open spec fn update_order(settings: SettingsView, fields: Pairs) -> OrderView {
    OrderView {
        call: CallView {
            method: "POST"@,
            url: settings_url(settings),
            body: Some(form_body_of(fields)),
            hops: 0,
        },
        headers: Some(
            seq![
                ("Referer"@, settings_url(settings)),
                ("Content-Type"@, "application/x-www-form-urlencoded"@),
            ],
        ),
    }
}

/// What to do about the whitelist field: nothing where it holds exactly the
/// desired value, else the form with that one field overwritten.
pub open spec fn plan_of(fields: Pairs, desired: Seq<char>) -> PlanView {
    match lookup(fields, "deviceapi_host_whitelist"@) {
        None => PlanView::NoField,
        Some(current) => if current == desired {
            PlanView::InSync
        } else {
            PlanView::Update(upsert(fields, "deviceapi_host_whitelist"@, desired))
        },
    }
}

/// Nothing is sent exactly where the whitelist field holds the desired value.
/// What is sent otherwise holds the desired value in that field, and every
/// other field with the value it had, in the place it had.
pub proof fn lemma_plan_touches_only_whitelist(fields: Pairs, desired: Seq<char>)
    ensures
        plan_of(fields, desired) is InSync <==> lookup(fields, "deviceapi_host_whitelist"@)
            == Some(desired),
        plan_of(fields, desired) matches PlanView::Update(sent) ==> {
            &&& lookup(sent, "deviceapi_host_whitelist"@) == Some(desired)
            &&& sent.len() == fields.len()
            &&& forall|i: int|
                0 <= i < sent.len() ==> (#[trigger] sent[i]).0 == fields[i].0 && (sent[i].0
                    != "deviceapi_host_whitelist"@ ==> sent[i] == fields[i])
            &&& forall|other: Seq<char>|
                other != "deviceapi_host_whitelist"@ ==> #[trigger] lookup(sent, other) == lookup(
                    fields,
                    other,
                )
        },
{
    let name = "deviceapi_host_whitelist"@;
    lemma_upsert(fields, name, desired);
    lemma_position_from(fields, name, 0);
}

/// The loop stops with an error.
pub open spec fn stop_with(failures: u32, error: CycleErrorView) -> TurnView {
    TurnView {
        state: ReconcilerView { phase: PhaseView::Stopped, failures },
        action: ActionView::Stop(error),
    }
}

/// A poll has failed: the loop stops where it has let pass as many failures
/// in a row as it tolerates, and else sleeps with one failure more.
pub open spec fn poll_failed(settings: SettingsView, failures: u32, error: CycleErrorView)
    -> TurnView {
    if failures >= settings.tolerated_failures {
        stop_with(failures, error)
    } else {
        TurnView {
            state: ReconcilerView { phase: PhaseView::Sleeping, failures: (failures + 1) as u32 },
            action: ActionView::Sleep { seconds: settings.interval_secs, failed: Some(error) },
        }
    }
}

/// A poll has gone well: the loop sleeps, and no failure is counted any more.
pub open spec fn poll_done(settings: SettingsView) -> TurnView {
    TurnView {
        state: ReconcilerView { phase: PhaseView::Sleeping, failures: 0 },
        action: ActionView::Sleep { seconds: settings.interval_secs, failed: None },
    }
}

/// The loop goes on to fetch the settings page.
pub open spec fn fetch(settings: SettingsView, failures: u32) -> TurnView {
    TurnView {
        state: ReconcilerView { phase: PhaseView::Fetching, failures },
        action: ActionView::Send(page_order(settings_url(settings))),
    }
}

/// The first turn: the login page is asked for.
pub open spec fn first_turn(settings: SettingsView) -> TurnView {
    TurnView {
        state: ReconcilerView { phase: PhaseView::LoginPage, failures: 0 },
        action: ActionView::Send(page_order(login_url(settings))),
    }
}

/// The turn that follows an event. A failure of the login stops the loop; a
/// failure of a poll is counted. An event that the state does not wait for
/// stops the loop.
pub open spec fn transition(
    settings: SettingsView,
    state: ReconcilerView,
    event: EventView,
    jar: Pairs,
) -> TurnView {
    match (state.phase, event) {
        (PhaseView::LoginPage, EventView::Reply(Ok(_))) => match lookup(jar, "CSRF-TOKEN"@) {
            Some(token) => TurnView {
                state: ReconcilerView { phase: PhaseView::LoggingIn, failures: state.failures },
                action: ActionView::Send(login_order(settings, token)),
            },
            None => stop_with(state.failures, CycleErrorView::NoToken),
        },
        (PhaseView::LoginPage, EventView::Reply(Err(error))) => stop_with(
            state.failures,
            CycleErrorView::Http(error),
        ),
        (PhaseView::LoggingIn, EventView::Reply(Ok(_))) => fetch(settings, state.failures),
        (PhaseView::LoggingIn, EventView::Reply(Err(error))) => stop_with(
            state.failures,
            CycleErrorView::Http(error),
        ),
        (PhaseView::Fetching, EventView::Reply(Ok(page))) => match scraped(page) {
            Ok(fields) => TurnView {
                state: ReconcilerView {
                    phase: PhaseView::Resolving(fields),
                    failures: state.failures,
                },
                action: ActionView::Resolve(settings.hostnames),
            },
            Err(field) => poll_failed(settings, state.failures, CycleErrorView::Entity(field)),
        },
        (PhaseView::Fetching, EventView::Reply(Err(error))) => poll_failed(
            settings,
            state.failures,
            CycleErrorView::Http(error),
        ),
        (PhaseView::Resolving(fields), EventView::Resolved(resolutions)) => match plan_of(
            fields,
            whitelist_of(resolutions),
        ) {
            PlanView::InSync => poll_done(settings),
            PlanView::Update(updated) => TurnView {
                state: ReconcilerView { phase: PhaseView::Submitting, failures: state.failures },
                action: ActionView::Send(update_order(settings, updated)),
            },
            PlanView::NoField => poll_failed(settings, state.failures, CycleErrorView::NoField),
        },
        (PhaseView::Submitting, EventView::Reply(Ok(_))) => poll_done(settings),
        (PhaseView::Submitting, EventView::Reply(Err(error))) => poll_failed(
            settings,
            state.failures,
            CycleErrorView::Http(error),
        ),
        (PhaseView::Sleeping, EventView::Woke) => fetch(settings, state.failures),
        _ => stop_with(state.failures, CycleErrorView::OutOfTurn),
    }
}

impl Settings {
    /// The settings for a dashboard, an account and a `;`-separated list of
    /// hostnames. The base URL must end with `/`. Without an interval the
    /// loop polls every sixty seconds; it stops at the first failure.
    pub fn new(
        base_url: &str,
        username: &str,
        password: &str,
        hostnames: &str,
        interval_secs: Option<u64>,
    ) -> (r: Result<Settings, ConfigError>)
        ensures
            match r {
                Ok(settings) => ends_with_slash(base_url@) && settings@ == (SettingsView {
                    base_url: base_url@,
                    username: username@,
                    password: password@,
                    hostnames: split(hostnames@, ';'),
                    interval_secs: match interval_secs {
                        Some(seconds) => seconds,
                        None => DEFAULT_INTERVAL_SECS,
                    },
                    tolerated_failures: 0,
                }),
                Err(_) => !ends_with_slash(base_url@),
            },
    {
        let url = chars_of(base_url);
        if url.len() == 0 || url[url.len() - 1] != '/' {
            return Err(ConfigError::BaseUrl);
        }
        Ok(
            Settings {
                base_url: String::from_str(base_url),
                username: String::from_str(username),
                password: String::from_str(password),
                hostnames: split_text(hostnames, ';'),
                interval_secs: match interval_secs {
                    Some(seconds) => seconds,
                    None => DEFAULT_INTERVAL_SECS,
                },
                tolerated_failures: 0,
            },
        )
    }

    /// The same settings, but that `failures` failed polls in a row are let
    /// pass before the loop stops.
    pub fn tolerating(self, failures: u32) -> (r: Settings)
        ensures
            r@ == (SettingsView { tolerated_failures: failures, ..self@ }),
    {
        Settings {
            base_url: self.base_url,
            username: self.username,
            password: self.password,
            hostnames: self.hostnames,
            interval_secs: self.interval_secs,
            tolerated_failures: failures,
        }
    }

    /// The URL of the login page.
    pub fn login_url(&self) -> (r: String)
        ensures
            r@ == login_url(self@),
    {
        self.base_url.clone().concat("login")
    }

    /// The URL of the settings page.
    pub fn settings_url(&self) -> (r: String)
        ensures
            r@ == settings_url(self@),
    {
        self.base_url.clone().concat("dashboard/settings")
    }
}

/// A `GET` of a page.
fn page(url: String) -> (r: Order)
    ensures
        r@ == page_order(url@),
{
    Order { call: Call { method: String::from_str("GET"), url, body: None, hops: 0 }, headers: None }
}

/// The login with the token that the login page handed out.
pub fn login(settings: &Settings, token: &str) -> (r: Order)
    ensures
        r@ == login_order(settings@, token@),
{
    let url = settings.login_url();
    let mut body = String::from_str("username-email=");
    body.append(percent_encode(settings.username.as_str()).as_str());
    body.append("&password=");
    body.append(percent_encode(settings.password.as_str()).as_str());
    body.append("&_csrf=");
    body.append(percent_encode(token).as_str());
    let mut headers = HeaderSet::new();
    headers.upsert(String::from_str("Referer"), url.clone());
    assert(headers@ =~= seq![("Referer"@, login_url(settings@))]);
    Order {
        call: Call { method: String::from_str("POST"), url, body: Some(body), hops: 0 },
        headers: Some(headers),
    }
}

/// The update that sends the whole form with these fields.
pub fn update(settings: &Settings, fields: &FormFieldMap) -> (r: Order)
    ensures
        r@ == update_order(settings@, fields@),
{
    let url = settings.settings_url();
    let mut headers = HeaderSet::new();
    headers.upsert(String::from_str("Referer"), url.clone());
    assert(headers@ =~= seq![("Referer"@, settings_url(settings@))]);
    headers.upsert(
        String::from_str("Content-Type"),
        String::from_str("application/x-www-form-urlencoded"),
    );
    proof {
        reveal_strlit("Referer");
        reveal_strlit("Content-Type");
        assert("Referer"@.len() != "Content-Type"@.len());
        lemma_position_none(seq![("Referer"@, settings_url(settings@))], "Content-Type"@, 0);
        assert(headers@ =~= seq![
            ("Referer"@, settings_url(settings@)),
            ("Content-Type"@, "application/x-www-form-urlencoded"@),
        ]);
    }
    Order {
        call: Call {
            method: String::from_str("POST"),
            url,
            body: Some(form_encode(fields)),
            hops: 0,
        },
        headers: Some(headers),
    }
}

/// What to do about the whitelist field of a form, given the value it should
/// hold.
pub fn plan(fields: FormFieldMap, desired: String) -> (r: Plan)
    ensures
        r@ == plan_of(fields@, desired@),
{
    let in_sync = match fields.get(WHITELIST_FIELD) {
        None => {
            return Plan::NoField;
        },
        Some(current) => same_text(current.as_str(), desired.as_str()),
    };
    if in_sync {
        Plan::InSync
    } else {
        let mut updated = fields;
        updated.upsert(String::from_str(WHITELIST_FIELD), desired);
        Plan::Update(updated)
    }
}

/// The loop stops with an error.
fn stop(failures: u32, error: CycleError) -> (r: Turn)
    ensures
        r@ == stop_with(failures, error@),
{
    Turn { state: Reconciler { phase: Phase::Stopped, failures }, action: Action::Stop(error) }
}

/// A poll has failed.
fn failed(settings: &Settings, failures: u32, error: CycleError) -> (r: Turn)
    ensures
        r@ == poll_failed(settings@, failures, error@),
{
    if failures >= settings.tolerated_failures {
        stop(failures, error)
    } else {
        Turn {
            state: Reconciler { phase: Phase::Sleeping, failures: failures + 1 },
            action: Action::Sleep { seconds: settings.interval_secs, failed: Some(error) },
        }
    }
}

/// A poll has gone well.
fn done(settings: &Settings) -> (r: Turn)
    ensures
        r@ == poll_done(settings@),
{
    Turn {
        state: Reconciler { phase: Phase::Sleeping, failures: 0 },
        action: Action::Sleep { seconds: settings.interval_secs, failed: None },
    }
}

/// The loop goes on to fetch the settings page.
fn fetch_page(settings: &Settings, failures: u32) -> (r: Turn)
    ensures
        r@ == fetch(settings@, failures),
{
    Turn {
        state: Reconciler { phase: Phase::Fetching, failures },
        action: Action::Send(page(settings.settings_url())),
    }
}

/// The first turn of the loop: it asks for the login page, which seeds the
/// jar with the anti-forgery token.
pub fn begin(settings: &Settings) -> (r: Turn)
    ensures
        r@ == first_turn(settings@),
{
    Turn {
        state: Reconciler { phase: Phase::LoginPage, failures: 0 },
        action: Action::Send(page(settings.login_url())),
    }
}

/// The turn that follows an event. `jar` is the jar of the session as the
/// last call left it.
pub fn step(settings: &Settings, state: Reconciler, event: Event, jar: &CookieJar) -> (r: Turn)
    ensures
        r@ == transition(settings@, state@, event@, jar@),
{
    let failures = state.failures;
    match state.phase {
        Phase::LoginPage => match event {
            Event::Reply(Ok(_)) => match jar.get(TOKEN_COOKIE) {
                Some(token) => Turn {
                    state: Reconciler { phase: Phase::LoggingIn, failures },
                    action: Action::Send(login(settings, token.as_str())),
                },
                None => stop(failures, CycleError::NoToken),
            },
            Event::Reply(Err(error)) => stop(failures, CycleError::Http(error)),
            _ => stop(failures, CycleError::OutOfTurn),
        },
        Phase::LoggingIn => match event {
            Event::Reply(Ok(_)) => fetch_page(settings, failures),
            Event::Reply(Err(error)) => stop(failures, CycleError::Http(error)),
            _ => stop(failures, CycleError::OutOfTurn),
        },
        Phase::Fetching => match event {
            Event::Reply(Ok(body)) => match scrape(body.as_str()) {
                Ok(fields) => Turn {
                    state: Reconciler { phase: Phase::Resolving(fields), failures },
                    action: Action::Resolve(copy_texts(&settings.hostnames)),
                },
                Err(bad) => failed(settings, failures, CycleError::Entity(bad.field)),
            },
            Event::Reply(Err(error)) => failed(settings, failures, CycleError::Http(error)),
            _ => stop(failures, CycleError::OutOfTurn),
        },
        Phase::Resolving(fields) => match event {
            Event::Resolved(resolutions) => match plan(fields, desired_whitelist(&resolutions)) {
                Plan::InSync => done(settings),
                Plan::Update(updated) => Turn {
                    state: Reconciler { phase: Phase::Submitting, failures },
                    action: Action::Send(update(settings, &updated)),
                },
                Plan::NoField => failed(settings, failures, CycleError::NoField),
            },
            _ => stop(failures, CycleError::OutOfTurn),
        },
        Phase::Submitting => match event {
            Event::Reply(Ok(_)) => done(settings),
            Event::Reply(Err(error)) => failed(settings, failures, CycleError::Http(error)),
            _ => stop(failures, CycleError::OutOfTurn),
        },
        Phase::Sleeping => match event {
            Event::Woke => fetch_page(settings, failures),
            _ => stop(failures, CycleError::OutOfTurn),
        },
        Phase::Stopped => stop(failures, CycleError::OutOfTurn),
    }
}

} // verus!

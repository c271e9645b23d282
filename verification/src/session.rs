//! One logical HTTP call under a session: the request that is sent, and what
//! each response leads to.
//!
//! The caller sends what `Call::request` builds and hands the response to
//! `advance`, which says whether the call is done, has failed, or goes on
//! with another request. Redirects are followed with `GET` and without a
//! body; `Set-Cookie` headers of every response that is not a failure are
//! taken into the jar.

use vstd::prelude::*;
use vstd::string::StringExecFns;
use vstd::utf8::{decode_utf8, valid_utf8};
use crate::cookies::{absorb_set_cookie, cookie_header, cookie_header_of, jar_after, CookieJar};
use crate::text::{
    chars_of, find_char, index_of, lemma_index_of, matches_at, occurs_at, string_of,
    text_from_utf8,
};
use crate::textmap::{upsert, Pairs, TextMap};

verus! {

/// The headers that the caller sets on a request, by name.
pub type HeaderSet = TextMap;

/// The headers of a response in order, each a name with its value; the value
/// is none where its bytes are not text.
pub type Headers = Seq<(Seq<char>, Option<Seq<char>>)>;

/// How many redirects a call follows where the caller has no limit of its own.
pub const MAX_REDIRECTS: usize = 10;

/// The three kinds of response status.
#[derive(Debug, PartialEq, Eq)]
pub enum StatusClass {
    /// 200 to 299.
    Success,
    /// 300 to 399.
    Redirect,
    /// Anything else.
    Failure,
}

/// A response as it came in.
#[derive(Debug, PartialEq, Eq)]
pub struct Response {
    /// The status code.
    pub status: u16,
    /// The headers in order; a value is none where its bytes are not text.
    pub headers: Vec<(String, Option<String>)>,
    /// The body.
    pub body: Vec<u8>,
}

/// What a `Response` stands for.
pub struct ResponseView {
    pub status: u16,
    pub headers: Headers,
    pub body: Seq<u8>,
}

impl View for Response {
    type V = ResponseView;

    open spec fn view(&self) -> ResponseView {
        ResponseView {
            status: self.status,
            headers: self.headers.deep_view(),
            body: self.body@,
        }
    }
}

/// Why a call failed.
#[derive(Debug, PartialEq, Eq)]
pub enum HttpError {
    /// The request could not be sent, or no response came back.
    Transport,
    /// The response was neither a success nor a redirect.
    Status { status: u16, headers: Vec<(String, Option<String>)>, body: Vec<u8> },
    /// A redirect named no `Location`.
    LocationlessRedirect,
    /// The body of a success, or the `Location` of a redirect, was not text.
    Decode,
    /// More redirects came than the call may follow.
    TooManyRedirects,
}

/// What an `HttpError` stands for.
pub enum HttpErrorView {
    Transport,
    Status { status: u16, headers: Headers, body: Seq<u8> },
    LocationlessRedirect,
    Decode,
    TooManyRedirects,
}

impl View for HttpError {
    type V = HttpErrorView;

    open spec fn view(&self) -> HttpErrorView {
        match self {
            HttpError::Transport => HttpErrorView::Transport,
            HttpError::Status { status, headers, body } => HttpErrorView::Status {
                status: *status,
                headers: headers.deep_view(),
                body: body@,
            },
            HttpError::LocationlessRedirect => HttpErrorView::LocationlessRedirect,
            HttpError::Decode => HttpErrorView::Decode,
            HttpError::TooManyRedirects => HttpErrorView::TooManyRedirects,
        }
    }
}

/// A call under way: what is sent next, and how many redirects it has
/// followed.
#[derive(Debug, PartialEq, Eq)]
pub struct Call {
    /// The method of the next request.
    pub method: String,
    /// The URL of the next request.
    pub url: String,
    /// The body of the next request.
    pub body: Option<String>,
    /// The redirects followed so far.
    pub hops: usize,
}

/// What a `Call` stands for.
pub struct CallView {
    pub method: Seq<char>,
    pub url: Seq<char>,
    pub body: Option<Seq<char>>,
    pub hops: nat,
}

impl View for Call {
    type V = CallView;

    open spec fn view(&self) -> CallView {
        CallView {
            method: self.method@,
            url: self.url@,
            body: match self.body {
                Some(b) => Some(b@),
                None => None,
            },
            hops: self.hops as nat,
        }
    }
}

/// A request ready to be sent.
#[derive(Debug, PartialEq, Eq)]
pub struct Request {
    /// The method.
    pub method: String,
    /// The URL.
    pub url: String,
    /// The headers: the caller's, and `Cookie` where there is a jar.
    pub headers: HeaderSet,
    /// The body.
    pub body: Option<String>,
}

/// What a `Request` stands for.
pub struct RequestView {
    pub method: Seq<char>,
    pub url: Seq<char>,
    pub headers: Pairs,
    pub body: Option<Seq<char>>,
}

impl View for Request {
    type V = RequestView;

    open spec fn view(&self) -> RequestView {
        RequestView {
            method: self.method@,
            url: self.url@,
            headers: self.headers@,
            body: match self.body {
                Some(b) => Some(b@),
                None => None,
            },
        }
    }
}

/// What a response leads to.
#[derive(Debug, PartialEq, Eq)]
pub enum Step {
    /// The call goes on: this is sent next.
    Next(Call),
    /// The call is done, with this body.
    Done(String),
    /// The call has failed.
    Failed(HttpError),
}

/// What a `Step` stands for.
pub enum StepView {
    Next(CallView),
    Done(Seq<char>),
    Failed(HttpErrorView),
}

impl View for Step {
    type V = StepView;

    open spec fn view(&self) -> StepView {
        match self {
            Step::Next(call) => StepView::Next(call@),
            Step::Done(body) => StepView::Done(body@),
            Step::Failed(error) => StepView::Failed(error@),
        }
    }
}

/// The kind of a status code.
pub open spec fn class_of(status: u16) -> StatusClass {
    if 200 <= status < 300 {
        StatusClass::Success
    } else if 300 <= status < 400 {
        StatusClass::Redirect
    } else {
        StatusClass::Failure
    }
}

/// A letter in lower case; any other character as it is.
pub open spec fn lower(c: char) -> char {
    if 'A' <= c <= 'Z' {
        ((c as u8) + 32) as char
    } else {
        c
    }
}

/// Whether two header names are the same but for the case of their letters.
pub open spec fn same_name(a: Seq<char>, b: Seq<char>) -> bool {
    a.len() == b.len() && forall|i: int| 0 <= i < a.len() ==> lower(a[i]) == lower(b[i])
}

/// The value of the first header named `name`: none where there is no such
/// header, and none inside where its value is not text.
pub open spec fn first_header(headers: Headers, name: Seq<char>) -> Option<Option<Seq<char>>>
    decreases headers.len(),
{
    if headers.len() == 0 {
        None
    } else if same_name(headers[0].0, name) {
        Some(headers[0].1)
    } else {
        first_header(headers.drop_first(), name)
    }
}

/// The jar after the headers of a response: every `Set-Cookie` header whose
/// value is text is taken in, in order.
pub open spec fn jar_after_headers(jar: Pairs, headers: Headers) -> Pairs
    decreases headers.len(),
{
    if headers.len() == 0 {
        jar
    } else {
        let before = jar_after_headers(jar, headers.drop_last());
        match headers.last().1 {
            Some(value) => if same_name(headers.last().0, "set-cookie"@) {
                jar_after(before, value)
            } else {
                before
            },
            None => before,
        }
    }
}

/// The jar after a response: a failure leaves it as it was.
pub open spec fn jar_after_response(jar: Pairs, response: ResponseView) -> Pairs {
    if class_of(response.status) is Failure {
        jar
    } else {
        jar_after_headers(jar, response.headers)
    }
}

/// Where the scheme, host and port of a URL end: at its third `/`, or at its
/// end where it has fewer.
pub open spec fn origin_end(url: Seq<char>) -> int {
    let first = index_of(url, '/', 0);
    let second = index_of(url, '/', first + 1);
    index_of(url, '/', second + 1)
}

/// The URL that a `Location` names, seen from `url`: itself where it starts
/// with `http`, else the scheme, host and port of `url` with it behind.
pub open spec fn redirect_target(url: Seq<char>, location: Seq<char>) -> Seq<char> {
    if occurs_at(location, "http"@, 0) {
        location
    } else {
        url.subrange(0, origin_end(url)) + location
    }
}

/// The headers of a request: the caller's, and the jar as `Cookie` where
/// there is a jar.
pub open spec fn request_headers(headers: Option<Pairs>, jar: Option<Pairs>) -> Pairs {
    let own = match headers {
        Some(h) => h,
        None => Seq::empty(),
    };
    match jar {
        Some(j) => upsert(own, "Cookie"@, cookie_header_of(j)),
        None => own,
    }
}

/// The request that a call sends next.
pub open spec fn request_of(call: CallView, headers: Option<Pairs>, jar: Option<Pairs>)
    -> RequestView {
    RequestView {
        method: call.method,
        url: call.url,
        headers: request_headers(headers, jar),
        body: call.body,
    }
}

/// What a response leads to.
pub open spec fn step_of(call: CallView, response: ResponseView, max_redirects: nat) -> StepView {
    match class_of(response.status) {
        StatusClass::Failure => StepView::Failed(
            HttpErrorView::Status {
                status: response.status,
                headers: response.headers,
                body: response.body,
            },
        ),
        StatusClass::Success => if valid_utf8(response.body) {
            StepView::Done(decode_utf8(response.body))
        } else {
            StepView::Failed(HttpErrorView::Decode)
        },
        StatusClass::Redirect => match first_header(response.headers, "location"@) {
            None => StepView::Failed(HttpErrorView::LocationlessRedirect),
            Some(None) => StepView::Failed(HttpErrorView::Decode),
            Some(Some(location)) => if call.hops >= max_redirects {
                StepView::Failed(HttpErrorView::TooManyRedirects)
            } else {
                StepView::Next(
                    CallView {
                        method: "GET"@,
                        url: redirect_target(call.url, location),
                        body: None,
                        hops: call.hops + 1,
                    },
                )
            },
        },
    }
}

/// How a call ends on the responses that come in, in order: with the body,
/// or with an error; none while the responses leave it under way.
pub open spec fn outcome(call: CallView, responses: Seq<ResponseView>, max_redirects: nat)
    -> Option<Result<Seq<char>, HttpErrorView>>
    decreases responses.len(),
{
    if responses.len() == 0 {
        None
    } else {
        match step_of(call, responses[0], max_redirects) {
            StepView::Next(next) => outcome(next, responses.drop_first(), max_redirects),
            StepView::Done(body) => Some(Ok(body)),
            StepView::Failed(error) => Some(Err(error)),
        }
    }
}

/// The jar after the responses that come in, in order, up to the one that
/// ends the call.
pub open spec fn jar_after_chain(
    jar: Pairs,
    call: CallView,
    responses: Seq<ResponseView>,
    max_redirects: nat,
) -> Pairs
    decreases responses.len(),
{
    if responses.len() == 0 {
        jar
    } else {
        let taken = jar_after_response(jar, responses[0]);
        match step_of(call, responses[0], max_redirects) {
            StepView::Next(next) => jar_after_chain(
                taken,
                next,
                responses.drop_first(),
                max_redirects,
            ),
            _ => taken,
        }
    }
}

/// What a list of responses stands for, one by one.
pub open spec fn response_views(responses: Seq<Response>) -> Seq<ResponseView> {
    responses.map_values(|r: Response| r@)
}

/// A redirect that names a `Location` whose value is text.
pub open spec fn is_redirect_to(response: ResponseView) -> bool {
    class_of(response.status) is Redirect && first_header(response.headers, "location"@)
        matches Some(Some(_))
}

/// A redirect without a `Location` fails the call, whatever else it holds.
pub proof fn lemma_locationless_redirect_fails(
    call: CallView,
    response: ResponseView,
    max_redirects: nat,
)
    requires
        class_of(response.status) is Redirect,
        first_header(response.headers, "location"@) is None,
    ensures
        step_of(call, response, max_redirects) == StepView::Failed(
            HttpErrorView::LocationlessRedirect,
        ),
{
}

/// A chain of redirects within the limit, each with its `Location`, ends as
/// the response behind it says: a success gives its body, a failure its
/// status, and a redirect without `Location` fails. With no redirect at all
/// this is the plain call.
pub proof fn lemma_redirect_chain(
    call: CallView,
    redirects: Seq<ResponseView>,
    last: ResponseView,
    max_redirects: nat,
)
    requires
        call.hops + redirects.len() <= max_redirects,
        forall|i: int| 0 <= i < redirects.len() ==> is_redirect_to(#[trigger] redirects[i]),
    ensures
        class_of(last.status) is Success && valid_utf8(last.body) ==> outcome(
            call,
            redirects.push(last),
            max_redirects,
        ) == Some(Ok::<Seq<char>, HttpErrorView>(decode_utf8(last.body))),
        class_of(last.status) is Success && !valid_utf8(last.body) ==> outcome(
            call,
            redirects.push(last),
            max_redirects,
        ) == Some(Err::<Seq<char>, HttpErrorView>(HttpErrorView::Decode)),
        class_of(last.status) is Failure ==> outcome(call, redirects.push(last), max_redirects)
            == Some(
            Err::<Seq<char>, HttpErrorView>(
                HttpErrorView::Status {
                    status: last.status,
                    headers: last.headers,
                    body: last.body,
                },
            ),
        ),
        class_of(last.status) is Redirect && first_header(last.headers, "location"@) is None
            ==> outcome(call, redirects.push(last), max_redirects) == Some(
            Err::<Seq<char>, HttpErrorView>(HttpErrorView::LocationlessRedirect),
        ),
    decreases redirects.len(),
{
    let all = redirects.push(last);
    if redirects.len() == 0 {
        assert(all[0] == last);
        assert(all.drop_first() =~= Seq::<ResponseView>::empty());
    } else {
        assert(all[0] == redirects[0]);
        assert(is_redirect_to(redirects[0]));
        assert(all.drop_first() =~= redirects.drop_first().push(last));
        let next = step_of(call, redirects[0], max_redirects)->Next_0;
        assert forall|i: int| 0 <= i < redirects.drop_first().len() implies is_redirect_to(
            #[trigger] redirects.drop_first()[i],
        ) by {
            assert(redirects.drop_first()[i] == redirects[i + 1]);
        }
        lemma_redirect_chain(next, redirects.drop_first(), last, max_redirects);
    }
}

/// The kind of a status code.
pub fn classify(status: u16) -> (r: StatusClass)
    ensures
        r == class_of(status),
{
    if 200 <= status && status < 300 {
        StatusClass::Success
    } else if 300 <= status && status < 400 {
        StatusClass::Redirect
    } else {
        StatusClass::Failure
    }
}

/// A letter in lower case; any other character as it is.
fn to_lower(c: char) -> (r: char)
    ensures
        r == lower(c),
{
    if 'A' <= c && c <= 'Z' {
        ((c as u8) + 32) as char
    } else {
        c
    }
}

/// Whether two header names are the same but for the case of their letters.
pub fn names_match(a: &str, b: &str) -> (r: bool)
    ensures
        r == same_name(a@, b@),
{
    let x = chars_of(a);
    let y = chars_of(b);
    if x.len() != y.len() {
        return false;
    }
    let mut i: usize = 0;
    while i < x.len()
        invariant
            x@ == a@,
            y@ == b@,
            x.len() == y.len(),
            i <= x.len(),
            forall|k: int| 0 <= k < i ==> lower(x@[k]) == lower(y@[k]),
        decreases x.len() - i,
    {
        if to_lower(x[i]) != to_lower(y[i]) {
            return false;
        }
        i = i + 1;
    }
    true
}

/// The value of the first header named `name`.
pub fn header_value<'a>(headers: &'a Vec<(String, Option<String>)>, name: &str) -> (r: Option<
    Option<&'a String>,
>)
    ensures
        match r {
            Some(Some(v)) => first_header(headers.deep_view(), name@) == Some(Some(v@)),
            Some(None) => first_header(headers.deep_view(), name@) == Some(None::<Seq<char>>),
            None => first_header(headers.deep_view(), name@) is None,
        },
{
    let ghost all = headers.deep_view();
    let mut i: usize = 0;
    assert(all.skip(0) =~= all);
    while i < headers.len()
        invariant
            i <= headers.len(),
            all == headers.deep_view(),
            first_header(all.skip(i as int), name@) == first_header(all, name@),
        decreases headers.len() - i,
    {
        assert(all.skip(i as int).drop_first() =~= all.skip(i + 1));
        assert(all.skip(i as int)[0] == all[i as int]);
        if names_match(headers[i].0.as_str(), name) {
            return Some(
                match &headers[i].1 {
                    Some(v) => Some(v),
                    None => None,
                },
            );
        }
        i = i + 1;
    }
    None
}

/// Takes the `Set-Cookie` headers of a response into the jar.
pub fn absorb_headers(jar: &mut CookieJar, headers: &Vec<(String, Option<String>)>)
    ensures
        final(jar)@ == jar_after_headers(old(jar)@, headers.deep_view()),
{
    let ghost all = headers.deep_view();
    let mut i: usize = 0;
    while i < headers.len()
        invariant
            i <= headers.len(),
            all == headers.deep_view(),
            jar@ == jar_after_headers(old(jar)@, all.take(i as int)),
        decreases headers.len() - i,
    {
        proof {
            assert(all.take(i + 1).drop_last() =~= all.take(i as int));
            assert(all.take(i + 1).last() == all[i as int]);
        }
        match &headers[i].1 {
            Some(value) => {
                if names_match(headers[i].0.as_str(), "set-cookie") {
                    absorb_set_cookie(jar, value.as_str());
                }
            },
            None => {},
        }
        i = i + 1;
    }
    assert(all.take(i as int) =~= all);
}

/// The URL that a `Location` names, seen from `url`.
pub fn resolve_location(url: &str, location: &str) -> (r: String)
    ensures
        r@ == redirect_target(url@, location@),
{
    let loc = chars_of(location);
    let http = chars_of("http");
    if matches_at(&loc, &http, 0) {
        return String::from_str(location);
    }
    let u = chars_of(url);
    let n: usize = u.len();
    let first: usize = find_char(&u, '/', 0);
    let second: usize = if first < n {
        find_char(&u, '/', first + 1)
    } else {
        n
    };
    let third: usize = if second < n {
        find_char(&u, '/', second + 1)
    } else {
        n
    };
    let mut out = string_of(&u, 0, third);
    out.append(location);
    out
}

impl Call {
    /// A call that starts with this request and has followed no redirect.
    pub fn new(method: &str, url: &str, body: Option<String>) -> (r: Call)
        ensures
            r@ == (CallView {
                method: method@,
                url: url@,
                body: match body {
                    Some(b) => Some(b@),
                    None => None,
                },
                hops: 0,
            }),
    {
        Call { method: String::from_str(method), url: String::from_str(url), body, hops: 0 }
    }

    /// The request that the call sends next: the caller's headers, and the
    /// jar as `Cookie` where there is a jar.
    pub fn request(&self, headers: Option<&HeaderSet>, jar: Option<&CookieJar>) -> (r: Request)
        ensures
            r@ == request_of(
                self@,
                match headers {
                    Some(h) => Some(h@),
                    None => None,
                },
                match jar {
                    Some(j) => Some(j@),
                    None => None,
                },
            ),
    {
        let mut all = match headers {
            Some(h) => h.copy(),
            None => HeaderSet::new(),
        };
        match jar {
            Some(j) => {
                all.upsert(String::from_str("Cookie"), cookie_header(j));
            },
            None => {},
        }
        let body = match &self.body {
            Some(b) => Some(b.clone()),
            None => None,
        };
        Request { method: self.method.clone(), url: self.url.clone(), headers: all, body }
    }
}

/// What a response leads to. Where there is a jar, the `Set-Cookie` headers
/// of a success or a redirect are taken into it.
pub fn advance(call: Call, response: Response, jar: Option<&mut CookieJar>, max_redirects: usize)
    -> (r: Step)
    ensures
        r@ == step_of(call@, response@, max_redirects as nat),
        match jar {
            Some(j) => final(j)@ == jar_after_response(j@, response@),
            None => true,
        },
{
    match classify(response.status) {
        StatusClass::Failure => Step::Failed(
            HttpError::Status {
                status: response.status,
                headers: response.headers,
                body: response.body,
            },
        ),
        StatusClass::Success => {
            match jar {
                Some(j) => absorb_headers(j, &response.headers),
                None => {},
            }
            match text_from_utf8(response.body) {
                Some(text) => {
                    proof {
                        vstd::utf8::encode_utf8_decode_utf8(text@);
                    }
                    Step::Done(text)
                },
                None => Step::Failed(HttpError::Decode),
            }
        },
        StatusClass::Redirect => {
            match jar {
                Some(j) => absorb_headers(j, &response.headers),
                None => {},
            }
            match header_value(&response.headers, "location") {
                None => Step::Failed(HttpError::LocationlessRedirect),
                Some(None) => Step::Failed(HttpError::Decode),
                Some(Some(location)) => {
                    if call.hops >= max_redirects {
                        Step::Failed(HttpError::TooManyRedirects)
                    } else {
                        Step::Next(
                            Call {
                                method: String::from_str("GET"),
                                url: resolve_location(call.url.as_str(), location.as_str()),
                                body: None,
                                hops: call.hops + 1,
                            },
                        )
                    }
                },
            }
        },
    }
}

/// Follows a call over responses that are at hand, in the order in which
/// they came: how the call ends, or none where they leave it under way.
/// Responses behind the one that ends the call are not looked at.
pub fn replay(call: Call, responses: Vec<Response>, jar: &mut CookieJar, max_redirects: usize)
    -> (r: Option<Result<String, HttpError>>)
    ensures
        match r {
            Some(Ok(body)) => outcome(
                call@,
                response_views(responses@),
                max_redirects as nat,
            ) == Some(Ok::<Seq<char>, HttpErrorView>(body@)),
            Some(Err(error)) => outcome(
                call@,
                response_views(responses@),
                max_redirects as nat,
            ) == Some(Err::<Seq<char>, HttpErrorView>(error@)),
            None => outcome(call@, response_views(responses@), max_redirects as nat) is None,
        },
        final(jar)@ == jar_after_chain(
            old(jar)@,
            call@,
            response_views(responses@),
            max_redirects as nat,
        ),
{
    let ghost all = response_views(responses@);
    let ghost first = call@;
    let ghost max = max_redirects as nat;
    let mut current = call;
    assert(all.skip(0) =~= all);
    for response in iter: responses
        invariant
            iter.seq() == responses@,
            all == response_views(responses@),
            first == call@,
            max == max_redirects as nat,
            outcome(first, all, max) == outcome(current@, all.skip(iter.index() as int), max),
            jar_after_chain(old(jar)@, first, all, max) == jar_after_chain(
                jar@,
                current@,
                all.skip(iter.index() as int),
                max,
            ),
    {
        let ghost rest = all.skip(iter.index() as int);
        let ghost before = jar@;
        let ghost sent = current@;
        proof {
            assert(rest.len() > 0);
            assert(rest[0] == response@);
            assert(rest.drop_first() =~= all.skip(iter.index() + 1));
            assert(jar_after_chain(before, sent, rest, max) == match step_of(sent, rest[0], max) {
                StepView::Next(next) => jar_after_chain(
                    jar_after_response(before, rest[0]),
                    next,
                    rest.drop_first(),
                    max,
                ),
                _ => jar_after_response(before, rest[0]),
            });
        }
        match advance(current, response, Some(&mut *jar), max_redirects) {
            Step::Next(next) => {
                current = next;
            },
            Step::Done(body) => {
                return Some(Ok(body));
            },
            Step::Failed(error) => {
                return Some(Err(error));
            },
        }
    }
    None
}

} // verus!

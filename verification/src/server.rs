//! The dispatcher: from the routes and a request to the reply.

use crate::compiler::{
    answer_at, lemma_scan_prefix_reads_prefix, scan_spec, SourceEntryView,
};
use crate::frontmatter::{DecodedView, HeaderEntries};
use crate::request_logger::{
    create_logged_request, extract_request_info, log_directory, log_file_name,
    logged_request_spec, request_info_spec, response_info, response_info_spec, LogDestination,
    LogFormat, LoggedRequest, RequestLogger, RequestLoggerView,
};
use crate::routes::{
    display_text, method_exactly_named, pattern_matches, HttpMethod, Route, RouteView,
};
use crate::table::RouteTable;
use crate::text::{chars_of, concat, eq_ignore_ascii_case, same_ignoring_ascii_case, string_of};
use vstd::prelude::*;

verus! {

/// The status of the reply to a request whose method no route can have.
pub const STATUS_METHOD_NOT_ALLOWED: u16 = 405;

/// The status of the reply to a request that no route answers.
pub const STATUS_NOT_FOUND: u16 = 404;

/// The status that stands in for one outside the range of HTTP statuses.
pub const STATUS_OK: u16 = 200;

/// Whether `name` is accepted as the name of an HTTP header.
pub uninterp spec fn valid_header_name(name: Seq<char>) -> bool;

/// Whether `value` is accepted as the value of an HTTP header.
pub uninterp spec fn valid_header_value(value: Seq<char>) -> bool;

/// `HeaderName::try_from` of the crate `http`, on a string: whether the
/// string is accepted as a header name. The contract gives that answer a
/// name and says nothing more of it.
#[verifier::external_body]
fn header_name_is_valid(name: &str) -> (r: bool)
    ensures
        r == valid_header_name(name@),
{
    axum::http::HeaderName::try_from(name).is_ok()
}

/// `HeaderValue::try_from` of the crate `http`, on a string: whether the
/// string is accepted as a header value. The contract gives that answer a
/// name and says nothing more of it.
#[verifier::external_body]
fn header_value_is_valid(value: &str) -> (r: bool)
    ensures
        r == valid_header_value(value@),
{
    axum::http::HeaderValue::try_from(value).is_ok()
}

/// The status that is sent for the status of a route: the status itself
/// where it is an HTTP status, else 200.
pub open spec fn effective_status(status: u16) -> u16 {
    if 100 <= status <= 599 {
        status
    } else {
        STATUS_OK
    }
}

/// The headers of a route's metadata that can be sent: those whose name and
/// value are both accepted, in their order.
pub open spec fn kept_headers(headers: HeaderEntries) -> HeaderEntries
    decreases headers.len(),
{
    if headers.len() == 0 {
        Seq::empty()
    } else {
        let front = kept_headers(headers.drop_last());
        let last = headers.last();
        if valid_header_name(last.0) && valid_header_value(last.1) {
            front.push(last)
        } else {
            front
        }
    }
}

/// The headers of the reply of a route: first the content type that its file
/// stands for, then the headers of its metadata that can be sent.
pub open spec fn reply_headers(route: RouteView) -> HeaderEntries {
    seq![("Content-Type"@, route.content_type)] + kept_headers(route.response.meta.headers)
}

/// The model of a [`Reply`].
pub struct ReplyView {
    pub status: u16,
    pub headers: HeaderEntries,
    pub body: Seq<char>,
    pub delay_ms: u64,
    pub matched_route: Option<Seq<char>>,
}

/// What is sent back for a request.
#[derive(Debug)]
pub struct Reply {
    /// The HTTP status.
    pub status: u16,
    /// The headers, in the order in which they are sent; of two headers of
    /// one name the later one counts.
    pub headers: Vec<(String, String)>,
    /// The body.
    pub body: String,
    /// Milliseconds to wait before the reply is sent.
    pub delay_ms: u64,
    /// The path of the route that answered, for a reader.
    pub matched_route: Option<String>,
}

impl View for Reply {
    type V = ReplyView;

    open spec fn view(&self) -> ReplyView {
        ReplyView {
            status: self.status,
            headers: self.headers.deep_view(),
            body: self.body@,
            delay_ms: self.delay_ms,
            matched_route: self.matched_route.deep_view(),
        }
    }
}

/// The index of the last header of `headers` whose name is `name`, whatever
/// the case of its ASCII letters.
pub open spec fn last_named(headers: HeaderEntries, name: Seq<char>) -> Option<int>
    decreases headers.len(),
{
    if headers.len() == 0 {
        None
    } else if eq_ignore_ascii_case(headers.last().0, name) {
        Some(headers.len() - 1)
    } else {
        last_named(headers.drop_last(), name)
    }
}

/// The value that counts for a header name: that of the last header of the
/// name.
pub open spec fn header_value(headers: HeaderEntries, name: Seq<char>) -> Option<Seq<char>> {
    match last_named(headers, name) {
        Some(i) => Some(headers[i].1),
        None => None,
    }
}

/// `last_named` is the last header of the name: no header after it has the
/// name, and `None` means that no header has it.
pub proof fn lemma_last_named(headers: HeaderEntries, name: Seq<char>)
    ensures
        match last_named(headers, name) {
            Some(i) => {
                &&& 0 <= i < headers.len()
                &&& eq_ignore_ascii_case(headers[i].0, name)
                &&& forall|j: int|
                    i < j < headers.len() ==> !eq_ignore_ascii_case(headers[j].0, name)
            },
            None => forall|j: int|
                0 <= j < headers.len() ==> !eq_ignore_ascii_case(headers[j].0, name),
        },
    decreases headers.len(),
{
    if headers.len() > 0 && !eq_ignore_ascii_case(headers.last().0, name) {
        let front = headers.drop_last();
        lemma_last_named(front, name);
        assert(forall|j: int| 0 <= j < front.len() ==> front[j] == headers[j]);
    }
}

/// The reply of a route always says which content type it has: the content
/// type of the file, unless a later header of the route names another.
pub proof fn lemma_route_reply_has_content_type(route: RouteView)
    ensures
        header_value(reply_headers(route), "Content-Type"@) is Some,
        last_named(reply_headers(route), "Content-Type"@) == Some(0int) ==> header_value(
            reply_headers(route),
            "Content-Type"@,
        ) == Some(route.content_type),
{
    let headers = reply_headers(route);
    lemma_last_named(headers, "Content-Type"@);
    assert(headers[0].0 == "Content-Type"@);
    assert(eq_ignore_ascii_case("Content-Type"@, "Content-Type"@));
}

impl Reply {
    /// The value that counts for the header `name`: of several headers of
    /// the name, whatever the case of its letters, the last one.
    pub fn header(&self, name: &str) -> (r: Option<&String>)
        ensures
            r.deep_view() == header_value(self@.headers, name@),
    {
        let wanted: Vec<char> = chars_of(name);
        let ghost all = self.headers.deep_view();
        let mut n: usize = self.headers.len();
        assert(all.take(n as int) =~= all);
        while n > 0
            invariant
                n <= self.headers.len(),
                all == self.headers.deep_view(),
                wanted@ == name@,
                last_named(all, name@) == last_named(all.take(n as int), name@),
            decreases n,
        {
            let ghost head = all.take(n as int);
            assert(head.last() == all[n - 1]);
            let candidate: Vec<char> = chars_of(self.headers[n - 1].0.as_str());
            if same_ignoring_ascii_case(&candidate, &wanted) {
                return Some(&self.headers[n - 1].1);
            }
            assert(head.drop_last() =~= all.take(n - 1));
            n -= 1;
        }
        None
    }
}

/// The reply to a request whose method no route can have.
pub open spec fn method_not_allowed_spec() -> ReplyView {
    ReplyView {
        status: STATUS_METHOD_NOT_ALLOWED,
        headers: Seq::empty(),
        body: "Method not allowed"@,
        delay_ms: 0,
        matched_route: None,
    }
}

/// The reply to a request that no route answers.
pub open spec fn not_found_spec(method: Seq<char>, path: Seq<char>) -> ReplyView {
    ReplyView {
        status: STATUS_NOT_FOUND,
        headers: Seq::empty(),
        body: "Route not found: "@ + method + seq![' '] + path,
        delay_ms: 0,
        matched_route: None,
    }
}

/// The reply of a route.
pub open spec fn route_reply_spec(route: RouteView) -> ReplyView {
    ReplyView {
        status: effective_status(route.response.meta.status),
        headers: reply_headers(route),
        body: route.response.body,
        delay_ms: route.response.meta.delay,
        matched_route: Some(display_text(route.path_segments)),
    }
}

/// Whether a route answers a request.
pub open spec fn route_answers(route: RouteView, method: HttpMethod, path: Seq<char>) -> bool {
    route.method == method && pattern_matches(route.path_segments, path)
}

/// The index of the first route that answers a request.
pub open spec fn first_match(routes: Seq<RouteView>, method: HttpMethod, path: Seq<char>)
    -> Option<int>
    decreases routes.len(),
{
    if routes.len() == 0 {
        None
    } else {
        match first_match(routes.drop_last(), method, path) {
            Some(i) => Some(i),
            None => if route_answers(routes.last(), method, path) {
                Some(routes.len() - 1)
            } else {
                None
            },
        }
    }
}

/// The reply to a request, given the routes: 405 where the method is none
/// that a route can have, 404 where no route answers, else the reply of the
/// first route that answers.
pub open spec fn dispatch_spec(routes: Seq<RouteView>, method: Seq<char>, path: Seq<char>)
    -> ReplyView {
    match method_exactly_named(method) {
        None => method_not_allowed_spec(),
        Some(named) => match first_match(routes, named, path) {
            None => not_found_spec(method, path),
            Some(i) => route_reply_spec(routes[i]),
        },
    }
}

/// `first_match` is the first route that answers: it answers, no route
/// before it does, and `None` means that no route answers.
pub proof fn lemma_first_match(routes: Seq<RouteView>, method: HttpMethod, path: Seq<char>)
    ensures
        match first_match(routes, method, path) {
            Some(i) => {
                &&& 0 <= i < routes.len()
                &&& route_answers(routes[i], method, path)
                &&& forall|j: int| 0 <= j < i ==> !route_answers(routes[j], method, path)
            },
            None => forall|j: int| 0 <= j < routes.len() ==> !route_answers(routes[j], method, path),
        },
    decreases routes.len(),
{
    if routes.len() > 0 {
        let front = routes.drop_last();
        lemma_first_match(front, method, path);
        assert(forall|j: int| 0 <= j < front.len() ==> front[j] == routes[j]);
    }
}

/// The method of a request, where it is one that a route can have. The name
/// counts letter for letter, in capitals.
pub fn parse_http_method(method: &str) -> (r: Option<HttpMethod>)
    ensures
        r == method_exactly_named(method@),
{
    HttpMethod::from_exact_name(method)
}

/// The first route that answers a request.
pub fn find_matching_route<'a>(routes: &'a Vec<Route>, method: HttpMethod, path: &str) -> (r:
    Option<&'a Route>)
    ensures
        match first_match(routes.deep_view(), method, path@) {
            Some(i) => r == Some(&routes@[i]),
            None => r is None,
        },
{
    let ghost all = routes.deep_view();
    let mut i: usize = 0;
    while i < routes.len()
        invariant
            i <= routes.len(),
            all == routes.deep_view(),
            forall|j: int| 0 <= j < i ==> !route_answers(all[j], method, path@),
        decreases routes.len() - i,
    {
        let route = &routes[i];
        assert(all[i as int] == route@);
        if route.method == method && route.matches(path) {
            proof {
                lemma_first_match(all, method, path@);
            }
            return Some(route);
        }
        i += 1;
    }
    proof {
        lemma_first_match(all, method, path@);
    }
    None
}

/// The reply to a request whose method no route can have.
pub fn method_not_allowed() -> (r: Reply)
    ensures
        r@ == method_not_allowed_spec(),
{
    let headers: Vec<(String, String)> = Vec::new();
    assert(headers.deep_view() =~= HeaderEntries::empty());
    Reply {
        status: STATUS_METHOD_NOT_ALLOWED,
        headers,
        body: "Method not allowed".to_owned(),
        delay_ms: 0,
        matched_route: None,
    }
}

/// The reply to a request that no route answers.
pub fn not_found(method: &str, path: &str) -> (r: Reply)
    ensures
        r@ == not_found_spec(method@, path@),
{
    let headers: Vec<(String, String)> = Vec::new();
    assert(headers.deep_view() =~= HeaderEntries::empty());
    let mut body: Vec<char> = chars_of("Route not found: ");
    body = concat(&body, &chars_of(method));
    body.push(' ');
    body = concat(&body, &chars_of(path));
    assert(body@ =~= "Route not found: "@ + method@ + seq![' '] + path@);
    Reply { status: STATUS_NOT_FOUND, headers, body: string_of(&body), delay_ms: 0, matched_route: None }
}

/// The reply of a route: its status or 200, the content type of its file and
/// then its headers that can be sent, its body, its delay.
pub fn from_route(route: &Route) -> (r: Reply)
    ensures
        r@ == route_reply_spec(route@),
{
    let status: u16 = if 100 <= route.response.meta.status && route.response.meta.status <= 599 {
        route.response.meta.status
    } else {
        STATUS_OK
    };
    let mut headers: Vec<(String, String)> = Vec::new();
    headers.push(("Content-Type".to_owned(), route.content_type.clone()));
    let meta = &route.response.meta.headers;
    let ghost first = seq![("Content-Type"@, route.content_type@)];
    assert(headers.deep_view() =~= first);
    assert(meta@.take(0) =~= HeaderEntries::empty());
    let count: usize = meta.len();
    let mut i: usize = 0;
    while i < count
        invariant
            i <= count,
            count == meta@.len(),
            first == seq![("Content-Type"@, route.content_type@)],
            headers.deep_view() == first + kept_headers(meta@.take(i as int)),
        decreases count - i,
    {
        let name: &String = meta.name_at(i);
        let value: &String = meta.value_at(i);
        let ghost before = headers.deep_view();
        let ghost upto = meta@.take(i + 1);
        proof {
            assert(upto.drop_last() =~= meta@.take(i as int));
            assert(upto.last() == meta@[i as int]);
        }
        if header_name_is_valid(name.as_str()) && header_value_is_valid(value.as_str()) {
            headers.push((name.clone(), value.clone()));
            assert(headers.deep_view() =~= before.push((name@, value@)));
            assert(headers.deep_view() =~= first + kept_headers(upto));
        }
        i += 1;
    }
    assert(meta@.take(meta@.len() as int) =~= meta@);
    Reply {
        status,
        headers,
        body: route.response.body.clone(),
        delay_ms: route.response.meta.delay,
        matched_route: Some(route.display_path()),
    }
}

/// The reply to a request, from the routes as they stand: every part of it
/// comes from this one list of routes.
pub fn dispatch(routes: &Vec<Route>, method: &str, path: &str) -> (r: Reply)
    ensures
        r@ == dispatch_spec(routes.deep_view(), method@, path@),
{
    match parse_http_method(method) {
        None => method_not_allowed(),
        Some(named) => match find_matching_route(routes, named, path) {
            None => not_found(method, path),
            Some(route) => {
                proof {
                    lemma_first_match(routes.deep_view(), named, path@);
                    let i = first_match(routes.deep_view(), named, path@)->0;
                    assert(routes.deep_view()[i] == routes@[i]@);
                }
                from_route(route)
            },
        },
    }
}

/// What the server works on: the routes, and the request log if there is
/// one.
#[derive(Debug)]
pub struct AppState {
    pub routes: RouteTable,
    pub request_logger: Option<RequestLogger>,
}

/// A request as it came in, in plain values.
#[derive(Debug)]
pub struct IncomingRequest {
    /// The method, as the request names it.
    pub method: String,
    /// The whole URI.
    pub uri: String,
    /// The path of the URI.
    pub path: String,
    /// The query of the URI.
    pub query: Option<String>,
    /// The headers; a value that is no text comes as none.
    pub headers: Vec<(String, Option<String>)>,
    /// The body as it was read for the log; none where it was not read or
    /// could not be read.
    pub body: Option<Vec<u8>>,
}

/// A record to write, with the place and the format to write it in.
#[derive(Debug)]
pub struct LogEntry {
    pub record: LoggedRequest,
    pub destination: LogDestination,
    pub format: LogFormat,
}

/// What handling a request gave: the reply to send, and the record to write
/// where requests are logged.
#[derive(Debug)]
pub struct Handled {
    pub reply: Reply,
    pub log: Option<LogEntry>,
}

/// Whether `entry` is the record of the request and the reply, for the given
/// log, under whatever timestamp and identifier it carries.
pub open spec fn is_log_entry(
    entry: LogEntry,
    logger: RequestLoggerView,
    request: IncomingRequest,
    reply: ReplyView,
) -> bool {
    &&& entry.record@ == logged_request_spec(
        request_info_spec(
            request.method@,
            request.uri@,
            request.path@,
            request.query.deep_view(),
            request.headers.deep_view(),
            match request.body {
                Some(bytes) => Some(bytes@),
                None => None,
            },
        ),
        response_info_spec(reply),
        reply.matched_route,
        entry.record@.metadata.timestamp,
        entry.record@.metadata.request_id,
    )
    &&& entry.record@.metadata.request_id.len() == 26
    &&& entry.destination@.directory == log_directory(logger.base_dir, request.path@, request.method@)
    &&& entry.destination@.file_name == log_file_name(entry.record@.metadata, logger.format)
    &&& entry.format == logger.format
}

impl AppState {
    /// Whether the body of a request has to be read before the request is
    /// handled: it is read for the log, and only for the log.
    pub fn wants_request_body(&self) -> (r: bool)
        ensures
            r == self.request_logger is Some,
    {
        self.request_logger.is_some()
    }
}

/// Handles a request: the reply comes from the routes of `state` as they
/// stand and from nothing else; where requests are logged, the record of the
/// request and of that reply comes with it.
pub fn handle_request(state: &AppState, request: &IncomingRequest) -> (r: Handled)
    ensures
        r.reply@ == dispatch_spec(state.routes@, request.method@, request.path@),
        r.log is Some <==> state.request_logger is Some,
        r.log matches Some(entry) ==> is_log_entry(
            entry,
            state.request_logger->0@,
            *request,
            r.reply@,
        ),
{
    let reply: Reply = dispatch(
        state.routes.routes(),
        request.method.as_str(),
        request.path.as_str(),
    );
    let log: Option<LogEntry> = match &state.request_logger {
        None => None,
        Some(logger) => {
            let info = extract_request_info(
                request.method.as_str(),
                request.uri.as_str(),
                request.path.as_str(),
                match &request.query {
                    Some(text) => Some(text.as_str()),
                    None => None,
                },
                &request.headers,
                match &request.body {
                    Some(bytes) => Some(bytes),
                    None => None,
                },
            );
            let matched: Option<String> = match &reply.matched_route {
                Some(text) => Some(text.clone()),
                None => None,
            };
            let record = create_logged_request(info, response_info(&reply), matched);
            let destination = logger.destination(&record);
            Some(LogEntry { record, destination, format: logger.format() })
        },
    };
    Handled { reply, log }
}

/// Logging changes no reply: two servers with the same routes give the same
/// reply to the same request, whether or not either of them logs, and
/// whatever the log of either is.
pub proof fn lemma_logging_changes_no_reply(
    first: AppState,
    second: AppState,
    method: Seq<char>,
    path: Seq<char>,
)
    requires
        first.routes@ == second.routes@,
    ensures
        dispatch_spec(first.routes@, method, path) == dispatch_spec(second.routes@, method, path),
{
}

/// Compiling and matching is a function of the listing: two compilations of
/// one listing, to which the decoder answered alike, give the same routes
/// or the same error, and so the same reply to every request.
pub proof fn lemma_same_listing_same_reply(
    entries: Seq<SourceEntryView>,
    first: Seq<DecodedView>,
    second: Seq<DecodedView>,
    method: Seq<char>,
    path: Seq<char>,
)
    requires
        forall|i: int| 0 <= i < entries.len() ==> answer_at(first, i) == answer_at(second, i),
    ensures
        scan_spec(entries, first) == scan_spec(entries, second),
        scan_spec(entries, first) matches Ok(routes) ==> scan_spec(entries, second) matches Ok(
            others,
        ) && dispatch_spec(routes, method, path) == dispatch_spec(others, method, path),
{
    lemma_scan_prefix_reads_prefix(entries, first, second, entries.len());
}

} // verus!

//! Request logs: what is recorded of a request and its reply, and where the
//! record is written.

use crate::frontmatter::{inserted, HeaderEntries, Headers};
use crate::server::Reply;
use crate::text::{chars_of, concat, slice_of, string_of, to_ascii_upper, upper_chars};
use vstd::prelude::*;

verus! {

/// The formats in which a record can be written.
#[derive(Debug, Clone, Copy, PartialEq, Eq, Structural)]
pub enum LogFormat {
    Json,
    Yaml,
}

/// The file extension of a format.
pub open spec fn extension_of(format: LogFormat) -> Seq<char> {
    match format {
        LogFormat::Json => "json"@,
        LogFormat::Yaml => "yaml"@,
    }
}

impl LogFormat {
    /// The extension of the files that hold records in this format.
    pub fn extension(&self) -> (r: &'static str)
        ensures
            r@ == extension_of(*self),
    {
        match self {
            LogFormat::Json => "json",
            LogFormat::Yaml => "yaml",
        }
    }
}

/// The model of a [`RequestMetadata`].
pub struct RequestMetadataView {
    pub timestamp: Seq<char>,
    pub request_id: Seq<char>,
}

/// When a request was recorded, and under which identifier.
#[derive(Debug)]
pub struct RequestMetadata {
    pub timestamp: String,
    pub request_id: String,
}

impl View for RequestMetadata {
    type V = RequestMetadataView;

    open spec fn view(&self) -> RequestMetadataView {
        RequestMetadataView { timestamp: self.timestamp@, request_id: self.request_id@ }
    }
}

/// The model of a [`RequestInfo`].
pub struct RequestInfoView {
    pub method: Seq<char>,
    pub uri: Seq<char>,
    pub path: Seq<char>,
    pub query: Option<Seq<char>>,
    pub headers: HeaderEntries,
    pub body: Option<Seq<char>>,
    pub matched_route: Option<Seq<char>>,
}

/// What is recorded of a request.
#[derive(Debug)]
pub struct RequestInfo {
    pub method: String,
    pub uri: String,
    pub path: String,
    pub query: Option<String>,
    pub headers: Headers,
    pub body: Option<String>,
    pub matched_route: Option<String>,
}

impl View for RequestInfo {
    type V = RequestInfoView;

    open spec fn view(&self) -> RequestInfoView {
        RequestInfoView {
            method: self.method@,
            uri: self.uri@,
            path: self.path@,
            query: self.query.deep_view(),
            headers: self.headers@,
            body: self.body.deep_view(),
            matched_route: self.matched_route.deep_view(),
        }
    }
}

/// The model of a [`ResponseInfo`].
pub struct ResponseInfoView {
    pub status: u16,
    pub headers: HeaderEntries,
    pub body: Seq<char>,
    pub delay_ms: u64,
}

/// What is recorded of a reply.
#[derive(Debug)]
pub struct ResponseInfo {
    pub status: u16,
    pub headers: Headers,
    pub body: String,
    pub delay_ms: u64,
}

impl View for ResponseInfo {
    type V = ResponseInfoView;

    open spec fn view(&self) -> ResponseInfoView {
        ResponseInfoView {
            status: self.status,
            headers: self.headers@,
            body: self.body@,
            delay_ms: self.delay_ms,
        }
    }
}

/// The model of a [`LoggedRequest`].
pub struct LoggedRequestView {
    pub metadata: RequestMetadataView,
    pub request: RequestInfoView,
    pub response: ResponseInfoView,
}

/// One record of the request log.
#[derive(Debug)]
pub struct LoggedRequest {
    pub metadata: RequestMetadata,
    pub request: RequestInfo,
    pub response: ResponseInfo,
}

impl View for LoggedRequest {
    type V = LoggedRequestView;

    open spec fn view(&self) -> LoggedRequestView {
        LoggedRequestView {
            metadata: self.metadata@,
            request: self.request@,
            response: self.response@,
        }
    }
}

/// The headers that a list of headers leaves once each was set in turn: of
/// two headers of one name the later value stays, in the place of the first.
pub open spec fn collected(entries: HeaderEntries) -> HeaderEntries
    decreases entries.len(),
{
    if entries.len() == 0 {
        Seq::empty()
    } else {
        inserted(collected(entries.drop_last()), entries.last().0, entries.last().1)
    }
}

/// Sets each header of the list in turn.
pub fn collect_headers(entries: &Vec<(String, String)>) -> (r: Headers)
    ensures
        r@ == collected(entries.deep_view()),
{
    let mut r: Headers = Headers::new();
    let ghost all = entries.deep_view();
    let mut i: usize = 0;
    assert(all.take(0) =~= HeaderEntries::empty());
    while i < entries.len()
        invariant
            i <= entries.len(),
            all == entries.deep_view(),
            r@ == collected(all.take(i as int)),
        decreases entries.len() - i,
    {
        proof {
            let upto = all.take(i + 1);
            assert(upto.drop_last() =~= all.take(i as int));
            assert(upto.last() == all[i as int]);
        }
        r.insert(entries[i].0.clone(), entries[i].1.clone());
        i += 1;
    }
    assert(all.take(i as int) =~= all);
    r
}

/// The text that stands in the log for a header value that is no text.
pub open spec fn binary_marker() -> Seq<char> {
    "<binary>"@
}

/// The headers of a request as they are recorded: a value that is no text is
/// recorded as `<binary>`.
pub open spec fn recorded_headers(headers: Seq<(Seq<char>, Option<Seq<char>>)>) -> HeaderEntries {
    collected(
        headers.map_values(
            |header: (Seq<char>, Option<Seq<char>>)|
                (
                    header.0,
                    match header.1 {
                        Some(text) => text,
                        None => binary_marker(),
                    },
                ),
        ),
    )
}

/// What the bytes of a body read as when they are taken for UTF-8 and every
/// malformed part is replaced.
pub uninterp spec fn lossy_text(bytes: Seq<u8>) -> Seq<char>;

/// `String::from_utf8_lossy` of std: the text of the bytes, with the
/// replacement character for what is no UTF-8. The contract gives the result
/// a name and says nothing more of it.
#[verifier::external_body]
fn decode_lossy(bytes: &Vec<u8>) -> (r: String)
    ensures
        r@ == lossy_text(bytes@),
{
    String::from_utf8_lossy(bytes).into_owned()
}

/// The body of a request as it is recorded: none where the body could not be
/// read or is empty, else its text.
pub open spec fn recorded_body(body: Option<Seq<u8>>) -> Option<Seq<char>> {
    match body {
        Some(bytes) => if bytes.len() == 0 {
            None
        } else {
            Some(lossy_text(bytes))
        },
        None => None,
    }
}

/// What is recorded of a request, before it is known which route answers.
pub open spec fn request_info_spec(
    method: Seq<char>,
    uri: Seq<char>,
    path: Seq<char>,
    query: Option<Seq<char>>,
    headers: Seq<(Seq<char>, Option<Seq<char>>)>,
    body: Option<Seq<u8>>,
) -> RequestInfoView {
    RequestInfoView {
        method,
        uri,
        path,
        query,
        headers: recorded_headers(headers),
        body: recorded_body(body),
        matched_route: None,
    }
}

/// Gathers what is recorded of a request. A header comes with its value as
/// text, or with none where the value is no text; the body comes as the bytes
/// that were read, or as none where it could not be read.
pub fn extract_request_info(
    method: &str,
    uri: &str,
    path: &str,
    query: Option<&str>,
    headers: &Vec<(String, Option<String>)>,
    body: Option<&Vec<u8>>,
) -> (r: RequestInfo)
    ensures
        r@ == request_info_spec(
            method@,
            uri@,
            path@,
            query.deep_view(),
            headers.deep_view(),
            match body {
                Some(bytes) => Some(bytes@),
                None => None,
            },
        ),
{
    let mut plain: Vec<(String, String)> = Vec::new();
    let mut i: usize = 0;
    while i < headers.len()
        invariant
            i <= headers.len(),
            plain.len() == i,
            forall|j: int|
                0 <= j < i ==> (#[trigger] plain@[j]).0@ == headers@[j].0@ && plain@[j].1@
                    == match headers@[j].1 {
                    Some(text) => text@,
                    None => binary_marker(),
                },
        decreases headers.len() - i,
    {
        let value: String = match &headers[i].1 {
            Some(text) => text.clone(),
            None => "<binary>".to_owned(),
        };
        plain.push((headers[i].0.clone(), value));
        i += 1;
    }
    assert(plain.deep_view() =~= headers.deep_view().map_values(
        |header: (Seq<char>, Option<Seq<char>>)|
            (
                header.0,
                match header.1 {
                    Some(text) => text,
                    None => binary_marker(),
                },
            ),
    ));
    let recorded: Option<String> = match body {
        Some(bytes) => if bytes.len() == 0 {
            None
        } else {
            Some(decode_lossy(bytes))
        },
        None => None,
    };
    RequestInfo {
        method: method.to_owned(),
        uri: uri.to_owned(),
        path: path.to_owned(),
        query: match query {
            Some(text) => Some(text.to_owned()),
            None => None,
        },
        headers: collect_headers(&plain),
        body: recorded,
        matched_route: None,
    }
}

/// How many slashes `path` begins with.
pub open spec fn leading_slashes(path: Seq<char>) -> nat
    decreases path.len(),
{
    if path.len() > 0 && path[0] == '/' {
        1 + leading_slashes(path.drop_first())
    } else {
        0
    }
}

/// A request path without the slashes that it begins with.
pub open spec fn stripped_path(path: Seq<char>) -> Seq<char> {
    path.skip(leading_slashes(path) as int)
}

/// The directory that holds the records of a request: under the log root
/// the request path, and under that the method in capitals.
pub open spec fn log_directory(root: Seq<char>, path: Seq<char>, method: Seq<char>) -> Seq<char> {
    if stripped_path(path).len() == 0 {
        root + seq!['/'] + to_ascii_upper(method)
    } else {
        root + seq!['/'] + stripped_path(path) + seq!['/'] + to_ascii_upper(method)
    }
}

/// The name of the file that holds a record.
pub open spec fn log_file_name(metadata: RequestMetadataView, format: LogFormat) -> Seq<char> {
    metadata.timestamp + seq!['_'] + metadata.request_id + seq!['.'] + extension_of(format)
}

/// The model of a [`LogDestination`].
pub struct LogDestinationView {
    pub directory: Seq<char>,
    pub file_name: Seq<char>,
}

/// Where a record is written.
#[derive(Debug)]
pub struct LogDestination {
    /// The directory, to be made with its parents where it is missing.
    pub directory: String,
    /// The name of the file in that directory.
    pub file_name: String,
}

impl View for LogDestination {
    type V = LogDestinationView;

    open spec fn view(&self) -> LogDestinationView {
        LogDestinationView { directory: self.directory@, file_name: self.file_name@ }
    }
}

/// The model of a [`RequestLogger`].
pub struct RequestLoggerView {
    pub base_dir: Seq<char>,
    pub format: LogFormat,
}

/// The request log: its root directory and its format.
#[derive(Debug)]
pub struct RequestLogger {
    base_dir: String,
    format: LogFormat,
}

impl View for RequestLogger {
    type V = RequestLoggerView;

    closed spec fn view(&self) -> RequestLoggerView {
        RequestLoggerView { base_dir: self.base_dir@, format: self.format }
    }
}

impl RequestLogger {
    /// A request log under `base_dir` that writes `format`.
    pub fn new(base_dir: String, format: LogFormat) -> (r: RequestLogger)
        ensures
            r@ == (RequestLoggerView { base_dir: base_dir@, format }),
    {
        RequestLogger { base_dir, format }
    }

    /// The format of the records.
    pub fn format(&self) -> (r: LogFormat)
        ensures
            r == self@.format,
    {
        self.format
    }

    /// The root directory of the log.
    pub fn base_dir(&self) -> (r: &String)
        ensures
            r@ == self@.base_dir,
    {
        &self.base_dir
    }

    /// Where the record of a request is written.
    pub fn destination(&self, record: &LoggedRequest) -> (r: LogDestination)
        ensures
            r@.directory == log_directory(
                self@.base_dir,
                record@.request.path,
                record@.request.method,
            ),
            r@.file_name == log_file_name(record@.metadata, self@.format),
    {
        let path: Vec<char> = chars_of(record.request.path.as_str());
        let mut start: usize = 0;
        assert(path@.skip(0) == path@);
        while start < path.len() && path[start] == '/'
            invariant
                start <= path.len(),
                leading_slashes(path@) == start + leading_slashes(path@.skip(start as int)),
            decreases path.len() - start,
        {
            proof {
                let rest = path@.skip(start as int);
                assert(rest[0] == path@[start as int]);
                assert(rest.drop_first() == path@.skip(start + 1));
            }
            start += 1;
        }
        proof {
            let rest = path@.skip(start as int);
            if start < path.len() {
                assert(rest[0] == path@[start as int]);
            }
        }
        let stripped: Vec<char> = slice_of(&path, start, path.len());
        assert(stripped@ == stripped_path(path@));
        let method: Vec<char> = upper_chars(&chars_of(record.request.method.as_str()));
        let mut directory: Vec<char> = chars_of(self.base_dir.as_str());
        directory.push('/');
        if stripped.len() > 0 {
            directory = concat(&directory, &stripped);
            directory.push('/');
        }
        directory = concat(&directory, &method);
        assert(directory@ =~= log_directory(
            self@.base_dir,
            record@.request.path,
            record@.request.method,
        ));
        let mut name: Vec<char> = chars_of(record.metadata.timestamp.as_str());
        name.push('_');
        name = concat(&name, &chars_of(record.metadata.request_id.as_str()));
        name.push('.');
        name = concat(&name, &chars_of(self.format.extension()));
        assert(name@ =~= log_file_name(record@.metadata, self@.format));
        LogDestination { directory: string_of(&directory), file_name: string_of(&name) }
    }
}

/// The headers of a reply as they are recorded: the first header, which is
/// the content type of the file, under the name `content-type`, then each
/// other header set in turn.
pub open spec fn recorded_reply_headers(headers: HeaderEntries) -> HeaderEntries {
    if headers.len() == 0 {
        Seq::empty()
    } else {
        collected(seq![("content-type"@, headers[0].1)] + headers.skip(1))
    }
}

/// What is recorded of a reply.
pub open spec fn response_info_spec(reply: crate::server::ReplyView) -> ResponseInfoView {
    ResponseInfoView {
        status: reply.status,
        headers: recorded_reply_headers(reply.headers),
        body: reply.body,
        delay_ms: reply.delay_ms,
    }
}

/// Gathers what is recorded of a reply: the status that was sent, the
/// headers, the body and the delay.
pub fn response_info(reply: &Reply) -> (r: ResponseInfo)
    ensures
        r@ == response_info_spec(reply@),
{
    let mut plain: Vec<(String, String)> = Vec::new();
    let ghost sent = reply.headers.deep_view();
    if reply.headers.len() > 0 {
        plain.push(("content-type".to_owned(), reply.headers[0].1.clone()));
        let mut i: usize = 1;
        while i < reply.headers.len()
            invariant
                1 <= i <= reply.headers.len(),
                sent == reply.headers.deep_view(),
                plain.len() == i,
                plain.deep_view() == seq![("content-type"@, sent[0].1)] + sent.subrange(
                    1,
                    i as int,
                ),
            decreases reply.headers.len() - i,
        {
            let ghost before = plain.deep_view();
            plain.push((reply.headers[i].0.clone(), reply.headers[i].1.clone()));
            assert(plain.deep_view() =~= before.push(sent[i as int]));
            assert(plain.deep_view() =~= seq![("content-type"@, sent[0].1)] + sent.subrange(
                1,
                i + 1,
            ));
            i += 1;
        }
        assert(sent.subrange(1, i as int) =~= sent.skip(1));
    } else {
        assert(plain.deep_view() =~= HeaderEntries::empty());
    }
    ResponseInfo {
        status: reply.status,
        headers: collect_headers(&plain),
        body: reply.body.clone(),
        delay_ms: reply.delay_ms,
    }
}

/// The pattern of a timestamp: year, month and day, then hour, minute and
/// second with dashes between them, then the microseconds, in UTC.
pub open spec fn timestamp_format() -> Seq<char> {
    "%Y-%m-%dT%H-%M-%S%.6fZ"@
}

/// `Utc::now` of the crate `chrono`, written with `DateTime::format`: the
/// present time in the given pattern. The result depends on the clock, so the
/// contract says nothing of it; the pattern is held to the one that the log
/// uses, which `format` accepts.
#[verifier::external_body]
fn utc_now_formatted(format: &str) -> (r: String)
    requires
        format@ == timestamp_format(),
{
    chrono::Utc::now().format(format).to_string()
}

/// `Ulid::new` of the crate `ulid`, written out: a new identifier as its 26
/// characters. The result depends on the clock and on chance; its length
/// does not.
#[verifier::external_body]
fn new_request_id() -> (r: String)
    ensures
        r@.len() == 26,
{
    ulid::Ulid::new().to_string()
}

/// The record of a request and its reply, under the given timestamp and
/// identifier.
pub open spec fn logged_request_spec(
    request: RequestInfoView,
    response: ResponseInfoView,
    matched_route: Option<Seq<char>>,
    timestamp: Seq<char>,
    request_id: Seq<char>,
) -> LoggedRequestView {
    LoggedRequestView {
        metadata: RequestMetadataView { timestamp, request_id },
        request: RequestInfoView { matched_route, ..request },
        response,
    }
}

/// Puts a record together: the request with the route that answered it, the
/// reply, and the metadata.
pub fn assemble_logged_request(
    request_info: RequestInfo,
    response_info: ResponseInfo,
    matched_route: Option<String>,
    timestamp: String,
    request_id: String,
) -> (r: LoggedRequest)
    ensures
        r@ == logged_request_spec(
            request_info@,
            response_info@,
            matched_route.deep_view(),
            timestamp@,
            request_id@,
        ),
{
    let request = RequestInfo {
        method: request_info.method,
        uri: request_info.uri,
        path: request_info.path,
        query: request_info.query,
        headers: request_info.headers,
        body: request_info.body,
        matched_route,
    };
    LoggedRequest {
        metadata: RequestMetadata { timestamp, request_id },
        request,
        response: response_info,
    }
}

/// Makes the record of a request and its reply, stamped with the present
/// time and a new identifier of 26 characters.
pub fn create_logged_request(
    request_info: RequestInfo,
    response_info: ResponseInfo,
    matched_route: Option<String>,
) -> (r: LoggedRequest)
    ensures
        r@ == logged_request_spec(
            request_info@,
            response_info@,
            matched_route.deep_view(),
            r@.metadata.timestamp,
            r@.metadata.request_id,
        ),
        r@.metadata.request_id.len() == 26,
{
    let timestamp: String = utc_now_formatted("%Y-%m-%dT%H-%M-%S%.6fZ");
    let request_id: String = new_request_id();
    assemble_logged_request(request_info, response_info, matched_route, timestamp, request_id)
}

} // verus!

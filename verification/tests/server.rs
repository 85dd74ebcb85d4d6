use blendwerk::compiler::{scan_directory, SourceEntry, SourceFile};
use blendwerk::frontmatter::ResponseMeta;
use blendwerk::request_logger::{
    assemble_logged_request, collect_headers, create_logged_request, extract_request_info,
    response_info, LogFormat, RequestLogger,
};
use blendwerk::routes::{HttpMethod, Route};
use blendwerk::server::{
    dispatch, find_matching_route, from_route, handle_request, method_not_allowed, not_found,
    parse_http_method, AppState, IncomingRequest,
};
use blendwerk::table::{ReloadReport, RouteTable};

fn decode(yaml: &str) -> Result<ResponseMeta, String> {
    let value: serde_yaml::Value = serde_yaml::from_str(yaml).map_err(|e| e.to_string())?;
    let mut meta = ResponseMeta::default();
    if let Some(status) = value.get("status") {
        meta.status = status.as_u64().ok_or("status is no number")? as u16;
    }
    if let Some(delay) = value.get("delay") {
        meta.delay = delay.as_u64().ok_or("delay is no number")?;
    }
    if let Some(headers) = value.get("headers") {
        for (name, value) in headers.as_mapping().ok_or("headers is no mapping")? {
            let name = name.as_str().ok_or("name is no text")?;
            let value = value.as_str().ok_or("value is no text")?;
            meta.headers.insert(name.to_string(), value.to_string());
        }
    }
    Ok(meta)
}

fn file(directory: &[&str], name: &str, content: &str) -> SourceEntry {
    SourceEntry::File(SourceFile {
        directory: directory.iter().map(|s| s.to_string()).collect(),
        file_name: name.to_string(),
        content: Ok(content.to_string()),
    })
}

fn compile(listing: Vec<SourceEntry>) -> Vec<Route> {
    scan_directory(&listing, decode).unwrap()
}

fn pair(name: &str, value: &str) -> (String, String) {
    (name.to_string(), value.to_string())
}

fn request(method: &str, path: &str) -> IncomingRequest {
    IncomingRequest {
        method: method.to_string(),
        uri: path.to_string(),
        path: path.to_string(),
        query: None,
        headers: vec![],
        body: None,
    }
}

#[test]
fn basic_get_is_served_from_its_file() {
    let routes = compile(vec![file(&["api"], "GET.json", "{\"hello\":\"world\"}")]);
    let reply = dispatch(&routes, "GET", "/api");
    assert_eq!(reply.status, 200);
    assert_eq!(reply.headers, vec![pair("Content-Type", "application/json")]);
    assert_eq!(reply.body, "{\"hello\":\"world\"}");
    assert_eq!(reply.delay_ms, 0);
    assert_eq!(reply.matched_route.as_deref(), Some("/api"));
}

#[test]
fn frontmatter_overrides_status_headers_and_delay() {
    let content = "---\nstatus: 201\nheaders:\n  X-Custom: value\ndelay: 100\n---\n{\"created\":true}";
    let routes = compile(vec![file(&["users"], "POST.json", content)]);
    let reply = dispatch(&routes, "POST", "/users");
    assert_eq!(reply.status, 201);
    assert_eq!(
        reply.headers,
        vec![pair("Content-Type", "application/json"), pair("X-Custom", "value")]
    );
    assert_eq!(reply.body, "{\"created\":true}");
    assert_eq!(reply.delay_ms, 100);
}

#[test]
fn dynamic_segment_answers_one_token() {
    let routes = compile(vec![file(&["users", "[id]"], "GET.json", "ok")]);
    assert_eq!(dispatch(&routes, "GET", "/users/42").status, 200);
    assert_eq!(dispatch(&routes, "GET", "/users/abc").body, "ok");
    assert_eq!(dispatch(&routes, "GET", "/users").status, 404);
    assert_eq!(dispatch(&routes, "GET", "/users/42/x").status, 404);
    assert_eq!(dispatch(&routes, "POST", "/users/42").status, 404);
}

#[test]
fn unknown_method_is_rejected_and_unknown_route_is_not_found() {
    let routes: Vec<Route> = vec![];
    let rejected = dispatch(&routes, "CONNECT", "/");
    assert_eq!(rejected.status, 405);
    assert_eq!(rejected.body, "Method not allowed");
    assert!(rejected.headers.is_empty());
    assert!(rejected.matched_route.is_none());
    let missing = dispatch(&routes, "GET", "/");
    assert_eq!(missing.status, 404);
    assert_eq!(missing.body, "Route not found: GET /");
    assert!(missing.matched_route.is_none());
    assert_eq!(dispatch(&routes, "get", "/").status, 405);
    assert_eq!(method_not_allowed().status, 405);
    assert_eq!(not_found("PUT", "/a/b").body, "Route not found: PUT /a/b");
    assert_eq!(parse_http_method("DELETE"), Some(HttpMethod::Delete));
    assert_eq!(parse_http_method("TRACE"), None);
}

#[test]
fn the_first_route_in_order_wins() {
    let routes = compile(vec![
        file(&["users", "[id]"], "GET.json", "dynamic"),
        file(&["users", "me"], "GET.json", "static"),
    ]);
    assert_eq!(dispatch(&routes, "GET", "/users/me").body, "dynamic");
    let found = find_matching_route(&routes, HttpMethod::Get, "/users/me").unwrap();
    assert_eq!(found.display_path(), "/users/:id");
    let routes = compile(vec![
        file(&["users", "me"], "GET.json", "static"),
        file(&["users", "[id]"], "GET.json", "dynamic"),
    ]);
    assert_eq!(dispatch(&routes, "GET", "/users/me").body, "static");
    assert_eq!(dispatch(&routes, "GET", "/users/you").body, "dynamic");
    assert!(find_matching_route(&routes, HttpMethod::Put, "/users/me").is_none());
}

#[test]
fn status_outside_the_http_range_becomes_200() {
    for (given, sent) in [(99, 200), (100, 100), (599, 599), (600, 200), (0, 200), (65535, 200)] {
        let content = format!("---\nstatus: {}\n---\n", given);
        let routes = compile(vec![file(&[], "GET.txt", &content)]);
        assert_eq!(from_route(&routes[0]).status, sent, "for {}", given);
    }
}

#[test]
fn headers_that_cannot_be_sent_are_dropped() {
    let content = "---\nheaders:\n  Good-One: fine\n  bad name: x\n  Bad-Value: \"a\\nb\"\n  \"\": empty\n  Content-Type: text/special\n---\n";
    let routes = compile(vec![file(&[], "GET.json", content)]);
    let reply = from_route(&routes[0]);
    assert_eq!(
        reply.headers,
        vec![
            pair("Content-Type", "application/json"),
            pair("Good-One", "fine"),
            pair("Content-Type", "text/special"),
        ]
    );
}

#[test]
fn the_table_changes_only_as_a_whole() {
    let mut table = RouteTable::new(compile(vec![file(&["a"], "GET.txt", "old")]));
    let before = table.snapshot();
    let report = table.reload(Ok(compile(vec![
        file(&["b"], "GET.txt", "new"),
        file(&["c"], "GET.txt", "newer"),
    ])));
    assert!(matches!(report, ReloadReport::Reloaded(2)));
    assert_eq!(dispatch(&before, "GET", "/a").body, "old");
    assert_eq!(dispatch(&before, "GET", "/b").status, 404);
    assert_eq!(dispatch(table.routes(), "GET", "/a").status, 404);
    assert_eq!(dispatch(table.routes(), "GET", "/b").body, "new");
    let failed = scan_directory(&vec![file(&[], "GET.txt", "---\nopen")], decode);
    let report = table.reload(failed);
    assert!(matches!(report, ReloadReport::Retained(error) if error.path == "GET.txt"));
    assert_eq!(table.len(), 2);
    assert_eq!(dispatch(table.routes(), "GET", "/c").body, "newer");
    table.replace(vec![]);
    assert_eq!(table.len(), 0);
    assert_eq!(dispatch(table.routes(), "GET", "/c").status, 404);
}

#[test]
fn hot_reload_serves_the_new_file_after_the_reload() {
    let mut table = RouteTable::new(compile(vec![]));
    assert_eq!(dispatch(table.routes(), "GET", "/PING").status, 404);
    table.reload(Ok(compile(vec![file(&["PING"], "GET.txt", "pong")])));
    let reply = dispatch(table.routes(), "GET", "/PING");
    assert_eq!(reply.status, 200);
    assert_eq!(reply.body, "pong");
    assert_eq!(reply.headers, vec![pair("Content-Type", "text/plain")]);
}

#[test]
fn logging_changes_no_reply() {
    let listing = || vec![file(&["users", "[id]"], "POST.json", "---\nstatus: 201\n---\nmade")];
    let silent = AppState { routes: RouteTable::new(compile(listing())), request_logger: None };
    let logging = AppState {
        routes: RouteTable::new(compile(listing())),
        request_logger: Some(RequestLogger::new("/tmp/log".to_string(), LogFormat::Json)),
    };
    assert!(!silent.wants_request_body());
    assert!(logging.wants_request_body());
    for (method, path) in [("POST", "/users/42"), ("GET", "/users/42"), ("CONNECT", "/")] {
        let a = handle_request(&silent, &request(method, path));
        let b = handle_request(&logging, &request(method, path));
        assert!(a.log.is_none());
        assert!(b.log.is_some());
        assert_eq!(a.reply.status, b.reply.status);
        assert_eq!(a.reply.headers, b.reply.headers);
        assert_eq!(a.reply.body, b.reply.body);
        assert_eq!(a.reply.delay_ms, b.reply.delay_ms);
    }
}

#[test]
fn the_log_entry_lies_under_path_and_method() {
    let state = AppState {
        routes: RouteTable::new(compile(vec![file(
            &["users", "[id]"],
            "POST.json",
            "---\nstatus: 201\n---\nmade",
        )])),
        request_logger: Some(RequestLogger::new("/tmp/log".to_string(), LogFormat::Json)),
    };
    let incoming = IncomingRequest {
        method: "POST".to_string(),
        uri: "/users/42?x=1".to_string(),
        path: "/users/42".to_string(),
        query: Some("x=1".to_string()),
        headers: vec![
            ("accept".to_string(), Some("*/*".to_string())),
            ("x-raw".to_string(), None),
        ],
        body: Some(vec![b'h', b'i', 0xff]),
    };
    let handled = handle_request(&state, &incoming);
    let entry = handled.log.unwrap();
    assert_eq!(entry.destination.directory, "/tmp/log/users/42/POST");
    assert_eq!(
        entry.destination.file_name,
        format!("{}_{}.json", entry.record.metadata.timestamp, entry.record.metadata.request_id)
    );
    assert_eq!(entry.format, LogFormat::Json);
    assert_eq!(entry.record.request.matched_route.as_deref(), Some("/users/:id"));
    assert_eq!(entry.record.request.path, "/users/42");
    assert_eq!(entry.record.request.uri, "/users/42?x=1");
    assert_eq!(entry.record.request.query.as_deref(), Some("x=1"));
    assert_eq!(entry.record.request.headers.get("accept").unwrap(), "*/*");
    assert_eq!(entry.record.request.headers.get("x-raw").unwrap(), "<binary>");
    assert_eq!(entry.record.request.body.as_deref(), Some("hi\u{fffd}"));
    assert_eq!(entry.record.response.status, handled.reply.status);
    assert_eq!(entry.record.response.status, 201);
    assert_eq!(entry.record.response.body, "made");
    assert_eq!(entry.record.response.headers.get("content-type").unwrap(), "application/json");
    assert_eq!(entry.record.metadata.request_id.len(), 26);
    let stamp = &entry.record.metadata.timestamp;
    assert_eq!(stamp.len(), 27);
    assert!(stamp.ends_with('Z'));
    assert!(!stamp.contains(':'));
    assert_eq!(&stamp[10..11], "T");
}

#[test]
fn the_root_path_is_logged_under_the_method_alone() {
    let logger = RequestLogger::new("logs".to_string(), LogFormat::Yaml);
    assert_eq!(logger.base_dir(), "logs");
    assert_eq!(logger.format(), LogFormat::Yaml);
    assert_eq!(LogFormat::Yaml.extension(), "yaml");
    assert_eq!(LogFormat::Json.extension(), "json");
    let info = extract_request_info("get", "/", "/", None, &vec![], Some(&vec![]));
    assert!(info.body.is_none());
    assert!(info.matched_route.is_none());
    let reply = not_found("get", "/");
    let record = assemble_logged_request(
        info,
        response_info(&reply),
        None,
        "2024-01-02T03-04-05.000006Z".to_string(),
        "01ARZ3NDEKTSV4RRFFQ69G5FAV".to_string(),
    );
    let destination = logger.destination(&record);
    assert_eq!(destination.directory, "logs/GET");
    assert_eq!(
        destination.file_name,
        "2024-01-02T03-04-05.000006Z_01ARZ3NDEKTSV4RRFFQ69G5FAV.yaml"
    );
    assert_eq!(record.response.status, 404);
    assert!(record.response.headers.is_empty());
    let info = extract_request_info("PUT", "///a//b", "///a//b", None, &vec![], None);
    let record = create_logged_request(info, response_info(&reply), Some("/a/b".to_string()));
    assert_eq!(logger.destination(&record).directory, "logs/a//b/PUT");
    assert_eq!(record.request.matched_route.as_deref(), Some("/a/b"));
}

#[test]
fn later_headers_replace_earlier_ones_in_the_log() {
    let headers = collect_headers(&vec![pair("a", "1"), pair("b", "2"), pair("a", "3")]);
    assert_eq!(headers.len(), 2);
    assert_eq!(headers.get("a").unwrap(), "3");
    assert_eq!(headers.name_at(0), "a");
    let content = "---\nheaders:\n  Content-Type: text/special\n  content-type: lower\n---\n";
    let routes = compile(vec![file(&[], "GET.json", content)]);
    let info = response_info(&from_route(&routes[0]));
    assert_eq!(info.headers.len(), 2);
    assert_eq!(info.headers.get("content-type").unwrap(), "lower");
    assert_eq!(info.headers.get("Content-Type").unwrap(), "text/special");
}

#[test]
fn two_records_get_different_identifiers() {
    let reply = method_not_allowed();
    let make = || {
        let info = extract_request_info("X", "/", "/", None, &vec![], None);
        create_logged_request(info, response_info(&reply), None)
    };
    let first = make();
    let second = make();
    assert_ne!(first.metadata.request_id, second.metadata.request_id);
    assert!(first.metadata.request_id.chars().all(|c| c.is_ascii_alphanumeric()));
}

#[test]
fn a_later_content_type_overrides_the_inferred_one() {
    let plain = compile(vec![file(&[], "GET.json", "x")]);
    let reply = from_route(&plain[0]);
    assert_eq!(reply.header("content-type").unwrap(), "application/json");
    assert!(reply.header("x-none").is_none());
    let content = "---\nheaders:\n  content-TYPE: text/special\n  X-A: one\n---\n";
    let routes = compile(vec![file(&[], "GET.json", content)]);
    let reply = from_route(&routes[0]);
    assert_eq!(reply.header("Content-Type").unwrap(), "text/special");
    assert_eq!(reply.header("x-a").unwrap(), "one");
    assert!(method_not_allowed().header("Content-Type").is_none());
}

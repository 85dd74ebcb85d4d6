use blendwerk::compiler::{
    compile_route, infer_content_type, parse_route_file, scan_directory, segment_from,
    split_file_name, CompileCause, SourceEntry, SourceFile,
};
use blendwerk::frontmatter::{FrontmatterError, ResponseMeta};
use blendwerk::routes::{HttpMethod, PathSegment, Route};

fn decode(yaml: &str) -> Result<ResponseMeta, String> {
    let value: serde_yaml::Value = serde_yaml::from_str(yaml).map_err(|e| e.to_string())?;
    let mut meta = ResponseMeta::default();
    if let Some(status) = value.get("status") {
        let number = status.as_u64().ok_or("status is no number")?;
        meta.status = u16::try_from(number).map_err(|e| e.to_string())?;
    }
    if let Some(delay) = value.get("delay") {
        meta.delay = delay.as_u64().ok_or("delay is no number")?;
    }
    Ok(meta)
}

fn file(directory: &[&str], name: &str, content: &str) -> SourceEntry {
    SourceEntry::File(SourceFile {
        directory: directory.iter().map(|s| s.to_string()).collect(),
        file_name: name.to_string(),
        content: Ok(content.to_string()),
    })
}

fn route(directory: &[&str], name: &str) -> Route {
    let listing = vec![file(directory, name, "ok")];
    scan_directory(&listing, decode).unwrap().remove(0)
}

#[test]
fn test_scan_simple_directory() {
    let listing = vec![
        file(&["api"], "GET.json", "---\nstatus: 200\n---\n{\"message\": \"hello\"}"),
        file(&["api"], "post.json", "{\"created\": true}"),
    ];
    let routes = scan_directory(&listing, decode).unwrap();
    assert_eq!(routes.len(), 2);
    assert!(routes.iter().any(|r| r.method == HttpMethod::Get && r.display_path() == "/api"));
    assert!(routes.iter().any(|r| r.method == HttpMethod::Post && r.display_path() == "/api"));
}

#[test]
fn test_content_type_inference() {
    let listing = vec![
        file(&[], "GET.json", "{}"),
        file(&[], "POST.html", "<html></html>"),
        file(&[], "PUT.txt", "text"),
    ];
    let routes = scan_directory(&listing, decode).unwrap();
    let json_route = routes
        .iter()
        .find(|r| r.method == HttpMethod::Get && r.display_path() == "/")
        .unwrap();
    assert_eq!(json_route.content_type, "application/json");
    let html_route = routes
        .iter()
        .find(|r| r.method == HttpMethod::Post && r.display_path() == "/")
        .unwrap();
    assert_eq!(html_route.content_type, "text/html");
    let txt_route = routes
        .iter()
        .find(|r| r.method == HttpMethod::Put && r.display_path() == "/")
        .unwrap();
    assert_eq!(txt_route.content_type, "text/plain");
}

#[test]
fn test_path_parameters() {
    let listing = vec![file(&["users", "[id]"], "GET.json", "{\"user\": \"test\"}")];
    let routes = scan_directory(&listing, decode).unwrap();
    assert_eq!(routes.len(), 1);
    let route = routes
        .iter()
        .find(|r| r.method == HttpMethod::Get && r.display_path() == "/users/:id")
        .unwrap();
    assert_eq!(route.display_path(), "/users/:id");
    assert!(route.matches("/users/123"));
    assert!(route.matches("/users/abc"));
    assert!(!route.matches("/users"));
    assert!(!route.matches("/users/123/extra"));
}

#[test]
fn every_method_is_named_in_any_case() {
    assert_eq!(HttpMethod::from_str("get"), Some(HttpMethod::Get));
    assert_eq!(HttpMethod::from_str("Post"), Some(HttpMethod::Post));
    assert_eq!(HttpMethod::from_str("PUT"), Some(HttpMethod::Put));
    assert_eq!(HttpMethod::from_str("dElEtE"), Some(HttpMethod::Delete));
    assert_eq!(HttpMethod::from_str("patch"), Some(HttpMethod::Patch));
    assert_eq!(HttpMethod::from_str("HEAD"), Some(HttpMethod::Head));
    assert_eq!(HttpMethod::from_str("options"), Some(HttpMethod::Options));
    assert_eq!(HttpMethod::from_str("connect"), None);
    assert_eq!(HttpMethod::from_str(""), None);
    assert_eq!(HttpMethod::from_str("get "), None);
    assert_eq!(HttpMethod::from_exact_name("GET"), Some(HttpMethod::Get));
    assert_eq!(HttpMethod::from_exact_name("get"), None);
    assert_eq!(HttpMethod::Options.as_str(), "OPTIONS");
    assert_eq!(HttpMethod::Patch.as_str(), "PATCH");
}

#[test]
fn file_names_are_cut_at_the_last_dot() {
    let cases = [
        ("GET.json", "GET", "json"),
        ("GET", "GET", ""),
        (".json", ".json", ""),
        ("GET.", "GET", ""),
        ("a.b.json", "a.b", "json"),
        ("..", "..", ""),
        ("..x", ".", "x"),
        ("", "", ""),
    ];
    for (name, stem, extension) in cases {
        let (s, e) = split_file_name(name);
        assert_eq!((s.as_str(), e.as_str()), (stem, extension), "{:?}", name);
        let path = std::path::Path::new(name);
        let std_stem = path.file_stem().and_then(|s| s.to_str()).unwrap_or("");
        let std_extension = path.extension().and_then(|s| s.to_str()).unwrap_or("");
        if !name.is_empty() && name != ".." {
            assert_eq!((std_stem, std_extension), (stem, extension), "std on {:?}", name);
        }
    }
}

#[test]
fn content_types_follow_the_extension_in_any_case() {
    assert_eq!(infer_content_type("json"), "application/json");
    assert_eq!(infer_content_type("JSON"), "application/json");
    assert_eq!(infer_content_type("html"), "text/html");
    assert_eq!(infer_content_type("htm"), "text/html");
    assert_eq!(infer_content_type("xml"), "application/xml");
    assert_eq!(infer_content_type("txt"), "text/plain");
    assert_eq!(infer_content_type("css"), "text/css");
    assert_eq!(infer_content_type("Js"), "application/javascript");
    assert_eq!(infer_content_type("png"), "application/octet-stream");
    assert_eq!(infer_content_type(""), "application/octet-stream");
}

#[test]
fn brackets_make_a_dynamic_segment() {
    assert!(matches!(segment_from("[id]"), PathSegment::Dynamic(name) if name == "id"));
    assert!(matches!(segment_from("[]"), PathSegment::Dynamic(name) if name.is_empty()));
    assert!(matches!(segment_from("["), PathSegment::Static(text) if text == "["));
    assert!(matches!(segment_from("[id"), PathSegment::Static(text) if text == "[id"));
    assert!(matches!(segment_from("Users"), PathSegment::Static(text) if text == "Users"));
}

#[test]
fn files_without_a_method_name_are_no_routes() {
    let listing = vec![
        file(&[], "README.md", "---\nnever closed"),
        file(&["api"], "GET.json", "{}"),
        SourceEntry::File(SourceFile {
            directory: vec![],
            file_name: "notes.txt".to_string(),
            content: Err("unreadable".to_string()),
        }),
    ];
    let routes = scan_directory(&listing, decode).unwrap();
    assert_eq!(routes.len(), 1);
    assert_eq!(routes[0].display_path(), "/api");
}

#[test]
fn the_first_failure_stops_the_compilation() {
    let listing = vec![
        file(&["a"], "GET.json", "{}"),
        file(&["b", "c"], "POST.json", "---\nstatus: 1\n"),
        SourceEntry::Failure { path: "d".to_string(), cause: "denied".to_string() },
    ];
    let error = scan_directory(&listing, decode).unwrap_err();
    assert_eq!(error.path, "b/c/POST.json");
    assert!(matches!(
        error.cause,
        CompileCause::Frontmatter(FrontmatterError::MissingClosingDelimiter)
    ));

    let listing = vec![
        SourceEntry::Failure { path: "d".to_string(), cause: "denied".to_string() },
        file(&["b"], "POST.json", "---\nstatus: 1\n"),
    ];
    let error = scan_directory(&listing, decode).unwrap_err();
    assert_eq!(error.path, "d");
    assert!(matches!(error.cause, CompileCause::Traversal(cause) if cause == "denied"));

    let unreadable = SourceFile {
        directory: vec!["x".to_string()],
        file_name: "GET.txt".to_string(),
        content: Err("gone".to_string()),
    };
    let error = parse_route_file(&unreadable, &decode).unwrap_err();
    assert_eq!(error.path, "x/GET.txt");
    assert!(matches!(error.cause, CompileCause::Read(cause) if cause == "gone"));
}

#[test]
fn a_refused_header_stops_the_compilation_with_the_path() {
    let listing = vec![file(&[], "GET.json", "---\nstatus: many\n---\n{}")];
    let error = scan_directory(&listing, decode).unwrap_err();
    assert_eq!(error.path, "GET.json");
    assert!(matches!(
        error.cause,
        CompileCause::Frontmatter(FrontmatterError::InvalidYaml(_))
    ));
}

#[test]
fn compile_route_takes_the_answer_as_it_is() {
    let source = SourceFile {
        directory: vec!["v1".to_string(), "[item]".to_string()],
        file_name: "Delete.XML".to_string(),
        content: Ok("---\nanything\n---\ngone".to_string()),
    };
    let mut meta = ResponseMeta::default();
    meta.status = 204;
    meta.delay = 5;
    let route = compile_route(&source, Some(Ok(meta))).unwrap().unwrap();
    assert_eq!(route.method, HttpMethod::Delete);
    assert_eq!(route.display_path(), "/v1/:item");
    assert_eq!(route.content_type, "application/xml");
    assert_eq!(route.response.meta.status, 204);
    assert_eq!(route.response.meta.delay, 5);
    assert_eq!(route.response.body, "gone");
    let copy = route.clone();
    assert_eq!(copy.display_path(), "/v1/:item");
    assert_eq!(copy.response.body, "gone");
}

#[test]
fn the_root_route_matches_every_path_without_tokens() {
    let root = route(&[], "GET.txt");
    assert_eq!(root.display_path(), "/");
    assert!(root.matches("/"));
    assert!(root.matches(""));
    assert!(root.matches("///"));
    assert!(!root.matches("/a"));
}

#[test]
fn slashes_around_and_between_tokens_do_not_count() {
    let users = route(&["users", "[id]"], "GET.txt");
    assert!(users.matches("users/7"));
    assert!(users.matches("//users//7//"));
    assert!(!users.matches("/Users/7"));
    assert!(!users.matches("/users/"));
    assert!(!users.matches("/users/7/8"));
}

#[test]
fn two_compilations_of_one_listing_agree() {
    let listing = vec![
        file(&["users", "me"], "GET.json", "static"),
        file(&["users", "[id]"], "GET.json", "dynamic"),
    ];
    let first = scan_directory(&listing, decode).unwrap();
    let second = scan_directory(&listing, decode).unwrap();
    assert_eq!(first.len(), second.len());
    for (a, b) in first.iter().zip(second.iter()) {
        assert_eq!(a.method, b.method);
        assert_eq!(a.display_path(), b.display_path());
        assert_eq!(a.response.body, b.response.body);
    }
}

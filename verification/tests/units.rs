use tiny_rust_server::classify::{check_static_request, extension_of, is_static_file};
use tiny_rust_server::guess;
use tiny_rust_server::guess_utils;
use tiny_rust_server::method::{Method, MethodKind};
use tiny_rust_server::request::{split_header_line, Request};
use tiny_rust_server::response::Response;
use tiny_rust_server::strutil::{lowercase, str_eq, str_starts_with, usize_to_string};
use tiny_rust_server::trie::Trie;

#[test]
fn method_from_str_accepts_the_four_methods() {
    assert!(matches!(Method::from_str("GET"), Some(Method::GET(_))));
    assert!(matches!(Method::from_str("POST"), Some(Method::POST(_))));
    assert!(matches!(Method::from_str("PUT"), Some(Method::PUT(_))));
    assert!(matches!(Method::from_str("DELETE"), Some(Method::DELETE(_))));
}

#[test]
fn method_from_str_rejects_other_tokens() {
    assert!(Method::from_str("PATCH").is_none());
    assert!(Method::from_str("get").is_none());
    assert!(Method::from_str("GET ").is_none());
    assert!(Method::from_str("").is_none());
}

#[test]
fn method_default_is_get() {
    assert!(matches!(Method::default(), Method::GET(_)));
    assert_eq!(Method::default().kind_of(), MethodKind::Get);
}

#[test]
fn method_str_vec_lists_the_four_names() {
    assert_eq!(Method::get_str_vec(), vec!["GET", "POST", "PUT", "DELETE"]);
}

#[test]
fn str_helpers_behave() {
    assert!(str_eq("abc", "abc"));
    assert!(!str_eq("abc", "abd"));
    assert!(!str_eq("abc", "ab"));
    assert!(str_starts_with("GET /x", "GET"));
    assert!(!str_starts_with("GE", "GET"));
    assert_eq!(lowercase("AbC-Z"), "abc-z");
    assert_eq!(usize_to_string(0), "0");
    assert_eq!(usize_to_string(12345), "12345");
}

#[test]
fn extension_of_finds_the_final_extension() {
    assert_eq!(extension_of("/a/b.txt"), Some(String::from("txt")));
    assert_eq!(extension_of("/a/b.tar.gz"), Some(String::from("gz")));
    assert_eq!(extension_of("/a/."), None);
    assert_eq!(extension_of("/a/.bashrc"), None);
    assert_eq!(extension_of("/a.b/c"), None);
    assert_eq!(extension_of("name."), Some(String::from("")));
    assert_eq!(extension_of("/"), None);
    assert_eq!(extension_of(""), None);
}

#[test]
fn is_static_file_is_case_insensitive() {
    assert!(is_static_file("html"));
    assert!(is_static_file("HTML"));
    assert!(is_static_file("Jpeg"));
    assert!(is_static_file("ico"));
    assert!(!is_static_file("txt"));
    assert!(!is_static_file(""));
}

#[test]
fn classification_rewrites_static_paths() {
    let mut request = Request {
        method: Method::default(),
        path: String::from("/style.CSS"),
        headers: Vec::new(),
        static_request_data: None,
    };
    check_static_request(&mut request);
    assert_eq!(request.path, "/static");
    let data = request.static_request_data.expect("static metadata");
    assert_eq!(data.path, Some(String::from("/style.CSS")));
}

#[test]
fn classification_rewrites_the_bare_root() {
    let mut request = Request {
        method: Method::default(),
        path: String::from("/"),
        headers: Vec::new(),
        static_request_data: None,
    };
    check_static_request(&mut request);
    assert_eq!(request.path, "/static");
    let data = request.static_request_data.expect("static metadata");
    assert_eq!(data.path, None);
}

#[test]
fn classification_leaves_dynamic_paths_alone() {
    let mut request = Request {
        method: Method::default(),
        path: String::from("/api/data"),
        headers: Vec::new(),
        static_request_data: None,
    };
    check_static_request(&mut request);
    assert_eq!(request.path, "/api/data");
    assert!(request.static_request_data.is_none());
}

#[test]
fn builtin_mime_table_maps_known_extensions() {
    assert_eq!(guess::guess_mime_type("html"), "text/html");
    assert_eq!(guess::guess_mime_type("HTML"), "text/html");
    assert_eq!(guess::guess_mime_type("css"), "text/css");
    assert_eq!(guess::guess_mime_type("js"), "text/javascript");
    assert_eq!(guess::guess_mime_type("png"), "image/png");
    assert_eq!(guess::guess_mime_type("jpg"), "image/jpeg");
    assert_eq!(guess::guess_mime_type("jpeg"), "image/jpeg");
    assert_eq!(guess::guess_mime_type("gif"), "image/gif");
    assert_eq!(guess::guess_mime_type("ico"), "image/x-icon");
    assert_eq!(guess::guess_mime_type("weird"), "text/plain");
}

#[test]
fn crate_backed_mime_guess_maps_extensions() {
    assert_eq!(guess_utils::guess_mime_type("html"), "text/html");
    assert_eq!(guess_utils::guess_mime_type("png"), "image/png");
    assert_eq!(guess_utils::guess_mime_type("qqqzzz"), "text/plain");
}

#[test]
fn split_header_line_needs_exactly_one_separator() {
    assert_eq!(
        split_header_line("Host: example"),
        Some((String::from("Host"), String::from("example")))
    );
    assert_eq!(split_header_line("a: b: c"), None);
    assert_eq!(split_header_line("no separator"), None);
    assert_eq!(split_header_line(""), None);
}

#[test]
fn parser_reads_method_path_and_headers() {
    let lines = vec![
        String::from("GET /hello HTTP/1.1"),
        String::from("Host: example"),
        String::from("Accept: text/plain"),
    ];
    let request = Request::get_request_struct(lines);
    assert!(matches!(request.method, Method::GET(_)));
    assert_eq!(request.path, "/hello");
    assert_eq!(
        request.headers,
        vec![
            (String::from("Host"), String::from("example")),
            (String::from("Accept"), String::from("text/plain")),
        ]
    );
}

#[test]
fn parser_stops_on_a_malformed_method_token() {
    let lines = vec![
        String::from("GETX /x HTTP/1.1"),
        String::from("Host: example"),
    ];
    let request = Request::get_request_struct(lines);
    assert!(matches!(request.method, Method::GET(_)));
    assert_eq!(request.path, "");
    assert!(request.headers.is_empty());
}

#[test]
fn parser_ignores_unsplittable_lines() {
    let lines = vec![
        String::from("POST /send HTTP/1.1"),
        String::from("garbage"),
        String::from("Key: value"),
    ];
    let request = Request::get_request_struct(lines);
    assert!(matches!(request.method, Method::POST(_)));
    assert_eq!(request.path, "/send");
    assert_eq!(request.headers, vec![(String::from("Key"), String::from("value"))]);
}

#[test]
fn response_defaults_to_empty_success() {
    let response = Response::new();
    assert_eq!(response.status_code, 200);
    assert_eq!(response.status_message, "OK");
    assert!(response.content_type.is_none());
    assert!(response.content.is_none());
}

#[test]
fn response_setters_store_their_fields() {
    let mut response = Response::new();
    response.set_status(404, "Not Found");
    assert_eq!(response.status_code, 404);
    assert_eq!(response.status_message, "Not Found");
    response.set_status_code(500);
    assert_eq!(response.status_code, 500);
    response.set_status_message("Server Error");
    assert_eq!(response.status_message, "Server Error");
    response.set_contents("text/plain", "body");
    assert_eq!(response.content_type, Some(String::from("text/plain")));
    assert_eq!(response.content, Some(String::from("body")));
    response.set_content_type("text/html");
    assert_eq!(response.content_type, Some(String::from("text/html")));
    response.set_content("other");
    assert_eq!(response.content, Some(String::from("other")));
}

#[test]
fn render_without_content_is_just_the_status_line() {
    let response = Response::new();
    assert_eq!(response.render(), "HTTP/1.1 200 OK\r\n\r\n");
}

#[test]
fn render_with_content_carries_both_headers() {
    let mut response = Response::new();
    response.set_contents("text/plain", "Hello");
    assert_eq!(
        response.render(),
        "HTTP/1.1 200 OK\r\nContent-Type: text/plain\r\nContent-Length: 5\r\n\r\nHello"
    );
}

#[test]
fn render_guesses_a_type_from_the_content_when_none_is_set() {
    let mut response = Response::new();
    response.set_content("some body");
    assert_eq!(
        response.render(),
        "HTTP/1.1 200 OK\r\nContent-Type: text/plain\r\nContent-Length: 9\r\n\r\nsome body"
    );
}

#[test]
fn trie_search_matches_only_exact_keys() {
    let mut trie = Trie::new();
    trie.insert("/hello", 1u32);
    assert_eq!(trie.search("/hello"), Some(&1));
    assert_eq!(trie.search("/hel"), None);
    assert_eq!(trie.search("/hello/"), None);
    assert_eq!(trie.search("/hellox"), None);
    assert_eq!(trie.search("hello"), None);
    assert_eq!(trie.search("ello"), None);
    assert_eq!(trie.search(""), None);
}

#[test]
fn trie_insert_overwrites_and_take_removes() {
    let mut trie = Trie::new();
    trie.insert("/a", 1u32);
    trie.insert("/a", 2u32);
    assert_eq!(trie.search("/a"), Some(&2));
    assert_eq!(trie.take("/a"), Some(2));
    assert_eq!(trie.search("/a"), None);
    assert_eq!(trie.take("/a"), None);
}

#[test]
fn trie_keeps_siblings_apart() {
    let mut trie = Trie::new();
    trie.insert("/ab", 1u32);
    trie.insert("/ac", 2u32);
    trie.insert("/a", 3u32);
    assert_eq!(trie.search("/ab"), Some(&1));
    assert_eq!(trie.search("/ac"), Some(&2));
    assert_eq!(trie.search("/a"), Some(&3));
}

#[test]
fn parser_keeps_the_last_value_of_a_repeated_header() {
    let lines = vec![
        String::from("GET / HTTP/1.1"),
        String::from("K: one"),
        String::from("Other: x"),
        String::from("K: two"),
    ];
    let request = Request::get_request_struct(lines);
    assert_eq!(
        request.headers,
        vec![
            (String::from("K"), String::from("two")),
            (String::from("Other"), String::from("x")),
        ]
    );
}

#[test]
fn set_header_replaces_in_place_or_appends() {
    let mut request = Request {
        method: Method::default(),
        path: String::from("/"),
        headers: Vec::new(),
        static_request_data: None,
    };
    request.set_header(String::from("A"), String::from("1"));
    request.set_header(String::from("B"), String::from("2"));
    request.set_header(String::from("A"), String::from("3"));
    assert_eq!(
        request.headers,
        vec![
            (String::from("A"), String::from("3")),
            (String::from("B"), String::from("2")),
        ]
    );
}

use tiny_rust_server::dispatch::dispatch;
use tiny_rust_server::method::{Method, MethodKind};
use tiny_rust_server::middleware::{Middleware, MiddlewareStep};
use tiny_rust_server::request::{ReqView, Request};
use tiny_rust_server::response::{RespView, Response};
use tiny_rust_server::route::Handler;
use tiny_rust_server::router::{RouteError, Router};
use tiny_rust_server::static_files::{
    get_first_html_file_name, read_file_with_extension, serve_static_request, FileReader,
    SpecNames, SpecText, StaticAdapter,
};

/// An in-memory filesystem for the static adapter.
struct MemReader {
    files: Vec<(String, String)>,
    dirs: Vec<(String, Vec<String>)>,
}

impl FileReader for MemReader {
    // The spec-level models are ghost code; they are erased in compiled form
    // and only their signatures remain to be filled in.
    fn read_model(self, _path: SpecText) -> Option<SpecText> {
        None
    }

    fn list_model(self, _path: SpecText) -> Option<SpecNames> {
        None
    }

    fn read_file(&self, path: &str) -> Option<String> {
        for (p, c) in &self.files {
            if p == path {
                return Some(c.clone());
            }
        }
        None
    }

    fn list_dir(&self, path: &str) -> Option<Vec<String>> {
        for (p, names) in &self.dirs {
            if p == path {
                return Some(names.clone());
            }
        }
        None
    }
}

/// A handler for the tests: either a canned dynamic handler or the static
/// adapter.
enum TestHandler {
    Hello,
    Static(StaticAdapter<MemReader>),
}

impl Handler for TestHandler {
    // The spec-level model is ghost code; it is erased in compiled form and
    // only its signature remains to be filled in.
    fn model(self, _req: ReqView, resp: RespView) -> RespView {
        resp
    }

    fn handle(&self, request: &Request, response: &mut Response) {
        match self {
            TestHandler::Hello => {
                response.set_contents("text/plain", "Hello");
            },
            TestHandler::Static(adapter) => adapter.handle(request, response),
        }
    }
}

/// A middleware step that records its tag and how many headers it saw.
struct TraceStep {
    tag: String,
}

impl MiddlewareStep for TraceStep {
    // The spec-level model is ghost code; it is erased in compiled form and
    // only its signature remains to be filled in.
    fn model(self, r: ReqView) -> ReqView {
        r
    }

    fn step(&self, _prev: Option<&Middleware<TraceStep>>, request: &mut Request) {
        let seen = request.headers.len();
        request.headers.push((self.tag.clone(), seen.to_string()));
    }
}

fn plain_request(method: Method, path: &str) -> Request {
    Request {
        method,
        path: String::from(path),
        headers: Vec::new(),
        static_request_data: None,
    }
}

#[test]
fn registration_then_lookup_returns_the_handler() {
    let mut router: Router<u32, TraceStep> = Router::new("");
    assert_eq!(router.route("/x", "GET", 7), Ok(()));
    let request = plain_request(Method::default(), "/x");
    let route = router.find_route(&request).expect("route");
    assert_eq!(route.handler_for(MethodKind::Get), Some(&7));
    assert_eq!(route.handler_for(MethodKind::Post), None);
}

#[test]
fn duplicate_registration_fails_without_mutating() {
    let mut router: Router<u32, TraceStep> = Router::new("");
    assert_eq!(router.route("/x", "GET", 7), Ok(()));
    assert_eq!(router.route("/x", "GET", 9), Err(RouteError::DuplicateRoute));
    let request = plain_request(Method::default(), "/x");
    let route = router.find_route(&request).expect("route");
    assert_eq!(route.handler_for(MethodKind::Get), Some(&7));
}

#[test]
fn one_path_can_carry_several_methods() {
    let mut router: Router<u32, TraceStep> = Router::new("");
    assert_eq!(router.route("/x", "GET", 1), Ok(()));
    assert_eq!(router.route("/x", "POST", 2), Ok(()));
    let request = plain_request(Method::default(), "/x");
    let route = router.find_route(&request).expect("route");
    assert_eq!(route.handler_for(MethodKind::Get), Some(&1));
    assert_eq!(route.handler_for(MethodKind::Post), Some(&2));
}

#[test]
fn unsupported_method_is_rejected() {
    let mut router: Router<u32, TraceStep> = Router::new("");
    assert_eq!(router.route("/x", "PATCH", 7), Err(RouteError::UnsupportedMethod));
    let request = plain_request(Method::default(), "/x");
    assert!(router.find_route(&request).is_none());
}

#[test]
fn the_static_path_is_reserved() {
    let mut router: Router<u32, TraceStep> = Router::new("");
    assert_eq!(router.route("/static", "GET", 7), Err(RouteError::ReservedPath));
    let request = plain_request(Method::default(), "/static");
    assert!(router.find_route(&request).is_none());
}

#[test]
fn the_base_path_prefixes_registrations() {
    let mut router: Router<u32, TraceStep> = Router::new("/api");
    assert_eq!(router.route("/x", "GET", 7), Ok(()));
    let request = plain_request(Method::default(), "/api/x");
    assert!(router.find_route(&request).is_some());
    let bare = plain_request(Method::default(), "/x");
    assert!(router.find_route(&bare).is_none());
}

#[test]
fn middleware_runs_once_each_in_registration_order() {
    let mut router: Router<u32, TraceStep> = Router::new("");
    router.middleware(TraceStep { tag: String::from("first") });
    router.middleware(TraceStep { tag: String::from("second") });
    router.middleware(TraceStep { tag: String::from("third") });
    let mut request = plain_request(Method::default(), "/x");
    router.execute_middleware(&mut request);
    assert_eq!(
        request.headers,
        vec![
            (String::from("first"), String::from("0")),
            (String::from("second"), String::from("1")),
            (String::from("third"), String::from("2")),
        ]
    );
}

#[test]
fn hello_scenario_yields_the_exact_wire_text() {
    let mut router: Router<TestHandler, TraceStep> = Router::new("");
    assert_eq!(router.route("/hello", "GET", TestHandler::Hello), Ok(()));
    let mut request = plain_request(Method::from_str("GET").unwrap(), "/hello");
    let response = dispatch(&router, &mut request);
    assert_eq!(response.status_code, 200);
    assert_eq!(response.content_type, Some(String::from("text/plain")));
    assert_eq!(response.content, Some(String::from("Hello")));
    assert_eq!(
        response.render(),
        "HTTP/1.1 200 OK\r\nContent-Type: text/plain\r\nContent-Length: 5\r\n\r\nHello"
    );
}

#[test]
fn root_scenario_serves_the_first_html_file() {
    let reader = MemReader {
        files: vec![(String::from("public/index.html"), String::from("<h1>Hi</h1>"))],
        dirs: vec![(String::from("public"), vec![String::from("index.html")])],
    };
    let adapter = StaticAdapter { root: String::from("public"), reader };
    let mut router: Router<TestHandler, TraceStep> = Router::new("");
    assert_eq!(router.register_static(TestHandler::Static(adapter)), Ok(()));
    let mut request = plain_request(Method::from_str("GET").unwrap(), "/");
    let response = dispatch(&router, &mut request);
    assert_eq!(request.path, "/static");
    assert_eq!(response.status_code, 200);
    assert_eq!(response.content_type, Some(String::from("text/html")));
    assert_eq!(response.content, Some(String::from("<h1>Hi</h1>")));
}

#[test]
fn static_sub_resource_is_resolved_under_the_root() {
    let reader = MemReader {
        files: vec![(String::from("public//style.css"), String::from("body {}"))],
        dirs: Vec::new(),
    };
    let adapter = StaticAdapter { root: String::from("public"), reader };
    let mut router: Router<TestHandler, TraceStep> = Router::new("");
    assert_eq!(router.register_static(TestHandler::Static(adapter)), Ok(()));
    let mut request = plain_request(Method::from_str("GET").unwrap(), "/style.css");
    let response = dispatch(&router, &mut request);
    assert_eq!(request.path, "/static");
    assert_eq!(response.content_type, Some(String::from("text/css")));
    assert_eq!(response.content, Some(String::from("body {}")));
}

#[test]
fn missing_static_file_yields_not_found() {
    let reader = MemReader { files: Vec::new(), dirs: Vec::new() };
    let adapter = StaticAdapter { root: String::from("public"), reader };
    let mut router: Router<TestHandler, TraceStep> = Router::new("");
    assert_eq!(router.register_static(TestHandler::Static(adapter)), Ok(()));
    let mut request = plain_request(Method::from_str("GET").unwrap(), "/missing.png");
    let response = dispatch(&router, &mut request);
    assert_eq!(response.status_code, 404);
    assert_eq!(response.status_message, "Not Found");
    assert!(response.content.is_none());
}

#[test]
fn missing_route_yields_the_default_empty_success() {
    let router: Router<TestHandler, TraceStep> = Router::new("");
    let mut request = plain_request(Method::from_str("GET").unwrap(), "/missing");
    let response = dispatch(&router, &mut request);
    assert_eq!(request.path, "/missing");
    assert_eq!(response.status_code, 200);
    assert_eq!(response.status_message, "OK");
    assert!(response.content_type.is_none());
    assert!(response.content.is_none());
    assert_eq!(response.render(), "HTTP/1.1 200 OK\r\n\r\n");
}

#[test]
fn route_found_but_method_unsupported_skips_the_handler() {
    let mut router: Router<TestHandler, TraceStep> = Router::new("");
    assert_eq!(router.route("/hello", "GET", TestHandler::Hello), Ok(()));
    let mut request = plain_request(Method::from_str("POST").unwrap(), "/hello");
    let response = dispatch(&router, &mut request);
    assert_eq!(response.status_code, 200);
    assert!(response.content.is_none());
}

#[test]
fn serve_static_without_metadata_leaves_the_response_alone() {
    let reader = MemReader { files: Vec::new(), dirs: Vec::new() };
    let request = plain_request(Method::default(), "/x");
    let mut response = Response::new();
    serve_static_request(&reader, "public", &request, &mut response);
    assert_eq!(response.status_code, 200);
    assert!(response.content.is_none());
}

#[test]
fn first_html_file_is_picked_in_listing_order() {
    let names = vec![
        String::from("a.txt"),
        String::from("b.html"),
        String::from("c.html"),
    ];
    assert_eq!(
        get_first_html_file_name(&names),
        Some((String::from("b.html"), String::from("html")))
    );
    let none = vec![String::from("a.txt")];
    assert_eq!(get_first_html_file_name(&none), None);
}

#[test]
fn file_contents_are_decoded_and_labelled() {
    let (contents, label) = read_file_with_extension("x.css", b"body {}".to_vec());
    assert_eq!(contents, "body {}");
    assert_eq!(label, "css");
    let (plain, other) = read_file_with_extension("notes", b"text".to_vec());
    assert_eq!(plain, "text");
    assert_eq!(other, "plain");
    let (js, jslabel) = read_file_with_extension("a.js", b"1;".to_vec());
    assert_eq!(js, "1;");
    assert_eq!(jslabel, "javascript");
    let bom = vec![0xEF, 0xBB, 0xBF, b'h', b'i'];
    let (decoded, html) = read_file_with_extension("x.html", bom);
    assert_eq!(decoded, "hi");
    assert_eq!(html, "html");
}

/// A middleware step that records the path it saw, then rewrites it.
struct RewriteStep {
    to: String,
}

impl MiddlewareStep for RewriteStep {
    // The spec-level model is ghost code; it is erased in compiled form and
    // only its signature remains to be filled in.
    fn model(self, r: ReqView) -> ReqView {
        r
    }

    fn step(&self, _prev: Option<&Middleware<RewriteStep>>, request: &mut Request) {
        request.headers.push((String::from("saw"), request.path.clone()));
        request.path = self.to.clone();
    }
}

#[test]
fn pipeline_classifies_then_mutates_then_routes() {
    let mut router: Router<TestHandler, RewriteStep> = Router::new("");
    assert_eq!(router.route("/target", "GET", TestHandler::Hello), Ok(()));
    router.middleware(RewriteStep { to: String::from("/target") });
    let mut request = plain_request(Method::from_str("GET").unwrap(), "/pic.png");
    let response = dispatch(&router, &mut request);
    // Classification saw the static extension first, so the middleware saw
    // the rewritten "/static" path; its own rewrite then decided the lookup.
    assert_eq!(request.headers, vec![(String::from("saw"), String::from("/static"))]);
    assert_eq!(request.path, "/target");
    assert_eq!(response.content, Some(String::from("Hello")));
}

#[test]
fn static_registration_ignores_the_base_path() {
    let reader = MemReader {
        files: vec![(String::from("public//logo.png"), String::from("png-bytes"))],
        dirs: Vec::new(),
    };
    let adapter = StaticAdapter { root: String::from("public"), reader };
    let mut router: Router<TestHandler, TraceStep> = Router::new("/api");
    assert_eq!(router.register_static(TestHandler::Static(adapter)), Ok(()));
    // Classification rewrites to the literal "/static", so the adapter must
    // stand there even on a router with a base path.
    let mut request = plain_request(Method::from_str("GET").unwrap(), "/logo.png");
    let response = dispatch(&router, &mut request);
    assert_eq!(request.path, "/static");
    assert_eq!(response.content, Some(String::from("png-bytes")));
}

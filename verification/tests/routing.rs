use mini_http::parser::parse_request;
use mini_http::request::{Header, Method, Request, Version};
use mini_http::response::{Body, ContentType, Response, Status};
use mini_http::router::{find_header, route, Route};

fn get(path: &str, headers: Vec<Header>) -> Request {
    Request {
        method: Method::Get,
        path: path.to_string(),
        version: Version::Http11,
        headers,
        body: vec![],
    }
}

fn post(path: &str, body: &[u8]) -> Request {
    Request {
        method: Method::Post,
        path: path.to_string(),
        version: Version::Http11,
        headers: vec![],
        body: body.to_vec(),
    }
}

fn named(name: &str, value: &str) -> Header {
    Header { name: name.to_string(), value: value.to_string() }
}

fn text(bytes: &[u8]) -> Route {
    Route::Reply(Response {
        status: Status::Success,
        body: Some(Body { content_type: ContentType::TextPlain, bytes: bytes.to_vec() }),
    })
}

fn not_found() -> Route {
    Route::Reply(Response { status: Status::NotFound, body: None })
}

#[test]
fn root_is_ok_without_body() {
    assert_eq!(
        route(&get("/", vec![]), None),
        Route::Reply(Response { status: Status::Success, body: None })
    );
    assert_eq!(
        route(&post("/", b"x"), Some("/tmp")),
        Route::Reply(Response { status: Status::Success, body: None })
    );
}

#[test]
fn echo_returns_the_rest_of_the_path() {
    assert_eq!(route(&get("/echo/abc", vec![]), None), text(b"abc"));
    assert_eq!(route(&get("/echo/a/b/c", vec![]), None), text(b"a/b/c"));
    assert_eq!(route(&get("/echo/echo/", vec![]), None), text(b"echo/"));
}

#[test]
fn echo_of_nothing_is_an_empty_text() {
    assert_eq!(route(&get("/echo/", vec![]), None), text(b""));
}

#[test]
fn echo_counts_bytes_not_characters() {
    let reply = route(&get("/echo/\u{20ac}\u{e9}", vec![]), None);
    assert_eq!(reply, text(&[0xe2, 0x82, 0xac, 0xc3, 0xa9]));
    let mut expected =
        b"HTTP/1.1 200 OK\r\nContent-Type: text/plain\r\nContent-Length: 5\r\n\r\n".to_vec();
    expected.extend_from_slice(&[0xe2, 0x82, 0xac, 0xc3, 0xa9]);
    match reply {
        Route::Reply(response) => assert_eq!(response.to_bytes(), expected),
        Route::File { .. } => panic!("echo is no file"),
    }
}

#[test]
fn echo_without_its_slash_is_unknown() {
    assert_eq!(route(&get("/echo", vec![]), None), not_found());
    assert_eq!(route(&get("/echoes/abc", vec![]), None), not_found());
}

#[test]
fn user_agent_is_reflected() {
    let request =
        get("/user-agent", vec![named("Host", "x"), named("User-Agent", "test-client/1.0")]);
    assert_eq!(route(&request, None), text(b"test-client/1.0"));
}

#[test]
fn user_agent_first_of_several_wins() {
    let request = get(
        "/user-agent",
        vec![
            named("Accept", "*/*"),
            named("User-Agent", "first"),
            named("User-Agent", "second"),
        ],
    );
    assert_eq!(route(&request, None), text(b"first"));
}

#[test]
fn user_agent_name_is_matched_with_its_case() {
    let request = get(
        "/user-agent",
        vec![
            named("user-agent", "lower"),
            named("USER-AGENT", "upper"),
            named("User-agent", "mixed"),
            named("User-Agent", "exact"),
        ],
    );
    assert_eq!(route(&request, None), text(b"exact"));
    let request = get("/user-agent", vec![named("user-agent", "lower")]);
    assert_eq!(route(&request, None), text(b""));
}

#[test]
fn user_agent_absent_is_an_empty_text() {
    let reply = route(&get("/user-agent", vec![named("Host", "x")]), None);
    assert_eq!(reply, text(b""));
    match reply {
        Route::Reply(response) => assert_eq!(
            response.to_bytes(),
            b"HTTP/1.1 200 OK\r\nContent-Type: text/plain\r\nContent-Length: 0\r\n\r\n".to_vec()
        ),
        Route::File { .. } => panic!("user-agent is no file"),
    }
}

#[test]
fn user_agent_path_is_exact() {
    assert_eq!(route(&get("/user-agent/", vec![named("User-Agent", "x")]), None), not_found());
    assert_eq!(route(&get("/User-Agent", vec![named("User-Agent", "x")]), None), not_found());
}

#[test]
fn find_header_returns_the_first_value() {
    let headers = vec![named("A", "1"), named("B", "2"), named("A", "3")];
    assert_eq!(find_header(&headers, "A"), Some("1"));
    assert_eq!(find_header(&headers, "B"), Some("2"));
    assert_eq!(find_header(&headers, "a"), None);
    assert_eq!(find_header(&vec![], "A"), None);
}

#[test]
fn files_join_directory_and_name() {
    assert_eq!(
        route(&get("/files/foo.txt", vec![]), Some("/tmp/data")),
        Route::File { method: Method::Get, target: "/tmp/data/foo.txt".to_string() }
    );
    assert_eq!(
        route(&post("/files/bar.txt", b"hello"), Some("/tmp/data")),
        Route::File { method: Method::Post, target: "/tmp/data/bar.txt".to_string() }
    );
}

#[test]
fn files_join_with_exactly_one_separator() {
    assert_eq!(
        route(&get("/files/a/b", vec![]), Some("/srv/")),
        Route::File { method: Method::Get, target: "/srv//a/b".to_string() }
    );
    assert_eq!(
        route(&get("/files/", vec![]), Some("dir")),
        Route::File { method: Method::Get, target: "dir/".to_string() }
    );
}

#[test]
fn files_keep_the_name_as_it_is() {
    assert_eq!(
        route(&get("/files/../secret", vec![]), Some("/srv")),
        Route::File { method: Method::Get, target: "/srv/../secret".to_string() }
    );
}

#[test]
fn files_without_directory_are_not_found() {
    assert_eq!(route(&get("/files/foo.txt", vec![]), None), not_found());
    assert_eq!(route(&post("/files/foo.txt", b"hello"), None), not_found());
    assert_eq!(route(&get("/files/", vec![]), None), not_found());
}

#[test]
fn unknown_paths_are_not_found_for_any_method() {
    for path in ["/nope", "/files", "/echo", "//", "/Echo/abc", "/index.html", "/files.txt"] {
        assert_eq!(route(&get(path, vec![]), None), not_found());
        assert_eq!(route(&post(path, b"x"), Some("/tmp")), not_found());
    }
}

#[test]
fn parsed_request_is_routed() {
    let request = parse_request(b"GET /echo/abc HTTP/1.1\r\nHost: x\r\n\r\n").unwrap();
    assert_eq!(route(&request, None), text(b"abc"));
}

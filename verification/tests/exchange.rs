use mini_http::connection::{handle_files, open, respond_to, step, Action, Event, State, WINDOW};
use mini_http::request::Method;

/// Runs an exchange over `events` and gives the state it ends in, all that
/// it sent, and all that it stored.
fn run(directory: Option<&str>, events: Vec<Event>) -> (State, Vec<u8>, Vec<u8>) {
    let (mut state, first) = open(directory.map(|d| d.to_string()));
    assert_eq!(first, Action::Receive { limit: 1024 });
    let mut sent = Vec::new();
    let mut stored = Vec::new();
    for event in events {
        let (next, action) = step(state, event);
        state = next;
        match action {
            Action::Stream { bytes, limit } => {
                assert_eq!(limit, 1024);
                sent.extend_from_slice(&bytes);
            }
            Action::Store { bytes, limit } => {
                assert_eq!(limit, 1024);
                stored.extend_from_slice(&bytes);
            }
            Action::Finish { bytes } => sent.extend_from_slice(&bytes),
            Action::Receive { .. } => {}
            Action::Size { .. } | Action::Open { .. } | Action::Create { .. } => {}
        }
    }
    (state, sent, stored)
}

/// The header block of a file of `length` bytes, written out.
fn file_head(length: u64) -> Vec<u8> {
    format!(
        "HTTP/1.1 200 OK\r\nContent-Type: application/octet-stream\r\nContent-Length: {}\r\n\r\n",
        length
    )
    .into_bytes()
}

fn answer(input: &[u8], directory: Option<&str>) -> Vec<u8> {
    let (state, sent, stored) = run(directory, vec![Event::Received(input.to_vec())]);
    assert_eq!(state, State::Closed);
    assert_eq!(stored, Vec::<u8>::new());
    sent
}

#[test]
fn window_is_1024_bytes() {
    assert_eq!(WINDOW, 1024);
}

#[test]
fn exchange_opens_with_one_read() {
    assert_eq!(
        open(Some("/srv".to_string())),
        (State::Reading { directory: Some("/srv".to_string()) }, Action::Receive { limit: 1024 })
    );
    assert_eq!(open(None), (State::Reading { directory: None }, Action::Receive { limit: 1024 }));
}

#[test]
fn scenario_root() {
    assert_eq!(answer(b"GET / HTTP/1.1\r\n\r\n", None), b"HTTP/1.1 200 OK\r\n\r\n".to_vec());
}

#[test]
fn scenario_echo() {
    assert_eq!(
        answer(b"GET /echo/abc HTTP/1.1\r\n\r\n", None),
        b"HTTP/1.1 200 OK\r\nContent-Type: text/plain\r\nContent-Length: 3\r\n\r\nabc".to_vec()
    );
}

#[test]
fn scenario_user_agent() {
    assert_eq!(
        answer(b"GET /user-agent HTTP/1.1\r\nUser-Agent: test-client/1.0\r\n\r\n", None),
        b"HTTP/1.1 200 OK\r\nContent-Type: text/plain\r\nContent-Length: 15\r\n\r\ntest-client/1.0"
            .to_vec()
    );
}

#[test]
fn scenario_file_get() {
    let request = b"GET /files/foo.txt HTTP/1.1\r\n\r\n".to_vec();
    let reading = State::Reading { directory: Some("/data".to_string()) };
    let (state, action) = step(reading, Event::Received(request));
    assert_eq!(state, State::Sizing { target: "/data/foo.txt".to_string() });
    assert_eq!(action, Action::Size { target: "/data/foo.txt".to_string() });
    let (state, action) = step(state, Event::Sized(Some(5)));
    assert_eq!(state, State::Opening { length: 5 });
    assert_eq!(action, Action::Open { target: "/data/foo.txt".to_string() });
    let (state, action) = step(state, Event::Opened(true));
    assert_eq!(state, State::Streaming);
    assert_eq!(
        action,
        Action::Stream {
            bytes: file_head(5),
            limit: 1024,
        }
    );
    let (state, action) = step(state, Event::Chunk(Some(b"hello".to_vec())));
    assert_eq!(state, State::Streaming);
    assert_eq!(action, Action::Stream { bytes: b"hello".to_vec(), limit: 1024 });
    let (state, action) = step(state, Event::Chunk(Some(vec![])));
    assert_eq!(state, State::Closed);
    assert_eq!(action, Action::Finish { bytes: vec![] });
}

#[test]
fn scenario_file_get_whole_output() {
    let (state, sent, stored) = run(
        Some("/data"),
        vec![
            Event::Received(b"GET /files/foo.txt HTTP/1.1\r\n\r\n".to_vec()),
            Event::Sized(Some(5)),
            Event::Opened(true),
            Event::Chunk(Some(b"hello".to_vec())),
            Event::Chunk(Some(vec![])),
        ],
    );
    assert_eq!(state, State::Closed);
    assert_eq!(
        sent,
        [file_head(5), b"hello".to_vec()].concat()
    );
    assert_eq!(stored, Vec::<u8>::new());
}

#[test]
fn scenario_file_get_missing() {
    let (state, sent, stored) = run(
        Some("/data"),
        vec![Event::Received(b"GET /files/foo.txt HTTP/1.1\r\n\r\n".to_vec()), Event::Sized(None)],
    );
    assert_eq!(state, State::Closed);
    assert_eq!(sent, b"HTTP/1.1 404 NOT FOUND\r\n\r\n".to_vec());
    assert_eq!(stored, Vec::<u8>::new());
}

#[test]
fn scenario_file_post() {
    let request = b"POST /files/bar.txt HTTP/1.1\r\nContent-Length: 5\r\n\r\nhello".to_vec();
    let reading = State::Reading { directory: Some("/data".to_string()) };
    let (state, action) = step(reading, Event::Received(request));
    assert_eq!(state, State::Creating { body: b"hello".to_vec() });
    assert_eq!(action, Action::Create { target: "/data/bar.txt".to_string() });
    let (state, action) = step(state, Event::Opened(true));
    assert_eq!(state, State::Draining);
    assert_eq!(action, Action::Store { bytes: b"hello".to_vec(), limit: 1024 });
    let (state, action) = step(state, Event::Drained(None));
    assert_eq!(state, State::Closed);
    assert_eq!(action, Action::Finish { bytes: b"HTTP/1.1 201 CREATED\r\n\r\n".to_vec() });
}

#[test]
fn scenario_file_post_whole_output() {
    let (state, sent, stored) = run(
        Some("/data"),
        vec![
            Event::Received(
                b"POST /files/bar.txt HTTP/1.1\r\nContent-Length: 5\r\n\r\nhello".to_vec(),
            ),
            Event::Opened(true),
            Event::Drained(Some(vec![])),
        ],
    );
    assert_eq!(state, State::Closed);
    assert_eq!(sent, b"HTTP/1.1 201 CREATED\r\n\r\n".to_vec());
    assert_eq!(stored, b"hello".to_vec());
}

#[test]
fn scenario_not_found() {
    assert_eq!(
        answer(b"GET /nope HTTP/1.1\r\n\r\n", None),
        b"HTTP/1.1 404 NOT FOUND\r\n\r\n".to_vec()
    );
}

#[test]
fn unknown_path_is_not_found_for_post_too() {
    assert_eq!(
        answer(b"POST /nope HTTP/1.1\r\n\r\nbody", Some("/data")),
        b"HTTP/1.1 404 NOT FOUND\r\n\r\n".to_vec()
    );
}

#[test]
fn files_without_directory_are_not_found_for_get_and_post() {
    assert_eq!(
        answer(b"GET /files/foo.txt HTTP/1.1\r\n\r\n", None),
        b"HTTP/1.1 404 NOT FOUND\r\n\r\n".to_vec()
    );
    assert_eq!(
        answer(b"POST /files/foo.txt HTTP/1.1\r\n\r\nhello", None),
        b"HTTP/1.1 404 NOT FOUND\r\n\r\n".to_vec()
    );
}

#[test]
fn what_is_no_request_gets_no_response() {
    assert_eq!(answer(b"", None), Vec::<u8>::new());
    assert_eq!(answer(b"GET / HTTP/1.1\r\n", None), Vec::<u8>::new());
    assert_eq!(answer(b"DELETE / HTTP/1.1\r\n\r\n", None), Vec::<u8>::new());
    assert_eq!(answer(b"GET /\xff HTTP/1.1\r\n\r\n", None), Vec::<u8>::new());
    assert_eq!(answer(b"GET nope HTTP/1.1\r\n\r\n", None), Vec::<u8>::new());
    assert_eq!(answer(&[0u8; 1024], Some("/data")), Vec::<u8>::new());
}

#[test]
fn echo_of_a_long_text() {
    let text = "x".repeat(900);
    let input = format!("GET /echo/{} HTTP/1.1\r\n\r\n", text);
    let expected = format!(
        "HTTP/1.1 200 OK\r\nContent-Type: text/plain\r\nContent-Length: 900\r\n\r\n{}",
        text
    );
    assert_eq!(answer(input.as_bytes(), None), expected.into_bytes());
}

#[test]
fn echo_with_a_space_is_no_request() {
    assert_eq!(answer(b"GET /echo/a b HTTP/1.1\r\n\r\n", None), Vec::<u8>::new());
}

#[test]
fn echo_may_hold_a_carriage_return() {
    assert_eq!(
        answer(b"GET /echo/a\rb HTTP/1.1\r\n\r\n", None),
        b"HTTP/1.1 200 OK\r\nContent-Type: text/plain\r\nContent-Length: 3\r\n\r\na\rb".to_vec()
    );
}

#[test]
fn file_is_streamed_chunk_by_chunk() {
    let first = vec![7u8; 1024];
    let second = vec![9u8; 300];
    let (state, sent, stored) = run(
        Some("/data"),
        vec![
            Event::Received(b"GET /files/big HTTP/1.1\r\n\r\n".to_vec()),
            Event::Sized(Some(1324)),
            Event::Opened(true),
            Event::Chunk(Some(first.clone())),
            Event::Chunk(Some(second.clone())),
            Event::Chunk(Some(vec![])),
        ],
    );
    let mut expected = file_head(1324);
    expected.extend_from_slice(&first);
    expected.extend_from_slice(&second);
    assert_eq!(state, State::Closed);
    assert_eq!(sent, expected);
    assert_eq!(stored, Vec::<u8>::new());
}

#[test]
fn empty_file_is_a_head_with_length_zero() {
    let (state, sent, _) = run(
        Some("/data"),
        vec![
            Event::Received(b"GET /files/empty HTTP/1.1\r\n\r\n".to_vec()),
            Event::Sized(Some(0)),
            Event::Opened(true),
            Event::Chunk(Some(vec![])),
        ],
    );
    assert_eq!(state, State::Closed);
    assert_eq!(
        sent,
        file_head(0)
    );
}

#[test]
fn file_that_cannot_be_opened_is_not_found() {
    let (state, sent, _) = run(
        Some("/data"),
        vec![
            Event::Received(b"GET /files/foo HTTP/1.1\r\n\r\n".to_vec()),
            Event::Sized(Some(5)),
            Event::Opened(false),
        ],
    );
    assert_eq!(state, State::Closed);
    assert_eq!(sent, b"HTTP/1.1 404 NOT FOUND\r\n\r\n".to_vec());
}

#[test]
fn read_error_in_the_stream_sends_not_found_after_the_head() {
    let (state, sent, _) = run(
        Some("/data"),
        vec![
            Event::Received(b"GET /files/foo HTTP/1.1\r\n\r\n".to_vec()),
            Event::Sized(Some(5)),
            Event::Opened(true),
            Event::Chunk(Some(b"he".to_vec())),
            Event::Chunk(None),
        ],
    );
    assert_eq!(state, State::Closed);
    assert_eq!(
        sent,
        [file_head(5), b"he".to_vec(), b"HTTP/1.1 404 NOT FOUND\r\n\r\n".to_vec()].concat()
    );
}

#[test]
fn file_that_cannot_be_created_is_not_found() {
    let (state, sent, stored) = run(
        Some("/data"),
        vec![
            Event::Received(b"POST /files/foo HTTP/1.1\r\n\r\nhello".to_vec()),
            Event::Opened(false),
        ],
    );
    assert_eq!(state, State::Closed);
    assert_eq!(sent, b"HTTP/1.1 404 NOT FOUND\r\n\r\n".to_vec());
    assert_eq!(stored, Vec::<u8>::new());
}

#[test]
fn drained_bytes_follow_the_body_in_the_file() {
    let (state, sent, stored) = run(
        Some("/data"),
        vec![
            Event::Received(b"POST /files/foo HTTP/1.1\r\n\r\nhel".to_vec()),
            Event::Opened(true),
            Event::Drained(Some(b"lo ".to_vec())),
            Event::Drained(Some(b"world".to_vec())),
            Event::Drained(None),
        ],
    );
    assert_eq!(state, State::Closed);
    assert_eq!(sent, b"HTTP/1.1 201 CREATED\r\n\r\n".to_vec());
    assert_eq!(stored, b"hello world".to_vec());
}

#[test]
fn post_without_body_creates_an_empty_file() {
    let (state, action) = respond_to(b"POST /files/foo HTTP/1.1\r\n\r\n", Some("/data"));
    assert_eq!(state, State::Creating { body: vec![] });
    assert_eq!(action, Action::Create { target: "/data/foo".to_string() });
    let (state, action) = step(state, Event::Opened(true));
    assert_eq!(state, State::Draining);
    assert_eq!(action, Action::Store { bytes: vec![], limit: 1024 });
}

#[test]
fn respond_to_settles_plain_routes_at_once() {
    assert_eq!(
        respond_to(b"GET / HTTP/1.1\r\n\r\n", None),
        (State::Closed, Action::Finish { bytes: b"HTTP/1.1 200 OK\r\n\r\n".to_vec() })
    );
    assert_eq!(respond_to(b"junk", None), (State::Closed, Action::Finish { bytes: vec![] }));
}

#[test]
fn handle_files_goes_by_the_method() {
    assert_eq!(
        handle_files(Method::Get, "/data/a".to_string(), b"ignored".to_vec()),
        (
            State::Sizing { target: "/data/a".to_string() },
            Action::Size { target: "/data/a".to_string() }
        )
    );
    assert_eq!(
        handle_files(Method::Post, "/data/a".to_string(), b"kept".to_vec()),
        (
            State::Creating { body: b"kept".to_vec() },
            Action::Create { target: "/data/a".to_string() }
        )
    );
}

#[test]
fn event_out_of_turn_ends_the_exchange() {
    let drop = (State::Closed, Action::Finish { bytes: vec![] });
    assert_eq!(step(State::Reading { directory: None }, Event::Opened(true)), drop);
    assert_eq!(step(State::Sizing { target: "a".to_string() }, Event::Opened(true)), drop);
    assert_eq!(step(State::Opening { length: 1 }, Event::Sized(Some(1))), drop);
    assert_eq!(step(State::Streaming, Event::Drained(None)), drop);
    assert_eq!(step(State::Creating { body: vec![1] }, Event::Chunk(None)), drop);
    assert_eq!(step(State::Draining, Event::Chunk(Some(vec![1]))), drop);
    assert_eq!(step(State::Draining, Event::Received(b"GET / HTTP/1.1\r\n\r\n".to_vec())), drop);
}

#[test]
fn closed_stays_closed() {
    let drop = (State::Closed, Action::Finish { bytes: vec![] });
    assert_eq!(step(State::Closed, Event::Received(b"GET / HTTP/1.1\r\n\r\n".to_vec())), drop);
    assert_eq!(step(State::Closed, Event::Opened(true)), drop);
    assert_eq!(step(State::Closed, Event::Chunk(None)), drop);
}

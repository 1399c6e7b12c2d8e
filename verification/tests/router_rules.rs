use http_server::headers::HttpRequestHeaderParser;
use http_server::request::{parse_request, HttpRequestBody};
use http_server::router::{
    endpoint_get_echo, endpoint_get_files, endpoint_get_user_agent, endpoint_post_files,
    file_read_outcome, file_write_after_probe, file_write_outcome, handle_request, route,
    storage_path, Action, Event, Exchange, Route, StoreOutcome,
};
use http_server::vocabulary::HttpMethod;
use std::collections::BTreeMap;

const ROOT: &str = "/tmp/data/";

fn bytes_of(action: Action) -> Vec<u8> {
    match action {
        Action::Respond(bytes) => bytes,
        other => panic!("no response: {:?}", other),
    }
}

fn is_finished(state: &Exchange) -> bool {
    matches!(state, Exchange::Finished)
}

/// Runs one exchange against a store that is held in memory.
fn serve(raw: &[u8], store: &mut BTreeMap<String, Vec<u8>>) -> Vec<u8> {
    let mut state = Exchange::new();
    let mut event = Event::RequestReceived(raw.to_vec());
    loop {
        let (next, action) = state.advance(event, ROOT);
        state = next;
        event = match action {
            Action::Respond(bytes) => {
                assert!(is_finished(&state));
                return bytes;
            }
            Action::ReadFile(place) => Event::FileContent(store.get(&place).cloned()),
            Action::ProbeFile(place) => Event::FileProbed(store.contains_key(&place)),
            Action::CreateFile(place, content) => {
                if store.contains_key(&place) {
                    Event::FileStored(StoreOutcome::CreateFailed)
                } else {
                    store.insert(place, content);
                    Event::FileStored(StoreOutcome::Stored)
                }
            }
            Action::Close => panic!("closed without a response"),
        };
    }
}

fn answer(raw: &[u8]) -> Vec<u8> {
    serve(raw, &mut BTreeMap::new())
}

#[test]
fn routes_follow_the_table() {
    assert_eq!(route(HttpMethod::GET, "/"), Route::Root);
    assert_eq!(route(HttpMethod::GET, "/echo/abc"), Route::Echo);
    assert_eq!(route(HttpMethod::GET, "/echo/"), Route::Echo);
    assert_eq!(route(HttpMethod::GET, "/user-agent"), Route::UserAgent);
    assert_eq!(route(HttpMethod::GET, "/files/a"), Route::FileRead);
    assert_eq!(route(HttpMethod::GET, "/files/"), Route::FileRead);
    assert_eq!(route(HttpMethod::POST, "/files/a"), Route::FileWrite);
}

#[test]
fn anything_else_is_not_found() {
    assert_eq!(route(HttpMethod::GET, ""), Route::NotFound);
    assert_eq!(route(HttpMethod::GET, "/echo"), Route::NotFound);
    assert_eq!(route(HttpMethod::GET, "/files"), Route::NotFound);
    assert_eq!(route(HttpMethod::GET, "/user-agent/"), Route::NotFound);
    assert_eq!(route(HttpMethod::GET, "/User-Agent"), Route::NotFound);
    assert_eq!(route(HttpMethod::GET, "/other"), Route::NotFound);
    assert_eq!(route(HttpMethod::GET, "//"), Route::NotFound);
    assert_eq!(route(HttpMethod::POST, "/"), Route::NotFound);
    assert_eq!(route(HttpMethod::POST, "/echo/abc"), Route::NotFound);
    assert_eq!(route(HttpMethod::POST, "/user-agent"), Route::NotFound);
    assert_eq!(route(HttpMethod::PUT, "/files/a"), Route::NotFound);
    assert_eq!(route(HttpMethod::DELETE, "/files/a"), Route::NotFound);
    assert_eq!(route(HttpMethod::PUT, "/"), Route::NotFound);
    assert_eq!(route(HttpMethod::DELETE, "/echo/x"), Route::NotFound);
}

#[test]
fn get_root_returns_200_with_nothing() {
    assert_eq!(answer(b"GET / HTTP/1.1\r\n\r\n"), b"HTTP/1.1 200 OK\r\n\r\n");
    assert_eq!(
        answer(b"GET / HTTP/1.1\r\nHost: x\r\nUser-Agent: y\r\nContent-Type: text/plain\r\n\r\nbody"),
        b"HTTP/1.1 200 OK\r\n\r\n"
    );
    assert_eq!(answer(b"GET / HTTP/1.1"), b"HTTP/1.1 200 OK\r\n\r\n");
}

#[test]
fn get_echo_returns_the_rest_of_the_path() {
    assert_eq!(
        answer(b"GET /echo/abc/def HTTP/1.1\r\n\r\n"),
        b"HTTP/1.1 200 OK\r\nContent-Type: text/plain\r\nContent-Length: 7\r\n\r\nabc/def"
    );
    assert_eq!(
        answer(b"GET /echo/abc HTTP/1.1\r\nHost: localhost\r\n\r\n"),
        b"HTTP/1.1 200 OK\r\nContent-Type: text/plain\r\nContent-Length: 3\r\n\r\nabc"
    );
    assert_eq!(
        answer(b"GET /echo/ HTTP/1.1\r\n\r\n"),
        b"HTTP/1.1 200 OK\r\nContent-Type: text/plain\r\nContent-Length: 0\r\n\r\n"
    );
    assert_eq!(
        answer(b"GET /echo//a/ HTTP/1.1\r\n\r\n"),
        b"HTTP/1.1 200 OK\r\nContent-Type: text/plain\r\nContent-Length: 3\r\n\r\n/a/"
    );
}

#[test]
fn get_echo_counts_the_bytes_of_the_value() {
    assert_eq!(
        answer("GET /echo/é HTTP/1.1\r\n\r\n".as_bytes()),
        "HTTP/1.1 200 OK\r\nContent-Type: text/plain\r\nContent-Length: 2\r\n\r\né".as_bytes()
    );
    assert_eq!(
        answer(b"GET /echo/\xff HTTP/1.1\r\n\r\n"),
        "HTTP/1.1 200 OK\r\nContent-Type: text/plain\r\nContent-Length: 3\r\n\r\n\u{fffd}".as_bytes()
    );
}

#[test]
fn get_echo_is_idempotent() {
    let raw = b"GET /echo/same HTTP/1.1\r\nHost: x\r\n\r\n";
    let first = answer(raw);
    let second = answer(raw);
    let third = answer(raw);
    assert_eq!(first, second);
    assert_eq!(second, third);
    assert_eq!(
        first,
        b"HTTP/1.1 200 OK\r\nContent-Type: text/plain\r\nContent-Length: 4\r\n\r\nsame"
    );
    assert_eq!(answer(b"GET /echo/same HTTP/1.1\r\nAccept: */*\r\n\r\nbody"), first);
    assert_eq!(endpoint_get_echo("/echo/same"), first);
    assert_eq!(endpoint_get_echo("/echo/same"), first);
}

#[test]
fn get_user_agent_returns_the_header() {
    assert_eq!(
        answer(b"GET /user-agent HTTP/1.1\r\nUser-Agent: xyz\r\n\r\n"),
        b"HTTP/1.1 200 OK\r\nContent-Type: text/plain\r\nContent-Length: 3\r\n\r\nxyz"
    );
    assert_eq!(
        answer(b"GET /user-agent HTTP/1.1\r\nHost: h\r\nuser-agent:   curl/8.0  \r\nAccept: */*\r\n\r\n"),
        b"HTTP/1.1 200 OK\r\nContent-Type: text/plain\r\nContent-Length: 8\r\n\r\ncurl/8.0"
    );
}

#[test]
fn get_user_agent_without_the_header_is_404() {
    assert_eq!(answer(b"GET /user-agent HTTP/1.1\r\n\r\n"), b"HTTP/1.1 404 Not Found\r\n\r\n");
    assert_eq!(
        answer(b"GET /user-agent HTTP/1.1\r\nHost: h\r\nUser-Agent:xyz\r\n\r\n"),
        b"HTTP/1.1 404 Not Found\r\n\r\n"
    );
}

#[test]
fn user_agent_handler_takes_the_first_header() {
    let mut headers = HttpRequestHeaderParser::new();
    headers.parse(&["User-Agent: one", "User-Agent: two"]);
    assert_eq!(
        endpoint_get_user_agent(&headers),
        b"HTTP/1.1 200 OK\r\nContent-Type: text/plain\r\nContent-Length: 3\r\n\r\none"
    );
    assert_eq!(
        endpoint_get_user_agent(&HttpRequestHeaderParser::new()),
        b"HTTP/1.1 404 Not Found\r\n\r\n"
    );
}

#[test]
fn version_1_0_is_refused_whatever_the_request() {
    let expected: &[u8] =
        b"HTTP/1.1 400 Bad Request\r\n\r\nthis server only supports HTTP version 1.1.";
    assert_eq!(answer(b"GET / HTTP/1.0\r\n\r\n"), expected);
    assert_eq!(answer(b"GET /echo/abc HTTP/1.0\r\n\r\n"), expected);
    assert_eq!(answer(b"GET /user-agent HTTP/1.0\r\nUser-Agent: x\r\n\r\n"), expected);
    assert_eq!(answer(b"GET /files/a HTTP/1.0\r\n\r\n"), expected);
    assert_eq!(
        answer(b"POST /files/a HTTP/1.0\r\nContent-Type: application/octet-stream\r\n\r\nx"),
        expected
    );
    assert_eq!(answer(b"PUT /nowhere HTTP/1.0\r\n\r\n"), expected);
    assert_eq!(answer(b"DELETE / HTTP/1.0\r\n\r\n"), expected);
}

#[test]
fn malformed_request_gets_400() {
    let expected: &[u8] = b"HTTP/1.1 400 Bad Request\r\n\r\n";
    assert_eq!(answer(b""), expected);
    assert_eq!(answer(b"GET /\r\n\r\n"), expected);
    assert_eq!(answer(b"PATCH / HTTP/1.1\r\n\r\n"), expected);
    assert_eq!(answer(b"GET / HTTP/2\r\n\r\n"), expected);
    assert_eq!(answer(b"GET / HTTP/1.1 more\r\n\r\n"), expected);
    assert_eq!(answer(&[0u8; 1024]), expected);
}

#[test]
fn unknown_route_gets_404() {
    let expected: &[u8] = b"HTTP/1.1 404 Not Found\r\n\r\n";
    assert_eq!(answer(b"GET /nothing HTTP/1.1\r\n\r\n"), expected);
    assert_eq!(answer(b"GET /echo HTTP/1.1\r\n\r\n"), expected);
    assert_eq!(answer(b"POST / HTTP/1.1\r\n\r\n"), expected);
    assert_eq!(answer(b"PUT /files/a HTTP/1.1\r\n\r\nx"), expected);
    assert_eq!(answer(b"DELETE /files/a HTTP/1.1\r\n\r\n"), expected);
}

#[test]
fn post_file_creates_it_and_second_post_conflicts() {
    let mut store = BTreeMap::new();
    let raw = b"POST /files/foo.bin HTTP/1.1\r\nContent-Type: application/octet-stream\r\nContent-Length: 5\r\n\r\nhello";
    assert_eq!(serve(raw, &mut store), b"HTTP/1.1 201 Created\r\n\r\n");
    assert_eq!(store.get("/tmp/data/foo.bin"), Some(&b"hello".to_vec()));
    assert_eq!(store.len(), 1);
    assert_eq!(serve(raw, &mut store), b"HTTP/1.1 409 Conflict\r\n\r\nfile already exists.");
    assert_eq!(store.get("/tmp/data/foo.bin"), Some(&b"hello".to_vec()));
    let other = b"POST /files/foo.bin HTTP/1.1\r\nContent-Type: application/octet-stream\r\n\r\nchanged";
    assert_eq!(serve(other, &mut store), b"HTTP/1.1 409 Conflict\r\n\r\nfile already exists.");
    assert_eq!(store.get("/tmp/data/foo.bin"), Some(&b"hello".to_vec()));
    assert_eq!(store.len(), 1);
}

#[test]
fn get_file_returns_what_was_posted() {
    let mut store = BTreeMap::new();
    let payload = [0u8, 1, 2, 255, 254, 13, 10, 13, 10, 65];
    let mut raw =
        b"POST /files/foo.bin HTTP/1.1\r\nContent-Type: application/octet-stream\r\n\r\n".to_vec();
    raw.extend_from_slice(&payload);
    assert_eq!(serve(&raw, &mut store), b"HTTP/1.1 201 Created\r\n\r\n");
    let mut expected =
        b"HTTP/1.1 200 OK\r\nContent-Type: application/octet-stream\r\nContent-Length: 10\r\n\r\n"
            .to_vec();
    expected.extend_from_slice(&payload);
    assert_eq!(serve(b"GET /files/foo.bin HTTP/1.1\r\n\r\n", &mut store), expected);
    assert_eq!(serve(b"GET /files/foo.bin HTTP/1.1\r\n\r\n", &mut store), expected);
}

#[test]
fn get_missing_file_is_404() {
    let mut store = BTreeMap::new();
    assert_eq!(
        serve(b"GET /files/none HTTP/1.1\r\n\r\n", &mut store),
        b"HTTP/1.1 404 Not Found\r\n\r\n"
    );
    assert!(store.is_empty());
}

#[test]
fn post_file_with_other_content_type_is_400() {
    let mut store = BTreeMap::new();
    assert_eq!(
        serve(b"POST /files/x HTTP/1.1\r\nContent-Type: text/plain\r\n\r\nhello", &mut store),
        b"HTTP/1.1 400 Bad Request\r\n\r\nunexpected content type"
    );
    assert_eq!(
        serve(b"POST /files/x HTTP/1.1\r\n\r\nhello", &mut store),
        b"HTTP/1.1 400 Bad Request\r\n\r\nunexpected content type"
    );
    assert_eq!(
        serve(b"POST /files/x HTTP/1.1\r\nContent-Type: image/png\r\n\r\nhello", &mut store),
        b"HTTP/1.1 400 Bad Request\r\n\r\nunexpected content type"
    );
    assert!(store.is_empty());
}

#[test]
fn post_file_with_other_content_type_asks_nothing_of_the_store() {
    let mut headers = HttpRequestHeaderParser::new();
    headers.parse(&["Content-Type: text/plain"]);
    let (state, action) =
        endpoint_post_files(ROOT, "/files/x", &headers, Some(HttpRequestBody::new(vec![1])));
    assert!(is_finished(&state));
    assert_eq!(bytes_of(action), b"HTTP/1.1 400 Bad Request\r\n\r\nunexpected content type");
}

#[test]
fn post_file_without_body_is_400() {
    let mut store = BTreeMap::new();
    assert_eq!(
        serve(b"POST /files/x HTTP/1.1\r\nContent-Type: application/octet-stream\r\n", &mut store),
        b"HTTP/1.1 400 Bad Request\r\n\r\nNo body provided"
    );
    assert!(store.is_empty());
}

#[test]
fn post_file_with_empty_body_creates_an_empty_file() {
    let mut store = BTreeMap::new();
    assert_eq!(
        serve(
            b"POST /files/empty HTTP/1.1\r\nContent-Type: application/octet-stream\r\n\r\n",
            &mut store
        ),
        b"HTTP/1.1 201 Created\r\n\r\n"
    );
    assert_eq!(store.get("/tmp/data/empty"), Some(&Vec::new()));
}

#[test]
fn conflict_is_checked_before_the_body() {
    let mut store = BTreeMap::new();
    store.insert("/tmp/data/x".to_string(), vec![1]);
    assert_eq!(
        serve(b"POST /files/x HTTP/1.1\r\nContent-Type: application/octet-stream\r\n", &mut store),
        b"HTTP/1.1 409 Conflict\r\n\r\nfile already exists."
    );
    assert_eq!(store.get("/tmp/data/x"), Some(&vec![1]));
}

#[test]
fn content_type_is_checked_before_the_store() {
    let mut store = BTreeMap::new();
    store.insert("/tmp/data/x".to_string(), vec![1]);
    assert_eq!(
        serve(b"POST /files/x HTTP/1.1\r\nContent-Type: text/plain\r\n\r\nhello", &mut store),
        b"HTTP/1.1 400 Bad Request\r\n\r\nunexpected content type"
    );
}

#[test]
fn post_file_steps_through_probe_and_store() {
    let mut headers = HttpRequestHeaderParser::new();
    headers.parse(&["Content-Type: application/octet-stream"]);
    let (state, action) =
        endpoint_post_files("dir/", "/files/a/b", &headers, Some(HttpRequestBody::new(vec![7, 8])));
    match action {
        Action::ProbeFile(place) => assert_eq!(place, "dir/a/b"),
        other => panic!("no probe: {:?}", other),
    }
    let (state, action) = state.advance(Event::FileProbed(false), "ignored");
    assert!(matches!(state, Exchange::AwaitingFileStore));
    match action {
        Action::CreateFile(place, content) => {
            assert_eq!(place, "dir/a/b");
            assert_eq!(content, vec![7, 8]);
        }
        other => panic!("no create: {:?}", other),
    }
    let (state, action) = state.advance(Event::FileStored(StoreOutcome::Stored), "ignored");
    assert!(is_finished(&state));
    assert_eq!(bytes_of(action), b"HTTP/1.1 201 Created\r\n\r\n");
}

#[test]
fn after_probe_decides_between_conflict_store_and_refusal() {
    let (state, action) =
        file_write_after_probe("p".to_string(), Some(HttpRequestBody::new(vec![1])), true);
    assert!(is_finished(&state));
    assert_eq!(bytes_of(action), b"HTTP/1.1 409 Conflict\r\n\r\nfile already exists.");
    let (state, action) = file_write_after_probe("p".to_string(), None, true);
    assert!(is_finished(&state));
    assert_eq!(bytes_of(action), b"HTTP/1.1 409 Conflict\r\n\r\nfile already exists.");
    let (state, action) = file_write_after_probe("p".to_string(), None, false);
    assert!(is_finished(&state));
    assert_eq!(bytes_of(action), b"HTTP/1.1 400 Bad Request\r\n\r\nNo body provided");
    let (state, action) =
        file_write_after_probe("p".to_string(), Some(HttpRequestBody::new(vec![1, 2])), false);
    assert!(matches!(state, Exchange::AwaitingFileStore));
    assert!(matches!(action, Action::CreateFile(place, content) if place == "p" && content == [1, 2]));
}

#[test]
fn store_failures_are_500() {
    assert_eq!(file_write_outcome(StoreOutcome::Stored), b"HTTP/1.1 201 Created\r\n\r\n");
    assert_eq!(
        file_write_outcome(StoreOutcome::CreateFailed),
        b"HTTP/1.1 500 Internal Server Error\r\n\r\nfailed to create file."
    );
    assert_eq!(
        file_write_outcome(StoreOutcome::WriteFailed),
        b"HTTP/1.1 500 Internal Server Error\r\n\r\nfailed to write to file."
    );
}

#[test]
fn failed_create_after_clean_probe_is_500() {
    let state = Exchange::new();
    let raw = b"POST /files/x HTTP/1.1\r\nContent-Type: application/octet-stream\r\n\r\nhello";
    let (state, _) = state.advance(Event::RequestReceived(raw.to_vec()), ROOT);
    let (state, _) = state.advance(Event::FileProbed(false), ROOT);
    let (state, action) = state.advance(Event::FileStored(StoreOutcome::CreateFailed), ROOT);
    assert!(is_finished(&state));
    assert_eq!(
        bytes_of(action),
        b"HTTP/1.1 500 Internal Server Error\r\n\r\nfailed to create file."
    );
}

#[test]
fn file_read_outcome_is_content_or_404() {
    assert_eq!(
        file_read_outcome(Some(vec![b'h', b'i'])),
        b"HTTP/1.1 200 OK\r\nContent-Type: application/octet-stream\r\nContent-Length: 2\r\n\r\nhi"
    );
    assert_eq!(
        file_read_outcome(Some(Vec::new())),
        b"HTTP/1.1 200 OK\r\nContent-Type: application/octet-stream\r\nContent-Length: 0\r\n\r\n"
    );
    assert_eq!(file_read_outcome(None), b"HTTP/1.1 404 Not Found\r\n\r\n");
}

#[test]
fn get_files_asks_for_the_file() {
    let (state, action) = endpoint_get_files("/srv/", "/files/a/b.txt");
    assert!(matches!(state, Exchange::AwaitingFileContent));
    assert!(matches!(action, Action::ReadFile(place) if place == "/srv/a/b.txt"));
}

#[test]
fn storage_path_joins_root_and_remainder_as_they_are() {
    assert_eq!(storage_path("/tmp/data/", "/files/foo.bin"), "/tmp/data/foo.bin");
    assert_eq!(storage_path("/tmp/data", "/files/foo.bin"), "/tmp/datafoo.bin");
    assert_eq!(storage_path("/tmp/data/", "/files/a/b/c"), "/tmp/data/a/b/c");
    assert_eq!(storage_path("/tmp/data/", "/files/../etc/passwd"), "/tmp/data/../etc/passwd");
    assert_eq!(storage_path("/tmp/data/", "/files//abs"), "/tmp/data//abs");
    assert_eq!(storage_path("/tmp/data/", "/files/a%20b"), "/tmp/data/a%20b");
    assert_eq!(storage_path("", "/files/x"), "x");
    assert_eq!(storage_path("/tmp/data/", "/files/"), "/tmp/data/");
}

#[test]
fn handle_request_takes_what_was_parsed() {
    let (state, action) = handle_request(parse_request(b"GET / HTTP/1.1\r\n\r\n"), ROOT);
    assert!(is_finished(&state));
    assert_eq!(bytes_of(action), b"HTTP/1.1 200 OK\r\n\r\n");
    let (state, action) = handle_request(None, ROOT);
    assert!(is_finished(&state));
    assert_eq!(bytes_of(action), b"HTTP/1.1 400 Bad Request\r\n\r\n");
    let (state, action) = handle_request(parse_request(b"GET /files/q HTTP/1.1\r\n\r\n"), ROOT);
    assert!(matches!(state, Exchange::AwaitingFileContent));
    assert!(matches!(action, Action::ReadFile(place) if place == "/tmp/data/q"));
}

#[test]
fn unexpected_event_closes_the_exchange() {
    let (state, action) = Exchange::new().advance(Event::FileProbed(true), ROOT);
    assert!(is_finished(&state));
    assert!(matches!(action, Action::Close));
    let (state, action) = Exchange::new().advance(Event::FileContent(None), ROOT);
    assert!(is_finished(&state));
    assert!(matches!(action, Action::Close));
    let (state, action) =
        Exchange::AwaitingFileContent.advance(Event::FileStored(StoreOutcome::Stored), ROOT);
    assert!(is_finished(&state));
    assert!(matches!(action, Action::Close));
    let (state, action) =
        Exchange::AwaitingFileStore.advance(Event::RequestReceived(b"GET / HTTP/1.1".to_vec()), ROOT);
    assert!(is_finished(&state));
    assert!(matches!(action, Action::Close));
}

#[test]
fn finished_exchange_stays_finished() {
    let (state, _) = Exchange::new().advance(Event::RequestReceived(b"GET / HTTP/1.1".to_vec()), ROOT);
    assert!(is_finished(&state));
    let (state, action) =
        state.advance(Event::RequestReceived(b"GET / HTTP/1.1".to_vec()), ROOT);
    assert!(is_finished(&state));
    assert!(matches!(action, Action::Close));
}

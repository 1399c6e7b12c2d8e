//! Routing: which handler answers a request, what each handler answers, and
//! the steps of one exchange between a connection and the file store.

use crate::headers::{
    lemma_lookup_trimmed, lookup, media_type_in, Header, HttpRequestHeaderParser,
};
use crate::request::{
    lemma_written_request_is_read, parse_request, request_of, written_request, HttpRequestBody,
    ParsedRequest, Request,
};
use crate::response::{
    body_headers, respond_bad_request, respond_byte_body, respond_conflict, respond_created,
    respond_internal_server_error, respond_not_found, respond_ok, respond_string_body,
    response_bytes, Status,
};
use crate::text::{
    after_two_segments, is_line, is_space, is_word, lemma_after_two_given_segments,
    skip_two_segments, starts_with, str_eq, trimmed,
};
use crate::vocabulary::{ContentType, HttpMethod, HttpRequestHeaders, HttpVersion, MediaType};
use vstd::prelude::*;
use vstd::utf8::encode_utf8;

verus! {

/// The handler that answers a request.
#[derive(Clone, Copy, Debug, PartialEq, Eq, Structural)]
pub enum Route {
    Root,
    Echo,
    UserAgent,
    FileRead,
    FileWrite,
    NotFound,
}

/// The route of a method and a path. The rules are tried in this order, and
/// the first that applies decides.
pub open spec fn route_of(method: HttpMethod, path: Seq<char>) -> Route {
    if method == HttpMethod::GET && path == "/"@ {
        Route::Root
    } else if method == HttpMethod::GET && "/echo/"@.is_prefix_of(path) {
        Route::Echo
    } else if method == HttpMethod::GET && path == "/user-agent"@ {
        Route::UserAgent
    } else if method == HttpMethod::GET && "/files/"@.is_prefix_of(path) {
        Route::FileRead
    } else if method == HttpMethod::POST && "/files/"@.is_prefix_of(path) {
        Route::FileWrite
    } else {
        Route::NotFound
    }
}

/// Finds the route of a method and a path.
pub fn route(method: HttpMethod, path: &str) -> (route: Route)
    ensures
        route == route_of(method, path@),
{
    if method == HttpMethod::GET && str_eq(path, "/") {
        Route::Root
    } else if method == HttpMethod::GET && starts_with(path, "/echo/") {
        Route::Echo
    } else if method == HttpMethod::GET && str_eq(path, "/user-agent") {
        Route::UserAgent
    } else if method == HttpMethod::GET && starts_with(path, "/files/") {
        Route::FileRead
    } else if method == HttpMethod::POST && starts_with(path, "/files/") {
        Route::FileWrite
    } else {
        Route::NotFound
    }
}

/// A response without headers that reports `status` and explains it in
/// `reason`.
pub open spec fn plain_response(status: Status, reason: Seq<char>) -> Seq<u8> {
    response_bytes(status, Seq::empty(), encode_utf8(reason))
}

/// A response without headers and without a body.
pub open spec fn bare_response(status: Status) -> Seq<u8> {
    response_bytes(status, Seq::empty(), Seq::empty())
}

/// The `200 OK` response that carries `body` as plain text, with its length
/// in bytes.
pub open spec fn text_response(body: Seq<char>) -> Seq<u8> {
    response_bytes(
        Status::Success,
        body_headers("text/plain"@, encode_utf8(body).len()),
        encode_utf8(body),
    )
}

/// The `200 OK` response that carries the bytes of a file.
pub open spec fn file_response(content: Seq<u8>) -> Seq<u8> {
    response_bytes(
        Status::Success,
        body_headers("application/octet-stream"@, content.len()),
        content,
    )
}

/// The place of a file in the store: the storage root, directly followed by
/// what the path holds after its first two segments. Nothing is decoded or
/// normalised.
pub open spec fn storage_place(storage_root: Seq<char>, path: Seq<char>) -> Seq<char> {
    storage_root + after_two_segments(path)
}

/// How an attempt to store a new file ended.
#[derive(Clone, Copy, Debug, PartialEq, Eq, Structural)]
pub enum StoreOutcome {
    /// The file was created and the whole body was written.
    Stored,
    /// The file could not be created.
    CreateFailed,
    /// The file was created, but the body could not be written.
    WriteFailed,
}

/// What the driver of a connection has to do next.
#[derive(Debug)]
pub enum Action {
    /// Send these bytes; the exchange is over.
    Respond(Vec<u8>),
    /// Read the whole file at this place and report its content.
    ReadFile(String),
    /// Report whether anything exists at this place.
    ProbeFile(String),
    /// Create a new file at this place, write these bytes to it, and report
    /// how that ended.
    CreateFile(String, Vec<u8>),
    /// Send nothing; the exchange is over.
    Close,
}

/// An [`Action`] as a mathematical value.
pub ghost enum ActionModel {
    Respond(Seq<u8>),
    ReadFile(Seq<char>),
    ProbeFile(Seq<char>),
    CreateFile(Seq<char>, Seq<u8>),
    Close,
}

impl View for Action {
    type V = ActionModel;

    open spec fn view(&self) -> ActionModel {
        match self {
            Action::Respond(bytes) => ActionModel::Respond(bytes@),
            Action::ReadFile(place) => ActionModel::ReadFile(place@),
            Action::ProbeFile(place) => ActionModel::ProbeFile(place@),
            Action::CreateFile(place, content) => ActionModel::CreateFile(place@, content@),
            Action::Close => ActionModel::Close,
        }
    }
}

/// What the driver of a connection reports.
#[derive(Debug)]
pub enum Event {
    /// These bytes arrived on the connection.
    RequestReceived(Vec<u8>),
    /// The file was read and held this; or it could not be read.
    FileContent(Option<Vec<u8>>),
    /// Something exists at the place that was probed, or nothing does.
    FileProbed(bool),
    /// The attempt to store a file ended so.
    FileStored(StoreOutcome),
}

/// An [`Event`] as a mathematical value.
pub ghost enum EventModel {
    RequestReceived(Seq<u8>),
    FileContent(Option<Seq<u8>>),
    FileProbed(bool),
    FileStored(StoreOutcome),
}

impl View for Event {
    type V = EventModel;

    open spec fn view(&self) -> EventModel {
        match self {
            Event::RequestReceived(raw) => EventModel::RequestReceived(raw@),
            Event::FileContent(Some(content)) => EventModel::FileContent(Some(content@)),
            Event::FileContent(None) => EventModel::FileContent(None),
            Event::FileProbed(exists) => EventModel::FileProbed(*exists),
            Event::FileStored(outcome) => EventModel::FileStored(*outcome),
        }
    }
}

/// The state of one exchange: what the server is waiting for.
#[derive(Debug)]
pub enum Exchange {
    /// Nothing has arrived yet.
    AwaitingRequest,
    /// A file was asked for; its content is awaited.
    AwaitingFileContent,
    /// A file is to be stored at `place`; whether something is there
    /// already is awaited.
    AwaitingFileProbe { place: String, body: Option<HttpRequestBody> },
    /// A file is being stored; the outcome is awaited.
    AwaitingFileStore,
    /// The exchange is over.
    Finished,
}

/// An [`Exchange`] as a mathematical value.
pub ghost enum ExchangeModel {
    AwaitingRequest,
    AwaitingFileContent,
    AwaitingFileProbe { place: Seq<char>, body: Option<Seq<u8>> },
    AwaitingFileStore,
    Finished,
}

impl View for Exchange {
    type V = ExchangeModel;

    open spec fn view(&self) -> ExchangeModel {
        match self {
            Exchange::AwaitingRequest => ExchangeModel::AwaitingRequest,
            Exchange::AwaitingFileContent => ExchangeModel::AwaitingFileContent,
            Exchange::AwaitingFileProbe { place, body: Some(body) } => {
                ExchangeModel::AwaitingFileProbe { place: place@, body: Some(body@) }
            },
            Exchange::AwaitingFileProbe { place, body: None } => {
                ExchangeModel::AwaitingFileProbe { place: place@, body: None }
            },
            Exchange::AwaitingFileStore => ExchangeModel::AwaitingFileStore,
            Exchange::Finished => ExchangeModel::Finished,
        }
    }
}

/// What the echo handler answers: the path without its first two segments,
/// as plain text.
pub open spec fn echo_response(path: Seq<char>) -> Seq<u8> {
    text_response(after_two_segments(path))
}

/// What the user-agent handler answers: the value of the `User-Agent`
/// header as plain text, or `404 Not Found` where the request has none.
pub open spec fn user_agent_response(headers: Seq<Header>) -> Seq<u8> {
    match lookup(headers, HttpRequestHeaders::UserAgent) {
        Some(agent) => text_response(agent),
        None => bare_response(Status::NotFound),
    }
}

/// How the handler for storing a file begins. A request that does not
/// declare the content type `application/octet-stream` is refused at once;
/// for any other, the store is probed first.
pub open spec fn file_write_start(
    storage_root: Seq<char>,
    path: Seq<char>,
    headers: Seq<Header>,
    body: Option<Seq<u8>>,
) -> (ExchangeModel, ActionModel) {
    if media_type_in(headers) != Some(MediaType::ApplicationOctetStream) {
        (
            ExchangeModel::Finished,
            ActionModel::Respond(plain_response(Status::BadRequest, "unexpected content type"@)),
        )
    } else {
        (
            ExchangeModel::AwaitingFileProbe { place: storage_place(storage_root, path), body },
            ActionModel::ProbeFile(storage_place(storage_root, path)),
        )
    }
}

/// How storing a file goes on once the store was probed. A file that exists
/// is never overwritten; a request without a body stores nothing.
pub open spec fn file_write_probed(place: Seq<char>, body: Option<Seq<u8>>, exists: bool) -> (
    ExchangeModel,
    ActionModel,
) {
    if exists {
        (
            ExchangeModel::Finished,
            ActionModel::Respond(plain_response(Status::Conflict, "file already exists."@)),
        )
    } else {
        match body {
            Some(content) => (
                ExchangeModel::AwaitingFileStore,
                ActionModel::CreateFile(place, content),
            ),
            None => (
                ExchangeModel::Finished,
                ActionModel::Respond(plain_response(Status::BadRequest, "No body provided"@)),
            ),
        }
    }
}

/// The response that reports how storing a file ended.
pub open spec fn file_stored_response(outcome: StoreOutcome) -> Seq<u8> {
    match outcome {
        StoreOutcome::Stored => bare_response(Status::Created),
        StoreOutcome::CreateFailed => plain_response(
            Status::InternalServerError,
            "failed to create file."@,
        ),
        StoreOutcome::WriteFailed => plain_response(
            Status::InternalServerError,
            "failed to write to file."@,
        ),
    }
}

/// The response that reports how reading a file ended: its content, or
/// `404 Not Found` for a file that could not be read, whatever the cause.
pub open spec fn file_read_response(content: Option<Seq<u8>>) -> Seq<u8> {
    match content {
        Some(bytes) => file_response(bytes),
        None => bare_response(Status::NotFound),
    }
}

/// How the server begins to answer what arrived. What is no request gets
/// `400 Bad Request`, and so does a request of any version but 1.1. Any
/// other request goes to the handler of its route.
pub open spec fn request_start(request: Option<Request>, storage_root: Seq<char>) -> (
    ExchangeModel,
    ActionModel,
) {
    match request {
        None => (ExchangeModel::Finished, ActionModel::Respond(bare_response(Status::BadRequest))),
        Some(r) => if r.version != HttpVersion::V1_1 {
            (
                ExchangeModel::Finished,
                ActionModel::Respond(
                    plain_response(
                        Status::BadRequest,
                        "this server only supports HTTP version 1.1."@,
                    ),
                ),
            )
        } else {
            match route_of(r.method, r.path) {
                Route::Root => (
                    ExchangeModel::Finished,
                    ActionModel::Respond(bare_response(Status::Success)),
                ),
                Route::Echo => (
                    ExchangeModel::Finished,
                    ActionModel::Respond(echo_response(r.path)),
                ),
                Route::UserAgent => (
                    ExchangeModel::Finished,
                    ActionModel::Respond(user_agent_response(r.headers)),
                ),
                Route::FileRead => (
                    ExchangeModel::AwaitingFileContent,
                    ActionModel::ReadFile(storage_place(storage_root, r.path)),
                ),
                Route::FileWrite => file_write_start(storage_root, r.path, r.headers, r.body),
                Route::NotFound => (
                    ExchangeModel::Finished,
                    ActionModel::Respond(bare_response(Status::NotFound)),
                ),
            }
        },
    }
}

/// The transition of an exchange: the state that follows `state` on `event`,
/// and what is to be done. An event that the state does not wait for ends
/// the exchange without a response.
pub open spec fn step(state: ExchangeModel, event: EventModel, storage_root: Seq<char>) -> (
    ExchangeModel,
    ActionModel,
) {
    match (state, event) {
        (ExchangeModel::AwaitingRequest, EventModel::RequestReceived(raw)) => request_start(
            request_of(raw),
            storage_root,
        ),
        (ExchangeModel::AwaitingFileContent, EventModel::FileContent(content)) => (
            ExchangeModel::Finished,
            ActionModel::Respond(file_read_response(content)),
        ),
        (ExchangeModel::AwaitingFileProbe { place, body }, EventModel::FileProbed(exists)) => {
            file_write_probed(place, body, exists)
        },
        (ExchangeModel::AwaitingFileStore, EventModel::FileStored(outcome)) => (
            ExchangeModel::Finished,
            ActionModel::Respond(file_stored_response(outcome)),
        ),
        _ => (ExchangeModel::Finished, ActionModel::Close),
    }
}

/// Answers a request for an echo.
pub fn endpoint_get_echo(path: &str) -> (out: Vec<u8>)
    ensures
        out@ == echo_response(path@),
{
    let resp_value = skip_two_segments(path).to_string();
    respond_string_body(resp_value, None)
}

/// Answers a request for the user agent.
pub fn endpoint_get_user_agent(header_parser: &HttpRequestHeaderParser) -> (out: Vec<u8>)
    ensures
        out@ == user_agent_response(header_parser@),
{
    match header_parser.get_header_value(HttpRequestHeaders::UserAgent) {
        Some(user_agent) => respond_string_body(user_agent.clone(), None),
        None => respond_not_found(None, None),
    }
}

/// The place in the store of the file that `path` names.
pub fn storage_path(storage_root: &str, path: &str) -> (place: String)
    ensures
        place@ == storage_place(storage_root@, path@),
{
    let mut place = storage_root.to_string();
    place.append(skip_two_segments(path));
    place
}

/// Begins to answer a request for a file: its content has to be read.
pub fn endpoint_get_files(storage_root: &str, path: &str) -> (next: (Exchange, Action))
    ensures
        next.0@ == ExchangeModel::AwaitingFileContent,
        next.1@ == ActionModel::ReadFile(storage_place(storage_root@, path@)),
{
    (Exchange::AwaitingFileContent, Action::ReadFile(storage_path(storage_root, path)))
}

/// Answers a request for a file once the store has reported.
pub fn file_read_outcome(content: Option<Vec<u8>>) -> (out: Vec<u8>)
    ensures
        out@ == file_read_response(
            match content {
                Some(bytes) => Some(bytes@),
                None => None,
            },
        ),
{
    match content {
        Some(bytes) => respond_byte_body(bytes, Some("application/octet-stream".to_string())),
        None => respond_not_found(None, None),
    }
}

/// Begins to answer a request to store a file.
pub fn endpoint_post_files(
    storage_root: &str,
    path: &str,
    headers: &HttpRequestHeaderParser,
    body: Option<HttpRequestBody>,
) -> (next: (Exchange, Action))
    ensures
        (next.0@, next.1@) == file_write_start(
            storage_root@,
            path@,
            headers@,
            match body {
                Some(b) => Some(b@),
                None => None,
            },
        ),
{
    if !headers.is_content_type(ContentType::ApplicationOctetStream) {
        return (
            Exchange::Finished,
            Action::Respond(respond_bad_request(None, Some("unexpected content type".to_string()))),
        );
    }
    let place = storage_path(storage_root, path);
    let probe = place.clone();
    (Exchange::AwaitingFileProbe { place, body }, Action::ProbeFile(probe))
}

/// Goes on with storing a file once the store was probed.
pub fn file_write_after_probe(place: String, body: Option<HttpRequestBody>, exists: bool) -> (next:
    (Exchange, Action))
    ensures
        (next.0@, next.1@) == file_write_probed(
            place@,
            match body {
                Some(b) => Some(b@),
                None => None,
            },
            exists,
        ),
{
    if exists {
        return (
            Exchange::Finished,
            Action::Respond(respond_conflict(None, Some("file already exists.".to_string()))),
        );
    }
    match body {
        Some(body) => (Exchange::AwaitingFileStore, Action::CreateFile(place, body.into_bytes())),
        None => (
            Exchange::Finished,
            Action::Respond(respond_bad_request(None, Some("No body provided".to_string()))),
        ),
    }
}

/// Reports how storing a file ended.
pub fn file_write_outcome(outcome: StoreOutcome) -> (out: Vec<u8>)
    ensures
        out@ == file_stored_response(outcome),
{
    match outcome {
        StoreOutcome::Stored => respond_created(None, None),
        StoreOutcome::CreateFailed => respond_internal_server_error(
            None,
            Some("failed to create file.".to_string()),
        ),
        StoreOutcome::WriteFailed => respond_internal_server_error(
            None,
            Some("failed to write to file.".to_string()),
        ),
    }
}

/// Begins to answer what arrived on a connection, read or not.
pub fn handle_request(request: Option<ParsedRequest>, storage_root: &str) -> (next: (
    Exchange,
    Action,
))
    ensures
        (next.0@, next.1@) == request_start(
            match request {
                Some(r) => Some(r@),
                None => None,
            },
            storage_root@,
        ),
{
    let request = match request {
        Some(request) => request,
        None => {
            return (Exchange::Finished, Action::Respond(respond_bad_request(None, None)));
        },
    };
    if request.version != HttpVersion::V1_1 {
        return (
            Exchange::Finished,
            Action::Respond(
                respond_bad_request(
                    None,
                    Some("this server only supports HTTP version 1.1.".to_string()),
                ),
            ),
        );
    }
    match route(request.method, request.path.as_str()) {
        Route::Root => (Exchange::Finished, Action::Respond(respond_ok(None, None))),
        Route::Echo => (
            Exchange::Finished,
            Action::Respond(endpoint_get_echo(request.path.as_str())),
        ),
        Route::UserAgent => (
            Exchange::Finished,
            Action::Respond(endpoint_get_user_agent(&request.headers)),
        ),
        Route::FileRead => endpoint_get_files(storage_root, request.path.as_str()),
        Route::FileWrite => endpoint_post_files(
            storage_root,
            request.path.as_str(),
            &request.headers,
            request.body,
        ),
        Route::NotFound => (Exchange::Finished, Action::Respond(respond_not_found(None, None))),
    }
}

impl Exchange {
    /// The state of an exchange on which nothing has arrived yet.
    pub fn new() -> (exchange: Self)
        ensures
            exchange@ == ExchangeModel::AwaitingRequest,
    {
        Exchange::AwaitingRequest
    }

    /// Takes an event and gives the state that follows, with what is to be
    /// done next.
    pub fn advance(self, event: Event, storage_root: &str) -> (next: (Exchange, Action))
        ensures
            (next.0@, next.1@) == step(self@, event@, storage_root@),
    {
        match (self, event) {
            (Exchange::AwaitingRequest, Event::RequestReceived(raw)) => handle_request(
                parse_request(raw.as_slice()),
                storage_root,
            ),
            (Exchange::AwaitingFileContent, Event::FileContent(content)) => (
                Exchange::Finished,
                Action::Respond(file_read_outcome(content)),
            ),
            (Exchange::AwaitingFileProbe { place, body }, Event::FileProbed(exists)) => {
                file_write_after_probe(place, body, exists)
            },
            (Exchange::AwaitingFileStore, Event::FileStored(outcome)) => (
                Exchange::Finished,
                Action::Respond(file_write_outcome(outcome)),
            ),
            _ => (Exchange::Finished, Action::Close),
        }
    }
}

/// Whether `action` ends the exchange: it sends a response or closes the
/// connection.
pub open spec fn is_last(action: ActionModel) -> bool {
    action is Respond || action is Close
}

/// The exchange is over exactly when a response is sent or the connection
/// is closed; and once it is over, every event closes it again.
pub proof fn lemma_exchange_ends(state: ExchangeModel, event: EventModel, storage_root: Seq<char>)
    ensures
        step(state, event, storage_root).0 == ExchangeModel::Finished <==> is_last(
            step(state, event, storage_root).1,
        ),
        state == ExchangeModel::Finished ==> step(state, event, storage_root) == (
            ExchangeModel::Finished,
            ActionModel::Close,
        ),
{
}

/// A request of version 1.0 is refused with `400 Bad Request`, whatever
/// its method, its path, its headers and its body.
pub proof fn lemma_version_1_0_is_refused(raw: Seq<u8>, storage_root: Seq<char>)
    requires
        request_of(raw) matches Some(r) && r.version == HttpVersion::V1_0,
    ensures
        step(ExchangeModel::AwaitingRequest, EventModel::RequestReceived(raw), storage_root) == (
            ExchangeModel::Finished,
            ActionModel::Respond(
                plain_response(Status::BadRequest, "this server only supports HTTP version 1.1."@),
            ),
        ),
{
}

/// A request for the root gets `200 OK` without headers and without a
/// body, whatever its own headers and body.
pub proof fn lemma_root_is_ok(raw: Seq<u8>, storage_root: Seq<char>)
    requires
        request_of(raw) matches Some(r) && r.method == HttpMethod::GET && r.path == "/"@
            && r.version == HttpVersion::V1_1,
    ensures
        step(ExchangeModel::AwaitingRequest, EventModel::RequestReceived(raw), storage_root) == (
            ExchangeModel::Finished,
            ActionModel::Respond(bare_response(Status::Success)),
        ),
{
}

/// The answer to a request for an echo depends on the path and on nothing
/// else: two such requests with one path get the same bytes, whatever
/// their headers, their bodies and the storage roots.
pub proof fn lemma_echo_depends_on_path_alone(
    one: Seq<u8>,
    other: Seq<u8>,
    one_root: Seq<char>,
    other_root: Seq<char>,
)
    requires
        request_of(one) matches Some(r) && r.method == HttpMethod::GET && "/echo/"@.is_prefix_of(
            r.path,
        ) && r.version == HttpVersion::V1_1,
        request_of(other) matches Some(r) && r.method == HttpMethod::GET && r.version
            == HttpVersion::V1_1,
        request_of(one)->0.path == request_of(other)->0.path,
    ensures
        step(ExchangeModel::AwaitingRequest, EventModel::RequestReceived(one), one_root) == step(
            ExchangeModel::AwaitingRequest,
            EventModel::RequestReceived(other),
            other_root,
        ),
{
}

/// The path `/echo/` followed by any text, slashes included, is answered
/// with that text, and with its length in bytes.
pub proof fn lemma_echo_answers_value(value: Seq<char>)
    ensures
        route_of(HttpMethod::GET, "/echo/"@ + value) == Route::Echo,
        echo_response("/echo/"@ + value) == text_response(value),
{
    reveal_strlit("/echo/");
    reveal_strlit("/");
    let first = Seq::<char>::empty();
    let second = seq!['e', 'c', 'h', 'o'];
    lemma_after_two_given_segments(first, second, value);
    assert("/echo/"@ + value =~= first + seq!['/'] + second + seq!['/'] + value);
}

/// The path `/files/` followed by any name, slashes included, stands for
/// the place that the storage root and the name make.
pub proof fn lemma_file_place(storage_root: Seq<char>, name: Seq<char>)
    ensures
        storage_place(storage_root, "/files/"@ + name) == storage_root + name,
        "/files/"@.is_prefix_of("/files/"@ + name),
{
    reveal_strlit("/files/");
    let first = Seq::<char>::empty();
    let second = seq!['f', 'i', 'l', 'e', 's'];
    lemma_after_two_given_segments(first, second, name);
    assert("/files/"@ + name =~= first + seq!['/'] + second + seq!['/'] + name);
}

/// The first step of an exchange on which the bytes `raw` arrive.
pub open spec fn first_step(raw: Seq<u8>, storage_root: Seq<char>) -> (
    ExchangeModel,
    ActionModel,
) {
    step(ExchangeModel::AwaitingRequest, EventModel::RequestReceived(raw), storage_root)
}

/// A written request of version 1.0 is refused with `400 Bad Request`,
/// whatever its method, its path, its headers and its body.
pub proof fn lemma_written_version_1_0_is_refused(
    method: HttpMethod,
    path: Seq<char>,
    headers: Seq<Header>,
    body: Seq<u8>,
    storage_root: Seq<char>,
)
    requires
        is_word(path),
        forall|i: int| 0 <= i < headers.len() ==> is_line(#[trigger] headers[i].1),
    ensures
        first_step(
            written_request(method, path, HttpVersion::V1_0, headers, body),
            storage_root,
        ) == (
            ExchangeModel::Finished,
            ActionModel::Respond(
                plain_response(Status::BadRequest, "this server only supports HTTP version 1.1."@),
            ),
        ),
{
    lemma_written_request_is_read(method, path, HttpVersion::V1_0, headers, body);
}

/// A written request for the root gets `200 OK` without headers and
/// without a body, whatever its own headers and body.
pub proof fn lemma_written_root_is_ok(
    headers: Seq<Header>,
    body: Seq<u8>,
    storage_root: Seq<char>,
)
    requires
        forall|i: int| 0 <= i < headers.len() ==> is_line(#[trigger] headers[i].1),
    ensures
        first_step(
            written_request(HttpMethod::GET, "/"@, HttpVersion::V1_1, headers, body),
            storage_root,
        ) == (ExchangeModel::Finished, ActionModel::Respond(bare_response(Status::Success))),
{
    reveal_strlit("/");
    lemma_written_request_is_read(HttpMethod::GET, "/"@, HttpVersion::V1_1, headers, body);
}

/// A written request for the echo of a value without whitespace is
/// answered with that value as plain text and with its length in bytes,
/// whatever its headers and its body.
pub proof fn lemma_written_echo_is_answered(
    value: Seq<char>,
    headers: Seq<Header>,
    body: Seq<u8>,
    storage_root: Seq<char>,
)
    requires
        forall|i: int| 0 <= i < value.len() ==> !is_space(#[trigger] value[i]),
        forall|i: int| 0 <= i < headers.len() ==> is_line(#[trigger] headers[i].1),
    ensures
        first_step(
            written_request(HttpMethod::GET, "/echo/"@ + value, HttpVersion::V1_1, headers, body),
            storage_root,
        ) == (ExchangeModel::Finished, ActionModel::Respond(text_response(value))),
{
    let path = "/echo/"@ + value;
    reveal_strlit("/echo/");
    reveal_strlit("/");
    assert(is_word(path)) by {
        assert forall|i: int| 0 <= i < path.len() implies !is_space(#[trigger] path[i]) by {
            if i >= 6 {
                assert(path[i] == value[i - 6]);
            }
        }
    }
    lemma_written_request_is_read(HttpMethod::GET, path, HttpVersion::V1_1, headers, body);
    lemma_echo_answers_value(value);
    assert(path.len() >= 6);
}

/// A written request for the user agent is answered with the value of its
/// first `User-Agent` header, trimmed, as plain text; and with
/// `404 Not Found` where it has no such header.
pub proof fn lemma_written_user_agent_is_answered(
    headers: Seq<Header>,
    body: Seq<u8>,
    storage_root: Seq<char>,
)
    requires
        forall|i: int| 0 <= i < headers.len() ==> is_line(#[trigger] headers[i].1),
    ensures
        first_step(
            written_request(HttpMethod::GET, "/user-agent"@, HttpVersion::V1_1, headers, body),
            storage_root,
        ) == (
            ExchangeModel::Finished,
            ActionModel::Respond(
                match lookup(headers, HttpRequestHeaders::UserAgent) {
                    Some(agent) => text_response(trimmed(agent)),
                    None => bare_response(Status::NotFound),
                },
            ),
        ),
{
    let path = "/user-agent"@;
    reveal_strlit("/user-agent");
    reveal_strlit("/echo/");
    reveal_strlit("/");
    lemma_written_request_is_read(HttpMethod::GET, path, HttpVersion::V1_1, headers, body);
    lemma_lookup_trimmed(headers, HttpRequestHeaders::UserAgent);
    if "/echo/"@.is_prefix_of(path) {
        assert(path.subrange(0, 6)[1] == 'u');
    }
}

} // verus!

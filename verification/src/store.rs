//! The file store as the protocol sees it, and what whole exchanges do to
//! it: what is stored, what is served, and what is left alone.

use crate::headers::{lemma_lookup_trimmed, media_type_in, trimmed_headers, Header};
use crate::request::{lemma_written_request_is_read, request_of, written_request, Request};
use crate::response::Status;
use crate::router::{
    bare_response, file_response, lemma_file_place, plain_response, route_of, step, ActionModel,
    EventModel, ExchangeModel, Route, StoreOutcome,
};
use crate::text::{is_line, is_space, is_word, lemma_trimmed_word};
use crate::vocabulary::{HttpMethod, HttpRequestHeaders, HttpVersion, MediaType};
use vstd::prelude::*;

verus! {

/// The file store as the protocol sees it: the content of every place that
/// holds a file.
pub type Store = Map<Seq<char>, Seq<u8>>;

/// What a store that works reports when `action` is performed on it, and
/// what it holds afterwards. A file is created only where none exists.
/// An action that ends the exchange asks nothing of the store.
pub open spec fn store_reply(action: ActionModel, store: Store) -> Option<(EventModel, Store)> {
    match action {
        ActionModel::ReadFile(place) => Some(
            (
                EventModel::FileContent(
                    if store.dom().contains(place) {
                        Some(store[place])
                    } else {
                        None
                    },
                ),
                store,
            ),
        ),
        ActionModel::ProbeFile(place) => Some(
            (EventModel::FileProbed(store.dom().contains(place)), store),
        ),
        ActionModel::CreateFile(place, content) => if store.dom().contains(place) {
            Some((EventModel::FileStored(StoreOutcome::CreateFailed), store))
        } else {
            Some((EventModel::FileStored(StoreOutcome::Stored), store.insert(place, content)))
        },
        ActionModel::Respond(_) => None,
        ActionModel::Close => None,
    }
}

/// An exchange that is driven from `state` and `event` against a store that
/// works, for at most `patience` reports of the store: the bytes that are
/// sent, if any are, and what the store holds afterwards.
pub open spec fn exchange_with(
    state: ExchangeModel,
    event: EventModel,
    storage_root: Seq<char>,
    store: Store,
    patience: nat,
) -> (Option<Seq<u8>>, Store)
    decreases patience,
{
    let (next, action) = step(state, event, storage_root);
    match store_reply(action, store) {
        None => (
            match action {
                ActionModel::Respond(bytes) => Some(bytes),
                _ => None,
            },
            store,
        ),
        Some((report, after)) => if patience == 0 {
            (None, after)
        } else {
            exchange_with(next, report, storage_root, after, (patience - 1) as nat)
        },
    }
}

/// What the bytes `raw` are answered with when the store works, and what
/// the store holds afterwards.
pub open spec fn served(raw: Seq<u8>, storage_root: Seq<char>, store: Store) -> (
    Option<Seq<u8>>,
    Store,
) {
    exchange_with(
        ExchangeModel::AwaitingRequest,
        EventModel::RequestReceived(raw),
        storage_root,
        store,
        2,
    )
}

/// Whatever arrives is answered: against a store that works, every exchange
/// sends a response, after at most two reports of the store.
pub proof fn lemma_every_request_is_answered(raw: Seq<u8>, storage_root: Seq<char>, store: Store)
    ensures
        served(raw, storage_root, store).0 is Some,
{
    reveal_with_fuel(exchange_with, 3);
}

/// Whether `r` asks to store `content` under `name`: a `POST` of version
/// 1.1 to `/files/` and the name, declared as `application/octet-stream`.
pub open spec fn asks_to_store(r: Request, name: Seq<char>, content: Seq<u8>) -> bool {
    &&& r.method == HttpMethod::POST
    &&& r.path == "/files/"@ + name
    &&& r.version == HttpVersion::V1_1
    &&& media_type_in(r.headers) == Some(MediaType::ApplicationOctetStream)
    &&& r.body == Some(content)
}

/// Whether `r` asks for the file under `name`: a `GET` of version 1.1 for
/// `/files/` and the name.
pub open spec fn asks_for_file(r: Request, name: Seq<char>) -> bool {
    &&& r.method == HttpMethod::GET
    &&& r.path == "/files/"@ + name
    &&& r.version == HttpVersion::V1_1
}

/// A request to store a file under a name that the store does not hold
/// creates the file with the body as its content and is answered with
/// `201 Created`. The same request again is answered with `409 Conflict`,
/// and the file stays as it is.
pub proof fn lemma_store_then_conflict(
    raw: Seq<u8>,
    storage_root: Seq<char>,
    store: Store,
    name: Seq<char>,
    content: Seq<u8>,
)
    requires
        request_of(raw) matches Some(r) && asks_to_store(r, name, content),
        !store.dom().contains(storage_root + name),
    ensures
        served(raw, storage_root, store) == (
            Some(bare_response(Status::Created)),
            store.insert(storage_root + name, content),
        ),
        served(raw, storage_root, store.insert(storage_root + name, content)) == (
            Some(plain_response(Status::Conflict, "file already exists."@)),
            store.insert(storage_root + name, content),
        ),
{
    reveal_with_fuel(exchange_with, 3);
    lemma_file_place(storage_root, name);
    lemma_files_path_is_no_other(name);
}

/// A request to store a file under a name that the store holds already
/// changes nothing, whatever its body.
pub proof fn lemma_existing_file_is_kept(
    raw: Seq<u8>,
    storage_root: Seq<char>,
    store: Store,
    name: Seq<char>,
)
    requires
        request_of(raw) matches Some(r) && r.method == HttpMethod::POST && r.path == "/files/"@
            + name && r.version == HttpVersion::V1_1,
        store.dom().contains(storage_root + name),
    ensures
        served(raw, storage_root, store).1 == store,
        media_type_in(request_of(raw)->0.headers) == Some(MediaType::ApplicationOctetStream)
            ==> served(raw, storage_root, store).0 == Some(
            plain_response(Status::Conflict, "file already exists."@),
        ),
{
    reveal_with_fuel(exchange_with, 3);
    lemma_file_place(storage_root, name);
    lemma_files_path_is_no_other(name);
}

/// A file that the store holds is served with the content type
/// `application/octet-stream` and with its content, byte for byte; a file
/// that it does not hold is answered with `404 Not Found`. The store stays
/// as it is.
pub proof fn lemma_file_is_served(
    raw: Seq<u8>,
    storage_root: Seq<char>,
    store: Store,
    name: Seq<char>,
)
    requires
        request_of(raw) matches Some(r) && asks_for_file(r, name),
    ensures
        served(raw, storage_root, store) == (
            Some(
                if store.dom().contains(storage_root + name) {
                    file_response(store[storage_root + name])
                } else {
                    bare_response(Status::NotFound)
                },
            ),
            store,
        ),
{
    reveal_with_fuel(exchange_with, 3);
    lemma_file_place(storage_root, name);
    lemma_files_path_is_no_other(name);
}

/// What was stored is what is served: after a request to store a file under
/// a new name, a request for that name is answered with the body of the
/// first.
pub proof fn lemma_stored_file_is_served(
    post: Seq<u8>,
    get: Seq<u8>,
    storage_root: Seq<char>,
    store: Store,
    name: Seq<char>,
    content: Seq<u8>,
)
    requires
        request_of(post) matches Some(r) && asks_to_store(r, name, content),
        request_of(get) matches Some(r) && asks_for_file(r, name),
        !store.dom().contains(storage_root + name),
    ensures
        served(get, storage_root, served(post, storage_root, store).1).0 == Some(
            file_response(content),
        ),
{
    lemma_store_then_conflict(post, storage_root, store, name, content);
    lemma_file_is_served(get, storage_root, store.insert(storage_root + name, content), name);
}

/// A request to store a file that does not declare the content type
/// `application/octet-stream` is answered with `400 Bad Request`, and the
/// store stays as it is.
pub proof fn lemma_other_content_type_stores_nothing(
    raw: Seq<u8>,
    storage_root: Seq<char>,
    store: Store,
    name: Seq<char>,
)
    requires
        request_of(raw) matches Some(r) && r.method == HttpMethod::POST && r.path == "/files/"@
            + name && r.version == HttpVersion::V1_1 && media_type_in(r.headers) != Some(
            MediaType::ApplicationOctetStream,
        ),
    ensures
        served(raw, storage_root, store) == (
            Some(plain_response(Status::BadRequest, "unexpected content type"@)),
            store,
        ),
{
    reveal_with_fuel(exchange_with, 3);
    lemma_files_path_is_no_other(name);
}

/// No request changes a file that the store holds, and only a request to
/// store a file adds one.
pub proof fn lemma_store_only_grows(
    raw: Seq<u8>,
    storage_root: Seq<char>,
    store: Store,
    place: Seq<char>,
)
    requires
        store.dom().contains(place),
    ensures
        served(raw, storage_root, store).1.dom().contains(place),
        served(raw, storage_root, store).1[place] == store[place],
        served(raw, storage_root, store).1 != store ==> (request_of(raw) matches Some(r)
            && r.method == HttpMethod::POST),
{
    reveal_with_fuel(exchange_with, 3);
}

/// A path under `/files/` is the path of no other route.
pub proof fn lemma_files_path_is_no_other(name: Seq<char>)
    ensures
        "/files/"@.is_prefix_of("/files/"@ + name),
        route_of(HttpMethod::GET, "/files/"@ + name) == Route::FileRead,
        route_of(HttpMethod::POST, "/files/"@ + name) == Route::FileWrite,
{
    reveal_strlit("/files/");
    reveal_strlit("/echo/");
    reveal_strlit("/");
    reveal_strlit("/user-agent");
    let path = "/files/"@ + name;
    if "/echo/"@.is_prefix_of(path) {
        assert(path.subrange(0, 6)[1] == 'e');
    }
}

/// The header that declares the content type `application/octet-stream`.
pub open spec fn octet_stream_header() -> Header {
    (HttpRequestHeaders::ContentType, "application/octet-stream"@)
}

/// The bytes of a request to store `content` under `name`.
pub open spec fn written_post(name: Seq<char>, content: Seq<u8>) -> Seq<u8> {
    written_request(
        HttpMethod::POST,
        "/files/"@ + name,
        HttpVersion::V1_1,
        seq![octet_stream_header()],
        content,
    )
}

/// The bytes of a request for the file under `name`.
pub open spec fn written_get(name: Seq<char>) -> Seq<u8> {
    written_request(
        HttpMethod::GET,
        "/files/"@ + name,
        HttpVersion::V1_1,
        Seq::empty(),
        Seq::empty(),
    )
}

proof fn lemma_files_path_is_word(name: Seq<char>)
    requires
        forall|i: int| 0 <= i < name.len() ==> !is_space(#[trigger] name[i]),
    ensures
        is_word("/files/"@ + name),
{
    let path = "/files/"@ + name;
    reveal_strlit("/files/");
    assert forall|i: int| 0 <= i < path.len() implies !is_space(#[trigger] path[i]) by {
        if i >= 7 {
            assert(path[i] == name[i - 7]);
        }
    }
}

/// Headers that hold only the header for `application/octet-stream`
/// declare that media type; headers that hold only the header for
/// `text/plain` declare another.
pub proof fn lemma_declared_media_types()
    ensures
        media_type_in(trimmed_headers(seq![octet_stream_header()])) == Some(
            MediaType::ApplicationOctetStream,
        ),
        media_type_in(trimmed_headers(seq![(HttpRequestHeaders::ContentType, "text/plain"@)]))
            == Some(MediaType::TextPlain),
{
    reveal_strlit("application/octet-stream");
    reveal_strlit("text/plain");
    lemma_trimmed_word("application/octet-stream"@);
    lemma_trimmed_word("text/plain"@);
    lemma_lookup_trimmed(seq![octet_stream_header()], HttpRequestHeaders::ContentType);
    lemma_lookup_trimmed(
        seq![(HttpRequestHeaders::ContentType, "text/plain"@)],
        HttpRequestHeaders::ContentType,
    );
}

/// The written request to store a body under a name asks for just that,
/// and the written request for the file under a name asks for that file.
pub proof fn lemma_written_file_requests(name: Seq<char>, content: Seq<u8>)
    requires
        forall|i: int| 0 <= i < name.len() ==> !is_space(#[trigger] name[i]),
    ensures
        request_of(written_post(name, content)) matches Some(r) && asks_to_store(r, name, content),
        request_of(written_get(name)) matches Some(r) && asks_for_file(r, name),
{
    let path = "/files/"@ + name;
    let headers = seq![octet_stream_header()];
    lemma_files_path_is_word(name);
    assert(is_line(headers[0].1)) by {
        reveal_strlit("application/octet-stream");
    }
    lemma_written_request_is_read(HttpMethod::POST, path, HttpVersion::V1_1, headers, content);
    lemma_written_request_is_read(
        HttpMethod::GET,
        path,
        HttpVersion::V1_1,
        Seq::empty(),
        Seq::empty(),
    );
    lemma_declared_media_types();
}

/// Storing and fetching, from the bytes on the wire to the store and back.
/// A written request to store a body under a name that the store does not
/// hold creates the file and is answered with `201 Created`; the same
/// request again is answered with `409 Conflict` and changes nothing; and
/// a written request for the name is then answered with the body, byte for
/// byte.
pub proof fn lemma_written_file_is_stored_and_served(
    name: Seq<char>,
    content: Seq<u8>,
    storage_root: Seq<char>,
    store: Store,
)
    requires
        forall|i: int| 0 <= i < name.len() ==> !is_space(#[trigger] name[i]),
        !store.dom().contains(storage_root + name),
    ensures
        served(written_post(name, content), storage_root, store) == (
            Some(bare_response(Status::Created)),
            store.insert(storage_root + name, content),
        ),
        served(
            written_post(name, content),
            storage_root,
            store.insert(storage_root + name, content),
        ) == (
            Some(plain_response(Status::Conflict, "file already exists."@)),
            store.insert(storage_root + name, content),
        ),
        served(written_get(name), storage_root, store.insert(storage_root + name, content)) == (
            Some(file_response(content)),
            store.insert(storage_root + name, content),
        ),
{
    lemma_written_file_requests(name, content);
    lemma_store_then_conflict(written_post(name, content), storage_root, store, name, content);
    lemma_file_is_served(
        written_get(name),
        storage_root,
        store.insert(storage_root + name, content),
        name,
    );
}

/// A written request to store a file that declares the content type
/// `text/plain` is answered with `400 Bad Request`, and the store stays as
/// it is.
pub proof fn lemma_written_text_is_not_stored(
    name: Seq<char>,
    content: Seq<u8>,
    storage_root: Seq<char>,
    store: Store,
)
    requires
        forall|i: int| 0 <= i < name.len() ==> !is_space(#[trigger] name[i]),
    ensures
        served(
            written_request(
                HttpMethod::POST,
                "/files/"@ + name,
                HttpVersion::V1_1,
                seq![(HttpRequestHeaders::ContentType, "text/plain"@)],
                content,
            ),
            storage_root,
            store,
        ) == (Some(plain_response(Status::BadRequest, "unexpected content type"@)), store),
{
    let path = "/files/"@ + name;
    let headers = seq![(HttpRequestHeaders::ContentType, "text/plain"@)];
    lemma_files_path_is_word(name);
    assert(is_line(headers[0].1)) by {
        reveal_strlit("text/plain");
    }
    lemma_written_request_is_read(HttpMethod::POST, path, HttpVersion::V1_1, headers, content);
    lemma_declared_media_types();
    lemma_other_content_type_stores_nothing(
        written_request(HttpMethod::POST, path, HttpVersion::V1_1, headers, content),
        storage_root,
        store,
        name,
    );
}

} // verus!

use vstd::prelude::*;

use crate::movie::Movie;
use crate::store::{MovieStore, lookup, replaced_with_id, is_listing};

verus! {

/// Status of a successful read or update.
pub const HTTP_OK: u16 = 200;

/// Status of a successful create.
pub const HTTP_CREATED: u16 = 201;

/// Status of a successful delete.
pub const HTTP_NO_CONTENT: u16 = 204;

/// Status of a request addressed to an id that holds no record.
pub const HTTP_NOT_FOUND: u16 = 404;

/// What a response carries, before it is encoded as JSON.
#[derive(Debug, PartialEq, Eq)]
pub enum Body {
    Empty,
    Movie(Movie),
    Movies(Vec<Movie>),
    Message(String),
}

/// The status code and the body that answer one request.
#[derive(Debug, PartialEq, Eq)]
pub struct Response {
    pub status: u16,
    pub body: Body,
}

/// The text of the body that reports a missing record.
pub open spec fn not_found_text() -> Seq<char> {
    "movie not found"@
}

/// `body` is the message that reports a missing record.
pub open spec fn is_not_found_body(body: Body) -> bool {
    match body {
        Body::Message(text) => text@ == not_found_text(),
        _ => false,
    }
}

/// `body` lists each record of `contents` exactly once.
pub open spec fn is_listing_body(body: Body, contents: Map<Seq<char>, Movie>) -> bool {
    match body {
        Body::Movies(listed) => is_listing(listed@, contents),
        _ => false,
    }
}

fn not_found_body() -> (r: Body)
    ensures
        is_not_found_body(r),
{
    Body::Message(String::from_str("movie not found"))
}

/// Answers a request for every record: always a success, with all of them.
pub fn list_movies(store: &MovieStore) -> (r: Response)
    requires
        store.wf(),
    ensures
        r.status == HTTP_OK,
        is_listing_body(r.body, store@),
{
    Response { status: HTTP_OK, body: Body::Movies(store.list()) }
}

/// Answers a request for the record under `id`: the record, or not found.
pub fn get_movie(store: &MovieStore, id: &String) -> (r: Response)
    requires
        store.wf(),
    ensures
        match lookup(store@, id@) {
            Some(movie) => r == (Response { status: HTTP_OK, body: Body::Movie(movie) }),
            None => r.status == HTTP_NOT_FOUND && is_not_found_body(r.body),
        },
{
    match store.get(id) {
        Some(movie) => Response { status: HTTP_OK, body: Body::Movie(movie) },
        None => Response { status: HTTP_NOT_FOUND, body: not_found_body() },
    }
}

/// Answers a request to create `payload`: it is stored under its own id,
/// replacing any record held there, and echoed back.
pub fn create_movie(store: &mut MovieStore, payload: Movie) -> (r: Response)
    requires
        old(store).wf(),
    ensures
        final(store).wf(),
        final(store)@ == old(store)@.insert(payload.id@, payload),
        r == (Response { status: HTTP_CREATED, body: Body::Movie(payload) }),
{
    let stored = store.create(payload);
    Response { status: HTTP_CREATED, body: Body::Movie(stored) }
}

/// Answers a request to replace the record under `id` by `payload`: the
/// stored record keeps `id` as its id; a missing record changes nothing.
pub fn update_movie(store: &mut MovieStore, id: String, payload: Movie) -> (r: Response)
    requires
        old(store).wf(),
    ensures
        final(store).wf(),
        old(store)@.contains_key(id@) ==> final(store)@ == old(store)@.insert(
            id@,
            replaced_with_id(id, payload),
        ) && r == (Response {
            status: HTTP_OK,
            body: Body::Movie(replaced_with_id(id, payload)),
        }),
        !old(store)@.contains_key(id@) ==> final(store)@ == old(store)@ && r.status
            == HTTP_NOT_FOUND && is_not_found_body(r.body),
{
    match store.update(id, payload) {
        Some(movie) => Response { status: HTTP_OK, body: Body::Movie(movie) },
        None => Response { status: HTTP_NOT_FOUND, body: not_found_body() },
    }
}

/// Answers a request to delete the record under `id`: no content where it
/// was there, not found where it was not; neither carries a body.
pub fn delete_movie(store: &mut MovieStore, id: &String) -> (r: Response)
    requires
        old(store).wf(),
    ensures
        final(store).wf(),
        final(store)@ == old(store)@.remove(id@),
        r == (Response {
            status: if old(store)@.contains_key(id@) {
                HTTP_NO_CONTENT
            } else {
                HTTP_NOT_FOUND
            },
            body: Body::Empty,
        }),
{
    if store.delete(id) {
        Response { status: HTTP_NO_CONTENT, body: Body::Empty }
    } else {
        Response { status: HTTP_NOT_FOUND, body: Body::Empty }
    }
}

} // verus!

//! An in-memory store of movie records, with the request handlers that map
//! each store operation onto a response status and body.
//!
//! The store is a plain value: callers that share it between tasks guard it
//! with a reader-writer lock and run one operation per critical section.

mod movie;
mod store;
mod handlers;

pub use movie::Movie;
pub use store::{
    MovieStore, lookup, replaced_with_id, is_listing, lemma_create_twice_same_as_once,
    lemma_update_keeps_addressing_id, lemma_create_then_get, lemma_delete_then_get,
};
pub use handlers::{
    HTTP_OK, HTTP_CREATED, HTTP_NO_CONTENT, HTTP_NOT_FOUND, Body, Response, not_found_text,
    is_not_found_body, is_listing_body, list_movies, get_movie, create_movie, update_movie,
    delete_movie,
};

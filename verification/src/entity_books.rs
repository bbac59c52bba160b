//! Books of an entity: the shape shared by authors, narrators, publishers and
//! collections.

use crate::pagination;
use vstd::prelude::*;

verus! {

/// A book in a list.
#[derive(Debug)]
pub struct EntityBookSummary {
    /// The book.
    pub book_id: i64,
    /// Title.
    pub title: String,
    /// Release date.
    pub release_date: Option<String>,
    /// Duration in milliseconds.
    pub duration_ms: Option<i64>,
    /// Reading status.
    pub reading_status: String,
}

/// A page of books.
#[derive(Debug)]
pub struct EntityBooksResponse {
    /// The books.
    pub books: Vec<EntityBookSummary>,
    /// Number of books of the entity.
    pub total: i64,
    /// Page size.
    pub limit: i64,
    /// Offset of the page.
    pub offset: i64,
}

/// What a listing asks for.
#[derive(Debug)]
pub struct EntityBooksQuery {
    /// Page size.
    pub limit: Option<i64>,
    /// Offset of the page.
    pub offset: Option<i64>,
}

impl Default for EntityBooksQuery {
    fn default() -> (r: EntityBooksQuery)
        ensures
            r == (EntityBooksQuery { limit: None, offset: None }),
    {
        EntityBooksQuery { limit: None, offset: None }
    }
}

/// The answer to a listing of books.
pub fn entity_books_response(
    query: &EntityBooksQuery,
    books: Vec<EntityBookSummary>,
    total: i64,
) -> (r: EntityBooksResponse)
    ensures
        r == (EntityBooksResponse {
            books,
            total,
            limit: pagination::limit_of(query.limit),
            offset: pagination::offset_of(query.offset),
        }),
{
    EntityBooksResponse {
        books,
        total,
        limit: pagination::clamp_limit(query.limit),
        offset: pagination::clamp_offset(query.offset),
    }
}

} // verus!

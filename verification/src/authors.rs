//! Authors.

use crate::error;
use vstd::prelude::*;

verus! {

/// An author.
#[derive(Debug)]
pub struct AuthorDetail {
    /// The author.
    pub author_id: i64,
    /// Name.
    pub name: String,
    /// Name for sorting.
    pub name_sort: Option<String>,
    /// Biography, possibly with markup.
    pub bio: Option<String>,
    /// Headshot.
    pub image_url: Option<String>,
    /// Audible identifier.
    pub audible_id: Option<String>,
    /// Observed spellings, in observation order.
    pub aliases: Vec<String>,
    /// Number of books.
    pub book_count: i64,
    /// Creation time, Unix seconds.
    pub created_at: i64,
    /// Time of the last change, Unix seconds.
    pub updated_at: i64,
}

/// The answer to a request for one author.
pub fn authors_get(author_id: i64, row: Option<AuthorDetail>) -> (r: Result<
    AuthorDetail,
    error::ApiError,
>)
    ensures
        match row {
            Some(d) => r == Ok::<AuthorDetail, error::ApiError>(d),
            None => r matches Err(e) && e@ == error::ErrorView::NotFound(
                error::numbered_text("author"@, author_id as int),
            ),
        },
{
    match row {
        Some(d) => Ok(d),
        None => Err(error::missing("author", author_id)),
    }
}

} // verus!

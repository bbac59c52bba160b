//! Remembered ASINs: listing and forgetting them.

use crate::pagination;
use vstd::prelude::*;

verus! {

/// One remembered ASIN.
#[derive(Debug, PartialEq, Eq)]
pub struct AsinLearningRow {
    /// The row.
    pub learning_id: i64,
    /// Normalised title.
    pub title_norm: String,
    /// Normalised author.
    pub author_norm: String,
    /// The ASIN.
    pub asin: String,
    /// Where it was learned.
    pub source: String,
    /// When it was learned, ISO 8601.
    pub learned_at: String,
}

/// What a listing asks for.
#[derive(Debug)]
pub struct AsinLearningsListQuery {
    /// Page size.
    pub limit: Option<i64>,
    /// Offset of the page.
    pub offset: Option<i64>,
}

impl Default for AsinLearningsListQuery {
    fn default() -> (r: AsinLearningsListQuery)
        ensures
            r == (AsinLearningsListQuery { limit: None, offset: None }),
    {
        AsinLearningsListQuery { limit: None, offset: None }
    }
}

/// A page of remembered ASINs.
#[derive(Debug)]
pub struct AsinLearningsListResponse {
    /// The rows, newest first.
    pub rows: Vec<AsinLearningRow>,
    /// Number of rows.
    pub total: i64,
    /// Page size.
    pub limit: i64,
    /// Offset of the page.
    pub offset: i64,
}

/// The answer to a deletion.
#[derive(Debug, PartialEq, Eq, Structural)]
pub struct AsinLearningDeleteResponse {
    /// The row.
    pub learning_id: i64,
    /// Whether there was such a row.
    pub deleted: bool,
}

/// The answer to a listing.
pub fn asin_learnings_list(
    query: &AsinLearningsListQuery,
    rows: Vec<AsinLearningRow>,
    total: i64,
) -> (r: AsinLearningsListResponse)
    ensures
        r == (AsinLearningsListResponse {
            rows,
            total,
            limit: pagination::limit_of(query.limit),
            offset: pagination::offset_of(query.offset),
        }),
{
    AsinLearningsListResponse {
        rows,
        total,
        limit: pagination::clamp_limit(query.limit),
        offset: pagination::clamp_offset(query.offset),
    }
}

/// The answer to a deletion: deleting an unknown row is no error.
pub fn asin_learnings_delete(learning_id: i64, rows_affected: u64) -> (r:
    AsinLearningDeleteResponse)
    ensures
        r == (AsinLearningDeleteResponse { learning_id, deleted: rows_affected > 0 }),
{
    AsinLearningDeleteResponse { learning_id, deleted: rows_affected > 0 }
}

} // verus!

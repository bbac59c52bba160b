//! Reading the operation journal.

use crate::pagination;
use crate::text;
use vstd::prelude::*;

verus! {

/// One journal row.
#[derive(Debug, PartialEq, Eq)]
pub struct OperationJournalRow {
    /// The row.
    pub op_id: i64,
    /// Kind of operation.
    pub op_kind: String,
    /// Kind of target.
    pub target_kind: String,
    /// The target.
    pub target_id: i64,
    /// `pending`, `done`, `failed` or `reversed`.
    pub progress: String,
    /// Batch of the operation.
    pub batch_id: Option<String>,
    /// Creation time, Unix seconds.
    pub created_at: i64,
    /// Whether the operation can be undone.
    pub reversible: bool,
    /// Why it failed.
    pub failed_reason: Option<String>,
    /// State before, as JSON.
    pub pre_state_json: String,
    /// State after, as JSON.
    pub post_state_json: Option<String>,
}

/// What a listing asks for.
#[derive(Debug)]
pub struct OperationJournalQuery {
    /// Kind of operation.
    pub op_kind: Option<String>,
    /// Progress.
    pub progress: Option<String>,
    /// Batch.
    pub batch_id: Option<String>,
    /// Page size.
    pub limit: Option<i64>,
    /// Offset of the page.
    pub offset: Option<i64>,
}

/// A page of journal rows.
#[derive(Debug)]
pub struct OperationJournalListResponse {
    /// The rows, newest first.
    pub rows: Vec<OperationJournalRow>,
    /// Number of matching rows.
    pub total: i64,
    /// Page size.
    pub limit: i64,
    /// Offset of the page.
    pub offset: i64,
}

/// Whether a value passes an optional filter.
pub open spec fn passes(filter: Option<Seq<char>>, value: Option<Seq<char>>) -> bool {
    filter is None || value == filter
}

/// Whether a row matches every filter of a query.
pub open spec fn matches_query(row: OperationJournalRow, query: OperationJournalQuery) -> bool {
    &&& passes(text::opt_text(query.op_kind), Some(row.op_kind@))
    &&& passes(text::opt_text(query.progress), Some(row.progress@))
    &&& passes(text::opt_text(query.batch_id), text::opt_text(row.batch_id))
}

fn passes_filter(filter: &Option<String>, value: Option<&str>) -> (r: bool)
    ensures
        r == passes(text::opt_text(*filter), text::opt_str(value)),
{
    match (filter, value) {
        (None, _) => true,
        (Some(f), Some(v)) => text::same_text(f.as_str(), v),
        (Some(_), None) => false,
    }
}

/// Whether a row matches every filter of a query; absent filters match all.
pub fn row_matches(row: &OperationJournalRow, query: &OperationJournalQuery) -> (r: bool)
    ensures
        r == matches_query(*row, *query),
{
    passes_filter(&query.op_kind, Some(row.op_kind.as_str())) && passes_filter(
        &query.progress,
        Some(row.progress.as_str()),
    ) && passes_filter(&query.batch_id, text::opt_as_str(&row.batch_id))
}

/// The stored flag of a reversible operation.
pub fn reversible_flag(stored: i64) -> (r: bool)
    ensures
        r == (stored != 0),
{
    stored != 0
}

/// The answer to a listing.
pub fn operation_journal_list(
    query: &OperationJournalQuery,
    rows: Vec<OperationJournalRow>,
    total: i64,
) -> (r: OperationJournalListResponse)
    ensures
        r == (OperationJournalListResponse {
            rows,
            total,
            limit: pagination::limit_of(query.limit),
            offset: pagination::offset_of(query.offset),
        }),
{
    OperationJournalListResponse {
        rows,
        total,
        limit: pagination::clamp_limit(query.limit),
        offset: pagination::clamp_offset(query.offset),
    }
}

/// A query without filters matches every row.
pub proof fn law_no_filter_matches_all(row: OperationJournalRow, query: OperationJournalQuery)
    requires
        query.op_kind is None,
        query.progress is None,
        query.batch_id is None,
    ensures
        matches_query(row, query),
{
}

/// Each filter is held against its own field, and a row must pass all of them.
pub proof fn law_filters(row: OperationJournalRow, query: OperationJournalQuery)
    ensures
        query.op_kind is Some && query.op_kind->0@ != row.op_kind@ ==> !matches_query(row, query),
        query.progress is Some && query.progress->0@ != row.progress@ ==> !matches_query(
            row,
            query,
        ),
        query.batch_id is Some && (row.batch_id is None || row.batch_id->0@ != query.batch_id->0@)
            ==> !matches_query(row, query),
        (query.op_kind is None || query.op_kind->0@ == row.op_kind@) && (query.progress is None
            || query.progress->0@ == row.progress@) && (query.batch_id is None || (row.batch_id
            is Some && row.batch_id->0@ == query.batch_id->0@)) ==> matches_query(row, query),
{
}

} // verus!

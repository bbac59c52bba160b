//! Collections of books: listing, creating and editing them.

use crate::entity_books;
use crate::error;
use crate::journal;
use crate::like;
use crate::pagination;
use crate::text;
use vstd::prelude::*;

verus! {

/// A collection.
#[derive(Debug)]
pub struct CollectionDetail {
    /// The collection.
    pub collection_id: i64,
    /// Name.
    pub name: String,
    /// Normalised name.
    pub canonical_name: Option<String>,
    /// Audible identifier.
    pub audible_id: Option<String>,
    /// Description.
    pub description: Option<String>,
    /// Free-text classification.
    pub kind: Option<String>,
    /// Number of members.
    pub book_count: i64,
    /// Creation time, Unix seconds.
    pub created_at: i64,
    /// Time of the last change, Unix seconds.
    pub updated_at: i64,
}

/// A collection in a list.
#[derive(Debug)]
pub struct CollectionListItem {
    /// The collection.
    pub collection_id: i64,
    /// Name.
    pub name: String,
    /// Normalised name.
    pub canonical_name: Option<String>,
    /// Audible identifier.
    pub audible_id: Option<String>,
    /// Free-text classification.
    pub kind: Option<String>,
    /// Number of members.
    pub book_count: i64,
}

/// A page of collections.
#[derive(Debug)]
pub struct CollectionsListResponse {
    /// The collections.
    pub collections: Vec<CollectionListItem>,
    /// Number of matching collections.
    pub total: i64,
    /// Page size.
    pub limit: i64,
    /// Offset of the page.
    pub offset: i64,
}

/// What a listing asks for.
#[derive(Debug)]
pub struct CollectionsListQuery {
    /// Page size.
    pub limit: Option<i64>,
    /// Offset of the page.
    pub offset: Option<i64>,
    /// Sort key: `name` or `book_count`.
    pub sort: Option<String>,
    /// Substring of the name.
    pub q: Option<String>,
    /// Classification.
    pub kind: Option<String>,
}

/// A collection that a book belongs to.
#[derive(Debug)]
pub struct BookCollectionEntry {
    /// The collection.
    pub collection_id: i64,
    /// Name.
    pub name: String,
    /// Normalised name.
    pub canonical_name: Option<String>,
    /// Free-text classification.
    pub kind: Option<String>,
    /// Position of the book, where the collection is ordered.
    pub position: Option<i64>,
}

/// The collections of a book.
#[derive(Debug)]
pub struct BookCollectionsResponse {
    /// The collections.
    pub collections: Vec<BookCollectionEntry>,
}

/// How collections are sorted.
#[derive(Debug, Clone, Copy, PartialEq, Eq, Structural)]
pub enum CollectionsSort {
    /// By name.
    Name,
    /// By number of members, descending, then by name.
    BookCountDesc,
}

/// The sort that a request names.
pub open spec fn sort_of(s: Option<Seq<char>>) -> Result<CollectionsSort, error::ErrorView> {
    match s {
        None => Ok(CollectionsSort::Name),
        Some(t) => if t == ""@ || t == "name"@ {
            Ok(CollectionsSort::Name)
        } else if t == "book_count"@ {
            Ok(CollectionsSort::BookCountDesc)
        } else {
            Err(
                error::ErrorView::BadRequest(
                    "unknown sort "@ + text::quoted(t) + "; expected one of name / book_count"@,
                ),
            )
        },
    }
}

impl CollectionsSort {
    /// The sort that a request names; unknown names are an error.
    pub fn parse(s: Option<&str>) -> (r: Result<CollectionsSort, error::ApiError>)
        ensures
            match r {
                Ok(sort) => sort_of(text::opt_str(s)) == Ok::<CollectionsSort, error::ErrorView>(
                    sort,
                ),
                Err(e) => sort_of(text::opt_str(s)) == Err::<CollectionsSort, error::ErrorView>(e@),
            },
    {
        match s {
            None => Ok(CollectionsSort::Name),
            Some(t) => if text::same_text(t, "") || text::same_text(t, "name") {
                Ok(CollectionsSort::Name)
            } else if text::same_text(t, "book_count") {
                Ok(CollectionsSort::BookCountDesc)
            } else {
                let mut m = text::owned("unknown sort ");
                m.append(text::quote(t).as_str());
                m.append("; expected one of name / book_count");
                Err(error::ApiError::BadRequest(m))
            },
        }
    }
}

/// What a listing selects.
#[derive(Debug)]
pub struct CollectionsListPlan {
    /// Sort.
    pub sort: CollectionsSort,
    /// Page size.
    pub limit: i64,
    /// Offset of the page.
    pub offset: i64,
    /// Pattern for the name.
    pub q_filter: Option<String>,
    /// Classification.
    pub kind_filter: Option<String>,
}

/// What a listing selects: blank filters select everything.
pub fn plan_collections_list(query: &CollectionsListQuery) -> (r: Result<
    CollectionsListPlan,
    error::ApiError,
>)
    ensures
        match r {
            Ok(p) => {
                &&& sort_of(text::opt_text(query.sort)) == Ok::<CollectionsSort, error::ErrorView>(
                    p.sort,
                )
                &&& p.limit == pagination::limit_of(query.limit)
                &&& p.offset == pagination::offset_of(query.offset)
                &&& text::opt_text(p.q_filter) == like::like_pattern(text::opt_text(query.q))
                &&& text::opt_text(p.kind_filter) == text::present(text::opt_text(query.kind))
            },
            Err(e) => sort_of(text::opt_text(query.sort)) == Err::<
                CollectionsSort,
                error::ErrorView,
            >(e@),
        },
{
    match CollectionsSort::parse(text::opt_as_str(&query.sort)) {
        Ok(sort) => Ok(
            CollectionsListPlan {
                sort,
                limit: pagination::clamp_limit(query.limit),
                offset: pagination::clamp_offset(query.offset),
                q_filter: like::like_filter(text::opt_as_str(&query.q)),
                kind_filter: text::present_text(text::opt_as_str(&query.kind)),
            },
        ),
        Err(e) => Err(e),
    }
}

/// How a listing is ordered in the query.
pub open spec fn order_clause(sort: CollectionsSort) -> Seq<char> {
    match sort {
        CollectionsSort::Name => "c.name COLLATE NOCASE"@,
        CollectionsSort::BookCountDesc => "(SELECT COUNT(*) FROM book_collection_members WHERE collection_id = c.collection_id) DESC, c.name COLLATE NOCASE"@,
    }
}

/// The query of a listing. It takes the name pattern, the kind, the page size
/// and the offset.
pub open spec fn list_sql_text(sort: CollectionsSort) -> Seq<char> {
    "SELECT c.collection_id, c.name, c.canonical_name, c.audible_id, c.kind, (SELECT COUNT(*) FROM book_collection_members WHERE collection_id = c.collection_id) FROM book_collections c WHERE (?1 IS NULL OR c.name LIKE ?1 ESCAPE '\\') AND (?2 IS NULL OR c.kind = ?2) ORDER BY "@
        + order_clause(sort) + " LIMIT ?3 OFFSET ?4"@
}

/// The query of a listing.
pub fn list_sql(sort: CollectionsSort) -> (s: String)
    ensures
        s@ == list_sql_text(sort),
{
    let mut s = text::owned(
        "SELECT c.collection_id, c.name, c.canonical_name, c.audible_id, c.kind, (SELECT COUNT(*) FROM book_collection_members WHERE collection_id = c.collection_id) FROM book_collections c WHERE (?1 IS NULL OR c.name LIKE ?1 ESCAPE '\\') AND (?2 IS NULL OR c.kind = ?2) ORDER BY ",
    );
    match sort {
        CollectionsSort::Name => s.append("c.name COLLATE NOCASE"),
        CollectionsSort::BookCountDesc => s.append(
            "(SELECT COUNT(*) FROM book_collection_members WHERE collection_id = c.collection_id) DESC, c.name COLLATE NOCASE",
        ),
    }
    s.append(" LIMIT ?3 OFFSET ?4");
    s
}

/// The query for the number of collections that a listing selects, whatever
/// its page. It takes the name pattern and the kind.
pub fn count_sql() -> (s: &'static str)
    ensures
        s@
            == "SELECT COUNT(*) FROM book_collections WHERE (?1 IS NULL OR name LIKE ?1 ESCAPE '\\') AND (?2 IS NULL OR kind = ?2)"@,
{
    "SELECT COUNT(*) FROM book_collections WHERE (?1 IS NULL OR name LIKE ?1 ESCAPE '\\') AND (?2 IS NULL OR kind = ?2)"
}

/// The answer to a listing.
pub fn collections_list_response(
    plan: &CollectionsListPlan,
    collections: Vec<CollectionListItem>,
    total: i64,
) -> (r: CollectionsListResponse)
    ensures
        r == (CollectionsListResponse {
            collections,
            total,
            limit: plan.limit,
            offset: plan.offset,
        }),
{
    CollectionsListResponse { collections, total, limit: plan.limit, offset: plan.offset }
}

/// The answer to a request for one collection.
pub fn collections_get(collection_id: i64, row: Option<CollectionDetail>) -> (r: Result<
    CollectionDetail,
    error::ApiError,
>)
    ensures
        match row {
            Some(d) => r == Ok::<CollectionDetail, error::ApiError>(d),
            None => r matches Err(e) && e@ == error::ErrorView::NotFound(
                error::numbered_text("collection"@, collection_id as int),
            ),
        },
{
    match row {
        Some(d) => Ok(d),
        None => Err(error::missing("collection", collection_id)),
    }
}

/// The page of books that a request for a collection's books selects; an
/// unknown collection is an error.
pub fn plan_collections_books(
    exists: bool,
    collection_id: i64,
    query: &entity_books::EntityBooksQuery,
) -> (r: Result<(i64, i64), error::ApiError>)
    ensures
        match r {
            Ok((limit, offset)) => exists && limit == pagination::limit_of(query.limit) && offset
                == pagination::offset_of(query.offset),
            Err(e) => !exists && e@ == error::ErrorView::NotFound(
                error::numbered_text("collection"@, collection_id as int),
            ),
        },
{
    if exists {
        Ok((pagination::clamp_limit(query.limit), pagination::clamp_offset(query.offset)))
    } else {
        Err(error::missing("collection", collection_id))
    }
}

/// The answer to a request for a book's collections; an unknown book is an
/// error.
pub fn books_collections(
    exists: bool,
    book_id: i64,
    collections: Vec<BookCollectionEntry>,
) -> (r: Result<BookCollectionsResponse, error::ApiError>)
    ensures
        match r {
            Ok(b) => exists && b.collections == collections,
            Err(e) => !exists && e@ == error::ErrorView::NotFound(
                error::numbered_text("book"@, book_id as int),
            ),
        },
{
    if exists {
        Ok(BookCollectionsResponse { collections })
    } else {
        Err(error::missing("book", book_id))
    }
}

// ── Database conflicts ─────────────────────────────────────────────

/// What a failed write of a collection is answered with: a conflict where a
/// uniqueness constraint names a column, an internal error otherwise.
pub open spec fn write_failure(context: Seq<char>, reason: Seq<char>) -> error::ErrorView {
    if !text::holds_text(reason, "UNIQUE constraint failed"@) {
        error::ErrorView::Database(context + ": "@ + reason)
    } else {
        error::ErrorView::Conflict(
            "collection "@ + (if text::holds_text(reason, "book_collections.name"@) {
                "name"@
            } else if text::holds_text(reason, "book_collections.audible_id"@) {
                "audible_id"@
            } else {
                "unique"@
            }) + " already exists"@,
        )
    }
}

/// What a failed write of a collection is answered with.
pub fn write_error(context: &str, reason: &str) -> (e: error::ApiError)
    ensures
        e@ == write_failure(context@, reason@),
{
    if !text::contains_text(reason, "UNIQUE constraint failed") {
        return error::database_error(context, reason);
    }
    let column = if text::contains_text(reason, "book_collections.name") {
        "name"
    } else if text::contains_text(reason, "book_collections.audible_id") {
        "audible_id"
    } else {
        "unique"
    };
    let mut m = text::owned("collection ");
    m.append(column);
    m.append(" already exists");
    error::ApiError::Conflict(m)
}

// ── Creating ───────────────────────────────────────────────────────

/// Kind of journal entry for a new collection.
pub const OP_KIND_COLLECTION_CREATE: &'static str = "collection-create";

/// A request for a new collection.
#[derive(Debug)]
pub struct CollectionCreateRequest {
    /// Name, not blank.
    pub name: String,
    /// Normalised name.
    pub canonical_name: Option<String>,
    /// Audible identifier.
    pub audible_id: Option<String>,
    /// Description.
    pub description: Option<String>,
    /// Free-text classification.
    pub kind: Option<String>,
}

/// The answer to a request for a new collection.
#[derive(Debug)]
pub struct CollectionCreateResponse {
    /// The new collection.
    pub collection_id: i64,
}

/// The columns of a new collection.
#[derive(Debug)]
pub struct NewCollection {
    /// Name.
    pub name: String,
    /// Normalised name.
    pub canonical_name: Option<String>,
    /// Audible identifier.
    pub audible_id: Option<String>,
    /// Description.
    pub description: Option<String>,
    /// Free-text classification.
    pub kind: Option<String>,
}

/// The columns of a collection in terms of their texts.
pub struct CollectionView {
    /// Name.
    pub name: Seq<char>,
    /// Normalised name.
    pub canonical_name: Option<Seq<char>>,
    /// Audible identifier.
    pub audible_id: Option<Seq<char>>,
    /// Description.
    pub description: Option<Seq<char>>,
    /// Free-text classification.
    pub kind: Option<Seq<char>>,
}

impl View for NewCollection {
    type V = CollectionView;

    open spec fn view(&self) -> CollectionView {
        CollectionView {
            name: self.name@,
            canonical_name: text::opt_text(self.canonical_name),
            audible_id: text::opt_text(self.audible_id),
            description: text::opt_text(self.description),
            kind: text::opt_text(self.kind),
        }
    }
}

/// What a create request asks for: the name trimmed, the other fields as they
/// came, and an error where the name is blank.
pub open spec fn create_columns(req: CollectionCreateRequest) -> Result<
    CollectionView,
    error::ErrorView,
> {
    if text::trimmed(req.name@).len() == 0 {
        Err(error::ErrorView::BadRequest("name is required and must not be empty"@))
    } else {
        Ok(
            CollectionView {
                name: text::trimmed(req.name@),
                canonical_name: text::opt_text(req.canonical_name),
                audible_id: text::opt_text(req.audible_id),
                description: text::opt_text(req.description),
                kind: text::opt_text(req.kind),
            },
        )
    }
}

/// The columns that a create request asks for.
pub fn plan_collections_create(req: &CollectionCreateRequest) -> (r: Result<
    NewCollection,
    error::ApiError,
>)
    ensures
        match r {
            Ok(c) => create_columns(*req) == Ok::<CollectionView, error::ErrorView>(c@),
            Err(e) => create_columns(*req) == Err::<CollectionView, error::ErrorView>(e@),
        },
{
    let name = text::trim(req.name.as_str());
    if name.as_str().is_empty() {
        return Err(
            error::ApiError::BadRequest(text::owned("name is required and must not be empty")),
        );
    }
    Ok(
        NewCollection {
            name,
            canonical_name: text::opt_clone(&req.canonical_name),
            audible_id: text::opt_clone(&req.audible_id),
            description: text::opt_clone(&req.description),
            kind: text::opt_clone(&req.kind),
        },
    )
}

/// The journal entry of a new collection: what was asked for.
#[derive(Debug)]
pub struct CreateEntry {
    /// Kind of operation.
    pub op_kind: &'static str,
    /// Kind of row.
    pub target_kind: &'static str,
    /// The new collection.
    pub target_id: i64,
    /// What was asked for, with the name as the row has it: a replay compares
    /// the two.
    pub intent: NewCollection,
    /// Whether the operation can be undone.
    pub reversible: bool,
}

/// What follows the insertion of a collection: the journal entry to record,
/// or the error to answer with.
pub fn inserted(columns: NewCollection, result: Result<i64, String>) -> (r: Result<
    CreateEntry,
    error::ApiError,
>)
    ensures
        match result {
            Ok(id) => {
                &&& r is Ok
                &&& r->Ok_0.op_kind@ == OP_KIND_COLLECTION_CREATE@
                &&& r->Ok_0.target_kind@ == "collection"@
                &&& r->Ok_0.target_id == id
                &&& r->Ok_0.intent == columns
                &&& !r->Ok_0.reversible
            },
            Err(reason) => r matches Err(e) && e@ == write_failure(
                "collections_create insert"@,
                reason@,
            ),
        },
{
    match result {
        Ok(id) => Ok(
            CreateEntry {
                op_kind: OP_KIND_COLLECTION_CREATE,
                target_kind: "collection",
                target_id: id,
                intent: columns,
                reversible: false,
            },
        ),
        Err(reason) => Err(write_error("collections_create insert", reason.as_str())),
    }
}

/// How the journal entry of a new collection is closed: as done, with the new
/// row and its name.
pub open spec fn create_close(entry: CreateEntry, op_id: i64) -> journal::CloseView {
    journal::CloseView::Done(
        op_id,
        Some(("collection_id"@, entry.target_id)),
        "name"@,
        entry.intent.name@,
        "api.collections_create"@,
    )
}

/// How the creation ends: the collection exists whether or not its journal
/// entry could be recorded. A recorded entry is closed.
pub fn finish_collections_create(entry: &CreateEntry, recorded: Option<i64>) -> (r: (
    Option<journal::JournalClose>,
    CollectionCreateResponse,
))
    ensures
        match recorded {
            Some(op_id) => r.0 matches Some(c) && c@ == create_close(*entry, op_id),
            None => r.0 is None,
        },
        r.1.collection_id == entry.target_id,
{
    let close = match recorded {
        Some(op_id) => Some(
            journal::JournalClose::Done {
                op_id,
                row: Some(("collection_id", entry.target_id)),
                key: "name",
                value: text::owned(entry.intent.name.as_str()),
                context: "api.collections_create",
            },
        ),
        None => None,
    };
    (close, CollectionCreateResponse { collection_id: entry.target_id })
}

// ── Editing ────────────────────────────────────────────────────────

/// Kind of journal entry for a new name.
pub const OP_KIND_COLLECTION_NAME_SET: &'static str = "collection-name-set";

/// An edit: absent fields are left as they are.
#[derive(Debug)]
pub struct CollectionPatchRequest {
    /// New name, not blank.
    pub name: Option<String>,
    /// New normalised name; blank clears it.
    pub canonical_name: Option<String>,
    /// New Audible identifier; blank clears it.
    pub audible_id: Option<String>,
    /// New description; blank clears it.
    pub description: Option<String>,
    /// New classification; blank clears it.
    pub kind: Option<String>,
}

/// The answer to an edit.
#[derive(Debug)]
pub struct CollectionPatchResponse {
    /// The collection.
    pub collection_id: i64,
    /// The columns that were changed, in a stable order.
    pub updated: Vec<String>,
}

/// The value of a nullable column: trimmed, absent where blank.
pub fn collapse_blank_to_none(v: &str) -> (r: Option<String>)
    ensures
        text::opt_text(r) == text::present(Some(v@)),
{
    text::present_text(Some(v))
}

/// One column to change.
#[derive(Debug)]
pub struct ColumnUpdate {
    /// The column.
    pub column: &'static str,
    /// Its new value.
    pub value: Option<String>,
}

/// A column to change, in terms of its texts.
pub struct UpdateView {
    /// The column.
    pub column: Seq<char>,
    /// Its new value.
    pub value: Option<Seq<char>>,
}

impl View for ColumnUpdate {
    type V = UpdateView;

    open spec fn view(&self) -> UpdateView {
        UpdateView { column: self.column@, value: text::opt_text(self.value) }
    }
}

/// Columns to change, in terms of their texts.
pub open spec fn update_views(s: Seq<ColumnUpdate>) -> Seq<UpdateView> {
    Seq::new(s.len(), |i: int| s[i]@)
}

/// The change of one nullable column, where the edit names it.
pub open spec fn column_change(column: Seq<char>, v: Option<String>) -> Seq<UpdateView> {
    match v {
        Some(s) => seq![UpdateView { column, value: text::present(Some(s@)) }],
        None => Seq::empty(),
    }
}

/// The change of the name, where the edit names it.
pub open spec fn name_change(v: Option<String>) -> Seq<UpdateView> {
    match v {
        Some(s) => seq![UpdateView { column: "name"@, value: Some(text::trimmed(s@)) }],
        None => Seq::empty(),
    }
}

/// All changes of an edit, in column order.
pub open spec fn patch_changes(req: CollectionPatchRequest) -> Seq<UpdateView> {
    name_change(req.name) + column_change("canonical_name"@, req.canonical_name) + column_change(
        "audible_id"@,
        req.audible_id,
    ) + column_change("description"@, req.description) + column_change("kind"@, req.kind)
}

/// Whether an edit names any field.
pub open spec fn any_update(req: CollectionPatchRequest) -> bool {
    req.name is Some || req.canonical_name is Some || req.audible_id is Some || req.description
        is Some || req.kind is Some
}

/// What an edit of collection `id` asks for, or why it is refused.
pub open spec fn patch_plan(id: int, exists: bool, req: CollectionPatchRequest) -> Result<
    Seq<UpdateView>,
    error::ErrorView,
> {
    if !exists {
        Err(error::ErrorView::NotFound(error::numbered_text("collection"@, id)))
    } else if !any_update(req) {
        Err(error::ErrorView::BadRequest("no fields to update; supply at least one field"@))
    } else if req.name matches Some(n) && text::trimmed(n@).len() == 0 {
        Err(error::ErrorView::BadRequest("name cannot be empty"@))
    } else {
        Ok(patch_changes(req))
    }
}

/// A valid edit.
#[derive(Debug)]
pub struct PatchPlan {
    /// The collection.
    pub collection_id: i64,
    /// The new name, trimmed.
    pub new_name: Option<String>,
    /// The columns to change.
    pub updates: Vec<ColumnUpdate>,
}

fn push_change(updates: &mut Vec<ColumnUpdate>, column: &'static str, v: &Option<String>)
    ensures
        update_views(final(updates)@) == update_views(old(updates)@) + column_change(column@, *v),
{
    match v {
        Some(s) => {
            updates.push(ColumnUpdate { column, value: collapse_blank_to_none(s.as_str()) });
        },
        None => {},
    }
    proof {
        assert(update_views(updates@) =~= update_views(old(updates)@) + column_change(column@, *v));
    }
}

/// Checks an edit: the collection exists, some field is named, and a new name
/// is not blank.
pub fn plan_collections_patch(
    collection_id: i64,
    exists: bool,
    req: &CollectionPatchRequest,
) -> (r: Result<PatchPlan, error::ApiError>)
    ensures
        match r {
            Ok(p) => {
                &&& patch_plan(collection_id as int, exists, *req) == Ok::<
                    Seq<UpdateView>,
                    error::ErrorView,
                >(update_views(p.updates@))
                &&& p.collection_id == collection_id
                &&& text::opt_text(p.new_name) == (match req.name {
                    Some(n) => Some(text::trimmed(n@)),
                    None => None,
                })
            },
            Err(e) => patch_plan(collection_id as int, exists, *req) == Err::<
                Seq<UpdateView>,
                error::ErrorView,
            >(e@),
        },
{
    if !exists {
        return Err(error::missing("collection", collection_id));
    }
    if req.name.is_none() && req.canonical_name.is_none() && req.audible_id.is_none()
        && req.description.is_none() && req.kind.is_none() {
        return Err(
            error::ApiError::BadRequest(
                text::owned("no fields to update; supply at least one field"),
            ),
        );
    }
    let mut updates: Vec<ColumnUpdate> = Vec::new();
    let mut new_name: Option<String> = None;
    if let Some(n) = &req.name {
        let name = text::trim(n.as_str());
        if name.as_str().is_empty() {
            return Err(error::ApiError::BadRequest(text::owned("name cannot be empty")));
        }
        updates.push(ColumnUpdate { column: "name", value: Some(text::owned(name.as_str())) });
        new_name = Some(name);
    }
    proof {
        assert(update_views(updates@) =~= name_change(req.name));
    }
    push_change(&mut updates, "canonical_name", &req.canonical_name);
    push_change(&mut updates, "audible_id", &req.audible_id);
    push_change(&mut updates, "description", &req.description);
    push_change(&mut updates, "kind", &req.kind);
    Ok(PatchPlan { collection_id, new_name, updates })
}

/// The journal entry of an edit, recorded before it is applied: a new name,
/// with the name before it. Other fields are not recorded.
pub fn patch_entry(plan: &PatchPlan, current: &str) -> (r: Option<journal::ChangeEntry>)
    ensures
        match plan.new_name {
            Some(n) => {
                &&& r is Some
                &&& r->0.op_kind@ == OP_KIND_COLLECTION_NAME_SET@
                &&& r->0.target_kind@ == "collection"@
                &&& r->0.target_id == plan.collection_id
                &&& r->0.current@ == current@
                &&& r->0.intent@ == n@
                &&& r->0.reversible
            },
            None => r is None,
        },
{
    match &plan.new_name {
        Some(n) => Some(
            journal::ChangeEntry {
                op_kind: OP_KIND_COLLECTION_NAME_SET,
                target_kind: "collection",
                target_id: plan.collection_id,
                current: text::owned(current),
                intent: text::owned(n.as_str()),
                reversible: true,
            },
        ),
        None => None,
    }
}

/// How the journal entry of an edit is closed once it was applied or failed.
pub open spec fn patch_close(plan: PatchPlan, op_id: Option<i64>, tx: Result<(), String>) -> Option<
    journal::CloseView,
> {
    match (op_id, plan.new_name) {
        (Some(op), Some(n)) => match tx {
            Ok(_) => Some(
                journal::CloseView::Done(op, None, "name"@, n@, "api.collections_patch.name"@),
            ),
            Err(reason) => Some(
                journal::CloseView::Failed(
                    op,
                    "collections_patch commit failed: "@ + reason@,
                    "api.collections_patch.name"@,
                ),
            ),
        },
        _ => None,
    }
}

/// Names of the columns of a list of changes.
pub open spec fn changed_columns(s: Seq<UpdateView>) -> Seq<Seq<char>> {
    Seq::new(s.len(), |i: int| s[i].column)
}

/// How an edit ends.
#[derive(Debug)]
pub struct PatchEnd {
    /// How its journal entry is closed, where one was recorded.
    pub close: Option<journal::JournalClose>,
    /// The answer.
    pub response: Result<CollectionPatchResponse, error::ApiError>,
}

/// Ends an edit, given its journal entry and how its transaction went.
pub fn finish_collections_patch(
    plan: &PatchPlan,
    op_id: Option<i64>,
    tx: &Result<(), String>,
) -> (r: PatchEnd)
    ensures
        match r.close {
            Some(c) => patch_close(*plan, op_id, *tx) == Some(c@),
            None => patch_close(*plan, op_id, *tx) is None,
        },
        match *tx {
            Ok(_) => r.response matches Ok(a) && a.collection_id == plan.collection_id
                && text::texts(a.updated@) == changed_columns(update_views(plan.updates@)),
            Err(reason) => r.response matches Err(e) && e@ == write_failure(
                "collections_patch tx"@,
                reason@,
            ),
        },
{
    let close = match (op_id, &plan.new_name) {
        (Some(op), Some(n)) => match tx {
            Ok(_) => Some(
                journal::JournalClose::Done {
                    op_id: op,
                    row: None,
                    key: "name",
                    value: text::owned(n.as_str()),
                    context: "api.collections_patch.name",
                },
            ),
            Err(reason) => {
                let mut m = text::owned("collections_patch commit failed: ");
                m.append(reason.as_str());
                Some(
                    journal::JournalClose::Failed {
                        op_id: op,
                        reason: m,
                        context: "api.collections_patch.name",
                    },
                )
            },
        },
        _ => None,
    };
    let response = match tx {
        Ok(_) => {
            let mut updated: Vec<String> = Vec::new();
            let mut i: usize = 0;
            while i < plan.updates.len()
                invariant
                    i <= plan.updates@.len(),
                    updated@.len() == i,
                    forall|j: int|
                        0 <= j < i ==> (#[trigger] updated@[j])@ == plan.updates@[j].column@,
                decreases plan.updates@.len() - i,
            {
                updated.push(text::owned(plan.updates[i].column));
                i = i + 1;
            }
            proof {
                assert(text::texts(updated@) =~= changed_columns(update_views(plan.updates@)));
            }
            Ok(CollectionPatchResponse { collection_id: plan.collection_id, updated })
        },
        Err(reason) => Err(write_error("collections_patch tx", reason.as_str())),
    };
    PatchEnd { close, response }
}

// ── Laws ───────────────────────────────────────────────────────────

/// An accepted edit changes at least one column, each at most once, and
/// never sets a blank name.
pub proof fn law_patch_changes(id: int, req: CollectionPatchRequest)
    requires
        patch_plan(id, true, req) is Ok,
    ensures
        patch_changes(req).len() > 0,
        forall|i: int, j: int|
            0 <= i < j < patch_changes(req).len() ==> (#[trigger] patch_changes(req)[i]).column != (
            #[trigger] patch_changes(req)[j]).column,
        forall|i: int|
            0 <= i < patch_changes(req).len() && (#[trigger] patch_changes(req)[i]).column
                == "name"@ ==> (patch_changes(req)[i].value matches Some(n) && n.len() > 0),
{
    reveal_strlit("name");
    reveal_strlit("canonical_name");
    reveal_strlit("audible_id");
    reveal_strlit("description");
    reveal_strlit("kind");
    assert("name"@[0] == 'n' && "canonical_name"@[0] == 'c' && "audible_id"@[0] == 'a'
        && "description"@[0] == 'd' && "kind"@[0] == 'k');
    let c = patch_changes(req);
    let a = name_change(req.name);
    let b = column_change("canonical_name"@, req.canonical_name);
    let d = column_change("audible_id"@, req.audible_id);
    let e = column_change("description"@, req.description);
    let f = column_change("kind"@, req.kind);
    assert(a.len() + b.len() + d.len() + e.len() + f.len() == c.len());
}

/// A collection after one of its columns is set.
pub open spec fn set_column(c: CollectionView, u: UpdateView) -> CollectionView {
    if u.column == "name"@ {
        CollectionView {
            name: match u.value {
                Some(n) => n,
                None => c.name,
            },
            ..c
        }
    } else if u.column == "canonical_name"@ {
        CollectionView { canonical_name: u.value, ..c }
    } else if u.column == "audible_id"@ {
        CollectionView { audible_id: u.value, ..c }
    } else if u.column == "description"@ {
        CollectionView { description: u.value, ..c }
    } else if u.column == "kind"@ {
        CollectionView { kind: u.value, ..c }
    } else {
        c
    }
}

/// A collection after changes are made one after the other.
pub open spec fn after_changes(c: CollectionView, changes: Seq<UpdateView>) -> CollectionView
    decreases changes.len(),
{
    if changes.len() == 0 {
        c
    } else {
        set_column(after_changes(c, changes.drop_last()), changes.last())
    }
}

/// The value of a nullable column after an edit: absent fields are left as
/// they are, blank ones are cleared.
pub open spec fn edited(v: Option<String>, before: Option<Seq<char>>) -> Option<Seq<char>> {
    match v {
        Some(s) => text::present(Some(s@)),
        None => before,
    }
}

/// A collection after an edit, field by field.
pub open spec fn edited_collection(c: CollectionView, req: CollectionPatchRequest) -> CollectionView {
    CollectionView {
        name: match req.name {
            Some(n) => text::trimmed(n@),
            None => c.name,
        },
        canonical_name: edited(req.canonical_name, c.canonical_name),
        audible_id: edited(req.audible_id, c.audible_id),
        description: edited(req.description, c.description),
        kind: edited(req.kind, c.kind),
    }
}

proof fn lemma_one_more(c: CollectionView, changes: Seq<UpdateView>, more: Seq<UpdateView>)
    requires
        more.len() <= 1,
    ensures
        after_changes(c, changes + more) == (if more.len() == 0 {
            after_changes(c, changes)
        } else {
            set_column(after_changes(c, changes), more[0])
        }),
{
    if more.len() == 0 {
        assert(changes + more =~= changes);
    } else {
        assert((changes + more).drop_last() =~= changes);
        assert((changes + more).last() == more[0]);
    }
}

/// The changes of an edit, made one after the other, set each field that the
/// edit names and leave every other as it is.
pub proof fn law_patch_result(c: CollectionView, req: CollectionPatchRequest)
    ensures
        after_changes(c, patch_changes(req)) == edited_collection(c, req),
{
    reveal_strlit("name");
    reveal_strlit("canonical_name");
    reveal_strlit("audible_id");
    reveal_strlit("description");
    reveal_strlit("kind");
    assert("name"@[0] == 'n' && "canonical_name"@[0] == 'c' && "audible_id"@[0] == 'a'
        && "description"@[0] == 'd' && "kind"@[0] == 'k');
    let a = name_change(req.name);
    let b = column_change("canonical_name"@, req.canonical_name);
    let d = column_change("audible_id"@, req.audible_id);
    let e = column_change("description"@, req.description);
    let f = column_change("kind"@, req.kind);
    assert(Seq::<UpdateView>::empty() + a =~= a);
    lemma_one_more(c, Seq::empty(), a);
    lemma_one_more(c, a, b);
    lemma_one_more(c, a + b, d);
    lemma_one_more(c, a + b + d, e);
    lemma_one_more(c, a + b + d + e, f);
}

/// Making the same edit twice is making it once.
pub proof fn law_patch_idempotent(c: CollectionView, req: CollectionPatchRequest)
    ensures
        edited_collection(edited_collection(c, req), req) == edited_collection(c, req),
{
}

/// A collection that is created has a trimmed name that is not blank.
pub proof fn law_created_name_not_blank(req: CollectionCreateRequest)
    requires
        create_columns(req) is Ok,
    ensures
        create_columns(req)->Ok_0.name.len() > 0,
        text::trimmed(create_columns(req)->Ok_0.name) == create_columns(req)->Ok_0.name,
{
    text::law_trim_idempotent(req.name@);
}

/// A journal entry that was recorded is always closed, as done exactly where
/// the transaction went through.
pub proof fn law_patch_entry_closed(plan: PatchPlan, op: i64, tx: Result<(), String>)
    requires
        plan.new_name is Some,
    ensures
        patch_close(plan, Some(op), tx) is Some,
        patch_close(plan, Some(op), tx)->0 is Done <==> tx is Ok,
{
}

/// The words that name a sort, each its own; no word is the name.
pub proof fn law_sort_words(t: Seq<char>)
    ensures
        sort_of(None) == Ok::<CollectionsSort, error::ErrorView>(CollectionsSort::Name),
        sort_of(Some(""@)) == Ok::<CollectionsSort, error::ErrorView>(CollectionsSort::Name),
        sort_of(Some("name"@)) == Ok::<CollectionsSort, error::ErrorView>(CollectionsSort::Name),
        sort_of(Some("book_count"@)) == Ok::<CollectionsSort, error::ErrorView>(
            CollectionsSort::BookCountDesc,
        ),
        t != ""@ && t != "name"@ && t != "book_count"@ ==> sort_of(Some(t)) matches Err(
            error::ErrorView::BadRequest(_),
        ),
{
    reveal_strlit("");
    reveal_strlit("name");
    reveal_strlit("book_count");
    assert("name"@.len() == 4 && "book_count"@.len() == 10);
}

/// Each sort orders by its own column, and the page is cut last: the pattern
/// is the first parameter, the kind the second, then size and offset.
pub proof fn law_list_query()
    ensures
        ({
            let head =
                "SELECT c.collection_id, c.name, c.canonical_name, c.audible_id, c.kind, (SELECT COUNT(*) FROM book_collection_members WHERE collection_id = c.collection_id) FROM book_collections c WHERE (?1 IS NULL OR c.name LIKE ?1 ESCAPE '\\') AND (?2 IS NULL OR c.kind = ?2) ORDER BY "@;
            let tail = " LIMIT ?3 OFFSET ?4"@;
            &&& list_sql_text(CollectionsSort::Name) == head + "c.name COLLATE NOCASE"@ + tail
            &&& list_sql_text(CollectionsSort::BookCountDesc) == head
                + "(SELECT COUNT(*) FROM book_collection_members WHERE collection_id = c.collection_id) DESC, c.name COLLATE NOCASE"@
                + tail
        }),
{
}

/// A failed write is a conflict exactly where a uniqueness constraint failed,
/// and the conflict names the column that the constraint is on.
pub proof fn law_write_failures(context: Seq<char>, reason: Seq<char>)
    ensures
        !text::holds_text(reason, "UNIQUE constraint failed"@) ==> write_failure(context, reason)
            == error::ErrorView::Database(context + ": "@ + reason),
        text::holds_text(reason, "UNIQUE constraint failed"@) && text::holds_text(
            reason,
            "book_collections.name"@,
        ) ==> write_failure(context, reason) == error::ErrorView::Conflict(
            "collection "@ + "name"@ + " already exists"@,
        ),
        text::holds_text(reason, "UNIQUE constraint failed"@) && !text::holds_text(
            reason,
            "book_collections.name"@,
        ) && text::holds_text(reason, "book_collections.audible_id"@) ==> write_failure(
            context,
            reason,
        ) == error::ErrorView::Conflict("collection "@ + "audible_id"@ + " already exists"@),
        text::holds_text(reason, "UNIQUE constraint failed"@) ==> write_failure(context, reason)
            is Conflict,
{
}

/// A collection is created under its trimmed name, with every other field as
/// it came; only a blank name is refused.
pub proof fn law_created_as_asked(req: CollectionCreateRequest)
    ensures
        text::trimmed(req.name@).len() > 0 ==> (create_columns(req) matches Ok(c) && {
            &&& c.name == text::trimmed(req.name@)
            &&& match req.canonical_name {
                Some(s) => c.canonical_name == Some(s@),
                None => c.canonical_name is None,
            }
            &&& match req.audible_id {
                Some(s) => c.audible_id == Some(s@),
                None => c.audible_id is None,
            }
            &&& match req.description {
                Some(s) => c.description == Some(s@),
                None => c.description is None,
            }
            &&& match req.kind {
                Some(s) => c.kind == Some(s@),
                None => c.kind is None,
            }
        }),
        text::trimmed(req.name@).len() == 0 ==> create_columns(req) matches Err(
            error::ErrorView::BadRequest(_),
        ),
{
}

/// The entry of a new collection is closed as done, with the row and its name.
pub proof fn law_create_closed(entry: CreateEntry, op_id: i64)
    ensures
        create_close(entry, op_id) matches journal::CloseView::Done(op, row, key, value, context)
            && op == op_id && row == Some(("collection_id"@, entry.target_id)) && key == "name"@
            && value == entry.intent.name@ && context == "api.collections_create"@,
{
}

/// Whether a nullable column after an edit is what the edit makes of it: as
/// before where the edit does not name it, cleared where it names it blank,
/// and otherwise what it names, trimmed.
pub open spec fn rightly_edited(
    asked: Option<String>,
    before: Option<Seq<char>>,
    after: Option<Seq<char>>,
) -> bool {
    &&& asked is None ==> after == before
    &&& asked is Some && text::trimmed(asked->0@).len() == 0 ==> after is None
    &&& asked is Some && text::trimmed(asked->0@).len() > 0 ==> after == Some(
        text::trimmed(asked->0@),
    )
}

/// Each column is set by its own field of the edit, and only where the edit
/// names it.
pub proof fn law_edit_column_by_column(c: CollectionView, req: CollectionPatchRequest)
    ensures
        ({
            let e = after_changes(c, patch_changes(req));
            &&& req.name is None ==> e.name == c.name
            &&& req.name is Some ==> e.name == text::trimmed(req.name->0@)
            &&& rightly_edited(req.canonical_name, c.canonical_name, e.canonical_name)
            &&& rightly_edited(req.audible_id, c.audible_id, e.audible_id)
            &&& rightly_edited(req.description, c.description, e.description)
            &&& rightly_edited(req.kind, c.kind, e.kind)
        }),
{
    law_patch_result(c, req);
}

/// The changes of an edit name the columns of its fields, in their order, one
/// for each field that it names.
pub proof fn law_edit_names_columns(req: CollectionPatchRequest, s: String)
    ensures
        column_change("kind"@, None).len() == 0,
        column_change("kind"@, Some(s)).len() == 1,
        column_change("kind"@, Some(s))[0].column == "kind"@,
        name_change(None).len() == 0,
        name_change(Some(s)).len() == 1,
        name_change(Some(s))[0].column == "name"@,
        name_change(Some(s))[0].value == Some(text::trimmed(s@)),
        changed_columns(patch_changes(req)) == changed_columns(name_change(req.name))
            + changed_columns(column_change("canonical_name"@, req.canonical_name))
            + changed_columns(column_change("audible_id"@, req.audible_id)) + changed_columns(
            column_change("description"@, req.description),
        ) + changed_columns(column_change("kind"@, req.kind)),
{
    assert(changed_columns(patch_changes(req)) =~= changed_columns(name_change(req.name))
        + changed_columns(column_change("canonical_name"@, req.canonical_name)) + changed_columns(
        column_change("audible_id"@, req.audible_id),
    ) + changed_columns(column_change("description"@, req.description)) + changed_columns(
        column_change("kind"@, req.kind),
    ));
}

/// An edit is accepted where the collection exists, some field is named, and a
/// name is not blank. Otherwise it is refused: as unknown, or as malformed.
pub proof fn law_edit_accepted(id: int, exists: bool, req: CollectionPatchRequest)
    ensures
        ({
            let named = req.name is Some || req.canonical_name is Some || req.audible_id is Some
                || req.description is Some || req.kind is Some;
            let blank = req.name is Some && text::trimmed(req.name->0@).len() == 0;
            &&& exists && named && !blank ==> patch_plan(id, exists, req) is Ok
            &&& !exists ==> patch_plan(id, exists, req) is Err && patch_plan(
                id,
                exists,
                req,
            )->Err_0 is NotFound
            &&& exists && (!named || blank) ==> patch_plan(id, exists, req) is Err && patch_plan(
                id,
                exists,
                req,
            )->Err_0 is BadRequest
        }),
{
}

/// The entry of a new name is closed as done with the name, and as failed with
/// the reason; without an entry or a new name nothing is closed.
pub proof fn law_edit_closed(plan: PatchPlan, op: i64, name: String, reason: String)
    requires
        plan.new_name == Some(name),
    ensures
        patch_close(plan, Some(op), Ok(())) matches Some(journal::CloseView::Done(o, row, k, v, _c))
            && o == op && row is None && k == "name"@ && v == name@,
        patch_close(plan, Some(op), Err(reason)) matches Some(journal::CloseView::Failed(o, why, _c))
            && o == op && why == "collections_patch commit failed: "@ + reason@,
        patch_close(plan, None, Ok(())) is None,
        patch_close(plan, None, Err(reason)) is None,
{
}

/// A refusal says what is wrong: a sort that is unknown, a name that is blank,
/// a collection that does not exist or an edit of nothing.
pub proof fn law_refusals(
    t: Seq<char>,
    id: int,
    new: CollectionCreateRequest,
    req: CollectionPatchRequest,
)
    ensures
        t != ""@ && t != "name"@ && t != "book_count"@ ==> sort_of(Some(t)) == Err::<
            CollectionsSort,
            error::ErrorView,
        >(
            error::ErrorView::BadRequest(
                "unknown sort "@ + text::quoted(t) + "; expected one of name / book_count"@,
            ),
        ),
        text::trimmed(new.name@).len() == 0 ==> create_columns(new) == Err::<
            CollectionView,
            error::ErrorView,
        >(error::ErrorView::BadRequest("name is required and must not be empty"@)),
        patch_plan(id, false, req) == Err::<Seq<UpdateView>, error::ErrorView>(
            error::ErrorView::NotFound("collection"@ + " "@ + text::signed_decimal(id)),
        ),
        req.name is Some && text::trimmed(req.name->0@).len() == 0 ==> patch_plan(id, true, req)
            == Err::<Seq<UpdateView>, error::ErrorView>(
            error::ErrorView::BadRequest("name cannot be empty"@),
        ),
        req.name is None && req.canonical_name is None && req.audible_id is None
            && req.description is None && req.kind is None ==> patch_plan(id, true, req) == Err::<
            Seq<UpdateView>,
            error::ErrorView,
        >(error::ErrorView::BadRequest("no fields to update; supply at least one field"@)),
{
}

/// A uniqueness that names no column is told as such, and both closings of a
/// new name tell where they come from.
pub proof fn law_failures_and_contexts(
    context: Seq<char>,
    reason: Seq<char>,
    plan: PatchPlan,
    op: i64,
    why: String,
)
    requires
        plan.new_name is Some,
    ensures
        text::holds_text(reason, "UNIQUE constraint failed"@) && !text::holds_text(
            reason,
            "book_collections.name"@,
        ) && !text::holds_text(reason, "book_collections.audible_id"@) ==> write_failure(
            context,
            reason,
        ) == error::ErrorView::Conflict("collection "@ + "unique"@ + " already exists"@),
        patch_close(plan, Some(op), Ok(())) == Some(
            journal::CloseView::Done(
                op,
                None,
                "name"@,
                plan.new_name->0@,
                "api.collections_patch.name"@,
            ),
        ),
        patch_close(plan, Some(op), Err(why)) == Some(
            journal::CloseView::Failed(
                op,
                "collections_patch commit failed: "@ + why@,
                "api.collections_patch.name"@,
            ),
        ),
{
}

/// The kinds of operation on collections.
pub proof fn law_op_kinds()
    ensures
        OP_KIND_COLLECTION_CREATE@ == "collection-create"@,
        OP_KIND_COLLECTION_NAME_SET@ == "collection-name-set"@,
{
}

} // verus!

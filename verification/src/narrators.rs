//! Narrators: detail, listing and their books.

use crate::error;
use crate::like;
use crate::pagination;
use crate::text;
use vstd::prelude::*;

verus! {

/// A narrator.
#[derive(Debug)]
pub struct NarratorDetail {
    /// The narrator.
    pub narrator_id: i64,
    /// Name.
    pub name: String,
    /// Name for sorting.
    pub name_sort: Option<String>,
    /// Biography.
    pub bio: Option<String>,
    /// Headshot.
    pub image_url: Option<String>,
    /// Audible identifier.
    pub audible_id: Option<String>,
    /// Observed spellings, in observation order.
    pub aliases: Vec<String>,
    /// Number of books.
    pub book_count: i64,
    /// Creation time, Unix seconds.
    pub created_at: i64,
    /// Time of the last change, Unix seconds.
    pub updated_at: i64,
}

/// A narrator in a list.
#[derive(Debug)]
pub struct NarratorListItem {
    /// The narrator.
    pub narrator_id: i64,
    /// Name.
    pub name: String,
    /// Name for sorting.
    pub name_sort: Option<String>,
    /// Audible identifier.
    pub audible_id: Option<String>,
    /// Headshot.
    pub image_url: Option<String>,
    /// Number of books.
    pub book_count: i64,
}

/// A page of narrators.
#[derive(Debug)]
pub struct NarratorsListResponse {
    /// The narrators.
    pub narrators: Vec<NarratorListItem>,
    /// Number of matching narrators.
    pub total: i64,
    /// Page size.
    pub limit: i64,
    /// Offset of the page.
    pub offset: i64,
}

/// What a listing asks for.
#[derive(Debug)]
pub struct NarratorsListQuery {
    /// Page size.
    pub limit: Option<i64>,
    /// Offset of the page.
    pub offset: Option<i64>,
    /// Sort key: `name`, `name_sort` or `book_count`.
    pub sort: Option<String>,
    /// Substring of the name.
    pub q: Option<String>,
}

/// A book of a narrator.
#[derive(Debug)]
pub struct NarratorBookEntry {
    /// The book.
    pub book_id: i64,
    /// Title.
    pub title: String,
    /// Release date.
    pub release_date: Option<String>,
    /// Duration in milliseconds.
    pub duration_ms: Option<i64>,
    /// Reading status.
    pub reading_status: String,
}

/// A page of a narrator's books.
#[derive(Debug)]
pub struct NarratorBooksResponse {
    /// The books.
    pub books: Vec<NarratorBookEntry>,
    /// Number of books of the narrator.
    pub total: i64,
    /// Page size.
    pub limit: i64,
    /// Offset of the page.
    pub offset: i64,
}

/// What a listing of a narrator's books asks for.
#[derive(Debug)]
pub struct NarratorBooksQuery {
    /// Page size.
    pub limit: Option<i64>,
    /// Offset of the page.
    pub offset: Option<i64>,
}

/// How narrators are sorted.
#[derive(Debug, Clone, Copy, PartialEq, Eq, Structural)]
pub enum NarratorsSort {
    /// By display name.
    Name,
    /// By sort name, or display name where there is none.
    NameSort,
    /// By number of books, descending, then by name.
    BookCountDesc,
}

/// The sort that a request names.
pub open spec fn sort_of(s: Option<Seq<char>>) -> Result<NarratorsSort, error::ErrorView> {
    match s {
        None => Ok(NarratorsSort::Name),
        Some(t) => if t == ""@ || t == "name"@ {
            Ok(NarratorsSort::Name)
        } else if t == "name_sort"@ {
            Ok(NarratorsSort::NameSort)
        } else if t == "book_count"@ {
            Ok(NarratorsSort::BookCountDesc)
        } else {
            Err(
                error::ErrorView::BadRequest(
                    "unknown sort "@ + text::quoted(t)
                        + "; expected one of name / name_sort / book_count"@,
                ),
            )
        },
    }
}

impl NarratorsSort {
    /// The sort that a request names; unknown names are an error.
    pub fn parse(s: Option<&str>) -> (r: Result<NarratorsSort, error::ApiError>)
        ensures
            match r {
                Ok(sort) => sort_of(text::opt_str(s)) == Ok::<NarratorsSort, error::ErrorView>(
                    sort,
                ),
                Err(e) => sort_of(text::opt_str(s)) == Err::<NarratorsSort, error::ErrorView>(e@),
            },
    {
        match s {
            None => Ok(NarratorsSort::Name),
            Some(t) => if text::same_text(t, "") || text::same_text(t, "name") {
                Ok(NarratorsSort::Name)
            } else if text::same_text(t, "name_sort") {
                Ok(NarratorsSort::NameSort)
            } else if text::same_text(t, "book_count") {
                Ok(NarratorsSort::BookCountDesc)
            } else {
                let mut m = text::owned("unknown sort ");
                m.append(text::quote(t).as_str());
                m.append("; expected one of name / name_sort / book_count");
                Err(error::ApiError::BadRequest(m))
            },
        }
    }
}

/// What a listing selects.
#[derive(Debug)]
pub struct NarratorsListPlan {
    /// Sort.
    pub sort: NarratorsSort,
    /// Page size.
    pub limit: i64,
    /// Offset of the page.
    pub offset: i64,
    /// Pattern for the name.
    pub q_filter: Option<String>,
}

/// What a listing selects: a blank filter selects everything.
pub fn plan_narrators_list(query: &NarratorsListQuery) -> (r: Result<
    NarratorsListPlan,
    error::ApiError,
>)
    ensures
        match r {
            Ok(p) => {
                &&& sort_of(text::opt_text(query.sort)) == Ok::<NarratorsSort, error::ErrorView>(
                    p.sort,
                )
                &&& p.limit == pagination::limit_of(query.limit)
                &&& p.offset == pagination::offset_of(query.offset)
                &&& text::opt_text(p.q_filter) == like::like_pattern(
                    text::opt_text(query.q),
                )
            },
            Err(e) => sort_of(text::opt_text(query.sort)) == Err::<
                NarratorsSort,
                error::ErrorView,
            >(e@),
        },
{
    match NarratorsSort::parse(text::opt_as_str(&query.sort)) {
        Ok(sort) => Ok(
            NarratorsListPlan {
                sort,
                limit: pagination::clamp_limit(query.limit),
                offset: pagination::clamp_offset(query.offset),
                q_filter: like::like_filter(text::opt_as_str(&query.q)),
            },
        ),
        Err(e) => Err(e),
    }
}

/// The `ORDER BY` of a listing.
pub open spec fn order_clause(sort: NarratorsSort) -> Seq<char> {
    match sort {
        NarratorsSort::Name => "n.name COLLATE NOCASE"@,
        NarratorsSort::NameSort => "COALESCE(n.name_sort, n.name) COLLATE NOCASE"@,
        NarratorsSort::BookCountDesc => {
            "(SELECT COUNT(*) FROM book_narrator WHERE narrator_id = n.narrator_id) DESC, n.name COLLATE NOCASE"@
        },
    }
}

/// The query of a listing. It takes the name pattern, the page size and the
/// offset.
pub open spec fn list_sql_text(sort: NarratorsSort) -> Seq<char> {
    "SELECT n.narrator_id, n.name, n.name_sort, n.audible_id, n.image_url, (SELECT COUNT(*) FROM book_narrator WHERE narrator_id = n.narrator_id) FROM narrators n WHERE ?1 IS NULL OR n.name LIKE ?1 ESCAPE '\\' ORDER BY "@
        + order_clause(sort) + " LIMIT ?2 OFFSET ?3"@
}

/// The query of a listing.
pub fn list_sql(sort: NarratorsSort) -> (s: String)
    ensures
        s@ == list_sql_text(sort),
{
    let mut s = text::owned(
        "SELECT n.narrator_id, n.name, n.name_sort, n.audible_id, n.image_url, (SELECT COUNT(*) FROM book_narrator WHERE narrator_id = n.narrator_id) FROM narrators n WHERE ?1 IS NULL OR n.name LIKE ?1 ESCAPE '\\' ORDER BY ",
    );
    match sort {
        NarratorsSort::Name => s.append("n.name COLLATE NOCASE"),
        NarratorsSort::NameSort => s.append("COALESCE(n.name_sort, n.name) COLLATE NOCASE"),
        NarratorsSort::BookCountDesc => s.append(
            "(SELECT COUNT(*) FROM book_narrator WHERE narrator_id = n.narrator_id) DESC, n.name COLLATE NOCASE",
        ),
    }
    s.append(" LIMIT ?2 OFFSET ?3");
    s
}

/// The query for the number of narrators that a listing selects, whatever its
/// page. It takes the name pattern.
pub fn count_sql() -> (s: &'static str)
    ensures
        s@
            == "SELECT COUNT(*) FROM narrators WHERE ?1 IS NULL OR name LIKE ?1 ESCAPE '\\'"@,
{
    "SELECT COUNT(*) FROM narrators WHERE ?1 IS NULL OR name LIKE ?1 ESCAPE '\\'"
}

/// The answer to a listing.
pub fn narrators_list_response(
    plan: &NarratorsListPlan,
    narrators: Vec<NarratorListItem>,
    total: i64,
) -> (r: NarratorsListResponse)
    ensures
        r == (NarratorsListResponse { narrators, total, limit: plan.limit, offset: plan.offset }),
{
    NarratorsListResponse { narrators, total, limit: plan.limit, offset: plan.offset }
}

/// The answer to a request for one narrator.
pub fn narrators_get(narrator_id: i64, row: Option<NarratorDetail>) -> (r: Result<
    NarratorDetail,
    error::ApiError,
>)
    ensures
        match row {
            Some(d) => r == Ok::<NarratorDetail, error::ApiError>(d),
            None => r matches Err(e) && e@ == error::ErrorView::NotFound(
                error::numbered_text("narrator"@, narrator_id as int),
            ),
        },
{
    match row {
        Some(d) => Ok(d),
        None => Err(error::missing("narrator", narrator_id)),
    }
}

/// The page that a request for a narrator's books selects; an unknown
/// narrator is an error.
pub fn plan_narrators_books(exists: bool, narrator_id: i64, query: &NarratorBooksQuery) -> (r:
    Result<(i64, i64), error::ApiError>)
    ensures
        match r {
            Ok((limit, offset)) => exists && limit == pagination::limit_of(query.limit) && offset
                == pagination::offset_of(query.offset),
            Err(e) => !exists && e@ == error::ErrorView::NotFound(
                error::numbered_text("narrator"@, narrator_id as int),
            ),
        },
{
    if exists {
        Ok((pagination::clamp_limit(query.limit), pagination::clamp_offset(query.offset)))
    } else {
        Err(error::missing("narrator", narrator_id))
    }
}

/// The answer to a request for a narrator's books.
pub fn narrator_books_response(
    page: (i64, i64),
    books: Vec<NarratorBookEntry>,
    total: i64,
) -> (r: NarratorBooksResponse)
    ensures
        r == (NarratorBooksResponse { books, total, limit: page.0, offset: page.1 }),
{
    NarratorBooksResponse { books, total, limit: page.0, offset: page.1 }
}

// ── Laws ───────────────────────────────────────────────────────────

/// The words that name a sort, each its own; no word is the name.
pub proof fn law_sort_words(t: Seq<char>)
    ensures
        sort_of(None) == Ok::<NarratorsSort, error::ErrorView>(NarratorsSort::Name),
        sort_of(Some(""@)) == Ok::<NarratorsSort, error::ErrorView>(NarratorsSort::Name),
        sort_of(Some("name"@)) == Ok::<NarratorsSort, error::ErrorView>(NarratorsSort::Name),
        sort_of(Some("name_sort"@)) == Ok::<NarratorsSort, error::ErrorView>(
            NarratorsSort::NameSort,
        ),
        sort_of(Some("book_count"@)) == Ok::<NarratorsSort, error::ErrorView>(
            NarratorsSort::BookCountDesc,
        ),
        t != ""@ && t != "name"@ && t != "name_sort"@ && t != "book_count"@ ==> sort_of(
            Some(t),
        ) matches Err(error::ErrorView::BadRequest(_)),
{
    reveal_strlit("");
    reveal_strlit("name");
    reveal_strlit("name_sort");
    reveal_strlit("book_count");
    assert("name"@.len() == 4 && "name_sort"@.len() == 9 && "book_count"@.len() == 10);
}

/// Each sort orders by its own column, and the page is cut last: the pattern
/// is the first parameter, the size the second, the offset the third.
pub proof fn law_list_query()
    ensures
        ({
            let head =
                "SELECT n.narrator_id, n.name, n.name_sort, n.audible_id, n.image_url, (SELECT COUNT(*) FROM book_narrator WHERE narrator_id = n.narrator_id) FROM narrators n WHERE ?1 IS NULL OR n.name LIKE ?1 ESCAPE '\\' ORDER BY "@;
            let tail = " LIMIT ?2 OFFSET ?3"@;
            &&& list_sql_text(NarratorsSort::Name) == head + "n.name COLLATE NOCASE"@ + tail
            &&& list_sql_text(NarratorsSort::NameSort) == head
                + "COALESCE(n.name_sort, n.name) COLLATE NOCASE"@ + tail
            &&& list_sql_text(NarratorsSort::BookCountDesc) == head
                + "(SELECT COUNT(*) FROM book_narrator WHERE narrator_id = n.narrator_id) DESC, n.name COLLATE NOCASE"@
                + tail
        }),
{
}

/// An unknown sort is refused with those that are known.
pub proof fn law_unknown_sort(t: Seq<char>)
    requires
        t != ""@,
        t != "name"@,
        t != "name_sort"@,
        t != "book_count"@,
    ensures
        sort_of(Some(t)) == Err::<NarratorsSort, error::ErrorView>(
            error::ErrorView::BadRequest(
                "unknown sort "@ + text::quoted(t)
                    + "; expected one of name / name_sort / book_count"@,
            ),
        ),
{
}

} // verus!

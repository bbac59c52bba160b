//! Errors of the HTTP surface and the problem document each is answered with.

use crate::text;
use vstd::prelude::*;

verus! {

/// An error of the layers below the HTTP surface.
#[derive(Debug)]
pub enum CoreError {
    /// A database failure, with its context.
    Database(String),
    /// A broken invariant.
    Invariant(String),
}

impl CoreError {
    /// What the error says.
    pub open spec fn says(self) -> Seq<char> {
        match self {
            CoreError::Database(m) => m@,
            CoreError::Invariant(m) => m@,
        }
    }

    /// What the error says.
    pub fn text(&self) -> (r: &str)
        ensures
            r@ == self.says(),
    {
        match self {
            CoreError::Database(m) => m.as_str(),
            CoreError::Invariant(m) => m.as_str(),
        }
    }
}

/// An error of the HTTP surface.
#[derive(Debug)]
pub enum ApiError {
    /// No or a bad bearer token.
    Unauthorized,
    /// The caller may not do this.
    Forbidden,
    /// The resource does not exist.
    NotFound(String),
    /// The request is malformed.
    BadRequest(String),
    /// The request conflicts with the state of the resource.
    Conflict(String),
    /// The caller has used up its rate budget.
    RateLimited {
        /// Seconds to wait before the next try.
        retry_after_secs: u64,
    },
    /// Something below failed.
    Internal(CoreError),
}

/// An error in terms of its texts.
pub enum ErrorView {
    /// No or a bad bearer token.
    Unauthorized,
    /// The caller may not do this.
    Forbidden,
    /// The resource does not exist.
    NotFound(Seq<char>),
    /// The request is malformed.
    BadRequest(Seq<char>),
    /// The request conflicts with the state of the resource.
    Conflict(Seq<char>),
    /// The caller has used up its rate budget.
    RateLimited(u64),
    /// A database failure.
    Database(Seq<char>),
    /// A broken invariant.
    Invariant(Seq<char>),
}

impl View for ApiError {
    type V = ErrorView;

    open spec fn view(&self) -> ErrorView {
        match *self {
            ApiError::Unauthorized => ErrorView::Unauthorized,
            ApiError::Forbidden => ErrorView::Forbidden,
            ApiError::NotFound(m) => ErrorView::NotFound(m@),
            ApiError::BadRequest(m) => ErrorView::BadRequest(m@),
            ApiError::Conflict(m) => ErrorView::Conflict(m@),
            ApiError::RateLimited { retry_after_secs } => ErrorView::RateLimited(retry_after_secs),
            ApiError::Internal(CoreError::Database(m)) => ErrorView::Database(m@),
            ApiError::Internal(CoreError::Invariant(m)) => ErrorView::Invariant(m@),
        }
    }
}

/// A problem document.
#[derive(Debug)]
pub struct Problem {
    /// Stable identifier of the kind of problem.
    pub kind: &'static str,
    /// Short title.
    pub title: &'static str,
    /// HTTP status.
    pub status: u16,
    /// What went wrong.
    pub detail: String,
}

impl ErrorView {
    /// HTTP status of an error.
    pub open spec fn status(self) -> u16 {
        match self {
            ErrorView::Unauthorized => 401,
            ErrorView::Forbidden => 403,
            ErrorView::NotFound(_) => 404,
            ErrorView::BadRequest(_) => 400,
            ErrorView::Conflict(_) => 409,
            ErrorView::RateLimited(_) => 429,
            ErrorView::Database(_) => 500,
            ErrorView::Invariant(_) => 500,
        }
    }

    /// Stable identifier of an error.
    pub open spec fn kind(self) -> Seq<char> {
        match self {
            ErrorView::Unauthorized => "about:blank#unauthorized"@,
            ErrorView::Forbidden => "about:blank#forbidden"@,
            ErrorView::NotFound(_) => "about:blank#not-found"@,
            ErrorView::BadRequest(_) => "about:blank#bad-request"@,
            ErrorView::Conflict(_) => "about:blank#conflict"@,
            ErrorView::RateLimited(_) => "about:blank#rate-limited"@,
            ErrorView::Database(_) => "about:blank#internal"@,
            ErrorView::Invariant(_) => "about:blank#internal"@,
        }
    }

    /// Title of an error.
    pub open spec fn title(self) -> Seq<char> {
        match self {
            ErrorView::Unauthorized => "Unauthorized"@,
            ErrorView::Forbidden => "Forbidden"@,
            ErrorView::NotFound(_) => "Not Found"@,
            ErrorView::BadRequest(_) => "Bad Request"@,
            ErrorView::Conflict(_) => "Conflict"@,
            ErrorView::RateLimited(_) => "Too Many Requests"@,
            ErrorView::Database(_) => "Internal Server Error"@,
            ErrorView::Invariant(_) => "Internal Server Error"@,
        }
    }

    /// What an error says.
    pub open spec fn says(self) -> Seq<char> {
        match self {
            ErrorView::Unauthorized => "unauthorized"@,
            ErrorView::Forbidden => "forbidden"@,
            ErrorView::NotFound(m) => "not found: "@ + m,
            ErrorView::BadRequest(m) => "bad request: "@ + m,
            ErrorView::Conflict(m) => "conflict: "@ + m,
            ErrorView::RateLimited(n) => "too many requests: retry after "@ + text::decimal(
                n as nat,
            ) + "s"@,
            ErrorView::Database(m) => "internal: "@ + m,
            ErrorView::Invariant(m) => "internal: "@ + m,
        }
    }

    /// Seconds after which a caller may try again, where it must wait.
    pub open spec fn retry_after(self) -> Option<u64> {
        match self {
            ErrorView::RateLimited(n) => Some(n),
            _ => None,
        }
    }
}

fn prefixed(prefix: &str, message: &str) -> (s: String)
    ensures
        s@ == prefix@ + message@,
{
    let mut s = text::owned(prefix);
    s.append(message);
    s
}

impl ApiError {
    /// What the error says.
    pub fn message(&self) -> (s: String)
        ensures
            s@ == self@.says(),
    {
        match self {
            ApiError::Unauthorized => text::owned("unauthorized"),
            ApiError::Forbidden => text::owned("forbidden"),
            ApiError::NotFound(m) => prefixed("not found: ", m.as_str()),
            ApiError::BadRequest(m) => prefixed("bad request: ", m.as_str()),
            ApiError::Conflict(m) => prefixed("conflict: ", m.as_str()),
            ApiError::RateLimited { retry_after_secs } => {
                let mut s = text::owned("too many requests: retry after ");
                s.append(text::u64_text(*retry_after_secs).as_str());
                s.append("s");
                s
            },
            ApiError::Internal(e) => prefixed("internal: ", e.text()),
        }
    }

    /// The problem document that answers the error.
    pub fn to_problem(&self) -> (p: Problem)
        ensures
            p.status == self@.status(),
            p.kind@ == self@.kind(),
            p.title@ == self@.title(),
            p.detail@ == self@.says(),
    {
        let detail = self.message();
        match self {
            ApiError::Unauthorized => Problem {
                kind: "about:blank#unauthorized",
                title: "Unauthorized",
                status: 401,
                detail,
            },
            ApiError::Forbidden => Problem {
                kind: "about:blank#forbidden",
                title: "Forbidden",
                status: 403,
                detail,
            },
            ApiError::NotFound(_) => Problem {
                kind: "about:blank#not-found",
                title: "Not Found",
                status: 404,
                detail,
            },
            ApiError::BadRequest(_) => Problem {
                kind: "about:blank#bad-request",
                title: "Bad Request",
                status: 400,
                detail,
            },
            ApiError::Conflict(_) => Problem {
                kind: "about:blank#conflict",
                title: "Conflict",
                status: 409,
                detail,
            },
            ApiError::RateLimited { .. } => Problem {
                kind: "about:blank#rate-limited",
                title: "Too Many Requests",
                status: 429,
                detail,
            },
            ApiError::Internal(_) => Problem {
                kind: "about:blank#internal",
                title: "Internal Server Error",
                status: 500,
                detail,
            },
        }
    }

    /// The value of the `Retry-After` header, where the answer carries one.
    pub fn retry_after(&self) -> (r: Option<u64>)
        ensures
            r == self@.retry_after(),
    {
        match self {
            ApiError::RateLimited { retry_after_secs } => Some(*retry_after_secs),
            _ => None,
        }
    }

    /// The value of the `Content-Type` header: every error is answered with a
    /// problem document.
    pub fn content_type(&self) -> (r: &'static str)
        ensures
            r@ == "application/problem+json"@,
    {
        "application/problem+json"
    }
}

/// A database failure with its context.
pub fn database_error(context: &str, reason: &str) -> (e: ApiError)
    ensures
        e@ == ErrorView::Database(context@ + ": "@ + reason@),
{
    let mut s = text::owned(context);
    s.append(": ");
    s.append(reason);
    ApiError::Internal(CoreError::Database(s))
}

/// Every answer to an error has an error status, and exactly the rate-limit
/// answer says when to try again.
pub proof fn law_error_status(e: ErrorView)
    ensures
        400 <= e.status() < 600,
        e.retry_after() is Some <==> e.status() == 429,
        e.status() >= 500 <==> (e is Database || e is Invariant),
{
}

/// A numbered thing, such as `book 7`.
pub open spec fn numbered_text(what: Seq<char>, id: int) -> Seq<char> {
    what + " "@ + text::signed_decimal(id)
}

/// A numbered thing, such as `book 7`.
pub fn numbered(what: &str, id: i64) -> (s: String)
    ensures
        s@ == numbered_text(what@, id as int),
{
    let mut s = text::owned(what);
    s.append(" ");
    s.append(text::i64_text(id).as_str());
    s
}

/// That a numbered thing does not exist.
pub fn missing(what: &str, id: i64) -> (e: ApiError)
    ensures
        e@ == ErrorView::NotFound(numbered_text(what@, id as int)),
{
    ApiError::NotFound(numbered(what, id))
}

/// Fails where a numbered thing does not exist.
pub fn ensure_exists(exists: bool, what: &str, id: i64) -> (r: Result<(), ApiError>)
    ensures
        exists ==> r is Ok,
        !exists ==> (r matches Err(e) && e@ == ErrorView::NotFound(
            numbered_text(what@, id as int),
        )),
{
    if exists {
        Ok(())
    } else {
        Err(missing(what, id))
    }
}

/// Every error has the status of its kind.
pub proof fn law_statuses(m: Seq<char>, n: u64)
    ensures
        ErrorView::BadRequest(m).status() == 400,
        ErrorView::Unauthorized.status() == 401,
        ErrorView::Forbidden.status() == 403,
        ErrorView::NotFound(m).status() == 404,
        ErrorView::Conflict(m).status() == 409,
        ErrorView::RateLimited(n).status() == 429,
        ErrorView::Database(m).status() == 500,
        ErrorView::Invariant(m).status() == 500,
        ErrorView::RateLimited(n).retry_after() == Some(n),
{
}

/// The identifier of an error is that of its kind and does not depend on what
/// it says.
pub proof fn law_kinds(m: Seq<char>, n: u64)
    ensures
        ErrorView::BadRequest(m).kind() == "about:blank#bad-request"@,
        ErrorView::Unauthorized.kind() == "about:blank#unauthorized"@,
        ErrorView::Forbidden.kind() == "about:blank#forbidden"@,
        ErrorView::NotFound(m).kind() == "about:blank#not-found"@,
        ErrorView::Conflict(m).kind() == "about:blank#conflict"@,
        ErrorView::RateLimited(n).kind() == "about:blank#rate-limited"@,
        ErrorView::Database(m).kind() == "about:blank#internal"@,
        ErrorView::Invariant(m).kind() == "about:blank#internal"@,
{
}

/// The title of an error is the phrase that belongs to its status.
pub proof fn law_titles(e: ErrorView)
    ensures
        e.status() == 400 ==> e.title() == "Bad Request"@,
        e.status() == 401 ==> e.title() == "Unauthorized"@,
        e.status() == 403 ==> e.title() == "Forbidden"@,
        e.status() == 404 ==> e.title() == "Not Found"@,
        e.status() == 409 ==> e.title() == "Conflict"@,
        e.status() == 429 ==> e.title() == "Too Many Requests"@,
        e.status() == 500 ==> e.title() == "Internal Server Error"@,
{
}

/// What an error says ends with the message that it carries.
pub proof fn law_messages(m: Seq<char>, n: u64)
    ensures
        ErrorView::Unauthorized.says() == "unauthorized"@,
        ErrorView::Forbidden.says() == "forbidden"@,
        ErrorView::BadRequest(m).says() == "bad request: "@ + m,
        ErrorView::NotFound(m).says() == "not found: "@ + m,
        ErrorView::Conflict(m).says() == "conflict: "@ + m,
        ErrorView::Database(m).says() == "internal: "@ + m,
        ErrorView::Invariant(m).says() == "internal: "@ + m,
        ErrorView::RateLimited(n).says() == "too many requests: retry after "@ + text::decimal(
            n as nat,
        ) + "s"@,
{
}

/// An error shows the texts it was made with.
pub proof fn law_views(m: String, n: u64)
    ensures
        ApiError::Unauthorized@ == ErrorView::Unauthorized,
        ApiError::Forbidden@ == ErrorView::Forbidden,
        ApiError::NotFound(m)@ == ErrorView::NotFound(m@),
        ApiError::BadRequest(m)@ == ErrorView::BadRequest(m@),
        ApiError::Conflict(m)@ == ErrorView::Conflict(m@),
        (ApiError::RateLimited { retry_after_secs: n })@ == ErrorView::RateLimited(n),
        ApiError::Internal(CoreError::Database(m))@ == ErrorView::Database(m@),
        ApiError::Internal(CoreError::Invariant(m))@ == ErrorView::Invariant(m@),
        CoreError::Database(m).says() == m@,
        CoreError::Invariant(m).says() == m@,
{
}

/// A numbered thing is told by its name and its number, one blank apart.
pub proof fn law_numbered(what: Seq<char>, id: int)
    ensures
        numbered_text(what, id).len() == what.len() + 1 + text::signed_decimal(id).len(),
        numbered_text(what, id).take(what.len() as int) == what,
        numbered_text(what, id)[what.len() as int] == ' ',
        numbered_text(what, id).skip(what.len() as int + 1) == text::signed_decimal(id),
{
    reveal_strlit(" ");
    assert(numbered_text(what, id).take(what.len() as int) =~= what);
    assert(numbered_text(what, id).skip(what.len() as int + 1) =~= text::signed_decimal(id));
}

} // verus!

//! Reading state and playback position of a book.

use crate::error;
use crate::journal_replayers::ReadingStatus;
use crate::text;
use vstd::prelude::*;

verus! {

/// A new status.
#[derive(Debug)]
pub struct StatusBody {
    /// The status.
    pub reading_status: ReadingStatus,
}

/// A new rating.
#[derive(Debug)]
pub struct RatingBody {
    /// One to five, or none to clear it.
    pub rating: Option<u8>,
}

/// New notes.
#[derive(Debug)]
pub struct NotesBody {
    /// The notes; blank ones clear them.
    pub notes: Option<String>,
}

/// That a change was made.
#[derive(Debug)]
pub struct Ack {
    /// True.
    pub ok: bool,
}

/// Why reading state could not be read or written.
#[derive(Debug)]
pub enum ProgressError {
    /// The book does not exist.
    NotFound(i64),
    /// Something below failed.
    Core(error::CoreError),
}

/// What a failure is answered with.
pub fn progress_error(err: ProgressError) -> (e: error::ApiError)
    ensures
        match err {
            ProgressError::NotFound(id) => e@ == error::ErrorView::NotFound(
                error::numbered_text("book"@, id as int),
            ),
            ProgressError::Core(c) => e == error::ApiError::Internal(c),
        },
{
    match err {
        ProgressError::NotFound(id) => error::missing("book", id),
        ProgressError::Core(c) => error::ApiError::Internal(c),
    }
}

/// The answer to a change.
pub fn acknowledged(outcome: Result<(), ProgressError>) -> (r: Result<Ack, error::ApiError>)
    ensures
        match outcome {
            Ok(()) => r matches Ok(a) && a.ok,
            Err(ProgressError::NotFound(id)) => r matches Err(e) && e@
                == error::ErrorView::NotFound(error::numbered_text("book"@, id as int)),
            Err(ProgressError::Core(c)) => r matches Err(e) && e == error::ApiError::Internal(c),
        },
{
    match outcome {
        Ok(()) => Ok(Ack { ok: true }),
        Err(err) => Err(progress_error(err)),
    }
}

/// The rating to store: one to five, or none.
pub fn books_rating_patch(body: &RatingBody) -> (r: Result<Option<u8>, error::ApiError>)
    ensures
        match body.rating {
            Some(n) => if 1 <= n <= 5 {
                r == Ok::<Option<u8>, error::ApiError>(Some(n))
            } else {
                r matches Err(e) && e@ == error::ErrorView::BadRequest(
                    "rating must be 1..=5, got "@ + text::decimal(n as nat),
                )
            },
            None => r == Ok::<Option<u8>, error::ApiError>(None),
        },
{
    match body.rating {
        Some(n) => if 1 <= n && n <= 5 {
            Ok(Some(n))
        } else {
            let mut m = text::owned("rating must be 1..=5, got ");
            m.append(text::u64_text(n as u64).as_str());
            Err(error::ApiError::BadRequest(m))
        },
        None => Ok(None),
    }
}

/// The notes to store: blank ones are none.
pub open spec fn stored_notes(notes: Option<Seq<char>>) -> Option<Seq<char>> {
    match notes {
        Some(s) => if text::trimmed(s).len() == 0 {
            None
        } else {
            Some(s)
        },
        None => None,
    }
}

/// The notes to store.
pub fn books_notes_patch(body: NotesBody) -> (r: Option<String>)
    ensures
        text::opt_text(r) == stored_notes(text::opt_text(body.notes)),
{
    match body.notes {
        Some(s) => if text::trim(s.as_str()).as_str().is_empty() {
            None
        } else {
            Some(s)
        },
        None => None,
    }
}

/// The answer to a position report.
#[derive(Debug)]
pub struct SyncResponse {
    /// Whether the report was written.
    pub accepted: bool,
}

/// Whether a report is written: it is not where a newer one has landed.
pub open spec fn wins(reported_at: i64, last_synced_at: Option<i64>) -> bool {
    !(last_synced_at matches Some(t) && t > reported_at)
}

/// The time of the report that stands after one was made.
pub open spec fn standing(last_synced_at: Option<i64>, reported_at: i64) -> Option<i64> {
    if wins(reported_at, last_synced_at) {
        Some(reported_at)
    } else {
        last_synced_at
    }
}

/// The last write wins: reports that arrive in any order leave the newest one
/// standing, and an older one never replaces it.
pub proof fn law_last_write_wins(last_synced_at: Option<i64>, a: i64, b: i64)
    ensures
        standing(standing(last_synced_at, a), b) == standing(standing(last_synced_at, b), a),
        standing(last_synced_at, a) matches Some(t) && t >= a,
        last_synced_at matches Some(t) ==> standing(last_synced_at, a)->0 >= t,
{
}

/// Whether a report is written.
pub fn session_sync(reported_at: i64, last_synced_at: Option<i64>) -> (r: SyncResponse)
    ensures
        r.accepted == wins(reported_at, last_synced_at),
{
    SyncResponse {
        accepted: match last_synced_at {
            Some(t) => t <= reported_at,
            None => true,
        },
    }
}

/// The stored position of a book.
#[derive(Debug)]
pub struct MediaProgress {
    /// The book.
    pub book_id: i64,
    /// Position.
    pub current_time_ms: i64,
    /// Whether it was heard to the end.
    pub is_finished: bool,
    /// Time of listening.
    pub last_listened_at: Option<i64>,
    /// The device that reported.
    pub last_synced_from: Option<String>,
    /// Time of the report.
    pub last_synced_at: Option<i64>,
}

/// The position of a book as it is answered.
#[derive(Debug)]
pub struct ProgressResponse {
    /// The book.
    pub book_id: i64,
    /// Position.
    pub current_time_ms: i64,
    /// Whether it was heard to the end.
    pub is_finished: bool,
    /// Time of listening.
    pub last_listened_at: Option<i64>,
    /// The device that reported.
    pub last_synced_from: Option<String>,
    /// Time of the report.
    pub last_synced_at: Option<i64>,
}

/// The position of a book: the beginning where it was never played.
pub fn books_progress_get(book_id: i64, stored: Option<MediaProgress>) -> (r: ProgressResponse)
    ensures
        match stored {
            Some(p) => r == (ProgressResponse {
                book_id: p.book_id,
                current_time_ms: p.current_time_ms,
                is_finished: p.is_finished,
                last_listened_at: p.last_listened_at,
                last_synced_from: p.last_synced_from,
                last_synced_at: p.last_synced_at,
            }),
            None => r == (ProgressResponse {
                book_id,
                current_time_ms: 0,
                is_finished: false,
                last_listened_at: None,
                last_synced_from: None,
                last_synced_at: None,
            }),
        },
{
    match stored {
        Some(p) => ProgressResponse {
            book_id: p.book_id,
            current_time_ms: p.current_time_ms,
            is_finished: p.is_finished,
            last_listened_at: p.last_listened_at,
            last_synced_from: p.last_synced_from,
            last_synced_at: p.last_synced_at,
        },
        None => ProgressResponse {
            book_id,
            current_time_ms: 0,
            is_finished: false,
            last_listened_at: None,
            last_synced_from: None,
            last_synced_at: None,
        },
    }
}

/// Notes are stored as they were written, blanks around them included; those
/// that are only blanks are none.
pub proof fn law_notes_stay_as_written(notes: Seq<char>)
    ensures
        stored_notes(None) is None,
        stored_notes(Some(notes)) is None <==> forall|i: int|
            0 <= i < notes.len() ==> text::white(#[trigger] notes[i]),
        stored_notes(Some(notes)) is Some ==> stored_notes(Some(notes)) == Some(notes),
{
    text::law_trim_takes_whitespace(notes);
}

/// A report is written exactly where none is newer. One as old as the last is
/// written again.
pub proof fn law_report_accepted(reported_at: i64, last: i64)
    ensures
        wins(reported_at, None),
        wins(reported_at, Some(last)) <==> last <= reported_at,
{
}

} // verus!

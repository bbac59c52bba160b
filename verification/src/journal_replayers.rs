//! Replaying journal entries whose mutation may not have landed. A replay
//! applies the recorded intent only where the row is still as it was
//! recorded, and is harmless where the intent has landed already.

use crate::collections;
use crate::error;
use crate::journal::JsonField;
use crate::text;
use vstd::prelude::*;

verus! {

/// Kind of operation that sets the status of a book.
pub const OP_KIND_BOOK_STATUS_SET: &'static str = "book-status-set";

/// Kind of operation that sets the rating of a book.
pub const OP_KIND_BOOK_RATING_SET: &'static str = "book-rating-set";

/// Kind of operation that sets the notes of a book.
pub const OP_KIND_BOOK_NOTES_SET: &'static str = "book-notes-set";

/// Kind of operation that sets the title of a book.
pub const OP_KIND_BOOK_TITLE_SET: &'static str = "book-title-set";

/// What a replay does next.
#[derive(Debug)]
pub enum ReplayStep<T> {
    /// Nothing, and why.
    Skipped(String),
    /// It applies a value.
    Apply(T),
}

/// A step in terms of its texts.
pub enum StepView<T> {
    /// Nothing, and why.
    Skipped(Seq<char>),
    /// It applies a value.
    Apply(T),
}

/// That a book is gone.
pub open spec fn gone(book_id: i64) -> Seq<char> {
    error::numbered_text("book"@, book_id as int) + " no longer exists"@
}

fn say_gone(book_id: i64) -> (s: String)
    ensures
        s@ == gone(book_id),
{
    let mut s = error::numbered("book", book_id);
    s.append(" no longer exists");
    s
}

/// That a column already has the intended value.
pub open spec fn applied(column: Seq<char>, shown: Seq<char>) -> Seq<char> {
    "already applied — "@ + column + " is already "@ + shown
}

fn say_applied(column: &str, shown: &str) -> (s: String)
    ensures
        s@ == applied(column@, shown@),
{
    let mut s = text::owned("already applied — ");
    s.append(column);
    s.append(" is already ");
    s.append(shown);
    s
}

/// That a column has neither the recorded nor the intended value.
pub open spec fn drifted(column: Seq<char>, found: Seq<char>, recorded: Seq<char>) -> Seq<char> {
    "drift detected — current "@ + column + " is "@ + found + ", expected "@ + recorded
        + " (someone else changed it)"@
}

fn say_drifted(column: &str, found: &str, recorded: &str) -> (s: String)
    ensures
        s@ == drifted(column@, found@, recorded@),
{
    let mut s = text::owned("drift detected — current ");
    s.append(column);
    s.append(" is ");
    s.append(found);
    s.append(", expected ");
    s.append(recorded);
    s.append(" (someone else changed it)");
    s
}

/// That a recorded value is not valid.
pub open spec fn invalid(field: Seq<char>, shown: Seq<char>, why: Seq<char>) -> Seq<char> {
    field + "="@ + shown + why
}

fn say_invalid(field: &str, shown: &str, why: &str) -> (s: String)
    ensures
        s@ == invalid(field@, shown@, why@),
{
    let mut s = text::owned(field);
    s.append("=");
    s.append(shown);
    s.append(why);
    s
}

// ── Text columns ───────────────────────────────────────────────────

/// What a replay of a text column does, given the value of the row.
pub open spec fn text_step(
    book_id: i64,
    column: Seq<char>,
    intent: Seq<char>,
    recorded: Seq<char>,
    row: Option<Seq<char>>,
) -> StepView<Seq<char>> {
    match row {
        None => StepView::Skipped(gone(book_id)),
        Some(found) => if found == intent {
            StepView::Skipped(applied(column, text::quoted(intent)))
        } else if found != recorded {
            StepView::Skipped(drifted(column, text::quoted(found), text::quoted(recorded)))
        } else {
            StepView::Apply(intent)
        },
    }
}

/// Whether a step is the one described, for a text that is applied.
pub open spec fn text_step_is(step: ReplayStep<String>, v: StepView<Seq<char>>) -> bool {
    match step {
        ReplayStep::Skipped(s) => v == StepView::<Seq<char>>::Skipped(s@),
        ReplayStep::Apply(t) => v == StepView::Apply(t@),
    }
}

fn decide_text(
    book_id: i64,
    column: &str,
    intent: &str,
    recorded: &str,
    row: Option<&str>,
) -> (r: ReplayStep<String>)
    ensures
        text_step_is(
            r,
            text_step(book_id, column@, intent@, recorded@, text::opt_str(row)),
        ),
{
    match row {
        None => ReplayStep::Skipped(say_gone(book_id)),
        Some(found) => {
            if text::same_text(found, intent) {
                return ReplayStep::Skipped(say_applied(column, text::quote(intent).as_str()));
            }
            if !text::same_text(found, recorded) {
                return ReplayStep::Skipped(
                    say_drifted(
                        column,
                        text::quote(found).as_str(),
                        text::quote(recorded).as_str(),
                    ),
                );
            }
            ReplayStep::Apply(text::owned(intent))
        },
    }
}

// ── Status ─────────────────────────────────────────────────────────

/// How far a book has been read.
#[derive(Debug, Clone, Copy, PartialEq, Eq, Structural)]
pub enum ReadingStatus {
    /// Not begun.
    WantToRead,
    /// Begun.
    Reading,
    /// Read.
    Finished,
    /// Given up.
    Dnf,
}

impl ReadingStatus {
    /// The stored text.
    pub open spec fn text_of(self) -> Seq<char> {
        match self {
            ReadingStatus::WantToRead => "want_to_read"@,
            ReadingStatus::Reading => "reading"@,
            ReadingStatus::Finished => "finished"@,
            ReadingStatus::Dnf => "dnf"@,
        }
    }

    /// The stored text.
    pub fn as_str(&self) -> (s: &'static str)
        ensures
            s@ == self.text_of(),
    {
        match self {
            ReadingStatus::WantToRead => "want_to_read",
            ReadingStatus::Reading => "reading",
            ReadingStatus::Finished => "finished",
            ReadingStatus::Dnf => "dnf",
        }
    }
}

/// Whether a text is a stored status.
pub open spec fn status_text(s: Seq<char>) -> bool {
    s == "want_to_read"@ || s == "reading"@ || s == "finished"@ || s == "dnf"@
}

/// The status that a text stores.
pub fn parse_status(s: &str) -> (r: Option<ReadingStatus>)
    ensures
        match r {
            Some(v) => v.text_of() == s@,
            None => !status_text(s@),
        },
{
    if text::same_text(s, "want_to_read") {
        Some(ReadingStatus::WantToRead)
    } else if text::same_text(s, "reading") {
        Some(ReadingStatus::Reading)
    } else if text::same_text(s, "finished") {
        Some(ReadingStatus::Finished)
    } else if text::same_text(s, "dnf") {
        Some(ReadingStatus::Dnf)
    } else {
        None
    }
}

/// Replays status changes.
pub struct StatusReplayer;

/// Why a status entry cannot be replayed, whatever the row holds.
pub open spec fn status_refusal(intent: JsonField, recorded: JsonField) -> Option<Seq<char>> {
    match intent.as_text() {
        None => Some("pre_state missing 'intent' field — cannot determine target status"@),
        Some(s) => match recorded.as_text() {
            None => Some("pre_state missing 'current' field — cannot detect drift"@),
            Some(_) => if status_text(s) {
                None
            } else {
                Some(
                    invalid(
                        "pre_state.intent"@,
                        text::quoted(s),
                        " is not a valid ReadingStatus"@,
                    ),
                )
            },
        },
    }
}

/// What a replay of a status entry does.
pub open spec fn status_step(
    book_id: i64,
    intent: JsonField,
    recorded: JsonField,
    row: Option<Seq<char>>,
) -> StepView<Seq<char>> {
    match status_refusal(intent, recorded) {
        Some(why) => StepView::Skipped(why),
        None => text_step(
            book_id,
            "reading_status"@,
            intent.as_text()->0,
            recorded.as_text()->0,
            row,
        ),
    }
}

impl StatusReplayer {
    /// The kind of operation that is replayed.
    pub fn op_kind(&self) -> (s: &'static str)
        ensures
            s@ == OP_KIND_BOOK_STATUS_SET@,
    {
        OP_KIND_BOOK_STATUS_SET
    }

    /// Why the entry cannot be replayed, whatever the row holds.
    pub fn refusal(&self, intent: &JsonField, recorded: &JsonField) -> (r: Option<String>)
        ensures
            text::opt_text(r) == status_refusal(*intent, *recorded),
    {
        match intent.as_str() {
            None => Some(
                text::owned("pre_state missing 'intent' field — cannot determine target status"),
            ),
            Some(s) => match recorded.as_str() {
                None => Some(
                    text::owned("pre_state missing 'current' field — cannot detect drift"),
                ),
                Some(_) => match parse_status(s) {
                    Some(_) => None,
                    None => Some(
                        say_invalid(
                            "pre_state.intent",
                            text::quote(s).as_str(),
                            " is not a valid ReadingStatus",
                        ),
                    ),
                },
            },
        }
    }

    /// What the replay does, given the status of the book's row.
    pub fn try_replay(
        &self,
        book_id: i64,
        intent: &JsonField,
        recorded: &JsonField,
        row: Option<&str>,
    ) -> (r: ReplayStep<String>)
        ensures
            text_step_is(r, status_step(book_id, *intent, *recorded, text::opt_str(row))),
    {
        match (intent.as_str(), recorded.as_str()) {
            (Some(i), Some(c)) => match parse_status(i) {
                Some(_) => decide_text(book_id, "reading_status", i, c, row),
                None => ReplayStep::Skipped(
                    say_invalid(
                        "pre_state.intent",
                        text::quote(i).as_str(),
                        " is not a valid ReadingStatus",
                    ),
                ),
            },
            (None, _) => ReplayStep::Skipped(
                text::owned("pre_state missing 'intent' field — cannot determine target status"),
            ),
            (_, None) => ReplayStep::Skipped(
                text::owned("pre_state missing 'current' field — cannot detect drift"),
            ),
        }
    }
}

// ── Rating ─────────────────────────────────────────────────────────

/// What a recorded rating says.
#[derive(Debug, Clone, Copy, PartialEq, Eq, Structural)]
pub enum ParsedRating {
    /// No rating.
    Cleared,
    /// One to five.
    Rated(i64),
    /// Neither.
    Malformed,
}

/// What a recorded rating says.
pub open spec fn rating_of(v: JsonField) -> ParsedRating {
    match v {
        JsonField::Null => ParsedRating::Cleared,
        JsonField::Int(n) => if 1 <= n <= 5 {
            ParsedRating::Rated(n)
        } else {
            ParsedRating::Malformed
        },
        _ => ParsedRating::Malformed,
    }
}

/// What a recorded rating says.
pub fn parse_rating(v: &JsonField) -> (r: ParsedRating)
    ensures
        r == rating_of(*v),
{
    match v {
        JsonField::Null => ParsedRating::Cleared,
        JsonField::Int(n) => if 1 <= *n && *n <= 5 {
            ParsedRating::Rated(*n)
        } else {
            ParsedRating::Malformed
        },
        _ => ParsedRating::Malformed,
    }
}

impl ParsedRating {
    /// The rating, where there is one.
    pub open spec fn value(self) -> Option<i64> {
        match self {
            ParsedRating::Rated(n) => Some(n),
            _ => None,
        }
    }

    fn rating(&self) -> (r: Option<i64>)
        ensures
            r == self.value(),
    {
        match self {
            ParsedRating::Rated(n) => Some(*n),
            _ => None,
        }
    }
}

/// How an optional integer is displayed for debugging.
pub open spec fn debug_int(v: Option<i64>) -> Seq<char> {
    match v {
        Some(n) => "Some("@ + text::signed_decimal(n as int) + ")"@,
        None => "None"@,
    }
}

fn show_debug_int(v: Option<i64>) -> (s: String)
    ensures
        s@ == debug_int(v),
{
    match v {
        Some(n) => {
            let mut s = text::owned("Some(");
            s.append(text::i64_text(n).as_str());
            s.append(")");
            s
        },
        None => text::owned("None"),
    }
}

/// Replays rating changes.
pub struct RatingReplayer;

/// Why a rating entry cannot be replayed, whatever the row holds.
pub open spec fn rating_refusal(intent: JsonField, recorded: JsonField) -> Option<Seq<char>> {
    if intent is Missing {
        Some("pre_state missing 'intent' field"@)
    } else if recorded is Missing {
        Some("pre_state missing 'current' field"@)
    } else if rating_of(intent) is Malformed {
        Some(
            invalid(
                "pre_state.intent"@,
                intent.shown(),
                " is not a valid rating (null or 1..=5)"@,
            ),
        )
    } else if rating_of(recorded) is Malformed {
        Some(invalid("pre_state.current"@, recorded.shown(), " is not a valid rating"@))
    } else {
        None
    }
}

/// What a replay of a rating entry does. The row is given by its rating,
/// where the book exists.
pub open spec fn rating_step(
    book_id: i64,
    intent: JsonField,
    recorded: JsonField,
    row: Option<Option<i64>>,
) -> StepView<Option<u8>> {
    match rating_refusal(intent, recorded) {
        Some(why) => StepView::Skipped(why),
        None => match row {
            None => StepView::Skipped(gone(book_id)),
            Some(found) => if found == rating_of(intent).value() {
                StepView::Skipped(applied("rating"@, intent.shown()))
            } else if found != rating_of(recorded).value() {
                StepView::Skipped(
                    drifted("rating"@, debug_int(found), debug_int(rating_of(recorded).value())),
                )
            } else {
                StepView::Apply(
                    match rating_of(intent).value() {
                        Some(n) => Some(n as u8),
                        None => None,
                    },
                )
            },
        },
    }
}

fn same_int(a: Option<i64>, b: Option<i64>) -> (r: bool)
    ensures
        r == (a == b),
{
    match (a, b) {
        (Some(x), Some(y)) => x == y,
        (None, None) => true,
        _ => false,
    }
}

impl RatingReplayer {
    /// The kind of operation that is replayed.
    pub fn op_kind(&self) -> (s: &'static str)
        ensures
            s@ == OP_KIND_BOOK_RATING_SET@,
    {
        OP_KIND_BOOK_RATING_SET
    }

    /// Why the entry cannot be replayed, whatever the row holds.
    pub fn refusal(&self, intent: &JsonField, recorded: &JsonField) -> (r: Option<String>)
        ensures
            text::opt_text(r) == rating_refusal(*intent, *recorded),
    {
        if matches!(intent, JsonField::Missing) {
            return Some(text::owned("pre_state missing 'intent' field"));
        }
        if matches!(recorded, JsonField::Missing) {
            return Some(text::owned("pre_state missing 'current' field"));
        }
        if matches!(parse_rating(intent), ParsedRating::Malformed) {
            return Some(
                say_invalid(
                    "pre_state.intent",
                    intent.show().as_str(),
                    " is not a valid rating (null or 1..=5)",
                ),
            );
        }
        if matches!(parse_rating(recorded), ParsedRating::Malformed) {
            return Some(
                say_invalid(
                    "pre_state.current",
                    recorded.show().as_str(),
                    " is not a valid rating",
                ),
            );
        }
        None
    }

    /// What the replay does, given the rating of the book's row.
    pub fn try_replay(
        &self,
        book_id: i64,
        intent: &JsonField,
        recorded: &JsonField,
        row: Option<Option<i64>>,
    ) -> (r: ReplayStep<Option<u8>>)
        ensures
            match r {
                ReplayStep::Skipped(s) => rating_step(book_id, *intent, *recorded, row)
                    == StepView::<Option<u8>>::Skipped(s@),
                ReplayStep::Apply(v) => rating_step(book_id, *intent, *recorded, row)
                    == StepView::Apply(v),
            },
    {
        if let Some(why) = self.refusal(intent, recorded) {
            return ReplayStep::Skipped(why);
        }
        let found = match row {
            Some(f) => f,
            None => {
                return ReplayStep::Skipped(say_gone(book_id));
            },
        };
        let wanted = parse_rating(intent).rating();
        let before = parse_rating(recorded).rating();
        if same_int(found, wanted) {
            return ReplayStep::Skipped(say_applied("rating", intent.show().as_str()));
        }
        if !same_int(found, before) {
            return ReplayStep::Skipped(
                say_drifted(
                    "rating",
                    show_debug_int(found).as_str(),
                    show_debug_int(before).as_str(),
                ),
            );
        }
        match wanted {
            Some(n) => ReplayStep::Apply(Some(n as u8)),
            None => ReplayStep::Apply(None),
        }
    }
}

// ── Notes ──────────────────────────────────────────────────────────

/// How an optional text is displayed for debugging.
pub open spec fn debug_text(v: Option<Seq<char>>) -> Seq<char> {
    match v {
        Some(s) => "Some("@ + text::quoted(s) + ")"@,
        None => "None"@,
    }
}

fn show_debug_text(v: Option<&str>) -> (s: String)
    ensures
        s@ == debug_text(text::opt_str(v)),
{
    match v {
        Some(t) => {
            let mut s = text::owned("Some(");
            s.append(text::quote(t).as_str());
            s.append(")");
            s
        },
        None => text::owned("None"),
    }
}

/// Whether a recorded value can be that of notes.
pub open spec fn notes_like(v: JsonField) -> bool {
    v is Null || v is Text
}

/// The notes that a recorded value says; none where it is not a string.
pub fn parse_notes(v: &JsonField) -> (r: Option<Option<&str>>)
    ensures
        match r {
            Some(o) => notes_like(*v) && text::opt_str(o) == v.as_text(),
            None => !notes_like(*v),
        },
{
    match v {
        JsonField::Null => Some(None),
        JsonField::Text(s) => Some(Some(s.as_str())),
        _ => None,
    }
}

/// Replays changes of the notes.
pub struct NotesReplayer;

/// Why a notes entry cannot be replayed, whatever the row holds.
pub open spec fn notes_refusal(intent: JsonField, recorded: JsonField) -> Option<Seq<char>> {
    if intent is Missing {
        Some("pre_state missing 'intent' field"@)
    } else if recorded is Missing {
        Some("pre_state missing 'current' field"@)
    } else if !notes_like(intent) {
        Some(
            invalid(
                "pre_state.intent"@,
                intent.shown(),
                " is not a valid notes value (null or string)"@,
            ),
        )
    } else if !notes_like(recorded) {
        Some(invalid("pre_state.current"@, recorded.shown(), " is not a valid notes value"@))
    } else {
        None
    }
}

/// What a replay of a notes entry does. The row is given by its notes, where
/// the book exists.
pub open spec fn notes_step(
    book_id: i64,
    intent: JsonField,
    recorded: JsonField,
    row: Option<Option<Seq<char>>>,
) -> StepView<Option<Seq<char>>> {
    match notes_refusal(intent, recorded) {
        Some(why) => StepView::Skipped(why),
        None => match row {
            None => StepView::Skipped(gone(book_id)),
            Some(found) => if found == intent.as_text() {
                StepView::Skipped(applied("notes"@, intent.shown()))
            } else if found != recorded.as_text() {
                StepView::Skipped(
                    drifted("notes"@, debug_text(found), debug_text(recorded.as_text())),
                )
            } else {
                StepView::Apply(intent.as_text())
            },
        },
    }
}

fn same_opt_text(a: Option<&str>, b: Option<&str>) -> (r: bool)
    ensures
        r == (text::opt_str(a) == text::opt_str(b)),
{
    match (a, b) {
        (Some(x), Some(y)) => text::same_text(x, y),
        (None, None) => true,
        _ => false,
    }
}

impl NotesReplayer {
    /// The kind of operation that is replayed.
    pub fn op_kind(&self) -> (s: &'static str)
        ensures
            s@ == OP_KIND_BOOK_NOTES_SET@,
    {
        OP_KIND_BOOK_NOTES_SET
    }

    /// Why the entry cannot be replayed, whatever the row holds.
    pub fn refusal(&self, intent: &JsonField, recorded: &JsonField) -> (r: Option<String>)
        ensures
            text::opt_text(r) == notes_refusal(*intent, *recorded),
    {
        if matches!(intent, JsonField::Missing) {
            return Some(text::owned("pre_state missing 'intent' field"));
        }
        if matches!(recorded, JsonField::Missing) {
            return Some(text::owned("pre_state missing 'current' field"));
        }
        if parse_notes(intent).is_none() {
            return Some(
                say_invalid(
                    "pre_state.intent",
                    intent.show().as_str(),
                    " is not a valid notes value (null or string)",
                ),
            );
        }
        if parse_notes(recorded).is_none() {
            return Some(
                say_invalid(
                    "pre_state.current",
                    recorded.show().as_str(),
                    " is not a valid notes value",
                ),
            );
        }
        None
    }

    /// What the replay does, given the notes of the book's row.
    pub fn try_replay(
        &self,
        book_id: i64,
        intent: &JsonField,
        recorded: &JsonField,
        row: Option<Option<&str>>,
    ) -> (r: ReplayStep<Option<String>>)
        ensures
            ({
                let found = match row {
                    Some(o) => Some(text::opt_str(o)),
                    None => None,
                };
                match r {
                    ReplayStep::Skipped(s) => notes_step(book_id, *intent, *recorded, found)
                        == StepView::<Option<Seq<char>>>::Skipped(s@),
                    ReplayStep::Apply(v) => notes_step(book_id, *intent, *recorded, found)
                        == StepView::Apply(text::opt_text(v)),
                }
            }),
    {
        if let Some(why) = self.refusal(intent, recorded) {
            return ReplayStep::Skipped(why);
        }
        let found = match row {
            Some(f) => f,
            None => {
                return ReplayStep::Skipped(say_gone(book_id));
            },
        };
        let wanted = intent.as_str();
        let before = recorded.as_str();
        if same_opt_text(found, wanted) {
            return ReplayStep::Skipped(say_applied("notes", intent.show().as_str()));
        }
        if !same_opt_text(found, before) {
            return ReplayStep::Skipped(
                say_drifted(
                    "notes",
                    show_debug_text(found).as_str(),
                    show_debug_text(before).as_str(),
                ),
            );
        }
        match wanted {
            Some(s) => ReplayStep::Apply(Some(text::owned(s))),
            None => ReplayStep::Apply(None),
        }
    }
}

// ── Title ──────────────────────────────────────────────────────────

/// Replays title changes.
pub struct TitleReplayer;

/// Why a title entry cannot be replayed, whatever the row holds.
pub open spec fn title_refusal(intent: JsonField, recorded: JsonField) -> Option<Seq<char>> {
    if intent.as_text() is None {
        Some("pre_state missing 'intent' field (or not a string)"@)
    } else if recorded.as_text() is None {
        Some("pre_state missing 'current' field (or not a string)"@)
    } else {
        None
    }
}

/// What a replay of a title entry does.
pub open spec fn title_step(
    book_id: i64,
    intent: JsonField,
    recorded: JsonField,
    row: Option<Seq<char>>,
) -> StepView<Seq<char>> {
    match title_refusal(intent, recorded) {
        Some(why) => StepView::Skipped(why),
        None => text_step(
            book_id,
            "title"@,
            intent.as_text()->0,
            recorded.as_text()->0,
            row,
        ),
    }
}

impl TitleReplayer {
    /// The kind of operation that is replayed.
    pub fn op_kind(&self) -> (s: &'static str)
        ensures
            s@ == OP_KIND_BOOK_TITLE_SET@,
    {
        OP_KIND_BOOK_TITLE_SET
    }

    /// Why the entry cannot be replayed, whatever the row holds.
    pub fn refusal(&self, intent: &JsonField, recorded: &JsonField) -> (r: Option<String>)
        ensures
            text::opt_text(r) == title_refusal(*intent, *recorded),
    {
        if intent.as_str().is_none() {
            return Some(text::owned("pre_state missing 'intent' field (or not a string)"));
        }
        if recorded.as_str().is_none() {
            return Some(text::owned("pre_state missing 'current' field (or not a string)"));
        }
        None
    }

    /// What the replay does, given the title of the book's row.
    pub fn try_replay(
        &self,
        book_id: i64,
        intent: &JsonField,
        recorded: &JsonField,
        row: Option<&str>,
    ) -> (r: ReplayStep<String>)
        ensures
            text_step_is(r, title_step(book_id, *intent, *recorded, text::opt_str(row))),
    {
        match (intent.as_str(), recorded.as_str()) {
            (Some(i), Some(c)) => decide_text(book_id, "title", i, c, row),
            (None, _) => ReplayStep::Skipped(
                text::owned("pre_state missing 'intent' field (or not a string)"),
            ),
            (_, None) => ReplayStep::Skipped(
                text::owned("pre_state missing 'current' field (or not a string)"),
            ),
        }
    }
}

// ── The outcome ────────────────────────────────────────────────────

/// A value that a replay recorded.
#[derive(Debug)]
pub struct PostField {
    /// Name.
    pub key: &'static str,
    /// Value.
    pub value: JsonField,
}

/// How a replay ended.
#[derive(Debug)]
pub enum ReplayDecision {
    /// The intent stands, with what is now recorded.
    Retried(Vec<PostField>),
    /// Nothing was done, and why.
    Skipped(String),
}

/// Why a value could not be applied.
#[derive(Debug)]
pub enum ApplyFailure {
    /// The book is gone.
    NotFound,
    /// Something below failed.
    Core(String),
}

/// Why a replay failed.
#[derive(Debug)]
pub enum JournalError {
    /// The target is gone.
    NotFound(i64),
    /// A database failure.
    Db(String),
}

/// The end of a replay that applied a value to a book, from what applying it
/// gave.
pub fn finish_replay(
    book_id: i64,
    context: &str,
    outcome: Result<(), ApplyFailure>,
    post: PostField,
) -> (r: Result<ReplayDecision, JournalError>)
    ensures
        match outcome {
            Ok(()) => r matches Ok(ReplayDecision::Retried(fields)) && fields@ == seq![post],
            Err(ApplyFailure::NotFound) => r == Err::<ReplayDecision, JournalError>(
                JournalError::NotFound(book_id),
            ),
            Err(ApplyFailure::Core(why)) => r matches Err(JournalError::Db(m)) && m@ == context@
                + ": "@ + why@,
        },
{
    match outcome {
        Ok(()) => {
            let mut fields: Vec<PostField> = Vec::new();
            fields.push(post);
            Ok(ReplayDecision::Retried(fields))
        },
        Err(ApplyFailure::NotFound) => Err(JournalError::NotFound(book_id)),
        Err(ApplyFailure::Core(why)) => {
            let mut m = text::owned(context);
            m.append(": ");
            m.append(why.as_str());
            Err(JournalError::Db(m))
        },
    }
}

/// What is recorded of an applied rating.
pub fn rating_field(rating: Option<u8>) -> (f: PostField)
    ensures
        f.key@ == "rating"@,
        match rating {
            Some(n) => f.value == JsonField::Int(n as i64),
            None => f.value is Null,
        },
{
    PostField {
        key: "rating",
        value: match rating {
            Some(n) => JsonField::Int(n as i64),
            None => JsonField::Null,
        },
    }
}

/// What is recorded of an applied text.
pub fn text_field(key: &'static str, value: Option<String>) -> (f: PostField)
    ensures
        f.key == key,
        match value {
            Some(s) => f.value == JsonField::Text(s),
            None => f.value is Null,
        },
{
    PostField {
        key,
        value: match value {
            Some(s) => JsonField::Text(s),
            None => JsonField::Null,
        },
    }
}

// ── New collections ────────────────────────────────────────────────

/// What was asked for when a collection was created.
#[derive(Debug)]
pub struct CollectionIntent {
    /// Name.
    pub name: JsonField,
    /// Normalised name.
    pub canonical_name: JsonField,
    /// Audible identifier.
    pub audible_id: JsonField,
    /// Description.
    pub description: JsonField,
    /// Free-text classification.
    pub kind: JsonField,
}

impl CollectionIntent {
    /// The columns that were asked for; a column that is not a string is
    /// absent.
    pub open spec fn columns(self) -> collections::CollectionView {
        collections::CollectionView {
            name: self.name.as_text()->0,
            canonical_name: self.canonical_name.as_text(),
            audible_id: self.audible_id.as_text(),
            description: self.description.as_text(),
            kind: self.kind.as_text(),
        }
    }
}

/// What a replay of a creation does next.
#[derive(Debug)]
pub enum CollectionStep {
    /// Nothing, and why.
    Skipped(String),
    /// Nothing: the collection exists under this name.
    AlreadyApplied(String),
    /// It inserts a collection.
    Insert(collections::NewCollection),
}

/// A step in terms of its texts.
pub enum CollectionStepView {
    /// Nothing, and why.
    Skipped(Seq<char>),
    /// Nothing: the collection exists under this name.
    AlreadyApplied(Seq<char>),
    /// It inserts a collection.
    Insert(collections::CollectionView),
}

impl View for CollectionStep {
    type V = CollectionStepView;

    open spec fn view(&self) -> CollectionStepView {
        match *self {
            CollectionStep::Skipped(s) => CollectionStepView::Skipped(s@),
            CollectionStep::AlreadyApplied(s) => CollectionStepView::AlreadyApplied(s@),
            CollectionStep::Insert(c) => CollectionStepView::Insert(c@),
        }
    }
}

/// What a replay of a creation does: `row_name` is the name at the recorded
/// row, where that exists, and `name_taken` the row that has the name.
pub open spec fn collection_step(
    captured_id: i64,
    intent: Option<CollectionIntent>,
    row_name: Option<Seq<char>>,
    name_taken: Option<i64>,
) -> CollectionStepView {
    match intent {
        None => CollectionStepView::Skipped("pre_state missing 'intent' object"@),
        Some(i) => match i.name.as_text() {
            None => CollectionStepView::Skipped(
                "pre_state.intent missing 'name' (or not a string)"@,
            ),
            Some(name) => match row_name {
                Some(found) => if found == name {
                    CollectionStepView::AlreadyApplied(name)
                } else {
                    CollectionStepView::Skipped(
                        "drift detected — collection "@ + text::signed_decimal(captured_id as int)
                            + " renamed from "@ + text::quoted(name) + " to "@ + text::quoted(
                            found,
                        ),
                    )
                },
                None => match name_taken {
                    Some(other) => CollectionStepView::Skipped(
                        "drift detected — name "@ + text::quoted(name)
                            + " now belongs to collection "@ + text::signed_decimal(other as int),
                    ),
                    None => CollectionStepView::Insert(i.columns()),
                },
            },
        },
    }
}

fn owned_field(v: &JsonField) -> (r: Option<String>)
    ensures
        text::opt_text(r) == v.as_text(),
{
    match v.as_str() {
        Some(s) => Some(text::owned(s)),
        None => None,
    }
}

/// Replays the creation of collections.
pub struct CollectionCreateReplayer;

impl CollectionCreateReplayer {
    /// The kind of operation that is replayed.
    pub fn op_kind(&self) -> (s: &'static str)
        ensures
            s@ == collections::OP_KIND_COLLECTION_CREATE@,
    {
        collections::OP_KIND_COLLECTION_CREATE
    }

    /// What the replay does, given what the table holds.
    pub fn try_replay(
        &self,
        captured_id: i64,
        intent: &Option<CollectionIntent>,
        row_name: Option<&str>,
        name_taken: Option<i64>,
    ) -> (r: CollectionStep)
        ensures
            r@ == collection_step(captured_id, *intent, text::opt_str(row_name), name_taken),
    {
        let i = match intent {
            Some(i) => i,
            None => {
                return CollectionStep::Skipped(text::owned("pre_state missing 'intent' object"));
            },
        };
        let name = match i.name.as_str() {
            Some(n) => n,
            None => {
                return CollectionStep::Skipped(
                    text::owned("pre_state.intent missing 'name' (or not a string)"),
                );
            },
        };
        if let Some(found) = row_name {
            if text::same_text(found, name) {
                return CollectionStep::AlreadyApplied(text::owned(name));
            }
            let mut m = text::owned("drift detected — collection ");
            m.append(text::i64_text(captured_id).as_str());
            m.append(" renamed from ");
            m.append(text::quote(name).as_str());
            m.append(" to ");
            m.append(text::quote(found).as_str());
            return CollectionStep::Skipped(m);
        }
        if let Some(other) = name_taken {
            let mut m = text::owned("drift detected — name ");
            m.append(text::quote(name).as_str());
            m.append(" now belongs to collection ");
            m.append(text::i64_text(other).as_str());
            return CollectionStep::Skipped(m);
        }
        CollectionStep::Insert(
            collections::NewCollection {
                name: text::owned(name),
                canonical_name: owned_field(&i.canonical_name),
                audible_id: owned_field(&i.audible_id),
                description: owned_field(&i.description),
                kind: owned_field(&i.kind),
            },
        )
    }

    /// The end of a replay that found the collection in place.
    pub fn already_applied(&self, captured_id: i64, name: String) -> (r: ReplayDecision)
        ensures
            r matches ReplayDecision::Retried(f) && {
                &&& f@.len() == 3
                &&& f@[0].key@ == "collection_id"@ && f@[0].value == JsonField::Int(captured_id)
                &&& f@[1].key@ == "name"@ && f@[1].value == JsonField::Text(name)
                &&& f@[2].key@ == "already_applied"@ && f@[2].value.shown() == "true"@
            },
    {
        let mut f: Vec<PostField> = Vec::new();
        f.push(PostField { key: "collection_id", value: JsonField::Int(captured_id) });
        f.push(PostField { key: "name", value: JsonField::Text(name) });
        f.push(PostField { key: "already_applied", value: JsonField::Other(text::owned("true")) });
        ReplayDecision::Retried(f)
    }

    /// The end of a replay that inserted the collection anew.
    pub fn recreated(&self, captured_id: i64, new_id: i64, name: String) -> (r: ReplayDecision)
        ensures
            r matches ReplayDecision::Retried(f) && {
                &&& f@.len() == 3
                &&& f@[0].key@ == "collection_id"@ && f@[0].value == JsonField::Int(new_id)
                &&& f@[1].key@ == "name"@ && f@[1].value == JsonField::Text(name)
                &&& f@[2].key@ == "recreated_from_id"@ && f@[2].value == JsonField::Int(
                    captured_id,
                )
            },
    {
        let mut f: Vec<PostField> = Vec::new();
        f.push(PostField { key: "collection_id", value: JsonField::Int(new_id) });
        f.push(PostField { key: "name", value: JsonField::Text(name) });
        f.push(PostField { key: "recreated_from_id", value: JsonField::Int(captured_id) });
        ReplayDecision::Retried(f)
    }
}

// ── Laws ───────────────────────────────────────────────────────────

/// A text is applied only where the row still holds what was recorded, and
/// replaying again after that changes nothing.
pub proof fn law_text_replay(
    book_id: i64,
    column: Seq<char>,
    intent: Seq<char>,
    recorded: Seq<char>,
    row: Option<Seq<char>>,
)
    ensures
        text_step(book_id, column, intent, recorded, row) is Apply ==> row == Some(recorded),
        text_step(book_id, column, intent, recorded, row) matches StepView::Apply(v) ==> v == intent
            && text_step(book_id, column, intent, recorded, Some(v)) == StepView::<
            Seq<char>,
        >::Skipped(applied(column, text::quoted(intent))),
{
}

/// Only a valid status is ever applied, and only over the recorded one.
pub proof fn law_status_replay(
    book_id: i64,
    intent: JsonField,
    recorded: JsonField,
    row: Option<Seq<char>>,
)
    ensures
        status_step(book_id, intent, recorded, row) matches StepView::Apply(v) ==> {
            &&& status_text(v)
            &&& row == recorded.as_text()
            &&& status_step(book_id, intent, recorded, Some(v)) is Skipped
        },
{
}

/// A rating is applied only where the row still holds what was recorded, it is
/// one to five, and replaying again after that changes nothing.
pub proof fn law_rating_replay(
    book_id: i64,
    intent: JsonField,
    recorded: JsonField,
    row: Option<Option<i64>>,
)
    ensures
        rating_step(book_id, intent, recorded, row) matches StepView::Apply(v) ==> {
            let stored = match v {
                Some(n) => Some(n as i64),
                None => None,
            };
            &&& row == Some(rating_of(recorded).value())
            &&& v matches Some(n) ==> 1 <= n <= 5
            &&& rating_step(book_id, intent, recorded, Some(stored)) == StepView::<
                Option<u8>,
            >::Skipped(applied("rating"@, intent.shown()))
        },
{
}

/// Notes are applied only where the row still holds what was recorded, and
/// replaying again after that changes nothing.
pub proof fn law_notes_replay(
    book_id: i64,
    intent: JsonField,
    recorded: JsonField,
    row: Option<Option<Seq<char>>>,
)
    ensures
        notes_step(book_id, intent, recorded, row) matches StepView::Apply(v) ==> {
            &&& row == Some(recorded.as_text())
            &&& notes_step(book_id, intent, recorded, Some(v)) == StepView::<
                Option<Seq<char>>,
            >::Skipped(applied("notes"@, intent.shown()))
        },
{
}

/// A collection is inserted again only where neither its row nor its name
/// exists, and replaying after that finds it in place.
pub proof fn law_collection_replay(
    captured_id: i64,
    intent: Option<CollectionIntent>,
    row_name: Option<Seq<char>>,
    name_taken: Option<i64>,
    new_id: i64,
)
    ensures
        collection_step(captured_id, intent, row_name, name_taken) matches CollectionStepView::Insert(
            c,
        ) ==> {
            &&& row_name is None
            &&& name_taken is None
            &&& collection_step(new_id, intent, Some(c.name), Some(new_id))
                == CollectionStepView::AlreadyApplied(c.name)
        },
{
}

/// A change of the rating that did not land is applied: where the row holds
/// the recorded rating, and that is not the one asked for, it gets the one
/// asked for. Ratings are one to five, or none.
pub proof fn law_rating_goes_on(book_id: i64, from: i64, to: i64, found: Option<i64>)
    requires
        1 <= from <= 5,
        1 <= to <= 5,
    ensures
        from != to ==> rating_step(
            book_id,
            JsonField::Int(to),
            JsonField::Int(from),
            Some(Some(from)),
        ) == StepView::Apply(Some(to as u8)),
        rating_step(book_id, JsonField::Int(to), JsonField::Null, Some(None)) == StepView::Apply(
            Some(to as u8),
        ),
        rating_step(book_id, JsonField::Null, JsonField::Int(from), Some(Some(from)))
            == StepView::Apply(None::<u8>),
        found != Some(from) ==> !(rating_step(
            book_id,
            JsonField::Int(to),
            JsonField::Int(from),
            Some(found),
        ) is Apply),
        rating_step(book_id, JsonField::Int(to), JsonField::Int(from), Some(Some(to)))
            == StepView::<Option<u8>>::Skipped(
            "already applied — "@ + "rating"@ + " is already "@ + JsonField::Int(to).shown(),
        ),
        rating_step(book_id, JsonField::Int(to), JsonField::Int(from), None) is Skipped,
{
}

/// A rating that is none is never applied, and never taken for the recorded
/// one.
pub proof fn law_rating_out_of_range(
    book_id: i64,
    n: i64,
    other: JsonField,
    row: Option<Option<i64>>,
)
    requires
        n < 1 || n > 5,
    ensures
        rating_step(book_id, JsonField::Int(n), other, row) is Skipped,
        rating_step(book_id, other, JsonField::Int(n), row) is Skipped,
        rating_step(book_id, JsonField::Missing, other, row) is Skipped,
        rating_step(book_id, other, JsonField::Missing, row) is Skipped,
        other is Text || other is Other ==> rating_step(book_id, other, JsonField::Null, row)
            is Skipped && rating_step(book_id, JsonField::Null, other, row) is Skipped,
{
}

/// A change of a text that did not land is applied, and applied only then:
/// where the row holds the recorded text, and that is not the one asked for.
pub proof fn law_text_goes_on(
    book_id: i64,
    column: Seq<char>,
    intent: Seq<char>,
    recorded: Seq<char>,
    found: Seq<char>,
)
    ensures
        intent != recorded ==> text_step(book_id, column, intent, recorded, Some(recorded))
            == StepView::Apply(intent),
        found != recorded ==> text_step(book_id, column, intent, recorded, Some(found)) is Skipped,
        text_step(book_id, column, intent, recorded, Some(intent)) == StepView::<
            Seq<char>,
        >::Skipped("already applied — "@ + column + " is already "@ + text::quoted(intent)),
        found != recorded && found != intent ==> text_step(
            book_id,
            column,
            intent,
            recorded,
            Some(found),
        ) == StepView::<Seq<char>>::Skipped(
            "drift detected — current "@ + column + " is "@ + text::quoted(found) + ", expected "@
                + text::quoted(recorded) + " (someone else changed it)"@,
        ),
        text_step(book_id, column, intent, recorded, None) == StepView::<Seq<char>>::Skipped(
            error::numbered_text("book"@, book_id as int) + " no longer exists"@,
        ),
{
}

/// A change of the status goes on as that of any text where the status asked
/// for is one of the four; any other is refused.
pub proof fn law_status_goes_on(
    book_id: i64,
    intent: String,
    recorded: String,
    row: Option<Seq<char>>,
)
    ensures
        intent@ == "want_to_read"@ || intent@ == "reading"@ || intent@ == "finished"@ || intent@
            == "dnf"@ ==> status_step(
            book_id,
            JsonField::Text(intent),
            JsonField::Text(recorded),
            row,
        ) == text_step(book_id, "reading_status"@, intent@, recorded@, row),
        intent@ != "want_to_read"@ && intent@ != "reading"@ && intent@ != "finished"@ && intent@
            != "dnf"@ ==> status_step(
            book_id,
            JsonField::Text(intent),
            JsonField::Text(recorded),
            row,
        ) is Skipped,
        status_step(book_id, JsonField::Null, JsonField::Text(recorded), row) is Skipped,
        status_step(book_id, JsonField::Text(intent), JsonField::Null, row) is Skipped,
{
}

/// A change of the title goes on as that of any text.
pub proof fn law_title_goes_on(
    book_id: i64,
    intent: String,
    recorded: String,
    row: Option<Seq<char>>,
)
    ensures
        title_step(book_id, JsonField::Text(intent), JsonField::Text(recorded), row) == text_step(
            book_id,
            "title"@,
            intent@,
            recorded@,
            row,
        ),
        title_step(book_id, JsonField::Null, JsonField::Text(recorded), row) is Skipped,
        title_step(book_id, JsonField::Text(intent), JsonField::Null, row) is Skipped,
{
}

/// A change of the notes that did not land is applied, whether it sets,
/// replaces or clears them.
pub proof fn law_notes_go_on(
    book_id: i64,
    from: String,
    to: String,
    found: Option<Seq<char>>,
)
    ensures
        from@ != to@ ==> notes_step(
            book_id,
            JsonField::Text(to),
            JsonField::Text(from),
            Some(Some(from@)),
        ) == StepView::Apply(Some(to@)),
        notes_step(book_id, JsonField::Text(to), JsonField::Null, Some(None)) == StepView::Apply(
            Some(to@),
        ),
        notes_step(book_id, JsonField::Null, JsonField::Text(from), Some(Some(from@)))
            == StepView::Apply(None::<Seq<char>>),
        found != Some(from@) ==> notes_step(
            book_id,
            JsonField::Text(to),
            JsonField::Text(from),
            Some(found),
        ) is Skipped,
        found is Some ==> notes_step(book_id, JsonField::Text(to), JsonField::Null, Some(found))
            is Skipped,
        notes_step(book_id, JsonField::Text(to), JsonField::Text(from), None) is Skipped,
        notes_step(book_id, JsonField::Int(1), JsonField::Text(from), Some(found)) is Skipped,
        notes_step(book_id, JsonField::Text(to), JsonField::Int(1), Some(found)) is Skipped,
{
}

/// A collection whose row and name are both gone is inserted again with the
/// columns that were asked for. One that is in place under its name is left
/// alone, and one that was renamed, or whose name another has, is not touched.
pub proof fn law_collection_goes_on(
    captured_id: i64,
    intent: CollectionIntent,
    name: String,
    found: Seq<char>,
    other: i64,
)
    requires
        intent.name == JsonField::Text(name),
    ensures
        collection_step(captured_id, Some(intent), None, None) matches CollectionStepView::Insert(c)
            && {
            &&& c.name == name@
            &&& c.canonical_name == intent.canonical_name.as_text()
            &&& c.audible_id == intent.audible_id.as_text()
            &&& c.description == intent.description.as_text()
            &&& c.kind == intent.kind.as_text()
        },
        collection_step(captured_id, Some(intent), Some(name@), Some(other))
            == CollectionStepView::AlreadyApplied(name@),
        collection_step(captured_id, Some(intent), Some(name@), None)
            == CollectionStepView::AlreadyApplied(name@),
        found != name@ ==> collection_step(captured_id, Some(intent), Some(found), None)
            is Skipped && collection_step(captured_id, Some(intent), Some(found), Some(other))
            is Skipped,
        collection_step(captured_id, Some(intent), None, Some(other)) is Skipped,
        collection_step(captured_id, None, None, None) is Skipped,
{
}

/// An entry that lacks a value is refused with what it lacks, whatever the row
/// holds; the intended value is looked for first.
pub proof fn law_what_an_entry_lacks(intent: JsonField, recorded: JsonField)
    ensures
        rating_refusal(JsonField::Missing, recorded) == Some("pre_state missing 'intent' field"@),
        notes_refusal(JsonField::Missing, recorded) == Some("pre_state missing 'intent' field"@),
        intent !is Missing ==> rating_refusal(intent, JsonField::Missing) == Some(
            "pre_state missing 'current' field"@,
        ),
        intent !is Missing ==> notes_refusal(intent, JsonField::Missing) == Some(
            "pre_state missing 'current' field"@,
        ),
        intent !is Text ==> status_refusal(intent, recorded) == Some(
            "pre_state missing 'intent' field — cannot determine target status"@,
        ),
        intent is Text && recorded !is Text ==> status_refusal(intent, recorded) == Some(
            "pre_state missing 'current' field — cannot detect drift"@,
        ),
        intent !is Text ==> title_refusal(intent, recorded) == Some(
            "pre_state missing 'intent' field (or not a string)"@,
        ),
        intent is Text && recorded !is Text ==> title_refusal(intent, recorded) == Some(
            "pre_state missing 'current' field (or not a string)"@,
        ),
        intent is Text && recorded is Text ==> title_refusal(intent, recorded) is None,
{
}

/// A value of the wrong kind is shown in the refusal: that of the intended
/// value names the values there are.
pub proof fn law_wrong_values_are_shown(n: i64, m: i64, s: String, t: String)
    requires
        1 <= m <= 5,
        n < 1 || n > 5,
    ensures
        rating_refusal(JsonField::Int(n), JsonField::Int(m)) == Some(
            "pre_state.intent"@ + "="@ + text::signed_decimal(n as int)
                + " is not a valid rating (null or 1..=5)"@,
        ),
        rating_refusal(JsonField::Int(m), JsonField::Int(n)) == Some(
            "pre_state.current"@ + "="@ + text::signed_decimal(n as int)
                + " is not a valid rating"@,
        ),
        rating_refusal(JsonField::Int(m), JsonField::Int(m)) is None,
        rating_refusal(JsonField::Null, JsonField::Int(m)) is None,
        rating_refusal(JsonField::Int(m), JsonField::Null) is None,
        notes_refusal(JsonField::Int(n), JsonField::Null) == Some(
            "pre_state.intent"@ + "="@ + text::signed_decimal(n as int)
                + " is not a valid notes value (null or string)"@,
        ),
        notes_refusal(JsonField::Null, JsonField::Int(n)) == Some(
            "pre_state.current"@ + "="@ + text::signed_decimal(n as int)
                + " is not a valid notes value"@,
        ),
        notes_refusal(JsonField::Null, JsonField::Other(s)) is Some,
        notes_refusal(JsonField::Other(s), JsonField::Null) is Some,
        notes_refusal(JsonField::Null, JsonField::Null) is None,
        notes_refusal(JsonField::Text(s), JsonField::Text(t)) is None,
        !status_text(s@) ==> status_refusal(JsonField::Text(s), JsonField::Text(t)) == Some(
            "pre_state.intent"@ + "="@ + text::quoted(s@) + " is not a valid ReadingStatus"@,
        ),
        status_text(s@) ==> status_refusal(JsonField::Text(s), JsonField::Text(t)) is None,
{
}

/// A refused entry is skipped with the refusal, whatever the row holds.
pub proof fn law_refused_is_skipped(
    book_id: i64,
    intent: JsonField,
    recorded: JsonField,
    text_row: Option<Seq<char>>,
    notes_row: Option<Option<Seq<char>>>,
    rating_row: Option<Option<i64>>,
)
    ensures
        rating_refusal(intent, recorded) is Some ==> rating_step(
            book_id,
            intent,
            recorded,
            rating_row,
        ) == StepView::<Option<u8>>::Skipped(rating_refusal(intent, recorded)->0),
        notes_refusal(intent, recorded) is Some ==> notes_step(
            book_id,
            intent,
            recorded,
            notes_row,
        ) == StepView::<Option<Seq<char>>>::Skipped(notes_refusal(intent, recorded)->0),
        status_refusal(intent, recorded) is Some ==> status_step(
            book_id,
            intent,
            recorded,
            text_row,
        ) == StepView::<Seq<char>>::Skipped(status_refusal(intent, recorded)->0),
        title_refusal(intent, recorded) is Some ==> title_step(
            book_id,
            intent,
            recorded,
            text_row,
        ) == StepView::<Seq<char>>::Skipped(title_refusal(intent, recorded)->0),
{
}

/// Where somebody else changed the row, both the value that is there and the
/// recorded one are told. Where the book is gone, that is.
pub proof fn law_drift_is_told(book_id: i64, from: i64, to: i64, found: i64, s: String, t: String)
    requires
        1 <= from <= 5,
        1 <= to <= 5,
        found != from,
        found != to,
    ensures
        rating_step(book_id, JsonField::Int(to), JsonField::Int(from), Some(Some(found)))
            == StepView::<Option<u8>>::Skipped(
            "drift detected — current "@ + "rating"@ + " is "@ + ("Some("@ + text::signed_decimal(
                found as int,
            ) + ")"@) + ", expected "@ + ("Some("@ + text::signed_decimal(from as int) + ")"@)
                + " (someone else changed it)"@,
        ),
        rating_step(book_id, JsonField::Int(to), JsonField::Null, Some(Some(found)))
            == StepView::<Option<u8>>::Skipped(
            "drift detected — current "@ + "rating"@ + " is "@ + ("Some("@ + text::signed_decimal(
                found as int,
            ) + ")"@) + ", expected "@ + "None"@ + " (someone else changed it)"@,
        ),
        notes_step(book_id, JsonField::Text(s), JsonField::Text(t), Some(None)) == StepView::<
            Option<Seq<char>>,
        >::Skipped(
            "drift detected — current "@ + "notes"@ + " is "@ + "None"@ + ", expected "@ + ("Some("@
                + text::quoted(t@) + ")"@) + " (someone else changed it)"@,
        ),
        notes_step(book_id, JsonField::Text(s), JsonField::Text(t), Some(Some(s@))) == StepView::<
            Option<Seq<char>>,
        >::Skipped(
            "already applied — "@ + "notes"@ + " is already "@ + JsonField::Text(s).shown(),
        ),
        rating_step(book_id, JsonField::Int(to), JsonField::Int(from), None) == StepView::<
            Option<u8>,
        >::Skipped("book"@ + " "@ + text::signed_decimal(book_id as int) + " no longer exists"@),
        notes_step(book_id, JsonField::Text(s), JsonField::Text(t), None) == StepView::<
            Option<Seq<char>>,
        >::Skipped("book"@ + " "@ + text::signed_decimal(book_id as int) + " no longer exists"@),
{
}

/// Why a collection is not made again: the row has another name, or another
/// row has the name.
pub proof fn law_collection_drift_is_told(
    captured_id: i64,
    intent: CollectionIntent,
    row_name: Option<Seq<char>>,
    found: Seq<char>,
    other: i64,
)
    ensures
        collection_step(captured_id, None, row_name, Some(other)) == CollectionStepView::Skipped(
            "pre_state missing 'intent' object"@,
        ),
        intent.name !is Text ==> collection_step(captured_id, Some(intent), row_name, Some(other))
            == CollectionStepView::Skipped("pre_state.intent missing 'name' (or not a string)"@),
        intent.name is Text && found != intent.name.as_text()->0 ==> collection_step(
            captured_id,
            Some(intent),
            Some(found),
            None,
        ) == CollectionStepView::Skipped(
            "drift detected — collection "@ + text::signed_decimal(captured_id as int)
                + " renamed from "@ + text::quoted(intent.name.as_text()->0) + " to "@
                + text::quoted(found),
        ),
        intent.name is Text ==> collection_step(captured_id, Some(intent), None, Some(other))
            == CollectionStepView::Skipped(
            "drift detected — name "@ + text::quoted(intent.name.as_text()->0)
                + " now belongs to collection "@ + text::signed_decimal(other as int),
        ),
{
}

/// A status is stored under its word, and only those words are statuses.
pub proof fn law_status_words(s: Seq<char>)
    ensures
        ReadingStatus::WantToRead.text_of() == "want_to_read"@,
        ReadingStatus::Reading.text_of() == "reading"@,
        ReadingStatus::Finished.text_of() == "finished"@,
        ReadingStatus::Dnf.text_of() == "dnf"@,
        status_text(s) <==> exists|k: ReadingStatus| #[trigger] k.text_of() == s,
{
    if status_text(s) {
        assert(ReadingStatus::WantToRead.text_of() == s || ReadingStatus::Reading.text_of() == s
            || ReadingStatus::Finished.text_of() == s || ReadingStatus::Dnf.text_of() == s);
    }
}

/// A step that was decided is the step described, text by text.
pub proof fn law_step_is(s: String, v: StepView<Seq<char>>)
    ensures
        text_step_is(ReplayStep::Skipped(s), v) <==> v == StepView::<Seq<char>>::Skipped(s@),
        text_step_is(ReplayStep::Apply(s), v) <==> v == StepView::Apply(s@),
{
}

/// A kind of operation is called after the field of a book that it sets.
pub proof fn law_op_kinds()
    ensures
        OP_KIND_BOOK_STATUS_SET@ == "book-"@ + "status"@ + "-set"@,
        OP_KIND_BOOK_RATING_SET@ == "book-"@ + "rating"@ + "-set"@,
        OP_KIND_BOOK_NOTES_SET@ == "book-"@ + "notes"@ + "-set"@,
        OP_KIND_BOOK_TITLE_SET@ == "book-"@ + "title"@ + "-set"@,
{
    reveal_strlit("book-");
    reveal_strlit("-set");
    reveal_strlit("status");
    reveal_strlit("rating");
    reveal_strlit("notes");
    reveal_strlit("title");
    reveal_strlit("book-status-set");
    reveal_strlit("book-rating-set");
    reveal_strlit("book-notes-set");
    reveal_strlit("book-title-set");
    assert(OP_KIND_BOOK_STATUS_SET@ =~= "book-"@ + "status"@ + "-set"@);
    assert(OP_KIND_BOOK_RATING_SET@ =~= "book-"@ + "rating"@ + "-set"@);
    assert(OP_KIND_BOOK_NOTES_SET@ =~= "book-"@ + "notes"@ + "-set"@);
    assert(OP_KIND_BOOK_TITLE_SET@ =~= "book-"@ + "title"@ + "-set"@);
}

} // verus!

//! What the command line client prints: every line ends in a line end.

use crate::cli;
use crate::text;
use vstd::prelude::*;

verus! {

/// An optional text, or a replacement.
pub open spec fn or_text(o: Option<String>, other: Seq<char>) -> Seq<char> {
    match o {
        Some(s) => s@,
        None => other,
    }
}

fn or_str<'a>(o: &'a Option<String>, other: &'a str) -> (r: &'a str)
    ensures
        r@ == or_text(*o, other@),
{
    match o {
        Some(s) => s.as_str(),
        None => other,
    }
}

// ── Cleaning ───────────────────────────────────────────────────────

/// What a cleanup of one target deleted, or would delete.
#[derive(Debug)]
pub struct CleanReportRow {
    /// Group of the target.
    pub category: String,
    /// The target.
    pub name: String,
    /// Number of things.
    pub items: u64,
    /// Bytes.
    pub bytes: u64,
}

/// What a cleanup did.
#[derive(Debug)]
pub struct CleanRunResponse {
    /// The group.
    pub category: String,
    /// Whether anything was deleted.
    pub commit: bool,
    /// Whether the age was ignored.
    pub force: bool,
    /// The age from which things are eligible.
    pub age_seconds: i64,
    /// The targets.
    pub targets: Vec<CleanReportRow>,
}

/// Things of the first `n` targets.
pub open spec fn items_sum(rows: Seq<CleanReportRow>, n: int) -> int
    decreases n,
{
    if n <= 0 {
        0
    } else {
        items_sum(rows, n - 1) + rows[n - 1].items
    }
}

/// Bytes of the first `n` targets.
pub open spec fn bytes_sum(rows: Seq<CleanReportRow>, n: int) -> int
    decreases n,
{
    if n <= 0 {
        0
    } else {
        bytes_sum(rows, n - 1) + rows[n - 1].bytes
    }
}

/// A row of the table of targets.
#[verifier::opaque]
pub open spec fn clean_row(name: Seq<char>, items: nat, bytes: nat) -> Seq<char> {
    "  "@ + text::right_filled(name, 24) + " "@ + text::left_filled(text::decimal(items), 6, ' ')
        + " items "@ + text::left_filled(text::decimal(bytes), 10, ' ') + " bytes"@ + "\n"@
}

/// The rows of the first `n` targets.
pub open spec fn clean_rows(rows: Seq<CleanReportRow>, n: int) -> Seq<char>
    decreases n,
{
    if n <= 0 {
        Seq::empty()
    } else {
        clean_rows(rows, n - 1) + clean_row(
            rows[n - 1].name@,
            rows[n - 1].items as nat,
            rows[n - 1].bytes as nat,
        )
    }
}

/// The line above the table of targets.
#[verifier::opaque]
pub open spec fn clean_head(body: CleanRunResponse) -> Seq<char> {
    "clean "@ + body.category@ + " "@ + (if body.commit {
        "committed"@
    } else {
        "dry-run"@
    }) + " "@ + (if body.commit {
        "→"@
    } else {
        "↦"@
    }) + (if body.force {
        " (forced)"@
    } else {
        ""@
    }) + " — age cut-off "@ + text::signed_decimal(
        cli::toward_zero(body.age_seconds as int, 86_400),
    ) + " d, "@ + text::decimal(body.targets@.len()) + " target(s)"@ + "\n"@
}

/// What is printed of a cleanup.
pub open spec fn clean_text(body: CleanRunResponse) -> Seq<char> {
    let n = body.targets@.len() as int;
    let items = items_sum(body.targets@, n);
    let bytes = bytes_sum(body.targets@, n);
    let table = clean_head(body) + clean_rows(body.targets@, n) + clean_row(
        "TOTAL"@,
        items as nat,
        bytes as nat,
    );
    if !body.commit && (items > 0 || bytes > 0) {
        table + "\nrun with --commit to delete.\n"@
    } else {
        table
    }
}

fn write_clean_row(name: &str, items: u64, bytes: u64) -> (s: String)
    ensures
        s@ == clean_row(name@, items as nat, bytes as nat),
{
    let mut s = text::owned("  ");
    s.append(text::fill_right(name, 24).as_str());
    s.append(" ");
    s.append(text::fill_left(text::u64_text(items).as_str(), 6, ' ').as_str());
    s.append(" items ");
    s.append(text::fill_left(text::u64_text(bytes).as_str(), 10, ' ').as_str());
    s.append(" bytes");
    s.append("\n");
    proof {
        reveal(clean_row);
    }
    s
}

fn write_clean_head(body: &CleanRunResponse) -> (s: String)
    ensures
        s@ == clean_head(*body),
{
    let mut s = text::owned("clean ");
    s.append(body.category.as_str());
    s.append(" ");
    s.append(
        if body.commit {
            "committed"
        } else {
            "dry-run"
        },
    );
    s.append(" ");
    s.append(
        if body.commit {
            "→"
        } else {
            "↦"
        },
    );
    s.append(
        if body.force {
            " (forced)"
        } else {
            ""
        },
    );
    s.append(" — age cut-off ");
    s.append(text::i64_text(cli::divide(body.age_seconds, 86_400)).as_str());
    s.append(" d, ");
    s.append(text::usize_text(body.targets.len()).as_str());
    s.append(" target(s)");
    s.append("\n");
    proof {
        reveal(clean_head);
    }
    s
}

proof fn lemma_sums_grow(rows: Seq<CleanReportRow>, i: int, n: int)
    requires
        0 <= i <= n,
    ensures
        0 <= items_sum(rows, i) <= items_sum(rows, n),
        0 <= bytes_sum(rows, i) <= bytes_sum(rows, n),
    decreases n,
{
    if n > 0 {
        if i < n {
            lemma_sums_grow(rows, i, n - 1);
        } else {
            lemma_sums_grow(rows, i - 1, n - 1);
        }
    }
}

/// What is printed of a cleanup. None is given where the totals are too large
/// to be counted.
pub fn render_clean(body: &CleanRunResponse) -> (r: Option<String>)
    ensures
        ({
            let n = body.targets@.len() as int;
            match r {
                Some(s) => s@ == clean_text(*body) && items_sum(body.targets@, n) <= u64::MAX
                    && bytes_sum(body.targets@, n) <= u64::MAX,
                None => items_sum(body.targets@, n) > u64::MAX || bytes_sum(body.targets@, n)
                    > u64::MAX,
            }
        }),
{
    let head = write_clean_head(body);
    let mut s = head;
    let mut items: u64 = 0;
    let mut bytes: u64 = 0;
    let mut i: usize = 0;
    proof {
        assert(s@ =~= clean_head(*body) + clean_rows(body.targets@, 0));
    }
    while i < body.targets.len()
        invariant
            i <= body.targets@.len(),
            items == items_sum(body.targets@, i as int),
            bytes == bytes_sum(body.targets@, i as int),
            s@ == clean_head(*body) + clean_rows(body.targets@, i as int),
        decreases body.targets@.len() - i,
    {
        let row = &body.targets[i];
        let text_row = write_clean_row(row.name.as_str(), row.items, row.bytes);
        let ghost before = s@;
        s.append(text_row.as_str());
        proof {
            lemma_sums_grow(body.targets@, i + 1, body.targets@.len() as int);
            assert(before + text_row@ =~= clean_head(*body) + (clean_rows(
                body.targets@,
                i as int,
            ) + text_row@));
        }
        match (items.checked_add(row.items), bytes.checked_add(row.bytes)) {
            (Some(a), Some(b)) => {
                items = a;
                bytes = b;
            },
            _ => {
                return None;
            },
        }
        i = i + 1;
    }
    s.append(write_clean_row("TOTAL", items, bytes).as_str());
    if !body.commit && (items > 0 || bytes > 0) {
        s.append("\nrun with --commit to delete.\n");
    }
    Some(s)
}

// ── Names ──────────────────────────────────────────────────────────

/// What was done to a name.
#[derive(Debug)]
pub struct NamesActionResponse {
    /// Kind of name.
    pub kind: String,
    /// The row.
    pub id: i64,
    /// Whether a spelling was added, where that was asked for.
    pub inserted: Option<bool>,
    /// Whether a spelling was made the displayed one, where that was asked
    /// for.
    pub exalted: Option<bool>,
}

/// What is said of one action, where it was asked for.
pub open spec fn action_line(
    kind: Seq<char>,
    id: int,
    done: Option<bool>,
    yes: Seq<char>,
    no: Seq<char>,
) -> Seq<char> {
    match done {
        Some(b) => kind + " "@ + text::signed_decimal(id) + (if b {
            yes
        } else {
            no
        }),
        None => Seq::empty(),
    }
}

fn write_action(kind: &str, id: i64, done: Option<bool>, yes: &str, no: &str) -> (s: String)
    ensures
        s@ == action_line(kind@, id as int, done, yes@, no@),
{
    match done {
        Some(b) => {
            let mut s = text::owned(kind);
            s.append(" ");
            s.append(text::i64_text(id).as_str());
            s.append(
                if b {
                    yes
                } else {
                    no
                },
            );
            s
        },
        None => String::new(),
    }
}

/// What is printed of what was done to a name.
pub fn render_names_action(body: &NamesActionResponse) -> (s: String)
    ensures
        s@ == action_line(
            body.kind@,
            body.id as int,
            body.inserted,
            ": alias added\n"@,
            ": alias already present (no-op)\n"@,
        ) + action_line(
            body.kind@,
            body.id as int,
            body.exalted,
            ": exalted\n"@,
            ": alias was already prime (no-op)\n"@,
        ),
{
    let mut s = write_action(
        body.kind.as_str(),
        body.id,
        body.inserted,
        ": alias added\n",
        ": alias already present (no-op)\n",
    );
    s.append(
        write_action(
            body.kind.as_str(),
            body.id,
            body.exalted,
            ": exalted\n",
            ": alias was already prime (no-op)\n",
        ).as_str(),
    );
    s
}

/// A row that an open name may be.
#[derive(Debug)]
pub struct PendingCandidate {
    /// The row.
    pub id: i64,
    /// Its displayed name.
    pub display: Option<String>,
    /// Audible identifier.
    pub audible_id: Option<String>,
    /// Its score with two decimals.
    pub score: String,
}

/// An open name.
#[derive(Debug)]
pub struct PendingRow {
    /// The open name.
    pub pending_id: i64,
    /// Kind of name.
    pub kind: String,
    /// The book.
    pub book_id: i64,
    /// The spelling that was seen.
    pub observed_alias: String,
    /// The rows that it may be.
    pub candidates: Vec<PendingCandidate>,
}

/// A candidate as it is printed.
#[verifier::opaque]
pub open spec fn candidate_line(c: PendingCandidate) -> Seq<char> {
    "  id "@ + text::left_filled(text::signed_decimal(c.id as int), 4, ' ') + "  score "@
        + text::left_filled(c.score@, 4, ' ') + "  "@ + or_text(c.display, "?"@) + "  "@ + or_text(
        c.audible_id,
        ""@,
    ) + "\n"@
}

/// The first `n` candidates as they are printed.
pub open spec fn candidate_lines(v: Seq<PendingCandidate>, n: int) -> Seq<char>
    decreases n,
{
    if n <= 0 {
        Seq::empty()
    } else {
        candidate_lines(v, n - 1) + candidate_line(v[n - 1])
    }
}

/// An open name as it is printed.
#[verifier::opaque]
pub open spec fn pending_block(r: PendingRow) -> Seq<char> {
    "pending #"@ + text::signed_decimal(r.pending_id as int) + " — "@ + r.kind@ + " book "@
        + text::signed_decimal(r.book_id as int) + " — observed `"@ + r.observed_alias@ + "`\n"@
        + candidate_lines(r.candidates@, r.candidates@.len() as int)
}

/// The first `n` open names as they are printed.
pub open spec fn pending_blocks(v: Seq<PendingRow>, n: int) -> Seq<char>
    decreases n,
{
    if n <= 0 {
        Seq::empty()
    } else {
        pending_blocks(v, n - 1) + pending_block(v[n - 1])
    }
}

fn write_candidate(c: &PendingCandidate) -> (s: String)
    ensures
        s@ == candidate_line(*c),
{
    let mut s = text::owned("  id ");
    s.append(text::fill_left(text::i64_text(c.id).as_str(), 4, ' ').as_str());
    s.append("  score ");
    s.append(text::fill_left(c.score.as_str(), 4, ' ').as_str());
    s.append("  ");
    s.append(or_str(&c.display, "?"));
    s.append("  ");
    s.append(or_str(&c.audible_id, ""));
    s.append("\n");
    proof {
        reveal(candidate_line);
    }
    s
}

fn write_candidates(v: &Vec<PendingCandidate>) -> (s: String)
    ensures
        s@ == candidate_lines(v@, v@.len() as int),
{
    let mut s = String::new();
    let mut i: usize = 0;
    while i < v.len()
        invariant
            i <= v@.len(),
            s@ == candidate_lines(v@, i as int),
        decreases v@.len() - i,
    {
        s.append(write_candidate(&v[i]).as_str());
        i = i + 1;
    }
    s
}

fn write_pending(r: &PendingRow) -> (s: String)
    ensures
        s@ == pending_block(*r),
{
    let mut s = text::owned("pending #");
    s.append(text::i64_text(r.pending_id).as_str());
    s.append(" — ");
    s.append(r.kind.as_str());
    s.append(" book ");
    s.append(text::i64_text(r.book_id).as_str());
    s.append(" — observed `");
    s.append(r.observed_alias.as_str());
    s.append("`\n");
    s.append(write_candidates(&r.candidates).as_str());
    proof {
        reveal(pending_block);
    }
    s
}

/// What is printed of the open names.
pub fn render_pending(rows: &Vec<PendingRow>) -> (s: String)
    ensures
        s@ == (if rows@.len() == 0 {
            "no pending disambiguations\n"@
        } else {
            pending_blocks(rows@, rows@.len() as int) + text::decimal(rows@.len())
                + " pending row(s)\n"@
        }),
{
    if rows.len() == 0 {
        return text::owned("no pending disambiguations\n");
    }
    let mut s = String::new();
    let mut i: usize = 0;
    while i < rows.len()
        invariant
            i <= rows@.len(),
            s@ == pending_blocks(rows@, i as int),
        decreases rows@.len() - i,
    {
        s.append(write_pending(&rows[i]).as_str());
        i = i + 1;
    }
    s.append(text::usize_text(rows.len()).as_str());
    s.append(" pending row(s)\n");
    s
}

/// A name that was resolved.
#[derive(Debug)]
pub struct ResolveResponse {
    /// The open name.
    pub pending_id: i64,
    /// Kind of name.
    pub kind: String,
    /// The book.
    pub book_id: i64,
    /// The row that it is.
    pub resolved_id: i64,
}

/// What is printed of a resolved name.
pub fn render_resolved(r: &ResolveResponse) -> (s: String)
    ensures
        s@ == "resolved #"@ + text::signed_decimal(r.pending_id as int) + " — "@ + r.kind@
            + " book "@ + text::signed_decimal(r.book_id as int) + " → "@ + r.kind@ + " id "@
            + text::signed_decimal(r.resolved_id as int) + "\n"@,
{
    let mut s = text::owned("resolved #");
    s.append(text::i64_text(r.pending_id).as_str());
    s.append(" — ");
    s.append(r.kind.as_str());
    s.append(" book ");
    s.append(text::i64_text(r.book_id).as_str());
    s.append(" → ");
    s.append(r.kind.as_str());
    s.append(" id ");
    s.append(text::i64_text(r.resolved_id).as_str());
    s.append("\n");
    s
}

// ── Reports ────────────────────────────────────────────────────────

/// A book that is not in the library.
#[derive(Debug)]
pub struct BookCandidate {
    /// Audible identifier.
    pub asin: String,
    /// Title.
    pub title: String,
    /// Whether it has come out.
    pub status: String,
    /// Day of its release.
    pub release_date: Option<String>,
    /// Authors.
    pub authors: Vec<String>,
}

/// The books of an author that are missing.
#[derive(Debug)]
pub struct GapsReport {
    /// The author.
    pub author_id: i64,
    /// Their name.
    pub author_name: String,
    /// Number of books in the library.
    pub owned_count: u64,
    /// Number of books that are missing.
    pub gap_count: u64,
    /// The books that are missing.
    pub books: Vec<BookCandidate>,
}

/// A missing book as it is printed.
#[verifier::opaque]
pub open spec fn gap_line(b: BookCandidate) -> Seq<char> {
    "  ["@ + text::left_filled(b.status@, 8, ' ') + "] "@ + b.asin@ + " — "@ + b.title@ + " ("@
        + or_text(b.release_date, ""@) + ")\n"@
}

/// The first `n` missing books as they are printed.
pub open spec fn gap_lines(v: Seq<BookCandidate>, n: int) -> Seq<char>
    decreases n,
{
    if n <= 0 {
        Seq::empty()
    } else {
        gap_lines(v, n - 1) + gap_line(v[n - 1])
    }
}

fn write_gap(b: &BookCandidate) -> (s: String)
    ensures
        s@ == gap_line(*b),
{
    let mut s = text::owned("  [");
    s.append(text::fill_left(b.status.as_str(), 8, ' ').as_str());
    s.append("] ");
    s.append(b.asin.as_str());
    s.append(" — ");
    s.append(b.title.as_str());
    s.append(" (");
    s.append(or_str(&b.release_date, ""));
    s.append(")\n");
    proof {
        reveal(gap_line);
    }
    s
}

fn write_gaps(v: &Vec<BookCandidate>) -> (s: String)
    ensures
        s@ == gap_lines(v@, v@.len() as int),
{
    let mut s = String::new();
    let mut i: usize = 0;
    while i < v.len()
        invariant
            i <= v@.len(),
            s@ == gap_lines(v@, i as int),
        decreases v@.len() - i,
    {
        s.append(write_gap(&v[i]).as_str());
        i = i + 1;
    }
    s
}

/// What is printed of the missing books of an author.
pub fn render_gaps(body: &GapsReport) -> (s: String)
    ensures
        s@ == "author #"@ + text::signed_decimal(body.author_id as int) + " — "@
            + body.author_name@ + " — "@ + text::decimal(body.owned_count as nat) + " owned / "@
            + text::decimal(body.gap_count as nat) + " gap\n"@ + gap_lines(
            body.books@,
            body.books@.len() as int,
        ),
{
    let mut s = text::owned("author #");
    s.append(text::i64_text(body.author_id).as_str());
    s.append(" — ");
    s.append(body.author_name.as_str());
    s.append(" — ");
    s.append(text::u64_text(body.owned_count).as_str());
    s.append(" owned / ");
    s.append(text::u64_text(body.gap_count).as_str());
    s.append(" gap\n");
    s.append(write_gaps(&body.books).as_str());
    s
}

/// The books that come out soon.
#[derive(Debug)]
pub struct UpcomingReport {
    /// Days that were looked ahead.
    pub days_window: u32,
    /// Number of authors that were asked about.
    pub authors_checked: u64,
    /// The books.
    pub books: Vec<BookCandidate>,
}

/// An upcoming book as it is printed.
#[verifier::opaque]
pub open spec fn upcoming_line(b: BookCandidate) -> Seq<char> {
    "  "@ + or_text(b.release_date, "?"@) + " ["@ + b.status@ + "]  "@ + b.title@ + " — "@
        + text::joined(text::texts(b.authors@), ", "@) + "  ("@ + b.asin@ + ")\n"@
}

/// The first `n` upcoming books as they are printed.
pub open spec fn upcoming_lines(v: Seq<BookCandidate>, n: int) -> Seq<char>
    decreases n,
{
    if n <= 0 {
        Seq::empty()
    } else {
        upcoming_lines(v, n - 1) + upcoming_line(v[n - 1])
    }
}

fn write_upcoming(b: &BookCandidate) -> (s: String)
    ensures
        s@ == upcoming_line(*b),
{
    let mut s = text::owned("  ");
    s.append(or_str(&b.release_date, "?"));
    s.append(" [");
    s.append(b.status.as_str());
    s.append("]  ");
    s.append(b.title.as_str());
    s.append(" — ");
    s.append(text::join(&b.authors, ", ").as_str());
    s.append("  (");
    s.append(b.asin.as_str());
    s.append(")\n");
    proof {
        reveal(upcoming_line);
    }
    s
}

fn write_upcoming_all(v: &Vec<BookCandidate>) -> (s: String)
    ensures
        s@ == upcoming_lines(v@, v@.len() as int),
{
    let mut s = String::new();
    let mut i: usize = 0;
    while i < v.len()
        invariant
            i <= v@.len(),
            s@ == upcoming_lines(v@, i as int),
        decreases v@.len() - i,
    {
        s.append(write_upcoming(&v[i]).as_str());
        i = i + 1;
    }
    s
}

/// What is printed of the upcoming books.
pub fn render_upcoming(body: &UpcomingReport) -> (s: String)
    ensures
        s@ == text::decimal(body.days_window as nat) + " day window — "@ + text::decimal(
            body.authors_checked as nat,
        ) + " authors checked — "@ + text::decimal(body.books@.len()) + " upcoming\n"@
            + upcoming_lines(body.books@, body.books@.len() as int),
{
    let mut s = text::u64_text(body.days_window as u64);
    s.append(" day window — ");
    s.append(text::u64_text(body.authors_checked).as_str());
    s.append(" authors checked — ");
    s.append(text::usize_text(body.books.len()).as_str());
    s.append(" upcoming\n");
    s.append(write_upcoming_all(&body.books).as_str());
    s
}

// ── Speech ─────────────────────────────────────────────────────────

/// The state of a language.
#[derive(Debug)]
pub struct SpeechLocale {
    /// The language.
    pub locale: String,
    /// Number of books in it.
    pub library_books: i64,
    /// Number of books that wait for it.
    pub blocked_books: i64,
    /// What the framework says of it.
    pub sdk_status: Option<String>,
    /// Whether its model is installed.
    pub sdk_installed: bool,
    /// State of its installation.
    pub idle_state: Option<String>,
    /// Why its installation failed.
    pub last_error: Option<String>,
}

/// The state of speech recognition.
#[derive(Debug)]
pub struct SpeechReport {
    /// Whether it can be used.
    pub framework_available: bool,
    /// The languages of the library.
    pub locales: Vec<SpeechLocale>,
}

/// A row of the table of languages.
#[verifier::opaque]
pub open spec fn speech_row(
    a: Seq<char>,
    b: Seq<char>,
    c: Seq<char>,
    d: Seq<char>,
    e: Seq<char>,
) -> Seq<char> {
    text::right_filled(a, 10) + " "@ + text::left_filled(b, 5, ' ') + " "@ + text::left_filled(
        c,
        7,
        ' ',
    ) + " "@ + text::right_filled(d, 14) + " "@ + text::right_filled(e, 14) + "\n"@
}

fn write_speech_row(a: &str, b: &str, c: &str, d: &str, e: &str) -> (s: String)
    ensures
        s@ == speech_row(a@, b@, c@, d@, e@),
{
    let mut s = text::fill_right(a, 10);
    s.append(" ");
    s.append(text::fill_left(b, 5, ' ').as_str());
    s.append(" ");
    s.append(text::fill_left(c, 7, ' ').as_str());
    s.append(" ");
    s.append(text::fill_right(d, 14).as_str());
    s.append(" ");
    s.append(text::fill_right(e, 14).as_str());
    s.append("\n");
    proof {
        reveal(speech_row);
    }
    s
}

/// A language as it is printed, with its error where there is one.
pub open spec fn locale_lines(l: SpeechLocale) -> Seq<char> {
    let row = speech_row(
        l.locale@,
        text::signed_decimal(l.library_books as int),
        text::signed_decimal(l.blocked_books as int),
        or_text(l.sdk_status, "?"@),
        or_text(l.idle_state, "—"@),
    );
    match l.last_error {
        Some(e) => row + "  ↳ last error: "@ + e@ + "\n"@,
        None => row,
    }
}

fn write_locale(l: &SpeechLocale) -> (s: String)
    ensures
        s@ == locale_lines(*l),
{
    let mut s = write_speech_row(
        l.locale.as_str(),
        text::i64_text(l.library_books).as_str(),
        text::i64_text(l.blocked_books).as_str(),
        or_str(&l.sdk_status, "?"),
        or_str(&l.idle_state, "—"),
    );
    if let Some(e) = &l.last_error {
        s.append("  ↳ last error: ");
        s.append(e.as_str());
        s.append("\n");
    }
    s
}

/// The first `n` languages as they are printed.
pub open spec fn locales_text(v: Seq<SpeechLocale>, n: int) -> Seq<char>
    decreases n,
{
    if n <= 0 {
        Seq::empty()
    } else {
        locales_text(v, n - 1) + locale_lines(v[n - 1])
    }
}

fn write_locales(v: &Vec<SpeechLocale>) -> (s: String)
    ensures
        s@ == locales_text(v@, v@.len() as int),
{
    let mut s = String::new();
    let mut i: usize = 0;
    while i < v.len()
        invariant
            i <= v@.len(),
            s@ == locales_text(v@, i as int),
        decreases v@.len() - i,
    {
        s.append(write_locale(&v[i]).as_str());
        i = i + 1;
    }
    s
}

/// Number of the first `n` languages whose model is not installed.
pub open spec fn missing_count(v: Seq<SpeechLocale>, n: int) -> nat
    decreases n,
{
    if n <= 0 {
        0
    } else {
        missing_count(v, n - 1) + if v[n - 1].sdk_installed {
            0nat
        } else {
            1nat
        }
    }
}

/// The first language from `n` on whose model is not installed.
pub open spec fn first_missing(v: Seq<SpeechLocale>, n: int) -> Option<Seq<char>>
    decreases v.len() - n,
{
    if n < 0 || n >= v.len() {
        None
    } else if !v[n].sdk_installed {
        Some(v[n].locale@)
    } else {
        first_missing(v, n + 1)
    }
}

/// What is said of languages whose model is not installed.
#[verifier::opaque]
pub open spec fn install_hint(count: nat, first: Seq<char>) -> Seq<char> {
    "\n"@ + text::decimal(count)
        + " locale(s) need install. Run:\n  aborg doctor install --all\nOr for one:\n"@
        + "  aborg doctor install --language "@ + first + "\n"@
}

fn write_hint(count: usize, first: &str) -> (s: String)
    ensures
        s@ == install_hint(count as nat, first@),
{
    let mut s = text::owned("\n");
    s.append(text::usize_text(count).as_str());
    s.append(" locale(s) need install. Run:\n  aborg doctor install --all\nOr for one:\n");
    s.append("  aborg doctor install --language ");
    s.append(first);
    s.append("\n");
    proof {
        reveal(install_hint);
    }
    s
}

/// Whether speech recognition can be used, as it is printed.
pub open spec fn speech_head(available: bool) -> Seq<char> {
    "Apple Intelligence: "@ + (if available {
        "available"@
    } else {
        "UNAVAILABLE — enable in System Settings → Privacy & Security → Apple Intelligence"@
    }) + "\n"@
}

/// The table of languages with its head.
#[verifier::opaque]
pub open spec fn speech_table(v: Seq<SpeechLocale>) -> Seq<char> {
    "\n"@ + speech_row("Locale"@, "Books"@, "Blocked"@, "SDK Status"@, "Idle State"@)
        + text::repeated('-', 60) + "\n"@ + locales_text(v, v.len() as int)
}

fn write_speech_table(v: &Vec<SpeechLocale>) -> (s: String)
    ensures
        s@ == speech_table(v@),
{
    let mut s = text::owned("\n");
    s.append(
        write_speech_row("Locale", "Books", "Blocked", "SDK Status", "Idle State").as_str(),
    );
    s.append(text::repeat_char('-', 60).as_str());
    s.append("\n");
    s.append(write_locales(v).as_str());
    proof {
        reveal(speech_table);
    }
    s
}

/// What is printed of speech recognition.
pub open spec fn speech_text(r: SpeechReport) -> Seq<char> {
    let head = speech_head(r.framework_available);
    if r.locales@.len() == 0 {
        head
            + "\nNo language candidates in library yet. Use:\n  aborg doctor install --language <bcp47>\nto install a model in advance of importing books.\n"@
    } else {
        let table = head + speech_table(r.locales@);
        match first_missing(r.locales@, 0) {
            Some(first) => table + install_hint(
                missing_count(r.locales@, r.locales@.len() as int),
                first,
            ),
            None => table,
        }
    }
}

fn count_missing(v: &Vec<SpeechLocale>) -> (r: (usize, Option<usize>))
    ensures
        r.0 == missing_count(v@, v@.len() as int),
        match r.1 {
            Some(i) => i < v@.len() && first_missing(v@, 0) == Some(v@[i as int].locale@),
            None => first_missing(v@, 0) is None,
        },
{
    let mut count: usize = 0;
    let mut first: Option<usize> = None;
    let mut i: usize = 0;
    while i < v.len()
        invariant
            i <= v@.len(),
            count <= i,
            count == missing_count(v@, i as int),
            match first {
                Some(k) => k < v@.len() && first_missing(v@, 0) == Some(v@[k as int].locale@),
                None => first_missing(v@, 0) == first_missing(v@, i as int),
            },
        decreases v@.len() - i,
    {
        if !v[i].sdk_installed {
            count = count + 1;
            if first.is_none() {
                first = Some(i);
            }
        }
        i = i + 1;
    }
    (count, first)
}

/// What is printed of speech recognition.
pub fn render_speech(r: &SpeechReport) -> (s: String)
    ensures
        s@ == speech_text(*r),
{
    let mut s = text::owned("Apple Intelligence: ");
    s.append(
        if r.framework_available {
            "available"
        } else {
            "UNAVAILABLE — enable in System Settings → Privacy & Security → Apple Intelligence"
        },
    );
    s.append("\n");
    if r.locales.len() == 0 {
        s.append(
            "\nNo language candidates in library yet. Use:\n  aborg doctor install --language <bcp47>\nto install a model in advance of importing books.\n",
        );
        return s;
    }
    s.append(write_speech_table(&r.locales).as_str());
    let (count, first) = count_missing(&r.locales);
    if let Some(i) = first {
        s.append(write_hint(count, r.locales[i].locale.as_str()).as_str());
    }
    s
}

/// Which languages are to be installed.
#[derive(Debug)]
pub enum InstallRequest {
    /// Every one that is missing.
    All,
    /// This one.
    Locale(String),
}

/// Which languages are to be installed: one, or all where none is named.
pub fn plan_install(language: Option<String>, all: bool) -> (r: Result<InstallRequest, String>)
    ensures
        match language {
            Some(l) => r == Ok::<InstallRequest, String>(InstallRequest::Locale(l)),
            None => if all {
                r matches Ok(InstallRequest::All)
            } else {
                r matches Err(m) && m@ == "specify --language <bcp47> or --all"@
            },
        },
{
    match language {
        Some(l) => Ok(InstallRequest::Locale(l)),
        None => if all {
            Ok(InstallRequest::All)
        } else {
            Err(text::owned("specify --language <bcp47> or --all"))
        },
    }
}

/// What was installed.
#[derive(Debug)]
pub struct InstallReport {
    /// Languages that were installed.
    pub installed: Vec<String>,
    /// Languages that were installed before.
    pub already_installed: Vec<String>,
    /// Languages that could not be installed, and why.
    pub failed: Vec<(String, String)>,
}

/// The first `n` failures as they are printed.
pub open spec fn failure_lines(v: Seq<(String, String)>, n: int) -> Seq<char>
    decreases n,
{
    if n <= 0 {
        Seq::empty()
    } else {
        failure_lines(v, n - 1) + ("  "@ + v[n - 1].0@ + ": "@ + v[n - 1].1@ + "\n"@)
    }
}

fn write_failures(v: &Vec<(String, String)>) -> (s: String)
    ensures
        s@ == failure_lines(v@, v@.len() as int),
{
    let mut s = String::new();
    let mut i: usize = 0;
    while i < v.len()
        invariant
            i <= v@.len(),
            s@ == failure_lines(v@, i as int),
        decreases v@.len() - i,
    {
        let mut l = text::owned("  ");
        l.append(v[i].0.as_str());
        l.append(": ");
        l.append(v[i].1.as_str());
        l.append("\n");
        s.append(l.as_str());
        i = i + 1;
    }
    s
}

/// A list under a heading, where it is not empty.
pub open spec fn list_line(heading: Seq<char>, v: Seq<Seq<char>>) -> Seq<char> {
    if v.len() == 0 {
        Seq::empty()
    } else {
        heading + text::joined(v, ", "@) + "\n"@
    }
}

fn write_list(heading: &str, v: &Vec<String>) -> (s: String)
    ensures
        s@ == list_line(heading@, text::texts(v@)),
{
    proof {
        assert(text::texts(v@).len() == v@.len());
    }
    if v.len() == 0 {
        return String::new();
    }
    let mut s = text::owned(heading);
    s.append(text::join(v, ", ").as_str());
    s.append("\n");
    s
}

/// What is printed of an installation.
pub fn render_install(r: &InstallReport) -> (s: String)
    ensures
        s@ == list_line("Installed: "@, text::texts(r.installed@)) + list_line(
            "Already installed (skipped): "@,
            text::texts(r.already_installed@),
        ) + (if r.failed@.len() == 0 {
            Seq::empty()
        } else {
            "Failed:\n"@ + failure_lines(r.failed@, r.failed@.len() as int)
        }) + (if r.installed@.len() == 0 && r.failed@.len() == 0 {
            "Nothing to do.\n"@
        } else {
            Seq::empty()
        }),
{
    let mut s = write_list("Installed: ", &r.installed);
    s.append(write_list("Already installed (skipped): ", &r.already_installed).as_str());
    let mut f = String::new();
    if r.failed.len() > 0 {
        f = text::owned("Failed:\n");
        f.append(write_failures(&r.failed).as_str());
    }
    s.append(f.as_str());
    let mut n = String::new();
    if r.installed.len() == 0 && r.failed.len() == 0 {
        n = text::owned("Nothing to do.\n");
    }
    s.append(n.as_str());
    s
}

// ── AAX files ──────────────────────────────────────────────────────

/// What an AAX file says of itself.
#[derive(Debug)]
pub struct AaxInfo {
    /// Codec tag.
    pub codec_tag: Option<String>,
    /// Whether the file is locked.
    pub is_aax: bool,
    /// Duration.
    pub duration_ms: Option<u64>,
    /// Title.
    pub title: Option<String>,
    /// Author.
    pub author: Option<String>,
    /// Narrator.
    pub narrator: Option<String>,
    /// Album.
    pub album: Option<String>,
    /// Genre.
    pub genre: Option<String>,
    /// Description.
    pub description: Option<String>,
    /// Copyright.
    pub copyright: Option<String>,
    /// Number of chapters.
    pub chapter_count: u64,
}

/// A field as it is printed, where it is set.
#[verifier::opaque]
pub open spec fn field_line(label: Seq<char>, value: Option<String>) -> Seq<char> {
    match value {
        Some(v) => text::right_filled(label, 14) + " "@ + v@ + "\n"@,
        None => Seq::empty(),
    }
}

fn write_field(label: &str, value: &Option<String>) -> (s: String)
    ensures
        s@ == field_line(label@, *value),
{
    proof {
        reveal(field_line);
    }
    match value {
        Some(v) => {
            let mut s = text::fill_right(label, 14);
            s.append(" ");
            s.append(v.as_str());
            s.append("\n");
            s
        },
        None => String::new(),
    }
}

/// The duration as it is printed, where it is known.
#[verifier::opaque]
pub open spec fn duration_line(duration_ms: Option<u64>) -> Seq<char> {
    match duration_ms {
        Some(ms) => "duration:      "@ + text::decimal(ms as nat) + " ms  ("@ + text::decimal(
            ms as nat / 1000 / 3600,
        ) + "h "@ + text::decimal(ms as nat / 1000 / 60 % 60) + "m)\n"@,
        None => Seq::empty(),
    }
}

fn write_duration(duration_ms: Option<u64>) -> (s: String)
    ensures
        s@ == duration_line(duration_ms),
{
    proof {
        reveal(duration_line);
    }
    match duration_ms {
        Some(ms) => {
            let secs: u64 = ms / 1000;
            let mut s = text::owned("duration:      ");
            s.append(text::u64_text(ms).as_str());
            s.append(" ms  (");
            s.append(text::u64_text(secs / 3600).as_str());
            s.append("h ");
            s.append(text::u64_text(secs / 60 % 60).as_str());
            s.append("m)\n");
            s
        },
        None => String::new(),
    }
}

/// What is printed of an AAX file.
pub fn render_aax_info(path: &str, info: &AaxInfo) -> (s: String)
    ensures
        s@ == "path:          "@ + path@ + "\ncodec_tag:     "@ + or_text(info.codec_tag, "?"@)
            + (if info.is_aax {
            " (Audible AAX — decrypt needed)\n"@
        } else {
            " (not AAX)\n"@
        }) + duration_line(info.duration_ms) + field_line("title"@, info.title) + field_line(
            "author"@,
            info.author,
        ) + field_line("narrator"@, info.narrator) + field_line("album"@, info.album) + field_line(
            "genre"@,
            info.genre,
        ) + field_line("copyright"@, info.copyright) + field_line(
            "description"@,
            info.description,
        ) + "chapter_count: "@ + text::decimal(info.chapter_count as nat) + "\n"@,
{
    let mut s = text::owned("path:          ");
    s.append(path);
    s.append("\ncodec_tag:     ");
    s.append(or_str(&info.codec_tag, "?"));
    s.append(
        if info.is_aax {
            " (Audible AAX — decrypt needed)\n"
        } else {
            " (not AAX)\n"
        },
    );
    s.append(write_duration(info.duration_ms).as_str());
    s.append(write_field("title", &info.title).as_str());
    s.append(write_field("author", &info.author).as_str());
    s.append(write_field("narrator", &info.narrator).as_str());
    s.append(write_field("album", &info.album).as_str());
    s.append(write_field("genre", &info.genre).as_str());
    s.append(write_field("copyright", &info.copyright).as_str());
    s.append(write_field("description", &info.description).as_str());
    s.append("chapter_count: ");
    s.append(text::u64_text(info.chapter_count).as_str());
    s.append("\n");
    s
}

// ── Books ──────────────────────────────────────────────────────────

/// A file of a book.
#[derive(Debug)]
pub struct BookFileDetail {
    /// The file.
    pub file_id: i64,
    /// Its path.
    pub file_path: String,
    /// Duration.
    pub duration_ms: Option<i64>,
    /// Size.
    pub file_size: Option<i64>,
    /// Whether it is in use.
    pub is_active: bool,
}

/// How far a stage has come.
#[derive(Debug)]
pub struct StageProgressRow {
    /// The stage.
    pub stage: String,
    /// How far it has come.
    pub status: String,
    /// When it started.
    pub started_at: Option<i64>,
    /// When it ended.
    pub completed_at: Option<i64>,
    /// Why it failed.
    pub failure_reason: Option<String>,
}

/// A name and its value as they are printed.
pub open spec fn pair(name: Seq<char>, value: Seq<char>) -> Seq<char> {
    " "@ + name + "="@ + value
}

fn write_pair(name: &str, value: &str) -> (s: String)
    ensures
        s@ == pair(name@, value@),
{
    let mut s = text::owned(" ");
    s.append(name);
    s.append("=");
    s.append(value);
    s
}

/// A number, zero where it is unknown.
pub open spec fn or_zero(n: Option<i64>) -> Seq<char> {
    match n {
        Some(v) => text::signed_decimal(v as int),
        None => text::signed_decimal(0),
    }
}

fn number_or_zero(n: Option<i64>) -> (s: String)
    ensures
        s@ == or_zero(n),
{
    match n {
        Some(v) => text::i64_text(v),
        None => text::i64_text(0),
    }
}

/// A truth value as it is printed.
pub open spec fn bool_text(b: bool) -> Seq<char> {
    if b {
        "true"@
    } else {
        "false"@
    }
}

fn show_bool(b: bool) -> (s: &'static str)
    ensures
        s@ == bool_text(b),
{
    if b {
        "true"
    } else {
        "false"
    }
}

/// What is said of a file of a book.
pub fn file_line(f: &BookFileDetail) -> (s: String)
    ensures
        s@ == "book.file"@ + pair("file_id"@, text::signed_decimal(f.file_id as int)) + pair(
            "path"@,
            f.file_path@,
        ) + pair("duration_ms"@, or_zero(f.duration_ms)) + pair("file_size"@, or_zero(f.file_size))
            + pair("is_active"@, bool_text(f.is_active)),
{
    let mut s = text::owned("book.file");
    s.append(write_pair("file_id", text::i64_text(f.file_id).as_str()).as_str());
    s.append(write_pair("path", f.file_path.as_str()).as_str());
    s.append(write_pair("duration_ms", number_or_zero(f.duration_ms).as_str()).as_str());
    s.append(write_pair("file_size", number_or_zero(f.file_size).as_str()).as_str());
    s.append(write_pair("is_active", show_bool(f.is_active)).as_str());
    s
}

/// What is said of a stage of a book.
pub fn stage_line(r: &StageProgressRow) -> (s: String)
    ensures
        s@ == "book.stage"@ + pair("stage"@, r.stage@) + pair("status"@, r.status@) + pair(
            "started_at"@,
            or_zero(r.started_at),
        ) + pair("completed_at"@, or_zero(r.completed_at)) + pair(
            "failure_reason"@,
            or_text(r.failure_reason, ""@),
        ),
{
    let mut s = text::owned("book.stage");
    s.append(write_pair("stage", r.stage.as_str()).as_str());
    s.append(write_pair("status", r.status.as_str()).as_str());
    s.append(write_pair("started_at", number_or_zero(r.started_at).as_str()).as_str());
    s.append(write_pair("completed_at", number_or_zero(r.completed_at).as_str()).as_str());
    s.append(write_pair("failure_reason", or_str(&r.failure_reason, "")).as_str());
    s
}

/// The chapters that a book has from one source.
#[derive(Debug)]
pub struct ChapterCount {
    /// The source.
    pub source: String,
    /// How many there are.
    pub count: i64,
}

/// What is said of the chapters of a book.
pub fn chapters_line(c: &ChapterCount) -> (s: String)
    ensures
        s@ == "book.chapters"@ + pair("source"@, c.source@) + pair(
            "count"@,
            text::signed_decimal(c.count as int),
        ),
{
    let mut s = text::owned("book.chapters");
    s.append(write_pair("source", c.source.as_str()).as_str());
    s.append(write_pair("count", text::i64_text(c.count).as_str()).as_str());
    s
}

/// The details of a book.
#[derive(Debug)]
pub struct BookDetail {
    /// The book.
    pub book_id: i64,
    /// Title.
    pub title: String,
    /// Subtitle.
    pub subtitle: Option<String>,
    /// Language.
    pub language: Option<String>,
    /// Duration.
    pub duration_ms: Option<i64>,
    /// Audible identifier.
    pub asin: Option<String>,
    /// Book number.
    pub isbn: Option<String>,
    /// Day of its release.
    pub release_date: Option<String>,
    /// Whether it is abridged.
    pub abridged: Option<bool>,
    /// Whether it is explicit.
    pub explicit: Option<bool>,
    /// What became of its jingles.
    pub audiologo_status: String,
    /// Author.
    pub author: Option<String>,
    /// Narrators.
    pub narrators: Option<String>,
    /// Publisher.
    pub publisher: Option<String>,
    /// Series.
    pub series: Option<String>,
    /// Whether it has a summary.
    pub has_summary: bool,
    /// Whether it has a story arc.
    pub has_story_arc: bool,
    /// Whether it has a setting.
    pub has_setting: bool,
    /// Whether it has characters.
    pub has_characters: bool,
}

/// Names and values of a book as they are printed: what is absent is empty,
/// zero or false.
pub open spec fn detail_pairs(b: BookDetail) -> Seq<(Seq<char>, Seq<char>)> {
    let minutes = match b.duration_ms {
        Some(ms) => cli::toward_zero(ms as int, 60_000),
        None => 0,
    };
    seq![
        ("book_id"@, text::signed_decimal(b.book_id as int)),
        ("title"@, b.title@),
        ("subtitle"@, or_text(b.subtitle, ""@)),
        ("author"@, or_text(b.author, ""@)),
        ("narrators"@, or_text(b.narrators, ""@)),
        ("publisher"@, or_text(b.publisher, ""@)),
        ("series"@, or_text(b.series, ""@)),
        ("language"@, or_text(b.language, ""@)),
        ("asin"@, or_text(b.asin, ""@)),
        ("isbn"@, or_text(b.isbn, ""@)),
        ("release_date"@, or_text(b.release_date, ""@)),
        ("duration_min"@, text::signed_decimal(minutes)),
        ("abridged"@, bool_text(b.abridged == Some(true))),
        ("explicit"@, bool_text(b.explicit == Some(true))),
        ("audiologo_status"@, b.audiologo_status@),
        ("has_summary"@, bool_text(b.has_summary)),
        ("has_story_arc"@, bool_text(b.has_story_arc)),
        ("has_setting"@, bool_text(b.has_setting)),
        ("has_characters"@, bool_text(b.has_characters)),
    ]
}

/// The first `n` pairs as they are printed.
pub open spec fn pairs_text(v: Seq<(Seq<char>, Seq<char>)>, n: int) -> Seq<char>
    decreases n,
{
    if n <= 0 {
        Seq::empty()
    } else {
        pairs_text(v, n - 1) + pair(v[n - 1].0, v[n - 1].1)
    }
}

fn truth(b: Option<bool>) -> (r: bool)
    ensures
        r == (b == Some(true)),
{
    match b {
        Some(v) => v,
        None => false,
    }
}

fn list_details(b: &BookDetail) -> (v: Vec<(&'static str, String)>)
    ensures
        v@.len() == detail_pairs(*b).len(),
        forall|i: int|
            0 <= i < v@.len() ==> (#[trigger] v@[i]).0@ == detail_pairs(*b)[i].0 && v@[i].1@
                == detail_pairs(*b)[i].1,
{
    let mut v: Vec<(&'static str, String)> = Vec::new();
    v.push(("book_id", text::i64_text(b.book_id)));
    v.push(("title", text::owned(b.title.as_str())));
    v.push(("subtitle", text::owned(or_str(&b.subtitle, ""))));
    v.push(("author", text::owned(or_str(&b.author, ""))));
    v.push(("narrators", text::owned(or_str(&b.narrators, ""))));
    v.push(("publisher", text::owned(or_str(&b.publisher, ""))));
    v.push(("series", text::owned(or_str(&b.series, ""))));
    v.push(("language", text::owned(or_str(&b.language, ""))));
    v.push(("asin", text::owned(or_str(&b.asin, ""))));
    v.push(("isbn", text::owned(or_str(&b.isbn, ""))));
    v.push(("release_date", text::owned(or_str(&b.release_date, ""))));
    v.push(("duration_min", text::i64_text(cli::duration_minutes(b.duration_ms))));
    v.push(("abridged", text::owned(show_bool(truth(b.abridged)))));
    v.push(("explicit", text::owned(show_bool(truth(b.explicit)))));
    v.push(("audiologo_status", text::owned(b.audiologo_status.as_str())));
    v.push(("has_summary", text::owned(show_bool(b.has_summary))));
    v.push(("has_story_arc", text::owned(show_bool(b.has_story_arc))));
    v.push(("has_setting", text::owned(show_bool(b.has_setting))));
    v.push(("has_characters", text::owned(show_bool(b.has_characters))));
    v
}

/// What is said of a book.
pub fn detail_line(b: &BookDetail) -> (s: String)
    ensures
        s@ == "book.detail"@ + pairs_text(detail_pairs(*b), detail_pairs(*b).len() as int),
{
    let v = list_details(b);
    let mut p = String::new();
    let mut i: usize = 0;
    while i < v.len()
        invariant
            i <= v@.len(),
            v@.len() == detail_pairs(*b).len(),
            forall|j: int|
                0 <= j < v@.len() ==> (#[trigger] v@[j]).0@ == detail_pairs(*b)[j].0 && v@[j].1@
                    == detail_pairs(*b)[j].1,
            p@ == pairs_text(detail_pairs(*b), i as int),
        decreases v@.len() - i,
    {
        p.append(write_pair(v[i].0, v[i].1.as_str()).as_str());
        i = i + 1;
    }
    let mut s = text::owned("book.detail");
    s.append(p.as_str());
    s
}

/// A book in a list.
#[derive(Debug)]
pub struct BookRow {
    /// The book.
    pub book_id: i64,
    /// Title.
    pub title: String,
    /// Its first file.
    pub file_path: Option<String>,
    /// Author.
    pub author: Option<String>,
    /// Narrators.
    pub narrators: Option<String>,
    /// Series.
    pub series: Option<String>,
}

/// What is said of a book in a list.
pub fn book_line(b: &BookRow) -> (s: String)
    ensures
        s@ == "book"@ + pair("book_id"@, text::signed_decimal(b.book_id as int)) + pair(
            "title"@,
            b.title@,
        ) + pair("author"@, or_text(b.author, ""@)) + pair("narrators"@, or_text(b.narrators, ""@))
            + pair("series"@, or_text(b.series, ""@)) + pair(
            "file"@,
            or_text(b.file_path, "<no file>"@),
        ),
{
    let mut s = text::owned("book");
    s.append(write_pair("book_id", text::i64_text(b.book_id).as_str()).as_str());
    s.append(write_pair("title", b.title.as_str()).as_str());
    s.append(write_pair("author", or_str(&b.author, "")).as_str());
    s.append(write_pair("narrators", or_str(&b.narrators, "")).as_str());
    s.append(write_pair("series", or_str(&b.series, "")).as_str());
    s.append(write_pair("file", or_str(&b.file_path, "<no file>")).as_str());
    s
}

// ── Laws ───────────────────────────────────────────────────────────
/// The totals count every target once: one more adds what it has.
pub proof fn law_totals(rows: Seq<CleanReportRow>, row: CleanReportRow, k: int)
    requires
        0 <= k < rows.len(),
    ensures
        items_sum(rows, 0) == 0,
        bytes_sum(rows, 0) == 0,
        items_sum(rows.push(row), rows.len() as int + 1) == items_sum(rows, rows.len() as int)
            + row.items,
        bytes_sum(rows.push(row), rows.len() as int + 1) == bytes_sum(rows, rows.len() as int)
            + row.bytes,
        rows[k].items <= items_sum(rows, rows.len() as int),
        rows[k].bytes <= bytes_sum(rows, rows.len() as int),
{
    lemma_sums_of_prefix(rows, rows.push(row), rows.len() as int);
    lemma_sums_grow(rows, k, k + 1);
    lemma_sums_grow(rows, k + 1, rows.len() as int);
}

proof fn lemma_sums_of_prefix(a: Seq<CleanReportRow>, b: Seq<CleanReportRow>, n: int)
    requires
        n <= a.len(),
        n <= b.len(),
        forall|i: int| 0 <= i < n ==> a[i] == b[i],
    ensures
        items_sum(a, n) == items_sum(b, n),
        bytes_sum(a, n) == bytes_sum(b, n),
    decreases n,
{
    if n > 0 {
        lemma_sums_of_prefix(a, b, n - 1);
    }
}

/// In a row of the table the name fills a column of 24 on the left, and the
/// numbers end columns of 6 and 10.
pub proof fn law_clean_columns(name: Seq<char>, items: nat, bytes: nat)
    requires
        name.len() <= 24,
        text::decimal(items).len() <= 6,
        text::decimal(bytes).len() <= 10,
    ensures
        ({
            let row = clean_row(name, items, bytes);
            &&& row.len() == 57
            &&& row.subrange(2, 2 + name.len() as int) == name
            &&& forall|i: int| 2 + name.len() <= i < 27 ==> #[trigger] row[i] == ' '
            &&& forall|i: int|
                27 <= i < 33 - text::decimal(items).len() ==> #[trigger] row[i] == ' '
            &&& row.subrange(33 - text::decimal(items).len(), 33) == text::decimal(items)
            &&& forall|i: int|
                40 <= i < 50 - text::decimal(bytes).len() ==> #[trigger] row[i] == ' '
            &&& row.subrange(33, 40) == " items "@
            &&& row.subrange(50 - text::decimal(bytes).len(), 50) == text::decimal(bytes)
            &&& row.subrange(50, 57) == " bytes\n"@
        }),
{
    reveal(clean_row);
    reveal_strlit("  ");
    reveal_strlit(" ");
    reveal_strlit(" items ");
    reveal_strlit(" bytes");
    reveal_strlit(" bytes\n");
    reveal_strlit("\n");
    let row = clean_row(name, items, bytes);
    assert(row.subrange(2, 2 + name.len() as int) =~= name);
    assert(row.subrange(33 - text::decimal(items).len(), 33) =~= text::decimal(items));
    assert(row.subrange(33, 40) =~= " items "@);
    assert(row.subrange(50 - text::decimal(bytes).len(), 50) =~= text::decimal(bytes));
    assert(row.subrange(50, 57) =~= " bytes\n"@);
}

/// Above the table stands the group, whether anything was deleted, whether the
/// age was ignored, the age in days, and the number of targets.
pub proof fn law_clean_head(body: CleanRunResponse)
    ensures
        ({
            let done = if body.commit { "committed"@ + " "@ + "→"@ } else { "dry-run"@ + " "@ + "↦"@ };
            let forced = if body.force { " (forced)"@ } else { ""@ };
            let days = cli::toward_zero(body.age_seconds as int, 24 * 60 * 60int);
            clean_head(body) == "clean "@ + body.category@ + " "@ + done + forced
                + " — age cut-off "@ + text::signed_decimal(days) + " d, "@ + text::decimal(
                body.targets@.len(),
            ) + " target(s)"@ + "\n"@
        }),
{
    reveal(clean_head);
    let done = if body.commit {
        "committed"@ + " "@ + "→"@
    } else {
        "dry-run"@ + " "@ + "↦"@
    };
    let first = if body.commit {
        "committed"@
    } else {
        "dry-run"@
    };
    let arrow = if body.commit {
        "→"@
    } else {
        "↦"@
    };
    assert("clean "@ + body.category@ + " "@ + done =~= "clean "@ + body.category@ + " "@ + first
        + " "@ + arrow);
}

/// Below the head stands a row for each target and one for the total. Where
/// something would be deleted, but was not, it is told how to.
pub proof fn law_clean_table(body: CleanRunResponse, rows: Seq<CleanReportRow>, n: int)
    requires
        0 <= n < rows.len(),
    ensures
        clean_rows(rows, 0) == Seq::<char>::empty(),
        clean_rows(rows, n + 1) == clean_rows(rows, n) + clean_row(
            rows[n].name@,
            rows[n].items as nat,
            rows[n].bytes as nat,
        ),
        ({
            let k = body.targets@.len() as int;
            let (items, bytes) = (items_sum(body.targets@, k), bytes_sum(body.targets@, k));
            let table = clean_head(body) + clean_rows(body.targets@, k) + clean_row(
                "TOTAL"@,
                items as nat,
                bytes as nat,
            );
            &&& body.commit ==> clean_text(body) == table
            &&& items == 0 && bytes == 0 ==> clean_text(body) == table
            &&& !body.commit && items > 0 ==> clean_text(body) == table
                + "\nrun with --commit to delete.\n"@
            &&& !body.commit && bytes > 0 ==> clean_text(body) == table
                + "\nrun with --commit to delete.\n"@
        }),
{
}

/// An action that was asked for is told, done or not; one that was not, is not.
pub proof fn law_action_line(kind: Seq<char>, id: int, yes: Seq<char>, no: Seq<char>)
    ensures
        action_line(kind, id, None, yes, no).len() == 0,
        action_line(kind, id, Some(true), yes, no) == kind + " "@ + text::signed_decimal(id) + yes,
        action_line(kind, id, Some(false), yes, no) == kind + " "@ + text::signed_decimal(id) + no,
{
}

/// A text that is there is shown, and its replacement where it is not. A number
/// that is not there is zero.
pub proof fn law_replacements(s: String, other: Seq<char>, n: i64, b: bool)
    ensures
        or_text(Some(s), other) == s@,
        or_text(None, other) == other,
        or_zero(Some(n)) == text::signed_decimal(n as int),
        or_zero(None) == "0"@,
        bool_text(true) == "true"@,
        bool_text(false) == "false"@,
{
    reveal_strlit("0");
    text::law_decimal_reads_back(0);
    assert(text::decimal(0) =~= "0"@);
}

/// A candidate is told with its row, its score, its name, and its identifier;
/// a question mark stands for a name that is not there.
pub proof fn law_candidate_line(c: PendingCandidate)
    ensures
        ({
            let id = text::left_filled(text::signed_decimal(c.id as int), 4, ' ');
            let score = text::left_filled(c.score@, 4, ' ');
            let name = if c.display is Some { c.display->0@ } else { "?"@ };
            let asin = if c.audible_id is Some { c.audible_id->0@ } else { ""@ };
            candidate_line(c) == "  id "@ + id + "  score "@ + score + "  "@ + name + "  "@ + asin
                + "\n"@
        }),
{
    reveal(candidate_line);
}

/// An open name is told with its number, kind, book and spelling, and then its
/// candidates, one for each and in their order.
pub proof fn law_pending_block(
    r: PendingRow,
    candidates: Seq<PendingCandidate>,
    rows: Seq<PendingRow>,
    n: int,
    k: int,
)
    requires
        0 <= n < candidates.len(),
        0 <= k < rows.len(),
    ensures
        pending_block(r) == "pending #"@ + text::signed_decimal(r.pending_id as int) + " — "@
            + r.kind@ + " book "@ + text::signed_decimal(r.book_id as int) + " — observed `"@
            + r.observed_alias@ + "`\n"@ + candidate_lines(
            r.candidates@,
            r.candidates@.len() as int,
        ),
        candidate_lines(candidates, 0) == Seq::<char>::empty(),
        candidate_lines(candidates, n + 1) == candidate_lines(candidates, n) + candidate_line(
            candidates[n],
        ),
        pending_blocks(rows, 0) == Seq::<char>::empty(),
        pending_blocks(rows, k + 1) == pending_blocks(rows, k) + pending_block(rows[k]),
{
    reveal(pending_block);
}

/// A missing book is told with whether it has come out, its identifier, title
/// and day; an upcoming one with its day, a question mark where that is
/// unknown, and its authors.
pub proof fn law_book_lines(b: BookCandidate, books: Seq<BookCandidate>, n: int)
    requires
        0 <= n < books.len(),
    ensures
        ({
            let day = |unknown: Seq<char>|
                if b.release_date is Some {
                    b.release_date->0@
                } else {
                    unknown
                };
            &&& gap_line(b) == "  ["@ + text::left_filled(b.status@, 8, ' ') + "] "@ + b.asin@
                + " — "@ + b.title@ + " ("@ + day(""@) + ")\n"@
            &&& upcoming_line(b) == "  "@ + day("?"@) + " ["@ + b.status@ + "]  "@ + b.title@
                + " — "@ + text::joined(text::texts(b.authors@), ", "@) + "  ("@ + b.asin@ + ")\n"@
        }),
        gap_lines(books, 0) == Seq::<char>::empty(),
        gap_lines(books, n + 1) == gap_lines(books, n) + gap_line(books[n]),
        upcoming_lines(books, 0) == Seq::<char>::empty(),
        upcoming_lines(books, n + 1) == upcoming_lines(books, n) + upcoming_line(books[n]),
{
    reveal(gap_line);
    reveal(upcoming_line);
}

/// The columns of the table of languages stand at the same places in every row
/// whose texts fit.
pub proof fn law_speech_columns(
    a: Seq<char>,
    b: Seq<char>,
    c: Seq<char>,
    d: Seq<char>,
    e: Seq<char>,
)
    requires
        a.len() <= 10,
        b.len() <= 5,
        c.len() <= 7,
        d.len() <= 14,
        e.len() <= 14,
    ensures
        ({
            let row = speech_row(a, b, c, d, e);
            &&& row.len() == 55
            &&& row.subrange(0, a.len() as int) == a
            &&& row.subrange(16 - b.len(), 16) == b
            &&& row.subrange(24 - c.len(), 24) == c
            &&& row.subrange(25, 25 + d.len() as int) == d
            &&& row.subrange(40, 40 + e.len() as int) == e
            &&& row[54] == '\n'
            &&& forall|i: int| a.len() <= i < 16 - b.len() ==> #[trigger] row[i] == ' '
            &&& forall|i: int| 16 <= i < 24 - c.len() ==> #[trigger] row[i] == ' '
            &&& forall|i: int| 25 + d.len() <= i < 40 ==> #[trigger] row[i] == ' '
        }),
{
    reveal(speech_row);
    reveal_strlit(" ");
    reveal_strlit("\n");
    let row = speech_row(a, b, c, d, e);
    assert(row.subrange(0, a.len() as int) =~= a);
    assert(row.subrange(16 - b.len(), 16) =~= b);
    assert(row.subrange(24 - c.len(), 24) =~= c);
    assert(row.subrange(25, 25 + d.len() as int) =~= d);
    assert(row.subrange(40, 40 + e.len() as int) =~= e);
}

/// A language is a row of the table: its name, the books in it and those that
/// wait, what the framework says of it and its installation. Its error follows
/// where there is one.
pub proof fn law_locale_lines(l: SpeechLocale, v: Seq<SpeechLocale>, n: int)
    requires
        0 <= n < v.len(),
    ensures
        ({
            let row = speech_row(
                l.locale@,
                text::signed_decimal(l.library_books as int),
                text::signed_decimal(l.blocked_books as int),
                if l.sdk_status is Some {
                    l.sdk_status->0@
                } else {
                    "?"@
                },
                if l.idle_state is Some {
                    l.idle_state->0@
                } else {
                    "—"@
                },
            );
            &&& l.last_error is None ==> locale_lines(l) == row
            &&& l.last_error is Some ==> locale_lines(l) == row + "  ↳ last error: "@
                + l.last_error->0@ + "\n"@
        }),
        locales_text(v, 0) == Seq::<char>::empty(),
        locales_text(v, n + 1) == locales_text(v, n) + locale_lines(v[n]),
        speech_table(v) == "\n"@ + speech_row(
            "Locale"@,
            "Books"@,
            "Blocked"@,
            "SDK Status"@,
            "Idle State"@,
        ) + text::repeated('-', 60) + "\n"@ + locales_text(v, v.len() as int),
{
    reveal(speech_table);
}

/// The languages that are missing are those without a model. None is missing
/// exactly where every one has its model, and the first that is missing is
/// named.
pub proof fn law_missing_languages(v: Seq<SpeechLocale>, n: int)
    requires
        0 <= n <= v.len(),
    ensures
        missing_count(v, 0) == 0,
        n < v.len() && v[n].sdk_installed ==> missing_count(v, n + 1) == missing_count(v, n),
        n < v.len() && !v[n].sdk_installed ==> missing_count(v, n + 1) == missing_count(v, n) + 1,
        first_missing(v, n) is None <==> forall|i: int|
            n <= i < v.len() ==> (#[trigger] v[i]).sdk_installed,
        first_missing(v, n) is Some ==> exists|i: int|
            {
                &&& n <= i < v.len()
                &&& !(#[trigger] v[i]).sdk_installed
                &&& first_missing(v, n) == Some(v[i].locale@)
                &&& forall|j: int| n <= j < i ==> (#[trigger] v[j]).sdk_installed
            },
    decreases v.len() - n,
{
    if n < v.len() {
        law_missing_languages(v, n + 1);
        if v[n].sdk_installed && first_missing(v, n) is Some {
            let i = choose|i: int|
                {
                    &&& n + 1 <= i < v.len()
                    &&& !(#[trigger] v[i]).sdk_installed
                    &&& first_missing(v, n + 1) == Some(v[i].locale@)
                    &&& forall|j: int| n + 1 <= j < i ==> (#[trigger] v[j]).sdk_installed
                };
            assert(first_missing(v, n) == Some(v[i].locale@));
            assert forall|j: int| n <= j < i implies (#[trigger] v[j]).sdk_installed by {}
        }
    }
}

/// Where a language is missing, it is told how many are and how to install
/// them; where there is none at all, how to install one in advance.
pub proof fn law_speech_text(r: SpeechReport, count: nat, first: Seq<char>)
    ensures
        speech_head(true) == "Apple Intelligence: "@ + "available"@ + "\n"@,
        speech_head(false) == "Apple Intelligence: "@
            + "UNAVAILABLE — enable in System Settings → Privacy & Security → Apple Intelligence"@
            + "\n"@,
        install_hint(count, first) == "\n"@ + text::decimal(count)
            + " locale(s) need install. Run:\n  aborg doctor install --all\nOr for one:\n"@
            + "  aborg doctor install --language "@ + first + "\n"@,
        r.locales@.len() == 0 ==> speech_text(r) == speech_head(r.framework_available)
            + "\nNo language candidates in library yet. Use:\n  aborg doctor install --language <bcp47>\nto install a model in advance of importing books.\n"@,
        r.locales@.len() > 0 && first_missing(r.locales@, 0) is None ==> speech_text(r)
            == speech_head(r.framework_available) + speech_table(r.locales@),
        r.locales@.len() > 0 && first_missing(r.locales@, 0) is Some ==> speech_text(r)
            == speech_head(r.framework_available) + speech_table(r.locales@) + install_hint(
            missing_count(r.locales@, r.locales@.len() as int),
            first_missing(r.locales@, 0)->0,
        ),
{
    reveal(install_hint);
}

/// An empty list is not printed. A failure is told with its language and why.
pub proof fn law_install_lines(
    heading: Seq<char>,
    v: Seq<Seq<char>>,
    failures: Seq<(String, String)>,
    n: int,
)
    requires
        0 <= n < failures.len(),
    ensures
        v.len() == 0 ==> list_line(heading, v).len() == 0,
        v.len() > 0 ==> list_line(heading, v) == heading + text::joined(v, ", "@) + "\n"@,
        failure_lines(failures, 0) == Seq::<char>::empty(),
        failure_lines(failures, n + 1) == failure_lines(failures, n) + ("  "@ + failures[n].0@
            + ": "@ + failures[n].1@ + "\n"@),
{
}

/// A field that is set is a line with its value from the sixteenth sign on,
/// where its label fits; one that is not set is no line.
pub proof fn law_field_lines(label: Seq<char>, value: String)
    requires
        label.len() <= 14,
    ensures
        field_line(label, None).len() == 0,
        field_line(label, Some(value)).len() == 16 + value@.len(),
        field_line(label, Some(value)).take(label.len() as int) == label,
        forall|i: int|
            label.len() <= i < 15 ==> #[trigger] field_line(label, Some(value))[i] == ' ',
        field_line(label, Some(value)).subrange(15, 15 + value@.len() as int) == value@,
        field_line(label, Some(value)).last() == '\n',
{
    reveal(field_line);
    reveal_strlit(" ");
    reveal_strlit("\n");
    let line = field_line(label, Some(value));
    assert(line.take(label.len() as int) =~= label);
    assert(line.subrange(15, 15 + value@.len() as int) =~= value@);
}

/// A duration is told in milliseconds, and in the whole hours and minutes of
/// it.
pub proof fn law_duration_line(ms: u64, h: nat, m: nat, rest: nat)
    requires
        ms == h * 3_600_000 + m * 60_000 + rest,
        m < 60,
        rest < 60_000,
    ensures
        duration_line(None).len() == 0,
        duration_line(Some(ms)) == "duration:      "@ + text::decimal(ms as nat) + " ms  ("@
            + text::decimal(h) + "h "@ + text::decimal(m) + "m)\n"@,
{
    reveal(duration_line);
    assert(ms as nat / 1000 / 3600 == h);
    assert(ms as nat / 1000 / 60 % 60 == m);
}

/// Names and values stand behind each other, a blank before each and an
/// equals sign between them.
pub proof fn law_pairs(name: Seq<char>, value: Seq<char>, v: Seq<(Seq<char>, Seq<char>)>, n: int)
    requires
        0 <= n < v.len(),
    ensures
        pair(name, value) == " "@ + name + "="@ + value,
        pairs_text(v, 0) == Seq::<char>::empty(),
        pairs_text(v, n + 1) == pairs_text(v, n) + pair(v[n].0, v[n].1),
{
}

/// Every detail of a book stands under its own name, in this order.
pub proof fn law_details(b: BookDetail)
    ensures
        ({
            let p = detail_pairs(b);
            let given = |o: Option<String>|
                if o is Some {
                    o->0@
                } else {
                    ""@
                };
            let yes = |t: bool|
                if t {
                    "true"@
                } else {
                    "false"@
                };
            &&& p.len() == 19
            &&& p[0] == ("book_id"@, text::signed_decimal(b.book_id as int))
            &&& p[1] == ("title"@, b.title@)
            &&& p[2] == ("subtitle"@, given(b.subtitle))
            &&& p[3] == ("author"@, given(b.author))
            &&& p[4] == ("narrators"@, given(b.narrators))
            &&& p[5] == ("publisher"@, given(b.publisher))
            &&& p[6] == ("series"@, given(b.series))
            &&& p[7] == ("language"@, given(b.language))
            &&& p[8] == ("asin"@, given(b.asin))
            &&& p[9] == ("isbn"@, given(b.isbn))
            &&& p[10] == ("release_date"@, given(b.release_date))
            &&& p[11].0 == "duration_min"@
            &&& b.duration_ms is None ==> p[11].1 == text::signed_decimal(0)
            &&& b.duration_ms is Some ==> p[11].1 == text::signed_decimal(
                cli::toward_zero(b.duration_ms->0 as int, 60_000),
            )
            &&& p[12] == ("abridged"@, yes(b.abridged == Some(true)))
            &&& p[13] == ("explicit"@, yes(b.explicit == Some(true)))
            &&& p[14] == ("audiologo_status"@, b.audiologo_status@)
            &&& p[15] == ("has_summary"@, yes(b.has_summary))
            &&& p[16] == ("has_story_arc"@, yes(b.has_story_arc))
            &&& p[17] == ("has_setting"@, yes(b.has_setting))
            &&& p[18] == ("has_characters"@, yes(b.has_characters))
        }),
{
}

} // verus!

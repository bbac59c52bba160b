//! The command line client: requests, refusals and what is printed.

use crate::journal::JsonField;
use crate::text;
use vstd::prelude::*;

verus! {

/// Where the daemon listens unless told otherwise.
pub const DEFAULT_DAEMON_URL: &'static str = "http://127.0.0.1:8429";

// ── Addresses ──────────────────────────────────────────────────────

/// An address of the daemon's interface.
pub open spec fn endpoint_text(daemon: Seq<char>, path: Seq<char>) -> Seq<char> {
    daemon + "/api/v1/"@ + path
}

/// An address of the daemon's interface.
pub fn endpoint(daemon: &str, path: &str) -> (s: String)
    ensures
        s@ == endpoint_text(daemon@, path@),
{
    let mut s = text::owned(daemon);
    s.append("/api/v1/");
    s.append(path);
    s
}

/// The path of a numbered thing and what is done to it.
pub open spec fn numbered_path(what: Seq<char>, id: int, rest: Seq<char>) -> Seq<char> {
    what + "/"@ + text::signed_decimal(id) + rest
}

fn numbered_url(daemon: &str, what: &str, id: i64, rest: &str) -> (s: String)
    ensures
        s@ == endpoint_text(daemon@, numbered_path(what@, id as int, rest@)),
{
    let mut p = text::owned(what);
    p.append("/");
    p.append(text::i64_text(id).as_str());
    p.append(rest);
    endpoint(daemon, p.as_str())
}

/// The address of a book.
pub fn book_url(daemon: &str, book_id: i64) -> (s: String)
    ensures
        s@ == endpoint_text(daemon@, numbered_path("books"@, book_id as int, ""@)),
{
    numbered_url(daemon, "books", book_id, "")
}

/// The address for running stages of a book again.
pub fn retry_url(daemon: &str, book_id: i64) -> (s: String)
    ensures
        s@ == endpoint_text(daemon@, numbered_path("books"@, book_id as int, "/retry"@)),
{
    numbered_url(daemon, "books", book_id, "/retry")
}

/// The address for bringing a deleted book back.
pub fn restore_url(daemon: &str, book_id: i64) -> (s: String)
    ensures
        s@ == endpoint_text(daemon@, numbered_path("books"@, book_id as int, "/restore"@)),
{
    numbered_url(daemon, "books", book_id, "/restore")
}

/// The address for cutting a jingle out of a book.
pub fn audiologo_url(daemon: &str, book_id: i64) -> (s: String)
    ensures
        s@ == endpoint_text(daemon@, numbered_path("books"@, book_id as int, "/audiologo"@)),
{
    numbered_url(daemon, "books", book_id, "/audiologo")
}

/// The address for a review action on a candidate.
pub fn review_url(daemon: &str, row_id: i64, approve: bool) -> (s: String)
    ensures
        s@ == endpoint_text(
            daemon@,
            numbered_path(
                "audiologos"@,
                row_id as int,
                if approve {
                    "/approve"@
                } else {
                    "/reject"@
                },
            ),
        ),
{
    if approve {
        numbered_url(daemon, "audiologos", row_id, "/approve")
    } else {
        numbered_url(daemon, "audiologos", row_id, "/reject")
    }
}

/// The address for adding a spelling to a name, or for making it the
/// displayed one.
pub fn names_url(daemon: &str, kind: &str, id: i64, exalt: bool) -> (s: String)
    ensures
        s@ == endpoint_text(
            daemon@,
            numbered_path(
                "names/"@ + kind@,
                id as int,
                if exalt {
                    "/exalt"@
                } else {
                    "/alias"@
                },
            ),
        ),
{
    let mut what = text::owned("names/");
    what.append(kind);
    if exalt {
        numbered_url(daemon, what.as_str(), id, "/exalt")
    } else {
        numbered_url(daemon, what.as_str(), id, "/alias")
    }
}

/// The address for resolving an open name.
pub fn resolve_url(daemon: &str, pending_id: i64) -> (s: String)
    ensures
        s@ == endpoint_text(
            daemon@,
            numbered_path("names/pending"@, pending_id as int, "/resolve"@),
        ),
{
    numbered_url(daemon, "names/pending", pending_id, "/resolve")
}

/// The path of a report of gaps.
pub open spec fn gaps_path(author: int, max_pages: Option<u32>) -> Seq<char> {
    let base = "report/gaps?author="@ + text::signed_decimal(author);
    match max_pages {
        Some(n) => base + "&max_pages="@ + text::decimal(n as nat),
        None => base,
    }
}

/// The address of a report of gaps.
pub fn gaps_url(daemon: &str, author: i64, max_pages: Option<u32>) -> (s: String)
    ensures
        s@ == endpoint_text(daemon@, gaps_path(author as int, max_pages)),
{
    let mut p = text::owned("report/gaps?author=");
    p.append(text::i64_text(author).as_str());
    if let Some(n) = max_pages {
        p.append("&max_pages=");
        p.append(text::u64_text(n as u64).as_str());
    }
    endpoint(daemon, p.as_str())
}

/// The parameters of a report of upcoming books, in their order.
pub open spec fn upcoming_params(
    days: Option<u32>,
    author: Option<i64>,
    max_pages: Option<u32>,
) -> Seq<Seq<char>> {
    let d = match days {
        Some(n) => seq!["days="@ + text::decimal(n as nat)],
        None => Seq::empty(),
    };
    let a = match author {
        Some(n) => d.push("author="@ + text::signed_decimal(n as int)),
        None => d,
    };
    match max_pages {
        Some(n) => a.push("max_pages="@ + text::decimal(n as nat)),
        None => a,
    }
}

/// The address of a report of upcoming books.
pub fn upcoming_url(
    daemon: &str,
    days: Option<u32>,
    author: Option<i64>,
    max_pages: Option<u32>,
) -> (s: String)
    ensures
        ({
            let params = upcoming_params(days, author, max_pages);
            s@ == endpoint_text(
                daemon@,
                if params.len() == 0 {
                    "upcoming"@
                } else {
                    "upcoming?"@ + text::joined(params, "&"@)
                },
            )
        }),
{
    let mut params: Vec<String> = Vec::new();
    proof {
        assert(text::texts(params@) =~= Seq::empty());
    }
    if let Some(n) = days {
        let mut p = text::owned("days=");
        p.append(text::u64_text(n as u64).as_str());
        let ghost shown = p@;
        params.push(p);
        proof {
            assert(text::texts(params@) =~= seq![shown]);
        }
    }
    if let Some(n) = author {
        let mut p = text::owned("author=");
        p.append(text::i64_text(n).as_str());
        let ghost before = text::texts(params@);
        let ghost shown = p@;
        params.push(p);
        proof {
            assert(text::texts(params@) =~= before.push(shown));
        }
    }
    if let Some(n) = max_pages {
        let mut p = text::owned("max_pages=");
        p.append(text::u64_text(n as u64).as_str());
        let ghost before = text::texts(params@);
        let ghost shown = p@;
        params.push(p);
        proof {
            assert(text::texts(params@) =~= before.push(shown));
        }
    }
    proof {
        assert(text::texts(params@).len() == params@.len());
    }
    if params.len() == 0 {
        endpoint(daemon, "upcoming")
    } else {
        let mut p = text::owned("upcoming?");
        p.append(text::join(&params, "&").as_str());
        endpoint(daemon, p.as_str())
    }
}

// ── Failures ───────────────────────────────────────────────────────

/// That the daemon refused a request.
pub fn request_failed(what: &str, status: &str, body: &str) -> (s: String)
    ensures
        s@ == what@ + " failed: HTTP "@ + status@ + ": "@ + body@,
{
    let mut s = text::owned(what);
    s.append(" failed: HTTP ");
    s.append(status);
    s.append(": ");
    s.append(body);
    s
}

/// What of the log is shown: warnings only, or more with each step of
/// verbosity.
pub fn log_level(quiet: bool, verbose: u8) -> (s: &'static str)
    ensures
        s@ == (if quiet {
            "warn"@
        } else if verbose == 0 {
            "info"@
        } else if verbose == 1 {
            "debug"@
        } else {
            "trace"@
        }),
{
    if quiet {
        "warn"
    } else if verbose == 0 {
        "info"
    } else if verbose == 1 {
        "debug"
    } else {
        "trace"
    }
}

// ── Running stages again ───────────────────────────────────────────

/// The stages that are asked for.
#[derive(Debug)]
pub enum StagesPayload {
    /// These.
    List(Vec<String>),
    /// Every one.
    Wildcard,
}

/// Whether a text asks for every stage.
pub open spec fn asks_all(s: Seq<char>) -> bool {
    text::ascii_lower(s) == text::ascii_lower("all"@)
}

/// Whether any of the names asks for every stage.
pub open spec fn any_all(stages: Seq<Seq<char>>) -> bool {
    exists|i: int| 0 <= i < stages.len() && asks_all(#[trigger] stages[i])
}

/// A list of texts, each quoted.
pub open spec fn quoted_all(v: Seq<Seq<char>>) -> Seq<Seq<char>> {
    Seq::new(v.len(), |i: int| text::quoted(v[i]))
}

/// A list of texts as it is displayed for debugging.
pub open spec fn debug_list(v: Seq<Seq<char>>) -> Seq<char> {
    "["@ + text::joined(quoted_all(v), ", "@) + "]"@
}

fn show_debug_list(v: &Vec<String>) -> (s: String)
    ensures
        s@ == debug_list(text::texts(v@)),
{
    let mut q: Vec<String> = Vec::new();
    let mut i: usize = 0;
    while i < v.len()
        invariant
            i <= v@.len(),
            text::texts(q@) == quoted_all(text::texts(v@)).take(i as int),
        decreases v@.len() - i,
    {
        let t = text::quote(v[i].as_str());
        let ghost before = text::texts(q@);
        let ghost shown = t@;
        q.push(t);
        proof {
            assert(text::texts(q@) =~= before.push(shown));
            assert(before.push(shown) =~= quoted_all(text::texts(v@)).take(i + 1));
        }
        i = i + 1;
    }
    proof {
        assert(quoted_all(text::texts(v@)).take(i as int) =~= quoted_all(text::texts(v@)));
    }
    let mut s = text::owned("[");
    s.append(text::join(&q, ", ").as_str());
    s.append("]");
    s
}

/// The stages to ask for. The word for every stage, in any case, must stand
/// alone.
pub fn plan_retry(stages: &Vec<String>) -> (r: Result<StagesPayload, String>)
    ensures
        ({
            let names = text::texts(stages@);
            match r {
                Ok(StagesPayload::Wildcard) => any_all(names) && names.len() == 1,
                Ok(StagesPayload::List(v)) => !any_all(names) && text::texts(v@) == names,
                Err(m) => any_all(names) && names.len() > 1 && m@
                    == "--stage all must appear alone; got mixed list: "@ + debug_list(names),
            }
        }),
{
    let mut all = false;
    let mut i: usize = 0;
    while i < stages.len()
        invariant
            i <= stages@.len(),
            all == (exists|j: int|
                0 <= j < i && asks_all(#[trigger] text::texts(stages@)[j])),
        decreases stages@.len() - i,
    {
        proof {
            assert(text::texts(stages@)[i as int] == stages@[i as int]@);
        }
        if text::same_ignoring_case(stages[i].as_str(), "all") {
            all = true;
        }
        i = i + 1;
    }
    proof {
        assert(text::texts(stages@).len() == stages@.len());
        assert(all == any_all(text::texts(stages@)));
    }
    if all && stages.len() > 1 {
        let mut m = text::owned("--stage all must appear alone; got mixed list: ");
        m.append(show_debug_list(stages).as_str());
        return Err(m);
    }
    if all {
        Ok(StagesPayload::Wildcard)
    } else {
        Ok(StagesPayload::List(text::clone_texts(stages)))
    }
}

/// What is said of an unknown stage, with the stages that are known.
pub fn unknown_stage(detail: &str, known: &Vec<String>) -> (s: String)
    ensures
        s@ == (if known@.len() == 0 {
            detail@
        } else {
            detail@ + "\nknown stages: "@ + text::joined(text::texts(known@), ", "@)
        }),
{
    let mut s = text::owned(detail);
    if known.len() > 0 {
        s.append("\nknown stages: ");
        s.append(text::join(known, ", ").as_str());
    }
    s
}

// ── Deleting and restoring ─────────────────────────────────────────

/// How a book is deleted.
#[derive(Debug, Clone, Copy, PartialEq, Eq, Structural)]
pub enum DeleteMode {
    /// So that it can be restored.
    Soft,
    /// For good.
    Hard,
}

impl DeleteMode {
    /// The mode as it is printed.
    pub fn label(&self) -> (s: &'static str)
        ensures
            s@ == (match *self {
                DeleteMode::Soft => "soft"@,
                DeleteMode::Hard => "hard"@,
            }),
    {
        match self {
            DeleteMode::Soft => "soft",
            DeleteMode::Hard => "hard",
        }
    }
}

/// How a book is deleted. Nothing is deleted without being told so, and
/// nothing for good without being told so twice.
pub fn plan_delete(commit: bool, force: bool) -> (r: Result<DeleteMode, String>)
    ensures
        match r {
            Ok(DeleteMode::Hard) => commit && force,
            Ok(DeleteMode::Soft) => commit && !force,
            Err(m) => !commit && m@
                == "refusing to delete without --commit (per ADR-0029 dry-run-default). `--commit` alone soft-deletes; add `--force` for an irreversible hard delete."@,
        },
{
    if !commit {
        return Err(
            text::owned(
                "refusing to delete without --commit (per ADR-0029 dry-run-default). `--commit` alone soft-deletes; add `--force` for an irreversible hard delete.",
            ),
        );
    }
    if force {
        Ok(DeleteMode::Hard)
    } else {
        Ok(DeleteMode::Soft)
    }
}

/// The address for deleting a book.
pub fn delete_url(daemon: &str, book_id: i64, mode: DeleteMode) -> (s: String)
    ensures
        s@ == endpoint_text(
            daemon@,
            numbered_path(
                "books"@,
                book_id as int,
                match mode {
                    DeleteMode::Hard => "?force=true"@,
                    DeleteMode::Soft => ""@,
                },
            ),
        ),
{
    match mode {
        DeleteMode::Hard => numbered_url(daemon, "books", book_id, "?force=true"),
        DeleteMode::Soft => numbered_url(daemon, "books", book_id, ""),
    }
}

/// Refuses to restore a book without being told so.
pub fn plan_restore(commit: bool) -> (r: Result<(), String>)
    ensures
        match r {
            Ok(()) => commit,
            Err(m) => !commit && m@
                == "refusing to restore without --commit (per ADR-0029 dry-run-default). `aborg book restore <id> --commit` is the full incantation."@,
        },
{
    if commit {
        Ok(())
    } else {
        Err(
            text::owned(
                "refusing to restore without --commit (per ADR-0029 dry-run-default). `aborg book restore <id> --commit` is the full incantation.",
            ),
        )
    }
}

/// What is said of a restored book.
pub fn restore_message(restored: bool) -> (s: &'static str)
    ensures
        s@ == (if restored {
            "book.restored"@
        } else {
            "book.restore_noop (book was already active)"@
        }),
{
    if restored {
        "book.restored"
    } else {
        "book.restore_noop (book was already active)"
    }
}

/// The fields that a change updated, where it updated any.
pub fn patched_fields(updated: &Vec<String>) -> (r: Option<String>)
    ensures
        text::opt_text(r) == (if updated@.len() == 0 {
            None
        } else {
            Some(text::joined(text::texts(updated@), ", "@))
        }),
{
    if updated.len() == 0 {
        None
    } else {
        Some(text::join(updated, ", "))
    }
}

// ── Durations ──────────────────────────────────────────────────────

/// A quotient, rounded toward zero.
pub open spec fn toward_zero(n: int, d: int) -> int {
    if n >= 0 {
        n / d
    } else {
        -((-n) / d)
    }
}

/// A quotient, rounded toward zero.
pub fn divide(n: i64, d: i64) -> (r: i64)
    requires
        d > 1,
    ensures
        r == toward_zero(n as int, d as int),
{
    if n >= 0 {
        n / d
    } else {
        let m: i128 = -(n as i128);
        let q: i128 = m / (d as i128);
        proof {
            assert(q <= i64::MAX) by (nonlinear_arith)
                requires
                    0 <= m <= 0x8000_0000_0000_0000,
                    d > 1,
                    q == (m as int) / (d as int),
            ;
            assert(q >= 0) by (nonlinear_arith)
                requires
                    m >= 0,
                    d > 1,
                    q == (m as int) / (d as int),
            ;
        }
        -(q as i64)
    }
}

/// Minutes of a book; none where its duration is unknown.
pub fn duration_minutes(duration_ms: Option<i64>) -> (r: i64)
    ensures
        r == (match duration_ms {
            Some(ms) => toward_zero(ms as int, 60_000),
            None => 0,
        }),
{
    match duration_ms {
        Some(ms) => divide(ms, 60_000),
        None => 0,
    }
}

// ── Versions ───────────────────────────────────────────────────────

/// Whether client and daemon are of different versions.
pub fn version_drift(cli: &str, daemon: &str) -> (r: bool)
    ensures
        r == (cli@ != daemon@),
{
    !text::same_text(cli, daemon)
}

/// What is said of the versions of client and daemon.
pub fn version_message(cli: &str, daemon: &str) -> (s: String)
    ensures
        s@ == (if cli@ != daemon@ {
            "⚠ version drift: CLI "@ + cli@ + " vs daemon "@ + daemon@
        } else {
            "CLI and daemon both at "@ + cli@
        }),
{
    if version_drift(cli, daemon) {
        let mut s = text::owned("⚠ version drift: CLI ");
        s.append(cli);
        s.append(" vs daemon ");
        s.append(daemon);
        s
    } else {
        let mut s = text::owned("CLI and daemon both at ");
        s.append(cli);
        s
    }
}

// ── Secrets ────────────────────────────────────────────────────────

/// A secret as it is shown: whether it is set, and nothing more.
pub fn redacted(v: JsonField) -> (r: JsonField)
    ensures
        match v {
            JsonField::Missing => r is Missing,
            JsonField::Null => r is Null,
            _ => r.as_text() == Some("<redacted>"@),
        },
{
    match v {
        JsonField::Missing => JsonField::Missing,
        JsonField::Null => JsonField::Null,
        _ => JsonField::Text(text::owned("<redacted>")),
    }
}

/// What is said of the activation bytes: where they come from, never what
/// they are.
pub fn aax_status_line(source: Option<&str>) -> (s: String)
    ensures
        s@ == (match text::opt_str(source) {
            Some(t) => "  activation bytes  ✓ configured (via "@ + t + ")"@,
            None => "  activation bytes  ✗ not configured  (see `aborg aax set-bytes`)"@,
        }),
{
    match source {
        Some(t) => {
            let mut s = text::owned("  activation bytes  ✓ configured (via ");
            s.append(t);
            s.append(")");
            s
        },
        None => text::owned("  activation bytes  ✗ not configured  (see `aborg aax set-bytes`)"),
    }
}

// ── Laws ───────────────────────────────────────────────────────────
/// Every address stands under the first version of the interface of the
/// daemon that is asked.
pub proof fn law_addresses(daemon: Seq<char>, path: Seq<char>, id: int, rest: Seq<char>)
    ensures
        endpoint_text(daemon, path).take(daemon.len() as int) == daemon,
        endpoint_text(daemon, path).skip(daemon.len() as int) == "/api/v1/"@ + path,
        numbered_path(path, id, rest) == path + ("/"@ + text::signed_decimal(id)) + rest,
{
    assert(endpoint_text(daemon, path).take(daemon.len() as int) =~= daemon);
    assert(endpoint_text(daemon, path).skip(daemon.len() as int) =~= "/api/v1/"@ + path);
    assert(numbered_path(path, id, rest) =~= path + ("/"@ + text::signed_decimal(id)) + rest);
}

/// A report of gaps names the author, and the number of pages where one is
/// given.
pub proof fn law_gaps_parameters(author: int, n: u32)
    ensures
        gaps_path(author, None) == "report/gaps?author="@ + text::signed_decimal(author),
        gaps_path(author, Some(n)) == gaps_path(author, None) + "&max_pages="@ + text::decimal(
            n as nat,
        ),
{
}

/// A report of upcoming books has a parameter for each thing given and no
/// other: the days, then the author, then the pages.
pub proof fn law_upcoming_parameters(
    days: Option<u32>,
    author: Option<i64>,
    max_pages: Option<u32>,
)
    ensures
        ({
            let params = upcoming_params(days, author, max_pages);
            let count = |given: bool| if given { 1int } else { 0int };
            &&& params.len() == count(days is Some) + count(author is Some) + count(
                max_pages is Some,
            )
            &&& days is Some ==> params[0] == "days="@ + text::decimal(days->0 as nat)
            &&& author is Some ==> params[count(days is Some)] == "author="@
                + text::signed_decimal(author->0 as int)
            &&& max_pages is Some ==> params.last() == "max_pages="@ + text::decimal(
                max_pages->0 as nat,
            )
        }),
{
}

/// The word for every stage counts in any case of its letters, and no other
/// word does.
pub proof fn law_word_for_all(s: Seq<char>)
    ensures
        asks_all("all"@),
        asks_all("ALL"@),
        asks_all(s) ==> s.len() == 3 && text::ascii_lower(s) == "all"@,
        text::ascii_lower(s) == "all"@ ==> asks_all(s),
{
    reveal_strlit("all");
    reveal_strlit("ALL");
    assert(text::ascii_lower("all"@) =~= "all"@);
    assert(text::ascii_lower("ALL"@) =~= "all"@);
    if asks_all(s) {
        assert(text::ascii_lower(s).len() == s.len());
    }
}

/// Every stage is asked for where any of the names does, wherever it stands.
pub proof fn law_any_asks_all(stages: Seq<Seq<char>>, i: int)
    ensures
        0 <= i < stages.len() && asks_all(stages[i]) ==> any_all(stages),
        any_all(stages) ==> exists|k: int|
            0 <= k < stages.len() && text::ascii_lower(#[trigger] stages[k]) == "all"@,
{
    if any_all(stages) {
        let k = choose|k: int| 0 <= k < stages.len() && asks_all(#[trigger] stages[k]);
        law_word_for_all(stages[k]);
    }
}

/// A list is displayed between square brackets, each text quoted, with a comma
/// and a blank between neighbours.
pub proof fn law_list_display(v: Seq<Seq<char>>, s: Seq<char>, i: int)
    ensures
        debug_list(Seq::empty()) == "["@ + "]"@,
        debug_list(seq![s]) == "["@ + text::quoted(s) + "]"@,
        debug_list(v) == "["@ + text::joined(quoted_all(v), ", "@) + "]"@,
        quoted_all(v).len() == v.len(),
        0 <= i < v.len() ==> quoted_all(v)[i] == text::quoted(v[i]),
{
    assert(quoted_all(Seq::empty()) =~= Seq::<Seq<char>>::empty());
    assert("["@ + Seq::<char>::empty() + "]"@ =~= "["@ + "]"@);
    assert(quoted_all(seq![s]) =~= seq![text::quoted(s)]);
}

/// A quotient leaves a remainder smaller than the divisor, which has the sign
/// of the dividend.
pub proof fn law_toward_zero(n: int, d: int)
    requires
        d > 0,
    ensures
        n >= 0 ==> 0 <= n - toward_zero(n, d) * d < d,
        n <= 0 ==> -d < n - toward_zero(n, d) * d <= 0,
        toward_zero(-n, d) == -toward_zero(n, d),
{
    vstd::arithmetic::div_mod::lemma_fundamental_div_mod(n, d);
    vstd::arithmetic::div_mod::lemma_fundamental_div_mod(-n, d);
    vstd::arithmetic::div_mod::lemma_mod_bound(n, d);
    vstd::arithmetic::div_mod::lemma_mod_bound(-n, d);
    assert(toward_zero(n, d) * d == if n >= 0 {
        d * (n / d)
    } else {
        -(d * ((-n) / d))
    }) by (nonlinear_arith)
        requires
            toward_zero(n, d) == if n >= 0 {
                n / d
            } else {
                -((-n) / d)
            },
    ;
    if n == 0 {
        assert(0int / d == 0) by (nonlinear_arith)
            requires
                d > 0,
        ;
    }
}

/// Unless told otherwise, the client asks the daemon on its own machine.
pub proof fn law_default_daemon(path: Seq<char>)
    ensures
        endpoint_text(DEFAULT_DAEMON_URL@, path) == "http://127.0.0.1:8429"@ + "/api/v1/"@ + path,
{
}

} // verus!

//! Identities and their spellings: adding aliases, moving the prime alias and
//! resolving ambiguous names.

use crate::error;
use crate::text;
use vstd::prelude::*;

verus! {

/// The kinds of identity.
#[derive(Debug, Clone, Copy, PartialEq, Eq, Structural)]
pub enum IdentityKind {
    /// An author.
    Author,
    /// A narrator.
    Narrator,
    /// A series.
    Series,
}

/// The kind with the given wire name.
pub open spec fn kind_of(s: Seq<char>) -> Option<IdentityKind> {
    if s == "author"@ {
        Some(IdentityKind::Author)
    } else if s == "narrator"@ {
        Some(IdentityKind::Narrator)
    } else if s == "series"@ {
        Some(IdentityKind::Series)
    } else {
        None
    }
}

impl IdentityKind {
    /// Wire name of a kind.
    pub open spec fn wire(self) -> Seq<char> {
        match self {
            IdentityKind::Author => "author"@,
            IdentityKind::Narrator => "narrator"@,
            IdentityKind::Series => "series"@,
        }
    }

    /// Table of the identities.
    pub open spec fn parent(self) -> Seq<char> {
        match self {
            IdentityKind::Author => "authors"@,
            IdentityKind::Narrator => "narrators"@,
            IdentityKind::Series => "series"@,
        }
    }

    /// Table of the aliases.
    pub open spec fn junction(self) -> Seq<char> {
        match self {
            IdentityKind::Author => "author_aliases"@,
            IdentityKind::Narrator => "narrator_aliases"@,
            IdentityKind::Series => "series_aliases"@,
        }
    }

    /// Column that names an identity.
    pub open spec fn key(self) -> Seq<char> {
        match self {
            IdentityKind::Author => "author_id"@,
            IdentityKind::Narrator => "narrator_id"@,
            IdentityKind::Series => "series_id"@,
        }
    }

    /// The kind with the given wire name.
    pub fn parse(s: &str) -> (r: Option<IdentityKind>)
        ensures
            r == kind_of(s@),
    {
        if text::same_text(s, "author") {
            Some(IdentityKind::Author)
        } else if text::same_text(s, "narrator") {
            Some(IdentityKind::Narrator)
        } else if text::same_text(s, "series") {
            Some(IdentityKind::Series)
        } else {
            None
        }
    }

    /// Table of the identities.
    pub fn parent_table(self) -> (r: &'static str)
        ensures
            r@ == self.parent(),
    {
        match self {
            IdentityKind::Author => "authors",
            IdentityKind::Narrator => "narrators",
            IdentityKind::Series => "series",
        }
    }

    /// Table of the aliases.
    pub fn junction_table(self) -> (r: &'static str)
        ensures
            r@ == self.junction(),
    {
        match self {
            IdentityKind::Author => "author_aliases",
            IdentityKind::Narrator => "narrator_aliases",
            IdentityKind::Series => "series_aliases",
        }
    }

    /// Column of the alias table that names the identity.
    pub fn fk_column(self) -> (r: &'static str)
        ensures
            r@ == self.key(),
    {
        match self {
            IdentityKind::Author => "author_id",
            IdentityKind::Narrator => "narrator_id",
            IdentityKind::Series => "series_id",
        }
    }

    /// Primary key of the identities.
    pub fn parent_pk(self) -> (r: &'static str)
        ensures
            r@ == self.key(),
    {
        match self {
            IdentityKind::Author => "author_id",
            IdentityKind::Narrator => "narrator_id",
            IdentityKind::Series => "series_id",
        }
    }
}

/// Every kind is found again under its wire name.
pub proof fn law_kind_round_trip(k: IdentityKind)
    ensures
        kind_of(k.wire()) == Some(k),
{
    reveal_strlit("author");
    reveal_strlit("narrator");
    reveal_strlit("series");
    assert("author"@[0] == 'a' && "narrator"@[0] == 'n' && "series"@[0] == 's');
}

/// That a wire name is unknown.
pub open spec fn unknown_kind(s: Seq<char>) -> error::ErrorView {
    error::ErrorView::BadRequest(
        "unknown identity kind `"@ + s + "` (valid: author, narrator, series)"@,
    )
}

/// The kind with the given wire name; unknown names are an error.
pub fn parse_kind(s: &str) -> (r: Result<IdentityKind, error::ApiError>)
    ensures
        match r {
            Ok(k) => kind_of(s@) == Some(k),
            Err(e) => kind_of(s@) is None && e@ == unknown_kind(s@),
        },
{
    match IdentityKind::parse(s) {
        Some(k) => Ok(k),
        None => {
            let mut m = text::owned("unknown identity kind `");
            m.append(s);
            m.append("` (valid: author, narrator, series)");
            Err(error::ApiError::BadRequest(m))
        },
    }
}

// ── Aliases ────────────────────────────────────────────────────────

/// A request that names a spelling.
#[derive(Debug)]
pub struct AliasAddRequest {
    /// The spelling.
    pub alias: String,
}

/// The answer to an alias request.
#[derive(Debug)]
pub struct NamesActionResponse {
    /// Table of the identity.
    pub kind: &'static str,
    /// The identity.
    pub id: i64,
    /// Whether a new alias was recorded.
    pub inserted: Option<bool>,
    /// Whether the prime alias was moved.
    pub exalted: Option<bool>,
}

/// A valid alias request.
#[derive(Debug)]
pub struct AliasPlan {
    /// Kind of identity.
    pub kind: IdentityKind,
    /// The identity.
    pub id: i64,
    /// The spelling, trimmed.
    pub alias: String,
}

/// What an alias request asks for: a known kind and a spelling that is not
/// blank.
pub open spec fn alias_request(kind: Seq<char>, alias: Seq<char>) -> Result<
    (IdentityKind, Seq<char>),
    error::ErrorView,
> {
    match kind_of(kind) {
        None => Err(unknown_kind(kind)),
        Some(k) => if text::trimmed(alias).len() == 0 {
            Err(error::ErrorView::BadRequest("alias must be non-empty"@))
        } else {
            Ok((k, text::trimmed(alias)))
        },
    }
}

/// Checks an alias request.
pub fn plan_alias(kind: &str, id: i64, req: &AliasAddRequest) -> (r: Result<
    AliasPlan,
    error::ApiError,
>)
    ensures
        match r {
            Ok(p) => alias_request(kind@, req.alias@) == Ok::<
                (IdentityKind, Seq<char>),
                error::ErrorView,
            >((p.kind, p.alias@)) && p.id == id,
            Err(e) => alias_request(kind@, req.alias@) == Err::<
                (IdentityKind, Seq<char>),
                error::ErrorView,
            >(e@),
        },
{
    match parse_kind(kind) {
        Ok(k) => {
            let alias = text::trim(req.alias.as_str());
            if alias.as_str().is_empty() {
                Err(error::ApiError::BadRequest(text::owned("alias must be non-empty")))
            } else {
                Ok(AliasPlan { kind: k, id, alias })
            }
        },
        Err(e) => Err(e),
    }
}

/// The query for an identity.
pub fn parent_lookup_sql(kind: IdentityKind) -> (s: String)
    ensures
        s@ == "SELECT 1 FROM "@ + kind.parent() + " WHERE "@ + kind.key() + " = ? LIMIT 1"@,
{
    let mut s = text::owned("SELECT 1 FROM ");
    s.append(kind.parent_table());
    s.append(" WHERE ");
    s.append(kind.parent_pk());
    s.append(" = ? LIMIT 1");
    s
}

/// Fails where the identity does not exist.
pub fn ensure_parent_exists(found: bool, kind: IdentityKind, id: i64) -> (r: Result<
    (),
    error::ApiError,
>)
    ensures
        found ==> r is Ok,
        !found ==> (r matches Err(e) && e@ == error::ErrorView::NotFound(
            kind.parent() + " row "@ + text::signed_decimal(id as int) + " not found"@,
        )),
{
    if found {
        Ok(())
    } else {
        let mut m = text::owned(kind.parent_table());
        m.append(" row ");
        m.append(text::i64_text(id).as_str());
        m.append(" not found");
        Err(error::ApiError::NotFound(m))
    }
}

/// The statement that records a spelling. It takes the identity and the
/// spelling.
pub open spec fn alias_insert_text(kind: IdentityKind) -> Seq<char> {
    "INSERT OR IGNORE INTO "@ + kind.junction() + " ("@ + kind.key()
        + ", alias, source, is_prime) VALUES (?, ?, 'manual', 0)"@
}

/// The statement that records a spelling; it does nothing where the spelling
/// is recorded already.
pub fn alias_insert_sql(kind: IdentityKind) -> (s: String)
    ensures
        s@ == alias_insert_text(kind),
{
    let mut s = text::owned("INSERT OR IGNORE INTO ");
    s.append(kind.junction_table());
    s.append(" (");
    s.append(kind.fk_column());
    s.append(", alias, source, is_prime) VALUES (?, ?, 'manual', 0)");
    s
}

/// The answer to an added alias.
pub fn alias_added(plan: &AliasPlan, rows_affected: u64) -> (r: NamesActionResponse)
    ensures
        r.kind@ == plan.kind.parent(),
        r.id == plan.id,
        r.inserted == Some(rows_affected > 0),
        r.exalted is None,
{
    NamesActionResponse {
        kind: plan.kind.parent_table(),
        id: plan.id,
        inserted: Some(rows_affected > 0),
        exalted: None,
    }
}

// ── Prime alias ────────────────────────────────────────────────────

/// One spelling of an identity.
#[derive(Debug)]
pub struct AliasRow {
    /// The row.
    pub alias_id: i64,
    /// The spelling.
    pub alias: String,
    /// Whether it is the one displayed.
    pub is_prime: bool,
}

/// Whether a row has the spelling `alias`, whatever the case of its ASCII
/// letters.
pub open spec fn spelled(row: AliasRow, alias: Seq<char>) -> bool {
    text::ascii_lower(row.alias@) == text::ascii_lower(alias)
}

/// Position of the first row with the spelling, from `n` on.
pub open spec fn first_spelled(rows: Seq<AliasRow>, alias: Seq<char>, n: int) -> Option<int>
    decreases rows.len() - n,
{
    if n < 0 || n >= rows.len() {
        None
    } else if spelled(rows[n], alias) {
        Some(n)
    } else {
        first_spelled(rows, alias, n + 1)
    }
}

/// The rows that are prime, among the first `n`.
pub open spec fn prime_ids(rows: Seq<AliasRow>, n: nat) -> Seq<i64>
    decreases n,
{
    if n == 0 {
        Seq::empty()
    } else if rows[n - 1].is_prime {
        prime_ids(rows, (n - 1) as nat).push(rows[n - 1].alias_id)
    } else {
        prime_ids(rows, (n - 1) as nat)
    }
}

/// The rows with the spelling, among the first `n`.
pub open spec fn spelled_ids(rows: Seq<AliasRow>, alias: Seq<char>, n: nat) -> Seq<i64>
    decreases n,
{
    if n == 0 {
        Seq::empty()
    } else if spelled(rows[n - 1], alias) {
        spelled_ids(rows, alias, (n - 1) as nat).push(rows[n - 1].alias_id)
    } else {
        spelled_ids(rows, alias, (n - 1) as nat)
    }
}

/// How the prime alias is moved: first every prime row is demoted, then the
/// rows with the spelling are promoted.
#[derive(Debug)]
pub struct PrimeMove {
    /// Whether anything is to be done.
    pub exalted: bool,
    /// Rows that lose the flag.
    pub demote: Vec<i64>,
    /// Rows that get it.
    pub promote: Vec<i64>,
}

/// Plans the move of the prime alias to `alias`. The spelling must be
/// recorded; where it is prime already there is nothing to do.
pub fn move_prime(rows: &Vec<AliasRow>, kind: IdentityKind, id: i64, alias: &str) -> (r: Result<
    PrimeMove,
    error::ApiError,
>)
    ensures
        match first_spelled(rows@, alias@, 0) {
            None => r matches Err(e) && e@ == error::ErrorView::NotFound(
                "alias `"@ + alias@ + "` not found on "@ + kind.parent() + " "@
                    + text::signed_decimal(id as int) + " — add it first via POST .../alias"@,
            ),
            Some(i) => if rows@[i].is_prime {
                r matches Ok(m) && !m.exalted && m.demote@.len() == 0 && m.promote@.len() == 0
            } else {
                r matches Ok(m) && m.exalted && m.demote@ == prime_ids(rows@, rows@.len())
                    && m.promote@ == spelled_ids(rows@, alias@, rows@.len())
            },
        },
{
    let mut n: usize = 0;
    while n < rows.len() && !text::same_ignoring_case(rows[n].alias.as_str(), alias)
        invariant
            n <= rows@.len(),
            first_spelled(rows@, alias@, 0) == first_spelled(rows@, alias@, n as int),
        decreases rows@.len() - n,
    {
        n = n + 1;
    }
    if n >= rows.len() {
        let mut m = text::owned("alias `");
        m.append(alias);
        m.append("` not found on ");
        m.append(kind.parent_table());
        m.append(" ");
        m.append(text::i64_text(id).as_str());
        m.append(" — add it first via POST .../alias");
        return Err(error::ApiError::NotFound(m));
    }
    if rows[n].is_prime {
        return Ok(PrimeMove { exalted: false, demote: Vec::new(), promote: Vec::new() });
    }
    let mut demote: Vec<i64> = Vec::new();
    let mut promote: Vec<i64> = Vec::new();
    let mut i: usize = 0;
    while i < rows.len()
        invariant
            i <= rows@.len(),
            demote@ == prime_ids(rows@, i as nat),
            promote@ == spelled_ids(rows@, alias@, i as nat),
        decreases rows@.len() - i,
    {
        if rows[i].is_prime {
            demote.push(rows[i].alias_id);
        }
        if text::same_ignoring_case(rows[i].alias.as_str(), alias) {
            promote.push(rows[i].alias_id);
        }
        i = i + 1;
    }
    Ok(PrimeMove { exalted: true, demote, promote })
}

/// The answer to a moved prime alias.
pub fn alias_exalted(plan: &AliasPlan, exalted: bool) -> (r: NamesActionResponse)
    ensures
        r.kind@ == plan.kind.parent(),
        r.id == plan.id,
        r.inserted is None,
        r.exalted == Some(exalted),
{
    NamesActionResponse {
        kind: plan.kind.parent_table(),
        id: plan.id,
        inserted: None,
        exalted: Some(exalted),
    }
}

/// Whether row `i` is prime once the prime alias was moved to `alias`.
pub open spec fn prime_after(rows: Seq<AliasRow>, alias: Seq<char>, i: int) -> bool {
    let demoted = prime_ids(rows, rows.len()).contains(rows[i].alias_id);
    let promoted = spelled_ids(rows, alias, rows.len()).contains(rows[i].alias_id);
    promoted || (rows[i].is_prime && !demoted)
}

/// Whether no two rows share an identifier.
pub open spec fn distinct_rows(rows: Seq<AliasRow>) -> bool {
    forall|i: int, j: int|
        0 <= i < j < rows.len() ==> (#[trigger] rows[i]).alias_id != (#[trigger] rows[j]).alias_id
}

proof fn lemma_prime_ids(rows: Seq<AliasRow>, n: nat, i: int)
    requires
        n <= rows.len(),
        0 <= i < n,
        rows[i].is_prime,
    ensures
        prime_ids(rows, n).contains(rows[i].alias_id),
    decreases n,
{
    let rest = prime_ids(rows, (n - 1) as nat);
    if i < n - 1 {
        lemma_prime_ids(rows, (n - 1) as nat, i);
        let k = choose|k: int| 0 <= k < rest.len() && rest[k] == rows[i].alias_id;
        assert(prime_ids(rows, n)[k] == rows[i].alias_id);
    } else {
        assert(prime_ids(rows, n).last() == rows[i].alias_id);
    }
}

proof fn lemma_spelled_ids(rows: Seq<AliasRow>, alias: Seq<char>, n: nat, i: int)
    requires
        distinct_rows(rows),
        n <= rows.len(),
        0 <= i < rows.len(),
    ensures
        spelled_ids(rows, alias, n).contains(rows[i].alias_id) <==> i < n && spelled(
            rows[i],
            alias,
        ),
    decreases n,
{
    if n > 0 {
        lemma_spelled_ids(rows, alias, (n - 1) as nat, i);
        let rest = spelled_ids(rows, alias, (n - 1) as nat);
        let all = spelled_ids(rows, alias, n);
        if spelled(rows[n - 1], alias) {
            assert(all =~= rest.push(rows[n - 1].alias_id));
            if i == n - 1 {
                assert(all.last() == rows[i].alias_id);
            } else {
                if i < n - 1 {
                    assert(rows[i].alias_id != rows[n - 1].alias_id);
                } else {
                    assert(rows[n - 1].alias_id != rows[i].alias_id);
                }
                if rest.contains(rows[i].alias_id) {
                    let k = choose|k: int| 0 <= k < rest.len() && rest[k] == rows[i].alias_id;
                    assert(all[k] == rows[i].alias_id);
                }
                if all.contains(rows[i].alias_id) {
                    let k = choose|k: int| 0 <= k < all.len() && all[k] == rows[i].alias_id;
                    assert(k < rest.len());
                    assert(rest[k] == rows[i].alias_id);
                }
            }
        }
    }
}

/// After a move exactly the rows with the spelling are prime, so an identity
/// keeps one prime alias where its spellings differ in more than case.
pub proof fn law_move_leaves_one_prime(rows: Seq<AliasRow>, alias: Seq<char>, i: int)
    requires
        distinct_rows(rows),
        0 <= i < rows.len(),
    ensures
        prime_after(rows, alias, i) <==> spelled(rows[i], alias),
{
    lemma_spelled_ids(rows, alias, rows.len(), i);
    if rows[i].is_prime {
        lemma_prime_ids(rows, rows.len(), i);
    }
}

// ── Pending disambiguation ─────────────────────────────────────────

/// Tables and columns of pending names: pending table, candidate table,
/// column of the resolution, column of the candidate.
pub open spec fn pending_names(kind: IdentityKind) -> (
    Seq<char>,
    Seq<char>,
    Seq<char>,
    Seq<char>,
) {
    match kind {
        IdentityKind::Author => (
            "author_disambiguation_pending"@,
            "author_disambiguation_candidate"@,
            "resolved_author_id"@,
            "author_id"@,
        ),
        IdentityKind::Narrator => (
            "narrator_disambiguation_pending"@,
            "narrator_disambiguation_candidate"@,
            "resolved_narrator_id"@,
            "narrator_id"@,
        ),
        IdentityKind::Series => (
            "series_disambiguation_pending"@,
            "series_disambiguation_candidate"@,
            "resolved_series_id"@,
            "series_id"@,
        ),
    }
}

/// Tables and columns of pending names.
pub fn pending_tables_for(kind: IdentityKind) -> (r: (
    &'static str,
    &'static str,
    &'static str,
    &'static str,
))
    ensures
        r.0@ == pending_names(kind).0,
        r.1@ == pending_names(kind).1,
        r.2@ == pending_names(kind).2,
        r.3@ == pending_names(kind).3,
{
    match kind {
        IdentityKind::Author => (
            "author_disambiguation_pending",
            "author_disambiguation_candidate",
            "resolved_author_id",
            "author_id",
        ),
        IdentityKind::Narrator => (
            "narrator_disambiguation_pending",
            "narrator_disambiguation_candidate",
            "resolved_narrator_id",
            "narrator_id",
        ),
        IdentityKind::Series => (
            "series_disambiguation_pending",
            "series_disambiguation_candidate",
            "resolved_series_id",
            "series_id",
        ),
    }
}

/// The query for the pending names of a kind, oldest first.
pub fn pending_list_sql(kind: IdentityKind) -> (s: String)
    ensures
        s@ == "SELECT pending_id, book_id, observed_alias, created_at FROM "@ + pending_names(
            kind,
        ).0 + " WHERE resolved_at IS NULL ORDER BY created_at"@,
{
    let (pending, _candidate, _resolved, _fk) = pending_tables_for(kind);
    let mut s = text::owned("SELECT pending_id, book_id, observed_alias, created_at FROM ");
    s.append(pending);
    s.append(" WHERE resolved_at IS NULL ORDER BY created_at");
    s
}

/// The query for the candidates of a pending name, best first: identity,
/// score, displayed name and Audible identifier.
pub open spec fn candidates_sql_text(kind: IdentityKind) -> Seq<char> {
    let fk = pending_names(kind).3;
    "SELECT c."@ + fk + ", c.score, COALESCE( (SELECT alias FROM "@ + kind.junction()
        + " ja WHERE ja."@ + kind.key() + " = c."@ + fk
        + " AND ja.is_prime = 1 LIMIT 1), (SELECT name FROM "@ + kind.parent() + " p WHERE p."@
        + kind.key() + " = c."@ + fk + ")), (SELECT audible_id FROM "@ + kind.parent()
        + " p WHERE p."@ + kind.key() + " = c."@ + fk + ") FROM "@ + pending_names(kind).1
        + " c WHERE c.pending_id = ? ORDER BY c.score DESC, c."@ + fk
}

/// The query for the candidates of a pending name.
pub fn candidates_sql(kind: IdentityKind) -> (s: String)
    ensures
        s@ == candidates_sql_text(kind),
{
    let (_pending, candidate, _resolved, fk) = pending_tables_for(kind);
    let mut s = text::owned("SELECT c.");
    s.append(fk);
    s.append(", c.score, COALESCE( (SELECT alias FROM ");
    s.append(kind.junction_table());
    s.append(" ja WHERE ja.");
    s.append(kind.fk_column());
    s.append(" = c.");
    s.append(fk);
    s.append(" AND ja.is_prime = 1 LIMIT 1), (SELECT name FROM ");
    s.append(kind.parent_table());
    s.append(" p WHERE p.");
    s.append(kind.parent_pk());
    s.append(" = c.");
    s.append(fk);
    s.append(")), (SELECT audible_id FROM ");
    s.append(kind.parent_table());
    s.append(" p WHERE p.");
    s.append(kind.parent_pk());
    s.append(" = c.");
    s.append(fk);
    s.append(") FROM ");
    s.append(candidate);
    s.append(" c WHERE c.pending_id = ? ORDER BY c.score DESC, c.");
    s.append(fk);
    s
}

/// A request to resolve a pending name.
#[derive(Debug)]
pub struct PendingResolveRequest {
    /// Kind of identity.
    pub kind: String,
    /// One of the candidates.
    pub pick: Option<i64>,
    /// A new identity.
    pub create_new: Option<CreateNew>,
}

/// A new identity.
#[derive(Debug)]
pub struct CreateNew {
    /// Its name.
    pub name: String,
    /// Its Audible identifier.
    pub audible_id: Option<String>,
}

/// The answer to a resolved name.
#[derive(Debug)]
pub struct PendingResolveResponse {
    /// The pending name.
    pub pending_id: i64,
    /// Table of the identity.
    pub kind: &'static str,
    /// The book.
    pub book_id: i64,
    /// The identity.
    pub resolved_id: i64,
}

/// How a pending name is to be resolved.
#[derive(Debug)]
pub enum Resolution {
    /// With one of the candidates.
    Pick(i64),
    /// With a new identity.
    Create(CreateNew),
}

/// What a request to resolve is refused with.
pub open spec fn resolve_refusal(req: PendingResolveRequest) -> Option<error::ErrorView> {
    if kind_of(req.kind@) is None {
        Some(unknown_kind(req.kind@))
    } else if req.pick is Some && req.create_new is Some {
        Some(error::ErrorView::BadRequest("pick and create_new are mutually exclusive"@))
    } else if req.pick is None && req.create_new is None {
        Some(error::ErrorView::BadRequest("must specify exactly one of pick or create_new"@))
    } else {
        None
    }
}

/// Checks a request to resolve: a known kind, and either a candidate or a new
/// identity.
pub fn plan_resolve(req: PendingResolveRequest) -> (r: Result<
    (IdentityKind, Resolution),
    error::ApiError,
>)
    ensures
        match r {
            Ok((kind, choice)) => {
                &&& resolve_refusal(req) is None
                &&& kind_of(req.kind@) == Some(kind)
                &&& match choice {
                    Resolution::Pick(id) => req.pick == Some(id) && req.create_new is None,
                    Resolution::Create(new) => req.pick is None && req.create_new == Some(new),
                }
            },
            Err(e) => resolve_refusal(req) == Some(e@),
        },
{
    let kind = match parse_kind(req.kind.as_str()) {
        Ok(k) => k,
        Err(e) => {
            return Err(e);
        },
    };
    match (req.pick, req.create_new) {
        (Some(_), Some(_)) => Err(
            error::ApiError::BadRequest(text::owned("pick and create_new are mutually exclusive")),
        ),
        (None, None) => Err(
            error::ApiError::BadRequest(
                text::owned("must specify exactly one of pick or create_new"),
            ),
        ),
        (Some(id), None) => Ok((kind, Resolution::Pick(id))),
        (None, Some(new)) => Ok((kind, Resolution::Create(new))),
    }
}

/// The query for an open pending name. It takes the pending name.
pub open spec fn pending_load_text(kind: IdentityKind) -> Seq<char> {
    "SELECT book_id, observed_alias FROM "@ + pending_names(kind).0
        + " WHERE pending_id = ? AND resolved_at IS NULL LIMIT 1"@
}

/// The query for an open pending name.
pub fn pending_load_sql(kind: IdentityKind) -> (s: String)
    ensures
        s@ == pending_load_text(kind),
{
    let (pending, _candidate, _resolved, _fk) = pending_tables_for(kind);
    let mut s = text::owned("SELECT book_id, observed_alias FROM ");
    s.append(pending);
    s.append(" WHERE pending_id = ? AND resolved_at IS NULL LIMIT 1");
    s
}

/// That a pending name is unknown or resolved.
pub open spec fn not_pending(pending_id: i64) -> error::ErrorView {
    error::ErrorView::NotFound(
        "pending "@ + text::signed_decimal(pending_id as int) + " not found or already resolved"@,
    )
}

/// The book and the spelling of an open pending name, or that there is none.
pub open spec fn pending_of(pending_id: i64, row: Option<(i64, Seq<char>)>) -> Result<
    (i64, Seq<char>),
    error::ErrorView,
> {
    match row {
        Some(p) => Ok(p),
        None => Err(not_pending(pending_id)),
    }
}

/// The pending name to resolve; one that is unknown or resolved is an error.
pub fn require_pending(pending_id: i64, row: Option<(i64, String)>) -> (r: Result<
    (i64, String),
    error::ApiError,
>)
    ensures
        ({
            let found = match row {
                Some(p) => Some((p.0, p.1@)),
                None => None,
            };
            match r {
                Ok(p) => pending_of(pending_id, found) == Ok::<
                    (i64, Seq<char>),
                    error::ErrorView,
                >((p.0, p.1@)),
                Err(e) => pending_of(pending_id, found) == Err::<
                    (i64, Seq<char>),
                    error::ErrorView,
                >(e@),
            }
        }),
{
    match row {
        Some(p) => Ok(p),
        None => {
            let mut m = text::owned("pending ");
            m.append(text::i64_text(pending_id).as_str());
            m.append(" not found or already resolved");
            Err(error::ApiError::NotFound(m))
        },
    }
}

/// The query for a candidate. It takes the pending name and the candidate.
pub open spec fn pick_lookup_text(kind: IdentityKind) -> Seq<char> {
    "SELECT 1 FROM "@ + pending_names(kind).1 + " WHERE pending_id = ? AND "@ + pending_names(
        kind,
    ).3 + " = ? LIMIT 1"@
}

/// The query for a candidate.
pub fn pick_lookup_sql(kind: IdentityKind) -> (s: String)
    ensures
        s@ == pick_lookup_text(kind),
{
    let (_pending, candidate, _resolved, fk) = pending_tables_for(kind);
    let mut s = text::owned("SELECT 1 FROM ");
    s.append(candidate);
    s.append(" WHERE pending_id = ? AND ");
    s.append(fk);
    s.append(" = ? LIMIT 1");
    s
}

/// Fails where the pick is not a candidate.
pub fn verify_pick(found: bool, pending_id: i64, pick: i64) -> (r: Result<(), error::ApiError>)
    ensures
        found ==> r is Ok,
        !found ==> (r matches Err(e) && e@ == error::ErrorView::BadRequest(
            "pick "@ + text::signed_decimal(pick as int) + " is not a candidate for pending "@
                + text::signed_decimal(pending_id as int) + "; use create_new for a fresh row"@,
        )),
{
    if found {
        Ok(())
    } else {
        let mut m = text::owned("pick ");
        m.append(text::i64_text(pick).as_str());
        m.append(" is not a candidate for pending ");
        m.append(text::i64_text(pending_id).as_str());
        m.append("; use create_new for a fresh row");
        Err(error::ApiError::BadRequest(m))
    }
}

/// The statement that inserts a new identity. It takes the name and the
/// Audible identifier, and gives the identity.
pub open spec fn identity_insert_text(kind: IdentityKind) -> Seq<char> {
    "INSERT INTO "@ + kind.parent() + " (name, audible_id) VALUES (?, ?) RETURNING "@ + kind.key()
}

/// The statement that inserts a new identity.
pub fn identity_insert_sql(kind: IdentityKind) -> (s: String)
    ensures
        s@ == identity_insert_text(kind),
{
    let mut s = text::owned("INSERT INTO ");
    s.append(kind.parent_table());
    s.append(" (name, audible_id) VALUES (?, ?) RETURNING ");
    s.append(kind.parent_pk());
    s
}

/// The statement that records the name of a new identity as its prime alias.
/// It takes the identity and the name.
pub open spec fn prime_insert_text(kind: IdentityKind) -> Seq<char> {
    "INSERT INTO "@ + kind.junction() + " ("@ + kind.key()
        + ", alias, source, is_prime) VALUES (?, ?, 'manual', 1)"@
}

/// The statement that records the name of a new identity as its prime alias.
pub fn prime_alias_insert_sql(kind: IdentityKind) -> (s: String)
    ensures
        s@ == prime_insert_text(kind),
{
    let mut s = text::owned("INSERT INTO ");
    s.append(kind.junction_table());
    s.append(" (");
    s.append(kind.fk_column());
    s.append(", alias, source, is_prime) VALUES (?, ?, 'manual', 1)");
    s
}

/// The statement that attaches an identity to a book. It takes the book and
/// the identity.
pub open spec fn attach_text(kind: IdentityKind) -> Seq<char> {
    match kind {
        IdentityKind::Author => "UPDATE books SET author_id = ?2 WHERE book_id = ?1"@,
        IdentityKind::Narrator => {
            "INSERT OR IGNORE INTO book_narrator (book_id, narrator_id) VALUES (?1, ?2)"@
        },
        IdentityKind::Series => {
            "INSERT OR IGNORE INTO book_series (book_id, series_id, is_primary) VALUES (?1, ?2, 1)"@
        },
    }
}

/// The statement that attaches an identity (second parameter) to a book
/// (first parameter).
pub fn attach_sql(kind: IdentityKind) -> (r: &'static str)
    ensures
        r@ == attach_text(kind),
{
    match kind {
        IdentityKind::Author => "UPDATE books SET author_id = ?2 WHERE book_id = ?1",
        IdentityKind::Narrator => {
            "INSERT OR IGNORE INTO book_narrator (book_id, narrator_id) VALUES (?1, ?2)"
        },
        IdentityKind::Series => {
            "INSERT OR IGNORE INTO book_series (book_id, series_id, is_primary) VALUES (?1, ?2, 1)"
        },
    }
}

/// The statement that closes a pending name. It takes the identity and the
/// pending name.
pub open spec fn pending_stamp_text(kind: IdentityKind) -> Seq<char> {
    "UPDATE "@ + pending_names(kind).0 + " SET resolved_at = strftime('%s','now'), "@
        + pending_names(kind).2 + " = ? WHERE pending_id = ?"@
}

/// The statement that closes a pending name.
pub fn pending_stamp_sql(kind: IdentityKind) -> (s: String)
    ensures
        s@ == pending_stamp_text(kind),
{
    let (pending, _candidate, resolved, _fk) = pending_tables_for(kind);
    let mut s = text::owned("UPDATE ");
    s.append(pending);
    s.append(" SET resolved_at = strftime('%s','now'), ");
    s.append(resolved);
    s.append(" = ? WHERE pending_id = ?");
    s
}

/// The answer to a resolved name.
pub fn pending_resolved(pending_id: i64, kind: IdentityKind, book_id: i64, resolved_id: i64) -> (r:
    PendingResolveResponse)
    ensures
        r.pending_id == pending_id,
        r.kind@ == kind.parent(),
        r.book_id == book_id,
        r.resolved_id == resolved_id,
{
    PendingResolveResponse { pending_id, kind: kind.parent_table(), book_id, resolved_id }
}

// ── Statements ─────────────────────────────────────────────────────

/// A value bound to a parameter of a statement.
#[derive(Debug)]
pub enum Bind {
    /// A number.
    Id(i64),
    /// A text.
    Text(String),
    /// Nothing.
    Null,
}

/// A bound value in terms of its text.
pub enum BindView {
    /// A number.
    Id(i64),
    /// A text.
    Text(Seq<char>),
    /// Nothing.
    Null,
}

impl View for Bind {
    type V = BindView;

    open spec fn view(&self) -> BindView {
        match *self {
            Bind::Id(n) => BindView::Id(n),
            Bind::Text(s) => BindView::Text(s@),
            Bind::Null => BindView::Null,
        }
    }
}

/// A statement with the values of its parameters, in their order.
#[derive(Debug)]
pub struct Statement {
    /// The statement.
    pub sql: String,
    /// The values.
    pub binds: Vec<Bind>,
}

/// A statement in terms of its texts.
pub struct StatementView {
    /// The statement.
    pub sql: Seq<char>,
    /// The values.
    pub binds: Seq<BindView>,
}

impl View for Statement {
    type V = StatementView;

    open spec fn view(&self) -> StatementView {
        StatementView {
            sql: self.sql@,
            binds: Seq::new(self.binds@.len(), |i: int| self.binds@[i]@),
        }
    }
}

fn statement(sql: String, first: Bind, second: Bind) -> (s: Statement)
    ensures
        s@ == (StatementView { sql: sql@, binds: seq![first@, second@] }),
{
    let ghost (a, b) = (first@, second@);
    let mut binds: Vec<Bind> = Vec::new();
    binds.push(first);
    binds.push(second);
    let s = Statement { sql, binds };
    proof {
        assert(s@.binds =~= seq![a, b]);
    }
    s
}

/// A change of what is stored of identities.
pub enum Change {
    /// An identity gets a spelling, unless it has it.
    AddAlias {
        /// Kind of identity.
        kind: IdentityKind,
        /// The identity.
        id: i64,
        /// The spelling.
        alias: Seq<char>,
    },
    /// An identity gets its prime spelling.
    AddPrime {
        /// Kind of identity.
        kind: IdentityKind,
        /// The identity.
        id: i64,
        /// The spelling.
        alias: Seq<char>,
    },
    /// A book gets an identity: its author, or one more narrator or series.
    Attach {
        /// Kind of identity.
        kind: IdentityKind,
        /// The book.
        book_id: i64,
        /// The identity.
        id: i64,
    },
    /// A pending name is resolved.
    Close {
        /// Kind of identity.
        kind: IdentityKind,
        /// The pending name.
        pending_id: i64,
        /// The identity.
        id: i64,
    },
}

/// The statement that makes a change.
pub open spec fn statement_of(c: Change) -> StatementView {
    match c {
        Change::AddAlias { kind, id, alias } => StatementView {
            sql: alias_insert_text(kind),
            binds: seq![BindView::Id(id), BindView::Text(alias)],
        },
        Change::AddPrime { kind, id, alias } => StatementView {
            sql: prime_insert_text(kind),
            binds: seq![BindView::Id(id), BindView::Text(alias)],
        },
        Change::Attach { kind, book_id, id } => StatementView {
            sql: attach_text(kind),
            binds: seq![BindView::Id(book_id), BindView::Id(id)],
        },
        Change::Close { kind, pending_id, id } => StatementView {
            sql: pending_stamp_text(kind),
            binds: seq![BindView::Id(id), BindView::Id(pending_id)],
        },
    }
}

/// The statement that records a spelling.
pub fn alias_write(kind: IdentityKind, id: i64, alias: &str) -> (s: Statement)
    ensures
        s@ == statement_of(Change::AddAlias { kind, id, alias: alias@ }),
{
    statement(alias_insert_sql(kind), Bind::Id(id), Bind::Text(text::owned(alias)))
}

/// The query for an open pending name.
pub fn pending_load(kind: IdentityKind, pending_id: i64) -> (s: Statement)
    ensures
        s@ == (StatementView {
            sql: pending_load_text(kind),
            binds: seq![BindView::Id(pending_id)],
        }),
{
    let mut binds: Vec<Bind> = Vec::new();
    binds.push(Bind::Id(pending_id));
    let s = Statement { sql: pending_load_sql(kind), binds };
    proof {
        assert(s@.binds =~= seq![BindView::Id(pending_id)]);
    }
    s
}

/// The query for a candidate of a pending name.
pub fn pick_lookup(kind: IdentityKind, pending_id: i64, pick: i64) -> (s: Statement)
    ensures
        s@ == (StatementView {
            sql: pick_lookup_text(kind),
            binds: seq![BindView::Id(pending_id), BindView::Id(pick)],
        }),
{
    statement(pick_lookup_sql(kind), Bind::Id(pending_id), Bind::Id(pick))
}

/// The bound value of an optional text.
pub open spec fn opt_bind(o: Option<Seq<char>>) -> BindView {
    match o {
        Some(t) => BindView::Text(t),
        None => BindView::Null,
    }
}

fn bind_opt(o: &Option<String>) -> (b: Bind)
    ensures
        b@ == opt_bind(text::opt_text(*o)),
{
    match o {
        Some(t) => Bind::Text(text::owned(t.as_str())),
        None => Bind::Null,
    }
}

/// The statement that inserts a new identity.
pub fn identity_write(kind: IdentityKind, new: &CreateNew) -> (s: Statement)
    ensures
        s@ == (StatementView {
            sql: identity_insert_text(kind),
            binds: seq![BindView::Text(new.name@), opt_bind(text::opt_text(new.audible_id))],
        }),
{
    statement(
        identity_insert_sql(kind),
        Bind::Text(text::owned(new.name.as_str())),
        bind_opt(&new.audible_id),
    )
}

/// The statement that records the name of the new identity `id` as its prime
/// spelling.
pub fn prime_write(kind: IdentityKind, id: i64, new: &CreateNew) -> (s: Statement)
    ensures
        s@ == statement_of(Change::AddPrime { kind, id, alias: new.name@ }),
{
    statement(
        prime_alias_insert_sql(kind),
        Bind::Id(id),
        Bind::Text(text::owned(new.name.as_str())),
    )
}

/// What a resolution changes, in this order: the identity gets the observed
/// spelling, the book gets the identity, and the pending name is resolved.
pub open spec fn resolution_changes(
    kind: IdentityKind,
    pending_id: i64,
    book_id: i64,
    observed: Seq<char>,
    resolved_id: i64,
) -> Seq<Change> {
    seq![
        Change::AddAlias { kind, id: resolved_id, alias: observed },
        Change::Attach { kind, book_id, id: resolved_id },
        Change::Close { kind, pending_id, id: resolved_id },
    ]
}

/// The statements that resolve a pending name, in their order. They are to be
/// run in one transaction, after the identity is known.
pub fn resolution_writes(
    kind: IdentityKind,
    pending_id: i64,
    book_id: i64,
    observed: &str,
    resolved_id: i64,
) -> (w: Vec<Statement>)
    ensures
        w@.len() == 3,
        forall|i: int|
            0 <= i < 3 ==> (#[trigger] w@[i])@ == statement_of(
                resolution_changes(kind, pending_id, book_id, observed@, resolved_id)[i],
            ),
{
    let mut w: Vec<Statement> = Vec::new();
    w.push(alias_write(kind, resolved_id, observed));
    w.push(statement(text::owned(attach_sql(kind)), Bind::Id(book_id), Bind::Id(resolved_id)));
    w.push(statement(pending_stamp_sql(kind), Bind::Id(resolved_id), Bind::Id(pending_id)));
    w
}

// ── What the changes do ────────────────────────────────────────────

/// A pending name as it is stored.
pub struct PendingState {
    /// The book.
    pub book_id: i64,
    /// The spelling that was observed.
    pub observed: Seq<char>,
    /// The identity it was resolved with.
    pub resolved: Option<i64>,
}

/// What is stored of identities, as far as a resolution concerns it.
pub struct Tables {
    /// The spellings of each identity.
    pub aliases: Set<(IdentityKind, i64, Seq<char>)>,
    /// The identities of each book, the book first.
    pub attached: Set<(IdentityKind, i64, i64)>,
    /// The pending names.
    pub pending: Map<(IdentityKind, i64), PendingState>,
}

impl Tables {
    /// The book and the spelling of an open pending name.
    pub open spec fn open_row(self, kind: IdentityKind, pending_id: i64) -> Option<
        (i64, Seq<char>),
    > {
        if self.pending.dom().contains((kind, pending_id))
            && self.pending[(kind, pending_id)].resolved is None {
            let p = self.pending[(kind, pending_id)];
            Some((p.book_id, p.observed))
        } else {
            None
        }
    }

    /// What is stored after a change. A book has one author.
    pub open spec fn after(self, c: Change) -> Tables {
        match c {
            Change::AddAlias { kind, id, alias } => Tables {
                aliases: self.aliases.insert((kind, id, alias)),
                ..self
            },
            Change::AddPrime { kind, id, alias } => Tables {
                aliases: self.aliases.insert((kind, id, alias)),
                ..self
            },
            Change::Attach { kind, book_id, id } => Tables {
                attached: (if kind == IdentityKind::Author {
                    self.attached.filter(
                        |t: (IdentityKind, i64, i64)|
                            !(t.0 == IdentityKind::Author && t.1 == book_id),
                    )
                } else {
                    self.attached
                }).insert((kind, book_id, id)),
                ..self
            },
            Change::Close { kind, pending_id, id } => if self.pending.dom().contains(
                (kind, pending_id),
            ) {
                Tables {
                    pending: self.pending.insert(
                        (kind, pending_id),
                        PendingState {
                            resolved: Some(id),
                            ..self.pending[(kind, pending_id)]
                        },
                    ),
                    ..self
                }
            } else {
                self
            },
        }
    }

    /// What is stored after changes, made one after the other.
    pub open spec fn after_all(self, changes: Seq<Change>) -> Tables
        decreases changes.len(),
    {
        if changes.len() == 0 {
            self
        } else {
            self.after_all(changes.drop_last()).after(changes.last())
        }
    }
}

/// A resolution does what it says: afterwards the identity has the observed
/// spelling, the book has the identity, and the pending name is resolved, so
/// that it is not found a second time. Other pending names and all other
/// spellings stay; so do the identities of other books.
pub proof fn law_resolution(t: Tables, kind: IdentityKind, pending_id: i64, resolved_id: i64)
    requires
        t.open_row(kind, pending_id) is Some,
    ensures
        ({
            let (book_id, observed) = t.open_row(kind, pending_id)->0;
            let u = t.after_all(
                resolution_changes(kind, pending_id, book_id, observed, resolved_id),
            );
            &&& u.aliases == t.aliases.insert((kind, resolved_id, observed))
            &&& u.attached.contains((kind, book_id, resolved_id))
            &&& kind == IdentityKind::Author ==> forall|id: i64|
                u.attached.contains((IdentityKind::Author, book_id, id)) ==> id == resolved_id
            &&& forall|k: IdentityKind, b: i64, id: i64|
                (k != kind || b != book_id) ==> (#[trigger] u.attached.contains((k, b, id))
                    <==> t.attached.contains((k, b, id)))
            &&& u.pending.dom() == t.pending.dom()
            &&& u.pending[(kind, pending_id)].resolved == Some(resolved_id)
            &&& pending_of(pending_id, u.open_row(kind, pending_id)) == Err::<
                (i64, Seq<char>),
                error::ErrorView,
            >(not_pending(pending_id))
            &&& forall|k: IdentityKind, p: i64|
                (k != kind || p != pending_id) ==> #[trigger] u.open_row(k, p) == t.open_row(k, p)
        }),
{
    let (book_id, observed) = t.open_row(kind, pending_id)->0;
    let c = resolution_changes(kind, pending_id, book_id, observed, resolved_id);
    let one = t.after(c[0]);
    let two = one.after(c[1]);
    let three = two.after(c[2]);
    assert(c.drop_last() =~= seq![c[0], c[1]]);
    assert(c.drop_last().drop_last() =~= seq![c[0]]);
    assert(c.drop_last().drop_last().drop_last() =~= Seq::<Change>::empty());
    assert(t.after_all(Seq::<Change>::empty()) == t);
    assert(t.after_all(c.drop_last().drop_last()) == one);
    assert(t.after_all(c.drop_last()) == two);
    assert(t.after_all(c) == three);
    assert(three.pending.dom() =~= t.pending.dom());
}

/// A kind is named by its word, and by nothing else.
pub proof fn law_kind_words(s: Seq<char>)
    ensures
        kind_of("author"@) == Some(IdentityKind::Author),
        kind_of("narrator"@) == Some(IdentityKind::Narrator),
        kind_of("series"@) == Some(IdentityKind::Series),
        s != "author"@ && s != "narrator"@ && s != "series"@ ==> kind_of(s) is None,
{
    law_kind_round_trip(IdentityKind::Author);
    law_kind_round_trip(IdentityKind::Narrator);
    law_kind_round_trip(IdentityKind::Series);
}

/// The tables and columns of a kind are called after it: its aliases, its
/// identifier, its pending names, their candidates and their resolution.
pub proof fn law_tables_are_called_after_the_kind(kind: IdentityKind)
    ensures
        kind.junction() == kind.wire() + "_aliases"@,
        kind.key() == kind.wire() + "_id"@,
        pending_names(kind).0 == kind.wire() + "_disambiguation_pending"@,
        pending_names(kind).1 == kind.wire() + "_disambiguation_candidate"@,
        pending_names(kind).2 == "resolved_"@ + kind.wire() + "_id"@,
        pending_names(kind).3 == kind.wire() + "_id"@,
        kind == IdentityKind::Series ==> kind.parent() == kind.wire(),
        kind != IdentityKind::Series ==> kind.parent() == kind.wire() + "s"@,
        IdentityKind::Author.wire() == "author"@,
        IdentityKind::Narrator.wire() == "narrator"@,
        IdentityKind::Series.wire() == "series"@,
{
    reveal_strlit("_aliases");
    reveal_strlit("_id");
    reveal_strlit("_disambiguation_pending");
    reveal_strlit("_disambiguation_candidate");
    reveal_strlit("resolved_");
    reveal_strlit("s");
    match kind {
        IdentityKind::Author => {
            reveal_strlit("author");
            reveal_strlit("authors");
            reveal_strlit("author_aliases");
            reveal_strlit("author_id");
            reveal_strlit("author_disambiguation_pending");
            reveal_strlit("author_disambiguation_candidate");
            reveal_strlit("resolved_author_id");
        },
        IdentityKind::Narrator => {
            reveal_strlit("narrator");
            reveal_strlit("narrators");
            reveal_strlit("narrator_aliases");
            reveal_strlit("narrator_id");
            reveal_strlit("narrator_disambiguation_pending");
            reveal_strlit("narrator_disambiguation_candidate");
            reveal_strlit("resolved_narrator_id");
        },
        IdentityKind::Series => {
            reveal_strlit("series");
            reveal_strlit("series_aliases");
            reveal_strlit("series_id");
            reveal_strlit("series_disambiguation_pending");
            reveal_strlit("series_disambiguation_candidate");
            reveal_strlit("resolved_series_id");
        },
    }
    assert(kind.junction() =~= kind.wire() + "_aliases"@);
    assert(kind.key() =~= kind.wire() + "_id"@);
    assert(pending_names(kind).0 =~= kind.wire() + "_disambiguation_pending"@);
    assert(pending_names(kind).1 =~= kind.wire() + "_disambiguation_candidate"@);
    assert(pending_names(kind).2 =~= "resolved_"@ + kind.wire() + "_id"@);
    assert(kind != IdentityKind::Series ==> kind.parent() =~= kind.wire() + "s"@);
}

/// An alias request is granted where its kind is known and its spelling is not
/// blank, with the spelling trimmed.
pub proof fn law_alias_request(kind: IdentityKind, word: Seq<char>, alias: Seq<char>)
    ensures
        text::trimmed(alias).len() > 0 ==> alias_request(kind.wire(), alias) == Ok::<
            (IdentityKind, Seq<char>),
            error::ErrorView,
        >((kind, text::trimmed(alias))),
        text::trimmed(alias).len() == 0 ==> alias_request(word, alias) is Err,
        word != "author"@ && word != "narrator"@ && word != "series"@ ==> alias_request(word, alias)
            is Err,
{
    law_kind_round_trip(kind);
    law_kind_words(word);
}

proof fn lemma_first_spelled(rows: Seq<AliasRow>, alias: Seq<char>, n: int, k: int)
    requires
        0 <= n <= k < rows.len(),
    ensures
        first_spelled(rows, alias, n) matches Some(i) ==> n <= i < rows.len() && spelled(
            rows[i],
            alias,
        ) && (n <= k < i ==> !spelled(rows[k], alias)),
        first_spelled(rows, alias, n) is None ==> !spelled(rows[k], alias),
    decreases rows.len() - n,
{
    if !spelled(rows[n], alias) {
        if n < k {
            lemma_first_spelled(rows, alias, n + 1, k);
        } else if n + 1 < rows.len() {
            lemma_first_spelled(rows, alias, n + 1, n + 1);
        } else {
            assert(first_spelled(rows, alias, n + 1) is None);
        }
    }
}

/// A spelling is found where it is recorded, whatever the case of its letters,
/// and the first row that has it is taken.
pub proof fn law_spelling_is_found(rows: Seq<AliasRow>, alias: Seq<char>, k: int)
    requires
        0 <= k < rows.len(),
    ensures
        text::ascii_lower(rows[k].alias@) == text::ascii_lower(alias) ==> (first_spelled(
            rows,
            alias,
            0,
        ) matches Some(i) && i <= k),
        first_spelled(rows, alias, 0) matches Some(i) ==> 0 <= i < rows.len() && text::ascii_lower(
            rows[i].alias@,
        ) == text::ascii_lower(alias),
{
    lemma_first_spelled(rows, alias, 0, k);
}

/// The rows that lose the flag are those that have it, and the rows that get
/// it those with the spelling.
pub proof fn law_rows_of_a_move(rows: Seq<AliasRow>, alias: Seq<char>, i: int)
    requires
        distinct_rows(rows),
        0 <= i < rows.len(),
    ensures
        prime_ids(rows, rows.len()).contains(rows[i].alias_id) <==> rows[i].is_prime,
        spelled_ids(rows, alias, rows.len()).contains(rows[i].alias_id) <==> text::ascii_lower(
            rows[i].alias@,
        ) == text::ascii_lower(alias),
{
    lemma_spelled_ids(rows, alias, rows.len(), i);
    if rows[i].is_prime {
        lemma_prime_ids(rows, rows.len(), i);
    } else {
        lemma_not_prime(rows, rows.len(), i);
    }
}

proof fn lemma_not_prime(rows: Seq<AliasRow>, n: nat, i: int)
    requires
        distinct_rows(rows),
        n <= rows.len(),
        0 <= i < rows.len(),
        !rows[i].is_prime,
    ensures
        !prime_ids(rows, n).contains(rows[i].alias_id),
    decreases n,
{
    if n > 0 {
        lemma_not_prime(rows, (n - 1) as nat, i);
        let rest = prime_ids(rows, (n - 1) as nat);
        let all = prime_ids(rows, n);
        if all.contains(rows[i].alias_id) {
            let k = choose|k: int| 0 <= k < all.len() && all[k] == rows[i].alias_id;
            if k < rest.len() {
                assert(rest[k] == rows[i].alias_id);
            } else {
                assert(rows[n - 1].alias_id == rows[i].alias_id);
                if n - 1 < i {
                    assert(rows[n - 1].alias_id != rows[i].alias_id);
                } else if i < n - 1 {
                    assert(rows[i].alias_id != rows[n - 1].alias_id);
                }
            }
        }
    }
}

/// A request to resolve is granted where its kind is known and it asks for a
/// candidate or for a new identity, but not for both.
pub proof fn law_resolve_granted(req: PendingResolveRequest)
    ensures
        resolve_refusal(req) is None <==> (req.kind@ == "author"@ || req.kind@ == "narrator"@
            || req.kind@ == "series"@) && (req.pick is Some <==> req.create_new is None),
        resolve_refusal(req) matches Some(e) ==> e is BadRequest,
{
    law_kind_words(req.kind@);
}

/// An open pending name gives its book and its spelling; where there is none,
/// it is not found.
pub proof fn law_pending_row(pending_id: i64, book_id: i64, observed: Seq<char>)
    ensures
        pending_of(pending_id, Some((book_id, observed))) == Ok::<
            (i64, Seq<char>),
            error::ErrorView,
        >((book_id, observed)),
        pending_of(pending_id, None) matches Err(error::ErrorView::NotFound(_)),
{
}

/// A resolution is three statements: the spelling of the identity, the
/// identity of the book, the resolution of the pending name. Each gets its own
/// values, in the order of its parameters.
pub proof fn law_resolution_statements(
    kind: IdentityKind,
    pending_id: i64,
    book_id: i64,
    observed: Seq<char>,
    id: i64,
)
    ensures
        ({
            let c = resolution_changes(kind, pending_id, book_id, observed, id);
            let (alias, attach, close) = (
                statement_of(c[0]),
                statement_of(c[1]),
                statement_of(c[2]),
            );
            &&& c.len() == 3
            &&& alias.sql == "INSERT OR IGNORE INTO "@ + kind.junction() + " ("@ + kind.key()
                + ", alias, source, is_prime) VALUES (?, ?, 'manual', 0)"@
            &&& alias.binds == seq![BindView::Id(id), BindView::Text(observed)]
            &&& kind == IdentityKind::Author ==> attach.sql
                == "UPDATE books SET author_id = ?2 WHERE book_id = ?1"@
            &&& kind == IdentityKind::Narrator ==> attach.sql
                == "INSERT OR IGNORE INTO book_narrator (book_id, narrator_id) VALUES (?1, ?2)"@
            &&& kind == IdentityKind::Series ==> attach.sql
                == "INSERT OR IGNORE INTO book_series (book_id, series_id, is_primary) VALUES (?1, ?2, 1)"@
            &&& attach.binds == seq![BindView::Id(book_id), BindView::Id(id)]
            &&& close.sql == "UPDATE "@ + pending_names(kind).0
                + " SET resolved_at = strftime('%s','now'), "@ + pending_names(kind).2
                + " = ? WHERE pending_id = ?"@
            &&& close.binds == seq![BindView::Id(id), BindView::Id(pending_id)]
        }),
{
}

/// A new identity is inserted under its name, and that name is its prime
/// spelling.
pub proof fn law_new_identity_statements(kind: IdentityKind, id: i64, name: Seq<char>)
    ensures
        identity_insert_text(kind) == "INSERT INTO "@ + kind.parent()
            + " (name, audible_id) VALUES (?, ?) RETURNING "@ + kind.key(),
        statement_of(Change::AddPrime { kind, id, alias: name }).sql == "INSERT INTO "@
            + kind.junction() + " ("@ + kind.key()
            + ", alias, source, is_prime) VALUES (?, ?, 'manual', 1)"@,
        statement_of(Change::AddPrime { kind, id, alias: name }).binds == seq![
            BindView::Id(id),
            BindView::Text(name),
        ],
        opt_bind(Some(name)) == BindView::Text(name),
        opt_bind(None) == BindView::Null,
        pending_load_text(kind) == "SELECT book_id, observed_alias FROM "@ + pending_names(kind).0
            + " WHERE pending_id = ? AND resolved_at IS NULL LIMIT 1"@,
        pick_lookup_text(kind) == "SELECT 1 FROM "@ + pending_names(kind).1
            + " WHERE pending_id = ? AND "@ + pending_names(kind).3 + " = ? LIMIT 1"@,
{
}

/// A word that is no kind is answered with the kinds there are.
pub proof fn law_unknown_kind(word: Seq<char>, alias: Seq<char>)
    requires
        word != "author"@,
        word != "narrator"@,
        word != "series"@,
    ensures
        alias_request(word, alias) == Err::<(IdentityKind, Seq<char>), error::ErrorView>(
            error::ErrorView::BadRequest(
                "unknown identity kind `"@ + word + "` (valid: author, narrator, series)"@,
            ),
        ),
{
    law_kind_words(word);
}

/// Candidates come with their identity, their score, the name that is shown
/// and their identifier, the best first and those of one score by identity.
pub proof fn law_candidates_query(kind: IdentityKind)
    ensures
        ({
            let fk = kind.key();
            candidates_sql_text(kind) == "SELECT c."@ + fk
                + ", c.score, COALESCE( (SELECT alias FROM "@ + kind.junction() + " ja WHERE ja."@
                + kind.key() + " = c."@ + fk
                + " AND ja.is_prime = 1 LIMIT 1), (SELECT name FROM "@ + kind.parent()
                + " p WHERE p."@ + kind.key() + " = c."@ + fk + ")), (SELECT audible_id FROM "@
                + kind.parent() + " p WHERE p."@ + kind.key() + " = c."@ + fk + ") FROM "@
                + pending_names(kind).1 + " c WHERE c.pending_id = ? ORDER BY c.score DESC, c."@
                + fk
        }),
{
    law_tables_are_called_after_the_kind(kind);
}

/// A refusal says what is wrong: a blank spelling, a request for both or for
/// neither of the two ways to resolve, or a pending name that is not open.
pub proof fn law_refusals(
    kind: IdentityKind,
    alias: Seq<char>,
    req: PendingResolveRequest,
    pending_id: i64,
)
    requires
        req.kind@ == kind.wire(),
    ensures
        text::trimmed(alias).len() == 0 ==> alias_request(kind.wire(), alias) == Err::<
            (IdentityKind, Seq<char>),
            error::ErrorView,
        >(error::ErrorView::BadRequest("alias must be non-empty"@)),
        req.pick is Some && req.create_new is Some ==> resolve_refusal(req) == Some(
            error::ErrorView::BadRequest("pick and create_new are mutually exclusive"@),
        ),
        req.pick is None && req.create_new is None ==> resolve_refusal(req) == Some(
            error::ErrorView::BadRequest("must specify exactly one of pick or create_new"@),
        ),
        pending_of(pending_id, None) == Err::<(i64, Seq<char>), error::ErrorView>(
            error::ErrorView::NotFound(
                "pending "@ + text::signed_decimal(pending_id as int)
                    + " not found or already resolved"@,
            ),
        ),
{
    law_kind_round_trip(kind);
}

} // verus!

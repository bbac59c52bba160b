//! What a cleanup may delete: expired pairing codes, stale companion hints and
//! finished journal entries past their retention.

use crate::text;
use vstd::prelude::*;

verus! {

/// Groups of targets that are cleaned together.
#[derive(Debug, Clone, Copy, PartialEq, Eq, Structural)]
pub enum Category {
    /// The ephemeral queue database.
    Queue,
    /// The library database.
    Db,
}

/// How a cleanup is run.
#[derive(Debug, Clone, Copy)]
pub struct Policy {
    /// Age from which things are eligible, for targets that go by it.
    pub age_seconds: u64,
    /// Whether the age is ignored.
    pub force: bool,
    /// Whether anything is deleted.
    pub apply: bool,
}

impl Policy {
    /// A policy that deletes nothing.
    pub fn dry_run(age_seconds: u64) -> (p: Policy)
        ensures
            p == (Policy { age_seconds, force: false, apply: false }),
    {
        Policy { age_seconds, force: false, apply: false }
    }
}

/// What a cleanup deleted, or would delete.
#[derive(Debug)]
pub struct CleanupReport {
    /// Group of the target.
    pub category: Category,
    /// The target.
    pub name: &'static str,
    /// Number of rows.
    pub items: u64,
    /// Bytes on disk; zero for rows.
    pub bytes: u64,
}

/// A row that a target decides on.
pub trait Sweepable: Copy {
    /// Whether the row may be deleted at `now`.
    spec fn may_go(self, now: i64, force: bool) -> bool;

    /// Whether the row may be deleted at `now`.
    fn eligible(&self, now: i64, force: bool) -> (r: bool)
        ensures
            r == self.may_go(now, force),
    ;
}

/// Number of rows that may be deleted.
pub open spec fn eligible_count<R: Sweepable>(rows: Seq<R>, now: i64, force: bool) -> nat
    decreases rows.len(),
{
    if rows.len() == 0 {
        0
    } else {
        eligible_count(rows.drop_last(), now, force) + if rows.last().may_go(now, force) {
            1nat
        } else {
            0nat
        }
    }
}

/// The rows that stay, in their order.
pub open spec fn remaining<R: Sweepable>(rows: Seq<R>, now: i64, force: bool) -> Seq<R>
    decreases rows.len(),
{
    if rows.len() == 0 {
        Seq::empty()
    } else if rows.last().may_go(now, force) {
        remaining(rows.drop_last(), now, force)
    } else {
        remaining(rows.drop_last(), now, force).push(rows.last())
    }
}

/// Number of rows that may be deleted.
pub fn count_eligible<R: Sweepable>(rows: &Vec<R>, now: i64, force: bool) -> (n: u64)
    ensures
        n == eligible_count(rows@, now, force),
{
    let mut n: u64 = 0;
    let mut i: usize = 0;
    let len: usize = rows.len();
    while i < len
        invariant
            i <= len,
            len == rows@.len(),
            n <= i,
            n == eligible_count(rows@.take(i as int), now, force),
        decreases len - i,
    {
        proof {
            assert(rows@.take(i + 1).drop_last() =~= rows@.take(i as int));
        }
        if rows[i].eligible(now, force) {
            n = n + 1;
        }
        i = i + 1;
    }
    proof {
        assert(rows@.take(i as int) =~= rows@);
    }
    n
}

/// Deletes the rows that may be deleted and says how many those were.
pub fn sweep<R: Sweepable>(rows: &mut Vec<R>, now: i64, force: bool) -> (n: u64)
    ensures
        final(rows)@ == remaining(old(rows)@, now, force),
        n == eligible_count(old(rows)@, now, force),
{
    let n: u64 = count_eligible(rows, now, force);
    let mut kept: Vec<R> = Vec::new();
    let mut i: usize = 0;
    while i < rows.len()
        invariant
            i <= rows@.len(),
            rows@ == old(rows)@,
            kept@ == remaining(rows@.take(i as int), now, force),
        decreases rows@.len() - i,
    {
        proof {
            assert(rows@.take(i + 1).drop_last() =~= rows@.take(i as int));
        }
        if !rows[i].eligible(now, force) {
            kept.push(rows[i]);
        }
        i = i + 1;
    }
    proof {
        assert(rows@.take(i as int) =~= rows@);
    }
    *rows = kept;
    n
}

// ── Pairing codes ──────────────────────────────────────────────────

/// What decides on a pairing code.
#[derive(Debug, Clone, Copy)]
pub struct PairingCodeAge {
    /// The row.
    pub code_id: i64,
    /// End of validity, Unix seconds.
    pub expires_at: i64,
    /// Whether a token was issued for it.
    pub consumed: bool,
}

impl Sweepable for PairingCodeAge {
    open spec fn may_go(self, now: i64, force: bool) -> bool {
        !self.consumed && (force || self.expires_at < now)
    }

    fn eligible(&self, now: i64, force: bool) -> (r: bool) {
        !self.consumed && (force || self.expires_at < now)
    }
}

/// Deletes pairing codes that expired without being consumed.
pub struct ExpiredPairingCodesTarget;

impl ExpiredPairingCodesTarget {
    /// Group of the target.
    pub fn category(&self) -> (c: Category)
        ensures
            c == Category::Queue,
    {
        Category::Queue
    }

    /// Name of the target.
    pub fn name(&self) -> (s: &'static str)
        ensures
            s@ == "expired-pairing-codes"@,
    {
        "expired-pairing-codes"
    }

    /// What a cleanup would delete.
    pub fn report(&self, rows: &Vec<PairingCodeAge>, now: i64, policy: &Policy) -> (r:
        CleanupReport)
        ensures
            r.category == Category::Queue,
            r.name@ == "expired-pairing-codes"@,
            r.items == eligible_count(rows@, now, policy.force),
            r.bytes == 0,
    {
        CleanupReport {
            category: self.category(),
            name: self.name(),
            items: count_eligible(rows, now, policy.force),
            bytes: 0,
        }
    }

    /// Deletes what may be deleted.
    pub fn apply(&self, rows: &mut Vec<PairingCodeAge>, now: i64, policy: &Policy) -> (r:
        CleanupReport)
        ensures
            final(rows)@ == remaining(old(rows)@, now, policy.force),
            r.category == Category::Queue,
            r.name@ == "expired-pairing-codes"@,
            r.items == eligible_count(old(rows)@, now, policy.force),
            r.bytes == 0,
    {
        CleanupReport {
            category: self.category(),
            name: self.name(),
            items: sweep(rows, now, policy.force),
            bytes: 0,
        }
    }
}

// ── Companion hints ────────────────────────────────────────────────

/// Retention of companion hints: ninety days.
pub const STALE_COMPANION_HINTS_AGE_SECS: i64 = 7_776_000;

/// The time before which things are stale.
pub open spec fn cutoff_of(now: int, age: int) -> int {
    if now - age < i64::MIN {
        i64::MIN as int
    } else {
        now - age
    }
}

/// The time before which a companion hint is stale.
pub fn stale_hints_cutoff(now: i64) -> (r: i64)
    ensures
        r == cutoff_of(now as int, STALE_COMPANION_HINTS_AGE_SECS as int),
{
    if now < i64::MIN + STALE_COMPANION_HINTS_AGE_SECS {
        i64::MIN
    } else {
        now - STALE_COMPANION_HINTS_AGE_SECS
    }
}

/// What decides on a companion hint.
#[derive(Debug, Clone, Copy)]
pub struct CompanionHintAge {
    /// The companion.
    pub companion_id: i64,
    /// The book nearby.
    pub book_id: i64,
    /// Time of discovery, Unix seconds.
    pub discovered_at: i64,
}

impl Sweepable for CompanionHintAge {
    open spec fn may_go(self, now: i64, force: bool) -> bool {
        force || self.discovered_at < cutoff_of(now as int, STALE_COMPANION_HINTS_AGE_SECS as int)
    }

    fn eligible(&self, now: i64, force: bool) -> (r: bool) {
        force || self.discovered_at < stale_hints_cutoff(now)
    }
}

/// Deletes companion hints past their retention.
pub struct StaleCompanionHintsTarget;

impl StaleCompanionHintsTarget {
    /// Group of the target.
    pub fn category(&self) -> (c: Category)
        ensures
            c == Category::Db,
    {
        Category::Db
    }

    /// Name of the target.
    pub fn name(&self) -> (s: &'static str)
        ensures
            s@ == "stale-companion-hints"@,
    {
        "stale-companion-hints"
    }

    /// What a cleanup would delete.
    pub fn report(&self, rows: &Vec<CompanionHintAge>, now: i64, policy: &Policy) -> (r:
        CleanupReport)
        ensures
            r.category == Category::Db,
            r.name@ == "stale-companion-hints"@,
            r.items == eligible_count(rows@, now, policy.force),
            r.bytes == 0,
    {
        CleanupReport {
            category: self.category(),
            name: self.name(),
            items: count_eligible(rows, now, policy.force),
            bytes: 0,
        }
    }

    /// Deletes what may be deleted.
    pub fn apply(&self, rows: &mut Vec<CompanionHintAge>, now: i64, policy: &Policy) -> (r:
        CleanupReport)
        ensures
            final(rows)@ == remaining(old(rows)@, now, policy.force),
            r.category == Category::Db,
            r.name@ == "stale-companion-hints"@,
            r.items == eligible_count(old(rows)@, now, policy.force),
            r.bytes == 0,
    {
        CleanupReport {
            category: self.category(),
            name: self.name(),
            items: sweep(rows, now, policy.force),
            bytes: 0,
        }
    }
}

// ── Journal entries ────────────────────────────────────────────────

/// Retention of finished journal entries: ninety days.
pub const STALE_OPERATION_JOURNAL_AGE_SECS: i64 = 7_776_000;

/// The time before which a finished journal entry is stale.
pub fn stale_journal_cutoff(now: i64) -> (r: i64)
    ensures
        r == cutoff_of(now as int, STALE_OPERATION_JOURNAL_AGE_SECS as int),
{
    if now < i64::MIN + STALE_OPERATION_JOURNAL_AGE_SECS {
        i64::MIN
    } else {
        now - STALE_OPERATION_JOURNAL_AGE_SECS
    }
}

/// How far a journal entry has come.
#[derive(Debug, Clone, Copy, PartialEq, Eq, Structural)]
pub enum Progress {
    /// The mutation may not have landed.
    Pending,
    /// It landed.
    Done,
    /// It failed.
    Failed,
    /// It was undone.
    Reversed,
}

/// The progress that a stored text says.
pub open spec fn progress_of(s: Seq<char>) -> Option<Progress> {
    if s == "pending"@ {
        Some(Progress::Pending)
    } else if s == "done"@ {
        Some(Progress::Done)
    } else if s == "failed"@ {
        Some(Progress::Failed)
    } else if s == "reversed"@ {
        Some(Progress::Reversed)
    } else {
        None
    }
}

impl Progress {
    /// The progress that a stored text says.
    pub fn parse(s: &str) -> (r: Option<Progress>)
        ensures
            r == progress_of(s@),
    {
        if text::same_text(s, "pending") {
            Some(Progress::Pending)
        } else if text::same_text(s, "done") {
            Some(Progress::Done)
        } else if text::same_text(s, "failed") {
            Some(Progress::Failed)
        } else if text::same_text(s, "reversed") {
            Some(Progress::Reversed)
        } else {
            None
        }
    }
}

/// What decides on a journal entry.
#[derive(Debug, Clone, Copy)]
pub struct JournalAge {
    /// The entry.
    pub op_id: i64,
    /// How far it has come.
    pub progress: Progress,
    /// Time of the entry, Unix seconds.
    pub created_at: i64,
}

impl Sweepable for JournalAge {
    open spec fn may_go(self, now: i64, force: bool) -> bool {
        self.progress != Progress::Pending && (force || self.created_at < cutoff_of(
            now as int,
            STALE_OPERATION_JOURNAL_AGE_SECS as int,
        ))
    }

    fn eligible(&self, now: i64, force: bool) -> (r: bool) {
        self.progress != Progress::Pending && (force || self.created_at < stale_journal_cutoff(
            now,
        ))
    }
}

/// Deletes finished journal entries past their retention.
pub struct StaleOperationJournalTarget;

impl StaleOperationJournalTarget {
    /// Group of the target.
    pub fn category(&self) -> (c: Category)
        ensures
            c == Category::Db,
    {
        Category::Db
    }

    /// Name of the target.
    pub fn name(&self) -> (s: &'static str)
        ensures
            s@ == "stale-operation-journal"@,
    {
        "stale-operation-journal"
    }

    /// What a cleanup would delete.
    pub fn report(&self, rows: &Vec<JournalAge>, now: i64, policy: &Policy) -> (r: CleanupReport)
        ensures
            r.category == Category::Db,
            r.name@ == "stale-operation-journal"@,
            r.items == eligible_count(rows@, now, policy.force),
            r.bytes == 0,
    {
        CleanupReport {
            category: self.category(),
            name: self.name(),
            items: count_eligible(rows, now, policy.force),
            bytes: 0,
        }
    }

    /// Deletes what may be deleted.
    pub fn apply(&self, rows: &mut Vec<JournalAge>, now: i64, policy: &Policy) -> (r:
        CleanupReport)
        ensures
            final(rows)@ == remaining(old(rows)@, now, policy.force),
            r.category == Category::Db,
            r.name@ == "stale-operation-journal"@,
            r.items == eligible_count(old(rows)@, now, policy.force),
            r.bytes == 0,
    {
        CleanupReport {
            category: self.category(),
            name: self.name(),
            items: sweep(rows, now, policy.force),
            bytes: 0,
        }
    }
}

// ── Laws ───────────────────────────────────────────────────────────

/// A cleanup leaves nothing to clean: under the same policy a report after it
/// counts no rows, and a second cleanup changes nothing.
pub proof fn law_apply_idempotent<R: Sweepable>(rows: Seq<R>, now: i64, force: bool)
    ensures
        eligible_count(remaining(rows, now, force), now, force) == 0,
        remaining(remaining(rows, now, force), now, force) == remaining(rows, now, force),
    decreases rows.len(),
{
    if rows.len() > 0 {
        law_apply_idempotent(rows.drop_last(), now, force);
        let rest = remaining(rows.drop_last(), now, force);
        if !rows.last().may_go(now, force) {
            assert(rest.push(rows.last()).drop_last() =~= rest);
        }
    }
}

/// A report counts what a cleanup deletes: what stays and what goes add up.
pub proof fn law_report_matches_apply<R: Sweepable>(rows: Seq<R>, now: i64, force: bool)
    ensures
        remaining(rows, now, force).len() + eligible_count(rows, now, force) == rows.len(),
    decreases rows.len(),
{
    if rows.len() > 0 {
        law_report_matches_apply(rows.drop_last(), now, force);
    }
}

/// A row that may not be deleted survives.
pub proof fn law_others_survive<R: Sweepable>(rows: Seq<R>, now: i64, force: bool, i: int)
    requires
        0 <= i < rows.len(),
        !rows[i].may_go(now, force),
    ensures
        remaining(rows, now, force).contains(rows[i]),
    decreases rows.len(),
{
    let rest = remaining(rows.drop_last(), now, force);
    if i == rows.len() - 1 {
        assert(rest.push(rows.last())[rest.len() as int] == rows[i]);
    } else {
        assert(rows.drop_last()[i] == rows[i]);
        law_others_survive(rows.drop_last(), now, force, i);
        let k = choose|k: int| 0 <= k < rest.len() && rest[k] == rows[i];
        assert(remaining(rows, now, force)[k] == rows[i]);
    }
}

/// Force deletes at least what a cleanup without it does, and even force
/// spares consumed pairing codes and pending journal entries.
pub proof fn law_force_spares(
    code: PairingCodeAge,
    hint: CompanionHintAge,
    entry: JournalAge,
    now: i64,
)
    ensures
        code.may_go(now, false) ==> code.may_go(now, true),
        hint.may_go(now, false) ==> hint.may_go(now, true),
        entry.may_go(now, false) ==> entry.may_go(now, true),
        code.consumed ==> !code.may_go(now, true),
        entry.progress == Progress::Pending ==> !entry.may_go(now, true),
{
}

/// Retention is ninety days of 86 400 seconds: without force, a companion hint
/// or a finished journal entry may be deleted exactly where it is older, as far
/// as its age can be told. A pairing code may be deleted once it has expired.
pub proof fn law_retention(
    code: PairingCodeAge,
    hint: CompanionHintAge,
    entry: JournalAge,
    now: i64,
)
    requires
        now >= i64::MIN + 7_776_000,
    ensures
        hint.may_go(now, false) <==> now - hint.discovered_at > 90 * 86_400,
        entry.progress != Progress::Pending ==> (entry.may_go(now, false) <==> now
            - entry.created_at > 90 * 86_400),
        entry.progress == Progress::Pending ==> !entry.may_go(now, false),
        !code.consumed ==> (code.may_go(now, false) <==> code.expires_at < now),
        code.consumed ==> !code.may_go(now, false),
{
}

/// Force deletes whatever may go at all, however young: every hint, every
/// code that was not consumed, and every entry that is not pending.
pub proof fn law_force_ignores_age(
    code: PairingCodeAge,
    hint: CompanionHintAge,
    entry: JournalAge,
    now: i64,
)
    ensures
        hint.may_go(now, true),
        code.may_go(now, true) <==> !code.consumed,
        entry.may_go(now, true) <==> (entry.progress == Progress::Done || entry.progress
            == Progress::Failed || entry.progress == Progress::Reversed),
{
}

/// At the beginning of time nothing is old.
pub proof fn law_no_age_before_time(hint: CompanionHintAge, entry: JournalAge, now: i64)
    requires
        now < i64::MIN + 7_776_000,
    ensures
        !hint.may_go(now, false),
        !entry.may_go(now, false),
{
}

/// A cleanup keeps only rows that were there and may not go, in their order.
pub proof fn law_only_the_eligible_go<R: Sweepable>(rows: Seq<R>, now: i64, force: bool)
    ensures
        remaining(rows, now, force) == rows.filter(|r: R| !r.may_go(now, force)),
        eligible_count(rows, now, force) == rows.filter(|r: R| r.may_go(now, force)).len(),
    decreases rows.len(),
{
    reveal(Seq::filter);
    if rows.len() > 0 {
        law_only_the_eligible_go(rows.drop_last(), now, force);
    }
}

/// A progress is read from its own word and from no other.
pub proof fn law_progress_words(s: Seq<char>)
    ensures
        progress_of("pending"@) == Some(Progress::Pending),
        progress_of("done"@) == Some(Progress::Done),
        progress_of("failed"@) == Some(Progress::Failed),
        progress_of("reversed"@) == Some(Progress::Reversed),
        s != "pending"@ && s != "done"@ && s != "failed"@ && s != "reversed"@ ==> progress_of(s)
            is None,
{
    reveal_strlit("pending");
    reveal_strlit("done");
    reveal_strlit("failed");
    reveal_strlit("reversed");
    assert("pending"@.len() == 7 && "done"@.len() == 4 && "failed"@.len() == 6
        && "reversed"@.len() == 8);
}

} // verus!

use aborganizer::cleanup_targets::{
    Category, CompanionHintAge, ExpiredPairingCodesTarget, JournalAge, PairingCodeAge, Policy,
    Progress, StaleCompanionHintsTarget, StaleOperationJournalTarget,
};
use aborganizer::clock::unix_now_secs;

const NOW: i64 = 1_800_000_000;
const DAY: i64 = 86_400;

fn code(code_id: i64, expires_at: i64, consumed: bool) -> PairingCodeAge {
    PairingCodeAge { code_id, expires_at, consumed }
}

fn hint(book_id: i64, discovered_at: i64) -> CompanionHintAge {
    CompanionHintAge { companion_id: 1, book_id, discovered_at }
}

fn entry(op_id: i64, progress: &str, created_at: i64) -> JournalAge {
    JournalAge { op_id, progress: Progress::parse(progress).expect("progress"), created_at }
}

fn policy(force: bool) -> Policy {
    Policy { age_seconds: 86_400, force, apply: true }
}

#[test]
fn report_counts_only_unconsumed_expired() {
    let rows = vec![
        code(1, NOW - 3600, false),
        code(2, NOW - 3600, true),
        code(3, NOW + 3600, false),
    ];
    let report = ExpiredPairingCodesTarget.report(&rows, NOW, &Policy::dry_run(86_400));
    assert_eq!(report.items, 1, "only the first should match");
    assert_eq!(report.category, Category::Queue);
    assert_eq!(report.name, "expired-pairing-codes");
    assert_eq!(report.bytes, 0);
}

#[test]
fn apply_deletes_only_unconsumed_expired() {
    let mut rows = vec![
        code(1, NOW - 3600, false),
        code(2, NOW - 3600, true),
        code(3, NOW + 3600, false),
    ];
    let report = ExpiredPairingCodesTarget.apply(&mut rows, NOW, &policy(false));
    assert_eq!(report.items, 1);
    let surviving: Vec<i64> = rows.iter().map(|r| r.code_id).collect();
    assert_eq!(surviving, vec![2, 3]);
}

#[test]
fn force_deletes_unconsumed_even_when_not_expired() {
    let mut rows = vec![code(1, NOW + 3600, false), code(2, NOW + 3600, true)];
    let report = ExpiredPairingCodesTarget.apply(&mut rows, NOW, &policy(true));
    assert_eq!(report.items, 1, "force still skips consumed rows");
    assert_eq!(rows.len(), 1, "consumed pairing code preserved as audit");
}

#[test]
fn apply_is_idempotent() {
    let mut rows = vec![code(1, NOW - 3600, false)];
    let first = ExpiredPairingCodesTarget.apply(&mut rows, NOW, &policy(false));
    assert_eq!(first.items, 1);
    let second = ExpiredPairingCodesTarget.apply(&mut rows, NOW, &policy(false));
    assert_eq!(second.items, 0, "second apply must be a no-op");
}

#[test]
fn a_code_expires_after_its_last_second() {
    let rows = vec![code(1, NOW, false)];
    assert_eq!(ExpiredPairingCodesTarget.report(&rows, NOW, &policy(false)).items, 0);
    assert_eq!(ExpiredPairingCodesTarget.report(&rows, NOW + 1, &policy(false)).items, 1);
}

#[test]
fn stale_hints_report_counts_only_old_rows() {
    let rows = vec![hint(1, NOW - 100 * DAY), hint(2, NOW - 30 * DAY)];
    let report = StaleCompanionHintsTarget.report(&rows, NOW, &Policy::dry_run(86_400));
    assert_eq!(report.items, 1, "only the 100-day-old hint is stale");
    assert_eq!(report.category, Category::Db);
}

#[test]
fn stale_hints_apply_deletes_old_only() {
    let mut rows = vec![hint(1, NOW - 100 * DAY), hint(2, NOW - 30 * DAY)];
    let report = StaleCompanionHintsTarget.apply(&mut rows, NOW, &policy(false));
    assert_eq!(report.items, 1);
    assert_eq!(rows.len(), 1, "fresh hint survives");
    assert_eq!(rows[0].book_id, 2);
}

#[test]
fn stale_hints_force_deletes_everything() {
    let mut rows = vec![hint(1, NOW - 100), hint(2, NOW - 200)];
    let report = StaleCompanionHintsTarget.apply(&mut rows, NOW, &policy(true));
    assert_eq!(report.items, 2, "force drops both hints");
    assert!(rows.is_empty());
}

#[test]
fn stale_hints_apply_is_idempotent() {
    let mut rows = vec![hint(1, NOW - 100 * DAY)];
    let first = StaleCompanionHintsTarget.apply(&mut rows, NOW, &policy(false));
    assert_eq!(first.items, 1);
    let second = StaleCompanionHintsTarget.apply(&mut rows, NOW, &policy(false));
    assert_eq!(second.items, 0, "second apply must be a no-op");
}

#[test]
fn journal_report_drops_old_terminal_rows_only() {
    let rows = vec![
        entry(1, "done", NOW - 100 * DAY),
        entry(2, "failed", NOW - 100 * DAY),
        entry(3, "reversed", NOW - 100 * DAY),
        entry(4, "pending", NOW - 100 * DAY),
        entry(5, "done", NOW - 30 * DAY),
    ];
    let report = StaleOperationJournalTarget.report(&rows, NOW, &Policy::dry_run(86_400));
    assert_eq!(report.items, 3);
    assert_eq!(report.name, "stale-operation-journal");
}

#[test]
fn journal_apply_with_force_drops_every_terminal_row() {
    let mut rows = vec![
        entry(1, "done", NOW - 60),
        entry(2, "failed", NOW - 60),
        entry(3, "pending", NOW - 60),
    ];
    let report = StaleOperationJournalTarget.apply(&mut rows, NOW, &policy(true));
    assert_eq!(report.items, 2, "pending must survive even under force");
    assert_eq!(rows.len(), 1);
    assert_eq!(rows[0].op_id, 3);
}

#[test]
fn journal_apply_is_idempotent() {
    let mut rows = vec![entry(1, "done", NOW - 100 * DAY)];
    assert_eq!(StaleOperationJournalTarget.apply(&mut rows, NOW, &policy(false)).items, 1);
    assert_eq!(StaleOperationJournalTarget.apply(&mut rows, NOW, &policy(false)).items, 0);
}

#[test]
fn unknown_progress_is_not_read() {
    assert_eq!(Progress::parse("running"), None);
    assert_eq!(Progress::parse("pending"), Some(Progress::Pending));
}

#[test]
fn clocks_saturate() {
    assert_eq!(unix_now_secs(None), 0);
    assert_eq!(unix_now_secs(Some(5)), 5);
    assert_eq!(unix_now_secs(Some(u64::MAX)), i64::MAX);
    let rows = vec![hint(1, i64::MIN)];
    assert_eq!(StaleCompanionHintsTarget.report(&rows, i64::MIN, &policy(false)).items, 0);
}

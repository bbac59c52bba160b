use aborganizer::doctor::{
    CheckReport, CheckStatus, DoctorIndexEntry, DoctorRegistry, JournalCheck, LlmCheck, LlmStatus,
    SpeechCheck,
};
use aborganizer::error::ApiError;
use aborganizer::library_roots::{
    canonicalise_directory, library_roots_create, library_roots_delete, path_is_under_any_root,
    registered, requested_path, ExistingRoot, PathProbe, RootPlan,
};

#[test]
fn create_then_list_returns_row() {
    let probe = PathProbe::Directory { canonical: "/tmp/Audiobooks".to_owned() };
    let path = canonicalise_directory("/tmp/Audiobooks/", probe).expect("canonical");
    let plan = library_roots_create(path, Some("Local SSD"), None, 1_700).expect("plan");
    let (status, row) = registered(plan, 3);
    assert_eq!(status, 201);
    assert_eq!(row.label.as_deref(), Some("Local SSD"));
    assert!(row.path.ends_with("Audiobooks"));
    assert_eq!(row.root_id, 3);
    assert_eq!(row.created_at, 1_700);
}

#[test]
fn create_rejects_nonexistent_path() {
    let probe = PathProbe::Unresolved { reason: "No such file".to_owned() };
    let r = canonicalise_directory("/definitely/does/not/exist/123", probe);
    assert!(matches!(
        r,
        Err(ApiError::BadRequest(m))
            if m == "path does not exist or is not readable (/definitely/does/not/exist/123): No such file"
    ));
}

#[test]
fn create_rejects_file_not_directory() {
    let probe = PathProbe::NotADirectory { canonical: "/tmp/not-a-dir.txt".to_owned() };
    let r = canonicalise_directory("/tmp/not-a-dir.txt", probe);
    assert!(matches!(
        r,
        Err(ApiError::BadRequest(m)) if m == "path is not a directory: /tmp/not-a-dir.txt"
    ));
}

#[test]
fn create_rejects_what_cannot_be_read() {
    let probe = PathProbe::NoMetadata { canonical: "/x".to_owned(), reason: "denied".to_owned() };
    assert!(matches!(
        canonicalise_directory("/x", probe),
        Err(ApiError::BadRequest(m)) if m == "cannot stat canonical path /x: denied"
    ));
    let probe = PathProbe::NotText { canonical: "/y?".to_owned() };
    assert!(matches!(
        canonicalise_directory("/y", probe),
        Err(ApiError::BadRequest(m)) if m == "path is not valid UTF-8: /y?"
    ));
}

#[test]
fn create_rejects_empty_path() {
    let r = requested_path("   ");
    assert!(matches!(r, Err(ApiError::BadRequest(_))));
    assert_eq!(requested_path(" /a ").expect("path"), "/a");
}

#[test]
fn create_returns_conflict_on_duplicate_active() {
    let existing = ExistingRoot { root_id: 4, is_active: 1, created_at: 10 };
    let r2 = library_roots_create("/tmp/A".to_owned(), None, Some(existing), 20);
    assert!(
        matches!(&r2, Err(ApiError::Conflict(m))
            if m == "library root /tmp/A already exists (root_id=4)"),
        "got {r2:?}"
    );
}

#[test]
fn delete_then_recreate_revives_existing_row() {
    let existing = ExistingRoot { root_id: 4, is_active: 0, created_at: 10 };
    let plan =
        library_roots_create("/tmp/B".to_owned(), Some(" Renamed "), Some(existing), 20).expect("plan");
    assert!(matches!(plan, RootPlan::Revive(_)));
    let (status, revived) = registered(plan, 0);
    assert_eq!(status, 200, "revive returns 200, not 201");
    assert_eq!(revived.root_id, 4, "same row id — soft-deleted row was revived");
    assert_eq!(revived.label.as_deref(), Some("Renamed"));
    assert_eq!(revived.created_at, 10);
}

#[test]
fn delete_unknown_id_is_not_found() {
    let r = library_roots_delete(99_999, 0, false);
    assert!(matches!(r, Err(ApiError::NotFound(m)) if m == "library_root 99999"));
}

#[test]
fn delete_already_inactive_is_idempotent_204() {
    assert!(library_roots_delete(1, 1, true).is_ok());
    let r = library_roots_delete(1, 0, true);
    assert!(r.is_ok(), "second delete must be a no-op success");
}

#[test]
fn path_is_under_any_root_matches_subdir() {
    let roots = vec![None, Some("/tmp/Lib".to_owned())];
    assert!(path_is_under_any_root("/tmp/Lib/Sub", &roots), "subdir must be under registered root");
    assert!(path_is_under_any_root("/tmp/Lib", &roots));
    assert!(!path_is_under_any_root("/tmp/Other", &roots), "sibling dir must NOT match");
    assert!(!path_is_under_any_root("/tmp/Library", &roots), "no prefix tricks");
    assert!(!path_is_under_any_root("/tmp/Lib/Sub", &vec![]));
}

#[test]
fn journal_check_ok_when_no_pending_rows() {
    let report = JournalCheck.run(Ok(0));
    assert_eq!(report.status, CheckStatus::Healthy);
    assert_eq!(report.status.label(), "ok");
}

#[test]
fn journal_check_warns_when_pending_rows_present() {
    let report = JournalCheck.run(Ok(2));
    assert_eq!(report.status, CheckStatus::Warning);
    assert!(
        report.summary.contains('2'),
        "summary should mention 2 pending rows: {}",
        report.summary
    );
    assert_eq!(report.details.len(), 1);
    assert!(report.details[0].message.starts_with("2 operation_journal row(s)"));
}

#[test]
fn journal_check_fails_when_uncounted() {
    let report = JournalCheck.run(Err("locked".to_owned()));
    assert_eq!(report.status, CheckStatus::Failure);
    assert_eq!(report.details[0].message, "locked");
    assert_eq!(report.status.label(), "failure");
}

#[test]
fn llm_check_reports() {
    let s = |available: bool, reason: Option<&str>| {
        Ok(LlmStatus { available, reason: reason.map(str::to_owned) })
    };
    assert_eq!(LlmCheck.run(s(true, None)).summary, "Foundation Models available");
    let r = LlmCheck.run(s(false, None));
    assert_eq!(r.summary, "Foundation Models unavailable: unavailable");
    assert_eq!(r.status, CheckStatus::Warning);
    let r = LlmCheck.run(s(false, Some("NotEnabled")));
    assert_eq!(r.details[0].message, "NotEnabled");
    assert_eq!(LlmCheck.run(Err("x".to_owned())).status, CheckStatus::Failure);
}

#[test]
fn speech_check_reports() {
    assert_eq!(SpeechCheck.run(Ok("installed".to_owned())).status, CheckStatus::Healthy);
    let r = SpeechCheck.run(Ok("downloading".to_owned()));
    assert_eq!(r.summary, "SpeechAnalyzer en-US status: downloading");
    assert_eq!(r.status, CheckStatus::Warning);
    assert_eq!(SpeechCheck.run(Err("x".to_owned())).details.len(), 1);
}

#[test]
fn checks_are_registered_by_name() {
    let entry = |name: &'static str, description: &'static str| DoctorIndexEntry {
        name,
        description,
    };
    let reg = DoctorRegistry::new(vec![
        entry(LlmCheck.name(), LlmCheck.description()),
        entry(SpeechCheck.name(), SpeechCheck.description()),
        entry(JournalCheck.name(), JournalCheck.description()),
    ]);
    assert_eq!(reg.names(), vec!["llm", "speech", "journal"]);
    assert_eq!(reg.get("speech"), Some(1));
    assert_eq!(reg.doctor_one("journal").unwrap(), 2);
    assert!(matches!(
        reg.doctor_one("nope"),
        Err(ApiError::NotFound(m)) if m == "doctor check nope"
    ));
    assert_eq!(reg.doctor_index().checks.len(), 3);
    let all = reg.doctor_all(vec![
        CheckReport::ok("a".to_owned()),
        CheckReport::warn("b".to_owned()),
        CheckReport::fail("c".to_owned()),
    ]);
    assert_eq!(all.reports[1].name, "speech");
    assert_eq!(all.reports[1].report.summary, "b");
    assert_eq!(all.reports[2].report.status, CheckStatus::Failure);
}

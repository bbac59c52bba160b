use aborganizer::audiologo_import::{check_import, parsed_import};
use aborganizer::cli::{
    aax_status_line, audiologo_url, book_url, delete_url, duration_minutes, endpoint, gaps_url,
    log_level, names_url, patched_fields, plan_delete, plan_restore, plan_retry, redacted,
    request_failed, resolve_url, restore_message, restore_url, retry_url, review_url,
    unknown_stage, upcoming_url, version_drift, version_message, DeleteMode, StagesPayload,
    DEFAULT_DAEMON_URL,
};
use aborganizer::cli_output::{
    book_line, chapters_line, detail_line, file_line, plan_install, render_aax_info, render_clean, render_gaps,
    render_install, render_names_action, render_pending, render_resolved, render_speech,
    render_upcoming, stage_line, AaxInfo, BookCandidate, BookDetail, BookFileDetail, BookRow,
    ChapterCount, CleanReportRow, CleanRunResponse, GapsReport, InstallReport, InstallRequest,
    NamesActionResponse, PendingCandidate, PendingRow, ResolveResponse, SpeechLocale,
    SpeechReport, StageProgressRow, UpcomingReport,
};
use aborganizer::journal::JsonField;

fn strings(v: &[&str]) -> Vec<String> {
    v.iter().map(|s| (*s).to_owned()).collect()
}

#[test]
fn addresses() {
    let d = "http://h";
    assert_eq!(DEFAULT_DAEMON_URL, "http://127.0.0.1:8429");
    assert_eq!(endpoint(d, "books"), "http://h/api/v1/books");
    assert_eq!(book_url(d, 42), "http://h/api/v1/books/42");
    assert_eq!(retry_url(d, 42), "http://h/api/v1/books/42/retry");
    assert_eq!(restore_url(d, 42), "http://h/api/v1/books/42/restore");
    assert_eq!(audiologo_url(d, 42), "http://h/api/v1/books/42/audiologo");
    assert_eq!(review_url(d, 7, true), "http://h/api/v1/audiologos/7/approve");
    assert_eq!(review_url(d, 7, false), "http://h/api/v1/audiologos/7/reject");
    assert_eq!(names_url(d, "author", 7, false), "http://h/api/v1/names/author/7/alias");
    assert_eq!(names_url(d, "series", -7, true), "http://h/api/v1/names/series/-7/exalt");
    assert_eq!(resolve_url(d, 7), "http://h/api/v1/names/pending/7/resolve");
    assert_eq!(gaps_url(d, 7, None), "http://h/api/v1/report/gaps?author=7");
    assert_eq!(gaps_url(d, 7, Some(2)), "http://h/api/v1/report/gaps?author=7&max_pages=2");
    assert_eq!(upcoming_url(d, None, None, None), "http://h/api/v1/upcoming");
    assert_eq!(
        upcoming_url(d, Some(30), Some(5), Some(2)),
        "http://h/api/v1/upcoming?days=30&author=5&max_pages=2"
    );
    assert_eq!(upcoming_url(d, None, Some(5), None), "http://h/api/v1/upcoming?author=5");
}

#[test]
fn every_stage_stands_alone() {
    assert!(matches!(plan_retry(&strings(&["ALL"])), Ok(StagesPayload::Wildcard)));
    assert!(matches!(
        plan_retry(&strings(&["read-tags", "fingerprint"])),
        Ok(StagesPayload::List(v)) if v == strings(&["read-tags", "fingerprint"])
    ));
    assert_eq!(
        plan_retry(&strings(&["read-tags", "all"])).expect_err("mixed"),
        "--stage all must appear alone; got mixed list: [\"read-tags\", \"all\"]"
    );
    assert_eq!(unknown_stage("no such stage", &vec![]), "no such stage");
    assert_eq!(
        unknown_stage("no such stage", &strings(&["a", "b"])),
        "no such stage\nknown stages: a, b"
    );
}

#[test]
fn deleting_needs_to_be_told() {
    assert!(plan_delete(false, true).expect_err("refused").starts_with("refusing to delete"));
    assert_eq!(plan_delete(true, false), Ok(DeleteMode::Soft));
    assert_eq!(plan_delete(true, true), Ok(DeleteMode::Hard));
    assert_eq!(delete_url("", 1, DeleteMode::Hard), "/api/v1/books/1?force=true");
    assert_eq!(delete_url("", 1, DeleteMode::Soft), "/api/v1/books/1");
    assert_eq!(DeleteMode::Soft.label(), "soft");
    assert!(plan_restore(false).is_err());
    assert!(plan_restore(true).is_ok());
    assert_eq!(restore_message(true), "book.restored");
    assert_eq!(patched_fields(&vec![]), None);
    assert_eq!(patched_fields(&strings(&["a", "b"])).as_deref(), Some("a, b"));
}

#[test]
fn small_answers() {
    assert_eq!(request_failed("scan", "500", "x"), "scan failed: HTTP 500: x");
    assert_eq!(log_level(true, 2), "warn");
    assert_eq!(log_level(false, 0), "info");
    assert_eq!(log_level(false, 1), "debug");
    assert_eq!(log_level(false, 9), "trace");
    assert_eq!(duration_minutes(Some(119_999)), 1);
    assert_eq!(duration_minutes(Some(-119_999)), -1);
    assert_eq!(duration_minutes(None), 0);
    assert!(version_drift("1", "2"));
    assert_eq!(version_message("1", "2"), "⚠ version drift: CLI 1 vs daemon 2");
    assert_eq!(version_message("1", "1"), "CLI and daemon both at 1");
    assert_eq!(redacted(JsonField::Text("secret".to_owned())).as_str(), Some("<redacted>"));
    assert!(matches!(redacted(JsonField::Null), JsonField::Null));
    assert!(matches!(redacted(JsonField::Missing), JsonField::Missing));
    assert!(aax_status_line(Some("env")).contains("configured (via env)"));
    assert!(aax_status_line(None).contains("not configured"));
}

#[test]
fn cleanups_are_tabled() {
    let row = |name: &str, items: u64, bytes: u64| CleanReportRow {
        category: "db".to_owned(),
        name: name.to_owned(),
        items,
        bytes,
    };
    let mut body = CleanRunResponse {
        category: "db".to_owned(),
        commit: false,
        force: true,
        age_seconds: 172_799,
        targets: vec![row("stale-companion-hints", 3, 0), row("x", 4, 100)],
    };
    let expected = format!(
        "clean db dry-run ↦ (forced) — age cut-off 1 d, 2 target(s)\n  {:<24} {:>6} items {:>10} bytes\n  {:<24} {:>6} items {:>10} bytes\n  {:<24} {:>6} items {:>10} bytes\n\nrun with --commit to delete.\n",
        "stale-companion-hints", 3, 0, "x", 4, 100, "TOTAL", 7, 100
    );
    assert_eq!(render_clean(&body).expect("counted"), expected);
    body.commit = true;
    assert!(!render_clean(&body).expect("counted").contains("run with"));
    body.targets.push(row("y", u64::MAX, 0));
    assert!(render_clean(&body).is_none());
}

#[test]
fn names_are_printed() {
    let r = NamesActionResponse {
        kind: "authors".to_owned(),
        id: 5,
        inserted: Some(false),
        exalted: Some(true),
    };
    assert_eq!(
        render_names_action(&r),
        "authors 5: alias already present (no-op)\nauthors 5: exalted\n"
    );
    assert_eq!(render_pending(&vec![]), "no pending disambiguations\n");
    let rows = vec![PendingRow {
        pending_id: 1,
        kind: "author".to_owned(),
        book_id: 2,
        observed_alias: "B S".to_owned(),
        candidates: vec![PendingCandidate {
            id: 12,
            display: None,
            audible_id: Some("B0X".to_owned()),
            score: format!("{:.2}", 0.5_f64),
        }],
    }];
    assert_eq!(
        render_pending(&rows),
        format!(
            "pending #1 — author book 2 — observed `B S`\n  id {:>4}  score {:>4.2}  {}  {}\n1 pending row(s)\n",
            12, 0.5_f64, "?", "B0X"
        )
    );
    assert_eq!(
        render_resolved(&ResolveResponse {
            pending_id: 1,
            kind: "author".to_owned(),
            book_id: 2,
            resolved_id: 3
        }),
        "resolved #1 — author book 2 → author id 3\n"
    );
}

fn candidate() -> BookCandidate {
    BookCandidate {
        asin: "B0".to_owned(),
        title: "T".to_owned(),
        status: "gap".to_owned(),
        release_date: None,
        authors: strings(&["A", "B"]),
    }
}

#[test]
fn reports_are_printed() {
    let gaps = GapsReport {
        author_id: 1,
        author_name: "N".to_owned(),
        owned_count: 2,
        gap_count: 1,
        books: vec![candidate()],
    };
    assert_eq!(
        render_gaps(&gaps),
        "author #1 — N — 2 owned / 1 gap\n  [     gap] B0 — T ()\n"
    );
    let upcoming =
        UpcomingReport { days_window: 180, authors_checked: 4, books: vec![candidate()] };
    assert_eq!(
        render_upcoming(&upcoming),
        "180 day window — 4 authors checked — 1 upcoming\n  ? [gap]  T — A, B  (B0)\n"
    );
}

#[test]
fn speech_is_printed() {
    let mut r = SpeechReport { framework_available: true, locales: vec![] };
    assert!(render_speech(&r).starts_with("Apple Intelligence: available\n\nNo language"));
    r.locales.push(SpeechLocale {
        locale: "de".to_owned(),
        library_books: 3,
        blocked_books: 1,
        sdk_status: None,
        sdk_installed: false,
        idle_state: None,
        last_error: Some("oops".to_owned()),
    });
    let expected = format!(
        "Apple Intelligence: available\n\n{:<10} {:>5} {:>7} {:<14} {:<14}\n{}\n{:<10} {:>5} {:>7} {:<14} {:<14}\n  ↳ last error: oops\n\n1 locale(s) need install. Run:\n  aborg doctor install --all\nOr for one:\n  aborg doctor install --language de\n",
        "Locale", "Books", "Blocked", "SDK Status", "Idle State", "-".repeat(60), "de", 3, 1, "?", "—"
    );
    assert_eq!(render_speech(&r), expected);
    r.locales[0].sdk_installed = true;
    assert!(!render_speech(&r).contains("need install"));
}

#[test]
fn installations_are_planned_and_printed() {
    assert!(matches!(plan_install(None, true), Ok(InstallRequest::All)));
    assert!(matches!(
        plan_install(Some("de".to_owned()), false),
        Ok(InstallRequest::Locale(l)) if l == "de"
    ));
    assert_eq!(
        plan_install(None, false).expect_err("refused"),
        "specify --language <bcp47> or --all"
    );
    let mut r = InstallReport {
        installed: vec![],
        already_installed: strings(&["en"]),
        failed: vec![],
    };
    assert_eq!(render_install(&r), "Already installed (skipped): en\nNothing to do.\n");
    r.installed = strings(&["de", "fr"]);
    r.failed = vec![("it".to_owned(), "no net".to_owned())];
    assert_eq!(
        render_install(&r),
        "Installed: de, fr\nAlready installed (skipped): en\nFailed:\n  it: no net\n"
    );
}

#[test]
fn aax_files_are_printed() {
    let info = AaxInfo {
        codec_tag: Some("aavd".to_owned()),
        is_aax: true,
        duration_ms: Some(7_384_000),
        title: Some("T".to_owned()),
        author: None,
        narrator: None,
        album: None,
        genre: None,
        description: Some("D".to_owned()),
        copyright: None,
        chapter_count: 4,
    };
    assert_eq!(
        render_aax_info("/a.aax", &info),
        format!(
            "path:          /a.aax\ncodec_tag:     aavd (Audible AAX — decrypt needed)\nduration:      7384000 ms  (2h 3m)\n{:<14} T\n{:<14} D\nchapter_count: 4\n",
            "title", "description"
        )
    );
}

#[test]
fn books_are_printed() {
    let b = BookRow {
        book_id: 1,
        title: "T".to_owned(),
        file_path: None,
        author: Some("A".to_owned()),
        narrators: None,
        series: None,
    };
    assert_eq!(
        book_line(&b),
        "book book_id=1 title=T author=A narrators= series= file=<no file>"
    );
    let f = BookFileDetail {
        file_id: 2,
        file_path: "/p".to_owned(),
        duration_ms: None,
        file_size: Some(9),
        is_active: true,
    };
    assert_eq!(file_line(&f), "book.file file_id=2 path=/p duration_ms=0 file_size=9 is_active=true");
    let s = StageProgressRow {
        stage: "tag-read".to_owned(),
        status: "done".to_owned(),
        started_at: Some(5),
        completed_at: None,
        failure_reason: None,
    };
    assert_eq!(
        stage_line(&s),
        "book.stage stage=tag-read status=done started_at=5 completed_at=0 failure_reason="
    );
    let c = ChapterCount { source: "audnexus".to_owned(), count: 12 };
    assert_eq!(chapters_line(&c), "book.chapters source=audnexus count=12");
    let d = BookDetail {
        book_id: 1,
        title: "T".to_owned(),
        subtitle: None,
        language: Some("en".to_owned()),
        duration_ms: Some(120_000),
        asin: None,
        isbn: None,
        release_date: None,
        abridged: Some(true),
        explicit: None,
        audiologo_status: "none".to_owned(),
        author: None,
        narrators: None,
        publisher: None,
        series: None,
        has_summary: true,
        has_story_arc: false,
        has_setting: false,
        has_characters: false,
    };
    let line = detail_line(&d);
    assert!(line.starts_with("book.detail book_id=1 title=T subtitle= author="));
    assert!(line.contains(" language=en "));
    assert!(line.contains(" duration_min=2 abridged=true explicit=false "));
    assert!(line.ends_with(" has_characters=false"));
}

#[test]
fn exports_are_checked_before_they_are_imported() {
    let fault = check_import("/x.json", None).expect_err("missing");
    assert_eq!(fault.message, "import path does not exist: /x.json");
    assert_eq!(fault.cause, None);
    assert!(matches!(check_import("/x.json", Some(&b"[1, {}] ".to_vec())), Ok(8)));
    let fault = check_import("/x.json", Some(&b"nope".to_vec())).expect_err("no JSON");
    assert_eq!(fault.message, "parse JSON: /x.json");
    assert_eq!(fault.cause.as_deref(), Some("expected ident at line 1 column 2"));
    assert!(check_import("/x.json", Some(&vec![])).is_err());
    assert!(matches!(parsed_import("/x.json", 3, None), Ok(3)));
    let fault = parsed_import("/x.json", 3, Some("why".to_owned())).expect_err("fault");
    assert_eq!((fault.message.as_str(), fault.cause.as_deref()), ("parse JSON: /x.json", Some("why")));
}

use aborganizer::asin_learnings::{asin_learnings_list, AsinLearningRow, AsinLearningsListQuery};
use aborganizer::audiologo_apply::{
    shift_chapters_for_cut, ChapterSpan, FileSpan, ShiftArgs,
};
use aborganizer::audit::entry::{
    build_entry, empty_waveform_inline, is_skipped, DetectionInfo,
};
use aborganizer::audit::report::detection_state;
use aborganizer::audit::walk::SourceFile;
use aborganizer::collections::{
    books_collections, collections_list_response, finish_collections_create, inserted,
    plan_collections_books, plan_collections_create, plan_collections_list, BookCollectionEntry,
    CollectionCreateRequest, CollectionListItem, CollectionsListQuery,
};
use aborganizer::entity_books::{entity_books_response, EntityBookSummary, EntityBooksQuery};
use aborganizer::error::ApiError;
use aborganizer::journal::JournalClose;
use aborganizer::names::{
    alias_exalted, candidates_sql, identity_insert_sql, parent_lookup_sql, pending_list_sql,
    pending_load_sql, pending_resolved, pending_stamp_sql, pick_lookup_sql, plan_alias,
    prime_alias_insert_sql, AliasAddRequest, IdentityKind,
};
use aborganizer::narrators::{
    narrator_books_response, narrators_list_response, plan_narrators_books, plan_narrators_list,
    NarratorBookEntry, NarratorBooksQuery, NarratorListItem, NarratorsListQuery,
};
use aborganizer::operation_journal::{
    operation_journal_list, OperationJournalQuery, OperationJournalRow,
};
use aborganizer::pairing::{
    issue_code, pairing_consume, plan_issue, ConsumePairingCodeRequest, CreatePairingCodeRequest,
    StoredCode,
};
use aborganizer::rate_limit::RateLimiter;

#[test]
fn pages_answer_with_what_they_clamped() {
    let query = EntityBooksQuery { limit: Some(1000), offset: Some(-3) };
    let book = EntityBookSummary {
        book_id: 7,
        title: "T".to_owned(),
        release_date: None,
        duration_ms: Some(5),
        reading_status: "reading".to_owned(),
    };
    let r = entity_books_response(&query, vec![book], 41);
    assert_eq!((r.books.len(), r.total, r.limit, r.offset), (1, 41, 200, 0));
    assert_eq!(r.books[0].book_id, 7);

    assert_eq!(plan_collections_books(true, 3, &query).expect("exists"), (200, 0));
    match plan_collections_books(false, 3, &query) {
        Err(ApiError::NotFound(m)) => assert_eq!(m, "collection 3"),
        other => panic!("unexpected: {other:?}"),
    }

    let query = NarratorBooksQuery { limit: None, offset: Some(10) };
    let page = plan_narrators_books(true, 4, &query).expect("exists");
    assert_eq!(page, (50, 10));
    match plan_narrators_books(false, 4, &query) {
        Err(ApiError::NotFound(m)) => assert_eq!(m, "narrator 4"),
        other => panic!("unexpected: {other:?}"),
    }
    let entry = NarratorBookEntry {
        book_id: 9,
        title: "T".to_owned(),
        release_date: None,
        duration_ms: None,
        reading_status: "dnf".to_owned(),
    };
    let r = narrator_books_response(page, vec![entry], 1);
    assert_eq!((r.books[0].book_id, r.total, r.limit, r.offset), (9, 1, 50, 10));
}

#[test]
fn listings_answer_with_their_plan() {
    let plan = plan_collections_list(&CollectionsListQuery {
        limit: Some(5),
        offset: Some(6),
        sort: None,
        q: None,
        kind: None,
    })
    .expect("plan");
    let item = CollectionListItem {
        collection_id: 2,
        name: "N".to_owned(),
        canonical_name: None,
        audible_id: None,
        kind: None,
        book_count: 3,
    };
    let r = collections_list_response(&plan, vec![item], 8);
    assert_eq!((r.collections[0].collection_id, r.total, r.limit, r.offset), (2, 8, 5, 6));

    let plan = plan_narrators_list(&NarratorsListQuery {
        limit: Some(0),
        offset: None,
        sort: Some("book_count".to_owned()),
        q: None,
    })
    .expect("plan");
    let item = NarratorListItem {
        narrator_id: 2,
        name: "N".to_owned(),
        name_sort: None,
        audible_id: None,
        image_url: None,
        book_count: 3,
    };
    let r = narrators_list_response(&plan, vec![item], 8);
    assert_eq!((r.narrators[0].narrator_id, r.total, r.limit, r.offset), (2, 8, 1, 0));

    let query = AsinLearningsListQuery { limit: Some(7), offset: Some(1) };
    let row = AsinLearningRow {
        learning_id: 1,
        title_norm: "t".to_owned(),
        author_norm: "a".to_owned(),
        asin: "B0".to_owned(),
        source: "manual".to_owned(),
        learned_at: "2026".to_owned(),
    };
    let r = asin_learnings_list(&query, vec![row], 2);
    assert_eq!((r.rows[0].learning_id, r.total, r.limit, r.offset), (1, 2, 7, 1));

    let query = OperationJournalQuery {
        op_kind: None,
        progress: None,
        batch_id: None,
        limit: Some(3),
        offset: Some(4),
    };
    let row = OperationJournalRow {
        op_id: 1,
        op_kind: "k".to_owned(),
        target_kind: "book".to_owned(),
        target_id: 2,
        progress: "done".to_owned(),
        batch_id: None,
        created_at: 0,
        reversible: true,
        failed_reason: None,
        pre_state_json: "{}".to_owned(),
        post_state_json: None,
    };
    let r = operation_journal_list(&query, vec![row], 9);
    assert_eq!((r.rows[0].op_id, r.total, r.limit, r.offset), (1, 9, 3, 4));
}

#[test]
fn collections_of_a_book() {
    let entry = BookCollectionEntry {
        collection_id: 2,
        name: "N".to_owned(),
        canonical_name: None,
        kind: None,
        position: Some(1),
    };
    let r = books_collections(true, 1, vec![entry]).expect("exists");
    assert_eq!(r.collections[0].position, Some(1));
    match books_collections(false, 1, vec![]) {
        Err(ApiError::NotFound(m)) => assert_eq!(m, "book 1"),
        other => panic!("unexpected: {other:?}"),
    }
}

#[test]
fn an_unrecorded_creation_still_succeeds() {
    let columns = plan_collections_create(&CollectionCreateRequest {
        name: "Box".to_owned(),
        canonical_name: None,
        audible_id: None,
        description: None,
        kind: None,
    })
    .expect("columns");
    let entry = inserted(columns, Ok(12)).expect("inserted");
    let (close, response) = finish_collections_create(&entry, None);
    assert!(close.is_none());
    assert_eq!(response.collection_id, 12);
    let (close, response) = finish_collections_create(&entry, Some(5));
    assert_eq!(response.collection_id, 12);
    match close {
        Some(JournalClose::Done { op_id, row, key, value, context }) => {
            assert_eq!((op_id, row), (5, Some(("collection_id", 12))));
            assert_eq!((key, value.as_str()), ("name", "Box"));
            assert_eq!(context, "api.collections_create");
        }
        other => panic!("unexpected: {other:?}"),
    }
}

#[test]
fn statements_name_the_tables_of_a_kind() {
    let k = IdentityKind::Narrator;
    assert_eq!(parent_lookup_sql(k), "SELECT 1 FROM narrators WHERE narrator_id = ? LIMIT 1");
    assert_eq!(
        pending_list_sql(k),
        "SELECT pending_id, book_id, observed_alias, created_at FROM narrator_disambiguation_pending WHERE resolved_at IS NULL ORDER BY created_at"
    );
    assert_eq!(
        pending_load_sql(k),
        "SELECT book_id, observed_alias FROM narrator_disambiguation_pending WHERE pending_id = ? AND resolved_at IS NULL LIMIT 1"
    );
    assert_eq!(
        pick_lookup_sql(k),
        "SELECT 1 FROM narrator_disambiguation_candidate WHERE pending_id = ? AND narrator_id = ? LIMIT 1"
    );
    assert_eq!(
        identity_insert_sql(k),
        "INSERT INTO narrators (name, audible_id) VALUES (?, ?) RETURNING narrator_id"
    );
    assert_eq!(
        prime_alias_insert_sql(k),
        "INSERT INTO narrator_aliases (narrator_id, alias, source, is_prime) VALUES (?, ?, 'manual', 1)"
    );
    assert_eq!(
        pending_stamp_sql(k),
        "UPDATE narrator_disambiguation_pending SET resolved_at = strftime('%s','now'), resolved_narrator_id = ? WHERE pending_id = ?"
    );
    assert_eq!(
        candidates_sql(k),
        "SELECT c.narrator_id, c.score, COALESCE( (SELECT alias FROM narrator_aliases ja WHERE ja.narrator_id = c.narrator_id AND ja.is_prime = 1 LIMIT 1), (SELECT name FROM narrators p WHERE p.narrator_id = c.narrator_id)), (SELECT audible_id FROM narrators p WHERE p.narrator_id = c.narrator_id) FROM narrator_disambiguation_candidate c WHERE c.pending_id = ? ORDER BY c.score DESC, c.narrator_id"
    );
}

#[test]
fn names_answer_with_their_table() {
    let plan =
        plan_alias("author", 3, &AliasAddRequest { alias: " A. N. Other ".to_owned() })
            .expect("plan");
    assert_eq!(plan.alias, "A. N. Other");
    let r = alias_exalted(&plan, true);
    assert_eq!((r.kind, r.id, r.inserted, r.exalted), ("authors", 3, None, Some(true)));
    let r = pending_resolved(1, IdentityKind::Series, 2, 3);
    assert_eq!((r.pending_id, r.kind, r.book_id, r.resolved_id), (1, "series", 2, 3));
}

fn request(code: &str) -> ConsumePairingCodeRequest {
    ConsumePairingCodeRequest { code: code.to_owned(), device_label: None }
}

#[test]
fn guessing_uses_up_the_budget() {
    let asked = CreatePairingCodeRequest {
        device_label: "X".to_owned(),
        scopes: vec![],
        expires_in_minutes: None,
    };
    let issued = issue_code(plan_issue(&asked).expect("plan"), &asked.scopes, 0).expect("issued");
    let rows = vec![StoredCode {
        code_id: 1,
        code_hash: issued.code_hash.clone(),
        device_label: issued.device_label.clone(),
        scopes_json: issued.scopes_json.clone(),
        issued_at: issued.issued_at,
        expires_at: issued.expires_at,
        consumed_token_id: None,
    }];
    let mut limiter = RateLimiter::new(2, 60);

    // A hit and a blank code cost nothing.
    assert_eq!(pairing_consume(&mut limiter, &rows, &request(&issued.code), 0, 100).ok(), Some(0));
    assert!(matches!(
        pairing_consume(&mut limiter, &rows, &request("  "), 0, 100),
        Err(ApiError::BadRequest(_))
    ));
    assert!(limiter.failures.is_empty());

    for clock in [100, 101] {
        assert!(matches!(
            pairing_consume(&mut limiter, &rows, &request("WRON-GONE"), 0, clock),
            Err(ApiError::NotFound(_))
        ));
    }
    assert_eq!(limiter.failures, vec![100, 101]);

    // From now on even the right code is held back, until the window passes.
    match pairing_consume(&mut limiter, &rows, &request(&issued.code), 0, 102) {
        Err(ApiError::RateLimited { retry_after_secs }) => assert_eq!(retry_after_secs, 58),
        other => panic!("unexpected: {other:?}"),
    }
    assert_eq!(limiter.failures, vec![100, 101]);
    assert_eq!(pairing_consume(&mut limiter, &rows, &request(&issued.code), 0, 160).ok(), Some(0));
    assert_eq!(limiter.failures, vec![101]);
}

#[test]
fn contiguous_chapters_stay_contiguous() {
    let chapter = |chapter_id: i64, start_ms: i64, end_ms: i64| ChapterSpan {
        chapter_id,
        start_ms,
        end_ms,
    };
    let mut chapters = vec![chapter(1, 0, 10_000), chapter(2, 10_000, 30_000)];
    let files = vec![FileSpan { file_id: 1, duration_ms: Some(30_000) }];
    let args = ShiftArgs {
        book_id: 1,
        file_id: 1,
        jingle_start_ms: 0,
        jingle_end_ms: 4_000,
        cut_ms: 4_000,
    };
    let shifted = shift_chapters_for_cut(&mut chapters, &files, &vec![], args).expect("shifted");
    assert_eq!(shifted, 2);
    assert_eq!((chapters[0].start_ms, chapters[0].end_ms), (0, 6_000));
    assert_eq!((chapters[1].start_ms, chapters[1].end_ms), (6_000, 26_000));
}

#[test]
fn entries_carry_their_source() {
    let src = SourceFile {
        path: "/c/a.m4b".to_owned(),
        extension: "m4b".to_owned(),
        title: "A".to_owned(),
        duration_ms: 90_000,
        publisher: Some("P".to_owned()),
        copyright: None,
    };
    assert!(!is_skipped(&src));
    let e = build_entry(
        &src,
        "a".to_owned(),
        DetectionInfo::Stub,
        "<svg/>".to_owned(),
        empty_waveform_inline(),
    );
    assert_eq!((e.slug.as_str(), e.title.as_str()), ("a", "A"));
    assert_eq!((e.source_path.as_str(), e.duration_ms), ("/c/a.m4b", 90_000));
    assert_eq!(e.publisher.as_deref(), Some("P"));
    assert_eq!(e.front_clip_rel, "clips/a-front.m4a");
    assert_eq!(e.end_clip_rel, "clips/a-end.m4a");
    assert_eq!(e.front_waveform_svg, "<svg/>");
    assert!(e.end_waveform_svg.contains("waveform render failed"));
    assert_eq!(detection_state(&e.detection), "stub");
    assert_eq!(detection_state(&DetectionInfo::NoCandidate), "no_candidate");
    assert_eq!(
        detection_state(&DetectionInfo::SeedMatch { front: None, end: None }),
        "seed_match"
    );
}

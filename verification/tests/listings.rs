use aborganizer::asin_learnings::asin_learnings_delete;
use aborganizer::authors::authors_get;
use aborganizer::background::{find_task, run_ack};
use aborganizer::collections::{
    self, collapse_blank_to_none, collections_get, inserted, list_sql, patch_entry,
    plan_collections_create, plan_collections_list, plan_collections_patch, write_error,
    finish_collections_patch, CollectionCreateRequest, CollectionPatchRequest,
    CollectionsListQuery, CollectionsSort, OP_KIND_COLLECTION_CREATE, OP_KIND_COLLECTION_NAME_SET,
};
use aborganizer::error::{database_error, ApiError, CoreError};
use aborganizer::journal::{JournalClose, JsonField};
use aborganizer::like::like_filter;
use aborganizer::names::{
    alias_added, alias_insert_sql, alias_write, attach_sql, ensure_parent_exists, identity_write,
    move_prime, parse_kind, pending_load, pick_lookup, plan_alias, plan_resolve, prime_write,
    require_pending, resolution_writes, verify_pick, AliasAddRequest, AliasRow, Bind, CreateNew,
    IdentityKind, PendingResolveRequest, Resolution, Statement,
};
use aborganizer::narrators::{
    self, narrators_get, plan_narrators_list, NarratorsListQuery, NarratorsSort,
};
use aborganizer::operation_journal::{
    reversible_flag, row_matches, OperationJournalQuery, OperationJournalRow,
};
use aborganizer::pagination::{clamp_limit, clamp_offset, DEFAULT_LIMIT, MAX_LIMIT};

#[test]
fn collections_sort_parses_documented_keys() {
    assert_eq!(CollectionsSort::parse(None).unwrap(), CollectionsSort::Name);
    assert_eq!(CollectionsSort::parse(Some("")).unwrap(), CollectionsSort::Name);
    assert_eq!(CollectionsSort::parse(Some("name")).unwrap(), CollectionsSort::Name);
    assert_eq!(CollectionsSort::parse(Some("book_count")).unwrap(), CollectionsSort::BookCountDesc);
}

#[test]
fn collections_sort_rejects_unknown_with_400() {
    match CollectionsSort::parse(Some("kind")) {
        Err(ApiError::BadRequest(msg)) => {
            assert!(msg.contains("kind"));
            assert!(msg.contains("book_count"));
        }
        other => panic!("unexpected: {other:?}"),
    }
}

#[test]
fn narrators_sort_parses_documented_keys() {
    assert_eq!(NarratorsSort::parse(None).unwrap(), NarratorsSort::Name);
    assert_eq!(
        NarratorsSort::parse(Some("")).unwrap(),
        NarratorsSort::Name,
        "empty string treated as default"
    );
    assert_eq!(NarratorsSort::parse(Some("name")).unwrap(), NarratorsSort::Name);
    assert_eq!(NarratorsSort::parse(Some("name_sort")).unwrap(), NarratorsSort::NameSort);
    assert_eq!(NarratorsSort::parse(Some("book_count")).unwrap(), NarratorsSort::BookCountDesc);
}

#[test]
fn narrators_sort_rejects_unknown_with_400() {
    match NarratorsSort::parse(Some("created_at")) {
        Err(ApiError::BadRequest(msg)) => {
            assert!(msg.contains("created_at"));
            assert!(msg.contains("book_count"));
        }
        other => panic!("unexpected: {other:?}"),
    }
}

#[test]
fn clamp_limit_respects_bounds() {
    assert_eq!(clamp_limit(None), DEFAULT_LIMIT);
    assert_eq!(clamp_limit(Some(0)), 1);
    assert_eq!(clamp_limit(Some(-5)), 1);
    assert_eq!(clamp_limit(Some(MAX_LIMIT)), MAX_LIMIT);
    assert_eq!(clamp_limit(Some(MAX_LIMIT + 100)), MAX_LIMIT);
    assert_eq!(clamp_limit(Some(75)), 75);
    assert_eq!(clamp_limit(Some(i64::MAX)), MAX_LIMIT);
}

#[test]
fn clamp_offset_respects_bounds() {
    assert_eq!(clamp_offset(None), 0);
    assert_eq!(clamp_offset(Some(-1)), 0);
    assert_eq!(clamp_offset(Some(i64::MIN)), 0);
    assert_eq!(clamp_offset(Some(0)), 0);
    assert_eq!(clamp_offset(Some(250)), 250);
}

#[test]
fn collection_listing_is_planned() {
    let q = CollectionsListQuery {
        limit: Some(9_999),
        offset: Some(-3),
        sort: Some("book_count".to_owned()),
        q: Some("  box ".to_owned()),
        kind: Some("  ".to_owned()),
    };
    let p = plan_collections_list(&q).expect("plan");
    assert_eq!(p.limit, MAX_LIMIT);
    assert_eq!(p.offset, 0);
    assert_eq!(p.q_filter.as_deref(), Some("%box%"));
    assert_eq!(p.kind_filter, None);
    assert_eq!(like_filter(Some(" ")), None);
    assert!(list_sql(CollectionsSort::Name).contains("ORDER BY c.name COLLATE NOCASE LIMIT ?3"));
    assert!(list_sql(CollectionsSort::BookCountDesc).contains(" DESC, c.name COLLATE NOCASE LIMIT"));
}

#[test]
fn narrator_listing_is_planned() {
    let q = NarratorsListQuery {
        limit: None,
        offset: None,
        sort: Some("bogus".to_owned()),
        q: None,
    };
    assert!(matches!(plan_narrators_list(&q), Err(ApiError::BadRequest(_))));
}

#[test]
fn missing_rows_are_not_found() {
    assert!(matches!(
        collections_get(4, None),
        Err(ApiError::NotFound(m)) if m == "collection 4"
    ));
    assert!(matches!(narrators_get(4, None), Err(ApiError::NotFound(m)) if m == "narrator 4"));
    assert!(matches!(authors_get(4, None), Err(ApiError::NotFound(m)) if m == "author 4"));
    assert!(!asin_learnings_delete(4, 0).deleted);
    assert!(asin_learnings_delete(4, 1).deleted);
}

fn create(name: &str) -> CollectionCreateRequest {
    CollectionCreateRequest {
        name: name.to_owned(),
        canonical_name: Some("  c ".to_owned()),
        audible_id: Some(String::new()),
        description: None,
        kind: Some("box_set".to_owned()),
    }
}

#[test]
fn collections_are_created_with_a_trimmed_name() {
    let c = plan_collections_create(&create("  The Set ")).expect("plan");
    assert_eq!(c.name, "The Set");
    assert_eq!(c.canonical_name.as_deref(), Some("  c "), "the rest is stored as it came");
    assert_eq!(c.audible_id.as_deref(), Some(""));
    assert_eq!(c.description, None);
    assert_eq!(c.kind.as_deref(), Some("box_set"));
    let e = inserted(c, Ok(12)).expect("entry");
    assert_eq!(e.op_kind, OP_KIND_COLLECTION_CREATE);
    assert_eq!(e.target_id, 12);
    assert!(matches!(plan_collections_create(&create(" \t")), Err(ApiError::BadRequest(_))));
}

#[test]
fn duplicate_names_are_conflicts() {
    let e = write_error("collections_create insert", "UNIQUE constraint failed: book_collections.name");
    assert!(matches!(e, ApiError::Conflict(_)), "{e:?}");
    let e = write_error("collections_create insert", "disk I/O error");
    assert!(matches!(e, ApiError::Internal(CoreError::Database(_))), "{e:?}");
}

#[test]
fn collections_are_patched_and_journalled() {
    let req = CollectionPatchRequest {
        name: Some(" New ".to_owned()),
        canonical_name: None,
        audible_id: Some("  ".to_owned()),
        description: None,
        kind: None,
    };
    let plan = plan_collections_patch(3, true, &req).expect("plan");
    assert_eq!(plan.new_name.as_deref(), Some("New"));
    let entry = patch_entry(&plan, "Old").expect("entry");
    assert_eq!(entry.op_kind, OP_KIND_COLLECTION_NAME_SET);
    assert_eq!(entry.current, "Old");
    assert_eq!(entry.intent, "New");
    let end = finish_collections_patch(&plan, Some(77), &Ok(()));
    assert!(matches!(end.close, Some(JournalClose::Done { op_id: 77, .. })));
    assert_eq!(end.response.expect("ok").updated, vec!["name", "audible_id"]);
    let end = finish_collections_patch(&plan, Some(77), &Err("boom".to_owned()));
    assert!(matches!(end.close, Some(JournalClose::Failed { op_id: 77, .. })));
    assert!(end.response.is_err());
    let nothing = CollectionPatchRequest {
        name: None,
        canonical_name: None,
        audible_id: None,
        description: None,
        kind: None,
    };
    assert!(matches!(plan_collections_patch(3, true, &nothing), Err(ApiError::BadRequest(_))));
    assert_eq!(collapse_blank_to_none("  "), None);
    assert_eq!(collapse_blank_to_none(" x "), Some("x".to_owned()));
}

fn alias(alias_id: i64, spelling: &str, is_prime: bool) -> AliasRow {
    AliasRow { alias_id, alias: spelling.to_owned(), is_prime }
}

#[test]
fn one_spelling_is_prime_after_a_move() {
    let rows = vec![alias(1, "B. Sanderson", true), alias(2, "Brandon Sanderson", false)];
    let m = move_prime(&rows, IdentityKind::Author, 7, "brandon sanderson").expect("move");
    assert!(m.exalted);
    assert_eq!(m.demote, vec![1]);
    assert_eq!(m.promote, vec![2]);
    let m = move_prime(&rows, IdentityKind::Author, 7, "b. sanderson").expect("move");
    assert!(!m.exalted);
    assert!(m.demote.is_empty() && m.promote.is_empty());
    match move_prime(&rows, IdentityKind::Author, 7, "nobody") {
        Err(ApiError::NotFound(msg)) => assert_eq!(
            msg,
            "alias `nobody` not found on authors 7 — add it first via POST .../alias"
        ),
        other => panic!("unexpected: {other:?}"),
    }
}

#[test]
fn kinds_and_aliases_are_checked() {
    assert_eq!(parse_kind("series").unwrap(), IdentityKind::Series);
    assert!(matches!(parse_kind("Author"), Err(ApiError::BadRequest(_))));
    let req = AliasAddRequest { alias: "  A  ".to_owned() };
    let plan = plan_alias("narrator", 5, &req).expect("plan");
    assert_eq!(plan.alias, "A");
    let r = alias_added(&plan, 0);
    assert_eq!(r.kind, "narrators");
    assert_eq!(r.inserted, Some(false));
    let blank = AliasAddRequest { alias: " ".to_owned() };
    assert!(matches!(plan_alias("narrator", 5, &blank), Err(ApiError::BadRequest(_))));
    assert!(ensure_parent_exists(false, IdentityKind::Series, 1).is_err());
    assert_eq!(
        alias_insert_sql(IdentityKind::Series),
        "INSERT OR IGNORE INTO series_aliases (series_id, alias, source, is_prime) VALUES (?, ?, 'manual', 0)"
    );
    assert!(attach_sql(IdentityKind::Author).contains("?"));
}

#[test]
fn open_names_are_resolved_one_way() {
    let req = |pick: Option<i64>, new: Option<&str>| PendingResolveRequest {
        kind: "author".to_owned(),
        pick,
        create_new: new.map(|n| CreateNew { name: n.to_owned(), audible_id: None }),
    };
    assert!(matches!(
        plan_resolve(req(Some(3), None)),
        Ok((IdentityKind::Author, Resolution::Pick(3)))
    ));
    assert!(matches!(
        plan_resolve(req(None, Some("N"))),
        Ok((IdentityKind::Author, Resolution::Create(_)))
    ));
    assert!(matches!(plan_resolve(req(None, None)), Err(ApiError::BadRequest(_))));
    assert!(matches!(plan_resolve(req(Some(1), Some("N"))), Err(ApiError::BadRequest(_))));
    assert!(require_pending(9, None).is_err());
    assert!(verify_pick(false, 9, 3).is_err());
    assert!(verify_pick(true, 9, 3).is_ok());
}

#[test]
fn journal_rows_are_filtered() {
    let row = OperationJournalRow {
        op_id: 1,
        op_kind: "tag-write-final".into(),
        target_kind: "book".into(),
        target_id: 42,
        progress: "done".into(),
        batch_id: Some("01HXYZ".into()),
        created_at: 1_700_000_000,
        reversible: true,
        failed_reason: None,
        pre_state_json: "{}".into(),
        post_state_json: Some("{}".into()),
    };
    let query = |op: Option<&str>, progress: Option<&str>, batch: Option<&str>| {
        OperationJournalQuery {
            op_kind: op.map(str::to_owned),
            progress: progress.map(str::to_owned),
            batch_id: batch.map(str::to_owned),
            limit: None,
            offset: None,
        }
    };
    assert!(row_matches(&row, &query(None, None, None)));
    assert!(row_matches(&row, &query(Some("tag-write-final"), Some("done"), Some("01HXYZ"))));
    assert!(!row_matches(&row, &query(Some("other"), None, None)));
    assert!(!row_matches(&row, &query(None, Some("pending"), None)));
    assert!(!row_matches(&row, &query(None, None, Some("x"))));
    assert!(reversible_flag(1));
    assert!(!reversible_flag(0));
}

#[test]
fn background_tasks_are_found_by_name() {
    let tasks = vec!["scan".to_owned(), "cleanup".to_owned()];
    assert_eq!(find_task(&tasks, "cleanup").unwrap(), 1);
    assert!(matches!(find_task(&tasks, "nope"), Err(ApiError::NotFound(_))));
    assert!(run_ack("scan".to_owned()).triggered);
}

#[test]
fn errors_become_problem_documents() {
    let cases = [
        (ApiError::Unauthorized, 401, "unauthorized"),
        (ApiError::Forbidden, 403, "forbidden"),
        (ApiError::NotFound("book 1".into()), 404, "not found: book 1"),
        (ApiError::BadRequest("x".into()), 400, "bad request: x"),
        (ApiError::Conflict("y".into()), 409, "conflict: y"),
        (
            ApiError::RateLimited { retry_after_secs: 12 },
            429,
            "too many requests: retry after 12s",
        ),
        (database_error("ctx", "why"), 500, "internal: ctx: why"),
        (ApiError::Internal(CoreError::Invariant("broken".into())), 500, "internal: broken"),
    ];
    for (e, status, detail) in cases {
        let p = e.to_problem();
        assert_eq!(p.status, status);
        assert_eq!(p.detail, detail);
        assert_eq!(e.retry_after().is_some(), status == 429);
    }
}

#[test]
fn wildcards_in_a_filter_are_letters() {
    assert_eq!(like_filter(Some(" 100% ")).as_deref(), Some("%100\\%%"));
    assert_eq!(like_filter(Some("a_b")).as_deref(), Some("%a\\_b%"));
    assert_eq!(like_filter(Some("a\\b")).as_deref(), Some("%a\\\\b%"));
    assert_eq!(like_filter(None), None);
    for sql in [
        list_sql(CollectionsSort::Name),
        narrators::list_sql(NarratorsSort::Name),
        collections::count_sql().to_owned(),
        narrators::count_sql().to_owned(),
    ] {
        assert!(sql.contains("LIKE ?1 ESCAPE '\\'"), "{sql}");
    }
}

#[test]
fn counts_select_what_the_listings_select() {
    assert_eq!(
        collections::count_sql(),
        "SELECT COUNT(*) FROM book_collections WHERE (?1 IS NULL OR name LIKE ?1 ESCAPE '\\') \
         AND (?2 IS NULL OR kind = ?2)"
    );
    assert_eq!(
        narrators::count_sql(),
        "SELECT COUNT(*) FROM narrators WHERE ?1 IS NULL OR name LIKE ?1 ESCAPE '\\'"
    );
}

fn ids(s: &Statement) -> Vec<i64> {
    s.binds.iter().filter_map(|b| if let Bind::Id(n) = b { Some(*n) } else { None }).collect()
}

fn texts(s: &Statement) -> Vec<&str> {
    s.binds.iter().filter_map(|b| if let Bind::Text(t) = b { Some(t.as_str()) } else { None }).collect()
}

#[test]
fn a_resolution_writes_alias_link_and_stamp() {
    let w = resolution_writes(IdentityKind::Narrator, 7, 3, "J. Doe", 12);
    assert_eq!(w.len(), 3);
    assert!(w[0].sql.starts_with("INSERT OR IGNORE INTO "));
    assert_eq!(w[0].sql, alias_insert_sql(IdentityKind::Narrator));
    assert_eq!((ids(&w[0]), texts(&w[0])), (vec![12], vec!["J. Doe"]));
    assert_eq!(w[1].sql, attach_sql(IdentityKind::Narrator));
    assert_eq!(ids(&w[1]), vec![3, 12], "the book, then the identity");
    assert!(w[2].sql.ends_with(" = ? WHERE pending_id = ?"));
    assert_eq!(ids(&w[2]), vec![12, 7], "the identity, then the pending row");
}

#[test]
fn resolution_statements_bind_their_values() {
    let new = CreateNew { name: "Ann".to_owned(), audible_id: None };
    let s = identity_write(IdentityKind::Author, &new);
    assert_eq!(s.sql, "INSERT INTO authors (name, audible_id) VALUES (?, ?) RETURNING author_id");
    assert_eq!(texts(&s), vec!["Ann"]);
    assert!(matches!(s.binds[1], Bind::Null));
    let known = CreateNew { name: "Ann".to_owned(), audible_id: Some("B0".to_owned()) };
    assert_eq!(texts(&identity_write(IdentityKind::Author, &known)), vec!["Ann", "B0"]);
    let p = prime_write(IdentityKind::Author, 4, &new);
    assert!(p.sql.ends_with("VALUES (?, ?, 'manual', 1)"));
    assert_eq!((ids(&p), texts(&p)), (vec![4], vec!["Ann"]));
    let a = alias_write(IdentityKind::Author, 4, "Annie");
    assert!(a.sql.ends_with("VALUES (?, ?, 'manual', 0)"));
    assert_eq!((ids(&a), texts(&a)), (vec![4], vec!["Annie"]));
    let l = pending_load(IdentityKind::Series, 9);
    assert!(l.sql.ends_with("WHERE pending_id = ? AND resolved_at IS NULL LIMIT 1"));
    assert_eq!(ids(&l), vec![9]);
    assert_eq!(ids(&pick_lookup(IdentityKind::Series, 9, 2)), vec![9, 2]);
}

#[test]
fn errors_are_problem_documents() {
    let errors = [
        ApiError::Unauthorized,
        ApiError::Forbidden,
        ApiError::NotFound("x".to_owned()),
        ApiError::RateLimited { retry_after_secs: 3 },
    ];
    for e in &errors {
        assert_eq!(e.content_type(), "application/problem+json");
    }
}

#[test]
fn json_strings_are_escaped() {
    let shown = |s: &str| JsonField::Text(s.to_owned()).show();
    assert_eq!(shown("plain ü/"), "\"plain ü/\"");
    assert_eq!(shown("a\"b\\"), "\"a\\\"b\\\\\"");
    assert_eq!(shown("\u{8}\t\n\u{c}\r"), "\"\\b\\t\\n\\f\\r\"");
    assert_eq!(shown("\u{0}\u{1f}\u{7f}"), "\"\\u0000\\u001f\u{7f}\"");
}

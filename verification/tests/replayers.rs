use aborganizer::collections::OP_KIND_COLLECTION_CREATE;
use aborganizer::journal::JsonField;
use aborganizer::journal_replayers::{
    finish_replay, parse_notes, parse_rating, parse_status, rating_field, text_field,
    ApplyFailure, CollectionCreateReplayer, CollectionIntent, CollectionStep, JournalError,
    NotesReplayer, ParsedRating, RatingReplayer, ReadingStatus, ReplayDecision, ReplayStep,
    StatusReplayer, TitleReplayer, OP_KIND_BOOK_NOTES_SET, OP_KIND_BOOK_RATING_SET,
    OP_KIND_BOOK_STATUS_SET, OP_KIND_BOOK_TITLE_SET,
};

fn text(s: &str) -> JsonField {
    JsonField::Text(s.to_owned())
}

fn skipped<T: std::fmt::Debug>(step: ReplayStep<T>) -> String {
    match step {
        ReplayStep::Skipped(reason) => reason,
        other => panic!("expected Skipped, got {other:?}"),
    }
}

fn applied<T: std::fmt::Debug>(step: ReplayStep<T>) -> T {
    match step {
        ReplayStep::Apply(v) => v,
        other => panic!("expected Apply, got {other:?}"),
    }
}

fn status(row: Option<&str>) -> ReplayStep<String> {
    StatusReplayer.try_replay(7, &text("reading"), &text("want_to_read"), row)
}

#[test]
fn op_kind_matches_capture_constant() {
    assert_eq!(StatusReplayer.op_kind(), "book-status-set");
    assert_eq!(StatusReplayer.op_kind(), OP_KIND_BOOK_STATUS_SET);
}

#[test]
fn retries_when_no_drift() {
    let v = applied(status(Some("want_to_read")));
    assert_eq!(v, "reading");
    match finish_replay(7, "set_status replay", Ok(()), text_field("reading_status", Some(v))) {
        Ok(ReplayDecision::Retried(post)) => {
            assert_eq!(post.len(), 1);
            assert_eq!(post[0].key, "reading_status");
            assert_eq!(post[0].value.as_str(), Some("reading"));
        }
        other => panic!("expected Retried, got {other:?}"),
    }
}

#[test]
fn skips_when_already_applied() {
    let reason = skipped(status(Some("reading")));
    assert!(reason.contains("already applied"), "reason: {reason}");
    assert_eq!(reason, "already applied — reading_status is already \"reading\"");
}

#[test]
fn skips_when_book_deleted() {
    let step = StatusReplayer.try_replay(9999, &text("reading"), &text("want_to_read"), None);
    let reason = skipped(step);
    assert!(reason.contains("no longer exists"), "reason: {reason}");
    assert_eq!(reason, "book 9999 no longer exists");
}

#[test]
fn skips_on_drift() {
    let reason = skipped(status(Some("dnf")));
    assert!(reason.contains("drift"), "reason: {reason}");
    assert!(reason.contains("dnf"), "reason should mention current: {reason}");
    assert!(
        reason.contains("want_to_read"),
        "reason should mention recorded pre-state: {reason}"
    );
    assert_eq!(
        reason,
        "drift detected — current reading_status is \"dnf\", expected \"want_to_read\" (someone else changed it)"
    );
}

#[test]
fn skips_on_malformed_pre_state() {
    let reason = skipped(StatusReplayer.try_replay(
        7,
        &JsonField::Missing,
        &text("want_to_read"),
        Some("want_to_read"),
    ));
    assert!(reason.contains("intent"));
    let reason = skipped(StatusReplayer.try_replay(
        7,
        &text("bogus"),
        &text("want_to_read"),
        Some("want_to_read"),
    ));
    assert!(reason.contains("bogus"));
    assert_eq!(
        StatusReplayer.refusal(&text("reading"), &JsonField::Null).as_deref(),
        Some("pre_state missing 'current' field — cannot detect drift")
    );
}

#[test]
fn statuses_are_parsed() {
    for s in
        [ReadingStatus::WantToRead, ReadingStatus::Reading, ReadingStatus::Finished, ReadingStatus::Dnf]
    {
        assert_eq!(parse_status(s.as_str()), Some(s));
    }
    assert_eq!(parse_status("Reading"), None);
}

#[test]
fn rating_op_kind_matches_capture_constant() {
    assert_eq!(RatingReplayer.op_kind(), "book-rating-set");
    assert_eq!(RatingReplayer.op_kind(), OP_KIND_BOOK_RATING_SET);
}

#[test]
fn rating_retries_when_no_drift_setting_value() {
    let v = applied(RatingReplayer.try_replay(
        7,
        &JsonField::Int(4),
        &JsonField::Null,
        Some(None),
    ));
    assert_eq!(v, Some(4));
    let f = rating_field(v);
    assert_eq!(f.key, "rating");
    assert_eq!(f.value.show(), "4");
}

#[test]
fn rating_retries_when_clearing_to_null() {
    let v = applied(RatingReplayer.try_replay(
        7,
        &JsonField::Null,
        &JsonField::Int(3),
        Some(Some(3)),
    ));
    assert_eq!(v, None);
    assert_eq!(rating_field(v).value.show(), "null");
}

#[test]
fn rating_skips_when_already_applied() {
    let r = skipped(RatingReplayer.try_replay(
        7,
        &JsonField::Int(4),
        &JsonField::Null,
        Some(Some(4)),
    ));
    assert!(r.contains("already applied"), "reason: {r}");
    assert_eq!(r, "already applied — rating is already 4");
}

#[test]
fn rating_skips_on_drift() {
    let r = skipped(RatingReplayer.try_replay(
        7,
        &JsonField::Int(4),
        &JsonField::Null,
        Some(Some(2)),
    ));
    assert!(r.contains("drift"), "reason: {r}");
    assert_eq!(
        r,
        "drift detected — current rating is Some(2), expected None (someone else changed it)"
    );
}

#[test]
fn rating_skips_on_out_of_range_intent() {
    let r = skipped(RatingReplayer.try_replay(
        7,
        &JsonField::Int(9),
        &JsonField::Null,
        Some(None),
    ));
    assert!(r.contains("not a valid rating"), "reason: {r}");
    assert_eq!(r, "pre_state.intent=9 is not a valid rating (null or 1..=5)");
    let r = skipped(RatingReplayer.try_replay(
        7,
        &JsonField::Int(1),
        &text("x"),
        Some(None),
    ));
    assert_eq!(r, "pre_state.current=\"x\" is not a valid rating");
    assert_eq!(
        RatingReplayer.refusal(&JsonField::Missing, &JsonField::Null).as_deref(),
        Some("pre_state missing 'intent' field")
    );
    assert_eq!(
        RatingReplayer.refusal(&JsonField::Null, &JsonField::Missing).as_deref(),
        Some("pre_state missing 'current' field")
    );
    assert_eq!(parse_rating(&JsonField::Int(5)), ParsedRating::Rated(5));
    assert_eq!(parse_rating(&JsonField::Int(0)), ParsedRating::Malformed);
    assert_eq!(parse_rating(&JsonField::Null), ParsedRating::Cleared);
}

#[test]
fn notes_op_kind_matches_capture_constant() {
    assert_eq!(NotesReplayer.op_kind(), "book-notes-set");
    assert_eq!(NotesReplayer.op_kind(), OP_KIND_BOOK_NOTES_SET);
}

#[test]
fn notes_retries_when_no_drift_setting_value() {
    let v = applied(NotesReplayer.try_replay(
        7,
        &text("loved it"),
        &JsonField::Null,
        Some(None),
    ));
    assert_eq!(v.as_deref(), Some("loved it"));
}

#[test]
fn notes_retries_when_clearing_to_null() {
    let v = applied(NotesReplayer.try_replay(
        7,
        &JsonField::Null,
        &text("draft"),
        Some(Some("draft")),
    ));
    assert_eq!(v, None);
}

#[test]
fn notes_skips_when_already_applied() {
    let r = skipped(NotesReplayer.try_replay(
        7,
        &text("loved it"),
        &JsonField::Null,
        Some(Some("loved it")),
    ));
    assert!(r.contains("already applied"), "reason: {r}");
    assert_eq!(r, "already applied — notes is already \"loved it\"");
}

#[test]
fn notes_skips_on_drift() {
    let r = skipped(NotesReplayer.try_replay(
        7,
        &text("loved it"),
        &JsonField::Null,
        Some(Some("operator-edit")),
    ));
    assert!(r.contains("drift"), "reason: {r}");
    assert_eq!(
        r,
        "drift detected — current notes is Some(\"operator-edit\"), expected None (someone else changed it)"
    );
}

#[test]
fn notes_skips_on_malformed_intent_type() {
    let r = skipped(NotesReplayer.try_replay(
        7,
        &JsonField::Int(42),
        &JsonField::Null,
        Some(None),
    ));
    assert!(r.contains("not a valid notes value"), "reason: {r}");
    assert!(parse_notes(&JsonField::Int(42)).is_none());
    assert_eq!(parse_notes(&text("")), Some(Some("")));
    assert!(NotesReplayer.try_replay(7, &text("a"), &JsonField::Null, None)
        .is_skipped_because_gone());
}

trait Gone {
    fn is_skipped_because_gone(&self) -> bool;
}

impl Gone for ReplayStep<Option<String>> {
    fn is_skipped_because_gone(&self) -> bool {
        matches!(self, ReplayStep::Skipped(s) if s == "book 7 no longer exists")
    }
}

fn title(intent: &JsonField, row: Option<&str>) -> ReplayStep<String> {
    TitleReplayer.try_replay(7, intent, &text("Old Title"), row)
}

#[test]
fn title_op_kind_matches_capture_constant() {
    assert_eq!(TitleReplayer.op_kind(), "book-title-set");
    assert_eq!(TitleReplayer.op_kind(), OP_KIND_BOOK_TITLE_SET);
}

#[test]
fn title_retries_when_no_drift() {
    assert_eq!(applied(title(&text("New Title"), Some("Old Title"))), "New Title");
}

#[test]
fn title_skips_when_already_applied() {
    let r = skipped(title(&text("Already New"), Some("Already New")));
    assert!(r.contains("already applied"), "reason: {r}");
}

#[test]
fn title_skips_on_drift() {
    let r = skipped(title(&text("New Title"), Some("Drifted Title")));
    assert!(r.contains("drift detected"), "reason: {r}");
}

#[test]
fn title_skips_when_book_deleted() {
    let r = skipped(title(&text("New Title"), None));
    assert!(r.contains("no longer exists"), "reason: {r}");
}

#[test]
fn title_skips_on_malformed_intent() {
    let r = skipped(title(&JsonField::Int(42), Some("Old Title")));
    assert!(r.contains("intent"), "reason: {r}");
    assert_eq!(
        TitleReplayer.refusal(&text("x"), &JsonField::Null).as_deref(),
        Some("pre_state missing 'current' field (or not a string)")
    );
}

#[test]
fn quotes_in_texts_are_escaped() {
    let r = skipped(title(&text("a \"b\"\n"), Some("a \"b\"\n")));
    assert_eq!(r, "already applied — title is already \"a \\\"b\\\"\\n\"");
}

#[test]
fn failures_of_a_replay_are_told_apart() {
    let f = || text_field("title", Some("t".to_owned()));
    assert!(matches!(
        finish_replay(3, "c", Err(ApplyFailure::NotFound), f()),
        Err(JournalError::NotFound(3))
    ));
    assert!(matches!(
        finish_replay(3, "set_notes replay", Err(ApplyFailure::Core("x".to_owned())), f()),
        Err(JournalError::Db(m)) if m == "set_notes replay: x"
    ));
}

fn intent() -> Option<CollectionIntent> {
    Some(CollectionIntent {
        name: text("Box"),
        canonical_name: text("box"),
        audible_id: JsonField::Null,
        description: JsonField::Missing,
        kind: JsonField::Int(3),
    })
}

#[test]
fn collection_creation_is_replayed() {
    let r = CollectionCreateReplayer;
    assert_eq!(r.op_kind(), OP_KIND_COLLECTION_CREATE);
    assert!(matches!(
        r.try_replay(5, &intent(), Some("Box"), None),
        CollectionStep::AlreadyApplied(n) if n == "Box"
    ));
    assert!(matches!(
        r.try_replay(5, &intent(), Some("Other"), None),
        CollectionStep::Skipped(m)
            if m == "drift detected — collection 5 renamed from \"Box\" to \"Other\""
    ));
    assert!(matches!(
        r.try_replay(5, &intent(), None, Some(8)),
        CollectionStep::Skipped(m)
            if m == "drift detected — name \"Box\" now belongs to collection 8"
    ));
    match r.try_replay(5, &intent(), None, None) {
        CollectionStep::Insert(c) => {
            assert_eq!(c.name, "Box");
            assert_eq!(c.canonical_name.as_deref(), Some("box"));
            assert_eq!(c.audible_id, None);
            assert_eq!(c.kind, None);
        }
        other => panic!("unexpected: {other:?}"),
    }
    assert!(matches!(
        r.try_replay(5, &None, None, None),
        CollectionStep::Skipped(m) if m == "pre_state missing 'intent' object"
    ));
    let mut nameless = intent();
    if let Some(i) = &mut nameless {
        i.name = JsonField::Int(1);
    }
    assert!(matches!(
        r.try_replay(5, &nameless, None, None),
        CollectionStep::Skipped(m) if m == "pre_state.intent missing 'name' (or not a string)"
    ));
    match r.recreated(5, 9, "Box".to_owned()) {
        ReplayDecision::Retried(f) => {
            assert_eq!(f[0].value.show(), "9");
            assert_eq!(f[1].value.show(), "\"Box\"");
            assert_eq!(f[2].key, "recreated_from_id");
            assert_eq!(f[2].value.show(), "5");
        }
        other => panic!("unexpected: {other:?}"),
    }
    match r.already_applied(5, "Box".to_owned()) {
        ReplayDecision::Retried(f) => assert_eq!(f[2].value.show(), "true"),
        other => panic!("unexpected: {other:?}"),
    }
}

use aborganizer::audit::seed::{AbtaggerRow, Position, SeedDb, SeedError, SeedFile, SeedFingerprint};

fn field(v: &serde_json::Value, name: &str) -> Option<String> {
    v.get(name).and_then(|x| x.as_str()).map(str::to_owned)
}

fn number(v: &serde_json::Value, name: &str) -> Option<u32> {
    v.get(name).and_then(|x| x.as_u64()).map(|n| n as u32)
}

fn fixture(path: &str, json: &str) -> SeedFile {
    let value: serde_json::Value = serde_json::from_str(json).expect("json");
    let rows = value
        .as_array()
        .expect("array")
        .iter()
        .map(|v| AbtaggerRow {
            publisher: field(v, "publisher"),
            title: field(v, "title"),
            intro_publisher_match: field(v, "intro_publisher_match"),
            outro_publisher_match: field(v, "outro_publisher_match"),
            intro_transcript: field(v, "intro_transcript"),
            outro_transcript: field(v, "outro_transcript"),
            intro_fingerprint_b64: field(v, "intro_fingerprint_b64"),
            outro_fingerprint_b64: field(v, "outro_fingerprint_b64"),
            intro_fingerprint_duration_ms: number(v, "intro_fingerprint_duration_ms"),
            outro_fingerprint_duration_ms: number(v, "outro_fingerprint_duration_ms"),
        })
        .collect();
    SeedFile { path: path.to_owned(), rows: Ok(rows) }
}

fn at(db: &SeedDb, position: Position) -> &SeedFingerprint {
    db.fingerprints.iter().find(|f| f.position == position).expect("present")
}

#[test]
fn position_label_round_trip() {
    assert_eq!(Position::Intro.as_str(), "intro");
    assert_eq!(Position::Outro.as_str(), "outro");
}

#[test]
fn load_parses_intro_and_outro_separately() {
    let json = r#"[{
        "publisher": "Audible Originals",
        "title": "Test Book",
        "intro_publisher_match": "Audible",
        "outro_publisher_match": "Audible Originals",
        "intro_transcript": "This is Audible.",
        "outro_transcript": "Audible original publishing.",
        "intro_fingerprint_b64": "FP-INTRO-AA",
        "outro_fingerprint_b64": "FP-OUTRO-BB",
        "intro_fingerprint_duration_ms": 2620,
        "outro_fingerprint_duration_ms": 4000
    }]"#;
    let db = SeedDb::load(&vec![fixture("findings.json", json)]).expect("load");
    assert_eq!(db.len(), 2);
    let intro = at(&db, Position::Intro);
    assert_eq!(intro.fingerprint_b64, "FP-INTRO-AA");
    assert_eq!(intro.duration_ms, 2620);
    assert_eq!(intro.transcript_excerpt.as_deref(), Some("This is Audible."));
    assert_eq!(intro.publisher_match.as_deref(), Some("Audible"));
    assert!(!intro.confirmed);

    let outro = at(&db, Position::Outro);
    assert_eq!(outro.fingerprint_b64, "FP-OUTRO-BB");
    assert_eq!(outro.duration_ms, 4000);
}

#[test]
fn load_skips_missing_fingerprints() {
    let json = r#"[
      {"publisher": "X", "intro_fingerprint_b64": "FP1", "outro_fingerprint_b64": null},
      {"publisher": "Y", "intro_fingerprint_b64": null, "outro_fingerprint_b64": null},
      {"publisher": "Z", "intro_fingerprint_b64": "", "outro_fingerprint_b64": "FP2"}
    ]"#;
    let db = SeedDb::load(&vec![fixture("findings.json", json)]).expect("load");
    assert_eq!(db.len(), 2);
    let publishers: Vec<_> = db.fingerprints.iter().map(|f| f.publisher.clone()).collect();
    assert!(publishers.contains(&Some("X".to_owned())));
    assert!(publishers.contains(&Some("Z".to_owned())));
    assert!(!publishers.contains(&Some("Y".to_owned())));
}

#[test]
fn load_rejects_non_json_extension() {
    let err = SeedDb::load(&vec![fixture("findings.txt", "[]")]).expect_err("non-json should fail");
    let msg = err.message();
    assert!(msg.contains("unsupported extension"), "got: {msg}");
    assert_eq!(msg, "seed path findings.txt has unsupported extension \"txt\"; expected .json");
}

#[test]
fn load_merges_multiple_files() {
    let p1 = fixture("a.json", r#"[{"publisher":"A","intro_fingerprint_b64":"FPA"}]"#);
    let p2 = fixture("b.json", r#"[{"publisher":"B","intro_fingerprint_b64":"FPB"}]"#);
    let db = SeedDb::load(&vec![p1, p2]).expect("load");
    assert_eq!(db.len(), 2);
    assert_eq!(db.fingerprints[0].publisher.as_deref(), Some("A"));
    assert_eq!(db.fingerprints[1].publisher.as_deref(), Some("B"));
}

#[test]
fn load_fails_with_the_first_failure() {
    let files = vec![
        fixture("a.json", r#"[{"intro_fingerprint_b64":"1"}]"#),
        SeedFile { path: "b.json".to_owned(), rows: Err("first".to_owned()) },
        fixture("c.txt", "[]"),
        SeedFile { path: "d.json".to_owned(), rows: Err("second".to_owned()) },
    ];
    let shown = format!("{:?}", SeedDb::load(&files).expect_err("fails"));
    assert!(shown.contains("b.json") && shown.contains("first"), "{shown}");
}

#[test]
fn load_reports_unreadable_files() {
    let bad = SeedFile { path: "c.JSON".to_owned(), rows: Err("read c.JSON: gone".to_owned()) };
    match SeedDb::load(&vec![bad]) {
        Err(SeedError::Unreadable { path, reason }) => {
            assert_eq!(path, "c.JSON");
            assert_eq!(reason, "read c.JSON: gone");
        }
        other => panic!("unexpected: {other:?}"),
    }
}

#[test]
fn group_by_publisher_buckets_none() {
    let json = r#"[
      {"publisher": "A", "intro_fingerprint_b64": "FP-A"},
      {"publisher": null, "intro_fingerprint_b64": "FP-NONE"}
    ]"#;
    let db = SeedDb::load(&vec![fixture("f.json", json)]).expect("load");
    let by_pub = db.group_by_publisher();
    let size = |name: &str| by_pub.iter().find(|g| g.publisher == name).map(|g| g.seeds.len());
    assert_eq!(size("A"), Some(1));
    assert_eq!(size("(no publisher)"), Some(1));
}

#[test]
fn empty_db_has_no_fingerprints() {
    let db = SeedDb::empty();
    assert!(db.is_empty());
    assert_eq!(db.len(), 0);
}

#[test]
fn databases_are_joined_in_order() {
    let mut a = SeedDb::load(&vec![fixture("a.json", r#"[{"intro_fingerprint_b64":"1"}]"#)]).expect("a");
    let b = SeedDb::load(&vec![fixture("b.json", r#"[{"outro_fingerprint_b64":"2"}]"#)]).expect("b");
    a.extend(b);
    assert_eq!(a.len(), 2);
    assert_eq!(a.fingerprints[1].fingerprint_b64, "2");
    assert!(SeedDb::default().is_empty());
}

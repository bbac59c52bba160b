use aborganizer::audit::entry::{
    build_detection, claim_slug, clip_name, end_clip_start_ms, AuditEntry, DetailClip,
    DetectionInfo, SeedMatchSummary,
};
use aborganizer::audit::match_seed::SeedMatch;
use aborganizer::audit::report::{
    build_report, format_ms, format_seed_match_trigger, html_escape, page_filename,
    publisher_display, publisher_sort_key, seed_count_for, seed_publisher_counts, tally_order,
    Report,
};
use aborganizer::audit::seed::{AbtaggerRow, Position, SeedDb, SeedFile};

fn stub_entry(slug: &str, title: &str, publisher: Option<&str>) -> AuditEntry {
    AuditEntry {
        slug: slug.into(),
        title: title.into(),
        source_path: format!("/library/{title}.m4b"),
        duration_ms: 60_000,
        publisher: publisher.map(str::to_owned),
        copyright: None,
        detection: DetectionInfo::Stub,
        front_clip_rel: format!("clips/{slug}-front.m4a"),
        end_clip_rel: format!("clips/{slug}-end.m4a"),
        front_waveform_svg: "<svg/>".into(),
        end_waveform_svg: "<svg/>".into(),
        front_detail: None,
        end_detail: None,
    }
}

fn entry_with_front_detail(slug: &str, publisher: &str) -> AuditEntry {
    let mut e = stub_entry(slug, slug, Some(publisher));
    e.front_detail = Some(DetailClip {
        clip_rel: format!("clips/{slug}-front-detail.m4a"),
        waveform_svg: "<svg id=\"detail-wave\"/>".into(),
        start_offset_in_overview_ms: 8_000,
        duration_secs: 15,
    });
    e
}

fn row(publisher: &str, intro: Option<&str>, outro: Option<&str>) -> AbtaggerRow {
    AbtaggerRow {
        publisher: Some(publisher.to_owned()),
        title: None,
        intro_publisher_match: None,
        outro_publisher_match: None,
        intro_transcript: None,
        outro_transcript: None,
        intro_fingerprint_b64: intro.map(str::to_owned),
        outro_fingerprint_b64: outro.map(str::to_owned),
        intro_fingerprint_duration_ms: None,
        outro_fingerprint_duration_ms: None,
    }
}

fn load(rows: Vec<AbtaggerRow>) -> SeedDb {
    SeedDb::load(&vec![SeedFile { path: "seed.json".to_owned(), rows: Ok(rows) }]).expect("seeds")
}

fn names(r: &Report) -> Vec<&str> {
    r.pages.iter().map(|p| p.name.as_str()).collect()
}

#[test]
fn publisher_sort_key_buckets_none_last() {
    let a = publisher_sort_key(Some("Audible Studios"));
    let z = publisher_sort_key(None);
    let z2 = publisher_sort_key(Some("   "));
    assert!(a < z);
    assert_eq!(z, z2, "blank string treated as no-publisher");
}

#[test]
fn every_publisher_sorts_before_none() {
    let none = publisher_sort_key(None);
    for p in ["Zzz", "\u{10FFFE}", "\u{FFFD}x", " \u{10FFFF}", "İ"] {
        assert!(publisher_sort_key(Some(p)) < none, "{p:?}");
    }
    assert_eq!(publisher_sort_key(Some("ÄRA")), "ära");
}

#[test]
fn page_filename_zero_padded() {
    assert_eq!(page_filename(1), "page-01.html");
    assert_eq!(page_filename(50), "page-50.html");
    assert_eq!(page_filename(100), "page-100.html");
}

#[test]
fn write_report_paginates_at_50() {
    let entries: Vec<AuditEntry> = (0..120)
        .map(|i| {
            let pub_name = match i % 3 {
                0 => Some("Audible Studios"),
                1 => Some("Brilliance Audio"),
                _ => None,
            };
            stub_entry(&format!("book-{i:03}"), &format!("Book {i:03}"), pub_name)
        })
        .collect();
    let report = build_report("/corpus", &entries, &SeedDb::empty());
    assert_eq!(
        names(&report),
        vec!["page-01.html", "page-02.html", "page-03.html"],
        "120 / 50 = 3 pages"
    );
    assert!(report.toc.contains("Audible Studios"));
    assert!(report.toc.contains("Brilliance Audio"));
    assert!(report.toc.contains("(no publisher)"));
    assert!(report.toc.contains("page-01.html#"));

    let page1 = &report.pages[0].html;
    assert!(page1.contains("page 1/3"));
    assert!(page1.contains("section class=\"book\""));
    assert!(page1.contains("addEventListener(\"play\""), "pause-others JS present");
    assert!(report.pages[2].html.contains("page 3/3"));
}

#[test]
fn write_report_empty_corpus_still_writes_one_page() {
    let report = build_report("/corpus", &vec![], &SeedDb::empty());
    assert_eq!(names(&report), vec!["page-01.html"]);
    assert!(report.toc.contains("<html"));
}

#[test]
fn write_report_under_50_books_single_page() {
    let entries: Vec<AuditEntry> = (0..10)
        .map(|i| stub_entry(&format!("b{i}"), &format!("B {i}"), Some("Pub")))
        .collect();
    let report = build_report("/c", &entries, &SeedDb::empty());
    assert_eq!(names(&report), vec!["page-01.html"]);
}

#[test]
fn seed_badge_renders_when_publisher_has_seeds() {
    let seeds = load(vec![
        row("Audible Studios", Some("FP-A"), None),
        row("Audible Studios", None, Some("FP-A-OUT")),
        row("Brilliance Audio", Some("FP-B"), None),
    ]);
    let entries = vec![
        stub_entry("a", "Audible Book", Some("Audible Studios")),
        stub_entry("b", "Brilliance Book", Some("Brilliance Audio")),
        stub_entry("c", "Unknown", Some("Tiny Press")),
    ];
    let report = build_report("/corpus", &entries, &seeds);
    let toc = &report.toc;
    assert!(toc.contains("2 seeds"), "audible seed badge: {toc:#?}");
    assert!(toc.contains("1 seed"), "brilliance singular: {toc:#?}");
    assert!(
        !toc.contains("Tiny Press</h2>") || !toc.contains("Tiny Press <span class=\"seed-badge\"")
    );
    let page1 = &report.pages[0].html;
    assert!(page1.contains("2 known seeds"), "per-book chip: {page1:#?}");
    assert_eq!(report.seed_publishers, 2);
}

#[test]
fn detail_clip_renders_alongside_overview() {
    let entries = vec![entry_with_front_detail("a", "Audible")];
    let report = build_report("/c", &entries, &SeedDb::empty());
    let page1 = &report.pages[0].html;
    assert!(page1.contains("class=\"detail-clip\""), "detail block: {page1:#?}");
    assert!(page1.contains("a-front-detail.m4a"));
    assert!(page1.contains("Detail · 15s"));
    assert!(page1.contains("<svg id=\"detail-wave\"/>"));
}

#[test]
fn detail_clip_omitted_when_absent() {
    let entries = vec![stub_entry("a", "Plain", Some("Pub"))];
    let report = build_report("/c", &entries, &SeedDb::empty());
    let page1 = &report.pages[0].html;
    assert!(!page1.contains("class=\"detail-clip\""));
    assert!(!page1.contains("-front-detail.m4a"));
}

#[test]
fn orphan_seeds_section_lists_publishers_without_books() {
    let seeds = load(vec![
        row("OnlyInSeed", Some("FP-X"), None),
        row("Audible Studios", Some("FP-A"), None),
    ]);
    let entries = vec![stub_entry("a", "Book", Some("Audible Studios"))];
    let report = build_report("/corpus", &entries, &seeds);
    let toc = &report.toc;
    assert!(toc.contains("Seeds without books in corpus"));
    assert!(toc.contains("OnlyInSeed"));
    let count = toc.matches("Audible Studios").count();
    assert_eq!(count, 1, "audible should appear once (corpus group): {toc:#?}");
}

#[test]
fn titles_are_escaped() {
    assert_eq!(html_escape("a<b>&\"c\"'d'"), "a&lt;b&gt;&amp;&quot;c&quot;&#39;d&#39;");
    let entries = vec![stub_entry("x", "<script>alert(1)</script>", Some("P&Q"))];
    let report = build_report("/c", &entries, &SeedDb::empty());
    assert!(!report.pages[0].html.contains("<script>alert(1)"));
    assert!(report.pages[0].html.contains("&lt;script&gt;alert(1)&lt;/script&gt;"));
    assert!(report.toc.contains("P&amp;Q"));
}

#[test]
fn times_are_minutes_and_seconds() {
    assert_eq!(format_ms(None), "—");
    assert_eq!(format_ms(Some(61_999)), "01:01.999");
}

#[test]
fn books_are_sorted_by_publisher_then_title() {
    let entries = vec![
        stub_entry("z", "Zulu", None),
        stub_entry("b", "Bravo", Some("Beta")),
        stub_entry("a", "Alpha", Some("Beta")),
        stub_entry("c", "Charlie", Some("Acme")),
    ];
    let report = build_report("/c", &entries, &SeedDb::empty());
    let page = &report.pages[0].html;
    let at = |s: &str| page.find(s).expect("title on page");
    assert!(at("Charlie") < at("Alpha"));
    assert!(at("Alpha") < at("Bravo"));
    assert!(at("Bravo") < at("Zulu"));
}

#[test]
fn seeds_are_counted_per_publisher() {
    let seeds = load(vec![
        row("B", Some("1"), Some("2")),
        row("A", Some("3"), None),
        row("C", Some("4"), Some("5")),
    ]);
    let counts = seed_publisher_counts(&seeds);
    assert_eq!(counts.len(), 3);
    assert_eq!(seed_count_for(&counts, Some("B")), 2);
    assert_eq!(seed_count_for(&counts, Some("A")), 1);
    assert_eq!(seed_count_for(&counts, Some("nobody")), 0);
    let order: Vec<String> =
        tally_order(&counts).iter().map(|i| counts[*i].publisher.clone()).collect();
    assert_eq!(order, vec!["B".to_owned(), "C".to_owned(), "A".to_owned()]);
}

#[test]
fn seeds_without_publisher_are_counted_together() {
    let mut untagged = row("", Some("1"), Some("2"));
    untagged.publisher = None;
    let seeds = load(vec![untagged, row("  ", Some("3"), None), row("A", Some("4"), None)]);
    let counts = seed_publisher_counts(&seeds);
    assert_eq!(counts.len(), 2);
    assert_eq!(seed_count_for(&counts, None), 3);
    assert_eq!(seed_count_for(&counts, Some(" ")), 3);
    assert_eq!(seed_count_for(&counts, Some("A")), 1);
    let entries = vec![stub_entry("a", "Book", Some("A"))];
    let report = build_report("/c", &entries, &seeds);
    assert_eq!(report.seed_publishers, seeds.group_by_publisher().len());
}

#[test]
fn another_spelling_of_a_group_is_in_the_corpus() {
    let entries =
        vec![stub_entry("a", "One", Some("Acme")), stub_entry("b", "Two", Some("ACME"))];
    let seeds = load(vec![row("ACME", Some("1"), None), row("Acme", Some("2"), None)]);
    let toc = build_report("/c", &entries, &seeds).toc;
    assert!(!toc.contains("Seeds without books in corpus"), "{toc:#?}");
    let other = load(vec![row("acme", Some("1"), None)]);
    let toc = build_report("/c", &entries, &other).toc;
    assert!(toc.contains("Seeds without books in corpus"), "{toc:#?}");
}

#[test]
fn display_names_of_publishers() {
    assert_eq!(publisher_display(Some("X")), "X");
    assert_eq!(publisher_display(None), "(no publisher)");
    assert_eq!(publisher_display(Some("  ")), "(no publisher)");
}

#[test]
fn slugs_are_claimed_once() {
    let mut used: Vec<String> = Vec::new();
    assert_eq!(claim_slug("Same Title", 0, &mut used), "same-title");
    assert_eq!(claim_slug("Same Title", 1, &mut used), "same-title-2");
    assert_eq!(claim_slug("same title!", 2, &mut used), "same-title-3");
    for i in 3..98 {
        claim_slug("Same Title", i, &mut used);
    }
    assert_eq!(used.len(), 98);
    assert_eq!(claim_slug("Same Title", 777, &mut used), "same-title-777");
    assert_eq!(used.len(), 98);
}

#[test]
fn clips_of_a_book() {
    assert_eq!(clip_name("slug", "front"), "slug-front.m4a");
    assert_eq!(end_clip_start_ms(90_000), 30_000);
    assert_eq!(end_clip_start_ms(59_999), 0);
}

#[test]
fn seed_match_is_summarised() {
    let m = SeedMatch {
        seed_idx: 0,
        publisher: Some("Audible".to_owned()),
        publisher_match: None,
        position: Position::Intro,
        window_offset: 12,
        confidence_bits: 0.987_f32.to_bits(),
        seed_windows: 26,
    };
    let s = SeedMatchSummary::from_match(&m, "0.987");
    assert_eq!(s.approx_offset_ms, 1_200);
    assert_eq!(s.seed_windows, 26);
    let html = format_seed_match_trigger(&Some(s), &None);
    assert!(html.contains("0.987"), "{html}");
    assert!(html.contains("Audible"), "{html}");
}

#[test]
fn detection_needs_seeds_and_a_match() {
    assert!(matches!(build_detection(true, None, None), DetectionInfo::Stub));
    assert!(matches!(build_detection(false, None, None), DetectionInfo::Stub));
    let m = SeedMatch {
        seed_idx: 0,
        publisher: None,
        publisher_match: None,
        position: Position::Outro,
        window_offset: 0,
        confidence_bits: 0,
        seed_windows: 1,
    };
    let s = SeedMatchSummary::from_match(&m, "0.000");
    assert!(matches!(
        build_detection(false, None, Some(s)),
        DetectionInfo::SeedMatch { front: None, end: Some(_) }
    ));
}

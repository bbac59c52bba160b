use aborganizer::books_chapters_subtitles::{
    corrupt_marks, format_srt_timestamp, format_vtt_timestamp, load_chapter_marks, render_srt,
    render_vtt, sanitize_cue_text, split_ms, subtitle_disposition, ChapterMark,
    ChapterMarksPayload,
};
use aborganizer::books_playlist::{
    books_playlist_m3u8, build_m3u8, playlist_disposition, simple_filename_slug,
};
use aborganizer::books_transcript::{
    books_transcript_get, resolve_kind, transcript_disposition, CacheKey, TranscriptQuery,
};
use aborganizer::error::ApiError;

fn sample_payload() -> ChapterMarksPayload {
    ChapterMarksPayload {
        book_id: 7,
        total_duration_ms: 3_725_500,
        chapters: vec![
            ChapterMark {
                idx: 0,
                title: "Prologue".to_owned(),
                start_ms: 0,
                end_ms: 30_500,
                start_char: 0,
                end_char: 100,
            },
            ChapterMark {
                idx: 1,
                title: "Chapter 1: The Beginning".to_owned(),
                start_ms: 30_500,
                end_ms: 3_725_500,
                start_char: 100,
                end_char: 50_000,
            },
        ],
    }
}

#[test]
fn srt_timestamp_zero_is_zero() {
    assert_eq!(format_srt_timestamp(0), "00:00:00,000");
}

#[test]
fn srt_timestamp_carries_into_minutes_and_hours() {
    assert_eq!(format_srt_timestamp(3_723_456), "01:02:03,456");
}

#[test]
fn vtt_timestamp_uses_period_separator() {
    assert_eq!(format_vtt_timestamp(3_723_456), "01:02:03.456");
}

#[test]
fn negative_timestamp_floors_to_zero() {
    assert_eq!(format_srt_timestamp(-500), "00:00:00,000");
}

#[test]
fn huge_timestamps_saturate_their_hours() {
    assert_eq!(split_ms(i64::MAX).0, u32::MAX);
    assert_eq!(split_ms(360_000_000), (100, 0, 0, 0));
    assert_eq!(format_srt_timestamp(360_000_000), "100:00:00,000");
}

#[test]
fn srt_render_has_indexed_cues_with_comma_separator() {
    let body = render_srt(&sample_payload());
    let expected = "\
1
00:00:00,000 --> 00:00:30,500
Prologue

2
00:00:30,500 --> 01:02:05,500
Chapter 1: The Beginning

";
    assert_eq!(body, expected);
}

#[test]
fn vtt_render_has_webvtt_header_and_period_separator() {
    let body = render_vtt(&sample_payload());
    let expected = "\
WEBVTT

1
00:00:00.000 --> 00:00:30.500
Prologue

2
00:00:30.500 --> 01:02:05.500
Chapter 1: The Beginning

";
    assert_eq!(body, expected);
}

#[test]
fn empty_chapters_render_to_empty_srt_body() {
    let payload = ChapterMarksPayload { book_id: 1, total_duration_ms: 0, chapters: vec![] };
    assert_eq!(render_srt(&payload), "");
}

#[test]
fn empty_chapters_render_to_header_only_vtt() {
    let payload = ChapterMarksPayload { book_id: 1, total_duration_ms: 0, chapters: vec![] };
    assert_eq!(render_vtt(&payload), "WEBVTT\n\n");
}

#[test]
fn cues_follow_the_chapter_index() {
    let mark = |idx: i64, title: &str, start_ms: i64| ChapterMark {
        idx,
        title: title.to_owned(),
        start_ms,
        end_ms: start_ms + 1_000,
        start_char: 0,
        end_char: 1,
    };
    let payload = ChapterMarksPayload {
        book_id: 1,
        total_duration_ms: 2_000,
        chapters: vec![mark(1, "B", 1_000), mark(0, "A", 0)],
    };
    assert_eq!(
        render_srt(&payload),
        "1\n00:00:00,000 --> 00:00:01,000\nA\n\n2\n00:00:01,000 --> 00:00:02,000\nB\n\n"
    );
    assert_eq!(
        render_vtt(&payload),
        "WEBVTT\n\n1\n00:00:00.000 --> 00:00:01.000\nA\n\n\
         2\n00:00:01.000 --> 00:00:02.000\nB\n\n"
    );
}

#[test]
fn cue_text_strips_newlines_to_keep_cue_blocks_intact() {
    let body = render_srt(&ChapterMarksPayload {
        book_id: 1,
        total_duration_ms: 1_000,
        chapters: vec![ChapterMark {
            idx: 0,
            title: "Bad\nTitle\rWith\r\nLines".to_owned(),
            start_ms: 0,
            end_ms: 1_000,
            start_char: 0,
            end_char: 10,
        }],
    });
    let cue_body_lines = body.lines().skip(2).take_while(|l| !l.is_empty()).count();
    assert_eq!(cue_body_lines, 1, "title must collapse to one line");
    assert!(!body.contains('\r'));
    assert_eq!(sanitize_cue_text("a\r\nb"), "a  b");
}

#[test]
fn chapter_marks_are_loaded_or_missing() {
    assert!(matches!(
        load_chapter_marks(5, false, None),
        Err(ApiError::NotFound(m)) if m == "book 5"
    ));
    assert!(matches!(
        load_chapter_marks(5, true, None),
        Err(ApiError::NotFound(m)) if m == "book 5 has no chapter marks cached yet"
    ));
    assert_eq!(load_chapter_marks(5, true, Some("{}".to_owned())).expect("ok"), "{}");
    assert_eq!(corrupt_marks().to_problem().status, 500);
    assert_eq!(subtitle_disposition(5, "srt"), "attachment; filename=\"book-5-chapters.srt\"");
}

#[test]
fn build_m3u8_single_file_with_duration() {
    let m3u8 = build_m3u8(
        "The Way of Kings",
        &[("/Volumes/Audiobooks/Library/Sanderson, Brandon/file.m4b", Some(13_725_000))],
    );
    assert!(m3u8.starts_with("#EXTM3U\n"));
    assert!(m3u8.contains("#EXTINF:13725,The Way of Kings\n"));
    assert!(m3u8.contains("/Volumes/Audiobooks/Library/Sanderson, Brandon/file.m4b"));
}

#[test]
fn build_m3u8_unknown_duration_emits_minus_one() {
    let m3u8 = build_m3u8("Book", &[("/path/file.m4b", None)]);
    assert!(m3u8.contains("#EXTINF:-1,Book\n"));
}

#[test]
fn build_m3u8_multi_file_preserves_order() {
    let m3u8 = build_m3u8(
        "Multi-Part",
        &[
            ("/a/01.m4b", Some(60_000)),
            ("/a/02.m4b", Some(120_000)),
            ("/a/03.m4b", Some(90_500)),
        ],
    );
    let lines: Vec<&str> = m3u8.lines().collect();
    assert_eq!(lines.len(), 1 + 3 * 2);
    assert_eq!(lines[1], "#EXTINF:60,Multi-Part");
    assert_eq!(lines[2], "/a/01.m4b");
    assert_eq!(lines[3], "#EXTINF:120,Multi-Part");
    assert_eq!(lines[5], "#EXTINF:90,Multi-Part");
}

#[test]
fn build_m3u8_empty_iterator_returns_header_only() {
    let m3u8 = build_m3u8("Empty", &[]);
    assert_eq!(m3u8, "#EXTM3U\n");
}

#[test]
fn negative_durations_are_zero_seconds() {
    assert_eq!(build_m3u8("B", &[("/p", Some(-5_000))]), "#EXTM3U\n#EXTINF:0,B\n/p\n");
}

#[test]
fn simple_filename_slug_basic() {
    assert_eq!(simple_filename_slug("The Way of Kings"), "The-Way-of-Kings");
}

#[test]
fn simple_filename_slug_punctuation_collapses() {
    assert_eq!(
        simple_filename_slug("Sanderson, Brandon — Mistborn!"),
        "Sanderson-Brandon-Mistborn"
    );
}

#[test]
fn simple_filename_slug_empty_falls_back_to_book() {
    assert_eq!(simple_filename_slug(""), "book");
    assert_eq!(simple_filename_slug("!@#$%"), "book");
}

#[test]
fn simple_filename_slug_caps_long() {
    let s = simple_filename_slug(&"x".repeat(200));
    assert!(s.len() <= 80);
}

#[test]
fn playlists_need_a_book_with_files() {
    assert!(matches!(
        books_playlist_m3u8(3, None, &[("/p", None)]),
        Err(ApiError::NotFound(m)) if m == "book 3"
    ));
    assert!(matches!(
        books_playlist_m3u8(3, Some("T"), &[]),
        Err(ApiError::NotFound(m)) if m == "book 3 has no active files"
    ));
    assert_eq!(
        books_playlist_m3u8(3, Some("T"), &[("/p", Some(1_000))]).expect("ok"),
        "#EXTM3U\n#EXTINF:1,T\n/p\n"
    );
    assert_eq!(playlist_disposition("A B"), "attachment; filename=\"A-B.m3u8\"");
}

#[test]
fn resolve_kind_defaults_to_full() {
    assert_eq!(resolve_kind(None).unwrap(), CacheKey::TranscriptFull);
    assert!(TranscriptQuery::default().kind.is_none());
}

#[test]
fn resolve_kind_accepts_each_documented_slice() {
    assert_eq!(resolve_kind(Some("full")).unwrap(), CacheKey::TranscriptFull);
    assert_eq!(resolve_kind(Some("head")).unwrap(), CacheKey::TranscriptHead);
    assert_eq!(resolve_kind(Some("tail")).unwrap(), CacheKey::TranscriptTail);
    assert_eq!(resolve_kind(Some("samples")).unwrap(), CacheKey::TranscriptSamples);
}

#[test]
fn resolve_kind_rejects_unknown_with_400() {
    match resolve_kind(Some("gibberish")) {
        Err(ApiError::BadRequest(msg)) => {
            assert!(msg.contains("gibberish"));
            assert!(msg.contains("full"));
            assert_eq!(
                msg,
                "unknown transcript kind \"gibberish\"; expected one of full / head / tail / samples"
            );
        }
        other => panic!("unexpected: {other:?}"),
    }
}

#[test]
fn resolve_kind_rejects_empty_string() {
    match resolve_kind(Some("")) {
        Err(ApiError::BadRequest(_)) => {}
        other => panic!("unexpected: {other:?}"),
    }
}

#[test]
fn transcripts_are_found_or_missing() {
    let k = CacheKey::TranscriptHead;
    assert!(matches!(
        books_transcript_get(2, k, false, Some("t".to_owned())),
        Err(ApiError::NotFound(m)) if m == "book 2"
    ));
    assert!(matches!(
        books_transcript_get(2, k, true, None),
        Err(ApiError::NotFound(m)) if m == "book 2 has no transcript_head cached yet"
    ));
    assert_eq!(books_transcript_get(2, k, true, Some("t".to_owned())).expect("ok"), "t");
    assert_eq!(
        transcript_disposition(2, k),
        "attachment; filename=\"book-2-transcript-head.txt\""
    );
}

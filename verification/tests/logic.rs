use aborganizer::audiologo_apply::{
    apply_audiologo_cut, cumulative_before, cut_amount, recompute_book_duration,
    shift_chapters_for_cut, AppliedCut, ApplyCutParams, ChapterSpan, FileSpan, ShiftArgs,
};
use aborganizer::audiologo_review::{
    approved, audiologos_reject, maybe_auto_confirm_audiologo, require_candidate,
    AUTO_CONFIRM_AFTER_MATCHES,
};
use aborganizer::edits::{record_user_edit, ProvenanceRow, USER_EDIT_STAGE};
use aborganizer::error::ApiError;
use aborganizer::pipeline::{
    bind_address, build_pipeline_stages, disk_bytes, DiskBlocks, PipelineSwitches,
};
use aborganizer::progress::{
    acknowledged, books_notes_patch, books_progress_get, books_rating_patch, session_sync,
    MediaProgress, NotesBody, ProgressError, RatingBody,
};

fn ch(chapter_id: i64, start_ms: i64, end_ms: i64) -> ChapterSpan {
    ChapterSpan { chapter_id, start_ms, end_ms }
}

fn spans(v: &[ChapterSpan]) -> Vec<(i64, i64)> {
    v.iter().map(|c| (c.start_ms, c.end_ms)).collect()
}

fn file(file_id: i64, duration_ms: Option<i64>) -> FileSpan {
    FileSpan { file_id, duration_ms }
}

fn params(file_id: i64, start: i64, end: i64, padding: Option<i64>) -> ApplyCutParams<'static> {
    ApplyCutParams {
        book_id: 1,
        file_id,
        kind: "intro",
        jingle_start_ms: start,
        jingle_end_ms: end,
        padding_ms: padding,
        method: "manual",
        audiologo_id: None,
    }
}

#[test]
fn cuts_leave_their_padding() {
    assert_eq!(cut_amount(0, 5_000, None), Some(5_000));
    assert_eq!(cut_amount(0, 5_000, Some(500)), Some(4_500));
    assert_eq!(cut_amount(0, 5_000, Some(9_000)), Some(0));
    assert_eq!(cut_amount(i64::MIN, i64::MAX, None), None);
}

#[test]
fn chapters_follow_an_intro_cut() {
    let mut chapters = vec![ch(1, 0, 60_000), ch(2, 60_000, 120_000)];
    let out = apply_audiologo_cut(
        9,
        &params(1, 0, 5_000, None),
        &mut chapters,
        &vec![file(1, Some(120_000))],
        &vec![],
        Some(120_000),
    )
    .expect("cut");
    assert_eq!(spans(&chapters), vec![(0, 55_000), (55_000, 115_000)]);
    assert_eq!(out.row_id, 9);
    assert_eq!(out.chapters_shifted, 2);
    assert_eq!(out.new_duration_ms, Some(115_000));
}

#[test]
fn chapters_move_once_however_close_to_the_cut() {
    let mut chapters = vec![ch(1, 0, 10_000), ch(2, 10_000, 40_000), ch(3, 40_000, 50_000)];
    let args = ShiftArgs {
        book_id: 1,
        file_id: 1,
        jingle_start_ms: 2_000,
        jingle_end_ms: 10_000,
        cut_ms: 8_000,
    };
    let n = shift_chapters_for_cut(&mut chapters, &vec![file(1, None)], &vec![], args).expect("ok");
    assert_eq!(n, 3);
    assert_eq!(spans(&chapters), vec![(0, 2_000), (2_000, 32_000), (32_000, 42_000)]);
}

#[test]
fn chapters_before_the_cut_stay() {
    let mut chapters = vec![ch(1, 0, 1_000), ch(2, 1_000, 9_000)];
    let args = ShiftArgs {
        book_id: 1,
        file_id: 1,
        jingle_start_ms: 8_000,
        jingle_end_ms: 9_000,
        cut_ms: 1_000,
    };
    let n = shift_chapters_for_cut(&mut chapters, &vec![file(1, None)], &vec![], args).expect("ok");
    assert_eq!(n, 1);
    assert_eq!(spans(&chapters), vec![(0, 1_000), (1_000, 8_000)]);
}

#[test]
fn later_files_start_after_earlier_cuts() {
    let files = vec![file(1, Some(100_000)), file(2, Some(50_000)), file(3, None)];
    let cut = AppliedCut { file_id: 1, jingle_start_ms: 0, jingle_end_ms: 4_000, padding_ms: Some(1_000) };
    let other = AppliedCut { file_id: 77, jingle_start_ms: 0, jingle_end_ms: 4_000, padding_ms: None };
    assert_eq!(cumulative_before(&files, &vec![], 2), Some(100_000));
    assert_eq!(cumulative_before(&files, &vec![cut, other], 2), Some(97_000));
    assert_eq!(cumulative_before(&files, &vec![cut], 1), Some(0));
    assert_eq!(cumulative_before(&files, &vec![cut], 4), Some(147_000));
    let mut chapters = vec![ch(1, 0, 97_000), ch(2, 97_000, 147_000)];
    let out = apply_audiologo_cut(
        1,
        &params(2, 0, 2_000, None),
        &mut chapters,
        &files,
        &vec![cut],
        None,
    )
    .expect("cut");
    assert_eq!(spans(&chapters), vec![(0, 97_000), (97_000, 145_000)]);
    assert_eq!(out.chapters_shifted, 1);
    assert_eq!(out.new_duration_ms, None);
}

#[test]
fn overflowing_cuts_change_nothing() {
    let mut chapters = vec![ch(1, 0, 10)];
    let files = vec![file(1, Some(i64::MAX)), file(2, Some(i64::MAX)), file(3, None)];
    let r = apply_audiologo_cut(1, &params(3, 0, 5, None), &mut chapters, &files, &vec![], None);
    assert!(matches!(r, Err(ApiError::Internal(_))));
    assert_eq!(spans(&chapters), vec![(0, 10)]);
    assert!(recompute_book_duration(Some(i64::MIN), 1).is_err());
    assert_eq!(recompute_book_duration(Some(10), 3).expect("ok"), Some(7));
}

#[test]
fn candidates_are_approved_and_rejected() {
    assert!(matches!(
        require_candidate(4, false),
        Err(ApiError::NotFound(m)) if m == "no candidate row 4"
    ));
    assert_eq!(audiologos_reject(4, Some("candidate")).expect("ok").row_id, 4);
    assert!(matches!(
        audiologos_reject(4, None),
        Err(ApiError::NotFound(m)) if m == "no row 4"
    ));
    assert!(matches!(
        audiologos_reject(4, Some("applied")),
        Err(ApiError::BadRequest(m))
            if m == "row 4 is already applied; reverse-apply not yet supported"
    ));
    assert!(matches!(
        audiologos_reject(4, Some("rejected")),
        Err(ApiError::BadRequest(m))
            if m == "row 4 is at status='rejected'; only candidate rows can be rejected"
    ));
    let out = aborganizer::audiologo_apply::ApplyCutOutcome {
        row_id: 8,
        chapters_shifted: 3,
        new_duration_ms: None,
    };
    let r = approved(4, &out, true);
    assert_eq!((r.row_id, r.applied_row_id, r.chapters_shifted), (4, 8, 3));
}

#[test]
fn jingles_are_confirmed_after_enough_matches() {
    assert_eq!(AUTO_CONFIRM_AFTER_MATCHES, 5);
    assert_eq!(maybe_auto_confirm_audiologo(Some(("silence", 5))), Some("review_confirmed"));
    assert_eq!(maybe_auto_confirm_audiologo(Some(("silence", 4))), None);
    assert_eq!(maybe_auto_confirm_audiologo(Some(("review_confirmed", 9))), None);
    assert_eq!(maybe_auto_confirm_audiologo(None), None);
}

#[test]
fn user_edits_win() {
    let row = |field: &str, winner: bool| ProvenanceRow {
        book_id: 1,
        field: field.to_owned(),
        value: Some("old".to_owned()),
        source: "audnexus".to_owned(),
        stage: "consensus".to_owned(),
        is_winner: winner,
    };
    let mut rows = vec![row("title", true), row("subtitle", true), row("title", false)];
    record_user_edit(&mut rows, 1, "title", Some("New"));
    let winners: Vec<bool> = rows.iter().map(|r| r.is_winner).collect();
    assert_eq!(winners, vec![false, true, false, true]);
    assert_eq!(rows[3].source, "user_edit");
    assert_eq!(rows[3].stage, "api-user-edit");
    assert_eq!(rows[3].value.as_deref(), Some("New"));
}

#[test]
fn ratings_and_notes_are_checked() {
    assert_eq!(books_rating_patch(&RatingBody { rating: Some(5) }).expect("ok"), Some(5));
    assert_eq!(books_rating_patch(&RatingBody { rating: None }).expect("ok"), None);
    for n in [0_u8, 6] {
        match books_rating_patch(&RatingBody { rating: Some(n) }) {
            Err(ApiError::BadRequest(m)) => assert_eq!(m, format!("rating must be 1..=5, got {n}")),
            other => panic!("unexpected: {other:?}"),
        }
    }
    assert_eq!(books_notes_patch(NotesBody { notes: Some(" \n".to_owned()) }), None);
    assert_eq!(
        books_notes_patch(NotesBody { notes: Some(" x ".to_owned()) }).as_deref(),
        Some(" x ")
    );
    assert!(acknowledged(Ok(())).expect("ok").ok);
    assert!(matches!(
        acknowledged(Err(ProgressError::NotFound(8))),
        Err(ApiError::NotFound(m)) if m == "book 8"
    ));
}

#[test]
fn the_newest_report_stands() {
    assert!(session_sync(10, None).accepted);
    assert!(session_sync(10, Some(10)).accepted);
    assert!(!session_sync(10, Some(11)).accepted);
    let p = books_progress_get(3, None);
    assert_eq!((p.book_id, p.current_time_ms, p.is_finished), (3, 0, false));
    let q = books_progress_get(
        3,
        Some(MediaProgress {
            book_id: 3,
            current_time_ms: 55,
            is_finished: true,
            last_listened_at: Some(1),
            last_synced_from: Some("web".to_owned()),
            last_synced_at: Some(2),
        }),
    );
    assert_eq!(q.current_time_ms, 55);
    assert_eq!(q.last_synced_from.as_deref(), Some("web"));
}

#[test]
fn pipeline_stages_in_order() {
    let all = build_pipeline_stages(PipelineSwitches { tag_write_early: true, tag_write_final: true });
    assert!(!all.contains(&USER_EDIT_STAGE));
    assert_eq!(all[0], "tag-read");
    assert_eq!(all.len(), 23);
    assert_eq!(&all[21..], &["tag-write-early", "tag-write-final"]);
    let mut unique = all.clone();
    unique.sort();
    unique.dedup();
    assert_eq!(unique.len(), all.len());
    let base =
        build_pipeline_stages(PipelineSwitches { tag_write_early: false, tag_write_final: false });
    assert_eq!(base.last(), Some(&"transcode-m4b"));
    assert_eq!(bind_address("127.0.0.1", 8429), "127.0.0.1:8429");
}

#[test]
fn disks_report_their_room() {
    let b = DiskBlocks { block_size: 4_096, free_blocks: 10, total_blocks: 100 };
    assert_eq!(disk_bytes(Some(b)), (40_960, 409_600));
    let huge = DiskBlocks { block_size: u64::MAX, free_blocks: 1, total_blocks: 2 };
    assert_eq!(disk_bytes(Some(huge)), (u64::MAX, u64::MAX));
}

#[test]
fn missing_path_falls_back_to_sentinel() {
    let (free, total) = disk_bytes(None);
    assert_eq!((free, total), (u64::MAX, u64::MAX));
}

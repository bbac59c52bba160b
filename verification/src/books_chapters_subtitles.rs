//! Chapter marks as subtitles, in SubRip and WebVTT.

use crate::error;
use crate::ordering;
use crate::text;
use vstd::prelude::*;

verus! {

/// A chapter mark.
#[derive(Debug)]
pub struct ChapterMark {
    /// Position in the book.
    pub idx: i64,
    /// Title.
    pub title: String,
    /// Beginning.
    pub start_ms: i64,
    /// End.
    pub end_ms: i64,
    /// Beginning in the transcript.
    pub start_char: i64,
    /// End in the transcript.
    pub end_char: i64,
}

/// The chapter marks of a book.
#[derive(Debug)]
pub struct ChapterMarksPayload {
    /// The book.
    pub book_id: i64,
    /// Its duration.
    pub total_duration_ms: i64,
    /// The marks.
    pub chapters: Vec<ChapterMark>,
}

// ── Timestamps ─────────────────────────────────────────────────────

/// Milliseconds, never less than zero.
pub open spec fn floored(ms: i64) -> nat {
    if ms < 0 {
        0
    } else {
        ms as nat
    }
}

/// Hours of a time, at most the largest 32-bit value.
pub open spec fn hours_of(ms: i64) -> nat {
    let h = floored(ms) / 3_600_000;
    if h > u32::MAX {
        u32::MAX as nat
    } else {
        h
    }
}

/// A time as hours, minutes, seconds and milliseconds.
pub fn split_ms(ms: i64) -> (r: (u32, u32, u32, u32))
    ensures
        r.0 == hours_of(ms),
        r.1 == floored(ms) / 60_000 % 60,
        r.2 == floored(ms) / 1000 % 60,
        r.3 == floored(ms) % 1000,
{
    let t: u64 = if ms < 0 {
        0
    } else {
        ms as u64
    };
    let secs: u64 = t / 1000;
    let mins: u64 = secs / 60;
    let hours: u64 = mins / 60;
    let h: u32 = if hours > u32::MAX as u64 {
        u32::MAX
    } else {
        hours as u32
    };
    (h, (mins % 60) as u32, (secs % 60) as u32, (t % 1000) as u32)
}

/// A timestamp `HH:MM:SS` with milliseconds behind a separator.
pub open spec fn timestamp(ms: i64, sep: Seq<char>) -> Seq<char> {
    text::zero_padded(hours_of(ms), 2) + ":"@ + text::zero_padded(floored(ms) / 60_000 % 60, 2)
        + ":"@ + text::zero_padded(floored(ms) / 1000 % 60, 2) + sep + text::zero_padded(
        floored(ms) % 1000,
        3,
    )
}

fn write_timestamp(ms: i64, sep: &str) -> (s: String)
    ensures
        s@ == timestamp(ms, sep@),
{
    let (h, m, sec, frac) = split_ms(ms);
    let mut s = text::zero_pad(h as u64, 2);
    s.append(":");
    s.append(text::zero_pad(m as u64, 2).as_str());
    s.append(":");
    s.append(text::zero_pad(sec as u64, 2).as_str());
    s.append(sep);
    s.append(text::zero_pad(frac as u64, 3).as_str());
    s
}

/// A SubRip timestamp, `HH:MM:SS,mmm`.
pub fn format_srt_timestamp(ms: i64) -> (s: String)
    ensures
        s@ == timestamp(ms, ","@),
{
    write_timestamp(ms, ",")
}

/// A WebVTT timestamp, `HH:MM:SS.mmm`.
pub fn format_vtt_timestamp(ms: i64) -> (s: String)
    ensures
        s@ == timestamp(ms, "."@),
{
    write_timestamp(ms, ".")
}

// ── Cues ───────────────────────────────────────────────────────────

/// A text on one line: line ends become blanks.
pub open spec fn one_line(s: Seq<char>) -> Seq<char> {
    Seq::new(
        s.len(),
        |i: int|
            if s[i] == '\r' || s[i] == '\n' {
                ' '
            } else {
                s[i]
            },
    )
}

/// A title on one line.
pub fn sanitize_cue_text(raw: &str) -> (s: String)
    ensures
        s@ == one_line(raw@),
{
    let v = text::chars_of(raw);
    let mut s = String::new();
    let mut i: usize = 0;
    while i < v.len()
        invariant
            i <= v@.len(),
            v@ == raw@,
            s@ == one_line(raw@).take(i as int),
        decreases v@.len() - i,
    {
        let c = v[i];
        if c == '\r' || c == '\n' {
            s.push(' ');
        } else {
            s.push(c);
        }
        i = i + 1;
        proof {
            assert(s@ =~= one_line(raw@).take(i as int));
        }
    }
    proof {
        assert(one_line(raw@).take(i as int) =~= one_line(raw@));
    }
    s
}

/// The `n`th cue, counted from zero: number, times and title.
#[verifier::opaque]
pub open spec fn cue(n: nat, mark: ChapterMark, sep: Seq<char>) -> Seq<char> {
    text::decimal(n + 1) + "\n"@ + timestamp(mark.start_ms, sep) + " --> "@ + timestamp(
        mark.end_ms,
        sep,
    ) + "\n"@ + one_line(mark.title@) + "\n\n"@
}

/// The first `n` cues.
pub open spec fn cues(marks: Seq<ChapterMark>, sep: Seq<char>, n: nat) -> Seq<char>
    decreases n,
{
    if n == 0 {
        Seq::empty()
    } else {
        cues(marks, sep, (n - 1) as nat) + cue((n - 1) as nat, marks[n - 1], sep)
    }
}

fn write_cue(n: usize, mark: &ChapterMark, sep: &str) -> (s: String)
    requires
        n < usize::MAX,
    ensures
        s@ == cue(n as nat, *mark, sep@),
{
    let mut s = text::usize_text(n + 1);
    s.append("\n");
    s.append(write_timestamp(mark.start_ms, sep).as_str());
    s.append(" --> ");
    s.append(write_timestamp(mark.end_ms, sep).as_str());
    s.append("\n");
    s.append(sanitize_cue_text(mark.title.as_str()).as_str());
    s.append("\n\n");
    proof {
        reveal(cue);
    }
    s
}

/// Sort keys of marks: their position in the book, counted from the least
/// number there is.
pub open spec fn idx_keys(marks: Seq<ChapterMark>) -> Seq<ordering::KeyView> {
    Seq::new(
        marks.len(),
        |i: int| ordering::KeyView { rank: marks[i].idx - i64::MIN, parts: Seq::empty() },
    )
}

/// The marks in the order of the book: by `idx`, equal ones as they came.
pub open spec fn by_idx(marks: Seq<ChapterMark>) -> Seq<ChapterMark> {
    let order = ordering::order_of(idx_keys(marks));
    Seq::new(order.len(), |i: int| marks[order[i] as int])
}

fn rank_of(idx: i64) -> (r: u64)
    ensures
        r == idx - i64::MIN,
{
    if idx >= 0 {
        idx as u64 + 0x8000_0000_0000_0000u64
    } else {
        (idx + i64::MAX + 1) as u64
    }
}

fn book_order(marks: &Vec<ChapterMark>) -> (order: Vec<usize>)
    ensures
        order@ == ordering::order_of(idx_keys(marks@)),
        ordering::stable_order(idx_keys(marks@), order@),
{
    let mut keys: Vec<ordering::SortKey> = Vec::new();
    let mut i: usize = 0;
    while i < marks.len()
        invariant
            i <= marks@.len(),
            keys@.len() == i,
            forall|j: int| 0 <= j < i ==> (#[trigger] keys@[j])@ == idx_keys(marks@)[j],
        decreases marks@.len() - i,
    {
        let parts: Vec<String> = Vec::new();
        proof {
            assert(text::texts(parts@) =~= Seq::empty());
        }
        keys.push(ordering::SortKey { rank: rank_of(marks[i].idx), parts });
        i = i + 1;
    }
    proof {
        assert(ordering::key_views(keys@) =~= idx_keys(marks@));
    }
    ordering::sorted_positions(&keys)
}

fn write_cues(header: &str, marks: &Vec<ChapterMark>, sep: &str) -> (s: String)
    ensures
        s@ == header@ + cues(by_idx(marks@), sep@, marks@.len()),
{
    let order = book_order(marks);
    let ghost sorted = by_idx(marks@);
    let mut s = text::owned(header);
    let mut i: usize = 0;
    let len: usize = marks.len();
    proof {
        assert(s@ =~= header@ + cues(sorted, sep@, 0));
    }
    while i < len
        invariant
            i <= len,
            len == marks@.len(),
            ordering::stable_order(idx_keys(marks@), order@),
            order@ == ordering::order_of(idx_keys(marks@)),
            sorted == by_idx(marks@),
            s@ == header@ + cues(sorted, sep@, i as nat),
        decreases len - i,
    {
        let k: usize = order[i];
        let c = write_cue(i, &marks[k], sep);
        let ghost before = s@;
        s.append(c.as_str());
        proof {
            assert(sorted[i as int] == marks@[k as int]);
            assert(before + c@ =~= header@ + (cues(sorted, sep@, i as nat) + c@));
        }
        i = i + 1;
    }
    s
}

/// Chapter marks in SubRip: a cue for each, in the order of the book, numbered
/// from one.
pub fn render_srt(payload: &ChapterMarksPayload) -> (s: String)
    ensures
        s@ == cues(by_idx(payload.chapters@), ","@, payload.chapters@.len()),
{
    let s = write_cues("", &payload.chapters, ",");
    proof {
        reveal_strlit("");
        let c = cues(by_idx(payload.chapters@), ","@, payload.chapters@.len());
        assert(""@ + c =~= c);
    }
    s
}

/// Chapter marks in WebVTT: the header, then a cue for each, in the order of
/// the book, numbered from one.
pub fn render_vtt(payload: &ChapterMarksPayload) -> (s: String)
    ensures
        s@ == "WEBVTT\n\n"@ + cues(by_idx(payload.chapters@), "."@, payload.chapters@.len()),
{
    write_cues("WEBVTT\n\n", &payload.chapters, ".")
}

// ── The answer ─────────────────────────────────────────────────────

/// Kind of cached content that holds the chapter marks.
pub const CHAPTER_MARKS_CACHE: &'static str = "transcript_chapter_marks";

/// The cached marks of a book as text, or why there are none.
pub fn load_chapter_marks(book_id: i64, book_exists: bool, content: Option<String>) -> (r: Result<
    String,
    error::ApiError,
>)
    ensures
        !book_exists ==> (r matches Err(e) && e@ == error::ErrorView::NotFound(
            error::numbered_text("book"@, book_id as int),
        )),
        book_exists ==> match content {
            Some(c) => r == Ok::<String, error::ApiError>(c),
            None => r matches Err(e) && e@ == error::ErrorView::NotFound(
                error::numbered_text("book"@, book_id as int)
                    + " has no chapter marks cached yet"@,
            ),
        },
{
    if !book_exists {
        return Err(error::missing("book", book_id));
    }
    match content {
        Some(c) => Ok(c),
        None => {
            let mut m = error::numbered("book", book_id);
            m.append(" has no chapter marks cached yet");
            Err(error::ApiError::NotFound(m))
        },
    }
}

/// That the cached marks cannot be read.
pub fn corrupt_marks() -> (e: error::ApiError)
    ensures
        e@ == error::ErrorView::Invariant(
            "ai_cache.transcript_chapter_marks row failed JSON parse: corrupt cache (bug or manual edit)"@,
        ),
{
    error::ApiError::Internal(
        error::CoreError::Invariant(
            text::owned(
                "ai_cache.transcript_chapter_marks row failed JSON parse: corrupt cache (bug or manual edit)",
            ),
        ),
    )
}

/// The name under which a browser saves the subtitles.
pub fn subtitle_disposition(book_id: i64, extension: &str) -> (s: String)
    ensures
        s@ == "attachment; filename=\"book-"@ + text::signed_decimal(book_id as int)
            + "-chapters."@ + extension@ + "\""@,
{
    let mut s = text::owned("attachment; filename=\"book-");
    s.append(text::i64_text(book_id).as_str());
    s.append("-chapters.");
    s.append(extension);
    s.append("\"");
    s
}

// ── Laws ───────────────────────────────────────────────────────────

/// A title cannot break its cue: on one line there are no line ends, and a
/// title without them stays as it is.
pub proof fn law_cue_text_is_one_line(s: Seq<char>)
    ensures
        one_line(s).len() == s.len(),
        forall|i: int|
            0 <= i < s.len() ==> (#[trigger] one_line(s)[i]) != '\n' && one_line(s)[i] != '\r',
        one_line(one_line(s)) == one_line(s),
{
    assert(one_line(one_line(s)) =~= one_line(s));
}

/// A stable order of the marks by `idx` is the order of the book: what lists
/// every mark once, with ascending `idx` and equal ones as they came, is what
/// the cues follow.
pub proof fn law_book_order(marks: Seq<ChapterMark>, order: Seq<usize>)
    requires
        marks.len() <= usize::MAX,
        order.len() == marks.len(),
        forall|i: int| 0 <= i < order.len() ==> #[trigger] order[i] < marks.len(),
        forall|x: usize| x < marks.len() ==> #[trigger] order.contains(x),
        forall|i: int, j: int|
            0 <= i < j < order.len() ==> {
                let (x, y) = (#[trigger] order[i], #[trigger] order[j]);
                marks[x as int].idx < marks[y as int].idx || (marks[x as int].idx
                    == marks[y as int].idx && x < y)
            },
    ensures
        by_idx(marks) == Seq::new(marks.len(), |i: int| marks[order[i] as int]),
{
    let keys = idx_keys(marks);
    assert forall|i: int, j: int| 0 <= i < j < order.len() implies ordering::before(
        keys,
        #[trigger] order[i] as int,
        #[trigger] order[j] as int,
    ) by {
        let (x, y) = (order[i] as int, order[j] as int);
        assert(keys[x].rank <= keys[y].rank);
    }
    assert(ordering::stable_order(keys, order));
    ordering::law_stable_order_unique(keys, order, ordering::order_of(keys));
    assert(by_idx(marks) =~= Seq::new(marks.len(), |i: int| marks[order[i] as int]));
}

/// Marks that stand in the order of the book stay as they are.
pub proof fn law_ordered_marks_stay(marks: Seq<ChapterMark>)
    requires
        marks.len() <= usize::MAX,
        forall|i: int, j: int|
            0 <= i < j < marks.len() ==> (#[trigger] marks[i]).idx <= (#[trigger] marks[j]).idx,
    ensures
        by_idx(marks) == marks,
{
    let order = Seq::new(marks.len(), |i: int| i as usize);
    assert forall|x: usize| x < marks.len() implies #[trigger] order.contains(x) by {
        assert(order[x as int] == x);
    }
    law_book_order(marks, order);
    assert(by_idx(marks) =~= marks);
}

/// The parts of a time give it back, as far as the hours fit.
pub proof fn law_split_ms_exact(ms: i64)
    requires
        floored(ms) / 3_600_000 <= u32::MAX,
    ensures
        floored(ms) == hours_of(ms) * 3_600_000 + (floored(ms) / 60_000 % 60) * 60_000 + (floored(
            ms,
        ) / 1000 % 60) * 1000 + floored(ms) % 1000,
{
    let t = floored(ms) as int;
    vstd::arithmetic::div_mod::lemma_div_denominator(t, 1000, 60);
    vstd::arithmetic::div_mod::lemma_div_denominator(t, 60_000, 60);
    vstd::arithmetic::div_mod::lemma_fundamental_div_mod(t, 1000);
    vstd::arithmetic::div_mod::lemma_fundamental_div_mod(t / 1000, 60);
    vstd::arithmetic::div_mod::lemma_fundamental_div_mod(t / 60_000, 60);
}

/// A time before the beginning counts as the beginning; any other as it is.
pub proof fn law_no_time_before_zero(ms: i64)
    ensures
        ms < 0 ==> floored(ms) == 0,
        ms >= 0 ==> floored(ms) == ms,
{
}

/// The hours of a time are the whole ones in it, as far as they fit.
pub proof fn law_whole_hours(ms: i64)
    requires
        ms >= 0,
    ensures
        hours_of(ms) <= u32::MAX,
        hours_of(ms) * 3_600_000 <= ms,
        hours_of(ms) < u32::MAX ==> ms < (hours_of(ms) + 1) * 3_600_000,
{
}

/// A timestamp reads back as its time: behind two digits or more of hours stand
/// two each of minutes and seconds and three of milliseconds.
pub proof fn law_timestamp_reads_back(ms: i64, sep: Seq<char>)
    requires
        0 <= ms < 360_000_000,
        sep.len() == 1,
    ensures
        ({
            let t = timestamp(ms, sep);
            &&& t.len() == 12
            &&& t[2] == ':'
            &&& t[5] == ':'
            &&& t[8] == sep[0]
            &&& ms == 3_600_000 * text::number_read(t.subrange(0, 2)) + 60_000
                * text::number_read(t.subrange(3, 5)) + 1000 * text::number_read(t.subrange(6, 8))
                + text::number_read(t.subrange(9, 12))
            &&& text::number_read(t.subrange(3, 5)) < 60
            &&& text::number_read(t.subrange(6, 8)) < 60
        }),
{
    reveal_strlit(":");
    let (h, m, s, r) = (
        hours_of(ms),
        floored(ms) / 60_000 % 60,
        floored(ms) / 1000 % 60,
        floored(ms) % 1000,
    );
    assert(h < 100 && m < 60 && s < 60 && r < 1000);
    law_split_ms_exact(ms);
    text::law_zero_padded_reads_back(h, 2);
    text::law_zero_padded_reads_back(m, 2);
    text::law_zero_padded_reads_back(s, 2);
    text::law_zero_padded_reads_back(r, 3);
    let t = timestamp(ms, sep);
    assert(t.len() == 12);
    assert(t.subrange(0, 2) =~= text::zero_padded(h, 2));
    assert(t.subrange(3, 5) =~= text::zero_padded(m, 2));
    assert(t.subrange(6, 8) =~= text::zero_padded(s, 2));
    assert(t.subrange(9, 12) =~= text::zero_padded(r, 3));
}

/// A cue is told by its number, counted from one, the times of the mark with an
/// arrow between them, and its title, each on its line.
pub proof fn law_cue_layout(n: nat, mark: ChapterMark, sep: Seq<char>)
    ensures
        ({
            let number = text::decimal(n + 1);
            let (from, to) = (timestamp(mark.start_ms, sep), timestamp(mark.end_ms, sep));
            let title = one_line(mark.title@);
            cue(n, mark, sep) == number + "\n"@ + from + " --> "@ + to + "\n"@ + title + "\n\n"@
        }),
        text::number_read(text::decimal(n + 1)) == n + 1,
{
    reveal(cue);
    text::law_decimal_reads_back(n + 1);
}

/// Every mark gives one cue: the cues of one more are those before, and its
/// own behind them, with the next number.
pub proof fn law_cue_for_each(marks: Seq<ChapterMark>, sep: Seq<char>, n: nat)
    requires
        n < marks.len(),
    ensures
        cues(marks, sep, 0) == Seq::<char>::empty(),
        cues(marks, sep, n + 1) == cues(marks, sep, n) + cue(n, marks[n as int], sep),
{
}

/// The cues follow ascending places in the book, one for each mark.
pub proof fn law_marks_are_sorted(marks: Seq<ChapterMark>)
    requires
        marks.len() <= usize::MAX,
    ensures
        by_idx(marks).len() == marks.len(),
        forall|i: int| 0 <= i < marks.len() ==> marks.contains(#[trigger] by_idx(marks)[i]),
        forall|k: int| 0 <= k < marks.len() ==> by_idx(marks).contains(#[trigger] marks[k]),
        forall|i: int, j: int|
            0 <= i < j < marks.len() ==> (#[trigger] by_idx(marks)[i]).idx <= (
            #[trigger] by_idx(marks)[j]).idx,
{
    let keys = idx_keys(marks);
    let order = ordering::order_of(keys);
    ordering::law_order_of(keys);
    assert forall|k: int| 0 <= k < marks.len() implies by_idx(marks).contains(
        #[trigger] marks[k],
    ) by {
        assert(order.contains(k as usize));
        let i = choose|i: int| 0 <= i < order.len() && order[i] == k as usize;
        assert(by_idx(marks)[i] == marks[k]);
    }
    assert forall|i: int, j: int| 0 <= i < j < marks.len() implies (
    #[trigger] by_idx(marks)[i]).idx <= (#[trigger] by_idx(marks)[j]).idx by {
        assert(ordering::before(keys, order[i] as int, order[j] as int));
    }
}

/// Line ends become blanks, and every other sign of a title stays.
pub proof fn law_title_signs(s: Seq<char>, i: int)
    requires
        0 <= i < s.len(),
    ensures
        s[i] == '\n' || s[i] == '\r' ==> one_line(s)[i] == ' ',
        s[i] != '\n' && s[i] != '\r' ==> one_line(s)[i] == s[i],
{
}

/// The kind of cached content that holds the chapter marks.
pub proof fn law_marks_cache()
    ensures
        CHAPTER_MARKS_CACHE@ == "transcript_chapter_marks"@,
{
}

} // verus!

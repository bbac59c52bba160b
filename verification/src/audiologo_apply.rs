//! Cutting a jingle out of a book: how much is cut, where the cut stands in
//! the book, and how chapters and duration follow it.

use crate::error;
use vstd::prelude::*;

verus! {

/// A cut to apply.
pub struct ApplyCutParams<'a> {
    /// The book.
    pub book_id: i64,
    /// The file of the book that is cut.
    pub file_id: i64,
    /// `intro` or `outro`.
    pub kind: &'a str,
    /// Where the jingle begins in the file.
    pub jingle_start_ms: i64,
    /// Where the jingle ends in the file.
    pub jingle_end_ms: i64,
    /// How much of the jingle is left standing; none counts as zero.
    pub padding_ms: Option<i64>,
    /// How the jingle was found.
    pub method: &'a str,
    /// The jingle that was matched.
    pub audiologo_id: Option<i64>,
}

/// What a cut did.
#[derive(Debug)]
pub struct ApplyCutOutcome {
    /// The row of the cut.
    pub row_id: i64,
    /// Number of chapters that moved.
    pub chapters_shifted: i64,
    /// Duration of the book after the cut.
    pub new_duration_ms: Option<i64>,
}

/// The place and the amount of a cut.
#[derive(Debug, Clone, Copy)]
pub struct ShiftArgs {
    /// The book.
    pub book_id: i64,
    /// The file that is cut.
    pub file_id: i64,
    /// Where the jingle begins in the file.
    pub jingle_start_ms: i64,
    /// Where the jingle ends in the file.
    pub jingle_end_ms: i64,
    /// How much is cut.
    pub cut_ms: i64,
}

/// A file of a book.
#[derive(Debug, Clone, Copy)]
pub struct FileSpan {
    /// The file.
    pub file_id: i64,
    /// Its duration; none counts as zero.
    pub duration_ms: Option<i64>,
}

/// A cut that stands.
#[derive(Debug, Clone, Copy)]
pub struct AppliedCut {
    /// The file that is cut.
    pub file_id: i64,
    /// Where the jingle begins in the file.
    pub jingle_start_ms: i64,
    /// Where the jingle ends in the file.
    pub jingle_end_ms: i64,
    /// How much of the jingle is left standing.
    pub padding_ms: Option<i64>,
}

/// A chapter of a book. Times count from the beginning of the book.
#[derive(Debug, Clone, Copy)]
pub struct ChapterSpan {
    /// The chapter.
    pub chapter_id: i64,
    /// Beginning.
    pub start_ms: i64,
    /// End.
    pub end_ms: i64,
}

/// Whether a value fits a stored integer.
pub open spec fn fits(n: int) -> bool {
    i64::MIN <= n <= i64::MAX
}

fn add_checked(a: i64, b: i64) -> (r: Option<i64>)
    ensures
        match r {
            Some(v) => fits(a + b) && v == a + b,
            None => !fits(a + b),
        },
{
    a.checked_add(b)
}

fn sub_checked(a: i64, b: i64) -> (r: Option<i64>)
    ensures
        match r {
            Some(v) => fits(a - b) && v == a - b,
            None => !fits(a - b),
        },
{
    a.checked_sub(b)
}

// ── The amount ─────────────────────────────────────────────────────

/// How much is cut: the jingle without its padding, and never less than
/// nothing.
pub open spec fn cut_of(start: int, end: int, padding: Option<i64>) -> int {
    let pad = match padding {
        Some(p) => p as int,
        None => 0,
    };
    if end - start - pad > 0 {
        end - start - pad
    } else {
        0
    }
}

/// How much is cut, where that fits a stored integer.
pub fn cut_amount(start: i64, end: i64, padding: Option<i64>) -> (r: Option<i64>)
    ensures
        match r {
            Some(v) => v == cut_of(start as int, end as int, padding),
            None => !fits(cut_of(start as int, end as int, padding)),
        },
{
    let pad: i128 = match padding {
        Some(p) => p as i128,
        None => 0,
    };
    let cut: i128 = end as i128 - start as i128 - pad;
    if cut <= 0 {
        Some(0)
    } else if cut > i64::MAX as i128 {
        None
    } else {
        Some(cut as i64)
    }
}

// ── The place ──────────────────────────────────────────────────────

/// Whether a file is one of the book's files before another.
pub open spec fn precedes(files: Seq<FileSpan>, id: i64, file_id: i64) -> bool {
    id < file_id && exists|i: int|
        0 <= i < files.len() && (#[trigger] files[i]).file_id == id
}

/// Duration of the first `n` files, as far as they stand before `file_id`.
pub open spec fn duration_before(files: Seq<FileSpan>, file_id: i64, n: int) -> int
    decreases n,
{
    if n <= 0 {
        0
    } else {
        duration_before(files, file_id, n - 1) + if files[n - 1].file_id < file_id {
            match files[n - 1].duration_ms {
                Some(d) => d as int,
                None => 0,
            }
        } else {
            0
        }
    }
}

/// What the first `n` cuts took away before `file_id`.
pub open spec fn cut_before(
    files: Seq<FileSpan>,
    cuts: Seq<AppliedCut>,
    file_id: i64,
    n: int,
) -> int
    decreases n,
{
    if n <= 0 {
        0
    } else {
        cut_before(files, cuts, file_id, n - 1) + if precedes(
            files,
            cuts[n - 1].file_id,
            file_id,
        ) {
            cut_of(
                cuts[n - 1].jingle_start_ms as int,
                cuts[n - 1].jingle_end_ms as int,
                cuts[n - 1].padding_ms,
            )
        } else {
            0
        }
    }
}

/// Where a file begins in the book as it stands: the duration of the files
/// before it without what was cut from them.
pub open spec fn book_offset(
    files: Seq<FileSpan>,
    cuts: Seq<AppliedCut>,
    file_id: i64,
) -> int {
    duration_before(files, file_id, files.len() as int) - cut_before(
        files,
        cuts,
        file_id,
        cuts.len() as int,
    )
}

/// Whether every sum on the way to the offset fits a stored integer.
pub open spec fn offset_fits(
    files: Seq<FileSpan>,
    cuts: Seq<AppliedCut>,
    file_id: i64,
) -> bool {
    &&& forall|k: int|
        0 <= k <= files.len() ==> fits(#[trigger] duration_before(files, file_id, k))
    &&& forall|k: int| 0 <= k <= cuts.len() ==> fits(#[trigger] cut_before(files, cuts, file_id, k))
    &&& fits(book_offset(files, cuts, file_id))
}

fn is_preceding(files: &Vec<FileSpan>, id: i64, file_id: i64) -> (r: bool)
    ensures
        r == precedes(files@, id, file_id),
{
    if id >= file_id {
        return false;
    }
    let mut i: usize = 0;
    while i < files.len()
        invariant
            i <= files@.len(),
            id < file_id,
            forall|j: int| 0 <= j < i ==> (#[trigger] files@[j]).file_id != id,
        decreases files@.len() - i,
    {
        if files[i].file_id == id {
            return true;
        }
        i = i + 1;
    }
    false
}

fn total_duration(files: &Vec<FileSpan>, file_id: i64) -> (r: Option<i64>)
    ensures
        match r {
            Some(v) => {
                &&& v == duration_before(files@, file_id, files@.len() as int)
                &&& forall|k: int|
                    0 <= k <= files@.len() ==> fits(#[trigger] duration_before(files@, file_id, k))
            },
            None => exists|k: int|
                0 <= k <= files@.len() && !fits(#[trigger] duration_before(files@, file_id, k)),
        },
{
    let mut total: i64 = 0;
    let mut i: usize = 0;
    while i < files.len()
        invariant
            i <= files@.len(),
            total == duration_before(files@, file_id, i as int),
            forall|k: int|
                0 <= k <= i ==> fits(#[trigger] duration_before(files@, file_id, k)),
        decreases files@.len() - i,
    {
        let ghost next = duration_before(files@, file_id, i + 1);
        if files[i].file_id < file_id {
            if let Some(d) = files[i].duration_ms {
                match add_checked(total, d) {
                    Some(v) => {
                        total = v;
                    },
                    None => {
                        return None;
                    },
                }
            }
        }
        proof {
            assert(fits(next));
        }
        i = i + 1;
    }
    Some(total)
}

fn total_cut(files: &Vec<FileSpan>, cuts: &Vec<AppliedCut>, file_id: i64) -> (r: Option<i64>)
    ensures
        match r {
            Some(v) => {
                &&& v == cut_before(files@, cuts@, file_id, cuts@.len() as int)
                &&& forall|k: int|
                    0 <= k <= cuts@.len() ==> fits(
                        #[trigger] cut_before(files@, cuts@, file_id, k),
                    )
            },
            None => exists|k: int|
                0 <= k <= cuts@.len() && !fits(#[trigger] cut_before(files@, cuts@, file_id, k)),
        },
{
    let mut total: i64 = 0;
    let mut i: usize = 0;
    while i < cuts.len()
        invariant
            i <= cuts@.len(),
            total == cut_before(files@, cuts@, file_id, i as int),
            total >= 0,
            forall|k: int|
                0 <= k <= i ==> fits(#[trigger] cut_before(files@, cuts@, file_id, k)),
        decreases cuts@.len() - i,
    {
        let c = cuts[i];
        let ghost next = cut_before(files@, cuts@, file_id, i + 1);
        if is_preceding(files, c.file_id, file_id) {
            match cut_amount(c.jingle_start_ms, c.jingle_end_ms, c.padding_ms) {
                Some(amount) => match add_checked(total, amount) {
                    Some(v) => {
                        total = v;
                    },
                    None => {
                        return None;
                    },
                },
                None => {
                    proof {
                        assert(!fits(next));
                    }
                    return None;
                },
            }
        }
        proof {
            assert(fits(next));
        }
        i = i + 1;
    }
    Some(total)
}

/// Where a file begins in the book, where all sums fit.
pub fn cumulative_before(files: &Vec<FileSpan>, cuts: &Vec<AppliedCut>, file_id: i64) -> (r:
    Option<i64>)
    ensures
        match r {
            Some(v) => offset_fits(files@, cuts@, file_id) && v == book_offset(
                files@,
                cuts@,
                file_id,
            ),
            None => !offset_fits(files@, cuts@, file_id),
        },
{
    match (total_duration(files, file_id), total_cut(files, cuts, file_id)) {
        (Some(d), Some(c)) => sub_checked(d, c),
        _ => None,
    }
}

// ── The chapters ───────────────────────────────────────────────────

/// Where a cut stands for a chapter.
#[derive(Debug, Clone, Copy, PartialEq, Eq, Structural)]
pub enum Affected {
    /// The chapter begins behind the jingle: all of it moves.
    After,
    /// The chapter reaches into the jingle or over it: its end moves.
    Spanning,
    /// The chapter ends before the jingle.
    Before,
}

/// Where a jingle from `start` to `end` stands for a chapter.
pub open spec fn affected(ch: ChapterSpan, start: int, end: int) -> Affected {
    if ch.start_ms >= end {
        Affected::After
    } else if ch.end_ms > start {
        Affected::Spanning
    } else {
        Affected::Before
    }
}

/// Beginning and end of a chapter after a cut.
pub open spec fn moved(ch: ChapterSpan, start: int, end: int, cut: int) -> (int, int) {
    match affected(ch, start, end) {
        Affected::After => (ch.start_ms - cut, ch.end_ms - cut),
        Affected::Spanning => (ch.start_ms as int, ch.end_ms - cut),
        Affected::Before => (ch.start_ms as int, ch.end_ms as int),
    }
}

/// Whether a chapter after a cut fits.
pub open spec fn moved_fits(ch: ChapterSpan, start: int, end: int, cut: int) -> bool {
    fits(moved(ch, start, end, cut).0) && fits(moved(ch, start, end, cut).1)
}

/// Number of the first `n` chapters that a cut moves.
pub open spec fn moved_count(chapters: Seq<ChapterSpan>, start: int, end: int, n: int) -> int
    decreases n,
{
    if n <= 0 {
        0
    } else {
        moved_count(chapters, start, end, n - 1) + if affected(chapters[n - 1], start, end)
            == Affected::Before {
            0int
        } else {
            1int
        }
    }
}

/// Whether `after` are the chapters `before` after a cut.
pub open spec fn chapters_moved(
    before: Seq<ChapterSpan>,
    after: Seq<ChapterSpan>,
    start: int,
    end: int,
    cut: int,
) -> bool {
    &&& after.len() == before.len()
    &&& forall|i: int|
        0 <= i < before.len() ==> {
            &&& (#[trigger] after[i]).chapter_id == before[i].chapter_id
            &&& after[i].start_ms == moved(before[i], start, end, cut).0
            &&& after[i].end_ms == moved(before[i], start, end, cut).1
        }
}

fn move_chapter(ch: ChapterSpan, start: i64, end: i64, cut: i64) -> (r: Option<(ChapterSpan, bool)>)
    ensures
        match r {
            Some((n, touched)) => {
                &&& moved_fits(ch, start as int, end as int, cut as int)
                &&& n.chapter_id == ch.chapter_id
                &&& n.start_ms == moved(ch, start as int, end as int, cut as int).0
                &&& n.end_ms == moved(ch, start as int, end as int, cut as int).1
                &&& touched == (affected(ch, start as int, end as int) != Affected::Before)
            },
            None => !moved_fits(ch, start as int, end as int, cut as int),
        },
{
    if ch.start_ms >= end {
        match (sub_checked(ch.start_ms, cut), sub_checked(ch.end_ms, cut)) {
            (Some(s), Some(e)) => Some(
                (ChapterSpan { chapter_id: ch.chapter_id, start_ms: s, end_ms: e }, true),
            ),
            _ => None,
        }
    } else if ch.end_ms > start {
        match sub_checked(ch.end_ms, cut) {
            Some(e) => Some(
                (
                    ChapterSpan { chapter_id: ch.chapter_id, start_ms: ch.start_ms, end_ms: e },
                    true,
                ),
            ),
            None => None,
        }
    } else {
        Some((ch, false))
    }
}

/// Whether a cut can be carried out within stored integers.
pub open spec fn shift_fits(
    chapters: Seq<ChapterSpan>,
    files: Seq<FileSpan>,
    cuts: Seq<AppliedCut>,
    args: ShiftArgs,
) -> bool {
    let offset = book_offset(files, cuts, args.file_id);
    let start = offset + args.jingle_start_ms;
    let end = offset + args.jingle_end_ms;
    &&& offset_fits(files, cuts, args.file_id)
    &&& fits(start)
    &&& fits(end)
    &&& forall|i: int|
        0 <= i < chapters.len() ==> moved_fits(
            #[trigger] chapters[i],
            start,
            end,
            args.cut_ms as int,
        )
    &&& chapters.len() <= i64::MAX
}

fn overflow() -> (e: error::ApiError)
    ensures
        e@ == error::ErrorView::Database("audiologo shift chapters"@ + ": "@ + "integer overflow"@),
{
    error::database_error("audiologo shift chapters", "integer overflow")
}

/// Moves the chapters of a book for a cut in one of its files, and says how
/// many moved. `cuts` are the cuts that stand. Each chapter is judged by where
/// it stood before the cut.
pub fn shift_chapters_for_cut(
    chapters: &mut Vec<ChapterSpan>,
    files: &Vec<FileSpan>,
    cuts: &Vec<AppliedCut>,
    args: ShiftArgs,
) -> (r: Result<i64, error::ApiError>)
    ensures
        ({
            let offset = book_offset(files@, cuts@, args.file_id);
            let start = offset + args.jingle_start_ms;
            let end = offset + args.jingle_end_ms;
            match r {
                Ok(n) => {
                    &&& shift_fits(old(chapters)@, files@, cuts@, args)
                    &&& chapters_moved(
                        old(chapters)@,
                        final(chapters)@,
                        start,
                        end,
                        args.cut_ms as int,
                    )
                    &&& n == moved_count(old(chapters)@, start, end, old(chapters)@.len() as int)
                },
                Err(e) => {
                    &&& !shift_fits(old(chapters)@, files@, cuts@, args)
                    &&& final(chapters)@ == old(chapters)@
                    &&& e@ == error::ErrorView::Database(
                        "audiologo shift chapters"@ + ": "@ + "integer overflow"@,
                    )
                },
            }
        }),
{
    let offset = match cumulative_before(files, cuts, args.file_id) {
        Some(o) => o,
        None => {
            return Err(overflow());
        },
    };
    let (start, end) = match (
        add_checked(offset, args.jingle_start_ms),
        add_checked(offset, args.jingle_end_ms),
    ) {
        (Some(s), Some(e)) => (s, e),
        _ => {
            return Err(overflow());
        },
    };
    let total: usize = chapters.len();
    if total as u128 > i64::MAX as u128 {
        return Err(overflow());
    }
    let mut out: Vec<ChapterSpan> = Vec::new();
    let mut count: i64 = 0;
    let mut i: usize = 0;
    while i < total
        invariant
            i <= total,
            total == chapters@.len(),
            total <= i64::MAX,
            chapters@ == old(chapters)@,
            offset == book_offset(files@, cuts@, args.file_id),
            start == offset + args.jingle_start_ms,
            end == offset + args.jingle_end_ms,
            out@.len() == i,
            0 <= count <= i,
            count == moved_count(chapters@, start as int, end as int, i as int),
            forall|j: int|
                0 <= j < i ==> moved_fits(
                    #[trigger] chapters@[j],
                    start as int,
                    end as int,
                    args.cut_ms as int,
                ),
            forall|j: int|
                0 <= j < i ==> {
                    &&& (#[trigger] out@[j]).chapter_id == chapters@[j].chapter_id
                    &&& out@[j].start_ms == moved(
                        chapters@[j],
                        start as int,
                        end as int,
                        args.cut_ms as int,
                    ).0
                    &&& out@[j].end_ms == moved(
                        chapters@[j],
                        start as int,
                        end as int,
                        args.cut_ms as int,
                    ).1
                },
        decreases total - i,
    {
        match move_chapter(chapters[i], start, end, args.cut_ms) {
            Some((ch, touched)) => {
                out.push(ch);
                if touched {
                    count = count + 1;
                }
            },
            None => {
                proof {
                    assert(!moved_fits(
                        chapters@[i as int],
                        start as int,
                        end as int,
                        args.cut_ms as int,
                    ));
                }
                return Err(overflow());
            },
        }
        i = i + 1;
    }
    *chapters = out;
    Ok(count)
}

// ── The duration ───────────────────────────────────────────────────

/// Duration of a book after a cut; an unknown one stays unknown.
pub open spec fn duration_after(duration: Option<i64>, cut: int) -> Option<int> {
    match duration {
        Some(d) => Some(d - cut),
        None => None,
    }
}

/// Status of a book that was cut.
pub const STATUS_APPLIED: &'static str = "applied";

/// Duration of a book after a cut.
pub fn recompute_book_duration(duration_ms: Option<i64>, cut_ms: i64) -> (r: Result<
    Option<i64>,
    error::ApiError,
>)
    ensures
        match duration_ms {
            None => r == Ok::<Option<i64>, error::ApiError>(None),
            Some(d) => if fits(d - cut_ms) {
                r matches Ok(Some(v)) && v == d - cut_ms
            } else {
                r matches Err(e) && e@ == error::ErrorView::Database(
                    "audiologo recompute duration"@ + ": "@ + "integer overflow"@,
                )
            },
        },
{
    match duration_ms {
        None => Ok(None),
        Some(d) => match sub_checked(d, cut_ms) {
            Some(v) => Ok(Some(v)),
            None => Err(
                error::database_error("audiologo recompute duration", "integer overflow"),
            ),
        },
    }
}

// ── The whole cut ──────────────────────────────────────────────────

/// The place and amount of the cut that is asked for.
pub open spec fn args_of(p: ApplyCutParams, cut: i64) -> ShiftArgs {
    ShiftArgs {
        book_id: p.book_id,
        file_id: p.file_id,
        jingle_start_ms: p.jingle_start_ms,
        jingle_end_ms: p.jingle_end_ms,
        cut_ms: cut,
    }
}

/// Whether a cut can be applied within stored integers.
pub open spec fn apply_fits(
    chapters: Seq<ChapterSpan>,
    files: Seq<FileSpan>,
    cuts: Seq<AppliedCut>,
    duration_ms: Option<i64>,
    p: ApplyCutParams,
) -> bool {
    let cut = cut_of(p.jingle_start_ms as int, p.jingle_end_ms as int, p.padding_ms);
    &&& fits(cut)
    &&& shift_fits(chapters, files, cuts, args_of(p, cut as i64))
    &&& duration_ms matches Some(d) ==> fits(d - cut)
}

/// Applies a cut: moves the chapters and shortens the book. `row_id` is the
/// row of the cut, and `cuts` are the cuts that stand on the book's files.
pub fn apply_audiologo_cut(
    row_id: i64,
    p: &ApplyCutParams,
    chapters: &mut Vec<ChapterSpan>,
    files: &Vec<FileSpan>,
    cuts: &Vec<AppliedCut>,
    duration_ms: Option<i64>,
) -> (r: Result<ApplyCutOutcome, error::ApiError>)
    ensures
        ({
            let cut = cut_of(p.jingle_start_ms as int, p.jingle_end_ms as int, p.padding_ms);
            let offset = book_offset(files@, cuts@, p.file_id);
            let start = offset + p.jingle_start_ms;
            let end = offset + p.jingle_end_ms;
            match r {
                Ok(out) => {
                    &&& apply_fits(old(chapters)@, files@, cuts@, duration_ms, *p)
                    &&& out.row_id == row_id
                    &&& chapters_moved(old(chapters)@, final(chapters)@, start, end, cut)
                    &&& out.chapters_shifted == moved_count(
                        old(chapters)@,
                        start,
                        end,
                        old(chapters)@.len() as int,
                    )
                    &&& out.new_duration_ms == (match duration_after(duration_ms, cut) {
                        Some(d) => Some(d as i64),
                        None => None,
                    })
                },
                Err(e) => {
                    &&& !apply_fits(old(chapters)@, files@, cuts@, duration_ms, *p)
                    &&& final(chapters)@ == old(chapters)@
                    &&& e@ == error::ErrorView::Database(
                        if fits(cut) && (duration_ms matches Some(d) && !fits(d - cut)) {
                            "audiologo recompute duration"@ + ": "@ + "integer overflow"@
                        } else {
                            "audiologo shift chapters"@ + ": "@ + "integer overflow"@
                        },
                    )
                },
            }
        }),
{
    let cut: i64 = match cut_amount(p.jingle_start_ms, p.jingle_end_ms, p.padding_ms) {
        Some(c) => c,
        None => {
            return Err(overflow());
        },
    };
    let new_duration_ms = match recompute_book_duration(duration_ms, cut) {
        Ok(d) => d,
        Err(e) => {
            return Err(e);
        },
    };
    let args = ShiftArgs {
        book_id: p.book_id,
        file_id: p.file_id,
        jingle_start_ms: p.jingle_start_ms,
        jingle_end_ms: p.jingle_end_ms,
        cut_ms: cut,
    };
    match shift_chapters_for_cut(chapters, files, cuts, args) {
        Ok(chapters_shifted) => Ok(ApplyCutOutcome { row_id, chapters_shifted, new_duration_ms }),
        Err(e) => Err(e),
    }
}

// ── Laws ───────────────────────────────────────────────────────────

/// Padding never makes a cut negative, and a cut is no longer than its
/// jingle.
pub proof fn law_cut_bounds(start: int, end: int, padding: Option<i64>)
    requires
        start <= end,
        padding matches Some(p) ==> p >= 0,
    ensures
        0 <= cut_of(start, end, padding) <= end - start,
{
}

/// A chapter behind the jingle keeps its length, one before it stays as it
/// is, and a chapter never moves later.
pub proof fn law_shift_shape(ch: ChapterSpan, start: int, end: int, cut: int)
    requires
        cut >= 0,
    ensures
        affected(ch, start, end) == Affected::After ==> moved(ch, start, end, cut).1 - moved(
            ch,
            start,
            end,
            cut,
        ).0 == ch.end_ms - ch.start_ms,
        ch.end_ms <= start && ch.start_ms < end ==> moved(ch, start, end, cut) == (
            ch.start_ms as int,
            ch.end_ms as int,
        ),
        moved(ch, start, end, cut).0 <= ch.start_ms,
        moved(ch, start, end, cut).1 <= ch.end_ms,
        ch.end_ms > start ==> moved(ch, start, end, cut).1 == ch.end_ms - cut,
{
}

/// Chapters without a gap between them have none after a cut either, as far
/// as the one does not end inside the jingle.
pub proof fn law_shift_keeps_contiguous(
    a: ChapterSpan,
    b: ChapterSpan,
    start: int,
    end: int,
    cut: int,
)
    requires
        a.start_ms < a.end_ms,
        a.end_ms == b.start_ms,
        b.start_ms < b.end_ms,
        0 <= cut <= end - start,
        a.end_ms <= start || a.end_ms >= end,
    ensures
        moved(a, start, end, cut).1 == moved(b, start, end, cut).0,
{
}

/// Chapters that follow each other still do after a cut no longer than the
/// jingle, as far as the first does not begin inside the jingle.
pub proof fn law_shift_keeps_order(
    a: ChapterSpan,
    b: ChapterSpan,
    start: int,
    end: int,
    cut: int,
)
    requires
        a.start_ms <= b.start_ms,
        0 <= cut <= end - start,
        a.start_ms <= start || a.start_ms >= end,
    ensures
        moved(a, start, end, cut).0 <= moved(b, start, end, cut).0,
{
}

proof fn lemma_cut_before_prefix(
    files: Seq<FileSpan>,
    cuts: Seq<AppliedCut>,
    c: AppliedCut,
    file_id: i64,
    n: int,
)
    requires
        0 <= n <= cuts.len(),
    ensures
        cut_before(files, cuts.push(c), file_id, n) == cut_before(files, cuts, file_id, n),
    decreases n,
{
    if n > 0 {
        lemma_cut_before_prefix(files, cuts, c, file_id, n - 1);
        assert(cuts.push(c)[n - 1] == cuts[n - 1]);
    }
}

/// The place of a later file follows a cut on an earlier one: it moves forward
/// by exactly what was cut, as the chapters did. A cut on the file itself or
/// on a later one leaves the place as it is.
pub proof fn law_offset_follows_cuts(
    files: Seq<FileSpan>,
    cuts: Seq<AppliedCut>,
    c: AppliedCut,
    file_id: i64,
)
    ensures
        book_offset(files, cuts.push(c), file_id) == book_offset(files, cuts, file_id)
            - if precedes(files, c.file_id, file_id) {
            cut_of(c.jingle_start_ms as int, c.jingle_end_ms as int, c.padding_ms)
        } else {
            0
        },
{
    lemma_cut_before_prefix(files, cuts, c, file_id, cuts.len() as int);
    assert(cuts.push(c)[cuts.len() as int] == c);
    assert(cuts.push(c).len() == cuts.len() + 1);
}

/// Cuts shorten a book one after the other: the order does not matter.
pub proof fn law_cuts_add_up(d: i64, a: int, b: int)
    requires
        fits(d - a),
        fits(d - b),
    ensures
        duration_after(Some((d - a) as i64), b) == Some(d - a - b),
        duration_after(Some((d - b) as i64), a) == Some(d - a - b),
{
}

/// What is cut and what is left standing make up the jingle, wherever in the
/// file it is. Padding that reaches over the jingle leaves nothing to cut, no
/// padding counts as none, and a jingle elsewhere is cut as much.
pub proof fn law_cut_and_padding_are_the_jingle(start: int, end: int, pad: i64, by: int)
    ensures
        pad <= end - start ==> cut_of(start, end, Some(pad)) + pad == end - start,
        pad >= end - start ==> cut_of(start, end, Some(pad)) == 0,
        start <= end ==> cut_of(start, end, None) == end - start,
        start >= end ==> cut_of(start, end, None) == 0,
        cut_of(start + by, end + by, Some(pad)) == cut_of(start, end, Some(pad)),
        cut_of(start + by, end + by, None) == cut_of(start, end, None),
{
}

/// What a cut of a whole jingle does to a chapter: what lies behind the jingle
/// moves forward by the cut, what lies before it stays, and a chapter around
/// it loses exactly the cut of its length.
pub proof fn law_chapters_close_the_gap(ch: ChapterSpan, start: int, end: int, cut: int)
    ensures
        end <= ch.start_ms ==> moved(ch, start, end, cut).0 + cut == ch.start_ms && moved(
            ch,
            start,
            end,
            cut,
        ).1 + cut == ch.end_ms,
        ch.start_ms < end ==> moved(ch, start, end, cut).0 == ch.start_ms,
        ch.start_ms < end && ch.end_ms <= start ==> moved(ch, start, end, cut).1 == ch.end_ms,
        ch.start_ms < end && start < ch.end_ms ==> (ch.end_ms - ch.start_ms) - (moved(
            ch,
            start,
            end,
            cut,
        ).1 - moved(ch, start, end, cut).0) == cut,
{
}

/// A list of chapters after a cut: as many as before, each under its own
/// identifier, and each moved as it is alone.
pub proof fn law_every_chapter_is_moved(
    before: Seq<ChapterSpan>,
    after: Seq<ChapterSpan>,
    start: int,
    end: int,
    cut: int,
    i: int,
)
    requires
        chapters_moved(before, after, start, end, cut),
        0 <= i < before.len(),
    ensures
        after.len() == before.len(),
        after[i].chapter_id == before[i].chapter_id,
        end <= before[i].start_ms ==> after[i].start_ms == before[i].start_ms - cut
            && after[i].end_ms == before[i].end_ms - cut,
        before[i].start_ms < end && start < before[i].end_ms ==> after[i].start_ms
            == before[i].start_ms && after[i].end_ms == before[i].end_ms - cut,
        before[i].start_ms < end && before[i].end_ms <= start ==> after[i] == before[i],
{
}

/// The number of chapters that a cut moves: those that begin behind the jingle
/// or reach behind its beginning.
pub proof fn law_count_of_moved(chapters: Seq<ChapterSpan>, start: int, end: int)
    ensures
        moved_count(chapters, start, end, chapters.len() as int) == chapters.filter(
            |ch: ChapterSpan| ch.start_ms >= end || ch.end_ms > start,
        ).len(),
    decreases chapters.len(),
{
    reveal(Seq::filter);
    if chapters.len() > 0 {
        law_count_of_moved(chapters.drop_last(), start, end);
        lemma_moved_count_prefix(chapters, start, end, chapters.len() - 1);
    }
}

proof fn lemma_moved_count_prefix(chapters: Seq<ChapterSpan>, start: int, end: int, n: int)
    requires
        0 <= n < chapters.len(),
    ensures
        moved_count(chapters.drop_last(), start, end, n) == moved_count(chapters, start, end, n),
    decreases n,
{
    if n > 0 {
        lemma_moved_count_prefix(chapters, start, end, n - 1);
    }
}

proof fn lemma_duration_prefix(files: Seq<FileSpan>, f: FileSpan, file_id: i64, n: int)
    requires
        0 <= n <= files.len(),
    ensures
        duration_before(files.push(f), file_id, n) == duration_before(files, file_id, n),
    decreases n,
{
    if n > 0 {
        lemma_duration_prefix(files, f, file_id, n - 1);
    }
}

/// The first file begins where the book begins. A file that is added before
/// another one, and that no cut is on, puts it off by its duration, and a file
/// that is added behind it does not.
pub proof fn law_offset_follows_files(
    files: Seq<FileSpan>,
    cuts: Seq<AppliedCut>,
    f: FileSpan,
    file_id: i64,
)
    requires
        forall|i: int| 0 <= i < cuts.len() ==> (#[trigger] cuts[i]).file_id != f.file_id,
    ensures
        book_offset(Seq::empty(), cuts, file_id) == 0,
        f.file_id >= file_id ==> book_offset(files.push(f), cuts, file_id) == book_offset(
            files,
            cuts,
            file_id,
        ),
        f.file_id < file_id ==> book_offset(files.push(f), cuts, file_id) == book_offset(
            files,
            cuts,
            file_id,
        ) + (match f.duration_ms {
            Some(d) => d as int,
            None => 0,
        }),
{
    lemma_duration_prefix(files, f, file_id, files.len() as int);
    lemma_cuts_unmoved(files, cuts, f, file_id, cuts.len() as int);
    lemma_no_cut_without_file(cuts, file_id, cuts.len() as int);
}

proof fn lemma_cuts_unmoved(
    files: Seq<FileSpan>,
    cuts: Seq<AppliedCut>,
    f: FileSpan,
    file_id: i64,
    n: int,
)
    requires
        0 <= n <= cuts.len(),
        forall|i: int| 0 <= i < cuts.len() ==> (#[trigger] cuts[i]).file_id != f.file_id,
    ensures
        cut_before(files.push(f), cuts, file_id, n) == cut_before(files, cuts, file_id, n),
    decreases n,
{
    if n > 0 {
        lemma_cuts_unmoved(files, cuts, f, file_id, n - 1);
        let id = cuts[n - 1].file_id;
        let more = files.push(f);
        if precedes(files, id, file_id) {
            let i = choose|i: int| 0 <= i < files.len() && (#[trigger] files[i]).file_id == id;
            assert(more[i].file_id == id);
        }
        if precedes(more, id, file_id) {
            let i = choose|i: int| 0 <= i < more.len() && (#[trigger] more[i]).file_id == id;
            assert(i < files.len());
            assert(files[i].file_id == id);
        }
    }
}

proof fn lemma_no_cut_without_file(cuts: Seq<AppliedCut>, file_id: i64, n: int)
    ensures
        cut_before(Seq::empty(), cuts, file_id, n) == 0,
    decreases n,
{
    if n > 0 {
        lemma_no_cut_without_file(cuts, file_id, n - 1);
    }
}

/// A cut on an earlier file of the book brings a file forward by the jingle
/// without its padding. A cut on the file itself, on a later one or on none of
/// the book's files leaves it where it is.
pub proof fn law_earlier_cut_brings_forward(
    files: Seq<FileSpan>,
    cuts: Seq<AppliedCut>,
    c: AppliedCut,
    file_id: i64,
    k: int,
)
    requires
        0 <= k < files.len(),
    ensures
        files[k].file_id == c.file_id && c.file_id < file_id && (c.padding_ms matches Some(p)
            ==> p <= c.jingle_end_ms - c.jingle_start_ms) && c.jingle_start_ms <= c.jingle_end_ms
            ==> book_offset(files, cuts.push(c), file_id) + c.jingle_end_ms - c.jingle_start_ms - (
        match c.padding_ms {
            Some(p) => p as int,
            None => 0,
        }) == book_offset(files, cuts, file_id),
        c.file_id >= file_id ==> book_offset(files, cuts.push(c), file_id) == book_offset(
            files,
            cuts,
            file_id,
        ),
        (forall|i: int| 0 <= i < files.len() ==> (#[trigger] files[i]).file_id != c.file_id)
            ==> book_offset(files, cuts.push(c), file_id) == book_offset(files, cuts, file_id),
{
    law_offset_follows_cuts(files, cuts, c, file_id);
    if files[k].file_id == c.file_id && c.file_id < file_id {
        assert(precedes(files, c.file_id, file_id));
    }
}

/// A cut takes from the duration what it takes from the book: the duration
/// after it and the cut make up the duration before it.
pub proof fn law_duration_loses_the_cut(d: i64, cut: int)
    ensures
        duration_after(Some(d), cut) matches Some(after) && after + cut == d,
        duration_after(None, cut) is None,
{
}

proof fn lemma_duration_bounded(files: Seq<FileSpan>, file_id: i64, n: int)
    requires
        0 <= n <= files.len(),
        forall|i: int|
            0 <= i < files.len() ==> ((#[trigger] files[i]).duration_ms matches Some(d) ==> 0 <= d
                <= 1_000_000_000_000),
    ensures
        0 <= duration_before(files, file_id, n) <= 1_000_000_000_000 * n,
    decreases n,
{
    if n > 0 {
        lemma_duration_bounded(files, file_id, n - 1);
    }
}

proof fn lemma_cut_bounded(files: Seq<FileSpan>, cuts: Seq<AppliedCut>, file_id: i64, n: int)
    requires
        0 <= n <= cuts.len(),
        forall|i: int|
            0 <= i < cuts.len() ==> 0 <= (#[trigger] cuts[i]).jingle_start_ms
                && cuts[i].jingle_end_ms <= 1_000_000_000_000 && (cuts[i].padding_ms matches Some(p)
                ==> p >= 0),
    ensures
        0 <= cut_before(files, cuts, file_id, n) <= 1_000_000_000_000 * n,
    decreases n,
{
    if n > 0 {
        lemma_cut_bounded(files, cuts, file_id, n - 1);
    }
}

/// Every book of an ordinary size can be cut: with up to a hundred thousand
/// files, cuts and chapters, and times of up to thirty years, no cut is
/// refused.
pub proof fn law_ordinary_books_can_be_cut(
    chapters: Seq<ChapterSpan>,
    files: Seq<FileSpan>,
    cuts: Seq<AppliedCut>,
    duration_ms: Option<i64>,
    p: ApplyCutParams,
)
    requires
        files.len() <= 100_000,
        cuts.len() <= 100_000,
        chapters.len() <= 100_000,
        forall|i: int|
            0 <= i < files.len() ==> ((#[trigger] files[i]).duration_ms matches Some(d) ==> 0 <= d
                <= 1_000_000_000_000),
        forall|i: int|
            0 <= i < cuts.len() ==> 0 <= (#[trigger] cuts[i]).jingle_start_ms
                && cuts[i].jingle_end_ms <= 1_000_000_000_000 && (cuts[i].padding_ms matches Some(q)
                ==> q >= 0),
        forall|i: int|
            0 <= i < chapters.len() ==> 0 <= (#[trigger] chapters[i]).start_ms
                <= 1_000_000_000_000_000_000 && 0 <= chapters[i].end_ms
                <= 1_000_000_000_000_000_000,
        0 <= p.jingle_start_ms <= 1_000_000_000_000,
        0 <= p.jingle_end_ms <= 1_000_000_000_000,
        p.padding_ms matches Some(q) ==> q >= 0,
        duration_ms matches Some(d) ==> d >= 0,
    ensures
        apply_fits(chapters, files, cuts, duration_ms, p),
{
    let id = p.file_id;
    assert forall|k: int| 0 <= k <= files.len() implies fits(
        #[trigger] duration_before(files, id, k),
    ) by {
        lemma_duration_bounded(files, id, k);
    }
    assert forall|k: int| 0 <= k <= cuts.len() implies fits(
        #[trigger] cut_before(files, cuts, id, k),
    ) by {
        lemma_cut_bounded(files, cuts, id, k);
    }
    lemma_duration_bounded(files, id, files.len() as int);
    lemma_cut_bounded(files, cuts, id, cuts.len() as int);
}

/// A value fits exactly where it is one of the stored integers.
pub proof fn law_fits(n: int, v: i64)
    ensures
        fits(v as int),
        fits(n) <==> (n as i64) as int == n,
{
}

/// A cut is applied exactly where nothing on the way to it overflows: the
/// amount, the place of the file, both ends of the jingle in the book, both
/// ends of every chapter and the duration afterwards.
pub proof fn law_when_a_cut_is_applied(
    chapters: Seq<ChapterSpan>,
    files: Seq<FileSpan>,
    cuts: Seq<AppliedCut>,
    duration_ms: Option<i64>,
    p: ApplyCutParams,
)
    requires
        chapters.len() <= i64::MAX,
    ensures
        ({
            let cut = cut_of(p.jingle_start_ms as int, p.jingle_end_ms as int, p.padding_ms);
            let start = book_offset(files, cuts, p.file_id) + p.jingle_start_ms;
            let end = book_offset(files, cuts, p.file_id) + p.jingle_end_ms;
            apply_fits(chapters, files, cuts, duration_ms, p) <==> {
                &&& fits(cut)
                &&& offset_fits(files, cuts, p.file_id)
                &&& fits(start)
                &&& fits(end)
                &&& forall|i: int|
                    0 <= i < chapters.len() ==> fits(
                        moved(#[trigger] chapters[i], start, end, cut).0,
                    ) && fits(moved(chapters[i], start, end, cut).1)
                &&& duration_ms is Some ==> fits(duration_ms->0 - cut)
            }
        }),
{
    let cut = cut_of(p.jingle_start_ms as int, p.jingle_end_ms as int, p.padding_ms);
    let start = book_offset(files, cuts, p.file_id) + p.jingle_start_ms;
    let end = book_offset(files, cuts, p.file_id) + p.jingle_end_ms;
    if fits(cut) {
        assert(args_of(p, cut as i64).cut_ms == cut);
    }
    if forall|i: int|
        0 <= i < chapters.len() ==> fits(moved(#[trigger] chapters[i], start, end, cut).0) && fits(
            moved(chapters[i], start, end, cut).1,
        ) {
        assert forall|i: int| 0 <= i < chapters.len() implies moved_fits(
            #[trigger] chapters[i],
            start,
            end,
            cut,
        ) by {}
    }
    if apply_fits(chapters, files, cuts, duration_ms, p) {
        assert forall|i: int| 0 <= i < chapters.len() implies fits(
            moved(#[trigger] chapters[i], start, end, cut).0,
        ) && fits(moved(chapters[i], start, end, cut).1) by {
            assert(moved_fits(chapters[i], start, end, cut));
        }
    }
}

/// The place of a file can be told exactly where every sum on the way to it
/// fits: after each file, after each cut, and in the end.
pub proof fn law_when_an_offset_fits(
    files: Seq<FileSpan>,
    cuts: Seq<AppliedCut>,
    file_id: i64,
    k: int,
)
    ensures
        offset_fits(files, cuts, file_id) && 0 <= k <= files.len() ==> fits(
            duration_before(files, file_id, k),
        ),
        offset_fits(files, cuts, file_id) && 0 <= k <= cuts.len() ==> fits(
            cut_before(files, cuts, file_id, k),
        ),
        offset_fits(files, cuts, file_id) ==> fits(book_offset(files, cuts, file_id)),
        book_offset(files, cuts, file_id) == duration_before(files, file_id, files.len() as int)
            - cut_before(files, cuts, file_id, cuts.len() as int),
{
}

/// A book that was cut is marked as such.
pub proof fn law_status_of_a_cut_book()
    ensures
        STATUS_APPLIED@ == "applied"@,
{
}

} // verus!

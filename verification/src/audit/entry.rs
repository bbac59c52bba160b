//! The books of a report and how they are put together.

use crate::audit::clips;
use crate::audit::match_seed;
use crate::audit::walk;
use crate::text;
use vstd::prelude::*;

verus! {

/// One book of the report.
#[derive(Debug)]
pub struct AuditEntry {
    /// Filesystem-safe slug.
    pub slug: String,
    /// Display title.
    pub title: String,
    /// Source path.
    pub source_path: String,
    /// Total duration in milliseconds.
    pub duration_ms: u64,
    /// Publisher tag.
    pub publisher: Option<String>,
    /// Copyright tag.
    pub copyright: Option<String>,
    /// What detection found.
    pub detection: DetectionInfo,
    /// Front clip, relative to the report.
    pub front_clip_rel: String,
    /// End clip, relative to the report.
    pub end_clip_rel: String,
    /// Front waveform.
    pub front_waveform_svg: String,
    /// End waveform.
    pub end_waveform_svg: String,
    /// Detail clip around the front match.
    pub front_detail: Option<DetailClip>,
    /// Detail clip around the end match.
    pub end_detail: Option<DetailClip>,
}

/// A short clip around a match, beside the overview clip.
#[derive(Debug)]
pub struct DetailClip {
    /// Path of the clip, relative to the report.
    pub clip_rel: String,
    /// Its waveform.
    pub waveform_svg: String,
    /// Start within the overview clip, in milliseconds.
    pub start_offset_in_overview_ms: u64,
    /// Length in seconds.
    pub duration_secs: u32,
}

/// What detection found in a book.
#[derive(Debug)]
pub enum DetectionInfo {
    /// No seeds were given, or none matched.
    Stub,
    /// A seed matched at least one end.
    SeedMatch {
        /// Best match of the front clip.
        front: Option<SeedMatchSummary>,
        /// Best match of the end clip.
        end: Option<SeedMatchSummary>,
    },
    /// A cut was proposed.
    Detected {
        /// Name of the method.
        method_label: String,
        /// What triggered it.
        trigger_summary: String,
        /// Proposed front cut.
        front_cut_ms: Option<u64>,
        /// Proposed end cut.
        end_cut_ms: Option<u64>,
    },
    /// Detection ran and found nothing.
    NoCandidate,
}

/// A seed match as the report shows it.
#[derive(Debug)]
pub struct SeedMatchSummary {
    /// Publisher tag of the seed.
    pub publisher: Option<String>,
    /// Bits of the cosine similarity.
    pub confidence_bits: u32,
    /// The cosine similarity with three decimals.
    pub confidence_shown: String,
    /// Number of windows of the seed.
    pub seed_windows: usize,
    /// Window at which the match starts.
    pub window_offset: usize,
    /// The same in milliseconds.
    pub approx_offset_ms: u64,
}

/// A window offset in milliseconds.
pub open spec fn offset_ms(window_offset: int) -> int {
    if window_offset * 100 > u64::MAX {
        u64::MAX as int
    } else {
        window_offset * 100
    }
}

impl SeedMatchSummary {
    /// Summarises a match; `shown` is its similarity with three decimals.
    pub fn from_match(m: &match_seed::SeedMatch, shown: &str) -> (r: SeedMatchSummary)
        ensures
            text::opt_text(r.publisher) == text::opt_text(m.publisher),
            r.confidence_bits == m.confidence_bits,
            r.confidence_shown@ == shown@,
            r.seed_windows == m.seed_windows,
            r.window_offset == m.window_offset,
            r.approx_offset_ms == offset_ms(m.window_offset as int),
    {
        let approx_offset_ms: u64 = match (m.window_offset as u64).checked_mul(100) {
            Some(ms) => ms,
            None => u64::MAX,
        };
        SeedMatchSummary {
            publisher: text::opt_clone(&m.publisher),
            confidence_bits: m.confidence_bits,
            confidence_shown: text::owned(shown),
            seed_windows: m.seed_windows,
            window_offset: m.window_offset,
            approx_offset_ms,
        }
    }
}

/// What the seed matches of both ends say of a book: a match where either
/// end has one.
pub fn build_detection(
    seeds_empty: bool,
    front: Option<SeedMatchSummary>,
    end: Option<SeedMatchSummary>,
) -> (r: DetectionInfo)
    ensures
        r == (if seeds_empty || (front is None && end is None) {
            DetectionInfo::Stub
        } else {
            DetectionInfo::SeedMatch { front, end }
        }),
{
    if seeds_empty || (front.is_none() && end.is_none()) {
        DetectionInfo::Stub
    } else {
        DetectionInfo::SeedMatch { front, end }
    }
}

// ── Slugs of books ─────────────────────────────────────────────────

/// The `k`-th slug tried for a book: the slug itself, then numbered from 2.
pub open spec fn slug_trial(base: Seq<char>, k: int) -> Seq<char> {
    if k <= 0 {
        base
    } else {
        base + "-"@ + text::decimal((k + 1) as nat)
    }
}

/// The number of slugs tried before a book falls back on its position.
pub open spec fn slug_trials() -> int {
    98
}

/// Whether `k` is the first slug tried that is not in use.
pub open spec fn first_free(base: Seq<char>, used: Seq<Seq<char>>, k: int) -> bool {
    &&& 0 <= k < slug_trials()
    &&& !used.contains(slug_trial(base, k))
    &&& forall|j: int| 0 <= j < k ==> used.contains(#[trigger] slug_trial(base, j))
}

/// Whether every slug that is tried is in use.
pub open spec fn all_taken(base: Seq<char>, used: Seq<Seq<char>>) -> bool {
    forall|j: int| 0 <= j < slug_trials() ==> used.contains(#[trigger] slug_trial(base, j))
}

fn numbered(base: &str, n: u64) -> (s: String)
    ensures
        s@ == base@ + "-"@ + text::decimal(n as nat),
{
    let mut s = text::owned(base);
    s.append("-");
    s.append(text::u64_text(n).as_str());
    s
}

/// Picks the slug of a book and marks it as used. Books with the same title
/// are numbered; after the last number the book's position is appended, and
/// nothing is marked.
pub fn claim_slug(title: &str, idx: usize, used: &mut Vec<String>) -> (r: String)
    ensures
        forall|k: int|
            #[trigger] first_free(walk::title_slug(title@), text::texts(old(used)@), k) ==> r@
                == slug_trial(walk::title_slug(title@), k) && text::texts(final(used)@)
                == text::texts(old(used)@).push(r@),
        all_taken(walk::title_slug(title@), text::texts(old(used)@)) ==> r@ == walk::title_slug(
            title@,
        ) + "-"@ + text::decimal(idx as nat) && final(used)@ == old(used)@,
{
    let base = walk::slugify(title);
    let ghost before = text::texts(used@);
    let ghost start = used@;
    let mut k: u64 = 0;
    while k < 98
        invariant
            k <= 98,
            base@ == walk::title_slug(title@),
            used@ == start,
            start == old(used)@,
            before == text::texts(start),
            forall|j: int| 0 <= j < k ==> before.contains(#[trigger] slug_trial(base@, j)),
        decreases 98 - k,
    {
        let slug = if k == 0 {
            text::owned(base.as_str())
        } else {
            numbered(base.as_str(), k + 1)
        };
        if !text::list_holds(used, slug.as_str()) {
            used.push(text::owned(slug.as_str()));
            proof {
                assert(slug@ == slug_trial(base@, k as int));
                assert(text::texts(used@) =~= before.push(slug@));
                assert forall|m: int| first_free(base@, before, m) implies m == k by {
                    if m < k {
                        assert(before.contains(slug_trial(base@, m)));
                    } else if k < m {
                        assert(before.contains(slug_trial(base@, k as int)));
                    }
                }
            }
            return slug;
        }
        k = k + 1;
    }
    numbered(base.as_str(), idx as u64)
}

/// A slug that is claimed was not in use, unless every trial was taken.
pub proof fn law_claimed_slug_is_fresh(base: Seq<char>, used: Seq<Seq<char>>, k: int)
    requires
        first_free(base, used, k),
        used.no_duplicates(),
    ensures
        used.push(slug_trial(base, k)).no_duplicates(),
        !all_taken(base, used),
{
    let s = slug_trial(base, k);
    let after = used.push(s);
    assert forall|i: int, j: int|
        0 <= i < after.len() && 0 <= j < after.len() && i != j implies after[i] != after[j] by {
        if i == used.len() {
            assert(used[j] != s);
        } else if j == used.len() {
            assert(used[i] != s);
        }
    }
}

// ── Entries ────────────────────────────────────────────────────────

/// Whether a corpus file is left out because it still needs decryption.
pub fn is_skipped(src: &walk::SourceFile) -> (r: bool)
    ensures
        r == (src.extension@ == "aax"@),
{
    text::same_text(src.extension.as_str(), "aax")
}

/// Start of the end clip: the overview length before the end, or the start
/// of a shorter file.
pub fn end_clip_start_ms(duration_ms: u64) -> (r: u64)
    ensures
        r == (if duration_ms >= 60_000 {
            (duration_ms - 60_000) as u64
        } else {
            0
        }),
{
    duration_ms.saturating_sub((clips::CLIP_DURATION_SECS as u64) * 1000)
}

/// File name of a clip of a book.
pub fn clip_name(slug: &str, side: &str) -> (s: String)
    ensures
        s@ == slug@ + "-"@ + side@ + ".m4a"@,
{
    let mut s = text::owned(slug);
    s.append("-");
    s.append(side);
    s.append(".m4a");
    s
}

/// The entry of a corpus file, its slug, what detection found and its two
/// waveforms.
pub fn build_entry(
    src: &walk::SourceFile,
    slug: String,
    detection: DetectionInfo,
    front_waveform_svg: String,
    end_waveform_svg: String,
) -> (e: AuditEntry)
    ensures
        e.slug@ == slug@,
        e.title@ == src.title@,
        e.source_path@ == src.path@,
        e.duration_ms == src.duration_ms,
        text::opt_text(e.publisher) == text::opt_text(src.publisher),
        text::opt_text(e.copyright) == text::opt_text(src.copyright),
        e.detection == detection,
        e.front_clip_rel@ == "clips/"@ + (slug@ + "-"@ + "front"@ + ".m4a"@),
        e.end_clip_rel@ == "clips/"@ + (slug@ + "-"@ + "end"@ + ".m4a"@),
        e.front_waveform_svg@ == front_waveform_svg@,
        e.end_waveform_svg@ == end_waveform_svg@,
        e.front_detail is None,
        e.end_detail is None,
{
    let mut front_clip_rel = text::owned("clips/");
    front_clip_rel.append(clip_name(slug.as_str(), "front").as_str());
    let mut end_clip_rel = text::owned("clips/");
    end_clip_rel.append(clip_name(slug.as_str(), "end").as_str());
    AuditEntry {
        slug,
        title: text::owned(src.title.as_str()),
        source_path: text::owned(src.path.as_str()),
        duration_ms: src.duration_ms,
        publisher: text::opt_clone(&src.publisher),
        copyright: text::opt_clone(&src.copyright),
        detection,
        front_clip_rel,
        end_clip_rel,
        front_waveform_svg,
        end_waveform_svg,
        front_detail: None,
        end_detail: None,
    }
}

/// The placeholder for a waveform that could not be rendered.
pub fn empty_waveform_inline() -> (s: String)
    ensures
        s@
            == "<svg xmlns=\"http://www.w3.org/2000/svg\" viewBox=\"0 0 1200 200\" width=\"100%\"><rect width=\"1200\" height=\"200\" fill=\"#f5f7fa\"/><text x=\"20\" y=\"100\" font-family=\"monospace\" font-size=\"14\" fill=\"#94a3b8\">waveform render failed</text></svg>"@,
{
    text::owned(
        "<svg xmlns=\"http://www.w3.org/2000/svg\" viewBox=\"0 0 1200 200\" width=\"100%\"><rect width=\"1200\" height=\"200\" fill=\"#f5f7fa\"/><text x=\"20\" y=\"100\" font-family=\"monospace\" font-size=\"14\" fill=\"#94a3b8\">waveform render failed</text></svg>",
    )
}

// ── Laws ───────────────────────────────────────────────────────────

/// A window is a tenth of a second: the next one begins a hundred
/// milliseconds later.
pub proof fn law_windows_are_tenths(w: int)
    requires
        0 <= w,
        (w + 1) * 100 <= u64::MAX,
    ensures
        offset_ms(0) == 0,
        offset_ms(w + 1) - offset_ms(w) == 100,
{
}

/// The slugs that are tried for a title: the slug itself, then the slug with
/// 2, 3 and so on behind a hyphen, up to 98. No two of them are the same.
pub proof fn law_slug_trials(base: Seq<char>, j: int, k: int)
    ensures
        slug_trial(base, 0) == base,
        1 <= k ==> slug_trial(base, k).len() > base.len() + 1 && slug_trial(base, k).take(
            base.len() as int,
        ) == base && slug_trial(base, k)[base.len() as int] == '-' && text::number_read(
            slug_trial(base, k).skip(base.len() as int + 1),
        ) == k + 1,
        slug_trials() == 98,
        0 <= j < k ==> slug_trial(base, j) != slug_trial(base, k),
{
    reveal_strlit("-");
    if 1 <= k {
        text::law_decimal_reads_back((k + 1) as nat);
        let t = slug_trial(base, k);
        assert(t.take(base.len() as int) =~= base);
        assert(t.skip(base.len() as int + 1) =~= text::decimal((k + 1) as nat));
    }
    if 1 <= j {
        text::law_decimal_reads_back((j + 1) as nat);
        assert(slug_trial(base, j).skip(base.len() as int + 1) =~= text::decimal((j + 1) as nat));
    }
}

} // verus!

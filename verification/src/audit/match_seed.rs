//! Matching clips against seeds.
//!
//! A fingerprint is a thumbprint: one RMS value for each 100 ms window, kept
//! as the bit patterns of IEEE 754 single-precision numbers. Similarities are
//! computed elsewhere and arrive here as bit patterns too; this module
//! decides which seeds take part and which alignment wins.

use crate::audit::seed;
use crate::text;
use vstd::prelude::*;

verus! {

/// Length of one RMS window in milliseconds.
pub const WINDOW_MS: u32 = 100;

// ── Thumbprints ────────────────────────────────────────────────────

/// What `base64`'s standard engine decodes from a text.
pub uninterp spec fn base64_bytes(s: Seq<char>) -> Option<Seq<u8>>;

/// Calls `decode` of `base64::engine::general_purpose::STANDARD`; the result
/// is a function of the characters, and `None` stands for a decoding error.
#[verifier::external_body]
pub(crate) fn decode_base64(s: &str) -> (r: Option<Vec<u8>>)
    ensures
        match r {
            Some(bytes) => base64_bytes(s@) == Some(bytes@),
            None => base64_bytes(s@) is None,
        },
{
    base64::Engine::decode(&base64::engine::general_purpose::STANDARD, s).ok()
}

/// Calls `encode` of `base64::engine::general_purpose::STANDARD`; the same
/// engine decodes the text to the bytes. Bytes whose text would be longer than
/// a string can be are left out.
#[verifier::external_body]
fn encode_base64(bytes: &Vec<u8>) -> (s: String)
    requires
        (bytes@.len() + 2) / 3 * 4 <= isize::MAX,
    ensures
        base64_bytes(s@) == Some(bytes@),
{
    base64::Engine::encode(&base64::engine::general_purpose::STANDARD, bytes)
}

/// The 32-bit word in `b[4 * i..4 * i + 4]`, least significant byte first.
pub open spec fn word_at(b: Seq<u8>, i: int) -> int {
    b[4 * i] + 256 * b[4 * i + 1] + 65536 * b[4 * i + 2] + 16777216 * b[4 * i + 3]
}

/// The words of `b`, which holds a multiple of four bytes.
pub open spec fn words_of(b: Seq<u8>) -> Seq<u32> {
    Seq::new(b.len() / 4, |i: int| word_at(b, i) as u32)
}

/// The thumbprint that bytes hold; none where a word is incomplete.
pub open spec fn thumbprint_of(b: Seq<u8>) -> Option<Seq<u32>> {
    if b.len() % 4 == 0 {
        Some(words_of(b))
    } else {
        None
    }
}

/// Byte `k` of the words `fp`, least significant byte first.
pub open spec fn byte_of(fp: Seq<u32>, k: int) -> u8 {
    let w = fp[k / 4];
    if k % 4 == 0 {
        (w % 256) as u8
    } else if k % 4 == 1 {
        (w / 256 % 256) as u8
    } else if k % 4 == 2 {
        (w / 65536 % 256) as u8
    } else {
        (w / 16777216) as u8
    }
}

/// The bytes of a thumbprint.
pub open spec fn bytes_of(fp: Seq<u32>) -> Seq<u8> {
    Seq::new(4 * fp.len(), |k: int| byte_of(fp, k))
}

/// Unpacks bytes as little-endian RMS values; `None` where the length is not
/// a multiple of four.
pub fn unpack_thumbprint(bytes: &Vec<u8>) -> (r: Option<Vec<u32>>)
    ensures
        match r {
            Some(fp) => thumbprint_of(bytes@) == Some(fp@),
            None => thumbprint_of(bytes@) is None,
        },
{
    if bytes.len() % 4 != 0 {
        return None;
    }
    let n: usize = bytes.len() / 4;
    let mut out: Vec<u32> = Vec::new();
    let mut i: usize = 0;
    while i < n
        invariant
            i <= n,
            n == bytes@.len() / 4,
            4 * n == bytes@.len(),
            bytes@.len() <= usize::MAX,
            out@ == words_of(bytes@).take(i as int),
        decreases n - i,
    {
        let k: usize = 4 * i;
        let w: u32 = bytes[k] as u32 + 256 * (bytes[k + 1] as u32) + 65536 * (bytes[k + 2] as u32)
            + 16777216 * (bytes[k + 3] as u32);
        out.push(w);
        i = i + 1;
        proof {
            assert(out@ =~= words_of(bytes@).take(i as int));
        }
    }
    proof {
        assert(out@ =~= words_of(bytes@));
    }
    Some(out)
}

/// Packs a thumbprint as little-endian bytes.
pub fn thumbprint_to_bytes(fp: &Vec<u32>) -> (out: Vec<u8>)
    ensures
        out@ == bytes_of(fp@),
{
    let mut out: Vec<u8> = Vec::new();
    let mut i: usize = 0;
    while i < fp.len()
        invariant
            i <= fp@.len(),
            out@ == bytes_of(fp@).take(4 * i),
        decreases fp@.len() - i,
    {
        let w: u32 = fp[i];
        out.push((w % 256) as u8);
        out.push((w / 256 % 256) as u8);
        out.push((w / 65536 % 256) as u8);
        out.push((w / 16777216) as u8);
        i = i + 1;
        proof {
            assert(out@ =~= bytes_of(fp@).take(4 * i));
        }
    }
    proof {
        assert(out@ =~= bytes_of(fp@));
    }
    out
}

/// Unpacking what was packed gives the thumbprint back.
pub proof fn law_thumbprint_round_trip(fp: Seq<u32>)
    ensures
        thumbprint_of(bytes_of(fp)) == Some(fp),
{
    let b = bytes_of(fp);
    assert forall|i: int| 0 <= i < fp.len() implies word_at(b, i) == fp[i] by {
        assert(b[4 * i] == byte_of(fp, 4 * i));
        assert(b[4 * i + 1] == byte_of(fp, 4 * i + 1));
        assert(b[4 * i + 2] == byte_of(fp, 4 * i + 2));
        assert(b[4 * i + 3] == byte_of(fp, 4 * i + 3));
    }
    assert(words_of(b) =~= fp);
}

proof fn lemma_word_bytes(b0: u8, b1: u8, b2: u8, b3: u8, w: u32)
    requires
        w == b0 + 256 * b1 + 65536 * b2 + 16777216 * b3,
    ensures
        w % 256 == b0,
        w / 256 % 256 == b1,
        w / 65536 % 256 == b2,
        w / 16777216 == b3,
{
    assert(w % 256 == b0 && w / 256 % 256 == b1 && w / 65536 % 256 == b2 && w / 16777216 == b3)
        by (bit_vector)
        requires
            w == b0 + 256 * b1 + 65536 * b2 + 16777216 * b3,
    ;
}

proof fn lemma_byte_kept(b: Seq<u8>, i: int, k: int)
    requires
        b.len() % 4 == 0,
        0 <= i < b.len() / 4,
        4 * i <= k < 4 * i + 4,
    ensures
        byte_of(words_of(b), k) == b[k],
{
    let w = words_of(b)[i];
    assert(0 <= word_at(b, i) <= u32::MAX);
    lemma_word_bytes(b[4 * i], b[4 * i + 1], b[4 * i + 2], b[4 * i + 3], w);
    assert(k / 4 == i);
    assert(k % 4 == k - 4 * i);
}

/// Packing what was unpacked gives the bytes back.
pub proof fn law_bytes_round_trip(b: Seq<u8>)
    requires
        b.len() % 4 == 0,
    ensures
        bytes_of(words_of(b)) == b,
{
    assert forall|k: int| 0 <= k < b.len() implies byte_of(words_of(b), k) == b[k] by {
        lemma_byte_kept(b, k / 4, k);
    }
    assert(bytes_of(words_of(b)) =~= b);
}

/// What a seed's base64 text decodes to.
pub open spec fn decoded_thumbprint(s: Seq<char>) -> Option<Seq<u32>> {
    match base64_bytes(s) {
        Some(b) => thumbprint_of(b),
        None => None,
    }
}

/// Decodes `s` as standard base64, then as little-endian RMS values.
pub fn decode_thumbprint(s: &str) -> (r: Option<Vec<u32>>)
    ensures
        match r {
            Some(fp) => decoded_thumbprint(s@) == Some(fp@),
            None => decoded_thumbprint(s@) is None,
        },
{
    match decode_base64(s) {
        Some(bytes) => unpack_thumbprint(&bytes),
        None => None,
    }
}

/// Encodes a thumbprint as it stands in a seed: packed, then in standard
/// base64. Decoding the text gives the thumbprint back.
pub fn encode_thumbprint(fp: &Vec<u32>) -> (s: String)
    requires
        (4 * fp@.len() + 2) / 3 * 4 <= isize::MAX,
    ensures
        base64_bytes(s@) == Some(bytes_of(fp@)),
        decoded_thumbprint(s@) == Some(fp@),
{
    let bytes = thumbprint_to_bytes(fp);
    proof {
        law_thumbprint_round_trip(fp@);
    }
    encode_base64(&bytes)
}

// ── Publishers ─────────────────────────────────────────────────────

/// Whether two lower-cased publisher tags agree: neither is empty and one
/// holds the other.
pub open spec fn tags_agree(book: Seq<char>, seed_tag: Seq<char>) -> bool {
    book.len() > 0 && seed_tag.len() > 0 && (text::holds_text(book, seed_tag) || text::holds_text(
        seed_tag,
        book,
    ))
}

/// Whether two lower-cased publisher tags agree.
pub fn lowered_compatible(book: &str, seed_tag: &str) -> (r: bool)
    ensures
        r == tags_agree(book@, seed_tag@),
{
    if book.is_empty() || seed_tag.is_empty() {
        return false;
    }
    text::contains_text(book, seed_tag) || text::contains_text(seed_tag, book)
}

/// Whether a book's publisher tag plausibly matches a seed's. Both must be
/// present.
pub open spec fn compatible(book: Option<Seq<char>>, seed_tag: Option<Seq<char>>) -> bool {
    match (book, seed_tag) {
        (Some(b), Some(s)) => tags_agree(
            text::lowercased(text::trimmed(b)),
            text::lowercased(text::trimmed(s)),
        ),
        _ => false,
    }
}

/// Whether a book's publisher tag plausibly matches a seed's: trimmed and
/// lower-cased, one holds the other. Both must be present.
pub fn publisher_compatible(book: Option<&str>, seed_tag: Option<&str>) -> (r: bool)
    ensures
        r == compatible(text::opt_str(book), text::opt_str(seed_tag)),
{
    match (book, seed_tag) {
        (Some(b), Some(s)) => {
            let bl = text::to_lowercase(text::trim(b).as_str());
            let sl = text::to_lowercase(text::trim(s).as_str());
            lowered_compatible(bl.as_str(), sl.as_str())
        },
        _ => false,
    }
}

/// Compatibility does not depend on which side is the book.
pub proof fn law_compatible_symmetric(a: Option<Seq<char>>, b: Option<Seq<char>>)
    ensures
        compatible(a, b) == compatible(b, a),
{
}

/// Equal tags agree unless they are empty.
pub proof fn law_equal_tags_agree(tag: Seq<char>)
    requires
        tag.len() > 0,
    ensures
        tags_agree(tag, tag),
{
    assert(tag.subrange(0, tag.len() as int) =~= tag);
    assert(text::stands_at(tag, tag, 0));
}

// ── Scores ─────────────────────────────────────────────────────────

/// Rank of a single-precision number given by its bits; none for NaN. Zero
/// has one rank, whatever its sign.
pub open spec fn score_rank(bits: u32) -> Option<int> {
    let magnitude = bits % 0x8000_0000;
    if magnitude > 0x7f80_0000 {
        None
    } else if bits >= 0x8000_0000 {
        Some(-(magnitude as int))
    } else {
        Some(magnitude as int)
    }
}

/// Whether score `a` is greater than score `b`; false where either is NaN.
pub open spec fn score_gt(a: u32, b: u32) -> bool {
    match (score_rank(a), score_rank(b)) {
        (Some(x), Some(y)) => x > y,
        _ => false,
    }
}

fn rank(bits: u32) -> (r: Option<i64>)
    ensures
        match r {
            Some(x) => score_rank(bits) == Some(x as int),
            None => score_rank(bits) is None,
        },
{
    let magnitude: u32 = bits % 0x8000_0000;
    if magnitude > 0x7f80_0000 {
        None
    } else if bits >= 0x8000_0000 {
        Some(-(magnitude as i64))
    } else {
        Some(magnitude as i64)
    }
}

/// Whether score `a` is greater than score `b`.
pub fn score_greater(a: u32, b: u32) -> (r: bool)
    ensures
        r == score_gt(a, b),
{
    match (rank(a), rank(b)) {
        (Some(x), Some(y)) => x > y,
        _ => false,
    }
}

/// Position of the winner among the first `n` scores: a later score replaces
/// an earlier one only where it is greater.
pub open spec fn winner(scores: Seq<u32>, n: nat) -> Option<usize>
    decreases n,
{
    if n == 0 {
        None
    } else {
        match winner(scores, (n - 1) as nat) {
            None => Some((n - 1) as usize),
            Some(b) => if score_gt(scores[n - 1], scores[b as int]) {
                Some((n - 1) as usize)
            } else {
                Some(b)
            },
        }
    }
}

/// Position of the winning score.
pub fn first_best(scores: &Vec<u32>) -> (r: Option<usize>)
    ensures
        r == winner(scores@, scores@.len()),
        r matches Some(k) ==> k < scores@.len(),
{
    let mut best: Option<usize> = None;
    let mut i: usize = 0;
    while i < scores.len()
        invariant
            i <= scores@.len(),
            best == winner(scores@, i as nat),
            best matches Some(b) ==> b < i,
        decreases scores@.len() - i,
    {
        best = match best {
            None => Some(i),
            Some(b) => if score_greater(scores[i], scores[b]) {
                Some(i)
            } else {
                Some(b)
            },
        };
        i = i + 1;
    }
    best
}

/// Without NaN, the winner is the first of the greatest scores.
pub proof fn law_winner_is_first_maximum(scores: Seq<u32>, n: nat)
    requires
        0 < n <= scores.len(),
        n <= usize::MAX,
        forall|i: int| 0 <= i < n ==> score_rank(#[trigger] scores[i]) is Some,
    ensures
        winner(scores, n) is Some,
        winner(scores, n)->0 < n,
        forall|i: int|
            0 <= i < n ==> score_rank(#[trigger] scores[i])->0 <= score_rank(
                scores[winner(scores, n)->0 as int],
            )->0,
        forall|i: int|
            0 <= i < winner(scores, n)->0 ==> score_rank(#[trigger] scores[i])->0 < score_rank(
                scores[winner(scores, n)->0 as int],
            )->0,
    decreases n,
{
    if n > 1 {
        law_winner_is_first_maximum(scores, (n - 1) as nat);
    } else {
        assert(winner(scores, 0) is None);
    }
}

// ── Candidates ─────────────────────────────────────────────────────

/// A seed that takes part in a match, with its thumbprint.
#[derive(Debug)]
pub struct Needle {
    /// Position of the seed in the database.
    pub seed_idx: usize,
    /// Its RMS windows.
    pub windows: Vec<u32>,
}

/// The thumbprint with which a seed takes part: it has the position asked
/// for, a compatible publisher and a thumbprint that fits into the clip.
pub open spec fn needle_of(
    s: seed::SeedFingerprint,
    hint: Option<Seq<char>>,
    position: seed::Position,
    clip_windows: nat,
) -> Option<Seq<u32>> {
    if s.position != position || !compatible(hint, text::opt_text(s.publisher)) {
        None
    } else {
        match decoded_thumbprint(s.fingerprint_b64@) {
            Some(fp) => if fp.len() == 0 || fp.len() > clip_windows {
                None
            } else {
                Some(fp)
            },
            None => None,
        }
    }
}

/// The seeds, among the first `n`, that take part in a match.
pub open spec fn needles_of(
    seeds: Seq<seed::SeedFingerprint>,
    hint: Option<Seq<char>>,
    position: seed::Position,
    clip_windows: nat,
    n: nat,
) -> Seq<(usize, Seq<u32>)>
    decreases n,
{
    if n == 0 {
        Seq::empty()
    } else {
        let rest = needles_of(seeds, hint, position, clip_windows, (n - 1) as nat);
        match needle_of(seeds[n - 1], hint, position, clip_windows) {
            Some(fp) => rest.push(((n - 1) as usize, fp)),
            None => rest,
        }
    }
}

/// Only seeds of the position asked for and of a compatible publisher take
/// part, each with a thumbprint that fits into the clip; without a publisher
/// none does.
pub proof fn law_needles_compatible(
    seeds: Seq<seed::SeedFingerprint>,
    hint: Option<Seq<char>>,
    position: seed::Position,
    clip_windows: nat,
    n: nat,
    i: int,
)
    requires
        n <= seeds.len() <= usize::MAX,
        0 <= i < needles_of(seeds, hint, position, clip_windows, n).len(),
    ensures
        ({
            let (k, fp) = needles_of(seeds, hint, position, clip_windows, n)[i];
            &&& k < n
            &&& seeds[k as int].position == position
            &&& compatible(hint, text::opt_text(seeds[k as int].publisher))
            &&& decoded_thumbprint(seeds[k as int].fingerprint_b64@) == Some(fp)
            &&& 1 <= fp.len() <= clip_windows
        }),
        hint is Some,
    decreases n,
{
    let rest = needles_of(seeds, hint, position, clip_windows, (n - 1) as nat);
    if i < rest.len() {
        law_needles_compatible(seeds, hint, position, clip_windows, (n - 1) as nat, i);
    }
}

/// Needles as pairs of seed position and windows.
pub open spec fn needle_views(s: Seq<Needle>) -> Seq<(usize, Seq<u32>)> {
    Seq::new(s.len(), |i: int| (s[i].seed_idx, s[i].windows@))
}

/// The seeds that take part in matching a clip of `clip_windows` windows.
pub fn candidate_needles(
    seeds: &seed::SeedDb,
    publisher_hint: Option<&str>,
    position: seed::Position,
    clip_windows: usize,
) -> (r: Vec<Needle>)
    ensures
        needle_views(r@) == needles_of(
            seeds.fingerprints@,
            text::opt_str(publisher_hint),
            position,
            clip_windows as nat,
            seeds.fingerprints@.len(),
        ),
        forall|i: int|
            0 <= i < r@.len() ==> (#[trigger] r@[i]).seed_idx < seeds.fingerprints@.len(),
{
    let mut out: Vec<Needle> = Vec::new();
    let ghost hint = text::opt_str(publisher_hint);
    let mut i: usize = 0;
    proof {
        assert(needle_views(out@) =~= Seq::empty());
    }
    while i < seeds.fingerprints.len()
        invariant
            i <= seeds.fingerprints@.len(),
            hint == text::opt_str(publisher_hint),
            needle_views(out@) == needles_of(
                seeds.fingerprints@,
                hint,
                position,
                clip_windows as nat,
                i as nat,
            ),
            forall|j: int| 0 <= j < out@.len() ==> (#[trigger] out@[j]).seed_idx < i,
        decreases seeds.fingerprints@.len() - i,
    {
        let s = &seeds.fingerprints[i];
        let ghost start = out@;
        if s.position == position && publisher_compatible(
            publisher_hint,
            text::opt_as_str(&s.publisher),
        ) {
            if let Some(windows) = decode_thumbprint(s.fingerprint_b64.as_str()) {
                if windows.len() > 0 && windows.len() <= clip_windows {
                    out.push(Needle { seed_idx: i, windows });
                }
            }
        }
        proof {
            match needle_of(*s, hint, position, clip_windows as nat) {
                Some(fp) => {
                    assert(needle_views(out@) =~= needle_views(start).push((i, fp)));
                },
                None => {
                    assert(out@ == start);
                },
            }
        }
        i = i + 1;
    }
    out
}

/// The best match of a clip.
#[derive(Debug)]
pub struct SeedMatch {
    /// Position of the seed in the database.
    pub seed_idx: usize,
    /// Publisher tag of the seed.
    pub publisher: Option<String>,
    /// Publisher label of the seed.
    pub publisher_match: Option<String>,
    /// Which end of the book was matched.
    pub position: seed::Position,
    /// Window at which the best alignment starts.
    pub window_offset: usize,
    /// Bits of the cosine similarity at that window.
    pub confidence_bits: u32,
    /// Number of windows of the seed.
    pub seed_windows: usize,
}

/// Best alignments of the first `n` needles: the needle, its best offset and
/// the similarity there. Needles without an alignment are left out.
pub open spec fn alignments(similarities: Seq<Vec<u32>>, n: nat) -> Seq<(usize, usize, u32)>
    decreases n,
{
    if n == 0 {
        Seq::empty()
    } else {
        let rest = alignments(similarities, (n - 1) as nat);
        let sims = similarities[n - 1]@;
        match winner(sims, sims.len()) {
            Some(k) => rest.push(((n - 1) as usize, k, sims[k as int])),
            None => rest,
        }
    }
}

/// The similarities of alignments.
pub open spec fn alignment_scores(a: Seq<(usize, usize, u32)>) -> Seq<u32> {
    Seq::new(a.len(), |i: int| a[i].2)
}

/// The winning alignment.
pub open spec fn winning_alignment(similarities: Seq<Vec<u32>>) -> Option<(usize, usize, u32)> {
    let a = alignments(similarities, similarities.len());
    match winner(alignment_scores(a), a.len()) {
        Some(k) => Some(a[k as int]),
        None => None,
    }
}

/// Picks the best match from the similarity of each needle at each offset.
/// Similarities are bit patterns of single-precision numbers.
pub fn best_match_against_thumbprint(
    seeds: &seed::SeedDb,
    position: seed::Position,
    needles: &Vec<Needle>,
    similarities: &Vec<Vec<u32>>,
) -> (r: Option<SeedMatch>)
    requires
        similarities@.len() == needles@.len(),
        forall|i: int|
            0 <= i < needles@.len() ==> (#[trigger] needles@[i]).seed_idx
                < seeds.fingerprints@.len(),
    ensures
        match winning_alignment(similarities@) {
            Some((n, offset, score)) => {
                let s = seeds.fingerprints@[needles@[n as int].seed_idx as int];
                &&& r is Some
                &&& r->0.seed_idx == needles@[n as int].seed_idx
                &&& text::opt_text(r->0.publisher) == text::opt_text(s.publisher)
                &&& text::opt_text(r->0.publisher_match) == text::opt_text(s.publisher_match)
                &&& r->0.position == position
                &&& r->0.window_offset == offset
                &&& r->0.confidence_bits == score
                &&& r->0.seed_windows == needles@[n as int].windows@.len()
            },
            None => r is None,
        },
{
    let mut found: Vec<(usize, usize, u32)> = Vec::new();
    let mut scores: Vec<u32> = Vec::new();
    let mut i: usize = 0;
    proof {
        assert(scores@ =~= alignment_scores(found@));
    }
    while i < similarities.len()
        invariant
            i <= similarities@.len(),
            similarities@.len() == needles@.len(),
            found@ == alignments(similarities@, i as nat),
            scores@ == alignment_scores(found@),
            forall|j: int| 0 <= j < found@.len() ==> (#[trigger] found@[j]).0 < i,
        decreases similarities@.len() - i,
    {
        if let Some(k) = first_best(&similarities[i]) {
            let score: u32 = similarities[i][k];
            found.push((i, k, score));
            scores.push(score);
            proof {
                assert(scores@ =~= alignment_scores(found@));
            }
        }
        i = i + 1;
    }
    match first_best(&scores) {
        Some(k) => {
            let (n, window_offset, confidence_bits) = found[k];
            let seed_idx: usize = needles[n].seed_idx;
            let s = &seeds.fingerprints[seed_idx];
            Some(
                SeedMatch {
                    seed_idx,
                    publisher: text::opt_clone(&s.publisher),
                    publisher_match: text::opt_clone(&s.publisher_match),
                    position,
                    window_offset,
                    confidence_bits,
                    seed_windows: needles[n].windows.len(),
                },
            )
        },
        None => None,
    }
}

/// Whether a thumbprint of `needle` windows fits into one of `haystack`
/// windows, and the last offset at which it does.
pub fn last_offset(haystack: usize, needle: usize) -> (r: Option<usize>)
    ensures
        r == (if needle == 0 || needle > haystack {
            None
        } else {
            Some((haystack - needle) as usize)
        }),
{
    if needle == 0 || needle > haystack {
        None
    } else {
        Some(haystack - needle)
    }
}

/// Samples of one RMS window at a sample rate.
pub fn window_samples(sample_rate: u32) -> (r: usize)
    ensures
        r == sample_rate * WINDOW_MS / 1000,
        10 * r <= sample_rate < 10 * (r + 1),
{
    (sample_rate / 10) as usize
}

// ── Samples ────────────────────────────────────────────────────────

/// Sum of the first `n` samples from `base` on.
pub open spec fn sum_from(samples: Seq<i16>, base: int, n: int) -> int
    decreases n,
{
    if n <= 0 {
        0
    } else {
        sum_from(samples, base, n - 1) + samples[base + n - 1]
    }
}

/// Sums of whole frames of interleaved samples: what stands behind the last
/// whole frame is left out.
pub open spec fn frame_sums_of(samples: Seq<i16>, channels: int) -> Seq<int> {
    Seq::new(
        (samples.len() / channels as nat) as nat,
        |f: int| sum_from(samples, f * channels, channels),
    )
}

/// Sums over the channels of each frame of interleaved samples.
pub fn frame_sums(samples: &Vec<i16>, channels: usize) -> (sums: Vec<i32>)
    requires
        1 <= channels <= 65535,
    ensures
        sums@.len() == frame_sums_of(samples@, channels as int).len(),
        forall|f: int|
            0 <= f < sums@.len() ==> (#[trigger] sums@[f]) as int == frame_sums_of(
                samples@,
                channels as int,
            )[f],
{
    let frames: usize = samples.len() / channels;
    let mut sums: Vec<i32> = Vec::new();
    let mut f: usize = 0;
    while f < frames
        invariant
            f <= frames,
            frames == samples@.len() / channels as nat,
            samples@.len() <= usize::MAX,
            1 <= channels <= 65535,
            sums@.len() == f,
            forall|g: int|
                0 <= g < f ==> (#[trigger] sums@[g]) as int == sum_from(
                    samples@,
                    g * channels,
                    channels as int,
                ),
        decreases frames - f,
    {
        proof {
            assert(f * channels + channels <= samples@.len()) by (nonlinear_arith)
                requires
                    f + 1 <= frames,
                    frames == samples@.len() / channels as nat,
                    channels >= 1,
            ;
            assert(f * channels >= 0) by (nonlinear_arith);
        }
        let base: usize = f * channels;
        let mut sum: i32 = 0;
        let mut c: usize = 0;
        while c < channels
            invariant
                c <= channels,
                channels <= 65535,
                base == f * channels,
                base + channels <= samples@.len(),
                samples@.len() <= usize::MAX,
                sum == sum_from(samples@, base as int, c as int),
                -32768 * c <= sum <= 32767 * c,
            decreases channels - c,
        {
            sum = sum + samples[base + c] as i32;
            c = c + 1;
        }
        sums.push(sum);
        f = f + 1;
    }
    sums
}

/// Windows of equal size that fit into a number of frames: each is given by
/// its first frame and the one behind its last.
pub open spec fn windows_of(frames: nat, size: nat) -> Seq<(int, int)> {
    Seq::new(frames / size, |w: int| (w * size, w * size + size))
}

/// The whole windows of a number of frames. A window holds one frame at
/// least.
pub fn full_windows(frames: usize, window: usize) -> (r: Vec<(usize, usize)>)
    ensures
        ({
            let size = if window == 0 {
                1nat
            } else {
                window as nat
            };
            &&& r@.len() == windows_of(frames as nat, size).len()
            &&& forall|w: int|
                0 <= w < r@.len() ==> (#[trigger] r@[w]).0 == windows_of(frames as nat, size)[w].0
                    && r@[w].1 == windows_of(frames as nat, size)[w].1
        }),
{
    let size: usize = if window == 0 {
        1
    } else {
        window
    };
    let count: usize = frames / size;
    let mut r: Vec<(usize, usize)> = Vec::new();
    let mut w: usize = 0;
    while w < count
        invariant
            w <= count,
            size >= 1,
            count == frames / size,
            r@.len() == w,
            forall|v: int|
                0 <= v < w ==> (#[trigger] r@[v]).0 == v * size && r@[v].1 == v * size + size,
        decreases count - w,
    {
        proof {
            assert(w * size + size <= frames) by (nonlinear_arith)
                requires
                    w + 1 <= count,
                    count == frames / size,
                    size >= 1,
            ;
            assert(w * size >= 0) by (nonlinear_arith);
        }
        r.push((w * size, w * size + size));
        w = w + 1;
    }
    r
}

/// The windows follow each other without gap and leave out less than one
/// window.
pub proof fn law_windows_tile(frames: nat, size: nat, w: int)
    requires
        size >= 1,
        0 <= w < windows_of(frames, size).len(),
    ensures
        windows_of(frames, size)[w].1 - windows_of(frames, size)[w].0 == size,
        windows_of(frames, size)[w].1 <= frames,
        w + 1 < windows_of(frames, size).len() ==> windows_of(frames, size)[w].1 == windows_of(
            frames,
            size,
        )[w + 1].0,
        w + 1 == windows_of(frames, size).len() ==> frames - windows_of(frames, size)[w].1 < size,
{
    assert(w * size + size <= frames) by (nonlinear_arith)
        requires
            w + 1 <= frames / size,
            size >= 1,
    ;
    assert((w + 1) * size == w * size + size) by (nonlinear_arith);
    if w + 1 == frames / size {
        assert(frames - (w + 1) * size < size) by (nonlinear_arith)
            requires
                w + 1 == frames / size,
                size >= 1,
        ;
    }
}

/// Every seed that is fit for a match takes part in it: whichever end of the
/// book is matched, a seed of that end with a compatible publisher and a
/// thumbprint of at least one window and no more than the clip has.
pub proof fn law_needles_complete(
    seeds: Seq<seed::SeedFingerprint>,
    hint: Option<Seq<char>>,
    position: seed::Position,
    clip_windows: nat,
    n: nat,
    k: int,
    fp: Seq<u32>,
)
    requires
        0 <= k < n <= seeds.len() <= usize::MAX,
        seeds[k].position == position,
        compatible(hint, text::opt_text(seeds[k].publisher)),
        decoded_thumbprint(seeds[k].fingerprint_b64@) == Some(fp),
        1 <= fp.len() <= clip_windows,
    ensures
        needles_of(seeds, hint, position, clip_windows, n).contains((k as usize, fp)),
    decreases n,
{
    let all = needles_of(seeds, hint, position, clip_windows, n);
    let rest = needles_of(seeds, hint, position, clip_windows, (n - 1) as nat);
    if k == n - 1 {
        assert(all.last() == (k as usize, fp));
    } else {
        law_needles_complete(seeds, hint, position, clip_windows, (n - 1) as nat, k, fp);
        let i = choose|i: int| 0 <= i < rest.len() && rest[i] == (k as usize, fp);
        assert(all[i] == (k as usize, fp));
    }
}

/// No seed takes part twice, and the seeds keep their order.
pub proof fn law_needles_in_order(
    seeds: Seq<seed::SeedFingerprint>,
    hint: Option<Seq<char>>,
    position: seed::Position,
    clip_windows: nat,
    n: nat,
    i: int,
    j: int,
)
    requires
        n <= seeds.len() <= usize::MAX,
        0 <= i < j < needles_of(seeds, hint, position, clip_windows, n).len(),
    ensures
        needles_of(seeds, hint, position, clip_windows, n)[i].0 < needles_of(
            seeds,
            hint,
            position,
            clip_windows,
            n,
        )[j].0,
    decreases n,
{
    let rest = needles_of(seeds, hint, position, clip_windows, (n - 1) as nat);
    if j < rest.len() {
        law_needles_in_order(seeds, hint, position, clip_windows, (n - 1) as nat, i, j);
    } else {
        law_needles_compatible(seeds, hint, position, clip_windows, (n - 1) as nat, i);
    }
}

/// Two publishers are compatible where, trimmed and lower-cased, one stands
/// somewhere in the other and neither is empty.
pub proof fn law_compatible_is_containment(book: Seq<char>, tag: Seq<char>, i: int)
    ensures
        ({
            let b = text::lowercased(text::trimmed(book));
            let s = text::lowercased(text::trimmed(tag));
            &&& b.len() == 0 || s.len() == 0 ==> !compatible(Some(book), Some(tag))
            &&& b.len() > 0 && 0 <= i && i + b.len() <= s.len() && s.subrange(i, i + b.len()) == b
                ==> compatible(Some(book), Some(tag))
            &&& s.len() > 0 && 0 <= i && i + s.len() <= b.len() && b.subrange(i, i + s.len()) == s
                ==> compatible(Some(book), Some(tag))
            &&& compatible(Some(book), Some(tag)) ==> (exists|k: int|
                #[trigger] text::stands_at(s, b, k)) || (exists|k: int|
                #[trigger] text::stands_at(b, s, k))
        }),
        !compatible(None, Some(tag)),
        !compatible(Some(book), None),
        !compatible(None, None),
{
    let b = text::lowercased(text::trimmed(book));
    let s = text::lowercased(text::trimmed(tag));
    if b.len() > 0 && 0 <= i && i + b.len() <= s.len() && s.subrange(i, i + b.len()) == b {
        assert(text::stands_at(s, b, i));
    }
    if s.len() > 0 && 0 <= i && i + s.len() <= b.len() && b.subrange(i, i + s.len()) == s {
        assert(text::stands_at(b, s, i));
    }
}

/// The order of scores is that of the numbers: of two positive ones the
/// greater bits are the greater number, of two negative ones the smaller, a
/// negative one is below a positive one, and NaN is above and below nothing.
pub proof fn law_score_order(a: u32, b: u32)
    ensures
        a <= 0x7f80_0000 && b <= 0x7f80_0000 ==> (score_gt(a, b) <==> a > b),
        0x8000_0000 <= a <= 0xff80_0000 && 0x8000_0000 <= b <= 0xff80_0000 ==> (score_gt(a, b)
            <==> a < b),
        0 < a <= 0x7f80_0000 && 0x8000_0000 <= b <= 0xff80_0000 ==> score_gt(a, b) && !score_gt(
            b,
            a,
        ),
        0x7f80_0000 < a < 0x8000_0000 || 0xff80_0000 < a ==> !score_gt(a, b) && !score_gt(b, a),
        !score_gt(0, 0x8000_0000) && !score_gt(0x8000_0000, 0),
{
}

/// There is a winner wherever there is a score.
pub proof fn law_some_score_wins(scores: Seq<u32>, n: nat)
    requires
        n <= scores.len() <= usize::MAX,
    ensures
        winner(scores, n) is Some <==> n > 0,
        winner(scores, n) matches Some(k) ==> k < n,
    decreases n,
{
    if n > 0 {
        law_some_score_wins(scores, (n - 1) as nat);
    }
}

proof fn lemma_alignment(similarities: Seq<Vec<u32>>, n: nat, i: int)
    requires
        n <= similarities.len() <= usize::MAX,
        0 <= i < alignments(similarities, n).len(),
    ensures
        ({
            let (k, offset, score) = alignments(similarities, n)[i];
            &&& k < n
            &&& winner(similarities[k as int]@, similarities[k as int]@.len()) == Some(offset)
            &&& score == similarities[k as int]@[offset as int]
        }),
    decreases n,
{
    if i < alignments(similarities, (n - 1) as nat).len() {
        lemma_alignment(similarities, (n - 1) as nat, i);
    }
}

proof fn lemma_aligned(similarities: Seq<Vec<u32>>, n: nat, k: int) -> (i: int)
    requires
        0 <= k < n <= similarities.len() <= usize::MAX,
        similarities[k]@.len() > 0,
        similarities[k]@.len() <= usize::MAX,
    ensures
        0 <= i < alignments(similarities, n).len(),
        alignments(similarities, n)[i].0 == k,
    decreases n,
{
    if k == n - 1 {
        law_some_score_wins(similarities[k]@, similarities[k]@.len());
        alignments(similarities, n).len() - 1
    } else {
        lemma_aligned(similarities, (n - 1) as nat, k)
    }
}

/// The match that wins is the best of all: no seed is more similar anywhere,
/// and there is a match wherever a seed can be aligned at all. Similarities
/// are no NaN here.
pub proof fn law_best_match_is_best(similarities: Seq<Vec<u32>>, k: int, offset: int)
    requires
        similarities.len() <= usize::MAX,
        forall|i: int|
            0 <= i < similarities.len() ==> (#[trigger] similarities[i])@.len() <= usize::MAX,
        forall|i: int, j: int|
            0 <= i < similarities.len() && 0 <= j < similarities[i]@.len() ==> score_rank(
                #[trigger] similarities[i]@[j],
            ) is Some,
        0 <= k < similarities.len(),
        0 <= offset < similarities[k]@.len(),
    ensures
        winning_alignment(similarities) matches Some((n, at, score)) && n < similarities.len() && at
            < similarities[n as int]@.len() && score == similarities[n as int]@[at as int]
            && !score_gt(similarities[k]@[offset], score),
{
    let a = alignments(similarities, similarities.len());
    let scores = alignment_scores(a);
    let i = lemma_aligned(similarities, similarities.len(), k);
    assert(a.len() <= similarities.len()) by {
        lemma_alignments_short(similarities, similarities.len());
    }
    law_some_score_wins(scores, a.len());
    assert forall|j: int| 0 <= j < scores.len() implies score_rank(#[trigger] scores[j]) is Some by {
        lemma_alignment(similarities, similarities.len(), j);
        let (m, o, _s) = a[j];
        law_some_score_wins(similarities[m as int]@, similarities[m as int]@.len());
        assert(score_rank(similarities[m as int]@[o as int]) is Some);
    }
    law_winner_is_first_maximum(scores, a.len());
    lemma_alignment(similarities, similarities.len(), i);
    law_winner_is_first_maximum(similarities[k]@, similarities[k]@.len());
    let w = winner(scores, a.len())->0 as int;
    lemma_alignment(similarities, similarities.len(), w);
    law_some_score_wins(similarities[a[w].0 as int]@, similarities[a[w].0 as int]@.len());
    assert(score_rank(scores[i])->0 <= score_rank(scores[w])->0);
    assert(score_rank(similarities[k]@[offset])->0 <= score_rank(scores[i])->0);
}

proof fn lemma_alignments_short(similarities: Seq<Vec<u32>>, n: nat)
    ensures
        alignments(similarities, n).len() <= n,
    decreases n,
{
    if n > 0 {
        lemma_alignments_short(similarities, (n - 1) as nat);
    }
}

/// Without an alignment there is no match.
pub proof fn law_no_alignment_no_match(similarities: Seq<Vec<u32>>)
    requires
        forall|i: int| 0 <= i < similarities.len() ==> (#[trigger] similarities[i])@.len() == 0,
    ensures
        winning_alignment(similarities) is None,
{
    lemma_no_alignments(similarities, similarities.len());
}

proof fn lemma_no_alignments(similarities: Seq<Vec<u32>>, n: nat)
    requires
        n <= similarities.len(),
        forall|i: int| 0 <= i < similarities.len() ==> (#[trigger] similarities[i])@.len() == 0,
    ensures
        alignments(similarities, n).len() == 0,
    decreases n,
{
    if n > 0 {
        lemma_no_alignments(similarities, (n - 1) as nat);
        assert(similarities[n - 1]@.len() == 0);
    }
}

/// The frames take up the samples but for less than a frame at the end, and
/// each sums its channels: one sample more adds that sample.
pub proof fn law_frames_sum_their_channels(samples: Seq<i16>, channels: int, base: int, n: int)
    requires
        channels >= 1,
        n >= 0,
    ensures
        frame_sums_of(samples, channels).len() * channels <= samples.len(),
        samples.len() < (frame_sums_of(samples, channels).len() + 1) * channels,
        sum_from(samples, base, 0) == 0,
        sum_from(samples, base, n + 1) - sum_from(samples, base, n) == samples[base + n],
        forall|f: int|
            0 <= f < frame_sums_of(samples, channels).len() ==> #[trigger] frame_sums_of(
                samples,
                channels,
            )[f] == sum_from(samples, f * channels, channels),
{
    let (l, c) = (samples.len() as int, channels);
    assert(l / c * c <= l && l < (l / c + 1) * c) by (nonlinear_arith)
        requires
            c >= 1,
            l >= 0,
    ;
}

/// The windows begin with the first frame and are as many as fit.
pub proof fn law_as_many_windows_as_fit(frames: nat, size: nat)
    requires
        size >= 1,
    ensures
        windows_of(frames, size).len() * size <= frames < (windows_of(frames, size).len() + 1)
            * size,
        frames >= size ==> windows_of(frames, size).len() > 0 && windows_of(frames, size)[0].0 == 0,
{
    assert(frames / size * size <= frames && frames < (frames / size + 1) * size)
        by (nonlinear_arith)
        requires
            size >= 1,
    ;
    if frames >= size {
        assert(frames / size >= 1) by (nonlinear_arith)
            requires
                size >= 1,
                frames >= size,
        ;
    }
}

/// A thumbprint is packed word by word, the least significant byte first.
pub proof fn law_words_are_little_endian(fp: Seq<u32>, i: int)
    requires
        0 <= i < fp.len(),
    ensures
        bytes_of(fp).len() == 4 * fp.len(),
        fp[i] == bytes_of(fp)[4 * i] + 256 * bytes_of(fp)[4 * i + 1] + 65536 * bytes_of(fp)[4 * i
            + 2] + 16777216 * bytes_of(fp)[4 * i + 3],
{
    let b = bytes_of(fp);
    law_thumbprint_round_trip(fp);
    assert(words_of(b)[i] == fp[i]);
    assert(0 <= word_at(b, i) <= u32::MAX);
}

/// Bytes hold a thumbprint exactly where they make up whole words.
pub proof fn law_whole_words_only(b: Seq<u8>)
    ensures
        b.len() % 4 == 0 ==> (thumbprint_of(b) matches Some(fp) && 4 * fp.len() == b.len()),
        b.len() % 4 != 0 ==> thumbprint_of(b) is None,
{
}

} // verus!

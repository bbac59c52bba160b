use aborganizer::audit::match_seed::{
    best_match_against_thumbprint, candidate_needles, decode_thumbprint, encode_thumbprint,
    first_best, frame_sums, full_windows, last_offset, publisher_compatible, score_greater, thumbprint_to_bytes,
    unpack_thumbprint, window_samples, SeedMatch, WINDOW_MS,
};
use aborganizer::audit::seed::{Position, SeedDb, SeedFingerprint, SeedSource};
use base64::engine::general_purpose::STANDARD;
use base64::Engine;

fn bits(v: &[f32]) -> Vec<u32> {
    v.iter().map(|x| x.to_bits()).collect()
}

fn fixture_seed(publisher: Option<&str>, position: Position, thumbprint: &[f32]) -> SeedFingerprint {
    let bytes = thumbprint_to_bytes(&bits(thumbprint));
    SeedFingerprint {
        publisher: publisher.map(str::to_owned),
        publisher_match: None,
        position,
        fingerprint_b64: STANDARD.encode(&bytes),
        duration_ms: u32::try_from(thumbprint.len()).unwrap_or(0) * WINDOW_MS,
        transcript_excerpt: None,
        source: SeedSource::OperatorConfirmed,
        confirmed: false,
    }
}

fn db(seeds: Vec<SeedFingerprint>) -> SeedDb {
    SeedDb { fingerprints: seeds }
}

fn cosine(a: &[f32], b: &[f32]) -> f32 {
    let n = a.len().min(b.len());
    if n == 0 {
        return 0.0;
    }
    let (mut num, mut da, mut db) = (0.0_f64, 0.0_f64, 0.0_f64);
    for i in 0..n {
        let av = f64::from(a[i]);
        let bv = f64::from(b[i]);
        num += av * bv;
        da += av * av;
        db += bv * bv;
    }
    if da == 0.0 || db == 0.0 {
        return 0.0;
    }
    (num / (da.sqrt() * db.sqrt())) as f32
}

fn similarities(clip: &[f32], needle: &[f32]) -> Vec<u32> {
    match last_offset(clip.len(), needle.len()) {
        Some(last) => (0..=last)
            .map(|o| cosine(&clip[o..o + needle.len()], needle).to_bits())
            .collect(),
        None => Vec::new(),
    }
}

fn best_cosine_offset(hay: &[f32], needle: &[f32]) -> Option<(usize, f32)> {
    let sims = similarities(hay, needle);
    first_best(&sims).map(|k| (k, f32::from_bits(sims[k])))
}

fn best_match(
    clip: &[f32],
    seeds: &SeedDb,
    hint: Option<&str>,
    position: Position,
) -> Option<SeedMatch> {
    let needles = candidate_needles(seeds, hint, position, clip.len());
    let sims: Vec<Vec<u32>> = needles
        .iter()
        .map(|n| {
            let w: Vec<f32> = n.windows.iter().map(|b| f32::from_bits(*b)).collect();
            similarities(clip, &w)
        })
        .collect();
    best_match_against_thumbprint(seeds, position, &needles, &sims)
}

#[test]
fn decode_thumbprint_round_trip() {
    let original: Vec<f32> = vec![0.1, 0.5, -0.3, 0.9, 0.0];
    let bytes = thumbprint_to_bytes(&bits(&original));
    let b64 = STANDARD.encode(&bytes);
    let decoded = decode_thumbprint(&b64).expect("decode");
    assert_eq!(decoded.len(), original.len());
    for (orig, dec) in original.iter().zip(decoded.iter()) {
        let dec = f32::from_bits(*dec);
        assert!((orig - dec).abs() < 1e-6, "round-trip diff: {orig} vs {dec}");
    }
}

#[test]
fn encoded_thumbprints_decode_to_themselves() {
    assert_eq!(encode_thumbprint(&vec![]), "");
    assert_eq!(encode_thumbprint(&vec![0x4142_4344]), "RENCQQ==");
    let fp = vec![0, 1, u32::MAX, 0x8000_0000];
    assert_eq!(decode_thumbprint(&encode_thumbprint(&fp)), Some(fp));
}

#[test]
fn decode_thumbprint_rejects_truncated_bytes() {
    let bad_b64 = STANDARD.encode([0_u8; 5]);
    assert!(decode_thumbprint(&bad_b64).is_none());
}

#[test]
fn decode_thumbprint_rejects_invalid_b64() {
    assert!(decode_thumbprint("not-valid-base64-!!").is_none());
}

#[test]
fn thumbprint_bytes_are_little_endian() {
    assert_eq!(thumbprint_to_bytes(&vec![0x0403_0201]), vec![1, 2, 3, 4]);
    assert_eq!(unpack_thumbprint(&vec![1, 2, 3, 4, 255, 0, 0, 128]), Some(vec![0x0403_0201, 0x8000_00ff]));
    assert_eq!(unpack_thumbprint(&vec![1, 2, 3]), None);
    for w in [0_u32, 1, 255, 256, 65_536, 0x3f80_0000, u32::MAX] {
        assert_eq!(thumbprint_to_bytes(&vec![w]), w.to_le_bytes().to_vec());
    }
}

#[test]
fn publisher_compatible_case_insensitive_substring() {
    assert!(publisher_compatible(Some("Audible Originals"), Some("audible")));
    assert!(publisher_compatible(Some("audible"), Some("Audible Originals")));
    assert!(!publisher_compatible(Some("Brilliance Audio"), Some("Audible")));
    assert!(!publisher_compatible(None, Some("Audible")));
    assert!(!publisher_compatible(Some("Audible"), None));
    assert!(!publisher_compatible(Some("   "), Some("Audible")));
}

#[test]
fn publisher_compatible_beyond_ascii() {
    assert!(publisher_compatible(Some("HÖRVERLAG München"), Some("hörverlag")));
}

#[test]
fn best_cosine_offset_finds_exact_match() {
    let needle = vec![0.5_f32, 0.7, 0.3, 0.9];
    let mut hay = vec![0.1_f32; 20];
    for (i, v) in needle.iter().enumerate() {
        hay[5 + i] = *v;
    }
    let (offset, sim) = best_cosine_offset(&hay, &needle).expect("match");
    assert_eq!(offset, 5);
    assert!(sim > 0.99, "near-perfect at exact offset, got {sim}");
}

#[test]
fn best_cosine_offset_returns_none_when_needle_too_long() {
    let needle = vec![0.5_f32; 100];
    let hay = vec![0.5_f32; 50];
    assert!(best_cosine_offset(&hay, &needle).is_none());
    assert_eq!(last_offset(50, 100), None);
    assert_eq!(last_offset(50, 0), None);
    assert_eq!(last_offset(50, 50), Some(0));
}

#[test]
fn best_match_picks_publisher_compatible_only() {
    let needle = vec![0.5_f32, 0.7, 0.3, 0.9, 0.4, 0.6];
    let mut clip = vec![0.0_f32; 50];
    for (i, v) in needle.iter().enumerate() {
        clip[10 + i] = *v;
    }
    let audible_seed = fixture_seed(Some("Audible Originals"), Position::Intro, &needle);
    let brilliance_seed = fixture_seed(Some("Brilliance Audio"), Position::Intro, &needle);
    let outro_seed = fixture_seed(Some("Audible"), Position::Outro, &needle);
    let seeds = db(vec![audible_seed, brilliance_seed, outro_seed]);

    let m = best_match(&clip, &seeds, Some("Audible"), Position::Intro).expect("match");
    assert_eq!(m.seed_idx, 0);
    assert_eq!(m.window_offset, 10);
    let confidence = f32::from_bits(m.confidence_bits);
    assert!(confidence > 0.99, "perfect match: {confidence}");
    assert_eq!(m.seed_windows, 6);
    assert_eq!(m.publisher.as_deref(), Some("Audible Originals"));
}

#[test]
fn best_match_returns_none_when_position_wrong() {
    let needle = vec![0.2_f32, 0.4, 0.6, 0.8];
    let clip = needle.iter().chain(needle.iter()).copied().collect::<Vec<_>>();
    let seeds = db(vec![fixture_seed(Some("Audible"), Position::Outro, &needle)]);
    let m = best_match(&clip, &seeds, Some("Audible"), Position::Intro);
    assert!(m.is_none());
}

#[test]
fn best_match_returns_none_when_publisher_hint_absent() {
    let needle = vec![0.3_f32, 0.6, 0.9];
    let clip = needle.clone();
    let seeds = db(vec![fixture_seed(Some("Audible"), Position::Intro, &needle)]);
    let m = best_match(&clip, &seeds, None, Position::Intro);
    assert!(m.is_none());
}

#[test]
fn best_match_picks_higher_confidence_when_multiple() {
    let needle_a = vec![0.5_f32, 0.7, 0.3, 0.9, 0.4];
    let needle_b = vec![0.5_f32, 0.2, 0.8, 0.1, 0.9];
    let mut clip = vec![0.0_f32; 30];
    for (i, v) in needle_a.iter().enumerate() {
        clip[5 + i] = *v;
    }
    let seeds = db(vec![
        fixture_seed(Some("Audible"), Position::Intro, &needle_b),
        fixture_seed(Some("Audible"), Position::Intro, &needle_a),
    ]);
    let m = best_match(&clip, &seeds, Some("Audible"), Position::Intro).expect("match");
    assert_eq!(m.seed_idx, 1, "exact-match seed must win");
    assert!(f32::from_bits(m.confidence_bits) > 0.99);
}

#[test]
fn score_order_is_that_of_floats() {
    let values = [
        f32::NEG_INFINITY,
        -1.0,
        -0.5,
        -0.0,
        0.0,
        0.25,
        1.0,
        f32::INFINITY,
        f32::NAN,
    ];
    for a in values {
        for b in values {
            assert_eq!(score_greater(a.to_bits(), b.to_bits()), a > b, "{a} > {b}");
        }
    }
}

#[test]
fn first_best_is_the_first_maximum() {
    assert_eq!(first_best(&bits(&[0.1, 0.9, 0.3, 0.9])), Some(1));
    assert_eq!(first_best(&bits(&[])), None);
    assert_eq!(first_best(&bits(&[0.5, f32::NAN])), Some(0));
}

#[test]
fn frames_are_summed_over_channels() {
    assert_eq!(frame_sums(&vec![1, 2, 3, 4, 5], 2), vec![3, 7]);
    assert_eq!(frame_sums(&vec![i16::MIN, i16::MIN, i16::MAX, -1], 2), vec![-65_536, 32_766]);
    assert_eq!(frame_sums(&vec![7, -8], 1), vec![7, -8]);
    assert_eq!(frame_sums(&vec![], 3), Vec::<i32>::new());
}

#[test]
fn windows_tile_the_frames() {
    assert_eq!(window_samples(44_100), 4_410);
    assert_eq!(full_windows(10, 4), vec![(0, 4), (4, 8)]);
    assert_eq!(full_windows(3, 4), vec![]);
    assert_eq!(full_windows(2, 0), vec![(0, 1), (1, 2)]);
}

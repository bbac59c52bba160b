use aborganizer::audit::clips::{
    clip_failure, ensure_ffmpeg_present, extract_clip_args, FfmpegTrial,
};
use aborganizer::audit::walk::{
    enters_directory, limit_reached, select_corpus, slugify, walk_order, ProbedTags, SourceFile,
};
use aborganizer::audit::waveform::{bucket_bounds, emit_svg, empty_svg, mono_duration_ms, render};

#[test]
fn slugify_basic() {
    assert_eq!(slugify("The Way of Kings"), "the-way-of-kings");
    assert_eq!(slugify("Sanderson, Brandon"), "sanderson-brandon");
    assert_eq!(slugify("!@#$%^&*()"), "untitled");
    assert_eq!(slugify(""), "untitled");
    assert_eq!(slugify("---leading-trailing---"), "leading-trailing");
    assert_eq!(slugify("multiple   spaces"), "multiple-spaces");
}

#[test]
fn slugify_caps_long_input() {
    let s = slugify(&"x".repeat(200));
    assert!(s.len() <= 60);
}

#[test]
fn slugs_are_fixed_points() {
    for t in ["The Way of Kings", "a--b", "x".repeat(90).as_str(), "!!"] {
        let once = slugify(t);
        assert_eq!(slugify(&once), once);
    }
}

#[test]
fn audio_files_by_extension() {
    assert_eq!(SourceFile::is_audio("/a/b.M4B").as_deref(), Some("m4b"));
    assert_eq!(SourceFile::is_audio("/a/b.opus").as_deref(), Some("opus"));
    assert_eq!(SourceFile::is_audio("/a/b.txt"), None);
    assert_eq!(SourceFile::is_audio("/a/.mp3"), None);
    assert_eq!(SourceFile::is_audio("/a/mp3"), None);
}

#[test]
fn tags_fill_a_source_file() {
    let tags = ProbedTags {
        title: Some("Title".to_owned()),
        publisher: Some(String::new()),
        copyright: Some("C".to_owned()),
        duration_ms: 5,
    };
    let f = SourceFile::probe("/a/book one.m4b", "m4b", Some(tags));
    assert_eq!(f.title, "Title");
    assert_eq!(f.publisher, None);
    assert_eq!(f.copyright.as_deref(), Some("C"));
    assert_eq!(f.duration_ms, 5);
    let g = SourceFile::probe("/a/book one.m4b", "m4b", None);
    assert_eq!(g.title, "book one");
    assert_eq!(g.duration_ms, 0);
}

#[test]
fn hidden_directories_are_not_entered() {
    assert!(!enters_directory(".git"));
    assert!(!enters_directory("__MACOSX"));
    assert!(enters_directory("Books"));
}

#[test]
fn corpus_is_capped_and_ordered() {
    let files: Vec<String> =
        ["b.mp3", "note.txt", "a.m4b", "c.ogg"].iter().map(|s| (*s).to_owned()).collect();
    assert_eq!(select_corpus(&files, None), vec![0, 2, 3]);
    assert_eq!(select_corpus(&files, Some(2)), vec![0, 2]);
    assert_eq!(select_corpus(&files, Some(9)), vec![0, 2, 3]);
    assert!(select_corpus(&files, Some(0)).is_empty(), "a limit of none takes none");
    assert!(limit_reached(0, Some(0)));
    assert!(!limit_reached(1, Some(2)));
    assert!(!limit_reached(1, None));
    let sources: Vec<SourceFile> =
        ["/b.mp3", "/a.m4b", "/c.ogg"].iter().map(|p| SourceFile::probe(p, "x", None)).collect();
    assert_eq!(walk_order(&sources), vec![1, 0, 2]);
}

#[test]
fn downsample_empty_returns_empty() {
    assert!(bucket_bounds(0, 100).is_empty());
}

#[test]
fn downsample_to_zero_buckets_returns_empty() {
    assert!(bucket_bounds(2, 0).is_empty());
}

#[test]
fn downsample_rms_is_correct_for_uniform_input() {
    let samples = vec![0.5_f32; 1000];
    let out: Vec<f32> = bucket_bounds(samples.len(), 10)
        .iter()
        .map(|(from, to)| {
            let chunk = &samples[*from..*to];
            (chunk.iter().map(|s| s * s).sum::<f32>() / chunk.len() as f32).sqrt()
        })
        .collect();
    assert_eq!(out.len(), 10);
    for v in out {
        assert!((v - 0.5).abs() < 0.001);
    }
}

#[test]
fn empty_svg_renders_with_message() {
    let s = empty_svg();
    assert!(s.contains("decode failed"));
    assert!(s.contains("<svg"));
}

#[test]
fn waveforms_have_a_bar_per_bucket_and_a_marker() {
    let s = emit_svg(&vec![10, 20, 30], 1_000, Some(500));
    assert_eq!(s.matches("<rect x=").count(), 3);
    assert!(s.contains("<rect x=\"400\" y=\"80\" width=\"400\" height=\"40\" fill=\"#2563eb\"/>"));
    assert!(s.contains("<line x1=\"600\" y1=\"0\" x2=\"600\" y2=\"200\" stroke=\"#dc2626\""));
    assert!(s.contains("<text x=\"550\" y=\"14\""));
    assert!(s.ends_with(">500 ms</text></svg>"));
    let t = emit_svg(&vec![10], 1_000, None);
    assert!(!t.contains("#dc2626"));
    assert_eq!(render(0, &vec![], 0, None), empty_svg());
}

#[test]
fn durations_of_samples() {
    assert_eq!(mono_duration_ms(44_100, 44_100), 1_000);
    assert_eq!(mono_duration_ms(1, 0), 0);
}

#[test]
fn ffmpeg_is_required_for_clips() {
    assert!(ensure_ffmpeg_present(&FfmpegTrial::Success).is_ok());
    let e = ensure_ffmpeg_present(&FfmpegTrial::NotStarted("no such file".to_owned()))
        .expect_err("missing");
    assert!(e.contains("brew install ffmpeg"));
    let e = ensure_ffmpeg_present(&FfmpegTrial::BadStatus("exit status: 1".to_owned()))
        .expect_err("bad");
    assert!(e.contains("exit status: 1"));
}

#[test]
fn clip_command_line() {
    let args = extract_clip_args("/in.m4b", "/out.m4a", 61_005, 60);
    assert!(args.contains(&"61.005".to_owned()), "{args:?}");
    assert!(args.contains(&"/in.m4b".to_owned()));
    assert_eq!(args.last().map(String::as_str), Some("/out.m4a"));
    let m = clip_failure("/in.m4b", "exit status: 1", "boom");
    assert!(m.contains("boom") && m.contains("/in.m4b"));
}

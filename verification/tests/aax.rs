use aborganizer::aax_decrypt::stage::{
    jailed_input_output, process_one_source, AaxDecryptStage, SkipReason, SourceOutcome,
    StageInputs, StageOutcome, STAGE_NAME,
};
use aborganizer::aax_decrypt::{
    check_ffmpeg_on_path, classify_stderr, decrypt, decrypt_args, ActivationBytes, Error,
    FfmpegProbe, FfmpegRun, StderrClass,
};

#[test]
fn classify_stderr_detects_invalid_activation_bytes_capital_i() {
    let stderr = "[audible_aac @ 0x123] Invalid activation bytes\nInvalid data found when processing input\n";
    assert_eq!(classify_stderr(stderr), StderrClass::ActivationBytesRejected);
}

#[test]
fn classify_stderr_detects_invalid_activation_bytes_lowercase_i() {
    let stderr = "audible_aac: invalid activation bytes given\n";
    assert_eq!(classify_stderr(stderr), StderrClass::ActivationBytesRejected);
}

#[test]
fn classify_stderr_detects_activation_bytes_is_invalid_phrasing() {
    let stderr = "Error: activation_bytes is invalid for this file.\n";
    assert_eq!(classify_stderr(stderr), StderrClass::ActivationBytesRejected);
}

#[test]
fn classify_stderr_generic_for_unrelated_error() {
    let stderr = "[mov,mp4 @ 0x456] could not find codec parameters\n";
    assert_eq!(classify_stderr(stderr), StderrClass::Generic);
}

#[test]
fn classify_stderr_generic_for_empty_input() {
    assert_eq!(classify_stderr(""), StderrClass::Generic);
}

#[test]
fn classify_stderr_generic_for_disk_full() {
    let stderr = "av_interleaved_write_frame(): No space left on device\n";
    assert_eq!(classify_stderr(stderr), StderrClass::Generic);
}

#[test]
fn decrypt_outcomes() {
    assert!(decrypt(FfmpegRun::Success, Ok(Some(10)), "/o.m4b").is_ok());
    assert!(matches!(
        decrypt(FfmpegRun::NotFound, Ok(Some(10)), "/o.m4b"),
        Err(Error::FfmpegNotOnPath)
    ));
    assert!(matches!(
        decrypt(FfmpegRun::Failed("x Invalid activation bytes".to_owned()), Ok(Some(1)), "/o"),
        Err(Error::ActivationBytesRejected)
    ));
    assert!(matches!(
        decrypt(FfmpegRun::Failed("disk full".to_owned()), Ok(Some(1)), "/o"),
        Err(Error::DecryptFailed(s)) if s == "disk full"
    ));
    assert!(matches!(
        decrypt(FfmpegRun::Success, Ok(Some(0)), "/o.m4b"),
        Err(Error::OutputEmpty(s)) if s == "/o.m4b"
    ));
    assert!(matches!(
        decrypt(FfmpegRun::Success, Ok(None), "/o.m4b"),
        Err(Error::OutputEmpty(s)) if s == "/o.m4b"
    ));
    assert!(matches!(
        decrypt(FfmpegRun::Success, Err("gone".to_owned()), "/o"),
        Err(Error::Io(s)) if s == "gone"
    ));
    assert!(matches!(
        decrypt(FfmpegRun::NotRun("denied".to_owned()), Ok(Some(1)), "/o"),
        Err(Error::Io(s)) if s == "denied"
    ));
}

#[test]
fn decrypt_error_messages() {
    assert_eq!(
        Error::FfmpegNotOnPath.message(),
        "ffmpeg not found on PATH (`brew install ffmpeg`)"
    );
    assert_eq!(Error::ActivationBytesRejected.message(), "ffmpeg rejected the activation bytes");
    assert_eq!(Error::DecryptFailed("x".to_owned()).message(), "ffmpeg decrypt failed: x");
    assert_eq!(
        Error::OutputEmpty("/o".to_owned()).message(),
        "ffmpeg succeeded but output is empty: /o"
    );
    assert_eq!(Error::Io("y".to_owned()).message(), "ffmpeg I/O error: y");
}

#[test]
fn decrypt_command_line() {
    let bytes = ActivationBytes::parse(" 1A2b3C4d \n").expect("key");
    assert_eq!(bytes.hex, "1a2b3c4d");
    assert_eq!(
        decrypt_args("/in.aax", "/out.m4b", &bytes).join(" "),
        "-hide_banner -loglevel error -y -activation_bytes 1a2b3c4d -i /in.aax -c:a copy -map_metadata 0 -map_chapters 0 /out.m4b"
    );
    assert!(ActivationBytes::parse("1a2b3c4").is_none());
    assert!(ActivationBytes::parse("1a2b3c4g").is_none());
}

#[test]
fn ffmpeg_probe_outcomes() {
    assert!(check_ffmpeg_on_path(FfmpegProbe::Success).is_ok());
    assert!(matches!(
        check_ffmpeg_on_path(FfmpegProbe::NotFound),
        Err(Error::FfmpegNotOnPath)
    ));
    assert!(matches!(
        check_ffmpeg_on_path(FfmpegProbe::Failed),
        Err(Error::DecryptFailed(s)) if s == "ffmpeg -version returned non-zero status"
    ));
    assert!(matches!(
        check_ffmpeg_on_path(FfmpegProbe::NotRun("z".to_owned())),
        Err(Error::Io(_))
    ));
}

#[test]
fn stage_skips_in_order() {
    let stage = AaxDecryptStage;
    assert_eq!(stage.name(), STAGE_NAME);
    assert_eq!(STAGE_NAME, "aax-decrypt");
    assert!(stage.requires_stages().is_empty());
    let mut i = StageInputs {
        m4b_count: 1,
        source_count: 0,
        has_bytes: false,
        ffmpeg_missing: true,
    };
    assert_eq!(stage.skips(&i), Some(SkipReason::AlreadyM4b));
    i.m4b_count = 0;
    assert_eq!(stage.skips(&i), Some(SkipReason::NoSources));
    i.source_count = 2;
    assert_eq!(stage.skips(&i), Some(SkipReason::NoActivationBytes));
    i.has_bytes = true;
    assert_eq!(stage.skips(&i), Some(SkipReason::NoFfmpeg));
    i.ffmpeg_missing = false;
    assert_eq!(stage.skips(&i), None);
    assert_eq!(stage.finish(&vec![false, true]), StageOutcome::Done);
    assert_eq!(stage.finish(&vec![false]), StageOutcome::Skipped);
}

#[test]
fn outputs_stay_under_the_longest_root() {
    let roots = vec!["/lib".to_owned(), "/lib/audible".to_owned(), "/other".to_owned()];
    let p = jailed_input_output("/lib/audible/A Book/part.1.aax", &roots).expect("under");
    assert_eq!(p.input, "/lib/audible/A Book/part.1.aax");
    assert_eq!(p.output, "/lib/audible/A Book/part.1.m4b");
    assert!(jailed_input_output("/library/x.aax", &roots).is_none());
    let q = jailed_input_output("/other/.hidden", &roots).expect("under");
    assert_eq!(q.output, "/other/.hidden.m4b");
}

#[test]
fn one_source_at_a_time() {
    assert_eq!(process_one_source(&Ok(()), Some(7)), SourceOutcome::Insert(Some(7)));
    assert_eq!(process_one_source(&Ok(()), Some(u64::MAX)), SourceOutcome::Insert(None));
    assert_eq!(process_one_source(&Ok(()), None), SourceOutcome::Insert(None));
    assert_eq!(
        process_one_source(&Err(Error::ActivationBytesRejected), Some(7)),
        SourceOutcome::Rejected
    );
    assert_eq!(
        process_one_source(&Err(Error::FfmpegNotOnPath), None),
        SourceOutcome::Failed
    );
}

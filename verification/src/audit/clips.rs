//! Command lines for clip extraction.

use crate::text;
use vstd::prelude::*;

verus! {

/// Length of an overview clip in seconds.
pub const CLIP_DURATION_SECS: u32 = 60;

/// How a trial run of `ffmpeg -version` ended.
#[derive(Debug)]
pub enum FfmpegTrial {
    /// It exited with status 0.
    Success,
    /// It exited with another status, given as text.
    BadStatus(String),
    /// It could not be started, for this reason.
    NotStarted(String),
}

/// The error message for a trial run, where it is one.
pub open spec fn trial_error(trial: FfmpegTrial) -> Option<Seq<char>> {
    match trial {
        FfmpegTrial::Success => None,
        FfmpegTrial::BadStatus(status) => Some(
            "ffmpeg --version returned non-zero status ("@ + status@
                + "). Install via `brew install ffmpeg`."@,
        ),
        FfmpegTrial::NotStarted(reason) => Some(
            "ffmpeg not found ("@ + reason@
                + "). Install via `brew install ffmpeg`. Audit clip extraction requires ffmpeg as a dev-only dep."@,
        ),
    }
}

/// Whether ffmpeg can be used; the error says how to install it.
pub fn ensure_ffmpeg_present(trial: &FfmpegTrial) -> (r: Result<(), String>)
    ensures
        match r {
            Ok(_) => trial_error(*trial) is None,
            Err(e) => trial_error(*trial) == Some(e@),
        },
{
    match trial {
        FfmpegTrial::Success => Ok(()),
        FfmpegTrial::BadStatus(status) => {
            let mut s = text::owned("ffmpeg --version returned non-zero status (");
            s.append(status.as_str());
            s.append("). Install via `brew install ffmpeg`.");
            Err(s)
        },
        FfmpegTrial::NotStarted(reason) => {
            let mut s = text::owned("ffmpeg not found (");
            s.append(reason.as_str());
            s.append(
                "). Install via `brew install ffmpeg`. Audit clip extraction requires ffmpeg as a dev-only dep.",
            );
            Err(s)
        },
    }
}

/// A start offset as seconds with three decimals.
pub open spec fn seconds_text(ms: nat) -> Seq<char> {
    text::decimal(ms / 1000) + "."@ + text::zero_padded(ms % 1000, 3)
}

/// Writes a start offset as seconds with three decimals.
pub fn seconds(ms: u64) -> (s: String)
    ensures
        s@ == seconds_text(ms as nat),
{
    let mut s = text::u64_text(ms / 1000);
    s.append(".");
    s.append(text::zero_pad(ms % 1000, 3).as_str());
    s
}

/// The arguments with which ffmpeg extracts a clip: input-side seek, AAC at
/// 96k, no video.
pub open spec fn clip_args(input: Seq<char>, output: Seq<char>, start_ms: nat, secs: nat) -> Seq<
    Seq<char>,
> {
    seq![
        "-y"@,
        "-loglevel"@,
        "error"@,
        "-ss"@,
        seconds_text(start_ms),
        "-t"@,
        text::decimal(secs),
        "-i"@,
        input,
        "-c:a"@,
        "aac"@,
        "-b:a"@,
        "96k"@,
        "-vn"@,
        output,
    ]
}

/// The arguments with which ffmpeg extracts a clip.
pub fn extract_clip_args(input: &str, output: &str, start_ms: u64, duration_secs: u32) -> (r: Vec<
    String,
>)
    ensures
        text::texts(r@) == clip_args(input@, output@, start_ms as nat, duration_secs as nat),
{
    let mut r: Vec<String> = Vec::new();
    r.push(text::owned("-y"));
    r.push(text::owned("-loglevel"));
    r.push(text::owned("error"));
    r.push(text::owned("-ss"));
    r.push(seconds(start_ms));
    r.push(text::owned("-t"));
    r.push(text::u64_text(duration_secs as u64));
    r.push(text::owned("-i"));
    r.push(text::owned(input));
    r.push(text::owned("-c:a"));
    r.push(text::owned("aac"));
    r.push(text::owned("-b:a"));
    r.push(text::owned("96k"));
    r.push(text::owned("-vn"));
    r.push(text::owned(output));
    proof {
        assert(text::texts(r@) =~= clip_args(
            input@,
            output@,
            start_ms as nat,
            duration_secs as nat,
        ));
    }
    r
}

/// The error message for a failed extraction.
pub fn clip_failure(input: &str, status: &str, stderr: &str) -> (s: String)
    ensures
        s@ == "ffmpeg failed extracting clip from "@ + input@ + ": status="@ + status@
            + ", stderr="@ + text::trimmed(stderr@),
{
    let mut s = text::owned("ffmpeg failed extracting clip from ");
    s.append(input);
    s.append(": status=");
    s.append(status);
    s.append(", stderr=");
    s.append(text::trim(stderr).as_str());
    s
}

// ── Laws ───────────────────────────────────────────────────────────

/// Seconds are written with three decimals: what stands before the point and
/// the three digits behind it give the milliseconds back.
pub proof fn law_seconds_give_the_milliseconds_back(ms: nat) -> (dot: int)
    ensures
        0 < dot,
        seconds_text(ms).len() == dot + 4,
        seconds_text(ms)[dot] == '.',
        text::all_digits(seconds_text(ms).take(dot)),
        text::all_digits(seconds_text(ms).skip(dot + 1)),
        1000 * text::number_read(seconds_text(ms).take(dot)) + text::number_read(
            seconds_text(ms).skip(dot + 1),
        ) == ms,
{
    reveal_strlit(".");
    let (whole, rest) = (text::decimal(ms / 1000), text::zero_padded(ms % 1000, 3));
    text::law_decimal_reads_back(ms / 1000);
    text::law_zero_padded_reads_back(ms % 1000, 3);
    let dot = whole.len() as int;
    assert(seconds_text(ms).take(dot) =~= whole);
    assert(seconds_text(ms).skip(dot + 1) =~= rest);
    dot
}

/// How ffmpeg is told what to extract: it seeks to the start before it opens
/// the input, takes so many seconds, and writes to the output, which comes
/// last. The start and the length, read back, are those asked for.
pub proof fn law_clip_options(input: Seq<char>, output: Seq<char>, start_ms: nat, secs: nat) -> (
    dot: int)
    ensures
        ({
            let args = clip_args(input, output, start_ms, secs);
            &&& args.len() == 15
            &&& args[3] == "-ss"@
            &&& 0 < dot && args[4].len() == dot + 4 && args[4][dot] == '.'
            &&& 1000 * text::number_read(args[4].take(dot)) + text::number_read(
                args[4].skip(dot + 1),
            ) == start_ms
            &&& args[5] == "-t"@
            &&& text::all_digits(args[6]) && text::number_read(args[6]) == secs
            &&& args[7] == "-i"@
            &&& args[8] == input
            &&& args.last() == output
        }),
{
    text::law_decimal_reads_back(secs);
    law_seconds_give_the_milliseconds_back(start_ms)
}

/// The clip is sound only, encoded as AAC at 96k, replaces what stood there,
/// and nothing but errors is logged.
pub proof fn law_clip_format(input: Seq<char>, output: Seq<char>, start_ms: nat, secs: nat)
    ensures
        ({
            let args = clip_args(input, output, start_ms, secs);
            &&& args[0] == "-y"@
            &&& args[1] == "-loglevel"@ && args[2] == "error"@
            &&& args[9] == "-c:a"@ && args[10] == "aac"@
            &&& args[11] == "-b:a"@ && args[12] == "96k"@
            &&& args[13] == "-vn"@
        }),
{
}

/// ffmpeg is taken for present exactly where its trial run succeeded.
pub proof fn law_trial(trial: FfmpegTrial)
    ensures
        trial_error(trial) is None <==> trial is Success,
{
}

/// What is said of a trial run that failed: how it ended, or why it did not
/// start, and how to get ffmpeg.
pub proof fn law_trial_messages(s: String)
    ensures
        trial_error(FfmpegTrial::BadStatus(s)) == Some(
            "ffmpeg --version returned non-zero status ("@ + s@
                + "). Install via `brew install ffmpeg`."@,
        ),
        trial_error(FfmpegTrial::NotStarted(s)) == Some(
            "ffmpeg not found ("@ + s@
                + "). Install via `brew install ffmpeg`. Audit clip extraction requires ffmpeg as a dev-only dep."@,
        ),
{
}

/// An overview clip lasts a minute.
pub proof fn law_overview_length()
    ensures
        CLIP_DURATION_SECS == 60,
{
}

} // verus!

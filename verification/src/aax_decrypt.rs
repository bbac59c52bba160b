//! Unlocking AAX files with ffmpeg: the command line, and what its outcome
//! means.

pub mod stage;

use crate::text;
use vstd::prelude::*;

verus! {

/// Why a file was not unlocked.
#[derive(Debug)]
pub enum Error {
    /// ffmpeg is not installed.
    FfmpegNotOnPath,
    /// ffmpeg rejected the activation bytes.
    ActivationBytesRejected,
    /// ffmpeg failed, with what it wrote.
    DecryptFailed(String),
    /// ffmpeg succeeded, but this output is empty.
    OutputEmpty(String),
    /// ffmpeg could not be run, or its output not be read.
    Io(String),
}

impl Error {
    /// What the error says.
    pub open spec fn says(self) -> Seq<char> {
        match self {
            Error::FfmpegNotOnPath => "ffmpeg not found on PATH (`brew install ffmpeg`)"@,
            Error::ActivationBytesRejected => "ffmpeg rejected the activation bytes"@,
            Error::DecryptFailed(s) => "ffmpeg decrypt failed: "@ + s@,
            Error::OutputEmpty(s) => "ffmpeg succeeded but output is empty: "@ + s@,
            Error::Io(s) => "ffmpeg I/O error: "@ + s@,
        }
    }

    /// What the error says.
    pub fn message(&self) -> (m: String)
        ensures
            m@ == self.says(),
    {
        match self {
            Error::FfmpegNotOnPath => text::owned(
                "ffmpeg not found on PATH (`brew install ffmpeg`)",
            ),
            Error::ActivationBytesRejected => text::owned("ffmpeg rejected the activation bytes"),
            Error::DecryptFailed(s) => {
                let mut m = text::owned("ffmpeg decrypt failed: ");
                m.append(s.as_str());
                m
            },
            Error::OutputEmpty(s) => {
                let mut m = text::owned("ffmpeg succeeded but output is empty: ");
                m.append(s.as_str());
                m
            },
            Error::Io(s) => {
                let mut m = text::owned("ffmpeg I/O error: ");
                m.append(s.as_str());
                m
            },
        }
    }
}

// ── The key ────────────────────────────────────────────────────────

/// Whether a character is a hexadecimal digit.
pub open spec fn hex_digit(c: char) -> bool {
    ('0' <= c && c <= '9') || ('a' <= c && c <= 'f') || ('A' <= c && c <= 'F')
}

/// Whether a text is a key: eight hexadecimal digits.
pub open spec fn key_like(s: Seq<char>) -> bool {
    s.len() == 8 && forall|i: int| 0 <= i < 8 ==> hex_digit(#[trigger] s[i])
}

/// The key of an account: eight lower-case hexadecimal digits.
#[derive(Debug)]
pub struct ActivationBytes {
    /// The digits.
    pub hex: String,
}

fn is_key(v: &Vec<char>) -> (r: bool)
    ensures
        r == key_like(v@),
{
    if v.len() != 8 {
        return false;
    }
    let mut i: usize = 0;
    while i < 8
        invariant
            i <= 8,
            v@.len() == 8,
            forall|j: int| 0 <= j < i ==> hex_digit(#[trigger] v@[j]),
        decreases 8 - i,
    {
        let c = v[i];
        let ok = ('0' <= c && c <= '9') || ('a' <= c && c <= 'f') || ('A' <= c && c <= 'F');
        if !ok {
            proof {
                assert(!hex_digit(v@[i as int]));
            }
            return false;
        }
        i = i + 1;
    }
    true
}

impl ActivationBytes {
    /// Reads a key, in either case and with blanks around it.
    pub fn parse(raw: &str) -> (r: Option<ActivationBytes>)
        ensures
            match r {
                Some(b) => key_like(text::trimmed(raw@)) && b.hex@ == text::ascii_lower(
                    text::trimmed(raw@),
                ),
                None => !key_like(text::trimmed(raw@)),
            },
    {
        let t = text::trim(raw);
        let v = text::chars_of(t.as_str());
        if is_key(&v) {
            Some(ActivationBytes { hex: text::to_ascii_lower(t.as_str()) })
        } else {
            None
        }
    }
}

// ── The command ────────────────────────────────────────────────────

/// The arguments of ffmpeg: the audio is copied as it is, with its tags and
/// chapters.
pub open spec fn args_text(key: Seq<char>, input: Seq<char>, output: Seq<char>) -> Seq<
    Seq<char>,
> {
    seq![
        "-hide_banner"@,
        "-loglevel"@,
        "error"@,
        "-y"@,
        "-activation_bytes"@,
        key,
        "-i"@,
        input,
        "-c:a"@,
        "copy"@,
        "-map_metadata"@,
        "0"@,
        "-map_chapters"@,
        "0"@,
        output,
    ]
}

/// The arguments of ffmpeg.
pub fn decrypt_args(input: &str, output: &str, bytes: &ActivationBytes) -> (v: Vec<String>)
    ensures
        text::texts(v@) == args_text(bytes.hex@, input@, output@),
{
    let mut v: Vec<String> = Vec::new();
    v.push(text::owned("-hide_banner"));
    v.push(text::owned("-loglevel"));
    v.push(text::owned("error"));
    v.push(text::owned("-y"));
    v.push(text::owned("-activation_bytes"));
    v.push(text::owned(bytes.hex.as_str()));
    v.push(text::owned("-i"));
    v.push(text::owned(input));
    v.push(text::owned("-c:a"));
    v.push(text::owned("copy"));
    v.push(text::owned("-map_metadata"));
    v.push(text::owned("0"));
    v.push(text::owned("-map_chapters"));
    v.push(text::owned("0"));
    v.push(text::owned(output));
    proof {
        assert(text::texts(v@) =~= args_text(bytes.hex@, input@, output@));
    }
    v
}

// ── The outcome ────────────────────────────────────────────────────

/// What the error output of ffmpeg means.
#[derive(Debug, Clone, Copy, PartialEq, Eq, Structural)]
pub enum StderrClass {
    /// The activation bytes are wrong.
    ActivationBytesRejected,
    /// Anything else.
    Generic,
}

/// Whether the error output says that the activation bytes are wrong.
pub open spec fn rejects_key(stderr: Seq<char>) -> bool {
    text::holds_text(stderr, "Invalid activation bytes"@) || text::holds_text(
        stderr,
        "invalid activation bytes"@,
    ) || text::holds_text(stderr, "activation_bytes is invalid"@)
}

/// What the error output of ffmpeg means.
pub fn classify_stderr(stderr: &str) -> (c: StderrClass)
    ensures
        c == (if rejects_key(stderr@) {
            StderrClass::ActivationBytesRejected
        } else {
            StderrClass::Generic
        }),
{
    if text::contains_text(stderr, "Invalid activation bytes") || text::contains_text(
        stderr,
        "invalid activation bytes",
    ) || text::contains_text(stderr, "activation_bytes is invalid") {
        StderrClass::ActivationBytesRejected
    } else {
        StderrClass::Generic
    }
}

/// How a run of ffmpeg ended.
#[derive(Debug)]
pub enum FfmpegRun {
    /// It is not installed.
    NotFound,
    /// It could not be run, and why.
    NotRun(String),
    /// It failed, with its error output.
    Failed(String),
    /// It succeeded.
    Success,
}

/// Why a run did not unlock the file, as far as the run shows it.
pub open spec fn run_error(run: FfmpegRun) -> Option<Error> {
    match run {
        FfmpegRun::NotFound => Some(Error::FfmpegNotOnPath),
        FfmpegRun::NotRun(why) => Some(Error::Io(why)),
        FfmpegRun::Failed(stderr) => if rejects_key(stderr@) {
            Some(Error::ActivationBytesRejected)
        } else {
            Some(Error::DecryptFailed(stderr))
        },
        FfmpegRun::Success => None,
    }
}

/// Fails where the run did. Only after success is the output looked at.
pub fn check_run(run: FfmpegRun) -> (r: Result<(), Error>)
    ensures
        match r {
            Ok(()) => run_error(run) is None,
            Err(e) => run_error(run) == Some(e),
        },
{
    match run {
        FfmpegRun::NotFound => Err(Error::FfmpegNotOnPath),
        FfmpegRun::NotRun(why) => Err(Error::Io(why)),
        FfmpegRun::Failed(stderr) => match classify_stderr(stderr.as_str()) {
            StderrClass::ActivationBytesRejected => Err(Error::ActivationBytesRejected),
            StderrClass::Generic => Err(Error::DecryptFailed(stderr)),
        },
        FfmpegRun::Success => Ok(()),
    }
}

/// What is wrong with the output of a run that succeeded: it is missing or
/// empty, or nothing could be learned of it. The size is none where there is
/// no file.
pub open spec fn output_wrong(size: Result<Option<u64>, String>) -> Option<OutputFault> {
    match size {
        Err(why) => Some(OutputFault::Unreadable(why@)),
        Ok(Some(n)) => if n == 0 {
            Some(OutputFault::Empty)
        } else {
            None
        },
        Ok(None) => Some(OutputFault::Empty),
    }
}

/// What can be wrong with an output.
pub enum OutputFault {
    /// It is missing or has no bytes.
    Empty,
    /// Its size could not be read, and why.
    Unreadable(Seq<char>),
}

/// Fails where the output is missing or empty, or cannot be read.
pub fn check_output(size: Result<Option<u64>, String>, output: &str) -> (r: Result<(), Error>)
    ensures
        match output_wrong(size) {
            Some(OutputFault::Empty) => r matches Err(Error::OutputEmpty(o)) && o@ == output@,
            Some(OutputFault::Unreadable(why)) => r matches Err(Error::Io(w)) && w@ == why,
            None => r is Ok,
        },
{
    match size {
        Err(why) => Err(Error::Io(why)),
        Ok(Some(n)) => if n == 0 {
            Err(Error::OutputEmpty(text::owned(output)))
        } else {
            Ok(())
        },
        Ok(None) => Err(Error::OutputEmpty(text::owned(output))),
    }
}

/// The outcome of unlocking a file, from how ffmpeg ended and the size of its
/// output.
pub fn decrypt(run: FfmpegRun, size: Result<Option<u64>, String>, output: &str) -> (r: Result<
    (),
    Error,
>)
    ensures
        match run_error(run) {
            Some(e) => r == Err::<(), Error>(e),
            None => match output_wrong(size) {
                Some(OutputFault::Empty) => r matches Err(Error::OutputEmpty(o)) && o@ == output@,
                Some(OutputFault::Unreadable(why)) => r matches Err(Error::Io(w)) && w@ == why,
                None => r is Ok,
            },
        },
{
    match check_run(run) {
        Ok(()) => check_output(size, output),
        Err(e) => Err(e),
    }
}

/// How a trial run of ffmpeg ended.
#[derive(Debug)]
pub enum FfmpegProbe {
    /// It succeeded.
    Success,
    /// It failed.
    Failed,
    /// It is not installed.
    NotFound,
    /// It could not be run, and why.
    NotRun(String),
}

/// Whether ffmpeg can be used, from a trial run.
pub fn check_ffmpeg_on_path(probe: FfmpegProbe) -> (r: Result<(), Error>)
    ensures
        match probe {
            FfmpegProbe::Success => r is Ok,
            FfmpegProbe::Failed => r matches Err(Error::DecryptFailed(s)) && s@
                == "ffmpeg -version returned non-zero status"@,
            FfmpegProbe::NotFound => r == Err::<(), Error>(Error::FfmpegNotOnPath),
            FfmpegProbe::NotRun(why) => r == Err::<(), Error>(Error::Io(why)),
        },
{
    match probe {
        FfmpegProbe::Success => Ok(()),
        FfmpegProbe::Failed => Err(
            Error::DecryptFailed(text::owned("ffmpeg -version returned non-zero status")),
        ),
        FfmpegProbe::NotFound => Err(Error::FfmpegNotOnPath),
        FfmpegProbe::NotRun(why) => Err(Error::Io(why)),
    }
}

// ── Laws ───────────────────────────────────────────────────────────
/// A digit of a key is one of sixteen, in either case.
pub proof fn law_key_digits(c: char)
    ensures
        hex_digit(c) <==> {
            ||| 0x30 <= c as int <= 0x39
            ||| 0x41 <= c as int <= 0x46
            ||| 0x61 <= c as int <= 0x66
        },
{
}

/// A key has eight digits: a text of another length is none, nor is one with
/// any other sign in it, and every other text is one.
pub proof fn law_keys(s: Seq<char>, i: int)
    ensures
        key_like(s) ==> s.len() == 8,
        key_like(s) && 0 <= i < 8 ==> hex_digit(s[i]),
        s.len() == 8 && !key_like(s) ==> exists|k: int| 0 <= k < 8 && !hex_digit(#[trigger] s[k]),
{
}

/// The key stands before the input, which it unlocks; the output comes last.
/// Each stands behind its option.
pub proof fn law_decrypt_args(key: Seq<char>, input: Seq<char>, output: Seq<char>)
    ensures
        ({
            let args = args_text(key, input, output);
            let at = |option: Seq<char>, value: Seq<char>, i: int|
                args[i] == option && args[i + 1] == value;
            &&& args.len() == 15
            &&& args[0] == "-hide_banner"@
            &&& at("-loglevel"@, "error"@, 1)
            &&& args[3] == "-y"@
            &&& at("-activation_bytes"@, key, 4)
            &&& at("-i"@, input, 6)
            &&& at("-c:a"@, "copy"@, 8)
            &&& at("-map_metadata"@, "0"@, 10)
            &&& at("-map_chapters"@, "0"@, 12)
            &&& args.last() == output
        }),
{
}

/// The key was rejected exactly where the error output holds one of the three
/// phrases that say so, wherever it stands.
pub proof fn law_rejections(before: Seq<char>, after: Seq<char>, stderr: Seq<char>)
    ensures
        rejects_key(before + "Invalid activation bytes"@ + after),
        rejects_key(before + "invalid activation bytes"@ + after),
        rejects_key(before + "activation_bytes is invalid"@ + after),
        rejects_key(stderr) ==> text::holds_text(stderr, "Invalid activation bytes"@)
            || text::holds_text(stderr, "invalid activation bytes"@) || text::holds_text(
            stderr,
            "activation_bytes is invalid"@,
        ),
{
    lemma_held(before, "Invalid activation bytes"@, after);
    lemma_held(before, "invalid activation bytes"@, after);
    lemma_held(before, "activation_bytes is invalid"@, after);
}

proof fn lemma_held(before: Seq<char>, phrase: Seq<char>, after: Seq<char>)
    ensures
        text::holds_text(before + phrase + after, phrase),
{
    let s = before + phrase + after;
    assert(s.subrange(before.len() as int, before.len() as int + phrase.len()) =~= phrase);
    assert(text::stands_at(s, phrase, before.len() as int));
}

/// Every run but a successful one is an error, and each its own. A failed run
/// is either a rejected key or a failure that keeps what was written.
pub proof fn law_run_outcomes(why: String)
    ensures
        run_error(FfmpegRun::Success) is None,
        run_error(FfmpegRun::NotFound) == Some(Error::FfmpegNotOnPath),
        run_error(FfmpegRun::NotRun(why)) == Some(Error::Io(why)),
        rejects_key(why@) ==> run_error(FfmpegRun::Failed(why)) == Some(
            Error::ActivationBytesRejected,
        ),
        !rejects_key(why@) ==> run_error(FfmpegRun::Failed(why)) == Some(Error::DecryptFailed(why)),
{
}

/// An output is in order exactly where it has a byte.
pub proof fn law_output_has_bytes(n: u64, why: String)
    ensures
        output_wrong(Ok(Some(n))) is None <==> n >= 1,
        output_wrong(Ok(Some(0))) == Some(OutputFault::Empty),
        output_wrong(Ok(None)) == Some(OutputFault::Empty),
        output_wrong(Err(why)) == Some(OutputFault::Unreadable(why@)),
{
}

/// What an error says names what went wrong and ends with what is known of it.
pub proof fn law_error_texts(s: String)
    ensures
        Error::FfmpegNotOnPath.says() == "ffmpeg not found on PATH (`brew install ffmpeg`)"@,
        Error::ActivationBytesRejected.says() == "ffmpeg rejected the activation bytes"@,
        Error::DecryptFailed(s).says() == "ffmpeg decrypt failed: "@ + s@,
        Error::OutputEmpty(s).says() == "ffmpeg succeeded but output is empty: "@ + s@,
        Error::Io(s).says() == "ffmpeg I/O error: "@ + s@,
{
}

} // verus!

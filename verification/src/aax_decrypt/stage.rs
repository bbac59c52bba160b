//! The pipeline stage that unlocks the AAX files of a book: when it runs,
//! which root a file is confined to, and where its output goes.

use super::Error;
use crate::paths;
use crate::text;
use vstd::prelude::*;

verus! {

/// Name of the stage.
pub const STAGE_NAME: &'static str = "aax-decrypt";

/// What a stage ended with.
#[derive(Debug, Clone, Copy, PartialEq, Eq, Structural)]
pub enum StageOutcome {
    /// It did its work.
    Done,
    /// There was nothing it could do.
    Skipped,
}

/// Why the stage does not run.
#[derive(Debug, Clone, Copy, PartialEq, Eq, Structural)]
pub enum SkipReason {
    /// The book has an m4b file already.
    AlreadyM4b,
    /// The book has no AAX files.
    NoSources,
    /// No activation bytes are configured.
    NoActivationBytes,
    /// ffmpeg is not installed.
    NoFfmpeg,
}

/// What the stage knows of a book before it runs.
#[derive(Debug)]
pub struct StageInputs {
    /// Number of active m4b files.
    pub m4b_count: i64,
    /// Number of active AAX files.
    pub source_count: usize,
    /// Whether activation bytes are configured.
    pub has_bytes: bool,
    /// Whether a trial run found no ffmpeg.
    pub ffmpeg_missing: bool,
}

/// Why the stage does not run for a book.
pub open spec fn skip_reason(i: StageInputs) -> Option<SkipReason> {
    if i.m4b_count > 0 {
        Some(SkipReason::AlreadyM4b)
    } else if i.source_count == 0 {
        Some(SkipReason::NoSources)
    } else if !i.has_bytes {
        Some(SkipReason::NoActivationBytes)
    } else if i.ffmpeg_missing {
        Some(SkipReason::NoFfmpeg)
    } else {
        None
    }
}

/// The stage.
#[derive(Debug, Clone, Copy)]
pub struct AaxDecryptStage;

impl AaxDecryptStage {
    /// Name of the stage.
    pub fn name(&self) -> (s: &'static str)
        ensures
            s@ == STAGE_NAME@,
    {
        STAGE_NAME
    }

    /// The stages that must have run before: none.
    pub fn requires_stages(&self) -> (v: Vec<&'static str>)
        ensures
            v@.len() == 0,
    {
        Vec::new()
    }

    /// Whether the stage runs for a book, and why not.
    pub fn skips(&self, inputs: &StageInputs) -> (r: Option<SkipReason>)
        ensures
            r == skip_reason(*inputs),
    {
        if inputs.m4b_count > 0 {
            Some(SkipReason::AlreadyM4b)
        } else if inputs.source_count == 0 {
            Some(SkipReason::NoSources)
        } else if !inputs.has_bytes {
            Some(SkipReason::NoActivationBytes)
        } else if inputs.ffmpeg_missing {
            Some(SkipReason::NoFfmpeg)
        } else {
            None
        }
    }

    /// What the stage ends with: it did its work where any file was unlocked.
    pub fn finish(&self, unlocked: &Vec<bool>) -> (r: StageOutcome)
        ensures
            r == (if unlocked@.contains(true) {
                StageOutcome::Done
            } else {
                StageOutcome::Skipped
            }),
    {
        let mut i: usize = 0;
        while i < unlocked.len()
            invariant
                i <= unlocked@.len(),
                forall|j: int| 0 <= j < i ==> !#[trigger] unlocked@[j],
            decreases unlocked@.len() - i,
        {
            if unlocked[i] {
                proof {
                    assert(unlocked@[i as int] == true);
                }
                return StageOutcome::Done;
            }
            i = i + 1;
        }
        StageOutcome::Skipped
    }
}

// ── Confinement ────────────────────────────────────────────────────

/// The root that a file is confined to, among the first `n`: the longest one
/// that it lies under, and the last of those that are equally long.
pub open spec fn root_among(canonical: Seq<char>, roots: Seq<String>, n: int) -> Option<int>
    decreases n,
{
    if n <= 0 {
        None
    } else {
        let before = root_among(canonical, roots, n - 1);
        if paths::lies_under(canonical, roots[n - 1]@) && (before matches Some(k) ==> text::byte_len(
            roots[n - 1]@,
        ) >= text::byte_len(roots[k]@)) {
            Some(n - 1)
        } else {
            before
        }
    }
}

fn pick_root(canonical: &str, roots: &Vec<String>) -> (r: Option<usize>)
    ensures
        match r {
            Some(i) => i < roots@.len() && root_among(canonical@, roots@, roots@.len() as int)
                == Some(i as int),
            None => root_among(canonical@, roots@, roots@.len() as int) is None,
        },
{
    let mut best: Option<usize> = None;
    let mut i: usize = 0;
    while i < roots.len()
        invariant
            i <= roots@.len(),
            match best {
                Some(k) => k < i && root_among(canonical@, roots@, i as int) == Some(k as int),
                None => root_among(canonical@, roots@, i as int) is None,
            },
        decreases roots@.len() - i,
    {
        if paths::is_under(canonical, roots[i].as_str()) {
            match best {
                Some(k) => {
                    if roots[i].as_str().len() >= roots[k].as_str().len() {
                        best = Some(i);
                    }
                },
                None => {
                    best = Some(i);
                },
            }
        }
        i = i + 1;
    }
    best
}

/// The parts of the output of a file under a root: those of the file, with
/// the extension `m4b`. A path without a file name stays as it is.
pub open spec fn output_parts(canonical: Seq<char>, root: Seq<char>) -> Seq<Seq<char>> {
    let parts = paths::parts_of(canonical);
    if parts.len() <= paths::parts_of(root).len() || parts.last() == ".."@ {
        parts
    } else {
        parts.drop_last().push(paths::name_stem(parts.last()) + ".m4b"@)
    }
}

/// A file to unlock and its output.
#[derive(Debug)]
pub struct JailedPaths {
    /// The file.
    pub input: String,
    /// The output.
    pub output: String,
}

/// Where the output of a file goes. None is given for a file under no root.
/// The file and the roots are canonical absolute paths.
pub fn jailed_input_output(canonical: &str, roots: &Vec<String>) -> (r: Option<JailedPaths>)
    ensures
        match (r, root_among(canonical@, roots@, roots@.len() as int)) {
            (Some(p), Some(k)) => {
                &&& p.input@ == canonical@
                &&& p.output@ == paths::path_text(output_parts(canonical@, roots@[k]@))
            },
            (None, None) => true,
            _ => false,
        },
{
    let k = match pick_root(canonical, roots) {
        Some(k) => k,
        None => {
            return None;
        },
    };
    let mut parts = paths::path_parts(canonical);
    let above: usize = paths::path_parts(roots[k].as_str()).len();
    let n: usize = parts.len();
    proof {
        assert(n == paths::parts_of(canonical@).len());
        assert(above == paths::parts_of(roots@[k as int]@).len());
        assert(n > 0 ==> parts@[n - 1]@ == paths::parts_of(canonical@).last());
    }
    if n > above && !text::same_text(parts[n - 1].as_str(), "..") {
        let mut name = paths::stem_of_name(parts[n - 1].as_str());
        name.append(".m4b");
        let ghost before = text::texts(parts@);
        let ghost new_name = name@;
        parts.pop();
        parts.push(name);
        proof {
            assert(text::texts(parts@) =~= before.drop_last().push(new_name));
        }
    }
    Some(JailedPaths { input: text::owned(canonical), output: paths::write_path(&parts) })
}

// ── One file ───────────────────────────────────────────────────────

/// What follows an attempt to unlock a file.
#[derive(Debug, Clone, Copy, PartialEq, Eq, Structural)]
pub enum SourceOutcome {
    /// The activation bytes were rejected; the file is left.
    Rejected,
    /// Something else failed; the file is left.
    Failed,
    /// The output becomes a file of the book, of this size where it is known.
    Insert(Option<i64>),
}

/// What follows an attempt to unlock a file. Failures concern the one file
/// only.
pub fn process_one_source(result: &Result<(), Error>, size: Option<u64>) -> (r: SourceOutcome)
    ensures
        r == (match *result {
            Err(Error::ActivationBytesRejected) => SourceOutcome::Rejected,
            Err(_) => SourceOutcome::Failed,
            Ok(()) => SourceOutcome::Insert(
                match size {
                    Some(n) if n <= i64::MAX => Some(n as i64),
                    _ => None,
                },
            ),
        }),
{
    match result {
        Err(Error::ActivationBytesRejected) => SourceOutcome::Rejected,
        Err(_) => SourceOutcome::Failed,
        Ok(()) => SourceOutcome::Insert(
            match size {
                Some(n) => if n <= i64::MAX as u64 {
                    Some(n as i64)
                } else {
                    None
                },
                None => None,
            },
        ),
    }
}

// ── Laws ───────────────────────────────────────────────────────────

/// A book that has an m4b file is left alone, so that running the stage again
/// changes nothing.
pub proof fn law_stage_idempotent(i: StageInputs)
    requires
        i.m4b_count > 0,
    ensures
        skip_reason(i) == Some(SkipReason::AlreadyM4b),
{
}

/// The chosen root is one that the file lies under, and no longer one is.
pub proof fn law_root_is_longest(canonical: Seq<char>, roots: Seq<String>, n: int, j: int)
    requires
        0 <= j < n <= roots.len(),
        paths::lies_under(canonical, roots[j]@),
    ensures
        root_among(canonical, roots, n) matches Some(k) && 0 <= k < n && paths::lies_under(
            canonical,
            roots[k]@,
        ) && text::byte_len(roots[j]@) <= text::byte_len(roots[k]@),
    decreases n,
{
    if j < n - 1 {
        law_root_is_longest(canonical, roots, n - 1, j);
    } else {
        lemma_root_among(canonical, roots, n - 1);
    }
}

proof fn lemma_root_among(canonical: Seq<char>, roots: Seq<String>, n: int)
    requires
        0 <= n <= roots.len(),
    ensures
        root_among(canonical, roots, n) matches Some(k) ==> 0 <= k < n && paths::lies_under(
            canonical,
            roots[k]@,
        ),
    decreases n,
{
    if n > 0 {
        lemma_root_among(canonical, roots, n - 1);
    }
}

/// The output of a file lies under the same root as the file.
pub proof fn law_output_jailed(canonical: Seq<char>, root: Seq<char>)
    requires
        paths::absolute(canonical),
        paths::lies_under(canonical, root),
        paths::parts_of(canonical).len() > 0,
    ensures
        paths::parts_of(paths::path_text(output_parts(canonical, root))) == output_parts(
            canonical,
            root,
        ),
        paths::lies_under(paths::path_text(output_parts(canonical, root)), root),
{
    let parts = paths::parts_of(canonical);
    let above = paths::parts_of(root);
    let out = output_parts(canonical, root);
    assert forall|i: int| 0 <= i < out.len() implies paths::part_like(#[trigger] out[i]) by {
        if i < parts.len() - 1 || out == parts {
            paths::law_parts_are_names(canonical, i);
            assert(out[i] == parts[i]);
        } else {
            paths::law_parts_are_names(canonical, i);
            lemma_renamed(parts.last());
        }
    }
    paths::law_path_round_trip(out);
    assert(out.take(above.len() as int) =~= parts.take(above.len() as int));
}

proof fn lemma_renamed(name: Seq<char>)
    requires
        paths::part_like(name),
    ensures
        paths::part_like(paths::name_stem(name) + ".m4b"@),
{
    reveal_strlit(".m4b");
    reveal_strlit(".");
    let stem = paths::name_stem(name);
    lemma_last_dot(name);
    let new = stem + ".m4b"@;
    assert(new.len() >= 4);
    assert("."@.len() == 1);
    if new.contains('/') {
        let k = choose|k: int| 0 <= k < new.len() && new[k] == '/';
        if k < stem.len() {
            assert(name[k] == '/');
        } else {
            assert(new[k] == ".m4b"@[k - stem.len()]);
        }
    }
}

proof fn lemma_last_dot(name: Seq<char>)
    ensures
        -1 <= paths::last_dot(name) < name.len(),
    decreases name.len(),
{
    if name.len() > 0 {
        lemma_last_dot(name.drop_last());
    }
}

/// The stage runs exactly for a book without an m4b file that has a source,
/// where there is a key and ffmpeg is there. Each thing missing is the reason
/// where those before it are in order.
pub proof fn law_when_the_stage_runs(i: StageInputs)
    ensures
        skip_reason(i) is None <==> i.m4b_count <= 0 && i.source_count > 0 && i.has_bytes
            && !i.ffmpeg_missing,
        i.m4b_count <= 0 && i.source_count == 0 ==> skip_reason(i) == Some(SkipReason::NoSources),
        i.m4b_count <= 0 && i.source_count > 0 && !i.has_bytes ==> skip_reason(i) == Some(
            SkipReason::NoActivationBytes,
        ),
        i.m4b_count <= 0 && i.source_count > 0 && i.has_bytes && i.ffmpeg_missing ==> skip_reason(i)
            == Some(SkipReason::NoFfmpeg),
{
}

/// A file under no root has none, and the chosen root is one of those given
/// that the file lies under. Of equally long ones it is the last.
pub proof fn law_root_is_among_those_given(canonical: Seq<char>, roots: Seq<String>, n: int, j: int)
    requires
        0 <= j < n <= roots.len(),
    ensures
        root_among(canonical, roots, n) is Some ==> 0 <= root_among(canonical, roots, n)->0 < n
            && paths::lies_under(canonical, roots[root_among(canonical, roots, n)->0]@),
        root_among(canonical, roots, n) is None ==> !paths::lies_under(canonical, roots[j]@),
        root_among(canonical, roots, n) is Some && root_among(canonical, roots, n)->0 < j
            && paths::lies_under(canonical, roots[j]@) ==> text::byte_len(roots[j]@)
            < text::byte_len(roots[root_among(canonical, roots, n)->0]@),
    decreases n,
{
    lemma_root_among(canonical, roots, n);
    if paths::lies_under(canonical, roots[j]@) {
        law_root_is_longest(canonical, roots, n, j);
    }
    if j < n - 1 {
        law_root_is_among_those_given(canonical, roots, n - 1, j);
        lemma_root_among(canonical, roots, n - 1);
    } else if n > 1 {
        lemma_root_among(canonical, roots, n - 1);
    }
}

/// The output stands beside its file and has its name, with the extension
/// `m4b` in place of the one it had.
pub proof fn law_output_beside_file(canonical: Seq<char>, root: Seq<char>)
    requires
        paths::parts_of(canonical).len() > paths::parts_of(root).len(),
        paths::parts_of(canonical).last() != ".."@,
    ensures
        output_parts(canonical, root).len() == paths::parts_of(canonical).len(),
        output_parts(canonical, root).drop_last() == paths::parts_of(canonical).drop_last(),
        output_parts(canonical, root).last() == paths::name_stem(paths::parts_of(canonical).last())
            + ".m4b"@,
{
    assert(output_parts(canonical, root).drop_last() =~= paths::parts_of(canonical).drop_last());
}

/// The stage is known by this name.
pub proof fn law_stage_name()
    ensures
        STAGE_NAME@ == "aax-decrypt"@,
{
}

} // verus!

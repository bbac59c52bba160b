//! Corpus files: which ones are audio, what their tags say, and slugs.

use crate::audit::seed;
use crate::ordering;
use crate::paths;
use crate::slug;
use crate::text;
use vstd::prelude::*;

verus! {

/// Whether `ext` is an extension that the audit walks. AAX is among them so
/// that files which still need decryption are seen.
pub open spec fn audio_ext(ext: Seq<char>) -> bool {
    ||| ext == "m4b"@
    ||| ext == "m4a"@
    ||| ext == "mp3"@
    ||| ext == "aac"@
    ||| ext == "flac"@
    ||| ext == "ogg"@
    ||| ext == "opus"@
    ||| ext == "wav"@
    ||| ext == "aax"@
}

/// Whether `ext`, lower-cased, is an extension that the audit walks.
pub fn is_audio_extension(ext: &str) -> (r: bool)
    ensures
        r == audio_ext(ext@),
{
    text::same_text(ext, "m4b") || text::same_text(ext, "m4a") || text::same_text(ext, "mp3")
        || text::same_text(ext, "aac") || text::same_text(ext, "flac") || text::same_text(
        ext,
        "ogg",
    ) || text::same_text(ext, "opus") || text::same_text(ext, "wav") || text::same_text(ext, "aax")
}

/// One audio file of the corpus.
#[derive(Debug, Clone)]
pub struct SourceFile {
    /// Path on disk.
    pub path: String,
    /// Lower-case extension, without the dot.
    pub extension: String,
    /// Title tag, or the file stem where there is none.
    pub title: String,
    /// Total duration; 0 where the file's properties could not be read.
    pub duration_ms: u64,
    /// Publisher tag.
    pub publisher: Option<String>,
    /// Copyright tag.
    pub copyright: Option<String>,
}

/// What a tag reader reports of a file.
#[derive(Debug)]
pub struct ProbedTags {
    /// Title tag.
    pub title: Option<String>,
    /// Publisher tag.
    pub publisher: Option<String>,
    /// Copyright tag.
    pub copyright: Option<String>,
    /// Duration in milliseconds.
    pub duration_ms: u128,
}

/// A corpus file in terms of its texts.
pub struct SourceView {
    /// Path.
    pub path: Seq<char>,
    /// Extension.
    pub extension: Seq<char>,
    /// Title.
    pub title: Seq<char>,
    /// Duration.
    pub duration_ms: u64,
    /// Publisher.
    pub publisher: Option<Seq<char>>,
    /// Copyright.
    pub copyright: Option<Seq<char>>,
}

impl View for SourceFile {
    type V = SourceView;

    open spec fn view(&self) -> SourceView {
        SourceView {
            path: self.path@,
            extension: self.extension@,
            title: self.title@,
            duration_ms: self.duration_ms,
            publisher: text::opt_text(self.publisher),
            copyright: text::opt_text(self.copyright),
        }
    }
}

/// The title of a file without a title tag.
pub open spec fn fallback_title(path: Seq<char>) -> Seq<char> {
    match paths::stem_of(path) {
        Some(s) => s,
        None => "(untitled)"@,
    }
}

/// The corpus file that a probe of `path` gives. AAX files are not probed.
pub open spec fn probed_file(
    path: Seq<char>,
    extension: Seq<char>,
    tags: Option<ProbedTags>,
) -> SourceView {
    let bare = SourceView {
        path,
        extension,
        title: fallback_title(path),
        duration_ms: 0,
        publisher: None,
        copyright: None,
    };
    match tags {
        Some(t) if extension != "aax"@ => SourceView {
            path,
            extension,
            title: match seed::nonempty_text(text::opt_text(t.title)) {
                Some(title) => title,
                None => fallback_title(path),
            },
            duration_ms: if t.duration_ms <= u64::MAX {
                t.duration_ms as u64
            } else {
                u64::MAX
            },
            publisher: seed::nonempty_text(text::opt_text(t.publisher)),
            copyright: seed::nonempty_text(text::opt_text(t.copyright)),
        },
        _ => bare,
    }
}

impl SourceFile {
    /// The lower-cased extension of `path`, where the audit walks it.
    pub fn is_audio(path: &str) -> (r: Option<String>)
        ensures
            match paths::extension_of(path@) {
                Some(e) => text::opt_text(r) == (if audio_ext(text::lowercased(e)) {
                    Some(text::lowercased(e))
                } else {
                    None
                }),
                None => r is None,
            },
    {
        match paths::extension(path) {
            Some(e) => {
                let ext = text::to_lowercase(e.as_str());
                if is_audio_extension(ext.as_str()) {
                    Some(ext)
                } else {
                    None
                }
            },
            None => None,
        }
    }

    /// The corpus file for what a tag reader reported of `path`; `None` is a
    /// file that could not be read.
    pub fn probe(path: &str, extension: &str, tags: Option<ProbedTags>) -> (r: SourceFile)
        ensures
            r@ == probed_file(path@, extension@, tags),
    {
        let title_fallback = match paths::stem(path) {
            Some(s) => s,
            None => text::owned("(untitled)"),
        };
        let is_aax = text::same_text(extension, "aax");
        match tags {
            Some(t) => if !is_aax {
                let title = match seed::non_empty(text::opt_as_str(&t.title)) {
                    Some(title) => title,
                    None => title_fallback,
                };
                let duration_ms: u64 = if t.duration_ms <= u64::MAX as u128 {
                    t.duration_ms as u64
                } else {
                    u64::MAX
                };
                SourceFile {
                    path: text::owned(path),
                    extension: text::owned(extension),
                    title,
                    duration_ms,
                    publisher: seed::non_empty(text::opt_as_str(&t.publisher)),
                    copyright: seed::non_empty(text::opt_as_str(&t.copyright)),
                }
            } else {
                SourceFile {
                    path: text::owned(path),
                    extension: text::owned(extension),
                    title: title_fallback,
                    duration_ms: 0,
                    publisher: None,
                    copyright: None,
                }
            },
            None => SourceFile {
                path: text::owned(path),
                extension: text::owned(extension),
                title: title_fallback,
                duration_ms: 0,
                publisher: None,
                copyright: None,
            },
        }
    }
}

/// Whether the walk enters a directory of this name: hidden ones and
/// `__MACOSX` are skipped.
pub open spec fn walked_dir(name: Seq<char>) -> bool {
    !(text::begins_with(name, "."@) || name == "__MACOSX"@)
}

/// Whether the walk enters a directory of this name.
pub fn enters_directory(name: &str) -> (r: bool)
    ensures
        r == walked_dir(name@),
{
    let hidden = match text::strip_prefix(name, ".") {
        Some(_) => true,
        None => false,
    };
    !(hidden || text::same_text(name, "__MACOSX"))
}

/// Whether a walk that has found `found` files is over. This is asked before
/// a file is taken.
pub fn limit_reached(found: usize, limit: Option<usize>) -> (r: bool)
    ensures
        r == walk_over(found as nat, limit),
{
    match limit {
        Some(n) => found >= n,
        None => false,
    }
}

/// Whether the audit walks the file at `path`.
pub open spec fn walked_file(path: Seq<char>) -> bool {
    match paths::extension_of(path) {
        Some(e) => audio_ext(text::lowercased(e)),
        None => false,
    }
}

/// Whether a walk with `found` files is over: `limit` is the most that it
/// keeps.
pub open spec fn walk_over(found: nat, limit: Option<usize>) -> bool {
    limit matches Some(n) && found >= n
}

/// The files, among the first `n` that the walk meets, that it keeps.
pub open spec fn kept_files(files: Seq<String>, limit: Option<usize>, n: nat) -> Seq<usize>
    decreases n,
{
    if n == 0 {
        Seq::empty()
    } else {
        let rest = kept_files(files, limit, (n - 1) as nat);
        if walk_over(rest.len(), limit) || !walked_file(files[n - 1]@) {
            rest
        } else {
            rest.push((n - 1) as usize)
        }
    }
}

/// The audio files among `files`, in the order in which the walk meets them,
/// up to `limit`.
pub fn select_corpus(files: &Vec<String>, limit: Option<usize>) -> (r: Vec<usize>)
    ensures
        r@ == kept_files(files@, limit, files@.len()),
{
    let mut r: Vec<usize> = Vec::new();
    let mut i: usize = 0;
    while i < files.len()
        invariant
            i <= files@.len(),
            r@ == kept_files(files@, limit, i as nat),
        decreases files@.len() - i,
    {
        if !limit_reached(r.len(), limit) {
            if let Some(_) = SourceFile::is_audio(files[i].as_str()) {
                r.push(i);
            }
        }
        i = i + 1;
    }
    r
}

/// The number of files, among the first `n`, that the audit walks.
pub open spec fn audio_count(files: Seq<String>, n: nat) -> nat
    decreases n,
{
    if n == 0 {
        0
    } else {
        audio_count(files, (n - 1) as nat) + if walked_file(files[n - 1]@) {
            1nat
        } else {
            0nat
        }
    }
}

/// The limit is a cap: as many files are kept as there are audio files, but
/// no more than the limit. Only audio files are kept, each once and in order.
pub proof fn law_limit_is_a_cap(files: Seq<String>, limit: Option<usize>, n: nat)
    requires
        n <= files.len() <= usize::MAX,
    ensures
        kept_files(files, limit, n).len() == (match limit {
            Some(m) if m < audio_count(files, n) => m as nat,
            _ => audio_count(files, n),
        }),
        forall|i: int|
            0 <= i < kept_files(files, limit, n).len() ==> {
                let k = #[trigger] kept_files(files, limit, n)[i];
                k < n && walked_file(files[k as int]@)
            },
        forall|i: int, j: int|
            0 <= i < j < kept_files(files, limit, n).len() ==> #[trigger] kept_files(
                files,
                limit,
                n,
            )[i] < #[trigger] kept_files(files, limit, n)[j],
    decreases n,
{
    if n > 0 {
        law_limit_is_a_cap(files, limit, (n - 1) as nat);
    }
}

/// The sort keys of corpus files: their paths, part by part.
pub open spec fn path_keys(files: Seq<SourceFile>) -> Seq<ordering::KeyView> {
    Seq::new(
        files.len(),
        |i: int| ordering::KeyView { rank: 0, parts: paths::parts_of(files[i].path@) },
    )
}

/// The order in which the audit lists corpus files: by path, part by part,
/// so that it is the same across runs.
pub fn walk_order(files: &Vec<SourceFile>) -> (order: Vec<usize>)
    ensures
        ordering::stable_order(path_keys(files@), order@),
{
    let mut keys: Vec<ordering::SortKey> = Vec::new();
    let mut i: usize = 0;
    while i < files.len()
        invariant
            i <= files@.len(),
            keys@.len() == i,
            forall|j: int| 0 <= j < i ==> (#[trigger] keys@[j])@ == path_keys(files@)[j],
        decreases files@.len() - i,
    {
        keys.push(ordering::SortKey { rank: 0, parts: paths::path_parts(files[i].path.as_str()) });
        i = i + 1;
    }
    proof {
        assert(ordering::key_views(keys@) =~= path_keys(files@));
    }
    ordering::sorted_positions(&keys)
}

/// The slug of a title.
pub open spec fn title_slug(title: Seq<char>) -> Seq<char> {
    slug::slug_of(text::ascii_lower(title), "untitled"@, 60)
}

/// A filesystem-safe slug of `title`: ASCII lower-case, runs of other
/// characters as one `-`, at most 60 characters.
pub fn slugify(title: &str) -> (r: String)
    ensures
        r@ == title_slug(title@),
{
    slug::slug(text::to_ascii_lower(title).as_str(), "untitled", 60)
}

/// A title's slug is safe in a file name and never empty.
pub proof fn law_slugify_safe(title: Seq<char>)
    ensures
        slug::clean(title_slug(title)),
        0 < title_slug(title).len() <= 60,
{
    reveal_strlit("untitled");
    slug::law_slug_safe(text::ascii_lower(title), "untitled"@, 60);
}

/// The nine extensions that the audit walks, and no other.
pub proof fn law_walked_extensions(ext: Seq<char>)
    ensures
        audio_ext("m4b"@) && audio_ext("m4a"@) && audio_ext("mp3"@) && audio_ext("aac"@),
        audio_ext("flac"@) && audio_ext("ogg"@) && audio_ext("opus"@) && audio_ext("wav"@),
        audio_ext("aax"@),
        audio_ext(ext) ==> seq![
            "m4b"@,
            "m4a"@,
            "mp3"@,
            "aac"@,
            "flac"@,
            "ogg"@,
            "opus"@,
            "wav"@,
            "aax"@,
        ].contains(ext),
{
    let all = seq![
        "m4b"@,
        "m4a"@,
        "mp3"@,
        "aac"@,
        "flac"@,
        "ogg"@,
        "opus"@,
        "wav"@,
        "aax"@,
    ];
    assert(all[0] == "m4b"@ && all[1] == "m4a"@ && all[2] == "mp3"@ && all[3] == "aac"@);
    assert(all[4] == "flac"@ && all[5] == "ogg"@ && all[6] == "opus"@ && all[7] == "wav"@);
    assert(all[8] == "aax"@);
}

/// A file is walked where its extension, whatever its case, is one of them;
/// one without an extension is not.
pub proof fn law_walked_by_extension(path: Seq<char>)
    ensures
        paths::extension_of(path) is None ==> !walked_file(path),
        paths::extension_of(path) matches Some(e) ==> walked_file(path) == audio_ext(
            text::lowercased(e),
        ),
{
}

/// Every audio file is kept, as long as fewer than the limit stand before it.
pub proof fn law_kept_files_complete(files: Seq<String>, limit: Option<usize>, n: nat, k: int)
    requires
        0 <= k < n <= files.len() <= usize::MAX,
        walked_file(files[k]@),
        limit matches Some(m) ==> audio_count(files, k as nat) < m,
    ensures
        kept_files(files, limit, n).contains(k as usize),
    decreases n,
{
    let rest = kept_files(files, limit, (n - 1) as nat);
    let all = kept_files(files, limit, n);
    law_limit_is_a_cap(files, limit, (n - 1) as nat);
    if k == n - 1 {
        assert(all.last() == k as usize);
    } else {
        law_kept_files_complete(files, limit, (n - 1) as nat, k);
        let i = choose|i: int| 0 <= i < rest.len() && rest[i] == k as usize;
        assert(all[i] == k as usize);
    }
}

/// The number of audio files goes up by one with each audio file.
pub proof fn law_audio_count(files: Seq<String>, n: nat)
    requires
        n < files.len(),
    ensures
        audio_count(files, 0) == 0,
        walked_file(files[n as int]@) ==> audio_count(files, n + 1) == audio_count(files, n) + 1,
        !walked_file(files[n as int]@) ==> audio_count(files, n + 1) == audio_count(files, n),
{
}

/// Directories whose name begins with a dot and `__MACOSX` are not entered;
/// every other one is.
pub proof fn law_entered_directories(name: Seq<char>)
    ensures
        name.len() > 0 && name[0] == '.' ==> !walked_dir(name),
        !walked_dir("__MACOSX"@),
        (name.len() == 0 || name[0] != '.') && name != "__MACOSX"@ ==> walked_dir(name),
{
    reveal_strlit(".");
    text::law_stands_char_by_char(name, "."@, 0);
    if text::begins_with(name, "."@) {
        assert("."@[0] == name[0int + 0]);
    }
}

/// A file that is read has the tags that the reader reports; where a tag is
/// empty or missing there is none, and the title is the name of the file. A
/// file that is not read, and an AAX file, has its name for a title and
/// nothing else.
pub proof fn law_probed_tags(path: Seq<char>, extension: Seq<char>, t: ProbedTags)
    ensures
        ({
            let bare = probed_file(path, extension, None);
            &&& bare.path == path && bare.extension == extension && bare.title == fallback_title(
                path,
            )
            &&& bare.duration_ms == 0 && bare.publisher is None && bare.copyright is None
            &&& extension == "aax"@ ==> probed_file(path, extension, Some(t)) == bare
        }),
        extension != "aax"@ ==> {
            let f = probed_file(path, extension, Some(t));
            &&& f.path == path && f.extension == extension
            &&& t.title is Some && t.title->0@.len() > 0 ==> f.title == t.title->0@
            &&& t.title is None || t.title->0@.len() == 0 ==> f.title == fallback_title(path)
            &&& t.publisher is Some && t.publisher->0@.len() > 0 ==> f.publisher == Some(t.publisher->0@)
            &&& t.publisher is None || t.publisher->0@.len() == 0 ==> f.publisher is None
            &&& t.copyright is Some && t.copyright->0@.len() > 0 ==> f.copyright == Some(t.copyright->0@)
            &&& t.copyright is None || t.copyright->0@.len() == 0 ==> f.copyright is None
            &&& t.duration_ms <= u64::MAX ==> f.duration_ms == t.duration_ms
            &&& t.duration_ms > u64::MAX ==> f.duration_ms == u64::MAX
        },
{
}

/// The walk lists files by path, part by part and by nothing else.
pub proof fn law_walk_goes_by_path(files: Seq<SourceFile>, i: int, j: int)
    requires
        0 <= i < files.len(),
        0 <= j < files.len(),
    ensures
        ordering::parts_lt(paths::parts_of(files[i].path@), paths::parts_of(files[j].path@))
            ==> ordering::before(path_keys(files), i, j),
{
}

/// The slug of a title is that of its lower-case form, of up to sixty
/// characters, and `untitled` where no letter and no digit is in it.
pub proof fn law_title_slug(title: Seq<char>)
    ensures
        (forall|i: int| 0 <= i < title.len() ==> !slug::alnum(#[trigger] title[i]))
            ==> title_slug(title) == "untitled"@,
        slug::clean(text::ascii_lower(title)) && 0 < title.len() <= 60 ==> title_slug(title)
            == text::ascii_lower(title),
        title_slug(title) == slug::slug_of(text::ascii_lower(title), "untitled"@, 60),
{
    let low = text::ascii_lower(title);
    if forall|i: int| 0 <= i < title.len() ==> !slug::alnum(#[trigger] title[i]) {
        assert forall|i: int| 0 <= i < low.len() implies !slug::alnum(#[trigger] low[i]) by {
            assert(!slug::alnum(title[i]));
        }
        slug::law_nothing_to_slug(low, "untitled"@, 60);
        reveal_strlit("untitled");
    }
    if slug::clean(low) && 0 < title.len() <= 60 {
        slug::law_slug_fixed(low, "untitled"@, 60);
    }
}

/// A walk without a limit is never over; one with a limit is from the moment
/// it has found that many.
pub proof fn law_walk_limit(found: nat, limit: usize)
    ensures
        !walk_over(found, None),
        walk_over(found, Some(limit)) <==> limit <= found,
{
}

/// A file without a title tag is called after the stem of its name, and where
/// it has no name it is untitled.
pub proof fn law_fallback_title(path: Seq<char>)
    ensures
        paths::stem_of(path) is Some ==> fallback_title(path) == paths::stem_of(path)->0,
        paths::stem_of(path) is None ==> fallback_title(path) == "(untitled)"@,
{
}

} // verus!

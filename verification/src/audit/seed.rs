//! Known-fingerprint seeds of the audiologo audit.
//!
//! The only seed source is a findings file: a JSON array of rows, each with
//! an intro and an outro fingerprint, either of which may be missing. Every
//! imported fingerprint is unconfirmed until an operator signs it off.

use crate::paths;
use crate::text;
use vstd::prelude::*;

verus! {

/// Which end of the audiobook a fingerprint anchors.
#[derive(Debug, Clone, Copy, PartialEq, Eq, Hash, Structural)]
pub enum Position {
    /// The start of the book.
    Intro,
    /// The end of the book.
    Outro,
}

impl Position {
    /// The short label of a position.
    pub open spec fn label(self) -> Seq<char> {
        match self {
            Position::Intro => "intro"@,
            Position::Outro => "outro"@,
        }
    }

    /// Short label for log messages and report rendering.
    pub fn as_str(self) -> (r: &'static str)
        ensures
            r@ == self.label(),
    {
        match self {
            Position::Intro => "intro",
            Position::Outro => "outro",
        }
    }
}

/// Provenance of a seed.
#[derive(Debug, Clone)]
pub enum SeedSource {
    /// Loaded from a findings file.
    AbtaggerFindings {
        /// The file.
        path: String,
    },
    /// Confirmed by an operator in an earlier audit.
    OperatorConfirmed,
}

/// One known fingerprint.
#[derive(Debug, Clone)]
pub struct SeedFingerprint {
    /// Publisher tag, untouched.
    pub publisher: Option<String>,
    /// Publisher label of the source detector.
    pub publisher_match: Option<String>,
    /// Which end of the book the fingerprint anchors.
    pub position: Position,
    /// The fingerprint, in base64.
    pub fingerprint_b64: String,
    /// Length of the audio span that the fingerprint covers.
    pub duration_ms: u32,
    /// Transcript of the same span, where one was recorded.
    pub transcript_excerpt: Option<String>,
    /// Where the seed came from.
    pub source: SeedSource,
    /// Whether an operator has signed the seed off.
    pub confirmed: bool,
}

/// One row of a findings file.
#[derive(Debug, Clone)]
pub struct AbtaggerRow {
    /// Publisher tag.
    pub publisher: Option<String>,
    /// Book title.
    pub title: Option<String>,
    /// Publisher label of the intro.
    pub intro_publisher_match: Option<String>,
    /// Publisher label of the outro.
    pub outro_publisher_match: Option<String>,
    /// Transcript of the intro.
    pub intro_transcript: Option<String>,
    /// Transcript of the outro.
    pub outro_transcript: Option<String>,
    /// Fingerprint of the intro.
    pub intro_fingerprint_b64: Option<String>,
    /// Fingerprint of the outro.
    pub outro_fingerprint_b64: Option<String>,
    /// Length of the intro span.
    pub intro_fingerprint_duration_ms: Option<u32>,
    /// Length of the outro span.
    pub outro_fingerprint_duration_ms: Option<u32>,
}

/// A seed in terms of its texts.
pub struct SeedView {
    /// Publisher tag.
    pub publisher: Option<Seq<char>>,
    /// Publisher label.
    pub publisher_match: Option<Seq<char>>,
    /// Which end of the book.
    pub position: Position,
    /// Fingerprint in base64.
    pub fingerprint_b64: Seq<char>,
    /// Span length.
    pub duration_ms: u32,
    /// Transcript.
    pub transcript_excerpt: Option<Seq<char>>,
    /// The findings file, for a seed that was loaded from one.
    pub path: Option<Seq<char>>,
    /// Signed off.
    pub confirmed: bool,
}

impl View for SeedFingerprint {
    type V = SeedView;

    open spec fn view(&self) -> SeedView {
        SeedView {
            publisher: text::opt_text(self.publisher),
            publisher_match: text::opt_text(self.publisher_match),
            position: self.position,
            fingerprint_b64: self.fingerprint_b64@,
            duration_ms: self.duration_ms,
            transcript_excerpt: text::opt_text(self.transcript_excerpt),
            path: match self.source {
                SeedSource::AbtaggerFindings { path } => Some(path@),
                SeedSource::OperatorConfirmed => None,
            },
            confirmed: self.confirmed,
        }
    }
}

/// `s`, where it is not the empty text.
pub open spec fn nonempty_text(s: Option<Seq<char>>) -> Option<Seq<char>> {
    match s {
        Some(t) => if t.len() == 0 {
            None
        } else {
            Some(t)
        },
        None => None,
    }
}

/// A copy of `s`, where it is not the empty text.
pub fn non_empty(s: Option<&str>) -> (r: Option<String>)
    ensures
        text::opt_text(r) == nonempty_text(text::opt_str(s)),
{
    match s {
        Some(t) => if t.is_empty() {
            None
        } else {
            Some(text::owned(t))
        },
        None => None,
    }
}

/// The length to record where a row gives one or none.
pub open spec fn duration_or_zero(d: Option<u32>) -> u32 {
    match d {
        Some(n) => n,
        None => 0,
    }
}

impl AbtaggerRow {
    /// The intro seed of a row of the file `path`, where it has one.
    pub open spec fn intro_seed(self, path: Seq<char>) -> Option<SeedView> {
        match nonempty_text(text::opt_text(self.intro_fingerprint_b64)) {
            Some(fp) => Some(
                SeedView {
                    publisher: text::opt_text(self.publisher),
                    publisher_match: text::opt_text(self.intro_publisher_match),
                    position: Position::Intro,
                    fingerprint_b64: fp,
                    duration_ms: duration_or_zero(self.intro_fingerprint_duration_ms),
                    transcript_excerpt: text::opt_text(self.intro_transcript),
                    path: Some(path),
                    confirmed: false,
                },
            ),
            None => None,
        }
    }

    /// The outro seed of a row of the file `path`, where it has one.
    pub open spec fn outro_seed(self, path: Seq<char>) -> Option<SeedView> {
        match nonempty_text(text::opt_text(self.outro_fingerprint_b64)) {
            Some(fp) => Some(
                SeedView {
                    publisher: text::opt_text(self.publisher),
                    publisher_match: text::opt_text(self.outro_publisher_match),
                    position: Position::Outro,
                    fingerprint_b64: fp,
                    duration_ms: duration_or_zero(self.outro_fingerprint_duration_ms),
                    transcript_excerpt: text::opt_text(self.outro_transcript),
                    path: Some(path),
                    confirmed: false,
                },
            ),
            None => None,
        }
    }

    /// The seeds of a row: intro first, then outro.
    pub open spec fn seeds(self, path: Seq<char>) -> Seq<SeedView> {
        optional(self.intro_seed(path)) + optional(self.outro_seed(path))
    }

    /// The intro fingerprint, where it is present and not empty.
    pub fn intro_fp(&self) -> (r: Option<String>)
        ensures
            text::opt_text(r) == nonempty_text(text::opt_text(self.intro_fingerprint_b64)),
    {
        non_empty(text::opt_as_str(&self.intro_fingerprint_b64))
    }

    /// The outro fingerprint, where it is present and not empty.
    pub fn outro_fp(&self) -> (r: Option<String>)
        ensures
            text::opt_text(r) == nonempty_text(text::opt_text(self.outro_fingerprint_b64)),
    {
        non_empty(text::opt_as_str(&self.outro_fingerprint_b64))
    }
}

/// The list of no or one seed.
pub open spec fn optional(s: Option<SeedView>) -> Seq<SeedView> {
    match s {
        Some(v) => seq![v],
        None => Seq::empty(),
    }
}

/// The seeds of a list of fingerprints.
pub open spec fn seed_views(s: Seq<SeedFingerprint>) -> Seq<SeedView> {
    Seq::new(s.len(), |i: int| s[i]@)
}

/// The seeds of the rows of one file, in order.
pub open spec fn seeds_of_rows(rows: Seq<AbtaggerRow>, path: Seq<char>) -> Seq<SeedView>
    decreases rows.len(),
{
    if rows.len() == 0 {
        Seq::empty()
    } else {
        seeds_of_rows(rows.drop_last(), path) + rows.last().seeds(path)
    }
}

/// A findings file: its path, and its rows or why they could not be read.
#[derive(Debug)]
pub struct SeedFile {
    /// Path of the file.
    pub path: String,
    /// The rows, or the reading or parsing error.
    pub rows: Result<Vec<AbtaggerRow>, String>,
}

/// Why seeds could not be loaded.
#[derive(Debug)]
pub enum SeedError {
    /// The path does not end in `.json`.
    UnsupportedExtension {
        /// The path.
        path: String,
        /// Its extension, lower-cased.
        ext: String,
    },
    /// The file could not be read or parsed.
    Unreadable {
        /// The path.
        path: String,
        /// The reading or parsing error.
        reason: String,
    },
}

/// A loading error in terms of its texts.
pub enum SeedErrorView {
    /// Wrong extension: path and extension.
    UnsupportedExtension(Seq<char>, Seq<char>),
    /// Not readable: path and reason.
    Unreadable(Seq<char>, Seq<char>),
}

impl View for SeedError {
    type V = SeedErrorView;

    open spec fn view(&self) -> SeedErrorView {
        match *self {
            SeedError::UnsupportedExtension { path, ext } => {
                SeedErrorView::UnsupportedExtension(path@, ext@)
            },
            SeedError::Unreadable { path, reason } => SeedErrorView::Unreadable(path@, reason@),
        }
    }
}

impl SeedError {
    /// The message of a loading error.
    pub open spec fn message_text(self) -> Seq<char> {
        match self {
            SeedError::UnsupportedExtension { path, ext } => "seed path "@ + path@
                + " has unsupported extension "@ + text::quoted(ext@) + "; expected .json"@,
            SeedError::Unreadable { path, reason } => reason@,
        }
    }

    /// The message of a loading error.
    pub fn message(&self) -> (r: String)
        ensures
            r@ == self.message_text(),
    {
        match self {
            SeedError::UnsupportedExtension { path, ext } => {
                let mut s = text::owned("seed path ");
                s.append(path.as_str());
                s.append(" has unsupported extension ");
                s.append(text::quote(ext.as_str()).as_str());
                s.append("; expected .json");
                s
            },
            SeedError::Unreadable { path, reason } => text::owned(reason.as_str()),
        }
    }
}

/// The lower-cased extension of a path, empty where it has none.
pub open spec fn seed_extension(path: Seq<char>) -> Seq<char> {
    match paths::extension_of(path) {
        Some(e) => text::ascii_lower(e),
        None => Seq::empty(),
    }
}

/// What loading one file gives.
pub open spec fn loaded_one(file: SeedFile) -> Result<Seq<SeedView>, SeedErrorView> {
    if seed_extension(file.path@) != "json"@ {
        Err(SeedErrorView::UnsupportedExtension(file.path@, seed_extension(file.path@)))
    } else {
        match file.rows {
            Ok(rows) => Ok(seeds_of_rows(rows@, file.path@)),
            Err(reason) => Err(SeedErrorView::Unreadable(file.path@, reason@)),
        }
    }
}

/// What loading a list of files gives: the seeds of all files in order, or
/// the error of the first file that fails.
pub open spec fn loaded(files: Seq<SeedFile>) -> Result<Seq<SeedView>, SeedErrorView>
    decreases files.len(),
{
    if files.len() == 0 {
        Ok(Seq::empty())
    } else {
        match loaded(files.drop_last()) {
            Err(e) => Err(e),
            Ok(head) => match loaded_one(files.last()) {
                Err(e) => Err(e),
                Ok(tail) => Ok(head + tail),
            },
        }
    }
}

proof fn lemma_first_failure(files: Seq<SeedFile>, n: int)
    requires
        0 <= n <= files.len(),
        loaded(files.take(n)) is Err,
    ensures
        loaded(files) == loaded(files.take(n)),
    decreases files.len() - n,
{
    if n < files.len() {
        assert(files.take(n + 1).drop_last() =~= files.take(n));
        lemma_first_failure(files, n + 1);
    } else {
        assert(files.take(n) =~= files);
    }
}

/// The publisher bucket of a seed.
pub open spec fn publisher_key(publisher: Option<Seq<char>>) -> Seq<char> {
    match publisher {
        Some(p) => p,
        None => "(no publisher)"@,
    }
}

/// The positions, below `n`, of the seeds in the bucket `key`.
pub open spec fn bucket(seeds: Seq<SeedFingerprint>, key: Seq<char>, n: nat) -> Seq<usize>
    decreases n,
{
    if n == 0 {
        Seq::empty()
    } else {
        let rest = bucket(seeds, key, (n - 1) as nat);
        if publisher_key(text::opt_text(seeds[n - 1].publisher)) == key {
            rest.push((n - 1) as usize)
        } else {
            rest
        }
    }
}

/// The seeds of one publisher.
#[derive(Debug)]
pub struct PublisherGroup {
    /// The publisher, or `(no publisher)`.
    pub publisher: String,
    /// Positions of its seeds in the database, ascending.
    pub seeds: Vec<usize>,
}

/// Whether `groups` holds, for each publisher of the first `n` seeds, one
/// group with the positions of all its seeds.
pub open spec fn grouped(
    groups: Seq<PublisherGroup>,
    seeds: Seq<SeedFingerprint>,
    n: nat,
) -> bool {
    &&& forall|i: int, j: int|
        0 <= i < j < groups.len() ==> (#[trigger] groups[i]).publisher@ != (
        #[trigger] groups[j]).publisher@
    &&& forall|i: int|
        0 <= i < groups.len() ==> (#[trigger] groups[i]).seeds@ == bucket(
            seeds,
            groups[i].publisher@,
            n,
        ) && groups[i].seeds@.len() > 0
    &&& forall|k: int|
        0 <= k < n ==> exists|i: int|
            0 <= i < groups.len() && (#[trigger] groups[i]).publisher@ == publisher_key(
                text::opt_text((#[trigger] seeds[k]).publisher),
            )
}

proof fn lemma_bucket_empty(seeds: Seq<SeedFingerprint>, key: Seq<char>, n: nat)
    requires
        n <= seeds.len(),
        forall|k: int|
            0 <= k < n ==> publisher_key(text::opt_text((#[trigger] seeds[k]).publisher)) != key,
    ensures
        bucket(seeds, key, n) == Seq::<usize>::empty(),
    decreases n,
{
    if n > 0 {
        lemma_bucket_empty(seeds, key, (n - 1) as nat);
    }
}

/// The seeds of an audit, grouped on demand by publisher.
#[derive(Debug, Clone)]
pub struct SeedDb {
    /// All seeds, in loading order.
    pub fingerprints: Vec<SeedFingerprint>,
}

impl View for SeedDb {
    type V = Seq<SeedView>;

    open spec fn view(&self) -> Seq<SeedView> {
        seed_views(self.fingerprints@)
    }
}

impl Default for SeedDb {
    fn default() -> (r: SeedDb)
        ensures
            r@ == Seq::<SeedView>::empty(),
    {
        SeedDb::empty()
    }
}

impl SeedDb {
    /// A database without seeds.
    pub fn empty() -> (r: SeedDb)
        ensures
            r@ == Seq::<SeedView>::empty(),
    {
        let r = SeedDb { fingerprints: Vec::new() };
        proof {
            assert(r@ =~= Seq::<SeedView>::empty());
        }
        r
    }

    /// Merges the seeds of every file. A path without the extension `json`
    /// is an error, so that typos surface at startup.
    pub fn load(files: &Vec<SeedFile>) -> (r: Result<SeedDb, SeedError>)
        ensures
            match r {
                Ok(db) => loaded(files@) == Ok::<Seq<SeedView>, SeedErrorView>(db@),
                Err(e) => loaded(files@) == Err::<Seq<SeedView>, SeedErrorView>(e@),
            },
    {
        let mut out = SeedDb::empty();
        let mut i: usize = 0;
        while i < files.len()
            invariant
                i <= files@.len(),
                loaded(files@.take(i as int)) == Ok::<Seq<SeedView>, SeedErrorView>(out@),
            decreases files@.len() - i,
        {
            proof {
                assert(files@.take(i + 1).drop_last() =~= files@.take(i as int));
            }
            match SeedDb::load_one(&files[i]) {
                Ok(one) => {
                    out.extend(one);
                },
                Err(e) => {
                    proof {
                        lemma_first_failure(files@, i + 1);
                    }
                    return Err(e);
                },
            }
            i = i + 1;
        }
        proof {
            assert(files@.take(i as int) =~= files@);
        }
        Ok(out)
    }

    /// Appends the seeds of `other`.
    pub fn extend(&mut self, other: SeedDb)
        ensures
            final(self)@ == old(self)@ + other@,
    {
        let mut more = other.fingerprints;
        let ghost a = self.fingerprints@;
        let ghost b = more@;
        self.fingerprints.append(&mut more);
        proof {
            assert(self.fingerprints@ =~= a + b);
            assert(seed_views(a + b) =~= seed_views(a) + seed_views(b));
        }
    }

    /// The seeds of one file.
    pub fn load_one(file: &SeedFile) -> (r: Result<SeedDb, SeedError>)
        ensures
            match r {
                Ok(db) => loaded_one(*file) == Ok::<Seq<SeedView>, SeedErrorView>(db@),
                Err(e) => loaded_one(*file) == Err::<Seq<SeedView>, SeedErrorView>(e@),
            },
    {
        let ext = match paths::extension(file.path.as_str()) {
            Some(e) => text::to_ascii_lower(e.as_str()),
            None => String::new(),
        };
        if !text::same_text(ext.as_str(), "json") {
            return Err(
                SeedError::UnsupportedExtension { path: text::owned(file.path.as_str()), ext },
            );
        }
        match &file.rows {
            Ok(rows) => Ok(SeedDb::from_rows(rows, file.path.as_str())),
            Err(reason) => Err(
                SeedError::Unreadable {
                    path: text::owned(file.path.as_str()),
                    reason: text::owned(reason.as_str()),
                },
            ),
        }
    }

    /// The seeds of the rows of one file.
    pub fn from_rows(rows: &Vec<AbtaggerRow>, path: &str) -> (r: SeedDb)
        ensures
            r@ == seeds_of_rows(rows@, path@),
    {
        let mut fingerprints: Vec<SeedFingerprint> = Vec::new();
        let mut i: usize = 0;
        proof {
            assert(seed_views(fingerprints@) =~= seeds_of_rows(rows@.take(0), path@));
        }
        while i < rows.len()
            invariant
                i <= rows@.len(),
                seed_views(fingerprints@) == seeds_of_rows(rows@.take(i as int), path@),
            decreases rows@.len() - i,
        {
            let row = &rows[i];
            let ghost start = fingerprints@;
            if let Some(fp) = row.intro_fp() {
                let seed = SeedFingerprint {
                    publisher: text::opt_clone(&row.publisher),
                    publisher_match: text::opt_clone(&row.intro_publisher_match),
                    position: Position::Intro,
                    fingerprint_b64: fp,
                    duration_ms: match row.intro_fingerprint_duration_ms {
                        Some(d) => d,
                        None => 0,
                    },
                    transcript_excerpt: text::opt_clone(&row.intro_transcript),
                    source: SeedSource::AbtaggerFindings { path: text::owned(path) },
                    confirmed: false,
                };
                fingerprints.push(seed);
            }
            proof {
                assert(seed_views(fingerprints@) =~= seed_views(start) + optional(
                    row.intro_seed(path@),
                ));
            }
            let ghost mid = fingerprints@;
            if let Some(fp) = row.outro_fp() {
                let seed = SeedFingerprint {
                    publisher: text::opt_clone(&row.publisher),
                    publisher_match: text::opt_clone(&row.outro_publisher_match),
                    position: Position::Outro,
                    fingerprint_b64: fp,
                    duration_ms: match row.outro_fingerprint_duration_ms {
                        Some(d) => d,
                        None => 0,
                    },
                    transcript_excerpt: text::opt_clone(&row.outro_transcript),
                    source: SeedSource::AbtaggerFindings { path: text::owned(path) },
                    confirmed: false,
                };
                fingerprints.push(seed);
            }
            proof {
                assert(seed_views(fingerprints@) =~= seed_views(mid) + optional(
                    row.outro_seed(path@),
                ));
                assert(rows@.take(i + 1).drop_last() =~= rows@.take(i as int));
                assert(seed_views(fingerprints@) =~= seed_views(start) + row.seeds(path@));
            }
            i = i + 1;
        }
        proof {
            assert(rows@.take(i as int) =~= rows@);
        }
        SeedDb { fingerprints }
    }

    /// Whether there are no seeds.
    pub fn is_empty(&self) -> (r: bool)
        ensures
            r == (self@.len() == 0),
    {
        self.fingerprints.len() == 0
    }

    /// The number of seeds.
    pub fn len(&self) -> (r: usize)
        ensures
            r == self@.len(),
    {
        self.fingerprints.len()
    }

    /// Groups the seeds by publisher tag. Seeds without one are collected
    /// under `(no publisher)`.
    pub fn group_by_publisher(&self) -> (groups: Vec<PublisherGroup>)
        ensures
            grouped(groups@, self.fingerprints@, self.fingerprints@.len()),
    {
        let mut groups: Vec<PublisherGroup> = Vec::new();
        let ghost seeds = self.fingerprints@;
        let mut k: usize = 0;
        while k < self.fingerprints.len()
            invariant
                seeds == self.fingerprints@,
                k <= seeds.len(),
                grouped(groups@, seeds, k as nat),
            decreases seeds.len() - k,
        {
            let key = match &self.fingerprints[k].publisher {
                Some(p) => text::owned(p.as_str()),
                None => text::owned("(no publisher)"),
            };
            let ghost old_groups = groups@;
            proof {
                assert(key@ == publisher_key(text::opt_text(seeds[k as int].publisher)));
            }
            let mut i: usize = 0;
            while i < groups.len() && !text::same_text(groups[i].publisher.as_str(), key.as_str())
                invariant
                    i <= groups@.len(),
                    groups@ == old_groups,
                    forall|j: int| 0 <= j < i ==> (#[trigger] groups@[j]).publisher@ != key@,
                decreases groups@.len() - i,
            {
                i = i + 1;
            }
            if i < groups.len() {
                let mut g = groups.remove(i);
                g.seeds.push(k);
                groups.insert(i, g);
                proof {
                    assert(forall|j: int|
                        0 <= j < groups@.len() && j != i ==> groups@[j] == old_groups[j]);
                    assert(groups@[i as int].publisher@ == key@);
                }
            } else {
                let mut first: Vec<usize> = Vec::new();
                first.push(k);
                proof {
                    assert forall|j: int| 0 <= j < k implies publisher_key(
                        text::opt_text((#[trigger] seeds[j]).publisher),
                    ) != key@ by {
                        let w = choose|w: int|
                            0 <= w < old_groups.len() && (#[trigger] old_groups[w]).publisher@
                                == publisher_key(text::opt_text(seeds[j].publisher));
                        assert(old_groups[w].publisher@ != key@);
                    }
                    lemma_bucket_empty(seeds, key@, k as nat);
                }
                groups.push(PublisherGroup { publisher: key, seeds: first });
            }
            proof {
                assert forall|j: int| 0 <= j < groups@.len() implies (
                #[trigger] groups@[j]).seeds@ == bucket(seeds, groups@[j].publisher@, (k + 1) as nat)
                    && groups@[j].seeds@.len() > 0 by {
                    if j != i {
                        assert(groups@[j] == old_groups[j]);
                    }
                }
                assert forall|m: int| 0 <= m < k + 1 implies exists|j: int|
                    0 <= j < groups@.len() && (#[trigger] groups@[j]).publisher@ == publisher_key(
                        text::opt_text((#[trigger] seeds[m]).publisher),
                    ) by {
                    if m < k {
                        let w = choose|w: int|
                            0 <= w < old_groups.len() && (#[trigger] old_groups[w]).publisher@
                                == publisher_key(text::opt_text(seeds[m].publisher));
                        assert(groups@[w].publisher@ == old_groups[w].publisher@);
                    } else {
                        assert(groups@[i as int].publisher@ == key@);
                    }
                }
            }
            k = k + 1;
        }
        groups
    }
}

/// Loading keeps the files apart: the seeds of two lists of files are those
/// of the first followed by those of the second. Where a list fails, its
/// failure is that of both together, and the first list's comes first.
pub proof fn law_load_concatenates(a: Seq<SeedFile>, b: Seq<SeedFile>)
    ensures
        loaded(a + b) == match (loaded(a), loaded(b)) {
            (Ok(x), Ok(y)) => Ok::<Seq<SeedView>, SeedErrorView>(x + y),
            (Ok(_), Err(e)) => Err(e),
            (Err(e), _) => Err(e),
        },
    decreases b.len(),
{
    if b.len() == 0 {
        assert(a + b =~= a);
        if loaded(a) is Ok {
            assert(loaded(a)->Ok_0 + Seq::<SeedView>::empty() =~= loaded(a)->Ok_0);
        }
    } else {
        let head = b.drop_last();
        law_load_concatenates(a, head);
        assert((a + b).drop_last() =~= a + head);
        assert((a + b).last() == b.last());
        if loaded(a) is Ok && loaded(head) is Ok && loaded_one(b.last()) is Ok {
            assert((loaded(a)->Ok_0 + loaded(head)->Ok_0) + loaded_one(b.last())->Ok_0
                =~= loaded(a)->Ok_0 + (loaded(head)->Ok_0 + loaded_one(b.last())->Ok_0));
        }
    }
}

/// No imported seed is confirmed, and every one names its file.
pub proof fn law_imported_unconfirmed(rows: Seq<AbtaggerRow>, path: Seq<char>, i: int)
    requires
        0 <= i < seeds_of_rows(rows, path).len(),
    ensures
        !seeds_of_rows(rows, path)[i].confirmed,
        seeds_of_rows(rows, path)[i].path == Some(path),
        seeds_of_rows(rows, path)[i].fingerprint_b64.len() > 0,
    decreases rows.len(),
{
    if rows.len() > 0 {
        let head = seeds_of_rows(rows.drop_last(), path);
        if i < head.len() {
            law_imported_unconfirmed(rows.drop_last(), path, i);
        }
    }
}

/// What a row gives: for each end with a fingerprint one seed, that of the
/// intro first, with the publisher of the row and everything else from the
/// fields of that end.
pub proof fn law_row_gives_its_ends(row: AbtaggerRow, path: Seq<char>)
    ensures
        ({
            let intro = row.intro_fingerprint_b64 is Some && row.intro_fingerprint_b64->0@.len()
                > 0;
            let outro = row.outro_fingerprint_b64 is Some && row.outro_fingerprint_b64->0@.len()
                > 0;
            let s = row.seeds(path);
            &&& s.len() == (if intro {
                1int
            } else {
                0
            }) + (if outro {
                1int
            } else {
                0
            })
            &&& intro ==> {
                &&& s[0].position == Position::Intro
                &&& s[0].fingerprint_b64 == row.intro_fingerprint_b64->0@
                &&& s[0].publisher == text::opt_text(row.publisher)
                &&& s[0].publisher_match == text::opt_text(row.intro_publisher_match)
                &&& s[0].transcript_excerpt == text::opt_text(row.intro_transcript)
                &&& s[0].duration_ms == (match row.intro_fingerprint_duration_ms {
                    Some(d) => d,
                    None => 0,
                })
                &&& s[0].path == Some(path) && !s[0].confirmed
            }
            &&& outro ==> {
                &&& s.last().position == Position::Outro
                &&& s.last().fingerprint_b64 == row.outro_fingerprint_b64->0@
                &&& s.last().publisher == text::opt_text(row.publisher)
                &&& s.last().publisher_match == text::opt_text(row.outro_publisher_match)
                &&& s.last().transcript_excerpt == text::opt_text(row.outro_transcript)
                &&& s.last().duration_ms == (match row.outro_fingerprint_duration_ms {
                    Some(d) => d,
                    None => 0,
                })
                &&& s.last().path == Some(path) && !s.last().confirmed
            }
        }),
{
}

/// The seeds of a file are those of its rows, one row after the other.
pub proof fn law_rows_in_order(rows: Seq<AbtaggerRow>, row: AbtaggerRow, path: Seq<char>)
    ensures
        seeds_of_rows(Seq::empty(), path) == Seq::<SeedView>::empty(),
        seeds_of_rows(rows.push(row), path) == seeds_of_rows(rows, path) + row.seeds(path),
{
    assert(rows.push(row).drop_last() =~= rows);
}

/// A file is loaded where its extension is `json`, whatever its case, and its
/// rows could be read.
pub proof fn law_loaded_files(file: SeedFile)
    ensures
        ({
            let json = paths::extension_of(file.path@) is Some && text::ascii_lower(
                paths::extension_of(file.path@)->0,
            ) == "json"@;
            &&& json && file.rows is Ok ==> loaded(seq![file]) == Ok::<
                Seq<SeedView>,
                SeedErrorView,
            >(seeds_of_rows(file.rows->Ok_0@, file.path@))
            &&& json && file.rows is Err ==> loaded(seq![file]) == Err::<
                Seq<SeedView>,
                SeedErrorView,
            >(SeedErrorView::Unreadable(file.path@, file.rows->Err_0@))
            &&& !json ==> (loaded(seq![file]) matches Err(
                SeedErrorView::UnsupportedExtension(p, _e),
            ) && p == file.path@)
        }),
        loaded(Seq::empty()) == Ok::<Seq<SeedView>, SeedErrorView>(Seq::empty()),
{
    reveal_with_fuel(loaded, 2);
    reveal_strlit("json");
    let one = seq![file];
    assert(one.drop_last() =~= Seq::empty());
    assert(one.last() == file);
    assert(loaded(one.drop_last()) == Ok::<Seq<SeedView>, SeedErrorView>(Seq::empty()));
    if paths::extension_of(file.path@) is None {
        assert(seed_extension(file.path@).len() != "json"@.len());
    }
    if file.rows is Ok {
        assert(Seq::<SeedView>::empty() + seeds_of_rows(file.rows->Ok_0@, file.path@)
            =~= seeds_of_rows(file.rows->Ok_0@, file.path@));
    }
}

/// A seed is in the bucket of its publisher, and in no other.
pub proof fn law_bucket_holds_its_seeds(
    seeds: Seq<SeedFingerprint>,
    key: Seq<char>,
    n: nat,
    k: int,
)
    requires
        0 <= k < n <= seeds.len() <= usize::MAX,
    ensures
        bucket(seeds, key, n).contains(k as usize) <==> publisher_key(
            text::opt_text(seeds[k].publisher),
        ) == key,
    decreases n,
{
    let rest = bucket(seeds, key, (n - 1) as nat);
    let all = bucket(seeds, key, n);
    if k < n - 1 {
        law_bucket_holds_its_seeds(seeds, key, (n - 1) as nat, k);
        if rest.contains(k as usize) {
            let i = choose|i: int| 0 <= i < rest.len() && rest[i] == k as usize;
            assert(all[i] == k as usize);
        }
        if all.contains(k as usize) {
            let i = choose|i: int| 0 <= i < all.len() && all[i] == k as usize;
            assert(rest[i] == k as usize);
        }
    } else {
        lemma_bucket_below(seeds, key, (n - 1) as nat);
        if publisher_key(text::opt_text(seeds[k].publisher)) == key {
            assert(all.last() == k as usize);
        } else if all.contains(k as usize) {
            let i = choose|i: int| 0 <= i < all.len() && all[i] == k as usize;
            assert(rest[i] < n - 1);
        }
    }
}

proof fn lemma_bucket_below(seeds: Seq<SeedFingerprint>, key: Seq<char>, n: nat)
    requires
        n <= seeds.len() <= usize::MAX,
    ensures
        forall|i: int|
            0 <= i < bucket(seeds, key, n).len() ==> #[trigger] bucket(seeds, key, n)[i] < n,
    decreases n,
{
    if n > 0 {
        let rest = bucket(seeds, key, (n - 1) as nat);
        lemma_bucket_below(seeds, key, (n - 1) as nat);
        assert forall|i: int| 0 <= i < bucket(seeds, key, n).len() implies #[trigger] bucket(
            seeds,
            key,
            n,
        )[i] < n by {
            if i < rest.len() {
                assert(rest[i] < n - 1);
            }
        }
    }
}

/// Every seed is in one group and in one only: that of its publisher, or that
/// of the seeds without one.
pub proof fn law_every_seed_is_grouped(
    groups: Seq<PublisherGroup>,
    seeds: Seq<SeedFingerprint>,
    k: int,
) -> (g: int)
    requires
        grouped(groups, seeds, seeds.len()),
        0 <= k < seeds.len() <= usize::MAX,
    ensures
        0 <= g < groups.len(),
        groups[g].seeds@.contains(k as usize),
        seeds[k].publisher matches Some(p) ==> groups[g].publisher@ == p@,
        seeds[k].publisher is None ==> groups[g].publisher@ == "(no publisher)"@,
        forall|j: int|
            0 <= j < groups.len() && j != g ==> !(#[trigger] groups[j]).seeds@.contains(
                k as usize,
            ),
{
    let key = publisher_key(text::opt_text(seeds[k].publisher));
    let g = choose|g: int| 0 <= g < groups.len() && (#[trigger] groups[g]).publisher@ == key;
    law_bucket_holds_its_seeds(seeds, key, seeds.len(), k);
    assert forall|j: int| 0 <= j < groups.len() && j != g implies !(
    #[trigger] groups[j]).seeds@.contains(k as usize) by {
        law_bucket_holds_its_seeds(seeds, groups[j].publisher@, seeds.len(), k);
        if j < g {
            assert(groups[j].publisher@ != groups[g].publisher@);
        } else {
            assert(groups[g].publisher@ != groups[j].publisher@);
        }
    }
    g
}

/// An optional text counts where it is not empty.
pub proof fn law_empty_is_absent(s: Seq<char>)
    ensures
        nonempty_text(None) is None,
        s.len() == 0 ==> nonempty_text(Some(s)) is None,
        s.len() > 0 ==> nonempty_text(Some(s)) == Some(s),
{
}

/// The message of a file that is no seed file names it and its extension; that
/// of an unreadable one says why.
pub proof fn law_seed_messages(path: String, ext: String)
    ensures
        (SeedError::UnsupportedExtension { path, ext }).message_text() == "seed path "@ + path@
            + " has unsupported extension "@ + text::quoted(ext@) + "; expected .json"@,
        (SeedError::Unreadable { path, reason: ext }).message_text() == ext@,
{
}

/// The extension of a seed file counts in either case of its letters; a path
/// without one has the empty one.
pub proof fn law_seed_extension(path: Seq<char>)
    ensures
        paths::extension_of(path) is None ==> seed_extension(path).len() == 0,
        paths::extension_of(path) is Some ==> seed_extension(path) == text::ascii_lower(
            paths::extension_of(path)->0,
        ),
{
}

/// Groups are of different publishers, and none is empty.
pub proof fn law_groups(
    groups: Seq<PublisherGroup>,
    seeds: Seq<SeedFingerprint>,
    n: nat,
    i: int,
    j: int,
)
    requires
        grouped(groups, seeds, n),
    ensures
        0 <= i < j < groups.len() ==> groups[i].publisher@ != groups[j].publisher@,
        0 <= i < groups.len() ==> groups[i].seeds@.len() > 0,
        0 <= i < groups.len() ==> groups[i].seeds@ == bucket(seeds, groups[i].publisher@, n),
{
}

/// Each position has its word.
pub proof fn law_position_words()
    ensures
        Position::Intro.label() == "intro"@,
        Position::Outro.label() == "outro"@,
{
}

} // verus!

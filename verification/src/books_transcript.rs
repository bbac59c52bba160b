//! The transcript of a book as text.

use crate::error;
use crate::text;
use vstd::prelude::*;

verus! {

/// Which part of the transcript is asked for.
#[derive(Debug)]
pub struct TranscriptQuery {
    /// `full`, `head`, `tail` or `samples`; all of it where absent.
    pub kind: Option<String>,
}

impl Default for TranscriptQuery {
    fn default() -> (q: TranscriptQuery)
        ensures
            q.kind is None,
    {
        TranscriptQuery { kind: None }
    }
}

/// A kind of cached transcript.
#[derive(Debug, Clone, Copy, PartialEq, Eq, Structural)]
pub enum CacheKey {
    /// All of it.
    TranscriptFull,
    /// The beginning.
    TranscriptHead,
    /// The end.
    TranscriptTail,
    /// Samples.
    TranscriptSamples,
}

impl CacheKey {
    /// The stored name.
    pub open spec fn name(self) -> Seq<char> {
        match self {
            CacheKey::TranscriptFull => "transcript_full"@,
            CacheKey::TranscriptHead => "transcript_head"@,
            CacheKey::TranscriptTail => "transcript_tail"@,
            CacheKey::TranscriptSamples => "transcript_samples"@,
        }
    }

    /// The stored name.
    pub fn as_str(&self) -> (s: &'static str)
        ensures
            s@ == self.name(),
    {
        match self {
            CacheKey::TranscriptFull => "transcript_full",
            CacheKey::TranscriptHead => "transcript_head",
            CacheKey::TranscriptTail => "transcript_tail",
            CacheKey::TranscriptSamples => "transcript_samples",
        }
    }

    /// The name in a request and in a file name.
    pub open spec fn short(self) -> Seq<char> {
        match self {
            CacheKey::TranscriptFull => "full"@,
            CacheKey::TranscriptHead => "head"@,
            CacheKey::TranscriptTail => "tail"@,
            CacheKey::TranscriptSamples => "samples"@,
        }
    }

    /// The name in a request and in a file name.
    pub fn suffix(&self) -> (s: &'static str)
        ensures
            s@ == self.short(),
    {
        match self {
            CacheKey::TranscriptFull => "full",
            CacheKey::TranscriptHead => "head",
            CacheKey::TranscriptTail => "tail",
            CacheKey::TranscriptSamples => "samples",
        }
    }
}

/// What a request names.
pub open spec fn requested(raw: Option<Seq<char>>) -> Seq<char> {
    match raw {
        Some(s) => s,
        None => "full"@,
    }
}

/// Whether a name is that of a kind.
pub open spec fn known(s: Seq<char>) -> bool {
    s == "full"@ || s == "head"@ || s == "tail"@ || s == "samples"@
}

/// The kind that a request names. An absent name is that of the whole
/// transcript; an empty one is not.
pub fn resolve_kind(raw: Option<&str>) -> (r: Result<CacheKey, error::ApiError>)
    ensures
        match r {
            Ok(k) => k.short() == requested(text::opt_str(raw)),
            Err(e) => {
                &&& !known(requested(text::opt_str(raw)))
                &&& e@ == error::ErrorView::BadRequest(
                    "unknown transcript kind "@ + text::quoted(requested(text::opt_str(raw)))
                        + "; expected one of full / head / tail / samples"@,
                )
            },
        },
{
    let s = match raw {
        Some(s) => s,
        None => "full",
    };
    if text::same_text(s, "full") {
        Ok(CacheKey::TranscriptFull)
    } else if text::same_text(s, "head") {
        Ok(CacheKey::TranscriptHead)
    } else if text::same_text(s, "tail") {
        Ok(CacheKey::TranscriptTail)
    } else if text::same_text(s, "samples") {
        Ok(CacheKey::TranscriptSamples)
    } else {
        let mut m = text::owned("unknown transcript kind ");
        m.append(text::quote(s).as_str());
        m.append("; expected one of full / head / tail / samples");
        Err(error::ApiError::BadRequest(m))
    }
}

/// The transcript of a book, or why there is none.
pub fn books_transcript_get(
    book_id: i64,
    kind: CacheKey,
    book_exists: bool,
    content: Option<String>,
) -> (r: Result<String, error::ApiError>)
    ensures
        !book_exists ==> (r matches Err(e) && e@ == error::ErrorView::NotFound(
            error::numbered_text("book"@, book_id as int),
        )),
        book_exists ==> match content {
            Some(c) => r == Ok::<String, error::ApiError>(c),
            None => r matches Err(e) && e@ == error::ErrorView::NotFound(
                error::numbered_text("book"@, book_id as int) + " has no "@ + kind.name()
                    + " cached yet"@,
            ),
        },
{
    if !book_exists {
        return Err(error::missing("book", book_id));
    }
    match content {
        Some(c) => Ok(c),
        None => {
            let mut m = error::numbered("book", book_id);
            m.append(" has no ");
            m.append(kind.as_str());
            m.append(" cached yet");
            Err(error::ApiError::NotFound(m))
        },
    }
}

/// The name under which a browser saves the transcript.
pub fn transcript_disposition(book_id: i64, kind: CacheKey) -> (s: String)
    ensures
        s@ == "attachment; filename=\"book-"@ + text::signed_decimal(book_id as int)
            + "-transcript-"@ + kind.short() + ".txt\""@,
{
    let mut s = text::owned("attachment; filename=\"book-");
    s.append(text::i64_text(book_id).as_str());
    s.append("-transcript-");
    s.append(kind.suffix());
    s.append(".txt\"");
    s
}

// ── Laws ───────────────────────────────────────────────────────────
/// A kind is stored under its short name behind a prefix, and a request for a
/// short name is one for its kind.
pub proof fn law_kind_names(k: CacheKey)
    ensures
        k.name() == "transcript_"@ + k.short(),
        known(k.short()),
        requested(Some(k.short())) == k.short(),
        CacheKey::TranscriptFull.short() == "full"@,
        CacheKey::TranscriptHead.short() == "head"@,
        CacheKey::TranscriptTail.short() == "tail"@,
        CacheKey::TranscriptSamples.short() == "samples"@,
{
    reveal_strlit("transcript_");
    reveal_strlit("transcript_full");
    reveal_strlit("transcript_head");
    reveal_strlit("transcript_tail");
    reveal_strlit("transcript_samples");
    reveal_strlit("full");
    reveal_strlit("head");
    reveal_strlit("tail");
    reveal_strlit("samples");
    assert(k.name() =~= "transcript_"@ + k.short());
}

/// Who asks for no kind asks for the whole transcript. Only the short name of
/// a kind is known.
pub proof fn law_kind_requested(s: Seq<char>)
    ensures
        requested(None) == CacheKey::TranscriptFull.short(),
        requested(Some(s)) == s,
        known(s) <==> exists|k: CacheKey| #[trigger] k.short() == s,
{
    if known(s) {
        assert(CacheKey::TranscriptFull.short() == s || CacheKey::TranscriptHead.short() == s
            || CacheKey::TranscriptTail.short() == s || CacheKey::TranscriptSamples.short() == s);
    }
}

} // verus!

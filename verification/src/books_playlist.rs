//! The playlist of a book in M3U8.

use crate::error;
use crate::slug;
use crate::text;
use vstd::prelude::*;

verus! {

/// Seconds of a track; -1 where its duration is unknown.
pub open spec fn track_seconds(duration_ms: Option<i64>) -> int {
    match duration_ms {
        Some(ms) => if ms < 0 {
            0
        } else {
            ms as int / 1000
        },
        None => -1,
    }
}

fn seconds_of(duration_ms: Option<i64>) -> (r: i64)
    ensures
        r == track_seconds(duration_ms),
{
    match duration_ms {
        Some(ms) => if ms < 0 {
            0
        } else {
            ms / 1000
        },
        None => -1,
    }
}

/// A track: its line of metadata and its path.
#[verifier::opaque]
pub open spec fn track(title: Seq<char>, path: Seq<char>, duration_ms: Option<i64>) -> Seq<char> {
    "#EXTINF:"@ + text::signed_decimal(track_seconds(duration_ms)) + ","@ + title + "\n"@ + path
        + "\n"@
}

/// The first `n` tracks.
pub open spec fn tracks(title: Seq<char>, files: Seq<(&str, Option<i64>)>, n: nat) -> Seq<char>
    decreases n,
{
    if n == 0 {
        Seq::empty()
    } else {
        tracks(title, files, (n - 1) as nat) + track(title, files[n - 1].0@, files[n - 1].1)
    }
}

fn write_track(title: &str, path: &str, duration_ms: Option<i64>) -> (s: String)
    ensures
        s@ == track(title@, path@, duration_ms),
{
    let mut s = text::owned("#EXTINF:");
    s.append(text::i64_text(seconds_of(duration_ms)).as_str());
    s.append(",");
    s.append(title);
    s.append("\n");
    s.append(path);
    s.append("\n");
    proof {
        reveal(track);
    }
    s
}

/// The playlist of a book: a track for each file, in their order.
pub fn build_m3u8(title: &str, files: &[(&str, Option<i64>)]) -> (s: String)
    ensures
        s@ == "#EXTM3U\n"@ + tracks(title@, files@, files@.len()),
{
    let mut s = text::owned("#EXTM3U\n");
    let mut i: usize = 0;
    proof {
        assert(s@ =~= "#EXTM3U\n"@ + tracks(title@, files@, 0));
    }
    while i < files.len()
        invariant
            i <= files@.len(),
            s@ == "#EXTM3U\n"@ + tracks(title@, files@, i as nat),
        decreases files@.len() - i,
    {
        let t = write_track(title, files[i].0, files[i].1);
        let ghost before = s@;
        s.append(t.as_str());
        proof {
            assert(before + t@ =~= "#EXTM3U\n"@ + (tracks(title@, files@, i as nat) + t@));
        }
        i = i + 1;
    }
    s
}

/// Longest suggested file name.
pub const SLUG_CAP: usize = 80;

/// A title as part of a file name.
pub fn simple_filename_slug(title: &str) -> (s: String)
    ensures
        s@ == slug::slug_of(title@, "book"@, SLUG_CAP as nat),
{
    slug::slug(title, "book", SLUG_CAP)
}

/// The name under which a browser saves the playlist.
pub fn playlist_disposition(title: &str) -> (s: String)
    ensures
        s@ == "attachment; filename=\""@ + slug::slug_of(title@, "book"@, SLUG_CAP as nat)
            + ".m3u8\""@,
{
    let mut s = text::owned("attachment; filename=\"");
    s.append(simple_filename_slug(title).as_str());
    s.append(".m3u8\"");
    s
}

/// What a request for a playlist is refused with.
pub open spec fn playlist_refusal(
    book_id: i64,
    title: Option<Seq<char>>,
    file_count: nat,
) -> Option<error::ErrorView> {
    if title is None {
        Some(error::ErrorView::NotFound(error::numbered_text("book"@, book_id as int)))
    } else if file_count == 0 {
        Some(
            error::ErrorView::NotFound(
                error::numbered_text("book"@, book_id as int) + " has no active files"@,
            ),
        )
    } else {
        None
    }
}

/// The playlist of a book, or why there is none: the book is unknown or has
/// no active files.
pub fn books_playlist_m3u8(book_id: i64, title: Option<&str>, files: &[(&str, Option<i64>)]) -> (r:
    Result<String, error::ApiError>)
    ensures
        match r {
            Ok(s) => {
                &&& playlist_refusal(book_id, text::opt_str(title), files@.len()) is None
                &&& s@ == "#EXTM3U\n"@ + tracks(text::opt_str(title)->0, files@, files@.len())
            },
            Err(e) => playlist_refusal(book_id, text::opt_str(title), files@.len()) == Some(e@),
        },
{
    match title {
        None => Err(error::missing("book", book_id)),
        Some(t) => if files.len() == 0 {
            let mut m = error::numbered("book", book_id);
            m.append(" has no active files");
            Err(error::ApiError::NotFound(m))
        } else {
            Ok(build_m3u8(t, files))
        },
    }
}

// ── Laws ───────────────────────────────────────────────────────────
/// A track lasts the whole seconds of its duration: none where it is negative,
/// and -1 where it is unknown.
pub proof fn law_whole_seconds(ms: i64)
    ensures
        track_seconds(None) == -1,
        ms < 0 ==> track_seconds(Some(ms)) == 0,
        ms >= 0 ==> 1000 * track_seconds(Some(ms)) <= ms < 1000 * (track_seconds(Some(ms)) + 1),
{
}

/// A track is two lines: its seconds and the title of the book, and its path.
pub proof fn law_track_lines(title: Seq<char>, path: Seq<char>, duration_ms: Option<i64>)
    ensures
        ({
            let seconds = text::signed_decimal(track_seconds(duration_ms));
            let lines = seq!["#EXTINF:"@ + seconds + ","@ + title, path];
            track(title, path, duration_ms) == lines[0] + "\n"@ + lines[1] + "\n"@
        }),
{
    reveal(track);
}

/// Every file gives one track: the tracks of one more are those before, and its
/// own behind them.
pub proof fn law_track_for_each(title: Seq<char>, files: Seq<(&str, Option<i64>)>, n: nat)
    requires
        n < files.len(),
    ensures
        tracks(title, files, 0) == Seq::<char>::empty(),
        tracks(title, files, n + 1) == tracks(title, files, n) + track(
            title,
            files[n as int].0@,
            files[n as int].1,
        ),
{
}

/// A playlist is refused exactly where the book is unknown or has no file, and
/// the refusal names the book.
pub proof fn law_playlist_given(book_id: i64, title: Seq<char>, file_count: nat)
    ensures
        playlist_refusal(book_id, Some(title), file_count) is None <==> file_count > 0,
        playlist_refusal(book_id, None, file_count) == Some(
            error::ErrorView::NotFound("book"@ + " "@ + text::signed_decimal(book_id as int)),
        ),
        playlist_refusal(book_id, Some(title), 0) == Some(
            error::ErrorView::NotFound(
                "book"@ + " "@ + text::signed_decimal(book_id as int) + " has no active files"@,
            ),
        ),
{
}

/// A suggested file name holds no more than eighty signs of the title's slug.
pub proof fn law_suggested_name(title: Seq<char>)
    ensures
        slug::slug_of(title, "book"@, SLUG_CAP as nat) == slug::slug_of(title, "book"@, 80),
{
}

} // verus!

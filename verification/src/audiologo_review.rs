//! Reviewing candidate cuts: approving, rejecting, and trusting a jingle that
//! has matched often enough.

use crate::audiologo_apply::ApplyCutOutcome;
use crate::error;
use crate::text;
use vstd::prelude::*;

verus! {

/// Matches after which a jingle that was found by silence counts as confirmed.
pub const AUTO_CONFIRM_AFTER_MATCHES: i64 = 5;

/// A review action.
#[derive(Debug)]
pub struct ReviewActionBody {
    /// A note.
    pub note: Option<String>,
}

/// The answer to an approval.
#[derive(Debug, Clone, Copy, PartialEq, Eq, Structural)]
pub struct ApproveResponse {
    /// The candidate.
    pub row_id: i64,
    /// The applied cut.
    pub applied_row_id: i64,
    /// Number of chapters that moved.
    pub chapters_shifted: i64,
    /// Whether the jingle counts as confirmed from now on.
    pub auto_confirmed: bool,
}

/// The answer to a rejection.
#[derive(Debug, Clone, Copy, PartialEq, Eq, Structural)]
pub struct RejectResponse {
    /// The row.
    pub row_id: i64,
}

/// Fails where there is no candidate to approve.
pub fn require_candidate(row_id: i64, found: bool) -> (r: Result<(), error::ApiError>)
    ensures
        found ==> r is Ok,
        !found ==> (r matches Err(e) && e@ == error::ErrorView::NotFound(
            error::numbered_text("no candidate row"@, row_id as int),
        )),
{
    error::ensure_exists(found, "no candidate row", row_id)
}

/// The answer to an approval whose cut was applied.
pub fn approved(row_id: i64, outcome: &ApplyCutOutcome, auto_confirmed: bool) -> (r:
    ApproveResponse)
    ensures
        r == (ApproveResponse {
            row_id,
            applied_row_id: outcome.row_id,
            chapters_shifted: outcome.chapters_shifted,
            auto_confirmed,
        }),
{
    ApproveResponse {
        row_id,
        applied_row_id: outcome.row_id,
        chapters_shifted: outcome.chapters_shifted,
        auto_confirmed,
    }
}

/// What a rejection is refused with. Only a candidate can be rejected.
pub open spec fn reject_refusal(row_id: i64, status: Option<Seq<char>>) -> Option<
    error::ErrorView,
> {
    match status {
        None => Some(
            error::ErrorView::NotFound(error::numbered_text("no row"@, row_id as int)),
        ),
        Some(s) => if s == "applied"@ {
            Some(
                error::ErrorView::BadRequest(
                    error::numbered_text("row"@, row_id as int)
                        + " is already applied; reverse-apply not yet supported"@,
                ),
            )
        } else if s != "candidate"@ {
            Some(
                error::ErrorView::BadRequest(
                    error::numbered_text("row"@, row_id as int) + " is at status='"@ + s
                        + "'; only candidate rows can be rejected"@,
                ),
            )
        } else {
            None
        },
    }
}

/// Decides on a rejection, from the status of the row.
pub fn audiologos_reject(row_id: i64, status: Option<&str>) -> (r: Result<
    RejectResponse,
    error::ApiError,
>)
    ensures
        match r {
            Ok(v) => reject_refusal(row_id, text::opt_str(status)) is None && v.row_id == row_id,
            Err(e) => reject_refusal(row_id, text::opt_str(status)) == Some(e@),
        },
{
    let s = match status {
        Some(s) => s,
        None => {
            return Err(error::missing("no row", row_id));
        },
    };
    if text::same_text(s, "applied") {
        let mut m = error::numbered("row", row_id);
        m.append(" is already applied; reverse-apply not yet supported");
        return Err(error::ApiError::BadRequest(m));
    }
    if !text::same_text(s, "candidate") {
        let mut m = error::numbered("row", row_id);
        m.append(" is at status='");
        m.append(s);
        m.append("'; only candidate rows can be rejected");
        return Err(error::ApiError::BadRequest(m));
    }
    Ok(RejectResponse { row_id })
}

/// Whether a jingle becomes confirmed: it was found by silence and has
/// matched often enough.
pub open spec fn confirms(verified_via: Seq<char>, match_count: i64) -> bool {
    verified_via == "silence"@ && match_count >= AUTO_CONFIRM_AFTER_MATCHES
}

/// How a jingle is verified after an approval, where that changes. None is
/// given where the cut references no jingle.
pub fn maybe_auto_confirm_audiologo(audiologo: Option<(&str, i64)>) -> (r: Option<&'static str>)
    ensures
        match r {
            Some(s) => s@ == "review_confirmed"@ && (audiologo matches Some((via, n)) && confirms(
                via@,
                n,
            )),
            None => audiologo matches Some((via, n)) ==> !confirms(via@, n),
        },
{
    match audiologo {
        Some((via, n)) => if text::same_text(via, "silence") && n >= AUTO_CONFIRM_AFTER_MATCHES {
            Some("review_confirmed")
        } else {
            None
        },
        None => None,
    }
}

/// Confirming is final: what is confirmed does not become confirmed again.
pub proof fn law_confirm_once(match_count: i64)
    ensures
        !confirms("review_confirmed"@, match_count),
{
    reveal_strlit("review_confirmed");
    reveal_strlit("silence");
    assert("review_confirmed"@.len() != "silence"@.len());
}

/// A jingle becomes confirmed exactly from its fifth match on, where silence
/// gave it away.
pub proof fn law_confirmed_from_the_fifth(verified_via: Seq<char>, match_count: i64)
    ensures
        confirms("silence"@, match_count) <==> match_count > 4,
        confirms(verified_via, match_count) ==> verified_via == "silence"@,
{
}

/// Exactly a candidate can be rejected. A row that does not exist is not found,
/// and every other one is a bad request that says where the row stands.
pub proof fn law_only_candidates_are_rejected(row_id: i64, status: Seq<char>)
    ensures
        reject_refusal(row_id, Some(status)) is None <==> status == "candidate"@,
        reject_refusal(row_id, None) == Some(
            error::ErrorView::NotFound("no row"@ + " "@ + text::signed_decimal(row_id as int)),
        ),
        reject_refusal(row_id, Some("applied"@)) == Some(
            error::ErrorView::BadRequest(
                "row"@ + " "@ + text::signed_decimal(row_id as int)
                    + " is already applied; reverse-apply not yet supported"@,
            ),
        ),
        status != "candidate"@ && status != "applied"@ ==> reject_refusal(row_id, Some(status))
            == Some(
            error::ErrorView::BadRequest(
                "row"@ + " "@ + text::signed_decimal(row_id as int) + " is at status='"@ + status
                    + "'; only candidate rows can be rejected"@,
            ),
        ),
{
    reveal_strlit("candidate");
    reveal_strlit("applied");
    assert("candidate"@.len() != "applied"@.len());
}

} // verus!

//! Recording edits that a user made, so that they win over everything that was
//! derived.

use crate::pipeline;
use crate::text;
use vstd::prelude::*;

verus! {

/// Source of a user's edit.
pub const USER_EDIT_SOURCE: &'static str = "user_edit";

/// Stage of a user's edit. No stage of the pipeline has this name, so that no
/// reset touches the edit.
pub const USER_EDIT_STAGE: &'static str = "api-user-edit";

/// Where a value of a field comes from.
#[derive(Debug)]
pub struct ProvenanceRow {
    /// The book.
    pub book_id: i64,
    /// The field.
    pub field: String,
    /// The value.
    pub value: Option<String>,
    /// Source.
    pub source: String,
    /// Stage.
    pub stage: String,
    /// Whether this value stands.
    pub is_winner: bool,
}

/// Whether a row is about a field of a book.
pub open spec fn about(row: ProvenanceRow, book_id: i64, field: Seq<char>) -> bool {
    row.book_id == book_id && row.field@ == field
}

/// A row that no longer stands where it is about the field.
pub open spec fn demoted(row: ProvenanceRow, book_id: i64, field: Seq<char>) -> ProvenanceRow {
    if about(row, book_id, field) {
        ProvenanceRow { is_winner: false, ..row }
    } else {
        row
    }
}

/// Whether a row is the edit of a user.
pub open spec fn user_edit(
    row: ProvenanceRow,
    book_id: i64,
    field: Seq<char>,
    value: Option<Seq<char>>,
) -> bool {
    &&& about(row, book_id, field)
    &&& text::opt_text(row.value) == value
    &&& row.source@ == USER_EDIT_SOURCE@
    &&& row.stage@ == USER_EDIT_STAGE@
    &&& row.is_winner
}

/// Whether `after` are the rows `before` with an edit recorded.
pub open spec fn recorded(
    before: Seq<ProvenanceRow>,
    after: Seq<ProvenanceRow>,
    book_id: i64,
    field: Seq<char>,
    value: Option<Seq<char>>,
) -> bool {
    &&& after.len() == before.len() + 1
    &&& forall|i: int|
        0 <= i < before.len() ==> #[trigger] after[i] == demoted(before[i], book_id, field)
    &&& user_edit(after.last(), book_id, field, value)
}

/// Records an edit: no other value of the field stands any longer.
pub fn record_user_edit(
    rows: &mut Vec<ProvenanceRow>,
    book_id: i64,
    field: &str,
    value: Option<&str>,
)
    ensures
        recorded(old(rows)@, final(rows)@, book_id, field@, text::opt_str(value)),
{
    let mut i: usize = 0;
    while i < rows.len()
        invariant
            i <= rows@.len(),
            rows@.len() == old(rows)@.len(),
            forall|j: int|
                0 <= j < i ==> #[trigger] rows@[j] == demoted(old(rows)@[j], book_id, field@),
            forall|j: int| i <= j < rows@.len() ==> #[trigger] rows@[j] == old(rows)@[j],
        decreases rows@.len() - i,
    {
        if rows[i].book_id == book_id && text::same_text(rows[i].field.as_str(), field) {
            rows[i].is_winner = false;
        }
        i = i + 1;
    }
    rows.push(
        ProvenanceRow {
            book_id,
            field: text::owned(field),
            value: match value {
                Some(v) => Some(text::owned(v)),
                None => None,
            },
            source: text::owned(USER_EDIT_SOURCE),
            stage: text::owned(USER_EDIT_STAGE),
            is_winner: true,
        },
    );
}

/// After an edit exactly one value of the field stands: that of the edit. The
/// values of other fields and books stand as before.
pub proof fn law_edit_wins(
    before: Seq<ProvenanceRow>,
    after: Seq<ProvenanceRow>,
    book_id: i64,
    field: Seq<char>,
    value: Option<Seq<char>>,
    i: int,
)
    requires
        recorded(before, after, book_id, field, value),
        0 <= i < after.len(),
    ensures
        about(after[i], book_id, field) ==> (after[i].is_winner <==> i == after.len() - 1),
        i < before.len() && !about(before[i], book_id, field) ==> after[i] == before[i],
{
    if i < before.len() {
        assert(after[i] == demoted(before[i], book_id, field));
    }
}

/// No stage of the pipeline has the name of a user's edit, whatever is
/// switched on.
pub proof fn law_edit_is_no_stage(switches: pipeline::PipelineSwitches)
    ensures
        !pipeline::stages_of(switches).contains(USER_EDIT_STAGE@),
{
    reveal_strlit("api-user-edit");
    reveal_strlit("tag-read");
    reveal_strlit("fingerprint");
    reveal_strlit("audible-search");
    reveal_strlit("audnexus-enrich");
    reveal_strlit("consensus");
    reveal_strlit("identity-resolve");
    reveal_strlit("audnexus-chapters");
    reveal_strlit("embedded-chapters");
    reveal_strlit("chapter-pick-winner");
    reveal_strlit("transcribe-head-tail");
    reveal_strlit("detect-description-lang");
    reveal_strlit("transcribe-samples");
    reveal_strlit("transcribe-full");
    reveal_strlit("run-transcript-extractors");
    reveal_strlit("extract-dna-tags");
    reveal_strlit("extract-summary-spoiler-free");
    reveal_strlit("extract-story-arc");
    reveal_strlit("extract-characters");
    reveal_strlit("extract-setting");
    reveal_strlit("extract-summary-spoiler-free-series");
    reveal_strlit("transcode-m4b");
    reveal_strlit("tag-write-early");
    reveal_strlit("tag-write-final");
    assert(USER_EDIT_STAGE@[1] == 'p');
    assert forall|i: int| 0 <= i < pipeline::stages_of(switches).len() implies (
    #[trigger] pipeline::stages_of(switches)[i])[1] != 'p' by {}
}

/// An edit adds one row, which stands and says what was edited and by whom.
/// Every other row keeps all but its standing.
pub proof fn law_edit_recorded(
    before: Seq<ProvenanceRow>,
    after: Seq<ProvenanceRow>,
    book_id: i64,
    field: Seq<char>,
    value: Option<Seq<char>>,
)
    requires
        recorded(before, after, book_id, field, value),
    ensures
        after.len() == before.len() + 1,
        after.last().book_id == book_id,
        after.last().field@ == field,
        text::opt_text(after.last().value) == value,
        after.last().source@ == "user_edit"@,
        after.last().stage@ == "api-user-edit"@,
        after.last().is_winner,
        forall|i: int|
            0 <= i < before.len() ==> {
                &&& (#[trigger] after[i]).book_id == before[i].book_id
                &&& after[i].field == before[i].field
                &&& after[i].value == before[i].value
                &&& after[i].source == before[i].source
                &&& after[i].stage == before[i].stage
                &&& after[i].is_winner <==> before[i].is_winner && !(before[i].book_id == book_id
                    && before[i].field@ == field)
            },
{
    assert forall|i: int| 0 <= i < before.len() implies {
        &&& (#[trigger] after[i]).book_id == before[i].book_id
        &&& after[i].field == before[i].field
        &&& after[i].value == before[i].value
        &&& after[i].source == before[i].source
        &&& after[i].stage == before[i].stage
        &&& after[i].is_winner <==> before[i].is_winner && !(before[i].book_id == book_id
            && before[i].field@ == field)
    } by {
        assert(after[i] == demoted(before[i], book_id, field));
    }
}

} // verus!

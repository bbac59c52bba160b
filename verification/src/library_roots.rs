//! The directories that may be scanned: registering, reviving and removing
//! them, and telling whether a path lies under one.

use crate::error;
use crate::paths;
use crate::text;
use vstd::prelude::*;

verus! {

/// A registered directory.
#[derive(Debug)]
pub struct LibraryRoot {
    /// The row.
    pub root_id: i64,
    /// Canonical absolute path.
    pub path: String,
    /// Label.
    pub label: Option<String>,
    /// Time of registration, Unix seconds.
    pub created_at: i64,
}

/// A request to register a directory.
#[derive(Debug)]
pub struct CreateLibraryRootRequest {
    /// The directory.
    pub path: String,
    /// Label.
    pub label: Option<String>,
}

// ── The directory ──────────────────────────────────────────────────

/// The path to look up for a request: trimmed, and not empty.
pub fn requested_path(requested: &str) -> (r: Result<String, error::ApiError>)
    ensures
        match r {
            Ok(p) => p@ == text::trimmed(requested@) && p@.len() > 0,
            Err(e) => text::trimmed(requested@).len() == 0 && e@ == error::ErrorView::BadRequest(
                "path must not be empty"@,
            ),
        },
{
    let p = text::trim(requested);
    if p.as_str().is_empty() {
        Err(error::ApiError::BadRequest(text::owned("path must not be empty")))
    } else {
        Ok(p)
    }
}

/// What the file system says of a path.
#[derive(Debug)]
pub enum PathProbe {
    /// It does not resolve.
    Unresolved {
        /// Why.
        reason: String,
    },
    /// It resolves, but nothing is known of what it resolves to.
    NoMetadata {
        /// The canonical path.
        canonical: String,
        /// Why.
        reason: String,
    },
    /// It resolves to something else than a directory.
    NotADirectory {
        /// The canonical path.
        canonical: String,
    },
    /// It resolves to a directory whose path is not text.
    NotText {
        /// The canonical path as it is displayed.
        canonical: String,
    },
    /// It resolves to a directory.
    Directory {
        /// The canonical path.
        canonical: String,
    },
}

/// The canonical directory, or what the request is refused with.
pub open spec fn canonical_of(trimmed: Seq<char>, probe: PathProbe) -> Result<
    Seq<char>,
    error::ErrorView,
> {
    match probe {
        PathProbe::Unresolved { reason } => Err(
            error::ErrorView::BadRequest(
                "path does not exist or is not readable ("@ + trimmed + "): "@ + reason@,
            ),
        ),
        PathProbe::NoMetadata { canonical, reason } => Err(
            error::ErrorView::BadRequest(
                "cannot stat canonical path "@ + canonical@ + ": "@ + reason@,
            ),
        ),
        PathProbe::NotADirectory { canonical } => Err(
            error::ErrorView::BadRequest("path is not a directory: "@ + canonical@),
        ),
        PathProbe::NotText { canonical } => Err(
            error::ErrorView::BadRequest("path is not valid UTF-8: "@ + canonical@),
        ),
        PathProbe::Directory { canonical } => Ok(canonical@),
    }
}

/// The canonical directory of a request, from what the file system says of
/// the path that was looked up.
pub fn canonicalise_directory(trimmed: &str, probe: PathProbe) -> (r: Result<
    String,
    error::ApiError,
>)
    ensures
        match r {
            Ok(p) => canonical_of(trimmed@, probe) == Ok::<Seq<char>, error::ErrorView>(p@),
            Err(e) => canonical_of(trimmed@, probe) == Err::<Seq<char>, error::ErrorView>(e@),
        },
{
    let m = match probe {
        PathProbe::Directory { canonical } => {
            return Ok(canonical);
        },
        PathProbe::Unresolved { reason } => {
            let mut m = text::owned("path does not exist or is not readable (");
            m.append(trimmed);
            m.append("): ");
            m.append(reason.as_str());
            m
        },
        PathProbe::NoMetadata { canonical, reason } => {
            let mut m = text::owned("cannot stat canonical path ");
            m.append(canonical.as_str());
            m.append(": ");
            m.append(reason.as_str());
            m
        },
        PathProbe::NotADirectory { canonical } => {
            let mut m = text::owned("path is not a directory: ");
            m.append(canonical.as_str());
            m
        },
        PathProbe::NotText { canonical } => {
            let mut m = text::owned("path is not valid UTF-8: ");
            m.append(canonical.as_str());
            m
        },
    };
    Err(error::ApiError::BadRequest(m))
}

// ── Registering ────────────────────────────────────────────────────

/// The stored row that already has a path.
#[derive(Debug, Clone, Copy)]
pub struct ExistingRoot {
    /// The row.
    pub root_id: i64,
    /// One where it is active.
    pub is_active: i64,
    /// Time of registration.
    pub created_at: i64,
}

/// How a directory is registered.
#[derive(Debug)]
pub enum RootPlan {
    /// An inactive row becomes active again, under a new label.
    Revive(LibraryRoot),
    /// A row is inserted.
    Insert {
        /// Canonical absolute path.
        path: String,
        /// Label.
        label: Option<String>,
        /// Time of registration.
        created_at: i64,
    },
}

/// A plan in terms of its texts.
pub enum RootPlanView {
    /// Row, path, label and time of registration.
    Revive(i64, Seq<char>, Option<Seq<char>>, i64),
    /// Path, label and time of registration.
    Insert(Seq<char>, Option<Seq<char>>, i64),
}

impl View for RootPlan {
    type V = RootPlanView;

    open spec fn view(&self) -> RootPlanView {
        match *self {
            RootPlan::Revive(r) => RootPlanView::Revive(
                r.root_id,
                r.path@,
                text::opt_text(r.label),
                r.created_at,
            ),
            RootPlan::Insert { path, label, created_at } => RootPlanView::Insert(
                path@,
                text::opt_text(label),
                created_at,
            ),
        }
    }
}

/// That an active row has the path.
pub open spec fn already_exists(canonical: Seq<char>, root_id: i64) -> Seq<char> {
    "library root "@ + canonical + " already exists (root_id="@ + text::signed_decimal(
        root_id as int,
    ) + ")"@
}

/// How a directory is registered, or why it is not.
pub open spec fn root_plan(
    canonical: Seq<char>,
    label: Option<Seq<char>>,
    existing: Option<ExistingRoot>,
    now: i64,
) -> Result<RootPlanView, error::ErrorView> {
    match existing {
        Some(row) => if row.is_active == 1 {
            Err(error::ErrorView::Conflict(already_exists(canonical, row.root_id)))
        } else {
            Ok(
                RootPlanView::Revive(
                    row.root_id,
                    canonical,
                    text::present(label),
                    row.created_at,
                ),
            )
        },
        None => Ok(RootPlanView::Insert(canonical, text::present(label), now)),
    }
}

/// Decides how a directory is registered: a path that an active row has is a
/// conflict, an inactive row is revived, and otherwise a row is inserted.
pub fn library_roots_create(
    canonical: String,
    label: Option<&str>,
    existing: Option<ExistingRoot>,
    now: i64,
) -> (r: Result<RootPlan, error::ApiError>)
    ensures
        match r {
            Ok(p) => root_plan(canonical@, text::opt_str(label), existing, now) == Ok::<
                RootPlanView,
                error::ErrorView,
            >(p@),
            Err(e) => root_plan(canonical@, text::opt_str(label), existing, now) == Err::<
                RootPlanView,
                error::ErrorView,
            >(e@),
        },
{
    let label = text::present_text(label);
    match existing {
        Some(row) => {
            if row.is_active == 1 {
                let mut m = text::owned("library root ");
                m.append(canonical.as_str());
                m.append(" already exists (root_id=");
                m.append(text::i64_text(row.root_id).as_str());
                m.append(")");
                return Err(error::ApiError::Conflict(m));
            }
            Ok(
                RootPlan::Revive(
                    LibraryRoot {
                        root_id: row.root_id,
                        path: canonical,
                        label,
                        created_at: row.created_at,
                    },
                ),
            )
        },
        None => Ok(RootPlan::Insert { path: canonical, label, created_at: now }),
    }
}

/// Status that answers a registration.
pub open spec fn plan_status(plan: RootPlanView) -> u16 {
    match plan {
        RootPlanView::Revive(_, _, _, _) => 200,
        RootPlanView::Insert(_, _, _) => 201,
    }
}

/// The answer to a registration that was carried out. `inserted_id` is the row
/// that an insertion gave.
pub fn registered(plan: RootPlan, inserted_id: i64) -> (r: (u16, LibraryRoot))
    ensures
        r.0 == plan_status(plan@),
        match plan {
            RootPlan::Revive(root) => r.1 == root,
            RootPlan::Insert { path, label, created_at } => r.1 == (LibraryRoot {
                root_id: inserted_id,
                path,
                label,
                created_at,
            }),
        },
{
    match plan {
        RootPlan::Revive(root) => (200, root),
        RootPlan::Insert { path, label, created_at } => (
            201,
            LibraryRoot { root_id: inserted_id, path, label, created_at },
        ),
    }
}

// ── Removing ───────────────────────────────────────────────────────

/// The answer to a removal: removing an inactive row again is no error,
/// removing an unknown one is.
pub fn library_roots_delete(root_id: i64, rows_affected: u64, exists: bool) -> (r: Result<
    (),
    error::ApiError,
>)
    ensures
        rows_affected > 0 || exists ==> r is Ok,
        rows_affected == 0 && !exists ==> (r matches Err(e) && e@ == error::ErrorView::NotFound(
            error::numbered_text("library_root"@, root_id as int),
        )),
{
    error::ensure_exists(rows_affected > 0 || exists, "library_root", root_id)
}

// ── Checking paths ─────────────────────────────────────────────────

/// Whether a path lies under the `i`th of the roots that still resolve.
pub open spec fn under_root(requested: Seq<char>, roots: Seq<Option<String>>, i: int) -> bool {
    0 <= i < roots.len() && match roots[i] {
        Some(root) => paths::lies_under(requested, root@),
        None => false,
    }
}

/// Whether a canonical path lies under any root. Each root is given as it
/// resolves now, and none where it does not resolve.
pub fn path_is_under_any_root(requested: &str, roots: &Vec<Option<String>>) -> (r: bool)
    ensures
        r == exists|i: int| under_root(requested@, roots@, i),
{
    let mut i: usize = 0;
    while i < roots.len()
        invariant
            i <= roots@.len(),
            forall|j: int| 0 <= j < i ==> !under_root(requested@, roots@, j),
        decreases roots@.len() - i,
    {
        if let Some(root) = &roots[i] {
            if paths::is_under(requested, root.as_str()) {
                proof {
                    assert(under_root(requested@, roots@, i as int));
                }
                return true;
            }
        }
        i = i + 1;
    }
    false
}

// ── Laws ───────────────────────────────────────────────────────────

/// Registering a directory that was removed revives its row: the row and its
/// time of registration stay, and the label is the new one.
pub proof fn law_recreate_revives(
    canonical: Seq<char>,
    label: Option<Seq<char>>,
    row: ExistingRoot,
    now: i64,
)
    requires
        row.is_active != 1,
    ensures
        root_plan(canonical, label, Some(row), now) == Ok::<RootPlanView, error::ErrorView>(
            RootPlanView::Revive(row.root_id, canonical, text::present(label), row.created_at),
        ),
{
}

/// A row is inserted only where no row has the path, so that no path stands
/// in two rows.
pub proof fn law_insert_only_new(
    canonical: Seq<char>,
    label: Option<Seq<char>>,
    existing: Option<ExistingRoot>,
    now: i64,
)
    ensures
        (root_plan(canonical, label, existing, now) matches Ok(p) && p is Insert)
            <==> existing is None,
{
}

/// Only a directory can be registered, and under the path it resolves to.
pub proof fn law_only_directories(asked: Seq<char>, probe: PathProbe)
    ensures
        canonical_of(asked, probe) is Ok <==> probe is Directory,
        probe is Directory ==> canonical_of(asked, probe) == Ok::<Seq<char>, error::ErrorView>(
            probe->Directory_canonical@,
        ),
        canonical_of(asked, probe) is Err ==> canonical_of(asked, probe)->Err_0 is BadRequest,
{
}

/// What is asked for stands in the refusal of a path that does not resolve, and
/// what it resolves to in every other refusal.
pub proof fn law_refused_path_is_named(asked: Seq<char>, canonical: String, reason: String)
    ensures
        canonical_of(asked, PathProbe::Unresolved { reason }) == Err::<
            Seq<char>,
            error::ErrorView,
        >(
            error::ErrorView::BadRequest(
                "path does not exist or is not readable ("@ + asked + "): "@ + reason@,
            ),
        ),
        canonical_of(asked, PathProbe::NoMetadata { canonical, reason }) == Err::<
            Seq<char>,
            error::ErrorView,
        >(
            error::ErrorView::BadRequest(
                "cannot stat canonical path "@ + canonical@ + ": "@ + reason@,
            ),
        ),
        canonical_of(asked, PathProbe::NotADirectory { canonical }) == Err::<
            Seq<char>,
            error::ErrorView,
        >(error::ErrorView::BadRequest("path is not a directory: "@ + canonical@)),
        canonical_of(asked, PathProbe::NotText { canonical }) == Err::<Seq<char>, error::ErrorView>(
            error::ErrorView::BadRequest("path is not valid UTF-8: "@ + canonical@),
        ),
{
}

/// A path that no row has is registered as it is given, at the time given. A
/// blank label is no label, and any other is trimmed.
pub proof fn law_new_directory_is_registered(
    canonical: Seq<char>,
    label: Seq<char>,
    now: i64,
)
    ensures
        root_plan(canonical, None, None, now) == Ok::<RootPlanView, error::ErrorView>(
            RootPlanView::Insert(canonical, None, now),
        ),
        text::trimmed(label).len() == 0 ==> root_plan(canonical, Some(label), None, now) == Ok::<
            RootPlanView,
            error::ErrorView,
        >(RootPlanView::Insert(canonical, None, now)),
        text::trimmed(label).len() > 0 ==> root_plan(canonical, Some(label), None, now) == Ok::<
            RootPlanView,
            error::ErrorView,
        >(RootPlanView::Insert(canonical, Some(text::trimmed(label)), now)),
{
}

/// A path that an active row has is refused, and the refusal names the path
/// and the row.
pub proof fn law_active_directory_conflicts(
    canonical: Seq<char>,
    label: Option<Seq<char>>,
    row: ExistingRoot,
    now: i64,
)
    requires
        row.is_active == 1,
    ensures
        root_plan(canonical, label, Some(row), now) == Err::<RootPlanView, error::ErrorView>(
            error::ErrorView::Conflict(
                "library root "@ + canonical + " already exists (root_id="@ + text::signed_decimal(
                    row.root_id as int,
                ) + ")"@,
            ),
        ),
{
}

/// A new row is answered as created, a revived one as found.
pub proof fn law_registration_status(plan: RootPlanView)
    ensures
        plan_status(plan) == 201 <==> plan is Insert,
        plan_status(plan) == 200 <==> plan is Revive,
{
}

/// A path lies under the roots exactly where it lies under one that still
/// resolves. One root more takes nothing away.
pub proof fn law_under_roots(requested: Seq<char>, roots: Seq<Option<String>>, root: String, i: int)
    ensures
        under_root(requested, roots, i) ==> under_root(requested, roots.push(Some(root)), i),
        under_root(requested, roots.push(Some(root)), roots.len() as int) <==> paths::lies_under(
            requested,
            root@,
        ),
        !under_root(requested, roots.push(None), roots.len() as int),
        i < 0 || i >= roots.len() ==> !under_root(requested, roots, i),
{
}

} // verus!

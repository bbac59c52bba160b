//! Health checks: what each reports for what was found, and the registry by
//! which they are listed and found.

use crate::error;
use crate::text;
use vstd::prelude::*;

verus! {

/// Verdict of a check.
#[derive(Debug, Clone, Copy, PartialEq, Eq, Structural)]
pub enum CheckStatus {
    /// All is well.
    Healthy,
    /// Something deserves a look.
    Warning,
    /// Something is broken.
    Failure,
}

impl CheckStatus {
    /// The verdict as it is written.
    pub open spec fn label_text(self) -> Seq<char> {
        match self {
            CheckStatus::Healthy => "ok"@,
            CheckStatus::Warning => "warning"@,
            CheckStatus::Failure => "failure"@,
        }
    }

    /// The verdict as it is written.
    pub fn label(&self) -> (s: &'static str)
        ensures
            s@ == self.label_text(),
    {
        match self {
            CheckStatus::Healthy => "ok",
            CheckStatus::Warning => "warning",
            CheckStatus::Failure => "failure",
        }
    }
}

/// A finding of a check.
#[derive(Debug)]
pub struct CheckFinding {
    /// How bad it is.
    pub severity: CheckStatus,
    /// What was found.
    pub message: String,
    /// What to do about it.
    pub remediation: Option<String>,
    /// Where to read more.
    pub doc_url: Option<String>,
}

/// What a check reports.
#[derive(Debug)]
pub struct CheckReport {
    /// Verdict.
    pub status: CheckStatus,
    /// One line.
    pub summary: String,
    /// Findings.
    pub details: Vec<CheckFinding>,
}

/// A finding in terms of its texts.
pub struct FindingView {
    /// How bad it is.
    pub severity: CheckStatus,
    /// What was found.
    pub message: Seq<char>,
    /// What to do about it.
    pub remediation: Option<Seq<char>>,
    /// Where to read more.
    pub doc_url: Option<Seq<char>>,
}

impl View for CheckFinding {
    type V = FindingView;

    open spec fn view(&self) -> FindingView {
        FindingView {
            severity: self.severity,
            message: self.message@,
            remediation: text::opt_text(self.remediation),
            doc_url: text::opt_text(self.doc_url),
        }
    }
}

/// A report in terms of its texts.
pub struct ReportView {
    /// Verdict.
    pub status: CheckStatus,
    /// One line.
    pub summary: Seq<char>,
    /// Findings.
    pub details: Seq<FindingView>,
}

impl View for CheckReport {
    type V = ReportView;

    open spec fn view(&self) -> ReportView {
        ReportView {
            status: self.status,
            summary: self.summary@,
            details: Seq::new(self.details@.len(), |i: int| self.details@[i]@),
        }
    }
}

/// A report without findings.
pub open spec fn plain(status: CheckStatus, summary: Seq<char>) -> ReportView {
    ReportView { status, summary, details: Seq::empty() }
}

/// A report with one finding of the same severity.
pub open spec fn with_finding(
    status: CheckStatus,
    summary: Seq<char>,
    message: Seq<char>,
    remediation: Seq<char>,
) -> ReportView {
    ReportView {
        status,
        summary,
        details: seq![
            FindingView {
                severity: status,
                message,
                remediation: Some(remediation),
                doc_url: None,
            },
        ],
    }
}

impl CheckReport {
    fn bare(status: CheckStatus, summary: String) -> (r: CheckReport)
        ensures
            r@ == plain(status, summary@),
    {
        let r = CheckReport { status, summary, details: Vec::new() };
        proof {
            assert(r@.details =~= Seq::empty());
        }
        r
    }

    /// A report that all is well.
    pub fn ok(summary: String) -> (r: CheckReport)
        ensures
            r@ == plain(CheckStatus::Healthy, summary@),
    {
        CheckReport::bare(CheckStatus::Healthy, summary)
    }

    /// A report of something that deserves a look.
    pub fn warn(summary: String) -> (r: CheckReport)
        ensures
            r@ == plain(CheckStatus::Warning, summary@),
    {
        CheckReport::bare(CheckStatus::Warning, summary)
    }

    /// A report of something broken.
    pub fn fail(summary: String) -> (r: CheckReport)
        ensures
            r@ == plain(CheckStatus::Failure, summary@),
    {
        CheckReport::bare(CheckStatus::Failure, summary)
    }

    fn detailed(status: CheckStatus, summary: String, message: String, remediation: &str) -> (r:
        CheckReport)
        ensures
            r@ == with_finding(status, summary@, message@, remediation@),
    {
        let finding = CheckFinding {
            severity: status,
            message,
            remediation: Some(text::owned(remediation)),
            doc_url: None,
        };
        let ghost shown = finding@;
        let mut details: Vec<CheckFinding> = Vec::new();
        details.push(finding);
        let r = CheckReport { status, summary, details };
        proof {
            assert(r@.details =~= seq![shown]);
        }
        r
    }
}

// ── The language model ─────────────────────────────────────────────

/// What the language model says of itself.
#[derive(Debug)]
pub struct LlmStatus {
    /// Whether it can be used.
    pub available: bool,
    /// Why not.
    pub reason: Option<String>,
}

/// Checks the language model.
pub struct LlmCheck;

/// What is reported of the language model.
pub open spec fn llm_report(outcome: Result<LlmStatus, String>) -> ReportView {
    match outcome {
        Ok(status) => if status.available {
            plain(CheckStatus::Healthy, "Foundation Models available"@)
        } else {
            let reason = match text::opt_text(status.reason) {
                Some(s) => s,
                None => "unavailable"@,
            };
            with_finding(
                CheckStatus::Warning,
                "Foundation Models unavailable: "@ + reason,
                reason,
                "Confirm Apple Intelligence is enabled in System Settings → Apple Intelligence & Siri."@,
            )
        },
        Err(why) => with_finding(
            CheckStatus::Failure,
            "Foundation Models bridge unreachable"@,
            why@,
            "Rebuild ab-foundation-models; verify macOS 26 + Apple Silicon."@,
        ),
    }
}

impl LlmCheck {
    /// Name of the check.
    pub fn name(&self) -> (s: &'static str)
        ensures
            s@ == "llm"@,
    {
        "llm"
    }

    /// What it checks.
    pub fn description(&self) -> (s: &'static str)
        ensures
            s@ == "Apple Intelligence Foundation Models availability"@,
    {
        "Apple Intelligence Foundation Models availability"
    }

    /// The report, from what the language model says of itself.
    pub fn run(&self, outcome: Result<LlmStatus, String>) -> (r: CheckReport)
        ensures
            r@ == llm_report(outcome),
    {
        match outcome {
            Ok(status) => {
                if status.available {
                    return CheckReport::ok(text::owned("Foundation Models available"));
                }
                let reason = match status.reason {
                    Some(s) => s,
                    None => text::owned("unavailable"),
                };
                let mut summary = text::owned("Foundation Models unavailable: ");
                summary.append(reason.as_str());
                CheckReport::detailed(
                    CheckStatus::Warning,
                    summary,
                    reason,
                    "Confirm Apple Intelligence is enabled in System Settings → Apple Intelligence & Siri.",
                )
            },
            Err(why) => CheckReport::detailed(
                CheckStatus::Failure,
                text::owned("Foundation Models bridge unreachable"),
                why,
                "Rebuild ab-foundation-models; verify macOS 26 + Apple Silicon.",
            ),
        }
    }
}

// ── Speech ─────────────────────────────────────────────────────────

/// Checks speech recognition.
pub struct SpeechCheck;

/// What is reported of speech recognition.
pub open spec fn speech_report(outcome: Result<String, String>) -> ReportView {
    match outcome {
        Ok(status) => if status@ == "installed"@ {
            plain(CheckStatus::Healthy, "SpeechAnalyzer ready (en-US installed)"@)
        } else {
            plain(CheckStatus::Warning, "SpeechAnalyzer en-US status: "@ + status@)
        },
        Err(why) => with_finding(
            CheckStatus::Failure,
            "SpeechAnalyzer bridge unreachable"@,
            why@,
            "Verify the SpeechAnalyzer Swift FFI builds and macOS supports it."@,
        ),
    }
}

impl SpeechCheck {
    /// Name of the check.
    pub fn name(&self) -> (s: &'static str)
        ensures
            s@ == "speech"@,
    {
        "speech"
    }

    /// What it checks.
    pub fn description(&self) -> (s: &'static str)
        ensures
            s@ == "SpeechAnalyzer availability + per-locale install state"@,
    {
        "SpeechAnalyzer availability + per-locale install state"
    }

    /// The report, from the state of the locale.
    pub fn run(&self, outcome: Result<String, String>) -> (r: CheckReport)
        ensures
            r@ == speech_report(outcome),
    {
        match outcome {
            Ok(status) => {
                if text::same_text(status.as_str(), "installed") {
                    return CheckReport::ok(text::owned("SpeechAnalyzer ready (en-US installed)"));
                }
                let mut summary = text::owned("SpeechAnalyzer en-US status: ");
                summary.append(status.as_str());
                CheckReport::warn(summary)
            },
            Err(why) => CheckReport::detailed(
                CheckStatus::Failure,
                text::owned("SpeechAnalyzer bridge unreachable"),
                why,
                "Verify the SpeechAnalyzer Swift FFI builds and macOS supports it.",
            ),
        }
    }
}

// ── The journal ────────────────────────────────────────────────────

/// Checks for journal entries whose mutation may not have landed.
pub struct JournalCheck;

/// What is reported of the journal.
pub open spec fn journal_report(pending: Result<i64, String>) -> ReportView {
    match pending {
        Ok(n) => if n == 0 {
            plain(CheckStatus::Healthy, "no pending journal rows"@)
        } else {
            with_finding(
                CheckStatus::Warning,
                text::signed_decimal(n as int) + " pending journal row(s)"@,
                text::signed_decimal(n as int)
                    + " operation_journal row(s) in 'pending' state. Normal for an active daemon mid-batch; suspicious after a clean restart."@,
                "If the daemon was restarted, the startup recover_pending pass should have flipped these to 'failed'. Re-check after a clean restart; if the count persists, file an issue with the affected op_kind values."@,
            )
        },
        Err(why) => with_finding(
            CheckStatus::Failure,
            "operation_journal pending count failed"@,
            why@,
            "Inspect ab-db logs; verify the library DB is reachable."@,
        ),
    }
}

impl JournalCheck {
    /// Name of the check.
    pub fn name(&self) -> (s: &'static str)
        ensures
            s@ == "journal"@,
    {
        "journal"
    }

    /// What it checks.
    pub fn description(&self) -> (s: &'static str)
        ensures
            s@ == "operation_journal pending-row count (crash-recovery surface, ADR-0039)"@,
    {
        "operation_journal pending-row count (crash-recovery surface, ADR-0039)"
    }

    /// The report, from the number of pending entries.
    pub fn run(&self, pending: Result<i64, String>) -> (r: CheckReport)
        ensures
            r@ == journal_report(pending),
    {
        match pending {
            Ok(n) => {
                if n == 0 {
                    return CheckReport::ok(text::owned("no pending journal rows"));
                }
                let mut summary = text::i64_text(n);
                summary.append(" pending journal row(s)");
                let mut message = text::i64_text(n);
                message.append(
                    " operation_journal row(s) in 'pending' state. Normal for an active daemon mid-batch; suspicious after a clean restart.",
                );
                CheckReport::detailed(
                    CheckStatus::Warning,
                    summary,
                    message,
                    "If the daemon was restarted, the startup recover_pending pass should have flipped these to 'failed'. Re-check after a clean restart; if the count persists, file an issue with the affected op_kind values.",
                )
            },
            Err(why) => CheckReport::detailed(
                CheckStatus::Failure,
                text::owned("operation_journal pending count failed"),
                why,
                "Inspect ab-db logs; verify the library DB is reachable.",
            ),
        }
    }
}

// ── The registry ───────────────────────────────────────────────────

/// A check as it is listed.
#[derive(Debug, Clone, Copy)]
pub struct DoctorIndexEntry {
    /// Name.
    pub name: &'static str,
    /// What it checks.
    pub description: &'static str,
}

/// The list of checks.
#[derive(Debug)]
pub struct DoctorIndexResponse {
    /// The checks.
    pub checks: Vec<DoctorIndexEntry>,
}

/// A report under the name of its check.
#[derive(Debug)]
pub struct NamedReport {
    /// The check.
    pub name: &'static str,
    /// The report.
    pub report: CheckReport,
}

/// The reports of all checks.
#[derive(Debug)]
pub struct DoctorAllResponse {
    /// The reports.
    pub reports: Vec<NamedReport>,
}

/// The registered checks, in their order.
#[derive(Debug)]
pub struct DoctorRegistry {
    /// The checks.
    pub checks: Vec<DoctorIndexEntry>,
}

impl DoctorRegistry {
    /// A registry of checks.
    pub fn new(checks: Vec<DoctorIndexEntry>) -> (r: DoctorRegistry)
        ensures
            r.checks == checks,
    {
        DoctorRegistry { checks }
    }

    /// The names of the checks.
    pub fn names(&self) -> (v: Vec<&'static str>)
        ensures
            v@.len() == self.checks@.len(),
            forall|i: int| 0 <= i < v@.len() ==> #[trigger] v@[i] == self.checks@[i].name,
    {
        let mut v: Vec<&'static str> = Vec::new();
        let mut i: usize = 0;
        while i < self.checks.len()
            invariant
                i <= self.checks@.len(),
                v@.len() == i,
                forall|j: int| 0 <= j < i ==> #[trigger] v@[j] == self.checks@[j].name,
            decreases self.checks@.len() - i,
        {
            v.push(self.checks[i].name);
            i = i + 1;
        }
        v
    }

    /// Whether the `i`th check is the first of a name.
    pub open spec fn first_named(self, name: Seq<char>, i: int) -> bool {
        &&& 0 <= i < self.checks@.len()
        &&& self.checks@[i].name@ == name
        &&& forall|j: int| 0 <= j < i ==> (#[trigger] self.checks@[j]).name@ != name
    }

    /// Whether any check has a name.
    pub open spec fn has(self, name: Seq<char>) -> bool {
        exists|i: int| 0 <= i < self.checks@.len() && (#[trigger] self.checks@[i]).name@ == name
    }

    /// Position of the first check of a name.
    pub fn get(&self, name: &str) -> (r: Option<usize>)
        ensures
            match r {
                Some(i) => self.first_named(name@, i as int),
                None => !self.has(name@),
            },
    {
        let mut i: usize = 0;
        while i < self.checks.len()
            invariant
                i <= self.checks@.len(),
                forall|j: int| 0 <= j < i ==> (#[trigger] self.checks@[j]).name@ != name@,
            decreases self.checks@.len() - i,
        {
            if text::same_text(self.checks[i].name, name) {
                return Some(i);
            }
            i = i + 1;
        }
        None
    }

    /// The list of checks.
    pub fn doctor_index(&self) -> (r: DoctorIndexResponse)
        ensures
            r.checks@ == self.checks@,
    {
        let mut checks: Vec<DoctorIndexEntry> = Vec::new();
        let mut i: usize = 0;
        while i < self.checks.len()
            invariant
                i <= self.checks@.len(),
                checks@ == self.checks@.take(i as int),
            decreases self.checks@.len() - i,
        {
            checks.push(self.checks[i]);
            i = i + 1;
            proof {
                assert(checks@ =~= self.checks@.take(i as int));
            }
        }
        proof {
            assert(self.checks@.take(i as int) =~= self.checks@);
        }
        DoctorIndexResponse { checks }
    }

    /// Position of the check to run for a name, or that there is none.
    pub fn doctor_one(&self, name: &str) -> (r: Result<usize, error::ApiError>)
        ensures
            match r {
                Ok(i) => self.first_named(name@, i as int),
                Err(e) => !self.has(name@) && e@ == error::ErrorView::NotFound(
                    "doctor check "@ + name@,
                ),
            },
    {
        match self.get(name) {
            Some(i) => Ok(i),
            None => {
                let mut m = text::owned("doctor check ");
                m.append(name);
                Err(error::ApiError::NotFound(m))
            },
        }
    }

    /// The reports of all checks, given in the order of the registry.
    pub fn doctor_all(&self, reports: Vec<CheckReport>) -> (r: DoctorAllResponse)
        requires
            reports@.len() == self.checks@.len(),
        ensures
            r.reports@.len() == reports@.len(),
            forall|i: int|
                0 <= i < reports@.len() ==> (#[trigger] r.reports@[i]).name == self.checks@[i].name
                    && r.reports@[i].report == reports@[i],
    {
        let mut left = reports;
        let mut out: Vec<NamedReport> = Vec::new();
        while left.len() > 0
            invariant
                out@.len() + left@.len() == reports@.len(),
                reports@.len() == self.checks@.len(),
                left@ == reports@.skip(out@.len() as int),
                forall|i: int|
                    0 <= i < out@.len() ==> (#[trigger] out@[i]).name == self.checks@[i].name
                        && out@[i].report == reports@[i],
            decreases left@.len(),
        {
            let i: usize = out.len();
            let report = left.remove(0);
            out.push(NamedReport { name: self.checks[i].name, report });
            proof {
                assert(left@ =~= reports@.skip(out@.len() as int));
            }
        }
        DoctorAllResponse { reports: out }
    }
}

// ── Laws ───────────────────────────────────────────────────────────

/// A check reports a failure exactly where what it asked could not answer.
pub proof fn law_failure_is_unreachable(
    llm: Result<LlmStatus, String>,
    speech: Result<String, String>,
    pending: Result<i64, String>,
)
    ensures
        llm_report(llm).status == CheckStatus::Failure <==> llm is Err,
        speech_report(speech).status == CheckStatus::Failure <==> speech is Err,
        journal_report(pending).status == CheckStatus::Failure <==> pending is Err,
{
}

/// The journal is well exactly where no entry is pending.
pub proof fn law_journal_ok(n: i64)
    ensures
        journal_report(Ok(n)).status == CheckStatus::Healthy <==> n == 0,
{
}

/// Every verdict has its word.
pub proof fn law_verdict_words()
    ensures
        CheckStatus::Healthy.label_text() == "ok"@,
        CheckStatus::Warning.label_text() == "warning"@,
        CheckStatus::Failure.label_text() == "failure"@,
{
}

/// A report has one finding exactly where something was found out; the finding
/// is as bad as the report and says what to do.
pub proof fn law_reports(
    status: CheckStatus,
    summary: Seq<char>,
    message: Seq<char>,
    remediation: Seq<char>,
)
    ensures
        plain(status, summary).status == status,
        plain(status, summary).summary == summary,
        plain(status, summary).details.len() == 0,
        with_finding(status, summary, message, remediation).status == status,
        with_finding(status, summary, message, remediation).summary == summary,
        with_finding(status, summary, message, remediation).details.len() == 1,
        with_finding(status, summary, message, remediation).details[0] == (FindingView {
            severity: status,
            message,
            remediation: Some(remediation),
            doc_url: None,
        }),
{
}

/// The language model is well where it is available. Where it is not, the
/// report gives the reason, and where none is known says that it is
/// unavailable.
pub proof fn law_llm_report(available: LlmStatus, silent: LlmStatus, telling: LlmStatus, why: String)
    requires
        available.available,
        !silent.available && silent.reason is None,
        !telling.available && telling.reason is Some,
    ensures
        llm_report(Ok(available)) == plain(CheckStatus::Healthy, "Foundation Models available"@),
        llm_report(Ok(silent)).status == CheckStatus::Warning,
        llm_report(Ok(silent)).summary == "Foundation Models unavailable: "@ + "unavailable"@,
        llm_report(Ok(silent)).details[0].message == "unavailable"@,
        llm_report(Ok(telling)).status == CheckStatus::Warning,
        llm_report(Ok(telling)).summary == "Foundation Models unavailable: "@
            + telling.reason->0@,
        llm_report(Ok(telling)).details[0].message == telling.reason->0@,
        llm_report(Ok(telling)).details[0].remediation == Some(
            "Confirm Apple Intelligence is enabled in System Settings → Apple Intelligence & Siri."@,
        ),
        llm_report(Err(why)).summary == "Foundation Models bridge unreachable"@,
        llm_report(Err(why)).details[0].message == why@,
        llm_report(Err(why)).details[0].remediation == Some(
            "Rebuild ab-foundation-models; verify macOS 26 + Apple Silicon."@,
        ),
{
}

/// Speech recognition is well exactly where the locale is installed. Any other
/// state is told as it is.
pub proof fn law_speech_report(state: String, why: String)
    ensures
        speech_report(Ok(state)).status == CheckStatus::Healthy <==> state@ == "installed"@,
        state@ == "installed"@ ==> speech_report(Ok(state)).summary
            == "SpeechAnalyzer ready (en-US installed)"@,
        state@ != "installed"@ ==> speech_report(Ok(state)) == plain(
            CheckStatus::Warning,
            "SpeechAnalyzer en-US status: "@ + state@,
        ),
        speech_report(Err(why)).summary == "SpeechAnalyzer bridge unreachable"@,
        speech_report(Err(why)).details[0].message == why@,
        speech_report(Err(why)).details[0].remediation == Some(
            "Verify the SpeechAnalyzer Swift FFI builds and macOS supports it."@,
        ),
{
}

/// Pending entries are a warning that counts them.
pub proof fn law_journal_report(n: i64, why: String)
    requires
        n != 0,
    ensures
        journal_report(Ok(0)) == plain(CheckStatus::Healthy, "no pending journal rows"@),
        journal_report(Ok(n)).status == CheckStatus::Warning,
        journal_report(Ok(n)).summary == text::signed_decimal(n as int)
            + " pending journal row(s)"@,
        journal_report(Ok(n)).details[0].message == text::signed_decimal(n as int)
            + " operation_journal row(s) in 'pending' state. Normal for an active daemon mid-batch; suspicious after a clean restart."@,
        journal_report(Ok(n)).details[0].remediation == Some(
            "If the daemon was restarted, the startup recover_pending pass should have flipped these to 'failed'. Re-check after a clean restart; if the count persists, file an issue with the affected op_kind values."@,
        ),
        journal_report(Err(why)).summary == "operation_journal pending count failed"@,
        journal_report(Err(why)).details[0].message == why@,
        journal_report(Err(why)).details[0].remediation == Some(
            "Inspect ab-db logs; verify the library DB is reachable."@,
        ),
{
}

/// A check is found by its name, and of those of one name the first.
pub proof fn law_check_is_found(r: DoctorRegistry, name: Seq<char>, i: int, k: int)
    requires
        r.first_named(name, i),
    ensures
        r.has(name),
        r.checks@[i].name@ == name,
        0 <= k < r.checks@.len() && r.checks@[k].name@ == name ==> i <= k,
{
    if 0 <= k < i {
        assert(r.checks@[k].name@ != name);
    }
}

/// Exactly the names of the checks are known.
pub proof fn law_known_checks(r: DoctorRegistry, name: Seq<char>, k: int)
    ensures
        0 <= k < r.checks@.len() ==> r.has(r.checks@[k].name@),
        r.checks@.len() == 0 ==> !r.has(name),
{
}

} // verus!

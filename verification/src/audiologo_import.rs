//! Importing a fingerprint export: whether the file can be taken at all.

use crate::text;
use vstd::prelude::*;

verus! {

/// What parsing a document with `serde_json::from_slice` reports: the text of
/// its error, or none where the bytes are one JSON value.
pub uninterp spec fn json_fault(bytes: Seq<u8>) -> Option<Seq<char>>;

/// Calls `serde_json::from_slice` for a `serde_json::Value` and drops the
/// value. Whether it fails, and with which text, is a function of the bytes.
#[verifier::external_body]
fn parse_json(bytes: &Vec<u8>) -> (r: Option<String>)
    ensures
        text::opt_text(r) == json_fault(bytes@),
{
    match serde_json::from_slice::<serde_json::Value>(bytes) {
        Ok(_) => None,
        Err(e) => Some(e.to_string()),
    }
}

/// Why a file is not imported.
#[derive(Debug)]
pub struct ImportFault {
    /// What went wrong.
    pub message: String,
    /// Why, where something below says so.
    pub cause: Option<String>,
}

/// A fault in terms of its texts.
pub struct FaultView {
    /// What went wrong.
    pub message: Seq<char>,
    /// Why, where something below says so.
    pub cause: Option<Seq<char>>,
}

impl View for ImportFault {
    type V = FaultView;

    open spec fn view(&self) -> FaultView {
        FaultView { message: self.message@, cause: text::opt_text(self.cause) }
    }
}

/// The fault of a path where there is no file.
pub open spec fn missing_file(path: Seq<char>) -> FaultView {
    FaultView { message: "import path does not exist: "@ + path, cause: None }
}

/// The outcome for a file of `size` bytes, given what parsing it reported:
/// its size, or that it is no JSON.
pub open spec fn outcome(path: Seq<char>, size: usize, fault: Option<Seq<char>>) -> Result<
    usize,
    FaultView,
> {
    match fault {
        None => Ok(size),
        Some(_) => Err(FaultView { message: "parse JSON: "@ + path, cause: fault }),
    }
}

/// Whether `r` is the outcome `o`.
pub open spec fn is_outcome(
    r: Result<usize, ImportFault>,
    o: Result<usize, FaultView>,
) -> bool {
    match r {
        Ok(n) => o == Ok::<usize, FaultView>(n),
        Err(e) => o == Err::<usize, FaultView>(e@),
    }
}

/// The outcome for a file, given what parsing it reported.
pub fn parsed_import(path: &str, size: usize, fault: Option<String>) -> (r: Result<
    usize,
    ImportFault,
>)
    ensures
        is_outcome(r, outcome(path@, size, text::opt_text(fault))),
{
    match fault {
        None => Ok(size),
        Some(cause) => {
            let mut message = text::owned("parse JSON: ");
            message.append(path);
            Err(ImportFault { message, cause: Some(cause) })
        },
    }
}

/// Checks an export, given its bytes where there is such a file. The size is
/// given where it is JSON.
pub fn check_import(path: &str, bytes: Option<&Vec<u8>>) -> (r: Result<usize, ImportFault>)
    ensures
        match bytes {
            None => r matches Err(e) && e@ == missing_file(path@),
            Some(b) => is_outcome(r, outcome(path@, b@.len() as usize, json_fault(b@))),
        },
{
    match bytes {
        None => {
            let mut message = text::owned("import path does not exist: ");
            message.append(path);
            Err(ImportFault { message, cause: None })
        },
        Some(b) => parsed_import(path, b.len(), parse_json(b)),
    }
}

// ── Laws ───────────────────────────────────────────────────────────
/// A file is taken exactly where parsing reported no fault, and its size is
/// told. A fault keeps what parsing said and names the file.
pub proof fn law_import_outcome(path: Seq<char>, size: usize, fault: Seq<char>)
    ensures
        outcome(path, size, None) == Ok::<usize, FaultView>(size),
        outcome(path, size, Some(fault)) is Err,
        outcome(path, size, Some(fault))->Err_0.message == "parse JSON: "@ + path,
        outcome(path, size, Some(fault))->Err_0.cause == Some(fault),
        missing_file(path).message == "import path does not exist: "@ + path,
        missing_file(path).cause is None,
{
}

/// What came out is the outcome described: the same size, or a fault with the
/// same texts.
pub proof fn law_is_outcome(n: usize, fault: ImportFault, o: Result<usize, FaultView>)
    ensures
        is_outcome(Ok(n), o) <==> o == Ok::<usize, FaultView>(n),
        is_outcome(Err(fault), o) ==> o is Err && o->Err_0.message == fault.message@
            && o->Err_0.cause == text::opt_text(fault.cause),
{
}

} // verus!

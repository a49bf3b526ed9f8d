use vstd::prelude::*;

use crate::text::{decimal_string, decimal_text};

verus! {

broadcast use vstd::string::group_string_axioms;

// ---------------------------------------------------------------------------
// Creating a fresh temporary file under numbered names
// ---------------------------------------------------------------------------

/// How many numbered names are tried before giving up.
pub const TEMPFILE_ATTEMPTS: u32 = 100;

/// What creating the file under one numbered name (exclusively, so that an
/// existing file is never reused) came to.
#[derive(Debug, Clone, Copy, PartialEq, Eq, Structural)]
pub enum CreateOutcome {
    /// The file was created.
    Created,
    /// A file of that name exists already.
    AlreadyExists,
    /// Any other failure.
    Failed,
}

/// What to do after an attempt.
#[derive(Debug, Clone, Copy, PartialEq, Eq, Structural)]
pub enum TempfileStep {
    /// Try the name with this number.
    Try(u32),
    /// Use the file just created.
    Use,
    /// Report the failure of this attempt.
    Fail,
    /// Every numbered name was taken: report that, with the last attempt's
    /// error.
    Exhausted,
}

/// The step after attempt number `attempt` came to `outcome`.
pub open spec fn next_tempfile_step_spec(attempt: u32, outcome: CreateOutcome) -> TempfileStep {
    match outcome {
        CreateOutcome::Created => TempfileStep::Use,
        CreateOutcome::Failed => TempfileStep::Fail,
        CreateOutcome::AlreadyExists => if attempt + 1 < TEMPFILE_ATTEMPTS {
            TempfileStep::Try((attempt + 1) as u32)
        } else {
            TempfileStep::Exhausted
        },
    }
}

/// The first attempt uses the name numbered 0.
pub fn first_tempfile_step() -> (r: TempfileStep)
    ensures
        r == TempfileStep::Try(0),
{
    TempfileStep::Try(0)
}

/// After attempt `attempt`: use a created file, report any failure other
/// than an existing file at once, and on an existing file try the next
/// number, until all `TEMPFILE_ATTEMPTS` numbers were tried.
pub fn next_tempfile_step(attempt: u32, outcome: CreateOutcome) -> (r: TempfileStep)
    requires
        attempt < TEMPFILE_ATTEMPTS,
    ensures
        r == next_tempfile_step_spec(attempt, outcome),
{
    match outcome {
        CreateOutcome::Created => TempfileStep::Use,
        CreateOutcome::Failed => TempfileStep::Fail,
        CreateOutcome::AlreadyExists => {
            if attempt + 1 < TEMPFILE_ATTEMPTS {
                TempfileStep::Try(attempt + 1)
            } else {
                TempfileStep::Exhausted
            }
        },
    }
}

/// Every number tried is below `TEMPFILE_ATTEMPTS` and above the one
/// before, so the attempts end, each with a name not tried yet.
pub proof fn law_tempfile_attempts_advance(attempt: u32, outcome: CreateOutcome)
    requires
        attempt < TEMPFILE_ATTEMPTS,
    ensures
        next_tempfile_step_spec(attempt, outcome) matches TempfileStep::Try(n) ==> attempt < n
            < TEMPFILE_ATTEMPTS,
        next_tempfile_step_spec(attempt, outcome) is Exhausted ==> attempt + 1
            == TEMPFILE_ATTEMPTS,
{
}

// ---------------------------------------------------------------------------
// The numbered names
// ---------------------------------------------------------------------------

/// `saya-import-<pid>-<attempt>.txt`, the name of the file the import
/// candidates are edited in, inside the temporary directory.
pub open spec fn import_tempfile_name_spec(pid: u32, attempt: u32) -> Seq<char> {
    "saya-import-"@ + decimal_text(pid as nat) + "-"@ + decimal_text(attempt as nat) + ".txt"@
}

pub fn import_tempfile_name(pid: u32, attempt: u32) -> (r: String)
    ensures
        r@ == import_tempfile_name_spec(pid, attempt),
{
    let mut r = "saya-import-".to_string();
    r.append(decimal_string(pid).as_str());
    r.append("-");
    r.append(decimal_string(attempt).as_str());
    r.append(".txt");
    r
}

/// `.<file_name>.<pid>.<attempt>.tmp`, the name of the file a new manifest
/// is written to beside the manifest `file_name` before it replaces it.
pub open spec fn manifest_tempfile_name_spec(file_name: Seq<char>, pid: u32, attempt: u32) -> Seq<
    char,
> {
    "."@ + file_name + "."@ + decimal_text(pid as nat) + "."@ + decimal_text(attempt as nat)
        + ".tmp"@
}

pub fn manifest_tempfile_name(file_name: &str, pid: u32, attempt: u32) -> (r: String)
    ensures
        r@ == manifest_tempfile_name_spec(file_name@, pid, attempt),
{
    let mut r = ".".to_string();
    r.append(file_name);
    r.append(".");
    r.append(decimal_string(pid).as_str());
    r.append(".");
    r.append(decimal_string(attempt).as_str());
    r.append(".tmp");
    r
}

} // verus!

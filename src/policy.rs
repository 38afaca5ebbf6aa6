//! The write-path policy: how every persistence outcome is classified, and
//! what the running stage does next.
use vstd::prelude::*;
use crate::text::{contains_text, has_infix};

verus! {

/// The store's words for a missing table.
pub const NO_SUCH_TABLE: &'static str = "no such table";

/// A failed write as the store reports it.
pub struct StoreFailure {
    /// The store refused the row under a uniqueness constraint.
    pub constraint_violation: bool,
    /// The store's message, when it gave one.
    pub message: Option<String>,
}

/// The class of a unit's persistence or decode outcome.
#[derive(Clone, Copy, PartialEq, Eq, Debug)]
pub enum WriteOutcome {
    Inserted,
    Duplicate,
    SchemaMissing,
    Fatal,
    Undecodable,
}

/// What the running stage does after an outcome.
#[derive(Clone, Copy, PartialEq, Eq, Debug)]
pub enum StageAction {
    /// Go on with the next row or unit.
    Continue,
    /// Stop this stage; the schema must be provisioned again.
    AbortStage,
    /// Stop the process with a nonzero status.
    Terminate,
}

/// A uniqueness violation is a duplicate; otherwise a message that names a
/// missing table means the schema is missing; anything else is fatal.
pub open spec fn failure_class(constraint_violation: bool, message: Option<Seq<char>>) -> WriteOutcome {
    if constraint_violation {
        WriteOutcome::Duplicate
    } else {
        match message {
            Some(m) => if has_infix(m, NO_SUCH_TABLE@) {
                WriteOutcome::SchemaMissing
            } else {
                WriteOutcome::Fatal
            },
            None => WriteOutcome::Fatal,
        }
    }
}

pub open spec fn action_for_spec(o: WriteOutcome) -> StageAction {
    match o {
        WriteOutcome::Inserted => StageAction::Continue,
        WriteOutcome::Duplicate => StageAction::Continue,
        WriteOutcome::SchemaMissing => StageAction::AbortStage,
        WriteOutcome::Fatal => StageAction::Terminate,
        WriteOutcome::Undecodable => StageAction::Continue,
    }
}

/// Classifies a failed write.
pub fn classify_failure(f: &StoreFailure) -> (r: WriteOutcome)
    ensures
        r == failure_class(
            f.constraint_violation,
            match f.message {
                Some(m) => Some(m@),
                None => None,
            },
        ),
{
    if f.constraint_violation {
        WriteOutcome::Duplicate
    } else {
        match &f.message {
            Some(m) => if contains_text(m.as_str(), NO_SUCH_TABLE) {
                WriteOutcome::SchemaMissing
            } else {
                WriteOutcome::Fatal
            },
            None => WriteOutcome::Fatal,
        }
    }
}

/// The stage's next step after an outcome: inserts, duplicates and undecodable
/// listings continue, a missing schema aborts the stage, anything else ends
/// the process.
pub fn action_for(o: WriteOutcome) -> (r: StageAction)
    ensures
        r == action_for_spec(o),
{
    match o {
        WriteOutcome::Inserted => StageAction::Continue,
        WriteOutcome::Duplicate => StageAction::Continue,
        WriteOutcome::SchemaMissing => StageAction::AbortStage,
        WriteOutcome::Fatal => StageAction::Terminate,
        WriteOutcome::Undecodable => StageAction::Continue,
    }
}

/// The outcome of one write: success, or the class of its failure.
pub fn write_outcome(result: &Result<(), StoreFailure>) -> (r: WriteOutcome)
    ensures
        match result {
            Ok(_) => r == WriteOutcome::Inserted,
            Err(f) => r == failure_class(
                f.constraint_violation,
                match f.message {
                    Some(m) => Some(m@),
                    None => None,
                },
            ),
        },
{
    match result {
        Ok(_) => WriteOutcome::Inserted,
        Err(f) => classify_failure(f),
    }
}

} // verus!

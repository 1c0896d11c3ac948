//! Per-job results: why a job failed, and what one job's outcome was.
//!
//! Outcomes are isolated: each belongs to exactly one job, tagged with that
//! job's source path, and no job's failure affects any other.

use vstd::prelude::*;

verus! {

/// Why one decryption job failed.
pub enum FailureCause {
    /// The job needs the passphrase credential and none is configured.
    MissingPassphrase,
    /// The job needs the identity credential and none is configured.
    MissingIdentity,
    /// The external engine process could not be started.
    StartFailed(String),
    /// Input or output to the running engine failed.
    IoFailed(String),
    /// The engine exited with a non-zero status; carries its diagnostics.
    EngineFailed(String),
}

/// The mathematical value of a `FailureCause`.
pub enum CauseV {
    MissingPassphrase,
    MissingIdentity,
    StartFailed(Seq<char>),
    IoFailed(Seq<char>),
    EngineFailed(Seq<char>),
}

impl View for FailureCause {
    type V = CauseV;

    open spec fn view(&self) -> CauseV {
        match self {
            FailureCause::MissingPassphrase => CauseV::MissingPassphrase,
            FailureCause::MissingIdentity => CauseV::MissingIdentity,
            FailureCause::StartFailed(m) => CauseV::StartFailed(m@),
            FailureCause::IoFailed(m) => CauseV::IoFailed(m@),
            FailureCause::EngineFailed(m) => CauseV::EngineFailed(m@),
        }
    }
}

/// The result of one decryption job, tagged with its source path.
pub enum DecryptionOutcome {
    /// The job succeeded; carries the destination path of the decrypted file.
    Success { source: String, output: String },
    /// The job failed; carries the cause.
    Failure { source: String, cause: FailureCause },
}

/// The mathematical value of a `DecryptionOutcome`.
pub enum OutcomeV {
    Success { source: Seq<char>, output: Seq<char> },
    Failure { source: Seq<char>, cause: CauseV },
}

impl View for DecryptionOutcome {
    type V = OutcomeV;

    open spec fn view(&self) -> OutcomeV {
        match self {
            DecryptionOutcome::Success { source, output } => OutcomeV::Success {
                source: source@,
                output: output@,
            },
            DecryptionOutcome::Failure { source, cause } => OutcomeV::Failure {
                source: source@,
                cause: cause@,
            },
        }
    }
}

impl OutcomeV {
    /// The source path an outcome is tagged with.
    pub open spec fn source(self) -> Seq<char> {
        match self {
            OutcomeV::Success { source, .. } => source,
            OutcomeV::Failure { source, .. } => source,
        }
    }

    /// Whether the outcome reports a success.
    pub open spec fn is_success(self) -> bool {
        self is Success
    }
}

impl DecryptionOutcome {
    /// The source path this outcome is tagged with.
    pub fn source(&self) -> (r: &String)
        ensures
            r@ == self@.source(),
    {
        match self {
            DecryptionOutcome::Success { source, .. } => source,
            DecryptionOutcome::Failure { source, .. } => source,
        }
    }

    /// Whether this outcome reports a success.
    pub fn is_success(&self) -> (r: bool)
        ensures
            r == self@.is_success(),
    {
        match self {
            DecryptionOutcome::Success { .. } => true,
            DecryptionOutcome::Failure { .. } => false,
        }
    }
}

} // verus!

//! The exact invocations of the two external decryption engines, and the
//! translation of an engine's report into a per-job outcome.
//!
//! The engines themselves are black boxes run by the surrounding binary; this
//! module fixes, argument by argument, what each one is asked to do. The
//! passphrase is delivered over the engine's private input stream, never as a
//! command-line argument, so it cannot leak through process listings.

use vstd::prelude::*;
use vstd::string::StringExecFns;

use crate::file_type::FileType;
use crate::outcome::CauseV;
use crate::outcome::DecryptionOutcome;
use crate::outcome::FailureCause;
use crate::outcome::OutcomeV;
use crate::paths::output_path;
use crate::paths::spec_output_path;

verus! {

/// One invocation of an external decryption engine: the program to run, its
/// arguments in order, and what to write to its standard input, if anything.
pub struct EngineInvocation {
    pub program: String,
    pub args: Vec<String>,
    pub stdin_payload: Option<String>,
}

/// The argument list of the passphrase engine: decrypt mode, explicit output
/// path, non-interactive loopback prompt mode, passphrase read from input
/// stream zero, source path as the final positional argument.
pub open spec fn spec_gpg_args(source: Seq<char>, out: Seq<char>) -> Seq<Seq<char>> {
    seq![
        "--verbose"@,
        "--output"@,
        out,
        "--decrypt"@,
        "--pinentry-mode"@,
        "loopback"@,
        "--passphrase-fd"@,
        "0"@,
        source,
    ]
}

/// The argument list of the identity engine: decrypt mode, explicit identity
/// file, explicit output path, source path as the final positional argument.
pub open spec fn spec_age_args(source: Seq<char>, out: Seq<char>, identity: Seq<char>) -> Seq<
    Seq<char>,
> {
    seq!["--decrypt"@, "--identity"@, identity, "--output"@, out, source]
}

/// Builds the passphrase-engine invocation for one source file. The
/// passphrase travels over the engine's input stream, not in the arguments.
pub fn gpg_invocation(source: &str, output_dir: &str, passphrase: &str) -> (inv: EngineInvocation)
    ensures
        inv.program@ == "gpg"@,
        inv.args.deep_view() == spec_gpg_args(
            source@,
            spec_output_path(source@, FileType::Gpg, output_dir@),
        ),
        inv.stdin_payload matches Some(p) && p@ == passphrase@,
{
    let out = output_path(source, FileType::Gpg, output_dir);
    let mut args: Vec<String> = Vec::new();
    args.push(String::from_str("--verbose"));
    args.push(String::from_str("--output"));
    args.push(out);
    args.push(String::from_str("--decrypt"));
    args.push(String::from_str("--pinentry-mode"));
    args.push(String::from_str("loopback"));
    args.push(String::from_str("--passphrase-fd"));
    args.push(String::from_str("0"));
    args.push(String::from_str(source));
    proof {
        assert(args.deep_view() =~= spec_gpg_args(
            source@,
            spec_output_path(source@, FileType::Gpg, output_dir@),
        ));
    }
    EngineInvocation {
        program: String::from_str("gpg"),
        args,
        stdin_payload: Some(String::from_str(passphrase)),
    }
}

/// Builds the identity-engine invocation for one source file. The identity
/// file path is passed as an argument; nothing is written to its input.
pub fn age_invocation(source: &str, output_dir: &str, identity: &str) -> (inv: EngineInvocation)
    ensures
        inv.program@ == "age"@,
        inv.args.deep_view() == spec_age_args(
            source@,
            spec_output_path(source@, FileType::Age, output_dir@),
            identity@,
        ),
        inv.stdin_payload is None,
{
    let out = output_path(source, FileType::Age, output_dir);
    let mut args: Vec<String> = Vec::new();
    args.push(String::from_str("--decrypt"));
    args.push(String::from_str("--identity"));
    args.push(String::from_str(identity));
    args.push(String::from_str("--output"));
    args.push(out);
    args.push(String::from_str(source));
    proof {
        assert(args.deep_view() =~= spec_age_args(
            source@,
            spec_output_path(source@, FileType::Age, output_dir@),
            identity@,
        ));
    }
    EngineInvocation { program: String::from_str("age"), args, stdin_payload: None }
}

/// What happened when an external engine was run for one file, as the
/// surrounding binary observed it.
pub enum EngineReport {
    /// The engine process could not be started.
    StartFailed(String),
    /// Writing the credential to the engine, or waiting for it, failed.
    IoFailed(String),
    /// The engine ran to completion: whether it exited successfully, and
    /// what it wrote to its diagnostic stream.
    Exited { success: bool, stderr: String },
}

/// The mathematical value of an `EngineReport`.
pub enum ReportV {
    StartFailed(Seq<char>),
    IoFailed(Seq<char>),
    Exited { success: bool, stderr: Seq<char> },
}

impl View for EngineReport {
    type V = ReportV;

    open spec fn view(&self) -> ReportV {
        match self {
            EngineReport::StartFailed(m) => ReportV::StartFailed(m@),
            EngineReport::IoFailed(m) => ReportV::IoFailed(m@),
            EngineReport::Exited { success, stderr } => ReportV::Exited {
                success: *success,
                stderr: stderr@,
            },
        }
    }
}

/// The outcome one engine report yields for a job: success with the
/// destination path exactly when the engine exited successfully, and the
/// matching failure cause otherwise.
pub open spec fn spec_report_outcome(source: Seq<char>, out: Seq<char>, r: ReportV) -> OutcomeV {
    match r {
        ReportV::StartFailed(m) => OutcomeV::Failure { source, cause: CauseV::StartFailed(m) },
        ReportV::IoFailed(m) => OutcomeV::Failure { source, cause: CauseV::IoFailed(m) },
        ReportV::Exited { success, stderr } => if success {
            OutcomeV::Success { source, output: out }
        } else {
            OutcomeV::Failure { source, cause: CauseV::EngineFailed(stderr) }
        },
    }
}

/// Turns an engine's report on `source` into that job's outcome, tagged with
/// the source path and carrying the destination path on success.
pub fn report_outcome(source: &str, ft: FileType, output_dir: &str, report: &EngineReport) -> (o:
    DecryptionOutcome)
    ensures
        o@ == spec_report_outcome(source@, spec_output_path(source@, ft, output_dir@), report@),
{
    match report {
        EngineReport::StartFailed(m) => DecryptionOutcome::Failure {
            source: String::from_str(source),
            cause: FailureCause::StartFailed(m.clone()),
        },
        EngineReport::IoFailed(m) => DecryptionOutcome::Failure {
            source: String::from_str(source),
            cause: FailureCause::IoFailed(m.clone()),
        },
        EngineReport::Exited { success, stderr } => if *success {
            DecryptionOutcome::Success {
                source: String::from_str(source),
                output: output_path(source, ft, output_dir),
            }
        } else {
            DecryptionOutcome::Failure {
                source: String::from_str(source),
                cause: FailureCause::EngineFailed(stderr.clone()),
            }
        },
    }
}

} // verus!

//! Classification-and-dispatch orchestration.
//!
//! From the regular files of the source directory, the orchestrator builds
//! one job per classifiable file, selects the credential each job needs,
//! and routes each job to its engine. A job whose credential is not
//! configured fails before any engine is invoked; every job yields exactly
//! one outcome, and no outcome affects a sibling job. The surrounding binary
//! enumerates the directory, runs the engine processes, and fans the jobs
//! out over its worker pool; every decision it acts on is taken here.

use vstd::prelude::*;

use crate::engine::age_invocation;
use crate::engine::gpg_invocation;
use crate::engine::spec_age_args;
use crate::engine::spec_gpg_args;
use crate::engine::spec_report_outcome;
use crate::engine::report_outcome;
use crate::engine::EngineInvocation;
use crate::engine::EngineReport;
use crate::engine::ReportV;
use crate::file_type::FileType;
use crate::outcome::CauseV;
use crate::outcome::DecryptionOutcome;
use crate::outcome::FailureCause;
use crate::outcome::OutcomeV;
use crate::paths::spec_output_path;

verus! {

/// One scheduled decryption: a source file path paired with its recognized
/// container format. Created at scan time, consumed by exactly one worker.
pub struct DecryptionJob {
    pub path: String,
    pub file_type: FileType,
}

impl View for DecryptionJob {
    type V = (Seq<char>, FileType);

    open spec fn view(&self) -> (Seq<char>, FileType) {
        (self.path@, self.file_type)
    }
}

/// The job list a sequence of file paths yields: one job per classifiable
/// path, in scan order, paired with its format; other paths yield none.
pub open spec fn spec_jobs_of(paths: Seq<Seq<char>>) -> Seq<(Seq<char>, FileType)>
    decreases paths.len(),
{
    if paths.len() == 0 {
        Seq::empty()
    } else {
        let rest = spec_jobs_of(paths.drop_last());
        match FileType::spec_from_path(paths.last()) {
            Some(ft) => rest.push((paths.last(), ft)),
            None => rest,
        }
    }
}

/// How many of the paths are classifiable.
pub open spec fn spec_classifiable_count(paths: Seq<Seq<char>>) -> nat
    decreases paths.len(),
{
    if paths.len() == 0 {
        0
    } else {
        spec_classifiable_count(paths.drop_last()) + if FileType::spec_from_path(
            paths.last(),
        ) is Some {
            1nat
        } else {
            0nat
        }
    }
}

/// Builds the job list from the paths of the regular files found in the
/// source directory: exactly the classifiable ones become jobs, in order.
pub fn build_jobs(paths: &Vec<String>) -> (jobs: Vec<DecryptionJob>)
    ensures
        jobs@.map_values(|j: DecryptionJob| j@) == spec_jobs_of(paths.deep_view()),
{
    let ghost all = paths.deep_view();
    let mut jobs: Vec<DecryptionJob> = Vec::new();
    let mut i: usize = 0;
    while i < paths.len()
        invariant
            i <= paths.len(),
            all == paths.deep_view(),
            all.len() == paths@.len(),
            jobs@.map_values(|j: DecryptionJob| j@) == spec_jobs_of(all.take(i as int)),
        decreases paths.len() - i,
    {
        let ghost prefix = all.take(i as int);
        match FileType::from_path(paths[i].as_str()) {
            Some(ft) => {
                let job = DecryptionJob { path: paths[i].clone(), file_type: ft };
                jobs.push(job);
            },
            None => {},
        }
        proof {
            assert(all.take(i + 1).drop_last() =~= prefix);
            assert(all.take(i + 1).last() == all[i as int]);
            assert(all[i as int] == paths@[i as int]@);
            assert(jobs@.map_values(|j: DecryptionJob| j@) =~= spec_jobs_of(all.take(i + 1)));
        }
        i = i + 1;
    }
    proof {
        assert(all.take(paths@.len() as int) =~= all);
    }
    jobs
}

/// Law: a scan with some classifiable and some unclassifiable files yields
/// exactly one job per classifiable file — the unclassifiable ones are
/// ignored without error — and each job carries the path it came from
/// together with that path's own format.
pub proof fn lemma_job_count(paths: Seq<Seq<char>>)
    ensures
        spec_jobs_of(paths).len() == spec_classifiable_count(paths),
        forall|k: int|
            0 <= k < spec_jobs_of(paths).len() ==> FileType::spec_from_path(
                #[trigger] spec_jobs_of(paths)[k].0,
            ) == Some(spec_jobs_of(paths)[k].1),
    decreases paths.len(),
{
    if paths.len() > 0 {
        lemma_job_count(paths.drop_last());
    }
}

/// What a worker decides to do for one job, before any process is spawned.
pub enum JobStep {
    /// The job needs the passphrase credential and none is configured: the
    /// job fails here, and no engine is invoked.
    MissingPassphrase,
    /// The job needs the identity credential and none is configured: the
    /// job fails here, and no engine is invoked.
    MissingIdentity,
    /// The engine invocation to run for this job.
    Invoke(EngineInvocation),
}

/// Selects the backend for one job and builds its engine invocation, or
/// fails the job when the credential its format requires is not configured.
pub fn prepare_job(
    job: &DecryptionJob,
    output_dir: &str,
    passphrase: &Option<String>,
    identity: &Option<String>,
) -> (step: JobStep)
    ensures
        job.file_type == FileType::Gpg && passphrase is None ==> step is MissingPassphrase,
        job.file_type == FileType::Age && identity is None ==> step is MissingIdentity,
        job.file_type == FileType::Gpg && passphrase is Some ==> (step matches JobStep::Invoke(inv)
            && inv.program@ == "gpg"@ && inv.args.deep_view() == spec_gpg_args(
            job.path@,
            spec_output_path(job.path@, FileType::Gpg, output_dir@),
        ) && (inv.stdin_payload matches Some(s) && s@ == passphrase->0@)),
        job.file_type == FileType::Age && identity is Some ==> (step matches JobStep::Invoke(inv)
            && inv.program@ == "age"@ && inv.args.deep_view() == spec_age_args(
            job.path@,
            spec_output_path(job.path@, FileType::Age, output_dir@),
            identity->0@,
        ) && inv.stdin_payload is None),
{
    match job.file_type {
        FileType::Gpg => match passphrase {
            Some(p) => JobStep::Invoke(gpg_invocation(job.path.as_str(), output_dir, p.as_str())),
            None => JobStep::MissingPassphrase,
        },
        FileType::Age => match identity {
            Some(id) => JobStep::Invoke(age_invocation(job.path.as_str(), output_dir, id.as_str())),
            None => JobStep::MissingIdentity,
        },
    }
}

/// The outcome one job ends in, given the credentials and — only where an
/// engine is actually invoked — the engine's report.
pub open spec fn spec_job_outcome(
    job: (Seq<char>, FileType),
    output_dir: Seq<char>,
    passphrase: Option<Seq<char>>,
    identity: Option<Seq<char>>,
    report: ReportV,
) -> OutcomeV {
    match job.1 {
        FileType::Gpg => if passphrase is None {
            OutcomeV::Failure { source: job.0, cause: CauseV::MissingPassphrase }
        } else {
            spec_report_outcome(job.0, spec_output_path(job.0, FileType::Gpg, output_dir), report)
        },
        FileType::Age => if identity is None {
            OutcomeV::Failure { source: job.0, cause: CauseV::MissingIdentity }
        } else {
            spec_report_outcome(job.0, spec_output_path(job.0, FileType::Age, output_dir), report)
        },
    }
}

/// The outcome of a job that failed before any engine was invoked.
pub fn failed_outcome(job: &DecryptionJob, cause: FailureCause) -> (o: DecryptionOutcome)
    ensures
        o@ == (OutcomeV::Failure { source: job.path@, cause: cause@ }),
{
    DecryptionOutcome::Failure { source: job.path.clone(), cause }
}

/// Concludes one job from its engine's report: the outcome the worker
/// reports for it, tagged with the job's source path.
pub fn finish_job(job: &DecryptionJob, output_dir: &str, report: &EngineReport) -> (o:
    DecryptionOutcome)
    ensures
        o@ == spec_report_outcome(
            job.path@,
            spec_output_path(job.path@, job.file_type, output_dir@),
            report@,
        ),
{
    report_outcome(job.path.as_str(), job.file_type, output_dir, report)
}

/// The outcome list of dispatching a job list: one outcome per job, in job
/// order, each taken independently from that job's credential check and
/// engine report.
pub open spec fn spec_dispatch(
    jobs: Seq<(Seq<char>, FileType)>,
    output_dir: Seq<char>,
    passphrase: Option<Seq<char>>,
    identity: Option<Seq<char>>,
    reports: Seq<ReportV>,
) -> Seq<OutcomeV> {
    Seq::new(jobs.len(), |i: int| spec_job_outcome(jobs[i], output_dir, passphrase, identity, reports[i]))
}

/// Dispatches every job against the given per-job engine reports, yielding
/// one outcome per job in job order. `reports[i]` stands for what the
/// engine would report for job `i`; it is ignored for a job whose
/// credential is missing, since no engine is invoked for it.
pub fn dispatch_jobs(
    jobs: &Vec<DecryptionJob>,
    output_dir: &str,
    passphrase: &Option<String>,
    identity: &Option<String>,
    reports: &Vec<EngineReport>,
) -> (outcomes: Vec<DecryptionOutcome>)
    requires
        reports@.len() == jobs@.len(),
    ensures
        outcomes@.map_values(|o: DecryptionOutcome| o@) == spec_dispatch(
            jobs@.map_values(|j: DecryptionJob| j@),
            output_dir@,
            passphrase.deep_view(),
            identity.deep_view(),
            reports@.map_values(|r: EngineReport| r@),
        ),
{
    let mut outcomes: Vec<DecryptionOutcome> = Vec::new();
    let mut i: usize = 0;
    while i < jobs.len()
        invariant
            i <= jobs.len(),
            reports@.len() == jobs@.len(),
            outcomes@.len() == i,
            forall|k: int|
                0 <= k < i ==> (#[trigger] outcomes@[k])@ == spec_job_outcome(
                    jobs@[k]@,
                    output_dir@,
                    passphrase.deep_view(),
                    identity.deep_view(),
                    reports@[k]@,
                ),
        decreases jobs.len() - i,
    {
        let step = prepare_job(&jobs[i], output_dir, passphrase, identity);
        let outcome = match step {
            JobStep::MissingPassphrase => failed_outcome(&jobs[i], FailureCause::MissingPassphrase),
            JobStep::MissingIdentity => failed_outcome(&jobs[i], FailureCause::MissingIdentity),
            JobStep::Invoke(_inv) => finish_job(&jobs[i], output_dir, &reports[i]),
        };
        outcomes.push(outcome);
        i = i + 1;
    }
    proof {
        assert(outcomes@.map_values(|o: DecryptionOutcome| o@) =~= spec_dispatch(
            jobs@.map_values(|j: DecryptionJob| j@),
            output_dir@,
            passphrase.deep_view(),
            identity.deep_view(),
            reports@.map_values(|r: EngineReport| r@),
        ));
    }
    outcomes
}

/// The outcome list of a whole run over the scanned file paths: the job
/// list the paths yield, dispatched.
pub open spec fn spec_run(
    paths: Seq<Seq<char>>,
    output_dir: Seq<char>,
    passphrase: Option<Seq<char>>,
    identity: Option<Seq<char>>,
    reports: Seq<ReportV>,
) -> Seq<OutcomeV> {
    spec_dispatch(spec_jobs_of(paths), output_dir, passphrase, identity, reports)
}

/// One whole orchestration run over the scanned file paths: classify,
/// build the job list, dispatch. Yields one outcome per job; an empty
/// result means no classifiable file was found, which is a success.
pub fn run_batch(
    paths: &Vec<String>,
    output_dir: &str,
    passphrase: &Option<String>,
    identity: &Option<String>,
    reports: &Vec<EngineReport>,
) -> (outcomes: Vec<DecryptionOutcome>)
    requires
        reports@.len() == spec_jobs_of(paths.deep_view()).len(),
    ensures
        outcomes@.map_values(|o: DecryptionOutcome| o@) == spec_run(
            paths.deep_view(),
            output_dir@,
            passphrase.deep_view(),
            identity.deep_view(),
            reports@.map_values(|r: EngineReport| r@),
        ),
{
    let jobs = build_jobs(paths);
    dispatch_jobs(&jobs, output_dir, passphrase, identity, reports)
}

/// Law: scanning an empty directory yields zero jobs, and the run yields no
/// per-job outcome at all — a no-op success.
pub proof fn lemma_empty_run(
    output_dir: Seq<char>,
    passphrase: Option<Seq<char>>,
    identity: Option<Seq<char>>,
)
    ensures
        spec_jobs_of(Seq::<Seq<char>>::empty()) == Seq::<(Seq<char>, FileType)>::empty(),
        spec_run(Seq::<Seq<char>>::empty(), output_dir, passphrase, identity, Seq::<ReportV>::empty())
            == Seq::<OutcomeV>::empty(),
{
    assert(spec_run(
        Seq::<Seq<char>>::empty(),
        output_dir,
        passphrase,
        identity,
        Seq::<ReportV>::empty(),
    ) =~= Seq::<OutcomeV>::empty());
}

/// Law: a passphrase-type job with no passphrase configured always fails
/// with the missing-credential cause, and no engine is ever invoked for it:
/// its outcome is the same whatever any engine would have reported.
pub proof fn lemma_missing_passphrase(
    jobs: Seq<(Seq<char>, FileType)>,
    output_dir: Seq<char>,
    identity: Option<Seq<char>>,
    reports: Seq<ReportV>,
    other_reports: Seq<ReportV>,
    i: int,
)
    requires
        0 <= i < jobs.len(),
        jobs[i].1 == FileType::Gpg,
        reports.len() == jobs.len(),
        other_reports.len() == jobs.len(),
    ensures
        spec_dispatch(jobs, output_dir, None, identity, reports)[i] == (OutcomeV::Failure {
            source: jobs[i].0,
            cause: CauseV::MissingPassphrase,
        }),
        spec_dispatch(jobs, output_dir, None, identity, reports)[i] == spec_dispatch(
            jobs,
            output_dir,
            None,
            identity,
            other_reports,
        )[i],
{
}

/// Law: dispatching a job list yields exactly one outcome per job, each
/// tagged with its own job's source path; when the jobs' source paths are
/// pairwise distinct, so are the outcome tags, whatever the engines report.
pub proof fn lemma_outcome_tags(
    jobs: Seq<(Seq<char>, FileType)>,
    output_dir: Seq<char>,
    passphrase: Option<Seq<char>>,
    identity: Option<Seq<char>>,
    reports: Seq<ReportV>,
)
    requires
        reports.len() == jobs.len(),
        forall|i: int, j: int|
            0 <= i < jobs.len() && 0 <= j < jobs.len() && i != j ==> jobs[i].0 != jobs[j].0,
    ensures
        spec_dispatch(jobs, output_dir, passphrase, identity, reports).len() == jobs.len(),
        forall|i: int|
            0 <= i < jobs.len() ==> #[trigger] spec_dispatch(
                jobs,
                output_dir,
                passphrase,
                identity,
                reports,
            )[i].source() == jobs[i].0,
        forall|i: int, j: int|
            0 <= i < jobs.len() && 0 <= j < jobs.len() && i != j ==> spec_dispatch(
                jobs,
                output_dir,
                passphrase,
                identity,
                reports,
            )[i].source() != spec_dispatch(jobs, output_dir, passphrase, identity, reports)[j].source(),
{
    assert forall|i: int| 0 <= i < jobs.len() implies #[trigger] spec_dispatch(
        jobs,
        output_dir,
        passphrase,
        identity,
        reports,
    )[i].source() == jobs[i].0 by {
        let o = spec_job_outcome(jobs[i], output_dir, passphrase, identity, reports[i]);
        assert(o.source() == jobs[i].0);
    }
}

/// Every job's source path is one of the scanned paths it was built from.
proof fn lemma_job_paths_from_scan(paths: Seq<Seq<char>>)
    ensures
        forall|k: int|
            0 <= k < spec_jobs_of(paths).len() ==> paths.contains(
                #[trigger] spec_jobs_of(paths)[k].0,
            ),
    decreases paths.len(),
{
    if paths.len() > 0 {
        let rest = paths.drop_last();
        lemma_job_paths_from_scan(rest);
        let jobs = spec_jobs_of(paths);
        let jr = spec_jobs_of(rest);
        assert forall|k: int| 0 <= k < jobs.len() implies paths.contains(
            #[trigger] jobs[k].0,
        ) by {
            if k < jr.len() {
                assert(jobs[k] == jr[k]);
                let i = choose|i: int| 0 <= i < rest.len() && rest[i] == jr[k].0;
                assert(paths[i] == jr[k].0);
            } else {
                assert(jobs[k].0 == paths.last());
                assert(paths[paths.len() - 1] == paths.last());
            }
        }
    }
}

/// Scanned paths that are pairwise distinct yield jobs whose source paths
/// are pairwise distinct.
proof fn lemma_job_paths_distinct(paths: Seq<Seq<char>>)
    requires
        forall|i: int, j: int|
            0 <= i < paths.len() && 0 <= j < paths.len() && i != j ==> paths[i] != paths[j],
    ensures
        forall|k: int, l: int|
            0 <= k < spec_jobs_of(paths).len() && 0 <= l < spec_jobs_of(paths).len() && k != l
                ==> spec_jobs_of(paths)[k].0 != spec_jobs_of(paths)[l].0,
    decreases paths.len(),
{
    if paths.len() > 0 {
        let rest = paths.drop_last();
        assert(forall|i: int, j: int|
            0 <= i < rest.len() && 0 <= j < rest.len() && i != j ==> rest[i] != rest[j]);
        lemma_job_paths_distinct(rest);
        lemma_job_paths_from_scan(rest);
        let jobs = spec_jobs_of(paths);
        let jr = spec_jobs_of(rest);
        assert forall|k: int, l: int|
            0 <= k < jobs.len() && 0 <= l < jobs.len() && k != l implies jobs[k].0
            != jobs[l].0 by {
            if k < jr.len() && l < jr.len() {
                assert(jobs[k] == jr[k] && jobs[l] == jr[l]);
            } else {
                // One of the two is the job of the last path; the other's
                // path is one of the earlier, all distinct from the last.
                let m = if k < jr.len() {
                    k
                } else {
                    l
                };
                assert(jobs[m] == jr[m]);
                let i = choose|i: int| 0 <= i < rest.len() && rest[i] == jr[m].0;
                assert(paths[i] == jr[m].0);
                assert(paths[i] != paths[paths.len() - 1]);
            }
        }
    }
}

/// Law: a run over pairwise-distinct scanned paths — and the entries of one
/// directory are pairwise distinct — yields exactly one outcome per job,
/// each tagged with its own job's source path, and the tags are pairwise
/// distinct, whatever the engines report.
pub proof fn lemma_run_outcome_tags(
    paths: Seq<Seq<char>>,
    output_dir: Seq<char>,
    passphrase: Option<Seq<char>>,
    identity: Option<Seq<char>>,
    reports: Seq<ReportV>,
)
    requires
        reports.len() == spec_jobs_of(paths).len(),
        forall|i: int, j: int|
            0 <= i < paths.len() && 0 <= j < paths.len() && i != j ==> paths[i] != paths[j],
    ensures
        spec_run(paths, output_dir, passphrase, identity, reports).len() == spec_jobs_of(
            paths,
        ).len(),
        forall|k: int|
            0 <= k < spec_jobs_of(paths).len() ==> #[trigger] spec_run(
                paths,
                output_dir,
                passphrase,
                identity,
                reports,
            )[k].source() == spec_jobs_of(paths)[k].0,
        forall|k: int, l: int|
            0 <= k < spec_jobs_of(paths).len() && 0 <= l < spec_jobs_of(paths).len() && k != l
                ==> spec_run(paths, output_dir, passphrase, identity, reports)[k].source()
                != spec_run(paths, output_dir, passphrase, identity, reports)[l].source(),
{
    lemma_job_paths_distinct(paths);
    lemma_outcome_tags(spec_jobs_of(paths), output_dir, passphrase, identity, reports);
}

} // verus!

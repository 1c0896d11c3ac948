use decrypt_files::engine::age_invocation;
use decrypt_files::engine::gpg_invocation;
use decrypt_files::engine::EngineReport;
use decrypt_files::orchestrator::build_jobs;
use decrypt_files::orchestrator::dispatch_jobs;
use decrypt_files::orchestrator::finish_job;
use decrypt_files::orchestrator::prepare_job;
use decrypt_files::orchestrator::run_batch;
use decrypt_files::orchestrator::DecryptionJob;
use decrypt_files::orchestrator::JobStep;
use decrypt_files::outcome::DecryptionOutcome;
use decrypt_files::outcome::FailureCause;
use decrypt_files::paths::file_name;
use decrypt_files::paths::join_path;
use decrypt_files::paths::output_path;
use decrypt_files::paths::strip_format_suffix;
use decrypt_files::FileType;

fn ok_report() -> EngineReport {
    EngineReport::Exited { success: true, stderr: String::new() }
}

#[test]
fn output_name_strips_the_format_suffix() {
    assert_eq!(strip_format_suffix("report.txt.gpg", FileType::Gpg), "report.txt");
    assert_eq!(strip_format_suffix("notes.age", FileType::Age), "notes");
    assert_eq!(strip_format_suffix("plain", FileType::Gpg), "plain");
    assert_eq!(strip_format_suffix("a.gpg", FileType::Age), "a.gpg");
    // The suffix comes off once, so twin sources keep distinct destinations.
    assert_eq!(strip_format_suffix("double.age.age", FileType::Age), "double.age");
    assert_eq!(strip_format_suffix("x.gpg.gpg", FileType::Gpg), "x.gpg");
}

#[test]
fn join_path_inserts_exactly_one_separator() {
    assert_eq!(join_path("out", "a"), "out/a");
    assert_eq!(join_path("out/", "a"), "out/a");
    assert_eq!(join_path("", "a"), "a");
}

#[test]
fn output_path_is_the_stripped_name_under_the_output_dir() {
    assert_eq!(output_path("in/report.txt.gpg", FileType::Gpg, "out"), "out/report.txt");
    assert_eq!(output_path("b.age", FileType::Age, "dest/"), "dest/b");
    assert_eq!(file_name("in/sub.dir/report.gpg"), "report.gpg");
}

#[test]
fn gpg_invocation_arguments_are_exact() {
    let inv = gpg_invocation("in/a.gpg", "out", "secret");
    assert_eq!(inv.program, "gpg");
    assert_eq!(
        inv.args,
        vec![
            "--verbose",
            "--output",
            "out/a",
            "--decrypt",
            "--pinentry-mode",
            "loopback",
            "--passphrase-fd",
            "0",
            "in/a.gpg",
        ]
    );
    assert_eq!(inv.stdin_payload.as_deref(), Some("secret"));
}

#[test]
fn age_invocation_arguments_are_exact() {
    let inv = age_invocation("in/b.age", "out", "keys/id.txt");
    assert_eq!(inv.program, "age");
    assert_eq!(
        inv.args,
        vec!["--decrypt", "--identity", "keys/id.txt", "--output", "out/b", "in/b.age"]
    );
    assert!(inv.stdin_payload.is_none());
}

#[test]
fn empty_scan_yields_no_jobs_and_no_outcomes() {
    let paths: Vec<String> = Vec::new();
    let jobs = build_jobs(&paths);
    assert_eq!(jobs.len(), 0);
    let outcomes = run_batch(&paths, "out", &None, &None, &Vec::new());
    assert!(outcomes.is_empty());
}

#[test]
fn scan_keeps_classifiable_files_and_ignores_the_rest() {
    let paths: Vec<String> = ["a.gpg", "b.age", "c.txt", "d", "e.gpg.bak", "sub/.age"]
        .iter()
        .map(|s| s.to_string())
        .collect();
    let jobs = build_jobs(&paths);
    assert_eq!(jobs.len(), 2);
    assert_eq!(jobs[0].path, "a.gpg");
    assert_eq!(jobs[0].file_type, FileType::Gpg);
    assert_eq!(jobs[1].path, "b.age");
    assert_eq!(jobs[1].file_type, FileType::Age);
}

#[test]
fn missing_passphrase_fails_without_invoking_an_engine() {
    let job = DecryptionJob { path: String::from("a.gpg"), file_type: FileType::Gpg };
    let step = prepare_job(&job, "out", &None, &Some(String::from("id.txt")));
    // No invocation is ever constructed, so no process could be spawned.
    assert!(matches!(step, JobStep::MissingPassphrase));

    let job = DecryptionJob { path: String::from("b.age"), file_type: FileType::Age };
    let step = prepare_job(&job, "out", &Some(String::from("secret")), &None);
    assert!(matches!(step, JobStep::MissingIdentity));
}

#[test]
fn dispatch_reports_one_outcome_per_job_with_distinct_tags() {
    let paths: Vec<String> =
        ["k1.gpg", "k2.age", "k3.gpg"].iter().map(|s| s.to_string()).collect();
    let jobs = build_jobs(&paths);
    assert_eq!(jobs.len(), 3);
    let pass = Some(String::from("secret"));
    let ident = Some(String::from("id.txt"));
    let reports = vec![
        ok_report(),
        EngineReport::Exited { success: false, stderr: String::from("bad key") },
        EngineReport::StartFailed(String::from("not found")),
    ];
    let outcomes = dispatch_jobs(&jobs, "out", &pass, &ident, &reports);
    assert_eq!(outcomes.len(), 3);
    let mut tags: Vec<&String> = outcomes.iter().map(|o| o.source()).collect();
    assert_eq!(tags, vec!["k1.gpg", "k2.age", "k3.gpg"]);
    tags.dedup();
    assert_eq!(tags.len(), 3);
}

#[test]
fn engine_reports_map_to_their_failure_causes() {
    let job = DecryptionJob { path: String::from("a.gpg"), file_type: FileType::Gpg };
    let o = finish_job(&job, "out", &EngineReport::StartFailed(String::from("no gpg")));
    assert!(matches!(
        &o,
        DecryptionOutcome::Failure { cause: FailureCause::StartFailed(m), .. } if m == "no gpg"
    ));
    let o = finish_job(&job, "out", &EngineReport::IoFailed(String::from("broken pipe")));
    assert!(matches!(
        &o,
        DecryptionOutcome::Failure { cause: FailureCause::IoFailed(m), .. } if m == "broken pipe"
    ));
    let o = finish_job(
        &job,
        "out",
        &EngineReport::Exited { success: false, stderr: String::from("decryption failed") },
    );
    assert!(matches!(
        &o,
        DecryptionOutcome::Failure { cause: FailureCause::EngineFailed(m), .. }
            if m == "decryption failed"
    ));
    let o = finish_job(&job, "out", &ok_report());
    assert!(matches!(
        &o,
        DecryptionOutcome::Success { source, output } if source == "a.gpg" && output == "out/a"
    ));
}

#[test]
fn mixed_directory_with_both_credentials_succeeds_everywhere() {
    let paths: Vec<String> = ["a.gpg", "b.age", "c.txt"].iter().map(|s| s.to_string()).collect();
    let jobs = build_jobs(&paths);
    assert_eq!(jobs.len(), 2);
    let pass = Some(String::from("secret"));
    let ident = Some(String::from("id.txt"));
    let reports = vec![ok_report(), ok_report()];
    let outcomes = run_batch(&paths, "out", &pass, &ident, &reports);
    assert_eq!(outcomes.len(), 2);
    match &outcomes[0] {
        DecryptionOutcome::Success { source, output } => {
            assert_eq!(source, "a.gpg");
            assert_eq!(output, "out/a");
        },
        DecryptionOutcome::Failure { .. } => panic!("a.gpg should decrypt"),
    }
    match &outcomes[1] {
        DecryptionOutcome::Success { source, output } => {
            assert_eq!(source, "b.age");
            assert_eq!(output, "out/b");
        },
        DecryptionOutcome::Failure { .. } => panic!("b.age should decrypt"),
    }
}

#[test]
fn missing_passphrase_fails_only_the_passphrase_job() {
    let paths: Vec<String> = ["a.gpg", "b.age", "c.txt"].iter().map(|s| s.to_string()).collect();
    let ident = Some(String::from("id.txt"));
    let reports = vec![ok_report(), ok_report()];
    let outcomes = run_batch(&paths, "out", &None, &ident, &reports);
    assert_eq!(outcomes.len(), 2);
    assert!(matches!(
        &outcomes[0],
        DecryptionOutcome::Failure { source, cause: FailureCause::MissingPassphrase }
            if source == "a.gpg"
    ));
    assert!(matches!(
        &outcomes[1],
        DecryptionOutcome::Success { source, output } if source == "b.age" && output == "out/b"
    ));
}

#[test]
fn outcomes_do_not_depend_on_reports_for_credentialless_jobs() {
    let jobs = vec![DecryptionJob { path: String::from("a.gpg"), file_type: FileType::Gpg }];
    let ident = Some(String::from("id.txt"));
    for report in [
        ok_report(),
        EngineReport::StartFailed(String::from("x")),
        EngineReport::IoFailed(String::from("y")),
    ] {
        let outcomes = dispatch_jobs(&jobs, "out", &None, &ident, &vec![report]);
        assert!(matches!(
            &outcomes[0],
            DecryptionOutcome::Failure { cause: FailureCause::MissingPassphrase, .. }
        ));
    }
}

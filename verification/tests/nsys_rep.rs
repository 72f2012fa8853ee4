use veloq_nsys_data::nsys_rep::{
    cache_valid, export_args, exported_dir, generated_parquetdir_owner, has_parquetdir_support,
    is_nsys_rep, is_parquetdir, is_valid_generated_parquetdir, lock_path_for, next_step,
    nsys_generated_pqtdir_paths_for, nsys_version_string, path_to_check, pqtdir_path_for,
    probe_nsys_capability, publish_plan, published, resolve_trace, resolve_trace_path,
    retry_text_file_busy, sidecar_source_path, stale_output, wants_line_break, ChangeTime,
    ExportStep, StaleOutput, TEXT_BUSY_RETRIES,
};
use veloq_nsys_data::paths::artifact_dir_for;

#[test]
fn non_nsys_rep_paths_are_passed_through() {
    let pqtdir_like = "/tmp/trace_pqtdir";
    let err = match resolve_trace_path(pqtdir_like, false) {
        Ok(path) => panic!("missing parquetdir should not resolve to {path}"),
        Err(err) => err,
    };
    assert!(err.message().contains("not found"));

    let bare = "/tmp/example";
    assert_eq!(resolve_trace_path(bare, false).expect("pass-through"), bare);
}

#[test]
fn sqlite_input_is_rejected() {
    let err = match resolve_trace_path("/tmp/trace.sqlite", true) {
        Ok(path) => panic!("sqlite input should not resolve to {path}"),
        Err(err) => err,
    };
    let msg = err.message();
    assert!(msg.contains(".sqlite"));
    assert!(msg.contains(".nsys-rep"));
}

#[test]
fn extension_detection() {
    assert!(is_nsys_rep("/tmp/foo.nsys-rep"));
    assert!(!is_nsys_rep("/tmp/foo.sqlite"));
    assert!(!is_nsys_rep("/tmp/foo"));
    assert!(!is_nsys_rep("/tmp/foo.rep"));
}

#[test]
fn parquetdir_path_appends_artifact_root_to_report_filename() {
    let p = pqtdir_path_for("/tmp/example.nsys-rep");
    assert_eq!(p, "/tmp/example.nsys-rep.veloq/parquetdir");
    let p = pqtdir_path_for("/tmp/trace.v1.nsys-rep");
    assert_eq!(p, "/tmp/trace.v1.nsys-rep.veloq/parquetdir");
}

#[test]
fn generated_parquetdir_aliases_to_owning_report() {
    let source = "/data/trace.nsys-rep".to_string();
    let pqtdir = pqtdir_path_for(&source);

    assert_eq!(generated_parquetdir_owner(&pqtdir), Some(source.clone()));
    assert_eq!(sidecar_source_path(&pqtdir), source);

    let resolved = resolve_trace(&pqtdir, true).expect("owner is there");
    assert_eq!(resolved.source_path, sidecar_source_path(&pqtdir));
    assert_eq!(resolved.pqtdir_path, pqtdir);
    assert_eq!(resolved, resolve_trace(&source, true).expect("report is there"));
}

#[test]
fn generated_parquetdir_requires_owning_report() {
    let pqtdir = "/data/missing.nsys-rep.veloq/parquetdir";

    assert_eq!(generated_parquetdir_owner(pqtdir), Some("/data/missing.nsys-rep".to_string()));
    assert!(
        !is_valid_generated_parquetdir(pqtdir, false),
        "orphan generated parquetdir should not be detected as valid"
    );
    assert!(is_valid_generated_parquetdir(pqtdir, true));
    let err = match resolve_trace(pqtdir, false) {
        Ok(path) => panic!("orphan generated parquetdir should not resolve to {path:?}"),
        Err(err) => err,
    };
    assert!(err.message().contains("generated parquetdir"));
}

#[test]
fn capability_probe_detects_parquetdir() {
    assert!(has_parquetdir_support(
        "Possible values are: sqlite, hdf, text, json, info, arrow, arrowdir, parquetdir\n",
        ""
    ));
}

#[test]
fn capability_probe_rejects_old_nsys() {
    assert!(!has_parquetdir_support(
        "Possible values are: arrow, hdf, info, json, sqlite, text\n",
        ""
    ));
}

#[test]
fn help_on_the_error_stream_counts() {
    assert!(has_parquetdir_support("", "parquetdir"));
    assert!(has_parquetdir_support("parq", "uetdir"));
    assert!(!has_parquetdir_support("", ""));
}

#[test]
fn other_directories_own_nothing() {
    assert_eq!(generated_parquetdir_owner("/data/parquetdir"), None);
    assert_eq!(generated_parquetdir_owner("/data/t.sqlite.veloq/parquetdir"), None);
    assert_eq!(generated_parquetdir_owner("/data/t.nsys-rep.veloq/other"), None);
    assert_eq!(
        generated_parquetdir_owner("t.nsys-rep.veloq/parquetdir/"),
        Some("t.nsys-rep".to_string())
    );
    assert_eq!(sidecar_source_path("/data/x_pqtdir"), "/data/x_pqtdir");
    assert!(is_parquetdir("/data/x_pqtdir/"));
    assert!(!is_parquetdir("/data/x_pqtdir/y"));
}

#[test]
fn resolution_says_which_path_has_to_be_there() {
    assert_eq!(path_to_check("/t.nsys-rep").as_deref(), Some("/t.nsys-rep"));
    assert_eq!(
        path_to_check("/t.nsys-rep.veloq/parquetdir").as_deref(),
        Some("/t.nsys-rep")
    );
    assert_eq!(path_to_check("/t_pqtdir").as_deref(), Some("/t_pqtdir"));
    assert_eq!(path_to_check("/t"), None);
    let err = resolve_trace("/t.nsys-rep", false).expect_err("missing report");
    assert_eq!(err.code().as_str(), "nsys.data.trace-not-found");
    let resolved = resolve_trace("/t_pqtdir", true).expect("direct input");
    assert_eq!(resolved.source_path, "/t_pqtdir");
    assert_eq!(resolved.pqtdir_path, "/t_pqtdir");
}

#[test]
fn caches_are_valid_from_the_change_of_the_report() {
    let at = |secs, nanos| Some(ChangeTime { secs, nanos });
    assert!(cache_valid(true, true, at(5, 1), at(5, 1)));
    assert!(cache_valid(true, true, at(5, 1), at(6, 0)));
    assert!(!cache_valid(true, true, at(5, 1), at(5, 0)));
    assert!(!cache_valid(true, false, at(5, 1), at(6, 0)));
    assert!(!cache_valid(false, true, at(5, 1), at(6, 0)));
    assert!(!cache_valid(true, true, None, at(6, 0)));
    assert!(!cache_valid(true, true, at(5, 1), None));
}

fn walk(answers: &dyn Fn(ExportStep) -> bool) -> Vec<ExportStep> {
    let mut steps = vec![ExportStep::CheckCache];
    while steps[steps.len() - 1] != ExportStep::Ready {
        let last = steps[steps.len() - 1];
        steps.push(next_step(last, answers(last)));
    }
    steps
}

#[test]
fn export_runs_only_when_nothing_is_valid() {
    let steps = walk(&|_| false);
    assert_eq!(
        steps,
        vec![
            ExportStep::CheckCache,
            ExportStep::TakeLock,
            ExportStep::RecheckCache,
            ExportStep::CheckGenerated { index: 0 },
            ExportStep::CheckGenerated { index: 1 },
            ExportStep::Probe,
            ExportStep::Export,
            ExportStep::Ready,
        ]
    );
    assert_eq!(walk(&|_| true), vec![ExportStep::CheckCache, ExportStep::Ready]);
    let raced = walk(&|s| s == ExportStep::RecheckCache);
    assert!(!raced.contains(&ExportStep::Export));
}

#[test]
fn leftover_exports_are_published() {
    for index in 0..2 {
        let steps = walk(&|s| s == ExportStep::CheckGenerated { index });
        assert!(steps.contains(&ExportStep::Publish { index }));
        assert!(!steps.contains(&ExportStep::Export));
    }
}

#[test]
fn exports_stay_inside_the_artifact_root() {
    let root = artifact_dir_for("/data/trace.nsys-rep");
    assert_eq!(
        nsys_generated_pqtdir_paths_for(&root),
        vec![
            "/data/trace.nsys-rep.veloq/nsys-export",
            "/data/trace.nsys-rep.veloq/nsys-export_pqtdir",
        ]
    );
    assert_eq!(lock_path_for("/data/trace.nsys-rep"), "/data/trace.nsys-rep.veloq/export.lock");
    assert_eq!(
        export_args("/abs/trace.nsys-rep"),
        vec!["export", "-t", "parquetdir", "-f", "true", "-o", "nsys-export", "/abs/trace.nsys-rep"]
    );
}

#[test]
fn export_outcomes() {
    let source = "/data/trace.nsys-rep";
    assert_eq!(
        exported_dir(source, true, Some(0), true, true).expect("first"),
        "/data/trace.nsys-rep.veloq/nsys-export"
    );
    assert_eq!(
        exported_dir(source, true, Some(0), false, true).expect("second"),
        "/data/trace.nsys-rep.veloq/nsys-export_pqtdir"
    );
    let err = exported_dir(source, true, Some(0), false, false).expect_err("nothing");
    assert_eq!(err.code().as_str(), "nsys.data.nsys-export-output-missing");
    assert!(err.message().contains("nsys-export or /data"), "{}", err.message());
    let err = exported_dir(source, false, Some(7), true, true).expect_err("failed");
    assert_eq!(err.code().as_str(), "nsys.data.nsys-export-failed");
    assert!(err.message().contains('7'), "{}", err.message());
    assert_eq!(stale_output(true, true), StaleOutput::Directory);
    assert_eq!(stale_output(false, true), StaleOutput::File);
    assert_eq!(stale_output(false, false), StaleOutput::Nothing);
}

#[test]
fn publishing_moves_what_is_elsewhere() {
    let plan = publish_plan("/a/nsys-export", "/a/parquetdir", true);
    assert!(plan.rename && plan.remove_target);
    let plan = publish_plan("/a/nsys-export", "/a/parquetdir", false);
    assert!(plan.rename && !plan.remove_target);
    let plan = publish_plan("/a/parquetdir", "/a/parquetdir", true);
    assert!(!plan.rename && !plan.remove_target);
    assert!(published("/a/parquetdir", true).is_ok());
    let err = published("/a/parquetdir", false).expect_err("gone");
    assert_eq!(err.code().as_str(), "nsys.data.nsys-export-output-missing");
}

#[test]
fn probes_of_nsys() {
    assert!(probe_nsys_capability(Ok(true), None).is_ok());
    let err = probe_nsys_capability(Ok(false), Some("2024.5".to_string())).expect_err("old");
    assert!(err.message().contains("2024.5"), "{}", err.message());
    let err = probe_nsys_capability(Ok(false), None).expect_err("old");
    assert!(err.message().contains("unknown"), "{}", err.message());
    let err = probe_nsys_capability(Err("no such file".to_string()), None).expect_err("absent");
    assert_eq!(err.code().as_str(), "nsys.data.nsys-parquetdir-probe-failed");
    assert!(err.message().contains("no such file"));
    assert_eq!(nsys_version_string(" 2025.1 \n", "x"), "2025.1");
    assert_eq!(nsys_version_string(" \n", "\t2024.2\n"), "2024.2");
}

#[test]
fn busy_programs_are_tried_again_for_a_while() {
    let mut attempts = 0;
    for _ in 0..TEXT_BUSY_RETRIES {
        assert!(retry_text_file_busy(Some(26), &mut attempts));
    }
    assert!(!retry_text_file_busy(Some(26), &mut attempts));
    assert_eq!(attempts, TEXT_BUSY_RETRIES);
    let mut attempts = 0;
    assert!(!retry_text_file_busy(Some(2), &mut attempts));
    assert!(!retry_text_file_busy(None, &mut attempts));
    assert_eq!(attempts, 0);
}

#[test]
fn forwarded_output_ends_in_a_line_break() {
    assert!(wants_line_break(&b"done".to_vec()));
    assert!(!wants_line_break(&b"done\n".to_vec()));
    assert!(!wants_line_break(&b"50%\r".to_vec()));
    assert!(!wants_line_break(&Vec::new()));
}

#[test]
fn reports_own_their_directories_however_they_are_written() {
    for report in ["/data//t.nsys-rep", "t.nsys-rep", "./a/./t.nsys-rep", "a/t.nsys-rep/", "t.nsys-rep/."]
    {
        let owner = generated_parquetdir_owner(&pqtdir_path_for(report)).expect("owner");
        assert_eq!(std::path::Path::new(&owner), std::path::Path::new(report), "{report}");
        assert!(is_nsys_rep(&owner));
    }
    assert_eq!(generated_parquetdir_owner("/data/t.nsys-rep.veloq/tables"), None);
    assert_eq!(generated_parquetdir_owner("/data/t.veloq/parquetdir"), None);
    assert_eq!(generated_parquetdir_owner("parquetdir"), None);
    assert_eq!(generated_parquetdir_owner("/data/.veloq/parquetdir"), None);
    assert_eq!(generated_parquetdir_owner(".veloq/parquetdir"), None);
    assert_eq!(generated_parquetdir_owner("/data/..veloq/parquetdir"), None);
    assert_eq!(
        generated_parquetdir_owner("t.nsys-rep/..veloq/parquetdir"),
        Some("t.nsys-rep/.".to_string())
    );
    for report in ["a/t.nsys-rep", "t.nsys-rep", "a/t.nsys-rep/", "a/t.nsys-rep/."] {
        let owner = generated_parquetdir_owner(&pqtdir_path_for(report));
        assert_eq!(owner.as_deref(), Some(report));
    }
    assert_eq!(
        generated_parquetdir_owner("t.nsys-rep/.veloq/parquetdir"),
        Some("t.nsys-rep/".to_string())
    );
}

use dv_format::collect::{collect_paths, select_sources, DirEntry, PathInput};
use dv_format::error::FormatError;
use dv_format::format::{cargo_fmt_args, general_jobs, plan_paths, specialized_jobs, TargetRun};
use dv_format::runner::{jobs_for, summarize, Outcome, Warning};
use dv_format::workspace::PackageInfo;

fn names(n: &[&str]) -> Vec<String> {
    n.iter().map(|s| s.to_string()).collect()
}

fn entry(p: &str, is_file: bool) -> DirEntry {
    DirEntry { path: p.to_string(), is_file }
}

#[test]
fn walk_keeps_exactly_the_matching_files() {
    let entries = vec![
        entry("/d", false),
        entry("/d/a.rs", true),
        entry("/d/notes.txt", true),
        entry("/d/sub.rs", false),
        entry("/d/sub.rs/b.rs", true),
        entry("/d/Makefile", true),
    ];
    assert_eq!(select_sources(&entries), names(&["/d/a.rs", "/d/sub.rs/b.rs"]));
    let reversed: Vec<DirEntry> = entries.iter().rev().map(|e| entry(&e.path, e.is_file)).collect();
    assert_eq!(select_sources(&reversed).len(), 2);
}

#[test]
fn missing_path_gives_one_warning_and_no_file() {
    let c = collect_paths(&[PathInput::Missing("/nowhere".to_string())]);
    assert!(c.files.is_empty());
    assert_eq!(c.missing, names(&["/nowhere"]));
}

#[test]
fn file_inputs_are_kept_only_with_the_extension() {
    let c = collect_paths(&[
        PathInput::File("/x/a.rs".to_string()),
        PathInput::File("/x/b.txt".to_string()),
        PathInput::Other,
        PathInput::Dir(vec![entry("/y/c.rs", true)]),
    ]);
    assert_eq!(c.files, names(&["/x/a.rs", "/y/c.rs"]));
    assert!(c.missing.is_empty());
}

#[test]
fn one_warning_per_failed_file() {
    let files = names(&["/a.rs", "/b.rs", "/c.rs", "/d.rs"]);
    let jobs = jobs_for(&files, "rustfmt", "rustfmt");
    assert_eq!(jobs.len(), 4);
    let outcomes = vec![
        Outcome::Success,
        Outcome::ExitFailure,
        Outcome::Success,
        Outcome::LaunchFailure("permission denied".to_string()),
    ];
    let report = summarize(&jobs, &outcomes);
    assert_eq!(report.succeeded, 2);
    assert_eq!(
        report.warnings,
        vec![
            Warning::ExitFailure { formatter: "rustfmt".to_string(), file: "/b.rs".to_string() },
            Warning::LaunchFailure {
                formatter: "rustfmt".to_string(),
                file: "/d.rs".to_string(),
                error: "permission denied".to_string(),
            },
        ]
    );
    assert_eq!(report.warnings[0].message(), "Warning: rustfmt failed for file: /b.rs");
    assert_eq!(
        report.warnings[1].message(),
        "Warning: Could not run rustfmt on /d.rs: permission denied"
    );
    assert_eq!(
        Warning::PathNotFound("/m".to_string()).message(),
        "Warning: Path does not exist: /m"
    );
}

#[test]
fn all_successes_give_no_warning() {
    let files = names(&["/a.rs", "/b.rs"]);
    let jobs = jobs_for(&files, "verusfmt", "/bin/verusfmt");
    let report = summarize(&jobs, &[Outcome::Success, Outcome::Success]);
    assert_eq!(report.succeeded, 2);
    assert!(report.warnings.is_empty());
}

#[test]
fn scenario_all_packages_by_target() {
    let run = TargetRun::start(Some("/opt/bin/verusfmt".to_string())).unwrap();
    let pkgs = vec![
        PackageInfo { id: "1".to_string(), name: "core".to_string(), src_paths: names(&["/w/core/src/lib.rs"]) },
        PackageInfo { id: "2".to_string(), name: "utils".to_string(), src_paths: names(&["/w/utils/src/lib.rs"]) },
    ];
    let dirs = run.source_dirs(&pkgs, &[]).unwrap();
    assert_eq!(dirs, names(&["/w/core/src", "/w/utils/src"]));
    let walks = vec![
        vec![entry("/w/core/src", false), entry("/w/core/src/lib.rs", true), entry("/w/core/src/m.rs", true)],
        vec![entry("/w/utils/src", false), entry("/w/utils/src/lib.rs", true), entry("/w/utils/src/x.md", true)],
    ];
    let mut formatted = Vec::new();
    for walk in &walks {
        for job in run.jobs(&select_sources(walk)) {
            assert_eq!(job.formatter, "verusfmt");
            assert_eq!(job.program, "/opt/bin/verusfmt");
            formatted.push(job.file);
        }
    }
    assert_eq!(formatted, names(&["/w/core/src/lib.rs", "/w/core/src/m.rs", "/w/utils/src/lib.rs"]));
}

#[test]
fn scenario_paths_with_one_missing() {
    let plan = plan_paths(&[
        PathInput::File("/tmp/a.rs".to_string()),
        PathInput::Missing("/tmp/missing".to_string()),
    ]);
    assert!(!plan.nothing_to_do());
    assert_eq!(plan.warnings, vec![Warning::PathNotFound("/tmp/missing".to_string())]);
    let first = general_jobs(&plan.files);
    assert_eq!(first.len(), 1);
    assert_eq!(first[0].file, "/tmp/a.rs");
    assert_eq!(first[0].program, "rustfmt");
    let second = specialized_jobs(&plan.files, Some("/bin/verusfmt".to_string())).unwrap();
    assert_eq!(second.len(), 1);
    assert_eq!(second[0].file, "/tmp/a.rs");
    assert_eq!(second[0].program, "/bin/verusfmt");
}

#[test]
fn scenario_formatter_missing_fails_fast() {
    match TargetRun::start(None) {
        Err(e) => assert_eq!(e, FormatError::ToolUnresolved("verusfmt".to_string())),
        Ok(_) => panic!("a run without its formatter must not start"),
    }
    assert_eq!(
        specialized_jobs(&names(&["/a.rs"]), None).err(),
        Some(FormatError::ToolUnresolved("verusfmt".to_string()))
    );
}

#[test]
fn paths_with_no_source_file_have_nothing_to_do() {
    let plan = plan_paths(&[PathInput::File("/tmp/a.txt".to_string())]);
    assert!(plan.nothing_to_do());
    assert!(plan.warnings.is_empty());
}

#[test]
fn cargo_fmt_arguments() {
    assert_eq!(cargo_fmt_args(&[]), names(&["fmt"]));
    assert_eq!(
        cargo_fmt_args(&names(&["core", "utils"])),
        names(&["fmt", "--package", "core", "--package", "utils"])
    );
}

//! The two kinds of run. By target: the specialized formatter must be found
//! before anything else happens, then the chosen packages' source
//! directories are formatted with it. By path: the given paths are collected,
//! the general formatter runs over the files, then the specialized one.
use vstd::prelude::*;
use crate::collect::{collect_paths, collected_files, missing_paths, PathInput};
use crate::error::FormatError;
use crate::paths::views;
use crate::runner::{jobs_for, missing_path_warnings, FileJob, Warning};
use crate::workspace::{dirs_of, package_names, target_source_dirs, PackageInfo};

verus! {

/// The specialized formatter's binary.
pub open spec fn specialized_name() -> Seq<char> {
    "verusfmt"@
}

/// The general formatter's command.
pub open spec fn general_name() -> Seq<char> {
    "rustfmt"@
}

/// A run by target whose formatter has been found. Having one is the only
/// way to ask for source directories, so no metadata is read for a run whose
/// formatter is missing.
pub struct TargetRun {
    formatter_path: String,
}

impl TargetRun {
    /// Where the specialized formatter was found.
    pub closed spec fn formatter(&self) -> Seq<char> {
        self.formatter_path@
    }

    /// Starts a run from the locator's answer; no answer ends it at once.
    pub fn start(resolved: Option<String>) -> (r: Result<TargetRun, FormatError>)
        ensures
            r is Err <==> resolved is None,
            r matches Ok(run) ==> resolved matches Some(p) && run.formatter() == p@,
            r matches Err(e) ==> e matches FormatError::ToolUnresolved(n) && n@
                == specialized_name(),
    {
        match resolved {
            Some(p) => Ok(TargetRun { formatter_path: p }),
            None => Err(FormatError::ToolUnresolved("verusfmt".to_owned())),
        }
    }

    /// The source directories to format (see `target_source_dirs`).
    pub fn source_dirs(&self, packages: &[PackageInfo], targets: &[String]) -> (r: Result<
        Vec<String>,
        FormatError,
    >)
        ensures
            r is Ok <==> forall|i: int|
                0 <= i < targets@.len() ==> package_names(packages@).contains(
                    #[trigger] targets@[i]@,
                ),
            r matches Ok(d) ==> views(d@) == dirs_of(packages@, views(targets@)),
            r matches Err(e) ==> e matches FormatError::UnknownTarget(t) && views(
                targets@,
            ).contains(t@) && !package_names(packages@).contains(t@),
    {
        target_source_dirs(packages, targets)
    }

    /// One specialized-formatter job per file.
    pub fn jobs(&self, files: &[String]) -> (r: Vec<FileJob>)
        ensures
            r@.len() == files@.len(),
            forall|i: int|
                0 <= i < files@.len() ==> (#[trigger] r@[i]).file@ == files@[i]@
                    && r@[i].formatter@ == specialized_name() && r@[i].program@
                    == self.formatter(),
    {
        jobs_for(files, "verusfmt", self.formatter_path.as_str())
    }
}

/// What a run by path works on.
pub struct PathPlan {
    /// The collected source files.
    pub files: Vec<String>,
    /// One warning per path that did not exist.
    pub warnings: Vec<Warning>,
}

impl PathPlan {
    /// No file was found: the run has nothing to do and succeeds.
    pub fn nothing_to_do(&self) -> (r: bool)
        ensures
            r == (self.files@.len() == 0),
    {
        self.files.len() == 0
    }
}

/// Collects the files of a run by path, warning of each missing path.
pub fn plan_paths(inputs: &[PathInput]) -> (r: PathPlan)
    ensures
        views(r.files@) == collected_files(inputs@),
        r.warnings@.len() == missing_paths(inputs@).len(),
        forall|i: int|
            0 <= i < r.warnings@.len() ==> ((#[trigger] r.warnings@[i]) matches Warning::PathNotFound(
                p,
            ) && p@ == missing_paths(inputs@)[i]),
{
    let c = collect_paths(inputs);
    let warnings = missing_path_warnings(c.missing.as_slice());
    assert forall|i: int| 0 <= i < warnings@.len() implies ((#[trigger] warnings@[i]) matches Warning::PathNotFound(
        p,
    ) && p@ == missing_paths(inputs@)[i]) by {
        assert(views(c.missing@)[i] == c.missing@[i]@);
    }
    PathPlan { files: c.files, warnings }
}

/// The general formatter's pass: one job per file, run by command name.
pub fn general_jobs(files: &[String]) -> (r: Vec<FileJob>)
    ensures
        r@.len() == files@.len(),
        forall|i: int|
            0 <= i < files@.len() ==> (#[trigger] r@[i]).file@ == files@[i]@ && r@[i].formatter@
                == general_name() && r@[i].program@ == general_name(),
{
    jobs_for(files, "rustfmt", "rustfmt")
}

/// The specialized formatter's pass over the same files, once the locator
/// has answered; without an answer the run stops.
pub fn specialized_jobs(files: &[String], resolved: Option<String>) -> (r: Result<
    Vec<FileJob>,
    FormatError,
>)
    ensures
        r is Err <==> resolved is None,
        r matches Err(e) ==> e matches FormatError::ToolUnresolved(n) && n@ == specialized_name(),
        r matches Ok(jobs) ==> resolved matches Some(p) && jobs@.len() == files@.len() && forall|
            i: int,
        |
            0 <= i < files@.len() ==> (#[trigger] jobs@[i]).file@ == files@[i]@
                && jobs@[i].formatter@ == specialized_name() && jobs@[i].program@ == p@,
{
    match resolved {
        None => Err(FormatError::ToolUnresolved("verusfmt".to_owned())),
        Some(p) => Ok(jobs_for(files, "verusfmt", p.as_str())),
    }
}

/// The flag that names a package to `cargo fmt`.
pub open spec fn package_flag() -> Seq<char> {
    "--package"@
}

/// The arguments of `cargo fmt` over some packages: `fmt`, then
/// `--package <name>` for each.
pub open spec fn spec_cargo_fmt_args(targets: Seq<Seq<char>>) -> Seq<Seq<char>>
    decreases targets.len(),
{
    if targets.len() == 0 {
        seq!["fmt"@]
    } else {
        spec_cargo_fmt_args(targets.drop_last()) + seq![package_flag(), targets.last()]
    }
}

/// Builds the arguments of `cargo fmt` over `targets` (all packages when
/// there are none).
pub fn cargo_fmt_args(targets: &[String]) -> (r: Vec<String>)
    ensures
        views(r@) == spec_cargo_fmt_args(views(targets@)),
{
    let mut out: Vec<String> = Vec::new();
    out.push("fmt".to_owned());
    let ghost tv = views(targets@);
    let mut i: usize = 0;
    assert(views(out@) =~= seq!["fmt"@]);
    assert(tv.subrange(0, 0) =~= Seq::<Seq<char>>::empty());
    while i < targets.len()
        invariant
            i <= targets.len(),
            tv == views(targets@),
            views(out@) == spec_cargo_fmt_args(tv.subrange(0, i as int)),
        decreases targets.len() - i,
    {
        let ghost before = views(out@);
        assert(tv.subrange(0, i + 1).drop_last() =~= tv.subrange(0, i as int));
        out.push("--package".to_owned());
        out.push(targets[i].clone());
        assert(views(out@) =~= before + seq![package_flag(), tv[i as int]]);
        i += 1;
    }
    assert(tv.subrange(0, targets.len() as int) =~= tv);
    out
}

} // verus!

//! The formatter pass over a file set: one job per file, and the report that
//! the outcomes of those jobs make. Every file gets its job whatever happens
//! to the others; a failure becomes a warning and nothing more.
use vstd::prelude::*;

verus! {

/// One unit of formatting work: a file and the formatter to run on it.
#[derive(Debug)]
pub struct FileJob {
    pub file: String,
    /// The formatter's name, for reports.
    pub formatter: String,
    /// What to launch: a command name looked up on the search path, or an
    /// absolute path resolved earlier.
    pub program: String,
}

/// One job for each file, in file order, all with the same formatter.
pub fn jobs_for(files: &[String], formatter: &str, program: &str) -> (r: Vec<FileJob>)
    ensures
        r@.len() == files@.len(),
        forall|i: int|
            0 <= i < files@.len() ==> (#[trigger] r@[i]).file@ == files@[i]@ && r@[i].formatter@
                == formatter@ && r@[i].program@ == program@,
{
    let mut out: Vec<FileJob> = Vec::new();
    let mut i: usize = 0;
    while i < files.len()
        invariant
            i <= files.len(),
            out@.len() == i,
            forall|j: int|
                0 <= j < i ==> (#[trigger] out@[j]).file@ == files@[j]@ && out@[j].formatter@
                    == formatter@ && out@[j].program@ == program@,
        decreases files.len() - i,
    {
        out.push(
            FileJob {
                file: files[i].clone(),
                formatter: formatter.to_owned(),
                program: program.to_owned(),
            },
        );
        i += 1;
    }
    out
}

/// How one formatter process ended.
#[derive(Debug)]
pub enum Outcome {
    /// It ran and exited with status zero.
    Success,
    /// It ran and exited with another status.
    ExitFailure,
    /// It could not be started; the system's error text.
    LaunchFailure(String),
}

/// A problem worth telling the user that does not stop the run.
#[derive(Debug, PartialEq, Eq)]
pub enum Warning {
    /// The formatter exited non-zero on the file.
    ExitFailure { formatter: String, file: String },
    /// The formatter could not be started for the file.
    LaunchFailure { formatter: String, file: String, error: String },
    /// A path given by the user does not exist.
    PathNotFound(String),
}

/// The warning that a job's outcome gives, if any.
pub open spec fn warning_of(job: FileJob, outcome: Outcome) -> Seq<Warning> {
    match outcome {
        Outcome::Success => Seq::<Warning>::empty(),
        Outcome::ExitFailure => seq![
            Warning::ExitFailure { formatter: job.formatter, file: job.file },
        ],
        Outcome::LaunchFailure(e) => seq![
            Warning::LaunchFailure { formatter: job.formatter, file: job.file, error: e },
        ],
    }
}

/// The warnings of the first `n` jobs, in job order.
pub open spec fn warnings_of(jobs: Seq<FileJob>, outcomes: Seq<Outcome>, n: nat) -> Seq<Warning>
    decreases n,
{
    if n == 0 {
        Seq::<Warning>::empty()
    } else {
        warnings_of(jobs, outcomes, (n - 1) as nat) + warning_of(jobs[n - 1], outcomes[n - 1])
    }
}

/// How many of the first `n` outcomes are failures of either kind.
pub open spec fn failures(outcomes: Seq<Outcome>, n: nat) -> nat
    decreases n,
{
    if n == 0 {
        0
    } else {
        failures(outcomes, (n - 1) as nat) + if outcomes[n - 1] is Success {
            0nat
        } else {
            1nat
        }
    }
}

/// The report of a formatter pass.
pub struct RunReport {
    /// Files on which the formatter exited with status zero.
    pub succeeded: usize,
    /// One warning for each file on which it did not.
    pub warnings: Vec<Warning>,
}

/// Turns the outcome of each job into the pass's report.
pub fn summarize(jobs: &[FileJob], outcomes: &[Outcome]) -> (r: RunReport)
    requires
        jobs@.len() == outcomes@.len(),
    ensures
        r.warnings@ == warnings_of(jobs@, outcomes@, jobs@.len() as nat),
        r.succeeded + r.warnings@.len() == jobs@.len(),
{
    let mut succeeded: usize = 0;
    let mut warnings: Vec<Warning> = Vec::new();
    let mut i: usize = 0;
    while i < jobs.len()
        invariant
            i <= jobs.len() == outcomes@.len(),
            warnings@ == warnings_of(jobs@, outcomes@, i as nat),
            succeeded + warnings@.len() == i,
        decreases jobs.len() - i,
    {
        let ghost before = warnings@;
        let job = &jobs[i];
        match &outcomes[i] {
            Outcome::Success => {
                succeeded += 1;
                assert(warnings@ =~= before + Seq::<Warning>::empty());
            },
            Outcome::ExitFailure => {
                warnings.push(
                    Warning::ExitFailure { formatter: job.formatter.clone(), file: job.file.clone() },
                );
                assert(warnings@ =~= before + warning_of(jobs@[i as int], outcomes@[i as int]));
            },
            Outcome::LaunchFailure(e) => {
                warnings.push(
                    Warning::LaunchFailure {
                        formatter: job.formatter.clone(),
                        file: job.file.clone(),
                        error: e.clone(),
                    },
                );
                assert(warnings@ =~= before + warning_of(jobs@[i as int], outcomes@[i as int]));
            },
        }
        i += 1;
    }
    RunReport { succeeded, warnings }
}

/// A pass in which exactly K of the N formatter runs fail reports exactly K
/// warnings, one per failing file, and N - K successes.
pub proof fn law_one_warning_per_failure(jobs: Seq<FileJob>, outcomes: Seq<Outcome>, n: nat)
    requires
        n <= jobs.len(),
        n <= outcomes.len(),
    ensures
        warnings_of(jobs, outcomes, n).len() == failures(outcomes, n),
    decreases n,
{
    if n > 0 {
        law_one_warning_per_failure(jobs, outcomes, (n - 1) as nat);
    }
}

impl Warning {
    /// The line shown to the user.
    pub fn message(&self) -> (r: String)
        ensures
            r@ == warning_text(*self),
    {
        match self {
            Warning::ExitFailure { formatter, file } => {
                let mut m = "Warning: ".to_owned();
                m.append(formatter.as_str());
                m.append(" failed for file: ");
                m.append(file.as_str());
                m
            },
            Warning::LaunchFailure { formatter, file, error } => {
                let mut m = "Warning: Could not run ".to_owned();
                m.append(formatter.as_str());
                m.append(" on ");
                m.append(file.as_str());
                m.append(": ");
                m.append(error.as_str());
                m
            },
            Warning::PathNotFound(p) => {
                let mut m = "Warning: Path does not exist: ".to_owned();
                m.append(p.as_str());
                m
            },
        }
    }
}

/// The text of a warning.
pub open spec fn warning_text(w: Warning) -> Seq<char> {
    match w {
        Warning::ExitFailure { formatter, file } => "Warning: "@ + formatter@ + " failed for file: "@
            + file@,
        Warning::LaunchFailure { formatter, file, error } => "Warning: Could not run "@ + formatter@
            + " on "@ + file@ + ": "@ + error@,
        Warning::PathNotFound(p) => "Warning: Path does not exist: "@ + p@,
    }
}

/// One warning for each path that did not exist, in order.
pub fn missing_path_warnings(missing: &[String]) -> (r: Vec<Warning>)
    ensures
        r@.len() == missing@.len(),
        forall|i: int|
            0 <= i < missing@.len() ==> #[trigger] r@[i] == Warning::PathNotFound(missing@[i]),
{
    let mut out: Vec<Warning> = Vec::new();
    let mut i: usize = 0;
    while i < missing.len()
        invariant
            i <= missing.len(),
            out@.len() == i,
            forall|j: int| 0 <= j < i ==> #[trigger] out@[j] == Warning::PathNotFound(missing@[j]),
        decreases missing.len() - i,
    {
        out.push(Warning::PathNotFound(missing[i].clone()));
        i += 1;
    }
    out
}

} // verus!

//! A scan from its input to its report.
use crate::checks;
use crate::checks::{InputModel, ScanInput};
use crate::content::FileRead;
use crate::error::ScanError;
use crate::listing;
use crate::listing::Listing;
use crate::policy;
use crate::policy::{CloseEnvConfig, PolicyModel, ScanOptions};
use crate::report;
use crate::report::{CheckModel, ReportModel, ScanCheck, ScanReport, Severity};
use crate::text;
use vstd::prelude::*;

verus! {

/// A repository as it was found on disk.
#[derive(Debug)]
pub struct Repository {
    /// The path of its root.
    pub root: String,
    /// Its configuration, where it has one that can be understood.
    pub config: Option<CloseEnvConfig>,
    /// How its files were listed.
    pub listing: Listing,
    /// What was read of the files that [`listing::collect_files`] picks from the listing, each
    /// at the position of its file.
    pub reads: Vec<FileRead>,
    /// The files that git tracks.
    pub tracked_files: Vec<String>,
    /// The paths of [`checks::state_paths`] at which there is something.
    pub existing_state: Vec<String>,
}

impl Repository {
    /// The policy of a scan of this repository.
    pub open spec fn policy(self, options: ScanOptions) -> PolicyModel {
        policy::with_options(policy::configured_policy(self.config), options)
    }

    /// What the checks look at where `files` are scanned.
    pub open spec fn input(self, options: ScanOptions, files: Seq<Seq<char>>) -> InputModel {
        InputModel {
            files,
            reads: self.reads@,
            tracked_files: text::texts(self.tracked_files@),
            existing_state: text::texts(self.existing_state@),
            staged: listing::staged_paths(self.listing, options.mode),
            policy: self.policy(options),
        }
    }
}

/// What the checks say, in the order of the report. The first one that cannot be made ends it.
pub open spec fn checked(input: InputModel) -> Result<Seq<CheckModel>, ScanError> {
    match checks::example_files_check(input) {
        Err(error) => Err(error),
        Ok(examples) => match checks::raw_secret_patterns_check(input) {
            Err(error) => Err(error),
            Ok(patterns) => match checks::package_scripts_check(input) {
                Err(error) => Err(error),
                Ok(scripts) => match checks::compose_env_files_check(input) {
                    Err(error) => Err(error),
                    Ok(compose) => Ok(
                        seq![
                            checks::tracked_dotenv_check(input),
                            checks::working_tree_dotenv_check(input),
                            examples,
                            checks::sensitive_file_names_check(input),
                            patterns,
                            checks::repo_secret_state_check(input),
                            scripts,
                            compose,
                        ],
                    ),
                },
            },
        },
    }
}

/// Every check passed.
pub open spec fn all_passed(checks: Seq<CheckModel>) -> bool {
    forall|i: int| 0 <= i < checks.len() ==> (#[trigger] checks[i]).passed
}

/// The report on `checks`.
pub open spec fn report_of(
    root: Seq<char>,
    scanned_files: nat,
    skipped_files: nat,
    duration_ms: u128,
    checks: Seq<CheckModel>,
) -> ReportModel {
    let findings = report::all_findings(checks);
    ReportModel {
        root,
        passed: all_passed(checks),
        scanned_files,
        skipped_files,
        duration_ms,
        blocker_findings: report::severity_count(findings, Severity::Blocker),
        warning_findings: report::severity_count(findings, Severity::Warning),
        detector_counts: report::counts(report::details(findings)),
        checks,
    }
}

/// The report on a repository, or why there is none.
pub open spec fn scanned(repository: Repository, options: ScanOptions, duration_ms: u128) -> Result<
    ReportModel,
    ScanError,
> {
    match listing::collected(repository.listing, repository.policy(options)) {
        Err(error) => Err(error),
        Ok((files, skipped)) => match checked(repository.input(options, files)) {
            Err(error) => Err(error),
            Ok(checks) => Ok(
                report_of(repository.root@, files.len(), skipped, duration_ms, checks),
            ),
        },
    }
}

/// The outcome of a scan as values.
pub open spec fn scan_outcome(r: Result<ScanReport, ScanError>) -> Result<ReportModel, ScanError> {
    match r {
        Ok(found) => Ok(found@),
        Err(error) => Err(error),
    }
}

/// Makes the checks, in the order of the report.
pub fn run_checks(input: &ScanInput) -> (r: Result<Vec<ScanCheck>, ScanError>)
    ensures
        match r {
            Ok(made) => checked(input@) == Ok::<Seq<CheckModel>, ScanError>(
                report::check_models(made@),
            ),
            Err(error) => checked(input@) == Err::<Seq<CheckModel>, ScanError>(error),
        },
{
    let tracked_dotenv = checks::check_tracked_dotenv(input);
    let working_tree_dotenv = checks::check_working_tree_dotenv(input);
    let examples = match checks::check_example_files(input) {
        Ok(made) => made,
        Err(error) => return Err(error),
    };
    let file_names = checks::check_sensitive_file_names(input);
    let patterns = match checks::check_raw_secret_patterns(input) {
        Ok(made) => made,
        Err(error) => return Err(error),
    };
    let state = checks::check_repo_secret_state(input);
    let scripts = match checks::check_package_scripts(input) {
        Ok(made) => made,
        Err(error) => return Err(error),
    };
    let compose = match checks::check_compose_env_files(input) {
        Ok(made) => made,
        Err(error) => return Err(error),
    };
    let ghost models = seq![
        tracked_dotenv@,
        working_tree_dotenv@,
        examples@,
        file_names@,
        patterns@,
        state@,
        scripts@,
        compose@,
    ];
    let made = vec![
        tracked_dotenv,
        working_tree_dotenv,
        examples,
        file_names,
        patterns,
        state,
        scripts,
        compose,
    ];
    assert(report::check_models(made@) =~= models);
    Ok(made)
}

/// Tests whether every check passed.
fn every_check_passed(made: &[ScanCheck]) -> (r: bool)
    ensures
        r == all_passed(report::check_models(made@)),
{
    let ghost models = report::check_models(made@);
    let mut i: usize = 0;
    while i < made.len()
        invariant
            i <= made@.len(),
            models == report::check_models(made@),
            forall|k: int| 0 <= k < i ==> (#[trigger] models[k]).passed,
        decreases made@.len() - i,
    {
        assert(models[i as int] == made@[i as int]@);
        if !made[i].passed {
            return false;
        }
        i = i + 1;
    }
    true
}

/// The report on a repository, or why there is none.
pub fn scan_path_with_options(
    repository: Repository,
    options: ScanOptions,
    duration_ms: u128,
) -> (r: Result<ScanReport, ScanError>)
    ensures
        scan_outcome(r) == scanned(repository, options, duration_ms),
{
    let (input, skipped_files) = match prepare(
        &repository.config,
        repository.listing,
        repository.tracked_files,
        repository.existing_state,
        &options,
    ) {
        Ok(found) => found,
        Err(error) => return Err(error),
    };
    let ghost listed = input@.files;
    let mut input = input;
    let ghost expected = repository.input(options, listed);
    let ghost all = repository.reads@;
    let mut i: usize = 0;
    assert(all.take(0) == Seq::<FileRead>::empty());
    while i < repository.reads.len()
        invariant
            i <= repository.reads@.len(),
            all == repository.reads@,
            input@ == (InputModel { reads: all.take(i as int), ..expected }),
        decreases repository.reads@.len() - i,
    {
        assert(all.take(i + 1) == all.take(i as int).push(all[i as int]));
        input = input.with_read(&repository.reads[i]);
        i = i + 1;
    }
    assert(all.take(i as int) == all);
    report_on(repository.root, skipped_files, &input, duration_ms)
}

/// What the checks look at before a file was read, and how many entries were left out: the first
/// half of a scan, to which [`ScanInput::with_read`] adds the files one after the other.
pub fn prepare(
    config: &Option<CloseEnvConfig>,
    listing: Listing,
    tracked_files: Vec<String>,
    existing_state: Vec<String>,
    options: &ScanOptions,
) -> (r: Result<(ScanInput, usize), ScanError>)
    ensures
        ({
            let policy = policy::with_options(policy::configured_policy(*config), *options);
            match listing::collected(listing, policy) {
                Err(error) => r == Err::<(ScanInput, usize), ScanError>(error),
                Ok((files, skipped)) => r is Ok && r->Ok_0.1 == skipped && r->Ok_0.0@ == (
                InputModel {
                    files,
                    reads: Seq::empty(),
                    tracked_files: text::texts(tracked_files@),
                    existing_state: text::texts(existing_state@),
                    staged: listing::staged_paths(listing, options.mode),
                    policy,
                }),
            }
        }),
{
    let policy = policy::apply_options(policy::read_policy(config), options);
    let (files, skipped_files) = match listing::collect_files(&listing, &policy) {
        Ok(found) => found,
        Err(error) => return Err(error),
    };
    let staged = listing::keep_staged(listing, options.mode);
    let input = ScanInput::new(files, tracked_files, existing_state, staged, policy);
    Ok((input, skipped_files))
}

/// The report on what was read of a repository, or why there is none.
pub fn report_on(
    root: String,
    skipped_files: usize,
    input: &ScanInput,
    duration_ms: u128,
) -> (r: Result<ScanReport, ScanError>)
    ensures
        scan_outcome(r) == (match checked(input@) {
            Err(error) => Err::<ReportModel, ScanError>(error),
            Ok(checks) => Ok(
                report_of(
                    root@,
                    input@.files.len(),
                    skipped_files as nat,
                    duration_ms,
                    checks,
                ),
            ),
        }),
{
    let made = match run_checks(input) {
        Ok(made) => made,
        Err(error) => return Err(error),
    };
    Ok(
        ScanReport {
            root,
            passed: every_check_passed(&made),
            scanned_files: input.files().len(),
            skipped_files,
            duration_ms,
            blocker_findings: report::count_severity(&made, Severity::Blocker),
            warning_findings: report::count_severity(&made, Severity::Warning),
            detector_counts: report::detector_counts(&made),
            checks: made,
        },
    )
}

/// The options of a scan for which nothing was asked.
pub open spec fn default_options() -> ScanOptions {
    ScanOptions {
        mode: policy::ScanMode::WorkingTree,
        include_ignored: false,
        max_files: None,
        max_file_bytes: None,
    }
}

/// The report on a repository for which nothing was asked, or why there is none.
pub fn scan_path(repository: Repository, duration_ms: u128) -> (r: Result<ScanReport, ScanError>)
    ensures
        scan_outcome(r) == scanned(repository, default_options(), duration_ms),
{
    scan_path_with_options(repository, ScanOptions::default(), duration_ms)
}

} // verus!

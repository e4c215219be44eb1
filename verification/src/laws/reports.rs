//! How the parts of a report belong together.
use crate::cli;
use crate::error::ScanError;
use crate::json::JsonModel;
use crate::laws::values;
use crate::listing;
use crate::policy::ScanOptions;
use crate::render;
use crate::report;
use crate::report::{CheckModel, FindingModel, ReportModel, Severity};
use crate::sarif;
use crate::scan;
use crate::scan::Repository;
use vstd::prelude::*;

verus! {

proof fn lemma_severity_count(findings: Seq<FindingModel>)
    requires
        forall|i: int|
            0 <= i < findings.len() ==> (#[trigger] findings[i]).severity == Severity::Blocker,
    ensures
        report::severity_count(findings, Severity::Blocker) == findings.len(),
        report::severity_count(findings, Severity::Warning) == 0,
    decreases findings.len(),
{
    reveal(Seq::filter);
    if findings.len() > 0 {
        let front = findings.drop_last();
        assert forall|i: int| 0 <= i < front.len() implies (#[trigger] front[i]).severity
            == Severity::Blocker by {
            assert(front[i] == findings[i]);
        }
        lemma_severity_count(front);
        assert(findings.last() == findings[findings.len() - 1]);
    }
}

proof fn lemma_passed(checks: Seq<CheckModel>)
    requires
        forall|k: int|
            0 <= k < checks.len() ==> (#[trigger] checks[k]).passed == (checks[k].findings.len()
                == 0),
    ensures
        scan::all_passed(checks) <==> report::all_findings(checks).len() == 0,
    decreases checks.len(),
{
    if checks.len() > 0 {
        let front = checks.drop_last();
        assert(forall|k: int| 0 <= k < front.len() ==> #[trigger] front[k] == checks[k]);
        lemma_passed(front);
        assert(checks.last() == checks[checks.len() - 1]);
        if scan::all_passed(checks) {
            assert(scan::all_passed(front));
        }
        if report::all_findings(checks).len() == 0 {
            assert(report::all_findings(front).len() == 0);
            assert forall|k: int| 0 <= k < checks.len() implies (#[trigger] checks[k]).passed by {
                if k < front.len() {
                    assert(front[k].passed);
                }
            }
        }
    }
}

/// A report counts its findings: all of them are blockers, none is a warning, the counts of
/// their details sum up to their number, a detail is counted just where a finding has it, and
/// the scan passed just where there is no finding. The same holds of every check.
pub proof fn law_report_counts_its_findings(
    repository: Repository,
    options: ScanOptions,
    duration_ms: u128,
)
    requires
        scan::scanned(repository, options, duration_ms) is Ok,
    ensures
        ({
            let made = scan::scanned(repository, options, duration_ms)->Ok_0;
            let findings = report::all_findings(made.checks);
            &&& made.blocker_findings == findings.len()
            &&& made.warning_findings == 0
            &&& made.passed <==> findings.len() == 0
            &&& report::total(made.detector_counts) == findings.len()
            &&& forall|d: Seq<char>| #[trigger]
                report::details(findings).contains(d) <==> made.detector_counts.contains(
                    (d, report::details(findings).to_multiset().count(d)),
                )
            &&& forall|k: int|
                0 <= k < made.checks.len() ==> (#[trigger] made.checks[k]).passed == (
                made.checks[k].findings.len() == 0)
        }),
{
    let found = listing::collected(repository.listing, repository.policy(options));
    let input = repository.input(options, found->Ok_0.0);
    let made = scan::scanned(repository, options, duration_ms)->Ok_0;
    let findings = report::all_findings(made.checks);
    values::law_checks_are_value_free(input);
    assert forall|i: int| 0 <= i < findings.len() implies (#[trigger] findings[i]).severity
        == Severity::Blocker by {
        assert(findings.contains(findings[i]));
    }
    lemma_severity_count(findings);
    lemma_passed(made.checks);
    report::lemma_counts(report::details(findings));
    assert forall|d: Seq<char>| #[trigger]
        report::details(findings).contains(d) <==> made.detector_counts.contains(
            (d, report::details(findings).to_multiset().count(d)),
        ) by {
        assert(report::counts(report::details(findings)) == made.detector_counts);
    }
}

/// The program exits with one just where blockers were found and they count as a failure.
pub proof fn law_exit_status(
    repository: Repository,
    options: ScanOptions,
    duration_ms: u128,
    fail_on_findings: bool,
)
    requires
        scan::scanned(repository, options, duration_ms) is Ok,
    ensures
        ({
            let made = scan::scanned(repository, options, duration_ms)->Ok_0;
            &&& cli::exit_status(fail_on_findings, made.passed) == 1 <==> fail_on_findings
                && made.blocker_findings > 0
            &&& cli::exit_status(fail_on_findings, made.passed) == 0 <==> !fail_on_findings
                || made.blocker_findings == 0
        }),
{
    law_report_counts_its_findings(repository, options, duration_ms);
}

/// Every check has at most `n` findings.
pub open spec fn at_most_findings(checks: Seq<CheckModel>, n: nat) -> bool {
    forall|k: int| 0 <= k < checks.len() ==> (#[trigger] checks[k]).findings.len() <= n
}

proof fn lemma_checks_lines(checks: Seq<CheckModel>, m: nat, n: nat)
    requires
        at_most_findings(checks, m),
        at_most_findings(checks, n),
    ensures
        render::checks_lines(checks, m) == render::checks_lines(checks, n),
    decreases checks.len(),
{
    if checks.len() > 0 {
        let front = checks.drop_last();
        assert(forall|k: int| 0 <= k < front.len() ==> #[trigger] front[k] == checks[k]);
        lemma_checks_lines(front, m, n);
        assert(checks.last() == checks[checks.len() - 1]);
    }
}

/// A limit that no check exceeds leaves nothing out of the text: all such limits give the same.
pub proof fn law_limit_beyond_findings(made: ReportModel, m: nat, n: nat)
    requires
        at_most_findings(made.checks, m),
        at_most_findings(made.checks, n),
    ensures
        render::rendered(made, m) == render::rendered(made, n),
{
    lemma_checks_lines(made.checks, m, n);
}

/// `result` is the result of `finding` under the name of some check.
pub open spec fn is_result_for(result: JsonModel, finding: FindingModel) -> bool {
    exists|name: Seq<char>| result == #[trigger] sarif::result_of(name, finding)
}

proof fn lemma_results(checks: Seq<CheckModel>)
    ensures
        sarif::results(checks).len() == report::all_findings(checks).len(),
        forall|i: int|
            0 <= i < sarif::results(checks).len() ==> is_result_for(
                #[trigger] sarif::results(checks)[i],
                report::all_findings(checks)[i],
            ),
    decreases checks.len(),
{
    if checks.len() > 0 {
        let front = checks.drop_last();
        let last = checks.last();
        lemma_results(front);
        let before = sarif::results(front);
        assert forall|i: int| 0 <= i < sarif::results(checks).len() implies is_result_for(
            #[trigger] sarif::results(checks)[i],
            report::all_findings(checks)[i],
        ) by {
            if i < before.len() {
                assert(sarif::results(checks)[i] == before[i]);
                assert(report::all_findings(checks)[i] == report::all_findings(front)[i]);
            } else {
                let j = i - before.len();
                assert(sarif::results(checks)[i] == sarif::check_results(last)[j]);
                assert(report::all_findings(checks)[i] == last.findings[j]);
                assert(sarif::results(checks)[i] == sarif::result_of(last.name, last.findings[j]));
            }
        }
    }
}

/// The SARIF document of a scan has one result for every finding, in their order, and a rule for
/// the detail of every finding.
pub proof fn law_sarif_covers_findings(
    repository: Repository,
    options: ScanOptions,
    duration_ms: u128,
)
    requires
        scan::scanned(repository, options, duration_ms) is Ok,
    ensures
        ({
            let made = scan::scanned(repository, options, duration_ms)->Ok_0;
            let findings = report::all_findings(made.checks);
            let results = sarif::results(made.checks);
            &&& results.len() == findings.len()
            &&& forall|i: int|
                0 <= i < results.len() ==> is_result_for(#[trigger] results[i], findings[i])
            &&& forall|i: int|
                0 <= i < findings.len() ==> sarif::rules(made.detector_counts).contains(
                    sarif::rule_of((#[trigger] findings[i]).detail),
                )
        }),
{
    let made = scan::scanned(repository, options, duration_ms)->Ok_0;
    let findings = report::all_findings(made.checks);
    let all = report::details(findings);
    lemma_results(made.checks);
    report::lemma_counts(all);
    assert forall|i: int| 0 <= i < findings.len() implies sarif::rules(
        made.detector_counts,
    ).contains(sarif::rule_of((#[trigger] findings[i]).detail)) by {
        let d = findings[i].detail;
        assert(all[i] == d);
        assert(all.contains(d));
        let entry = (d, all.to_multiset().count(d));
        assert(made.detector_counts.contains(entry));
        let j = choose|j: int|
            0 <= j < made.detector_counts.len() && made.detector_counts[j] == entry;
        assert(sarif::rules(made.detector_counts)[j] == sarif::rule_of(d));
    }
}

/// How long a scan took shows in the report as its duration and nowhere else, and whether ignored
/// files were asked for shows in the listing alone.
pub proof fn law_report_depends_on_listing_and_limits(
    repository: Repository,
    options: ScanOptions,
    other: ScanOptions,
    duration_ms: u128,
    other_ms: u128,
)
    requires
        options.mode == other.mode,
        options.max_files == other.max_files,
        options.max_file_bytes == other.max_file_bytes,
    ensures
        scan::scanned(repository, other, other_ms) == (match scan::scanned(
            repository,
            options,
            duration_ms,
        ) {
            Ok(made) => Ok::<ReportModel, ScanError>(
                ReportModel { duration_ms: other_ms, ..made },
            ),
            Err(error) => Err(error),
        }),
{
    assert(repository.policy(options) == repository.policy(other));
}

} // verus!

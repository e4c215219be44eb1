//! A report as text.
use crate::number;
use crate::report;
use crate::report::{CheckModel, Finding, FindingModel, ReportModel, ScanCheck, ScanReport, Severity};
use vstd::prelude::*;

verus! {

/// How many findings of a check a text shows where nothing else is asked for.
pub const DEFAULT_TEXT_FINDING_LIMIT: usize = 8;

/// The name of a severity.
pub open spec fn severity_name(severity: Severity) -> Seq<char> {
    match severity {
        Severity::Blocker => "Blocker"@,
        Severity::Warning => "Warning"@,
    }
}

/// The line of a finding behind its path; nothing where it has none.
pub open spec fn line_suffix(line: Option<nat>) -> Seq<char> {
    match line {
        Some(n) => ":"@ + number::decimal(n),
        None => ""@,
    }
}

/// A finding as a line of text.
pub open spec fn finding_line(finding: FindingModel) -> Seq<char> {
    "  - "@ + severity_name(finding.severity) + ": "@ + finding.path + line_suffix(finding.line)
        + ": "@ + finding.detail + "\n"@
}

/// Findings as lines of text.
pub open spec fn finding_lines(findings: Seq<FindingModel>) -> Seq<char>
    decreases findings.len(),
{
    if findings.len() == 0 {
        Seq::empty()
    } else {
        finding_lines(findings.drop_last()) + finding_line(findings.last())
    }
}

/// The result of a check: its detail and, where it failed, how many findings it has.
pub open spec fn check_result(check: CheckModel) -> Seq<char> {
    if check.passed {
        check.detail
    } else {
        check.detail + " ("@ + number::decimal(check.findings.len()) + ")"@
    }
}

/// The line that says how many findings of a check are not shown; nothing where all are.
pub open spec fn omitted_line(count: nat, limit: nat) -> Seq<char> {
    if count > limit {
        "  - ... "@ + number::decimal((count - limit) as nat) + " more findings omitted\n"@
    } else {
        ""@
    }
}

/// The findings of a check that are shown.
pub open spec fn shown(findings: Seq<FindingModel>, limit: nat) -> Seq<FindingModel> {
    if findings.len() > limit {
        findings.take(limit as int)
    } else {
        findings
    }
}

/// A check as lines of text.
pub open spec fn check_lines(check: CheckModel, limit: nat) -> Seq<char> {
    "- "@ + check.name + ": "@ + check_result(check) + "\n"@ + finding_lines(
        shown(check.findings, limit),
    ) + omitted_line(check.findings.len(), limit)
}

/// Checks as lines of text.
pub open spec fn checks_lines(checks: Seq<CheckModel>, limit: nat) -> Seq<char>
    decreases checks.len(),
{
    if checks.len() == 0 {
        Seq::empty()
    } else {
        checks_lines(checks.drop_last(), limit) + check_lines(checks.last(), limit)
    }
}

/// The lines of a report above its checks.
pub open spec fn heading(report: ReportModel) -> Seq<char> {
    "CloseEnv scan: "@ + (if report.passed {
        "passed"@
    } else {
        "failed"@
    }) + "\nRoot: "@ + report.root + "\nFiles: scanned="@ + number::decimal(report.scanned_files)
        + " skipped="@ + number::decimal(report.skipped_files) + "\nFindings: blockers="@
        + number::decimal(report.blocker_findings) + " warnings="@ + number::decimal(
        report.warning_findings,
    ) + " duration_ms="@ + number::decimal(report.duration_ms as nat) + "\n"@
}

/// A report as text that shows at most `limit` findings of every check.
pub open spec fn rendered(report: ReportModel, limit: nat) -> Seq<char> {
    heading(report) + checks_lines(report.checks, limit)
}

/// A finding as a line of text.
fn render_finding(finding: &Finding) -> (r: String)
    ensures
        r@ == finding_line(finding@),
{
    let mut r = String::from_str("  - ");
    match finding.severity {
        Severity::Blocker => r.append("Blocker"),
        Severity::Warning => r.append("Warning"),
    }
    r.append(": ");
    r.append(finding.path.as_str());
    let ghost before = r@;
    match finding.line {
        Some(line) => {
            r.append(":");
            number::push_decimal(&mut r, line as u128);
        },
        None => {
            r.append("");
        },
    }
    assert(r@ == before + line_suffix(finding@.line));
    r.append(": ");
    r.append(finding.detail.as_str());
    r.append("\n");
    r
}

/// The first `count` findings as lines of text.
fn render_findings(findings: &Vec<Finding>, count: usize) -> (r: String)
    requires
        count <= findings@.len(),
    ensures
        r@ == finding_lines(report::finding_models(findings@).take(count as int)),
{
    let ghost all = report::finding_models(findings@);
    let mut r = String::new();
    let mut i: usize = 0;
    while i < count
        invariant
            i <= count <= findings@.len(),
            all == report::finding_models(findings@),
            r@ == finding_lines(all.take(i as int)),
        decreases count - i,
    {
        let line = render_finding(&findings[i]);
        proof {
            assert(all.take(i + 1).drop_last() == all.take(i as int));
            assert(all.take(i + 1).last() == findings@[i as int]@);
        }
        r.append(line.as_str());
        i = i + 1;
    }
    r
}

/// A check as lines of text.
fn render_check(check: &ScanCheck, limit: usize) -> (r: String)
    ensures
        r@ == check_lines(check@, limit as nat),
{
    let count = check.findings.len();
    let mut r = String::from_str("- ");
    r.append(check.name.as_str());
    r.append(": ");
    let ghost before = r@;
    r.append(check.detail.as_str());
    if !check.passed {
        r.append(" (");
        number::push_decimal(&mut r, count as u128);
        r.append(")");
    }
    assert(r@ == before + check_result(check@));
    r.append("\n");
    let kept = if count > limit {
        limit
    } else {
        count
    };
    let lines = render_findings(&check.findings, kept);
    proof {
        assert(check@.findings.take(kept as int) == shown(check@.findings, limit as nat));
    }
    r.append(lines.as_str());
    let ghost above = r@;
    if count > limit {
        r.append("  - ... ");
        number::push_decimal(&mut r, (count - limit) as u128);
        r.append(" more findings omitted\n");
    } else {
        r.append("");
    }
    assert(r@ == above + omitted_line(count as nat, limit as nat));
    r
}

/// The lines of a report above its checks.
fn render_heading(report: &ScanReport) -> (r: String)
    ensures
        r@ == heading(report@),
{
    let mut r = String::from_str("CloseEnv scan: ");
    if report.passed {
        r.append("passed");
    } else {
        r.append("failed");
    }
    r.append("\nRoot: ");
    r.append(report.root.as_str());
    r.append("\nFiles: scanned=");
    number::push_decimal(&mut r, report.scanned_files as u128);
    r.append(" skipped=");
    number::push_decimal(&mut r, report.skipped_files as u128);
    r.append("\nFindings: blockers=");
    number::push_decimal(&mut r, report.blocker_findings as u128);
    r.append(" warnings=");
    number::push_decimal(&mut r, report.warning_findings as u128);
    r.append(" duration_ms=");
    number::push_decimal(&mut r, report.duration_ms);
    r.append("\n");
    r
}

/// A report as text that shows at most `finding_limit` findings of every check.
pub fn report_text_with_limit(report: &ScanReport, finding_limit: usize) -> (r: String)
    ensures
        r@ == rendered(report@, finding_limit as nat),
{
    let ghost all = report@.checks;
    let mut r = render_heading(report);
    let ghost head = r@;
    let mut i: usize = 0;
    assert(head + checks_lines(all.take(0), finding_limit as nat) == head);
    while i < report.checks.len()
        invariant
            i <= report.checks@.len(),
            all == report::check_models(report.checks@),
            r@ == head + checks_lines(all.take(i as int), finding_limit as nat),
        decreases report.checks@.len() - i,
    {
        let lines = render_check(&report.checks[i], finding_limit);
        proof {
            assert(all.take(i + 1).drop_last() == all.take(i as int));
            assert(all.take(i + 1).last() == report.checks@[i as int]@);
            assert(head + checks_lines(all.take(i + 1), finding_limit as nat) == (head
                + checks_lines(all.take(i as int), finding_limit as nat)) + lines@);
        }
        r.append(lines.as_str());
        i = i + 1;
    }
    assert(all.take(i as int) == all);
    r
}

/// A report as text that shows the first findings of every check.
pub fn report_text(report: &ScanReport) -> (r: String)
    ensures
        r@ == rendered(report@, DEFAULT_TEXT_FINDING_LIMIT as nat),
{
    report_text_with_limit(report, DEFAULT_TEXT_FINDING_LIMIT)
}

/// How the program is used.
pub open spec fn help() -> Seq<char> {
    "CloseEnv\n\nUsage:\n  closeenv scan [path] [--json|--sarif] [--staged] [--include-ignored]\n                [--max-files <n>] [--max-file-bytes <bytes>] [--limit <n>] [--no-fail]\n\nChecks whether a repository is safe to publish without printing secret values.\n"@
}

/// How the program is used.
pub fn help_text() -> (r: &'static str)
    ensures
        r@ == help(),
{
    "CloseEnv\n\nUsage:\n  closeenv scan [path] [--json|--sarif] [--staged] [--include-ignored]\n                [--max-files <n>] [--max-file-bytes <bytes>] [--limit <n>] [--no-fail]\n\nChecks whether a repository is safe to publish without printing secret values.\n"
}

} // verus!

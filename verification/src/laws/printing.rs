//! What a report looks like as text and as SARIF, piece by piece.
use crate::json::JsonModel;
use crate::number;
use crate::render;
use crate::report;
use crate::report::{CheckModel, FindingModel, ReportModel, Severity};
use crate::sarif;
use crate::text;
use vstd::prelude::*;

verus! {

/// Digits: one for a number below ten, and one more for ten times a number and a digit.
pub proof fn law_decimal(n: nat, d: nat)
    requires
        d < 10,
    ensures
        number::decimal(d).len() == 1,
        number::decimal(d)[0] as int == 48 + d,
        n > 0 ==> number::decimal(10 * n + d) == number::decimal(n) + number::decimal(d),
{
    if n > 0 {
        let m = 10 * n + d;
        assert(m / 10 == n && m % 10 == d);
        assert(number::decimal(m) =~= number::decimal(n) + number::decimal(d));
    }
}

/// Signs and digits: a number is read with or without one plus sign; nothing else in front of the
/// digits, between or behind them is accepted, nor a number above the limit.
pub proof fn law_read_numbers(s: Seq<char>, max: nat)
    ensures
        number::parsed(s, max) is Some ==> s.len() > 0 && (s[0] == '+' || ('0' <= s[0] && s[0]
            <= '9')) && (forall|i: int|
            1 <= i < s.len() ==> '0' <= #[trigger] s[i] && s[i] <= '9') && ('0' <= s.last()
            && s.last() <= '9') && number::parsed(s, max)->0 <= max,
        s.len() > 0 && '0' <= s[0] && s[0] <= '9' ==> number::parsed(seq!['+'] + s, max)
            == number::parsed(s, max),
{
    let digits = number::without_sign(s);
    if number::parsed(s, max) is Some {
        assert forall|i: int| 1 <= i < s.len() implies '0' <= #[trigger] s[i] && s[i] <= '9' by {
            if s[0] == '+' {
                assert(s[i] == digits[i - 1]);
            } else {
                assert(s[i] == digits[i]);
            }
        }
        if s[0] == '+' {
            assert(digits[digits.len() - 1] == s.last());
        } else {
            assert(digits[0] == s[0]);
            assert(digits[digits.len() - 1] == s.last());
        }
    }
    if s.len() > 0 && '0' <= s[0] && s[0] <= '9' {
        assert((seq!['+'] + s).drop_first() =~= s);
    }
}

/// The limit decides whether a number is read, not which; zeros in front do not count, and a
/// digit behind makes it ten times as much and the digit.
pub proof fn law_numbers_and_limits(s: Seq<char>, c: char, max: nat, other: nat)
    requires
        number::parsed(s, max) is Some,
        '0' <= c && c <= '9',
    ensures
        number::parsed(s, other) == (if number::parsed(s, max)->0 <= other {
            number::parsed(s, max)
        } else {
            None
        }),
        s[0] != '+' ==> number::parsed(seq!['0'] + s, max) == number::parsed(s, max),
        ({
            let n = number::parsed(s, max)->0 * 10 + (c as int - 48);
            number::parsed(s.push(c), other) == (if n <= other {
                Some(n as nat)
            } else {
                None
            })
        }),
{
    let digits = number::without_sign(s);
    let longer = s.push(c);
    let more = number::without_sign(longer);
    if s[0] == '+' {
        assert(more =~= digits.push(c));
    } else {
        assert(more =~= digits.push(c));
        let zeroed = seq!['0'] + s;
        lemma_leading_zero(s);
        assert forall|i: int| 0 <= i < zeroed.len() implies text::ascii_digit(
            #[trigger] zeroed[i],
        ) by {
            if i > 0 {
                assert(zeroed[i] == digits[i - 1]);
            }
        }
    }
    assert(more.drop_last() =~= digits);
    assert forall|i: int| 0 <= i < more.len() implies text::ascii_digit(#[trigger] more[i]) by {
        if i < digits.len() {
            assert(more[i] == digits[i]);
        }
    }
}

proof fn lemma_leading_zero(s: Seq<char>)
    ensures
        number::digits_value(seq!['0'] + s) == number::digits_value(s),
    decreases s.len(),
{
    let longer = seq!['0'] + s;
    if s.len() == 0 {
        assert(longer.drop_last() =~= Seq::<char>::empty());
        assert(number::digits_value(longer.drop_last()) == 0);
    } else {
        assert(longer.drop_last() =~= seq!['0'] + s.drop_last());
        lemma_leading_zero(s.drop_last());
    }
}

/// The lines of findings follow one another, and each says the severity, the path, the line where
/// there is one, and the detail.
pub proof fn law_finding_lines(
    before: Seq<FindingModel>,
    finding: FindingModel,
    after: Seq<FindingModel>,
)
    ensures
        render::finding_lines(Seq::empty()).len() == 0,
        render::finding_lines(before + seq![finding] + after) == render::finding_lines(before)
            + "  - "@ + (match finding.severity {
            Severity::Blocker => "Blocker"@,
            Severity::Warning => "Warning"@,
        }) + ": "@ + finding.path + (match finding.line {
            Some(n) => ":"@ + number::decimal(n),
            None => ""@,
        }) + ": "@ + finding.detail + "\n"@ + render::finding_lines(after),
{
    let one = seq![finding];
    lemma_lines_add(before + one, after);
    lemma_lines_add(before, one);
    assert(one.drop_last() =~= Seq::empty());
    assert(render::finding_lines(one.drop_last()) =~= Seq::empty());
    let line = render::finding_line(finding);
    assert(render::finding_lines(one) =~= line);
    let a = render::finding_lines(before);
    let b = render::finding_lines(after);
    assert(render::finding_lines(before + one + after) == a + line + b);
    assert(a + line + b =~= a + "  - "@ + (match finding.severity {
        Severity::Blocker => "Blocker"@,
        Severity::Warning => "Warning"@,
    }) + ": "@ + finding.path + (match finding.line {
        Some(n) => ":"@ + number::decimal(n),
        None => ""@,
    }) + ": "@ + finding.detail + "\n"@ + b);
}

proof fn lemma_lines_add(a: Seq<FindingModel>, b: Seq<FindingModel>)
    ensures
        render::finding_lines(a + b) == render::finding_lines(a) + render::finding_lines(b),
    decreases b.len(),
{
    if b.len() == 0 {
        assert(a + b =~= a);
        assert(render::finding_lines(a) + render::finding_lines(b) =~= render::finding_lines(a));
    } else {
        assert((a + b).drop_last() =~= a + b.drop_last());
        lemma_lines_add(a, b.drop_last());
        assert(render::finding_lines(a + b) =~= render::finding_lines(a) + render::finding_lines(
            b,
        ));
    }
}

/// A check in the text: its name and its detail, with the number of its findings where it
/// failed, then its first findings up to the limit, then how many more there are.
pub open spec fn check_text(check: CheckModel, limit: nat) -> Seq<char> {
    let n = check.findings.len();
    "- "@ + check.name + ": "@ + check.detail + (if check.passed {
        Seq::empty()
    } else {
        " ("@ + number::decimal(n) + ")"@
    }) + "\n"@ + render::finding_lines(
        check.findings.take(
            (if n < limit {
                n
            } else {
                limit
            }) as int,
        ),
    ) + (if n > limit {
        "  - ... "@ + number::decimal((n - limit) as nat) + " more findings omitted\n"@
    } else {
        Seq::empty()
    })
}

/// The checks follow one another in the text.
pub proof fn law_check_lines(
    before: Seq<CheckModel>,
    check: CheckModel,
    after: Seq<CheckModel>,
    limit: nat,
)
    ensures
        render::checks_lines(Seq::empty(), limit).len() == 0,
        render::checks_lines(before + seq![check] + after, limit) == render::checks_lines(
            before,
            limit,
        ) + check_text(check, limit) + render::checks_lines(after, limit),
{
    reveal_strlit("");
    let one = seq![check];
    lemma_checks_add(before + one, after, limit);
    lemma_checks_add(before, one, limit);
    assert(one.drop_last() =~= Seq::empty());
    assert(render::checks_lines(one.drop_last(), limit) =~= Seq::empty());
    let n = check.findings.len();
    if n <= limit {
        assert(check.findings.take(n as int) =~= check.findings);
    }
    assert(render::shown(check.findings, limit) == check.findings.take(
        (if n < limit {
            n
        } else {
            limit
        }) as int,
    ));
    assert(render::check_lines(check, limit) =~= check_text(check, limit));
    assert(render::checks_lines(one, limit) =~= check_text(check, limit));
}

proof fn lemma_checks_add(a: Seq<CheckModel>, b: Seq<CheckModel>, limit: nat)
    ensures
        render::checks_lines(a + b, limit) == render::checks_lines(a, limit) + render::checks_lines(
            b,
            limit,
        ),
    decreases b.len(),
{
    if b.len() == 0 {
        assert(a + b =~= a);
        assert(render::checks_lines(a, limit) + render::checks_lines(b, limit)
            =~= render::checks_lines(a, limit));
    } else {
        assert((a + b).drop_last() =~= a + b.drop_last());
        lemma_checks_add(a, b.drop_last(), limit);
        assert(render::checks_lines(a + b, limit) =~= render::checks_lines(a, limit)
            + render::checks_lines(b, limit));
    }
}

/// A report as text: whether it passed, the root, the numbers, and then the checks.
pub proof fn law_text_report(made: ReportModel, limit: nat)
    ensures
        render::rendered(made, limit) == (if made.passed {
            "CloseEnv scan: passed\nRoot: "@
        } else {
            "CloseEnv scan: failed\nRoot: "@
        }) + made.root + "\nFiles: scanned="@ + number::decimal(made.scanned_files) + " skipped="@
            + number::decimal(made.skipped_files) + "\nFindings: blockers="@ + number::decimal(
            made.blocker_findings,
        ) + " warnings="@ + number::decimal(made.warning_findings) + " duration_ms="@
            + number::decimal(made.duration_ms as nat) + "\n"@ + render::checks_lines(
            made.checks,
            limit,
        ),
        render::DEFAULT_TEXT_FINDING_LIMIT == 8,
{
    reveal_strlit("CloseEnv scan: ");
    reveal_strlit("passed");
    reveal_strlit("failed");
    reveal_strlit("\nRoot: ");
    reveal_strlit("CloseEnv scan: passed\nRoot: ");
    reveal_strlit("CloseEnv scan: failed\nRoot: ");
    assert("CloseEnv scan: "@ + "passed"@ + "\nRoot: "@ =~= "CloseEnv scan: passed\nRoot: "@);
    assert("CloseEnv scan: "@ + "failed"@ + "\nRoot: "@ =~= "CloseEnv scan: failed\nRoot: "@);
}

/// The member `name` of an object: the first with that name.
pub open spec fn member(value: JsonModel, name: Seq<char>) -> Option<JsonModel> {
    match value {
        JsonModel::Object(members) => member_from(members, name, 0),
        _ => None,
    }
}

/// The first member called `name` from position `i` on.
pub open spec fn member_from(
    members: Seq<(Seq<char>, JsonModel)>,
    name: Seq<char>,
    i: int,
) -> Option<JsonModel>
    decreases members.len() - i,
{
    if i < 0 || i >= members.len() {
        None
    } else if members[i].0 == name {
        Some(members[i].1)
    } else {
        member_from(members, name, i + 1)
    }
}

/// The member `name` of the member `outer`.
pub open spec fn inner(value: JsonModel, outer: Seq<char>, name: Seq<char>) -> Option<JsonModel> {
    match member(value, outer) {
        Some(found) => member(found, name),
        None => None,
    }
}

/// A finding in SARIF: the rule is its detail, the level says its severity, the message names the
/// check and the detail, and its place is the path and the line, or the first line.
pub proof fn law_sarif_result(name: Seq<char>, finding: FindingModel)
    ensures
        ({
            let result = sarif::result_of(name, finding);
            &&& member(result, "ruleId"@) == Some(JsonModel::Text(finding.detail))
            &&& finding.severity == Severity::Blocker ==> member(result, "level"@) == Some(
                JsonModel::Text("error"@),
            )
            &&& finding.severity == Severity::Warning ==> member(result, "level"@) == Some(
                JsonModel::Text("warning"@),
            )
            &&& inner(result, "message"@, "text"@) == Some(
                JsonModel::Text(name + ": "@ + finding.detail),
            )
            &&& member(result, "locations"@) matches Some(JsonModel::List(places))
            &&& places.len() == 1
            &&& member(places[0], "physicalLocation"@) matches Some(place)
            &&& inner(place, "artifactLocation"@, "uri"@) == Some(JsonModel::Text(finding.path))
            &&& inner(place, "region"@, "startLine"@) == Some(
                JsonModel::Number(
                    match finding.line {
                        Some(n) => n,
                        None => 1,
                    },
                ),
            )
        }),
{
    reveal_with_fuel(member_from, 5);
    reveal_strlit("ruleId");
    reveal_strlit("level");
    reveal_strlit("message");
    reveal_strlit("locations");
    reveal_strlit("artifactLocation");
    reveal_strlit("region");
    assert("ruleId"@.len() == 6 && "level"@.len() == 5 && "message"@.len() == 7
        && "locations"@.len() == 9 && "artifactLocation"@.len() == 16 && "region"@.len() == 6);
    let result = sarif::result_of(name, finding);
    let members = seq![
        ("ruleId"@, JsonModel::Text(finding.detail)),
        ("level"@, JsonModel::Text(sarif::level(finding.severity))),
        (
            "message"@,
            sarif::wrapped("text"@, JsonModel::Text(name + ": "@ + finding.detail)),
        ),
        ("locations"@, JsonModel::List(seq![sarif::location(finding)])),
    ];
    assert(result == JsonModel::Object(members));
    assert(members[0].0 == "ruleId"@ && members[1].0 == "level"@ && members[2].0 == "message"@
        && members[3].0 == "locations"@);
}

/// A rule in SARIF carries the detail as its id, its name and its description.
pub proof fn law_sarif_rule(detail: Seq<char>)
    ensures
        member(sarif::rule_of(detail), "id"@) == Some(JsonModel::Text(detail)),
        member(sarif::rule_of(detail), "name"@) == Some(JsonModel::Text(detail)),
        inner(sarif::rule_of(detail), "shortDescription"@, "text"@) == Some(
            JsonModel::Text(detail),
        ),
{
    reveal_with_fuel(member_from, 4);
    reveal_strlit("id");
    reveal_strlit("name");
    reveal_strlit("shortDescription");
    assert("id"@.len() == 2 && "name"@.len() == 4 && "shortDescription"@.len() == 16);
}

/// The results of checks follow one another, one for each finding under the name of its check.
pub proof fn law_sarif_results(before: Seq<CheckModel>, check: CheckModel, after: Seq<CheckModel>)
    ensures
        sarif::results(Seq::empty()).len() == 0,
        sarif::results(before + seq![check] + after).len() == sarif::results(before).len()
            + check.findings.len() + sarif::results(after).len(),
        forall|i: int|
            0 <= i < check.findings.len() ==> sarif::results(before + seq![check]
                + after)[sarif::results(before).len() + i] == sarif::result_of(
                check.name,
                #[trigger] check.findings[i],
            ),
{
    let one = seq![check];
    lemma_results_add(before + one, after);
    lemma_results_add(before, one);
    assert(one.drop_last() =~= Seq::empty());
    assert(sarif::results(one.drop_last()) =~= Seq::empty());
    assert(sarif::results(one) =~= sarif::check_results(check));
}

proof fn lemma_results_add(a: Seq<CheckModel>, b: Seq<CheckModel>)
    ensures
        sarif::results(a + b) == sarif::results(a) + sarif::results(b),
    decreases b.len(),
{
    if b.len() == 0 {
        assert(a + b =~= a);
        assert(sarif::results(a) + sarif::results(b) =~= sarif::results(a));
    } else {
        assert((a + b).drop_last() =~= a + b.drop_last());
        lemma_results_add(a, b.drop_last());
        assert(sarif::results(a + b) =~= sarif::results(a) + sarif::results(b));
    }
}

/// A SARIF document names the schema, the version and the tool, and holds one run with the
/// counted details as rules and the findings as results.
pub proof fn law_sarif_document(made: ReportModel)
    ensures
        ({
            let document = sarif::document(made);
            &&& member(document, "$schema"@) == Some(
                JsonModel::Text("https://json.schemastore.org/sarif-2.1.0.json"@),
            )
            &&& member(document, "version"@) == Some(JsonModel::Text("2.1.0"@))
            &&& member(document, "runs"@) matches Some(JsonModel::List(runs))
            &&& runs.len() == 1
            &&& member(runs[0], "results"@) == Some(JsonModel::List(sarif::results(made.checks)))
            &&& inner(runs[0], "tool"@, "driver"@) matches Some(driver)
            &&& member(driver, "name"@) == Some(JsonModel::Text("CloseEnv"@))
            &&& member(driver, "informationUri"@) == Some(
                JsonModel::Text("https://github.com/once0811-arch/CloseEnv"@),
            )
            &&& member(driver, "rules"@) matches Some(JsonModel::List(rules))
            &&& rules.len() == made.detector_counts.len()
            &&& forall|i: int|
                0 <= i < rules.len() ==> #[trigger] rules[i] == sarif::rule_of(
                    made.detector_counts[i].0,
                )
        }),
{
    reveal_with_fuel(member_from, 4);
    reveal_strlit("$schema");
    reveal_strlit("version");
    reveal_strlit("runs");
    reveal_strlit("tool");
    reveal_strlit("results");
    reveal_strlit("name");
    reveal_strlit("informationUri");
    reveal_strlit("rules");
    assert("$schema"@[0] == '$' && "version"@[0] == 'v' && "runs"@.len() == 4 && "$schema"@.len()
        == 7 && "version"@.len() == 7 && "tool"@.len() == 4 && "results"@.len() == 7
        && "name"@.len() == 4 && "informationUri"@.len() == 14 && "rules"@.len() == 5);
}

/// The findings of a severity are counted one by one.
pub proof fn law_severity_counts(findings: Seq<FindingModel>, finding: FindingModel)
    ensures
        report::severity_count(Seq::empty(), Severity::Blocker) == 0,
        report::severity_count(Seq::empty(), Severity::Warning) == 0,
        report::severity_count(findings.push(finding), finding.severity) == report::severity_count(
            findings,
            finding.severity,
        ) + 1,
        forall|other: Severity|
            other != finding.severity ==> #[trigger] report::severity_count(
                findings.push(finding),
                other,
            ) == report::severity_count(findings, other),
{
    reveal(Seq::filter);
    assert(findings.push(finding).drop_last() =~= findings);
}

/// All findings are those of the checks, one check behind the other.
pub proof fn law_all_findings(checks: Seq<CheckModel>, check: CheckModel)
    ensures
        report::all_findings(Seq::empty()).len() == 0,
        report::all_findings(checks.push(check)) == report::all_findings(checks) + check.findings,
        report::details(check.findings).len() == check.findings.len(),
        forall|i: int|
            0 <= i < check.findings.len() ==> #[trigger] report::details(check.findings)[i]
                == check.findings[i].detail,
{
    assert(checks.push(check).drop_last() =~= checks);
}

} // verus!

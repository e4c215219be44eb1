//! A report in the format SARIF 2.1.0.
use crate::json;
use crate::json::{Json, JsonModel};
use crate::report;
use crate::report::{CheckModel, Finding, FindingModel, ReportModel, ScanCheck, ScanReport, Severity};
use vstd::prelude::*;

verus! {

/// The level of a severity.
pub open spec fn level(severity: Severity) -> Seq<char> {
    match severity {
        Severity::Blocker => "error"@,
        Severity::Warning => "warning"@,
    }
}

/// The line of a finding: the first where it has none.
pub open spec fn start_line(line: Option<nat>) -> nat {
    match line {
        Some(n) => n,
        None => 1,
    }
}

/// An object with one member.
pub open spec fn wrapped(name: Seq<char>, value: JsonModel) -> JsonModel {
    JsonModel::Object(seq![(name, value)])
}

/// Where a finding is.
pub open spec fn location(finding: FindingModel) -> JsonModel {
    wrapped(
        "physicalLocation"@,
        JsonModel::Object(
            seq![
                ("artifactLocation"@, wrapped("uri"@, JsonModel::Text(finding.path))),
                (
                    "region"@,
                    wrapped("startLine"@, JsonModel::Number(start_line(finding.line))),
                ),
            ],
        ),
    )
}

/// A finding of the check `name` as a result.
pub open spec fn result_of(name: Seq<char>, finding: FindingModel) -> JsonModel {
    JsonModel::Object(
        seq![
            ("ruleId"@, JsonModel::Text(finding.detail)),
            ("level"@, JsonModel::Text(level(finding.severity))),
            (
                "message"@,
                wrapped("text"@, JsonModel::Text(name + ": "@ + finding.detail)),
            ),
            ("locations"@, JsonModel::List(seq![location(finding)])),
        ],
    )
}

/// The findings of a check as results.
pub open spec fn check_results(check: CheckModel) -> Seq<JsonModel> {
    check.findings.map_values(|finding: FindingModel| result_of(check.name, finding))
}

/// The findings of all checks as results, in their order.
pub open spec fn results(checks: Seq<CheckModel>) -> Seq<JsonModel>
    decreases checks.len(),
{
    if checks.len() == 0 {
        Seq::empty()
    } else {
        results(checks.drop_last()) + check_results(checks.last())
    }
}

/// A detail as a rule.
pub open spec fn rule_of(detail: Seq<char>) -> JsonModel {
    JsonModel::Object(
        seq![
            ("id"@, JsonModel::Text(detail)),
            ("name"@, JsonModel::Text(detail)),
            ("shortDescription"@, wrapped("text"@, JsonModel::Text(detail))),
        ],
    )
}

/// The counted details as rules.
pub open spec fn rules(counts: Seq<(Seq<char>, nat)>) -> Seq<JsonModel> {
    counts.map_values(|entry: (Seq<char>, nat)| rule_of(entry.0))
}

/// The tool that made a report.
pub open spec fn driver(rules: Seq<JsonModel>) -> JsonModel {
    JsonModel::Object(
        seq![
            ("name"@, JsonModel::Text("CloseEnv"@)),
            (
                "informationUri"@,
                JsonModel::Text("https://github.com/once0811-arch/CloseEnv"@),
            ),
            ("rules"@, JsonModel::List(rules)),
        ],
    )
}

/// A report as a SARIF document.
pub open spec fn document(report: ReportModel) -> JsonModel {
    JsonModel::Object(
        seq![
            ("$schema"@, JsonModel::Text("https://json.schemastore.org/sarif-2.1.0.json"@)),
            ("version"@, JsonModel::Text("2.1.0"@)),
            (
                "runs"@,
                JsonModel::List(
                    seq![
                        JsonModel::Object(
                            seq![
                                (
                                    "tool"@,
                                    wrapped("driver"@, driver(rules(report.detector_counts))),
                                ),
                                ("results"@, JsonModel::List(results(report.checks))),
                            ],
                        ),
                    ],
                ),
            ),
        ],
    )
}

/// Where a finding is.
fn location_json(finding: &Finding) -> (r: Json)
    ensures
        r.model() == location(finding@),
{
    let uri = json::wrap("uri", json::text(finding.path.as_str()));
    let line: usize = match finding.line {
        Some(n) => n,
        None => 1,
    };
    let region = json::wrap("startLine", Json::Number(line));
    let ghost expected = seq![
        ("artifactLocation"@, uri.model()),
        ("region"@, region.model()),
    ];
    let members = vec![
        (String::from_str("artifactLocation"), uri),
        (String::from_str("region"), region),
    ];
    assert(json::member_models(members@) =~= expected);
    json::wrap("physicalLocation", json::object(members))
}

/// A finding of the check `name` as a result.
fn result_json(name: &str, finding: &Finding) -> (r: Json)
    ensures
        r.model() == result_of(name@, finding@),
{
    let rule = json::text(finding.detail.as_str());
    let severity = match finding.severity {
        Severity::Blocker => json::text("error"),
        Severity::Warning => json::text("warning"),
    };
    let mut words = String::from_str(name);
    words.append(": ");
    words.append(finding.detail.as_str());
    let message = json::wrap("text", json::text(words.as_str()));
    let place = location_json(finding);
    let ghost places = seq![place.model()];
    let items = vec![place];
    assert(json::item_models(items@) =~= places);
    let locations = json::list(items);
    let ghost expected = seq![
        ("ruleId"@, rule.model()),
        ("level"@, severity.model()),
        ("message"@, message.model()),
        ("locations"@, locations.model()),
    ];
    let members = vec![
        (String::from_str("ruleId"), rule),
        (String::from_str("level"), severity),
        (String::from_str("message"), message),
        (String::from_str("locations"), locations),
    ];
    assert(json::member_models(members@) =~= expected);
    json::object(members)
}

/// Appends the findings of a check as results.
fn append_results(out: &mut Vec<Json>, check: &ScanCheck)
    ensures
        json::item_models(final(out)@) == json::item_models(old(out)@) + check_results(check@),
{
    let ghost before = json::item_models(out@);
    let ghost all = check_results(check@);
    let mut i: usize = 0;
    assert(before + all.take(0) == before);
    while i < check.findings.len()
        invariant
            i <= check.findings@.len(),
            all == check_results(check@),
            json::item_models(out@) == before + all.take(i as int),
        decreases check.findings@.len() - i,
    {
        let next = result_json(check.name.as_str(), &check.findings[i]);
        proof {
            assert(check@.findings[i as int] == check.findings@[i as int]@);
            assert(all[i as int] == next.model());
            assert(json::item_models(out@.push(next)) =~= json::item_models(out@).push(
                next.model(),
            ));
            assert(before + all.take(i + 1) == (before + all.take(i as int)).push(all[i as int]));
        }
        out.push(next);
        i = i + 1;
    }
    assert(all.take(i as int) == all);
}

/// The findings of all checks as results.
fn results_json(checks: &Vec<ScanCheck>) -> (r: Vec<Json>)
    ensures
        json::item_models(r@) == results(report::check_models(checks@)),
{
    let ghost all = report::check_models(checks@);
    let mut r: Vec<Json> = Vec::new();
    let mut i: usize = 0;
    assert(json::item_models(r@) =~= results(all.take(0)));
    while i < checks.len()
        invariant
            i <= checks@.len(),
            all == report::check_models(checks@),
            json::item_models(r@) == results(all.take(i as int)),
        decreases checks@.len() - i,
    {
        proof {
            assert(all.take(i + 1).drop_last() == all.take(i as int));
            assert(all.take(i + 1).last() == checks@[i as int]@);
        }
        append_results(&mut r, &checks[i]);
        i = i + 1;
    }
    assert(all.take(i as int) == all);
    r
}

/// A detail as a rule.
fn rule_json(detail: &str) -> (r: Json)
    ensures
        r.model() == rule_of(detail@),
{
    let id = json::text(detail);
    let name = json::text(detail);
    let description = json::wrap("text", json::text(detail));
    let ghost expected = seq![
        ("id"@, id.model()),
        ("name"@, name.model()),
        ("shortDescription"@, description.model()),
    ];
    let members = vec![
        (String::from_str("id"), id),
        (String::from_str("name"), name),
        (String::from_str("shortDescription"), description),
    ];
    assert(json::member_models(members@) =~= expected);
    json::object(members)
}

/// The counted details as rules.
fn rules_json(entries: &Vec<(String, usize)>) -> (r: Vec<Json>)
    ensures
        json::item_models(r@) == rules(report::entry_texts(entries@)),
{
    let ghost all = rules(report::entry_texts(entries@));
    let mut r: Vec<Json> = Vec::new();
    let mut i: usize = 0;
    while i < entries.len()
        invariant
            i <= entries@.len(),
            all == rules(report::entry_texts(entries@)),
            json::item_models(r@) == all.take(i as int),
        decreases entries@.len() - i,
    {
        let next = rule_json(entries[i].0.as_str());
        proof {
            assert(report::entry_texts(entries@)[i as int].0 == entries@[i as int].0@);
            assert(all[i as int] == next.model());
            assert(json::item_models(r@.push(next)) =~= json::item_models(r@).push(next.model()));
            assert(all.take(i + 1) == all.take(i as int).push(all[i as int]));
        }
        r.push(next);
        i = i + 1;
    }
    assert(all.take(i as int) == all);
    r
}

/// The tool that made a report.
fn driver_json(rules: Vec<Json>) -> (r: Json)
    ensures
        r.model() == driver(json::item_models(rules@)),
{
    let name = json::text("CloseEnv");
    let information = json::text("https://github.com/once0811-arch/CloseEnv");
    let rules = json::list(rules);
    let ghost expected = seq![
        ("name"@, name.model()),
        ("informationUri"@, information.model()),
        ("rules"@, rules.model()),
    ];
    let members = vec![
        (String::from_str("name"), name),
        (String::from_str("informationUri"), information),
        (String::from_str("rules"), rules),
    ];
    assert(json::member_models(members@) =~= expected);
    json::object(members)
}

/// A report as a SARIF document.
pub fn sarif_report(report: &ScanReport) -> (r: Json)
    ensures
        r.model() == document(report@),
{
    let tool = json::wrap("driver", driver_json(rules_json(report.detector_counts.entries())));
    let found = json::list(results_json(&report.checks));
    let ghost expected = seq![("tool"@, tool.model()), ("results"@, found.model())];
    let members = vec![(String::from_str("tool"), tool), (String::from_str("results"), found)];
    assert(json::member_models(members@) =~= expected);
    let run = json::object(members);
    let ghost run_models = seq![run.model()];
    let items = vec![run];
    assert(json::item_models(items@) =~= run_models);
    let schema = json::text("https://json.schemastore.org/sarif-2.1.0.json");
    let version = json::text("2.1.0");
    let runs = json::list(items);
    let ghost top = seq![
        ("$schema"@, schema.model()),
        ("version"@, version.model()),
        ("runs"@, runs.model()),
    ];
    let members = vec![
        (String::from_str("$schema"), schema),
        (String::from_str("version"), version),
        (String::from_str("runs"), runs),
    ];
    assert(json::member_models(members@) =~= top);
    json::object(members)
}

} // verus!

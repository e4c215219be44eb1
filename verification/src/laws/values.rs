//! A report names files, lines and labels, and no secret that a detector finds in a file.
use crate::checks;
use crate::checks::{ContentCheck, InputModel};
use crate::detect;
use crate::detect::Detector;
use crate::dotenv;
use crate::laws::detections;
use crate::laws::lists;
use crate::listing;
use crate::order;
use crate::outside;
use crate::package;
use crate::paths;
use crate::policy::ScanOptions;
use crate::report;
use crate::report::{CheckModel, FindingModel, Severity};
use crate::scan;
use crate::scan::Repository;
use crate::text;
use vstd::prelude::*;

verus! {

/// The labels of the rules on file names.
pub open spec fn file_labels() -> Seq<Seq<char>> {
    seq![
        "ssh-private-key-file"@,
        "npm-token-file"@,
        "pypi-token-file"@,
        "netrc-credential-file"@,
        "direnv-state-file"@,
        "aws-credentials-file"@,
        "kubeconfig-file"@,
        "google-service-account-file"@,
        "service-account-file"@,
    ]
}

/// A line of the dotenv file `body` sets the variable `key`.
pub open spec fn sets_variable(body: Seq<char>, key: Seq<char>) -> bool {
    exists|k: int|
        0 <= k < dotenv::dotenv_pairs(body).len() && (#[trigger] dotenv::dotenv_pairs(body)[k]).0
            == key
}

/// The package with the members `document` has a script called `name`.
pub open spec fn has_script(
    document: Option<Seq<(Seq<char>, Option<Seq<(Seq<char>, Option<Seq<char>>)>>)>>,
    name: Seq<char>,
) -> bool {
    match document {
        None => false,
        Some(members) => match package::inner_members(members, "scripts"@) {
            None => false,
            Some(scripts) => exists|k: int|
                0 <= k < scripts.len() && (#[trigger] scripts[k]).0 == name,
        },
    }
}

/// `path` is a location where tools keep secrets. Where the scan is to stay with staged paths, one
/// of them is there.
pub open spec fn state_place(path: Seq<char>, input: InputModel) -> bool {
    &&& checks::state_locations().contains(path)
    &&& input.staged matches Some(list) ==> checks::reaches(list, path)
}

/// A finding of the dotenv files that git tracks, of the dotenv files among the scanned files, or
/// of the places where tools keep secrets: it has no line, and its detail is the same for every
/// file.
pub open spec fn path_finding(finding: FindingModel, input: InputModel) -> bool {
    &&& finding.line is None
    &&& {
        ||| input.tracked_here().contains(finding.path) && finding.detail
            == "tracked dotenv value file"@
        ||| input.files.contains(finding.path) && finding.detail
            == "dotenv value file in working tree"@
        ||| input.files.contains(finding.path) && file_labels().contains(finding.detail)
        ||| state_place(finding.path, input) && finding.detail
            == "repo-local secret or environment state"@
    }
}

/// A finding of `detector`: its label and the number of a line of `body` on which it finds
/// something.
pub open spec fn on_line(
    finding: FindingModel,
    body: Seq<char>,
    high_entropy: Seq<bool>,
    detector: Detector,
) -> bool {
    &&& finding.detail == detector.label()
    &&& finding.line matches Some(line) && 1 <= line <= text::lines(body).len() && detector.finds(
        text::lines(body)[line - 1],
        detect::verdict(high_entropy, line - 1),
    )
}

/// A finding of what the file at position `i` holds: the label of a detector with the number of
/// a line, the name of a variable that the file sets or of a script that the file has, in which
/// no detector finds anything, or a detail that is the same for every file.
pub open spec fn content_finding(finding: FindingModel, input: InputModel, i: int) -> bool {
    &&& 0 <= i < input.files.len()
    &&& finding.path == input.files[i]
    &&& {
        ||| input.small_text_at(i) matches Ok(Some(body)) && exists|detector: Detector| #[trigger]
            on_line(finding, body, input.reads[i].high_entropy@, detector)
        ||| finding.line is None && exists|key: Seq<char>|
            dotenv::env_key(key) && !detect::reveals(key) && finding.detail
                == #[trigger] checks::variable_named(key) && input.text_at(i) is Ok
                && sets_variable(input.text_at(i)->Ok_0, key)
        ||| finding.line is None && exists|name: Seq<char>|
            !detect::reveals(name) && finding.detail == #[trigger] checks::script_named(name)
                && input.text_at(i) is Ok && has_script(
                outside::json_members(input.text_at(i)->Ok_0),
                name,
            )
        ||| finding.line is None && finding.detail
            == "a variable has a concrete value in an example env file"@
        ||| finding.line is None && finding.detail == "a script loads a dotenv value file"@
        ||| finding.line is None && finding.detail
            == "Docker Compose env_file can point at plaintext env"@
    }
}

/// A finding names a file, at most a line, and a label, or a variable or a script whose name
/// gives nothing away.
pub open spec fn value_free(finding: FindingModel, input: InputModel) -> bool {
    ||| path_finding(finding, input)
    ||| exists|i: int| #[trigger] content_finding(finding, input, i)
}

proof fn lemma_dotenv_findings(
    s: Seq<Seq<char>>,
    allowed: Seq<Seq<char>>,
    detail: Seq<char>,
    finding: FindingModel,
)
    requires
        s.filter_map(checks::dotenv_rule(allowed, detail)).contains(finding),
    ensures
        s.contains(finding.path),
        finding == report::blocker(finding.path, detail),
{
    let rule = checks::dotenv_rule(allowed, detail);
    lists::lemma_filter_map_contains(s, rule, finding);
    let i = choose|i: int| 0 <= i < s.len() && rule(#[trigger] s[i]) == Some(finding);
    assert(s[i] == finding.path);
}

proof fn lemma_file_name_findings(
    s: Seq<Seq<char>>,
    ignored: Seq<Seq<char>>,
    finding: FindingModel,
)
    requires
        s.filter_map(checks::file_name_rule(ignored)).contains(finding),
    ensures
        s.contains(finding.path),
        finding == report::blocker(finding.path, finding.detail),
        file_labels().contains(finding.detail),
        !ignored.contains(finding.detail),
{
    let rule = checks::file_name_rule(ignored);
    lists::lemma_filter_map_contains(s, rule, finding);
    let i = choose|i: int| 0 <= i < s.len() && rule(#[trigger] s[i]) == Some(finding);
    let labels = file_labels();
    assert(s[i] == finding.path);
    assert(paths::sensitive_file_label(s[i]) == Some(finding.detail));
    assert(labels[0] == "ssh-private-key-file"@ && labels[1] == "npm-token-file"@ && labels[2]
        == "pypi-token-file"@ && labels[3] == "netrc-credential-file"@ && labels[4]
        == "direnv-state-file"@ && labels[5] == "aws-credentials-file"@ && labels[6]
        == "kubeconfig-file"@ && labels[7] == "google-service-account-file"@ && labels[8]
        == "service-account-file"@);
}

proof fn lemma_state_findings(input: InputModel, finding: FindingModel)
    requires
        checks::state_locations().filter_map(
            checks::state_rule(input.existing_state, input.staged),
        ).contains(finding),
    ensures
        state_place(finding.path, input),
        finding == report::blocker(finding.path, "repo-local secret or environment state"@),
{
    let s = checks::state_locations();
    let rule = checks::state_rule(input.existing_state, input.staged);
    lists::lemma_filter_map_contains(s, rule, finding);
    let i = choose|i: int| 0 <= i < s.len() && rule(#[trigger] s[i]) == Some(finding);
    assert(s[i] == finding.path);
}

proof fn lemma_first_concrete(pairs: Seq<(Seq<char>, Seq<char>)>)
    requires
        checks::first_concrete(pairs) is Some,
    ensures
        exists|k: int|
            0 <= k < pairs.len() && (#[trigger] pairs[k]).0 == checks::first_concrete(pairs)->0
                && !dotenv::example_value_safe(pairs[k].0, pairs[k].1),
    decreases pairs.len(),
{
    if dotenv::example_value_safe(pairs[0].0, pairs[0].1) {
        let rest = pairs.drop_first();
        lemma_first_concrete(rest);
        let k = choose|k: int|
            0 <= k < rest.len() && (#[trigger] rest[k]).0 == checks::first_concrete(rest)->0
                && !dotenv::example_value_safe(rest[k].0, rest[k].1);
        assert(pairs[k + 1] == rest[k]);
    } else {
        assert(pairs[0].0 == checks::first_concrete(pairs)->0);
    }
}

/// A check that looks into files finds things in files.
pub proof fn lemma_gathered_contains(
    check: ContentCheck,
    input: InputModel,
    n: nat,
    finding: FindingModel,
)
    requires
        check.gathered(input, n) is Ok,
    ensures
        check.gathered(input, n)->Ok_0.contains(finding) <==> exists|i: int|
            0 <= i < n && (#[trigger] check.findings_at(input, i)) is Ok && check.findings_at(
                input,
                i,
            )->Ok_0.contains(finding),
        forall|i: int| 0 <= i < n ==> (#[trigger] check.findings_at(input, i)) is Ok,
    decreases n,
{
    if n > 0 {
        let before = check.gathered(input, (n - 1) as nat);
        lemma_gathered_contains(check, input, (n - 1) as nat, finding);
        let own = check.findings_at(input, n - 1);
        let all = check.gathered(input, n)->Ok_0;
        assert(all == before->Ok_0 + own->Ok_0);
        if all.contains(finding) {
            let j = choose|j: int| 0 <= j < all.len() && all[j] == finding;
            if j < before->Ok_0.len() {
                assert(before->Ok_0[j] == finding);
            } else {
                assert(own->Ok_0[j - before->Ok_0.len()] == finding);
            }
        }
        if own->Ok_0.contains(finding) {
            let j = choose|j: int| 0 <= j < own->Ok_0.len() && own->Ok_0[j] == finding;
            assert(all[before->Ok_0.len() + j] == finding);
        }
        if before->Ok_0.contains(finding) {
            let j = choose|j: int| 0 <= j < before->Ok_0.len() && before->Ok_0[j] == finding;
            assert(all[j] == finding);
        }
    }
}

proof fn lemma_content_findings(
    check: ContentCheck,
    input: InputModel,
    i: int,
    finding: FindingModel,
)
    requires
        0 <= i < input.files.len(),
        check.findings_at(input, i) is Ok,
        check.findings_at(input, i)->Ok_0.contains(finding),
    ensures
        content_finding(finding, input, i),
        finding.severity == Severity::Blocker,
{
    let path = input.files[i];
    match check {
        ContentCheck::RawPatterns => {
            let body = input.small_text_at(i)->Ok_0->0;
            let high_entropy = input.reads[i].high_entropy@;
            let found = detect::detections(body, high_entropy);
            let rule = checks::raw_rule(path, input.policy.ignore_detectors);
            lists::lemma_filter_map_contains(found, rule, finding);
            let k = choose|k: int| 0 <= k < found.len() && rule(#[trigger] found[k]) == Some(
                finding,
            );
            let detectors = Detector::all();
            let detection = detect::detection_rule(body, high_entropy);
            assert(found.contains(found[k]));
            lists::lemma_filter_map_contains(detectors, detection, found[k]);
            let m = choose|m: int| 0 <= m < detectors.len() && detection(#[trigger] detectors[m])
                == Some(found[k]);
            let detector = detectors[m];
            assert(detect::detection(detector, body, high_entropy) == Some(found[k]));
            assert(finding.detail == detector.label());
            detections::lemma_first_line(detector, text::lines(body), high_entropy, 0);
            assert(on_line(finding, body, high_entropy, detector));
        },
        ContentCheck::Examples => {
            let body = input.text_at(i)->Ok_0;
            let pairs = dotenv::dotenv_pairs(body);
            lemma_first_concrete(pairs);
            let key = checks::first_concrete(pairs)->0;
            assert(finding == report::blocker(path, checks::concrete_detail(key)));
            let k = choose|k: int| 0 <= k < pairs.len() && (#[trigger] pairs[k]).0 == key;
            assert(pairs.contains(pairs[k]));
            lists::lemma_filter_map_contains(text::lines(body), dotenv::pair_rule(), pairs[k]);
            assert(dotenv::env_key(key));
            assert(sets_variable(body, key));
        },
        ContentCheck::Scripts => {
            let body = input.text_at(i)->Ok_0;
            let document = outside::json_members(body);
            let names = package::loading_scripts(document);
            let all = checks::script_findings(path, document);
            let j = choose|j: int| 0 <= j < all.len() && all[j] == finding;
            let name = names[j];
            assert(finding == report::blocker(path, checks::script_detail(name)));
            let scripts = package::inner_members(document->0, "scripts"@)->0;
            assert(names.contains(name));
            lists::lemma_filter_map_contains(scripts, package::script_rule(), name);
            let k = choose|k: int|
                0 <= k < scripts.len() && package::script_rule()(#[trigger] scripts[k]) == Some(
                    name,
                );
            assert(scripts[k].0 == name);
            assert(has_script(document, name));
        },
        ContentCheck::Compose => {},
    }
}

proof fn lemma_all_findings_contains(checks: Seq<CheckModel>, finding: FindingModel)
    requires
        report::all_findings(checks).contains(finding),
    ensures
        exists|k: int| 0 <= k < checks.len() && (#[trigger] checks[k]).findings.contains(finding),
    decreases checks.len(),
{
    if checks.len() > 0 {
        let front = checks.drop_last();
        let before = report::all_findings(front);
        let all = report::all_findings(checks);
        let j = choose|j: int| 0 <= j < all.len() && all[j] == finding;
        if j < before.len() {
            assert(before[j] == finding);
            lemma_all_findings_contains(front, finding);
            let k = choose|k: int|
                0 <= k < front.len() && (#[trigger] front[k]).findings.contains(finding);
            assert(checks[k].findings.contains(finding));
        } else {
            assert(checks.last().findings[j - before.len()] == finding);
            assert(checks[checks.len() - 1].findings.contains(finding));
        }
    }
}

/// What the checks find is free of values and a blocker.
pub proof fn law_checks_are_value_free(input: InputModel)
    requires
        scan::checked(input) is Ok,
    ensures
        forall|finding: FindingModel| #[trigger]
            report::all_findings(scan::checked(input)->Ok_0).contains(finding) ==> value_free(
                finding,
                input,
            ) && finding.severity == Severity::Blocker,
{
    let checks = scan::checked(input)->Ok_0;
    let n = input.files.len();
    assert forall|finding: FindingModel| #[trigger]
        report::all_findings(checks).contains(finding) implies value_free(finding, input)
        && finding.severity == Severity::Blocker by {
        lemma_all_findings_contains(checks, finding);
        let k = choose|k: int|
            0 <= k < checks.len() && (#[trigger] checks[k]).findings.contains(finding);
        let allowed = input.policy.allow_value_env_paths;
        if k == 0 {
            let kept = order::sorted_set(input.tracked_here());
            lemma_dotenv_findings(kept, allowed, "tracked dotenv value file"@, finding);
            order::lemma_sorted_set(input.tracked_here());
            assert(path_finding(finding, input));
        } else if k == 1 {
            lemma_dotenv_findings(
                input.files,
                allowed,
                "dotenv value file in working tree"@,
                finding,
            );
            assert(path_finding(finding, input));
        } else if k == 3 {
            lemma_file_name_findings(input.files, input.policy.ignore_detectors, finding);
            assert(path_finding(finding, input));
        } else if k == 5 {
            lemma_state_findings(input, finding);
            assert(path_finding(finding, input));
        } else {
            let check = if k == 2 {
                ContentCheck::Examples
            } else if k == 4 {
                ContentCheck::RawPatterns
            } else if k == 6 {
                ContentCheck::Scripts
            } else {
                ContentCheck::Compose
            };
            assert(checks[k].findings == check.outcome(input)->Ok_0);
            lemma_gathered_contains(check, input, n, finding);
            let i = choose|i: int|
                0 <= i < n && (#[trigger] check.findings_at(input, i)) is Ok && check.findings_at(
                    input,
                    i,
                )->Ok_0.contains(finding);
            lemma_content_findings(check, input, i, finding);
            assert(content_finding(finding, input, i));
        }
    }
}

/// A report never shows a secret that a detector finds in a file: a finding names a path that was
/// listed or is a fixed location, and says of it a fixed label, with the number of a line on
/// which the label's detector finds something, or the name of a variable or of a script in which
/// no detector finds anything.
pub proof fn law_report_is_value_free(
    repository: Repository,
    options: ScanOptions,
    duration_ms: u128,
)
    requires
        scan::scanned(repository, options, duration_ms) is Ok,
    ensures
        ({
            let found = listing::collected(repository.listing, repository.policy(options));
            let input = repository.input(options, found->Ok_0.0);
            let checks = scan::scanned(repository, options, duration_ms)->Ok_0.checks;
            &&& found is Ok
            &&& forall|finding: FindingModel| #[trigger]
                report::all_findings(checks).contains(finding) ==> value_free(finding, input)
        }),
{
    let found = listing::collected(repository.listing, repository.policy(options));
    law_checks_are_value_free(repository.input(options, found->Ok_0.0));
}

/// An example of a dotenv file gives a finding just where it sets a variable to a value that no
/// example may show, and never more than one.
pub proof fn law_examples_need_placeholders(path: Seq<char>, body: Seq<char>)
    ensures
        checks::example_findings(path, body).len() <= 1,
        checks::example_findings(path, body).len() == 1 <==> exists|k: int|
            0 <= k < dotenv::dotenv_pairs(body).len() && !dotenv::example_value_safe(
                (#[trigger] dotenv::dotenv_pairs(body)[k]).0,
                dotenv::dotenv_pairs(body)[k].1,
            ),
{
    let pairs = dotenv::dotenv_pairs(body);
    if checks::first_concrete(pairs) is Some {
        lemma_first_concrete(pairs);
        let k = choose|k: int|
            0 <= k < pairs.len() && (#[trigger] pairs[k]).0 == checks::first_concrete(pairs)->0
                && !dotenv::example_value_safe(pairs[k].0, pairs[k].1);
        assert(!dotenv::example_value_safe(pairs[k].0, pairs[k].1));
    } else {
        lemma_none_concrete(pairs);
    }
}

proof fn lemma_none_concrete(pairs: Seq<(Seq<char>, Seq<char>)>)
    requires
        checks::first_concrete(pairs) is None,
    ensures
        forall|k: int|
            0 <= k < pairs.len() ==> dotenv::example_value_safe(
                (#[trigger] pairs[k]).0,
                pairs[k].1,
            ),
    decreases pairs.len(),
{
    if pairs.len() > 0 {
        let rest = pairs.drop_first();
        lemma_none_concrete(rest);
        assert forall|k: int| 0 <= k < pairs.len() implies dotenv::example_value_safe(
            (#[trigger] pairs[k]).0,
            pairs[k].1,
        ) by {
            if k > 0 {
                assert(pairs[k] == rest[k - 1]);
            }
        }
    }
}

} // verus!

//! What a policy changes of a scan.
use crate::checks;
use crate::checks::{ContentCheck, InputModel};
use crate::detect;
use crate::detect::Detector;
use crate::dotenv;
use crate::error::ScanError;
use crate::laws::lists;
use crate::order;
use crate::paths;
use crate::policy;
use crate::policy::{CloseEnvConfig, PolicyModel, ScanOptions};
use crate::report;
use crate::report::FindingModel;
use crate::text;
use vstd::prelude::*;

verus! {

/// The findings with another detail than `detail` pass.
pub open spec fn other_detail(detail: Seq<char>) -> spec_fn(FindingModel) -> bool {
    |finding: FindingModel| finding.detail != detail
}

/// `policy` with one detector more that is ignored.
pub open spec fn also_ignoring(policy: PolicyModel, detector: Seq<char>) -> PolicyModel {
    PolicyModel { ignore_detectors: policy.ignore_detectors.push(detector), ..policy }
}

proof fn lemma_push_contains(s: Seq<Seq<char>>, x: Seq<char>)
    ensures
        forall|y: Seq<char>| #[trigger] s.push(x).contains(y) <==> s.contains(y) || y == x,
{
    assert forall|y: Seq<char>| #[trigger] s.push(x).contains(y) <==> s.contains(y) || y
        == x by {
        if s.contains(y) {
            let i = choose|i: int| 0 <= i < s.len() && s[i] == y;
            assert(s.push(x)[i] == y);
        }
        if y == x {
            assert(s.push(x)[s.len() as int] == y);
        }
    }
}

proof fn lemma_raw_findings_ignoring(
    path: Seq<char>,
    body: Seq<char>,
    high_entropy: Seq<bool>,
    ignored: Seq<Seq<char>>,
    detector: Seq<char>,
)
    ensures
        checks::raw_findings(path, body, high_entropy, ignored.push(detector))
            == checks::raw_findings(path, body, high_entropy, ignored).filter(
            other_detail(detector),
        ),
{
    lemma_push_contains(ignored, detector);
    lists::lemma_filter_map_filter(
        detect::detections(body, high_entropy),
        checks::raw_rule(path, ignored),
        checks::raw_rule(path, ignored.push(detector)),
        other_detail(detector),
    );
}

proof fn lemma_raw_outcome_ignoring(
    input: InputModel,
    narrow: InputModel,
    detector: Seq<char>,
    n: nat,
)
    requires
        narrow == (InputModel { policy: also_ignoring(input.policy, detector), ..input }),
    ensures
        ContentCheck::RawPatterns.gathered(narrow, n) == (match ContentCheck::RawPatterns.gathered(
            input,
            n,
        ) {
            Ok(found) => Ok::<Seq<FindingModel>, ScanError>(found.filter(other_detail(detector))),
            Err(error) => Err(error),
        }),
    decreases n,
{
    let check = ContentCheck::RawPatterns;
    reveal(Seq::filter);
    if n > 0 {
        let i = n - 1;
        lemma_raw_outcome_ignoring(input, narrow, detector, i as nat);
        if let Ok(before) = check.gathered(input, i as nat) {
            assert(Seq::<FindingModel>::empty().filter(other_detail(detector)) == Seq::<
                FindingModel,
            >::empty());
            if let Ok(Some(body)) = input.small_text_at(i) {
                lemma_raw_findings_ignoring(
                    input.files[i],
                    body,
                    input.reads[i].high_entropy@,
                    input.policy.ignore_detectors,
                    detector,
                );
            }
            if let Ok(own) = check.findings_at(input, i) {
                Seq::filter_distributes_over_add(before, own, other_detail(detector));
            }
        }
    }
}

proof fn lemma_other_outcome_ignoring(
    check: ContentCheck,
    input: InputModel,
    narrow: InputModel,
    n: nat,
)
    requires
        check != ContentCheck::RawPatterns,
        narrow.files == input.files,
        narrow.reads == input.reads,
        narrow.policy.max_file_bytes == input.policy.max_file_bytes,
    ensures
        check.gathered(narrow, n) == check.gathered(input, n),
    decreases n,
{
    if n > 0 {
        lemma_other_outcome_ignoring(check, input, narrow, (n - 1) as nat);
        assert(check.findings_at(narrow, n - 1) == check.findings_at(input, n - 1));
    }
}

/// Ignoring one more detector takes its findings out of the checks of secret patterns and of
/// file names and changes nothing else about them.
pub proof fn law_ignoring_a_detector(input: InputModel, detector: Seq<char>)
    ensures
        ({
            let narrow = InputModel { policy: also_ignoring(input.policy, detector), ..input };
            &&& ContentCheck::RawPatterns.outcome(narrow) == (
            match ContentCheck::RawPatterns.outcome(input) {
                Ok(found) => Ok::<Seq<FindingModel>, ScanError>(
                    found.filter(other_detail(detector)),
                ),
                Err(error) => Err(error),
            })
            &&& checks::sensitive_file_names_check(narrow).findings
                == checks::sensitive_file_names_check(input).findings.filter(
                other_detail(detector),
            )
            &&& checks::tracked_dotenv_check(narrow) == checks::tracked_dotenv_check(input)
            &&& checks::working_tree_dotenv_check(narrow) == checks::working_tree_dotenv_check(
                input,
            )
            &&& checks::repo_secret_state_check(narrow) == checks::repo_secret_state_check(input)
            &&& checks::example_files_check(narrow) == checks::example_files_check(input)
            &&& checks::package_scripts_check(narrow) == checks::package_scripts_check(input)
            &&& checks::compose_env_files_check(narrow) == checks::compose_env_files_check(input)
        }),
{
    let narrow = InputModel { policy: also_ignoring(input.policy, detector), ..input };
    let n = input.files.len();
    lemma_other_outcome_ignoring(ContentCheck::Examples, input, narrow, n);
    lemma_other_outcome_ignoring(ContentCheck::Scripts, input, narrow, n);
    lemma_other_outcome_ignoring(ContentCheck::Compose, input, narrow, n);
    lemma_raw_outcome_ignoring(input, narrow, detector, input.files.len());
    lemma_push_contains(input.policy.ignore_detectors, detector);
    lists::lemma_filter_map_filter(
        input.files,
        checks::file_name_rule(input.policy.ignore_detectors),
        checks::file_name_rule(narrow.policy.ignore_detectors),
        other_detail(detector),
    );
}

/// A dotenv file that the policy allows to hold values is found neither among the tracked nor
/// among the scanned files; one that it does not allow is.
pub proof fn law_allowed_dotenv_files(input: InputModel, path: Seq<char>)
    ensures
        checks::tracked_dotenv_check(input).findings.contains(
            report::blocker(path, "tracked dotenv value file"@),
        ) <==> input.tracked_here().contains(path) && dotenv::dotenv_value_path(path)
            && !paths::covered(input.policy.allow_value_env_paths, path),
        checks::working_tree_dotenv_check(input).findings.contains(
            report::blocker(path, "dotenv value file in working tree"@),
        ) <==> input.files.contains(path) && dotenv::dotenv_value_path(path)
            && !paths::covered(input.policy.allow_value_env_paths, path),
{
    let allowed = input.policy.allow_value_env_paths;
    let kept = order::sorted_set(input.tracked_here());
    order::lemma_sorted_set(input.tracked_here());
    assert(kept.contains(path) <==> input.tracked_here().contains(path));
    lemma_dotenv_finding(kept, allowed, "tracked dotenv value file"@, path);
    lemma_dotenv_finding(input.files, allowed, "dotenv value file in working tree"@, path);
}

proof fn lemma_dotenv_finding(
    s: Seq<Seq<char>>,
    allowed: Seq<Seq<char>>,
    detail: Seq<char>,
    path: Seq<char>,
)
    ensures
        s.filter_map(checks::dotenv_rule(allowed, detail)).contains(report::blocker(path, detail))
            <==> s.contains(path) && dotenv::dotenv_value_path(path) && !paths::covered(
            allowed,
            path,
        ),
{
    let rule = checks::dotenv_rule(allowed, detail);
    let finding = report::blocker(path, detail);
    lists::lemma_filter_map_contains(s, rule, finding);
    if s.filter_map(rule).contains(finding) {
        let i = choose|i: int| 0 <= i < s.len() && rule(#[trigger] s[i]) == Some(finding);
        assert(s[i] == finding.path);
    }
    if s.contains(path) && dotenv::dotenv_value_path(path) && !paths::covered(
        allowed,
        path,
    ) {
        let i = choose|i: int| 0 <= i < s.len() && s[i] == path;
        assert(rule(s[i]) == Some(finding));
    }
}

/// Of the paths that a configuration allows, those that look like secrets do not count, and all
/// others do.
pub proof fn law_secret_allowlist_entries_do_not_count(config: CloseEnvConfig, entry: Seq<char>)
    ensures
        policy::policy_of(config).allow_value_env_paths.contains(entry)
            <==> policy::allowed_paths(config).contains(entry) && !policy::looks_secret(entry),
{
    let all = policy::allowed_paths(config);
    let rule = policy::not_secret_rule();
    let kept = all.filter(rule);
    if kept.contains(entry) {
        all.lemma_filter_contains_rev(rule, entry);
        let i = choose|i: int| 0 <= i < kept.len() && kept[i] == entry;
        all.lemma_filter_pred(rule, i);
    }
    if all.contains(entry) && !policy::looks_secret(entry) {
        let i = choose|i: int| 0 <= i < all.len() && all[i] == entry;
        all.lemma_filter_contains(rule, i);
    }
}

proof fn lemma_label_bytes(s: Seq<char>)
    requires
        forall|i: int| 0 <= i < s.len() ==> policy::label_char(#[trigger] s[i]),
    ensures
        text::byte_len(s) == s.len(),
    decreases s.len(),
{
    if s.len() > 0 {
        let rest = s.drop_first();
        assert forall|i: int| 0 <= i < rest.len() implies policy::label_char(
            #[trigger] rest[i],
        ) by {
            assert(rest[i] == s[i + 1]);
        }
        lemma_label_bytes(rest);
        assert(policy::label_char(s[0]));
    }
}

/// Of the detectors that a configuration ignores, those with the form of a label count, and the
/// label of every detector has that form.
pub proof fn law_every_detector_can_be_ignored(config: CloseEnvConfig, detector: Detector)
    ensures
        policy::safe_detector_name(detector.label()),
        policy::policy_of(config).ignore_detectors.contains(detector.label())
            <==> policy::ignored_detectors(config).contains(detector.label()),
{
    let label = detector.label();
    reveal_strlit("aws-access-key-id");
    reveal_strlit("bearer-token");
    reveal_strlit("database-url");
    reveal_strlit("envforge-token");
    reveal_strlit("github-token");
    reveal_strlit("google-api-key");
    reveal_strlit("google-service-account");
    reveal_strlit("jwt-like-token");
    reveal_strlit("npm-token");
    reveal_strlit("openai-token");
    reveal_strlit("private-key");
    reveal_strlit("sensitive-assignment");
    reveal_strlit("signed-url");
    reveal_strlit("slack-token");
    reveal_strlit("stripe-secret-key");
    assert forall|i: int| 0 <= i < label.len() implies policy::label_char(
        #[trigger] label[i],
    ) by {}
    lemma_label_bytes(label);
    let all = policy::ignored_detectors(config);
    let rule = policy::safe_name_rule();
    let kept = all.filter(rule);
    order::lemma_sorted_set(kept);
    assert(order::sorted_set(kept).contains(label) <==> kept.contains(label));
    if kept.contains(label) {
        all.lemma_filter_contains_rev(rule, label);
    }
    if all.contains(label) {
        let i = choose|i: int| 0 <= i < all.len() && all[i] == label;
        all.lemma_filter_contains(rule, i);
    }
}

/// A limit of the options outweighs one of the configuration, one under `closeenv` outweighs
/// one at the top level, and where none is given the defaults hold.
pub proof fn law_limits(config: CloseEnvConfig, options: ScanOptions)
    ensures
        ({
            let made = policy::with_options(policy::configured_policy(Some(config)), options);
            let plain = policy::with_options(policy::configured_policy(None), options);
            let inner = config.closeenv;
            &&& options.max_files matches Some(n) ==> made.max_files == n && plain.max_files == n
            &&& options.max_files is None ==> plain.max_files == policy::DEFAULT_MAX_SCAN_FILES
            &&& options.max_files is None && inner is Some ==> (inner->0.max_files matches Some(
                n,
            ) ==> made.max_files == n)
            &&& options.max_files is None && (inner is None || inner->0.max_files is None) ==> (
            config.max_files matches Some(n) ==> made.max_files == n)
            &&& options.max_files is None && (inner is None || inner->0.max_files is None)
                && config.max_files is None ==> made.max_files == policy::DEFAULT_MAX_SCAN_FILES
            &&& options.max_file_bytes matches Some(n) ==> made.max_file_bytes == n
                && plain.max_file_bytes == n
            &&& options.max_file_bytes is None ==> plain.max_file_bytes
                == policy::DEFAULT_MAX_TEXT_FILE_BYTES
            &&& options.max_file_bytes is None && inner is Some ==> (
            inner->0.max_file_bytes matches Some(n) ==> made.max_file_bytes == n)
            &&& options.max_file_bytes is None && (inner is None
                || inner->0.max_file_bytes is None) ==> (config.max_file_bytes matches Some(n)
                ==> made.max_file_bytes == n)
            &&& options.max_file_bytes is None && (inner is None
                || inner->0.max_file_bytes is None) && config.max_file_bytes is None
                ==> made.max_file_bytes == policy::DEFAULT_MAX_TEXT_FILE_BYTES
        }),
{
}

} // verus!

//! The checks of a scan.
use crate::content;
use crate::content::{FileRead, ReadFault};
use crate::detect;
use crate::dotenv;
use crate::error::ScanError;
use crate::listing;
use crate::order;
use crate::outside;
use crate::outside::JsonMembers;
use crate::package;
use crate::paths;
use crate::policy;
use crate::policy::{PolicyModel, ScanPolicy};
use crate::report;
use crate::report::{CheckModel, Finding, FindingModel, ScanCheck};
use crate::text;
use vstd::prelude::*;

verus! {

/// What the checks look at. The files are read one after the other, and what the checks find in
/// a file is all that is kept of it.
pub struct ScanInput {
    files: Vec<String>,
    tracked_files: Vec<String>,
    existing_state: Vec<String>,
    staged: Option<Vec<String>>,
    policy: ScanPolicy,
    reads: Ghost<Seq<FileRead>>,
    taken: usize,
    examples: Result<Vec<Finding>, ScanError>,
    patterns: Result<Vec<Finding>, ScanError>,
    scripts: Result<Vec<Finding>, ScanError>,
    compose: Result<Vec<Finding>, ScanError>,
}

/// What the checks look at.
pub struct InputModel {
    /// The files that are scanned.
    pub files: Seq<Seq<char>>,
    /// What was read of the files, each at the position of its file.
    pub reads: Seq<FileRead>,
    /// The files that git tracks.
    pub tracked_files: Seq<Seq<char>>,
    /// The paths of [`state_paths`] at which there is something.
    pub existing_state: Seq<Seq<char>>,
    /// The paths that are staged, ignored ones too, where the scan is to stay with them.
    pub staged: Option<Seq<Seq<char>>>,
    pub policy: PolicyModel,
}

impl View for ScanInput {
    type V = InputModel;

    closed spec fn view(&self) -> InputModel {
        InputModel {
            files: text::texts(self.files@),
            reads: self.reads@,
            tracked_files: text::texts(self.tracked_files@),
            existing_state: text::texts(self.existing_state@),
            staged: listing::list_texts(self.staged),
            policy: self.policy@,
        }
    }
}

impl ScanInput {
    /// What the checks found is what they find in the files that were read so far.
    #[verifier::type_invariant]
    spec fn keeps_findings(self) -> bool {
        let n = self.taken as nat;
        &&& n <= self.files@.len()
        &&& n <= self.reads@.len()
        &&& n < self.files@.len() ==> n == self.reads@.len()
        &&& findings_outcome(self.examples) == ContentCheck::Examples.gathered(self@, n)
        &&& findings_outcome(self.patterns) == ContentCheck::RawPatterns.gathered(self@, n)
        &&& findings_outcome(self.scripts) == ContentCheck::Scripts.gathered(self@, n)
        &&& findings_outcome(self.compose) == ContentCheck::Compose.gathered(self@, n)
    }
}

/// The finding of a dotenv file that holds values, unless the policy allows it.
pub open spec fn dotenv_rule(allowed: Seq<Seq<char>>, detail: Seq<char>) -> spec_fn(
    Seq<char>,
) -> Option<FindingModel> {
    |path: Seq<char>|
        if dotenv::dotenv_value_path(path) && !paths::covered(allowed, path) {
            Some(report::blocker(path, detail))
        } else {
            None
        }
}

/// The finding of a file whose name gives it away, unless its detector is ignored.
pub open spec fn file_name_rule(ignored: Seq<Seq<char>>) -> spec_fn(Seq<char>) -> Option<
    FindingModel,
> {
    |path: Seq<char>|
        match paths::sensitive_file_label(path) {
            Some(label) => if ignored.contains(label) {
                None
            } else {
                Some(report::blocker(path, label))
            },
            None => None,
        }
}

/// Where tools keep secrets and environments inside a repository.
pub open spec fn state_locations() -> Seq<Seq<char>> {
    seq![
        ".envforge/token"@,
        ".envforge/session.json"@,
        ".envforge/tokens.json"@,
        ".envforge/tokens"@,
        ".closeenv/tmp"@,
        ".closeenv/session.json"@,
        ".envrc"@,
        ".direnv"@,
    ]
}

/// The paths that are among `list` pass.
pub open spec fn among_rule(list: Seq<Seq<char>>) -> spec_fn(Seq<char>) -> bool {
    |path: Seq<char>| list.contains(path)
}

/// A path of `list` is `location` or below it.
pub open spec fn reaches(list: Seq<Seq<char>>, location: Seq<char>) -> bool {
    exists|i: int| 0 <= i < list.len() && paths::covers(location + "/**"@, #[trigger] list[i])
}

/// The finding of a location at which there is something. Where the scan is to stay with staged
/// paths, one of them has to be there.
pub open spec fn state_rule(
    existing: Seq<Seq<char>>,
    staged: Option<Seq<Seq<char>>>,
) -> spec_fn(Seq<char>) -> Option<FindingModel> {
    |location: Seq<char>|
        if existing.contains(location) && (staged matches Some(list) ==> reaches(list, location)) {
            Some(report::blocker(location, "repo-local secret or environment state"@))
        } else {
            None
        }
}

/// The first name that is set to a value that no example may show.
pub open spec fn first_concrete(pairs: Seq<(Seq<char>, Seq<char>)>) -> Option<Seq<char>>
    decreases pairs.len(),
{
    if pairs.len() == 0 {
        None
    } else if !dotenv::example_value_safe(pairs[0].0, pairs[0].1) {
        Some(pairs[0].0)
    } else {
        first_concrete(pairs.drop_first())
    }
}

/// The detail that names the variable `key`.
pub open spec fn variable_named(key: Seq<char>) -> Seq<char> {
    key + " has a concrete value in an example env file"@
}

/// The detail of an example that sets `key` to a value that no example may show. A name in which
/// a detector finds something is left out.
pub open spec fn concrete_detail(key: Seq<char>) -> Seq<char> {
    if detect::reveals(key) {
        "a variable has a concrete value in an example env file"@
    } else {
        variable_named(key)
    }
}

/// What is found in the example of a dotenv file at `path` with the text `body`.
pub open spec fn example_findings(path: Seq<char>, body: Seq<char>) -> Seq<FindingModel> {
    match first_concrete(dotenv::dotenv_pairs(body)) {
        Some(key) => seq![report::blocker(path, concrete_detail(key))],
        None => Seq::empty(),
    }
}

/// The finding of a detection, unless its detector is ignored.
pub open spec fn raw_rule(path: Seq<char>, ignored: Seq<Seq<char>>) -> spec_fn(
    (Seq<char>, nat),
) -> Option<FindingModel> {
    |found: (Seq<char>, nat)|
        if ignored.contains(found.0) {
            None
        } else {
            Some(report::line_blocker(path, found.0, found.1))
        }
}

/// What the detectors find in the file at `path` with the text `body`.
pub open spec fn raw_findings(
    path: Seq<char>,
    body: Seq<char>,
    high_entropy: Seq<bool>,
    ignored: Seq<Seq<char>>,
) -> Seq<FindingModel> {
    detect::detections(body, high_entropy).filter_map(raw_rule(path, ignored))
}

/// The detail that names the script `name`.
pub open spec fn script_named(name: Seq<char>) -> Seq<char> {
    "script "@ + name + " loads a dotenv value file"@
}

/// The detail of a script that loads a dotenv file that holds values. A name in which a detector
/// finds something is left out.
pub open spec fn script_detail(name: Seq<char>) -> Seq<char> {
    if detect::reveals(name) {
        "a script loads a dotenv value file"@
    } else {
        script_named(name)
    }
}

/// What is found in the package at `path` with the members `document`.
pub open spec fn script_findings(
    path: Seq<char>,
    document: Option<Seq<(Seq<char>, Option<Seq<(Seq<char>, Option<Seq<char>>)>>)>>,
) -> Seq<FindingModel> {
    package::loading_scripts(document).map_values(
        |name: Seq<char>| report::blocker(path, script_detail(name)),
    )
}

/// What is found in the Docker Compose file at `path` with the text `body`.
pub open spec fn compose_findings(path: Seq<char>, body: Seq<char>) -> Seq<FindingModel> {
    if paths::names_env_file(body) {
        seq![report::blocker(path, "Docker Compose env_file can point at plaintext env"@)]
    } else {
        Seq::empty()
    }
}

/// The error that the file at position `i` gives.
pub open spec fn located(fault: ReadFault, i: int) -> ScanError {
    match fault {
        ReadFault::Unreadable => ScanError::Unreadable(i as usize),
        ReadFault::OverCap => ScanError::OverCap(i as usize),
    }
}

/// A check that looks into files.
#[derive(Debug, Clone, Copy, PartialEq, Eq, Structural)]
pub enum ContentCheck {
    Examples,
    RawPatterns,
    Scripts,
    Compose,
}

/// The text of the file at position `i`, which has to be there in full.
pub open spec fn full_text(read: Option<FileRead>, max_bytes: u64, i: int) -> Result<
    Seq<char>,
    ScanError,
> {
    match read {
        None => Err(ScanError::Unreadable(i as usize)),
        Some(found) => match content::limited_text(found, max_bytes) {
            Ok(body) => Ok(body),
            Err(fault) => Err(located(fault, i)),
        },
    }
}

/// The text of the file at position `i`, where it is a text that is short enough.
pub open spec fn short_text(read: Option<FileRead>, max_bytes: u64, i: int) -> Result<
    Option<Seq<char>>,
    ScanError,
> {
    match read {
        None => Err(ScanError::Unreadable(i as usize)),
        Some(found) => match content::small_text(found, max_bytes) {
            Ok(body) => Ok(body),
            Err(fault) => Err(located(fault, i)),
        },
    }
}

impl InputModel {
    /// What was read of the file at position `i`, if anything was.
    pub open spec fn read_at(self, i: int) -> Option<FileRead> {
        if 0 <= i < self.reads.len() {
            Some(self.reads[i])
        } else {
            None
        }
    }

    /// The text of the file at position `i`, which has to be there in full.
    pub open spec fn text_at(self, i: int) -> Result<Seq<char>, ScanError> {
        full_text(self.read_at(i), self.policy.max_file_bytes, i)
    }

    /// The text of the file at position `i`, where it is a text that is short enough.
    pub open spec fn small_text_at(self, i: int) -> Result<Option<Seq<char>>, ScanError> {
        short_text(self.read_at(i), self.policy.max_file_bytes, i)
    }

    /// The tracked files that are looked at: where the scan is to stay with staged paths, those
    /// among them.
    pub open spec fn tracked_here(self) -> Seq<Seq<char>> {
        match self.staged {
            None => self.tracked_files,
            Some(list) => self.tracked_files.filter(among_rule(list)),
        }
    }
}

impl ContentCheck {
    /// This check looks into the file at `path`.
    pub open spec fn concerns(self, path: Seq<char>) -> bool {
        match self {
            ContentCheck::Examples => dotenv::dotenv_example_path(path),
            ContentCheck::RawPatterns => paths::text_scan_candidate(path),
            ContentCheck::Scripts => text::ends_with(path, "package.json"@),
            ContentCheck::Compose => paths::compose_file(path),
        }
    }

    /// What this check finds in the file at `path`, which stands at position `i`.
    pub open spec fn findings_in(
        self,
        path: Seq<char>,
        read: Option<FileRead>,
        policy: PolicyModel,
        i: int,
    ) -> Result<Seq<FindingModel>, ScanError> {
        let max_bytes = policy.max_file_bytes;
        if !self.concerns(path) {
            Ok(Seq::empty())
        } else {
            match self {
                ContentCheck::RawPatterns => match short_text(read, max_bytes, i) {
                    Err(error) => Err(error),
                    Ok(None) => Ok(Seq::empty()),
                    Ok(Some(body)) => Ok(
                        raw_findings(path, body, read->0.high_entropy@, policy.ignore_detectors),
                    ),
                },
                ContentCheck::Examples => match full_text(read, max_bytes, i) {
                    Err(error) => Err(error),
                    Ok(body) => Ok(example_findings(path, body)),
                },
                ContentCheck::Scripts => match full_text(read, max_bytes, i) {
                    Err(error) => Err(error),
                    Ok(body) => Ok(script_findings(path, outside::json_members(body))),
                },
                ContentCheck::Compose => match full_text(read, max_bytes, i) {
                    Err(error) => Err(error),
                    Ok(body) => Ok(compose_findings(path, body)),
                },
            }
        }
    }

    /// What this check finds in the file at position `i`.
    pub open spec fn findings_at(self, input: InputModel, i: int) -> Result<
        Seq<FindingModel>,
        ScanError,
    > {
        self.findings_in(input.files[i], input.read_at(i), input.policy, i)
    }

    /// What this check finds in the first `n` files, in their order. The first file that
    /// cannot be read ends it.
    pub open spec fn gathered(self, input: InputModel, n: nat) -> Result<
        Seq<FindingModel>,
        ScanError,
    >
        decreases n,
    {
        if n == 0 {
            Ok(Seq::empty())
        } else {
            match self.gathered(input, (n - 1) as nat) {
                Err(error) => Err(error),
                Ok(before) => match self.findings_at(input, n - 1) {
                    Err(error) => Err(error),
                    Ok(own) => Ok(before + own),
                },
            }
        }
    }

    /// What this check finds in all files.
    pub open spec fn outcome(self, input: InputModel) -> Result<Seq<FindingModel>, ScanError> {
        self.gathered(input, input.files.len())
    }
}

/// What a check finds in the first files depends on them and what was read of them alone.
pub proof fn lemma_gathered_prefix(
    check: ContentCheck,
    input: InputModel,
    other: InputModel,
    n: nat,
)
    requires
        n <= input.files.len(),
        input.files == other.files,
        input.policy == other.policy,
        forall|i: int| 0 <= i < n ==> #[trigger] input.read_at(i) == other.read_at(i),
    ensures
        check.gathered(input, n) == check.gathered(other, n),
    decreases n,
{
    if n > 0 {
        lemma_gathered_prefix(check, input, other, (n - 1) as nat);
        assert(input.read_at(n - 1) == other.read_at(n - 1));
    }
}

/// The findings of the dotenv files among `list` that hold values.
fn dotenv_value_findings(list: &[String], policy: &ScanPolicy, detail: &str) -> (r: Vec<Finding>)
    ensures
        report::finding_models(r@) == text::texts(list@).filter_map(
            dotenv_rule(policy@.allow_value_env_paths, detail@),
        ),
{
    let ghost all = text::texts(list@);
    let ghost rule = dotenv_rule(policy@.allow_value_env_paths, detail@);
    let mut r: Vec<Finding> = Vec::new();
    let mut i: usize = 0;
    assert(report::finding_models(r@) =~= all.take(0).filter_map(rule));
    while i < list.len()
        invariant
            i <= list@.len(),
            all == text::texts(list@),
            rule == dotenv_rule(policy@.allow_value_env_paths, detail@),
            report::finding_models(r@) == all.take(i as int).filter_map(rule),
        decreases list@.len() - i,
    {
        let path = list[i].as_str();
        proof {
            assert(all.take(i + 1).drop_last() == all.take(i as int));
            assert(all[i as int] == path@);
        }
        if dotenv::is_dotenv_value_path(&text::chars_of(path))
            && !policy::policy_allows_value_env_path(path, policy) {
            let found = report::finding(path, detail);
            proof {
                report::lemma_findings_push(r@, found);
            }
            r.push(found);
        }
        i = i + 1;
    }
    assert(all.take(i as int) == all);
    r
}

/// What the check of tracked dotenv files says.
pub open spec fn tracked_dotenv_check(input: InputModel) -> CheckModel {
    report::check_of(
        "tracked dotenv files"@,
        "none"@,
        "remove tracked dotenv files"@,
        order::sorted_set(input.tracked_here()).filter_map(
            dotenv_rule(input.policy.allow_value_env_paths, "tracked dotenv value file"@),
        ),
    )
}

/// Checks that git tracks no dotenv file that holds values.
pub fn check_tracked_dotenv(input: &ScanInput) -> (r: ScanCheck)
    ensures
        r@ == tracked_dotenv_check(input@),
{
    let looked_at = input.keep_tracked();
    let kept = order::sort_set(&looked_at);
    let findings = dotenv_value_findings(&kept, &input.policy, "tracked dotenv value file");
    report::check("tracked dotenv files", "none", "remove tracked dotenv files", findings)
}

/// What the check of dotenv files says.
pub open spec fn working_tree_dotenv_check(input: InputModel) -> CheckModel {
    report::check_of(
        "working tree dotenv files"@,
        "none"@,
        "remove dotenv value files"@,
        input.files.filter_map(
            dotenv_rule(input.policy.allow_value_env_paths, "dotenv value file in working tree"@),
        ),
    )
}

/// Checks that no scanned file is a dotenv file that holds values.
pub fn check_working_tree_dotenv(input: &ScanInput) -> (r: ScanCheck)
    ensures
        r@ == working_tree_dotenv_check(input@),
{
    let findings = dotenv_value_findings(
        &input.files,
        &input.policy,
        "dotenv value file in working tree",
    );
    report::check("working tree dotenv files", "none", "remove dotenv value files", findings)
}

/// What the check of file names says.
pub open spec fn sensitive_file_names_check(input: InputModel) -> CheckModel {
    report::check_of(
        "sensitive file names"@,
        "none"@,
        "remove private key, credential, or environment state files"@,
        input.files.filter_map(file_name_rule(input.policy.ignore_detectors)),
    )
}

/// Checks that no scanned file has a name that gives it away.
pub fn check_sensitive_file_names(input: &ScanInput) -> (r: ScanCheck)
    ensures
        r@ == sensitive_file_names_check(input@),
{
    let ghost all = text::texts(input.files@);
    let ghost rule = file_name_rule(input.policy@.ignore_detectors);
    let mut findings: Vec<Finding> = Vec::new();
    let mut i: usize = 0;
    assert(report::finding_models(findings@) =~= all.take(0).filter_map(rule));
    while i < input.files.len()
        invariant
            i <= input.files@.len(),
            all == text::texts(input.files@),
            rule == file_name_rule(input.policy@.ignore_detectors),
            report::finding_models(findings@) == all.take(i as int).filter_map(rule),
        decreases input.files@.len() - i,
    {
        let path = input.files[i].as_str();
        proof {
            assert(all.take(i + 1).drop_last() == all.take(i as int));
            assert(all[i as int] == path@);
        }
        match paths::sensitive_file_name_detector(path) {
            None => {},
            Some(label) => if !text::is_listed(&input.policy.ignore_detectors, label) {
                let found = report::finding(path, label);
                proof {
                    report::lemma_findings_push(findings@, found);
                }
                findings.push(found);
            },
        }
        i = i + 1;
    }
    assert(all.take(i as int) == all);
    report::check(
        "sensitive file names",
        "none",
        "remove private key, credential, or environment state files",
        findings,
    )
}

/// Where tools keep secrets and environments inside a repository.
pub fn state_paths() -> (r: [&'static str; 8])
    ensures
        text::strs(r@) == state_locations(),
{
    let r = [
        ".envforge/token",
        ".envforge/session.json",
        ".envforge/tokens.json",
        ".envforge/tokens",
        ".closeenv/tmp",
        ".closeenv/session.json",
        ".envrc",
        ".direnv",
    ];
    assert(text::strs(r@) =~= state_locations());
    r
}

/// What the check of secret state says.
pub open spec fn repo_secret_state_check(input: InputModel) -> CheckModel {
    report::check_of(
        "repo-local secret state"@,
        "none"@,
        "move secret state outside the repository"@,
        state_locations().filter_map(state_rule(input.existing_state, input.staged)),
    )
}

/// Checks that no tool keeps secrets or environments inside the repository.
pub fn check_repo_secret_state(input: &ScanInput) -> (r: ScanCheck)
    ensures
        r@ == repo_secret_state_check(input@),
{
    let locations = state_paths();
    let ghost all = state_locations();
    let ghost rule = state_rule(input@.existing_state, input@.staged);
    let mut findings: Vec<Finding> = Vec::new();
    let mut i: usize = 0;
    assert(report::finding_models(findings@) =~= all.take(0).filter_map(rule));
    while i < 8
        invariant
            i <= 8,
            all.len() == 8,
            text::strs(locations@) == all,
            rule == state_rule(input@.existing_state, input@.staged),
            report::finding_models(findings@) == all.take(i as int).filter_map(rule),
        decreases 8 - i,
    {
        let location = locations[i];
        proof {
            assert(all.take(i + 1).drop_last() == all.take(i as int));
            assert(all[i as int] == location@);
        }
        if text::is_listed(&input.existing_state, location) && input.stays_with(location) {
            let found = report::finding(location, "repo-local secret or environment state");
            proof {
                report::lemma_findings_push(findings@, found);
            }
            findings.push(found);
        }
        i = i + 1;
    }
    assert(all.take(i as int) == all);
    report::check(
        "repo-local secret state",
        "none",
        "move secret state outside the repository",
        findings,
    )
}

/// What is found in the example of a dotenv file at `path` with the text `body`.
pub fn find_concrete_example(path: &str, body: &str) -> (r: Vec<Finding>)
    ensures
        report::finding_models(r@) == example_findings(path@, body@),
{
    let pairs = dotenv::parse_dotenv_pairs(body);
    let ghost all = dotenv::pair_texts(pairs@);
    let mut r: Vec<Finding> = Vec::new();
    let mut i: usize = 0;
    assert(all.skip(0) == all);
    while i < pairs.len()
        invariant
            i <= pairs@.len(),
            all == dotenv::pair_texts(pairs@),
            all == dotenv::dotenv_pairs(body@),
            r@.len() == 0,
            first_concrete(all) == first_concrete(all.skip(i as int)),
        decreases pairs@.len() - i,
    {
        let key = &pairs[i].0;
        proof {
            assert(all[i as int] == (pairs@[i as int].0@, pairs@[i as int].1@));
            assert(all.skip(i as int)[0] == all[i as int]);
            assert(all.skip(i as int).drop_first() == all.skip(i + 1));
        }
        if !dotenv::example_value_is_safe(
            &text::chars_of(key.as_str()),
            &text::chars_of(pairs[i].1.as_str()),
        ) {
            let detail = if detect::reveals_secret(key.as_str()) {
                String::from_str("a variable has a concrete value in an example env file")
            } else {
                let mut named = key.clone();
                named.append(" has a concrete value in an example env file");
                named
            };
            let found = report::finding(path, detail.as_str());
            r.push(found);
            assert(report::finding_models(r@) =~= seq![found@]);
            return r;
        }
        i = i + 1;
    }
    assert(report::finding_models(r@) =~= Seq::empty());
    r
}

/// What the detectors find in the file at `path` with the text `body`.
pub fn find_raw_patterns(
    path: &str,
    body: &str,
    high_entropy: &[bool],
    ignore_detectors: &[String],
) -> (r: Vec<Finding>)
    ensures
        report::finding_models(r@) == raw_findings(
            path@,
            body@,
            high_entropy@,
            text::texts(ignore_detectors@),
        ),
{
    let detections = detect::detect_secret_patterns(body, high_entropy);
    let ghost all = detect::detection_texts(detections@);
    let ghost rule = raw_rule(path@, text::texts(ignore_detectors@));
    let mut r: Vec<Finding> = Vec::new();
    let mut i: usize = 0;
    assert(report::finding_models(r@) =~= all.take(0).filter_map(rule));
    while i < detections.len()
        invariant
            i <= detections@.len(),
            all == detect::detection_texts(detections@),
            rule == raw_rule(path@, text::texts(ignore_detectors@)),
            report::finding_models(r@) == all.take(i as int).filter_map(rule),
        decreases detections@.len() - i,
    {
        let detection = &detections[i];
        proof {
            assert(all.take(i + 1).drop_last() == all.take(i as int));
            assert(all[i as int] == (detection.name@, detection.line as nat));
        }
        if !text::is_listed(ignore_detectors, detection.name) {
            let found = report::raw_finding(path, detection.name, detection.line);
            proof {
                report::lemma_findings_push(r@, found);
            }
            r.push(found);
        }
        i = i + 1;
    }
    assert(all.take(i as int) == all);
    r
}

/// What is found in the package at `path` with the members `document`.
pub fn find_dotenv_scripts(path: &str, document: &Option<JsonMembers>) -> (r: Vec<Finding>)
    ensures
        report::finding_models(r@) == script_findings(path@, outside::document_model(*document)),
{
    let names = package::scripts_loading_dotenv(document);
    let ghost all = script_findings(path@, outside::document_model(*document));
    let mut r: Vec<Finding> = Vec::new();
    let mut i: usize = 0;
    assert(report::finding_models(r@) =~= all.take(0));
    while i < names.len()
        invariant
            i <= names@.len(),
            all.len() == names@.len(),
            forall|k: int|
                0 <= k < names@.len() ==> #[trigger] all[k] == report::blocker(
                    path@,
                    script_detail(names@[k]@),
                ),
            report::finding_models(r@) == all.take(i as int),
        decreases names@.len() - i,
    {
        let detail = if detect::reveals_secret(names[i].as_str()) {
            String::from_str("a script loads a dotenv value file")
        } else {
            let mut named = String::from_str("script ");
            named.append(names[i].as_str());
            named.append(" loads a dotenv value file");
            named
        };
        let found = report::finding(path, detail.as_str());
        proof {
            assert(all[i as int] == found@);
            report::lemma_findings_push(r@, found);
            assert(all.take(i + 1) == all.take(i as int).push(all[i as int]));
        }
        r.push(found);
        i = i + 1;
    }
    assert(all.take(i as int) == all);
    r
}

/// What is found in the Docker Compose file at `path` with the text `body`.
pub fn find_compose_env_file(path: &str, body: &str) -> (r: Vec<Finding>)
    ensures
        report::finding_models(r@) == compose_findings(path@, body@),
{
    let mut r: Vec<Finding> = Vec::new();
    if paths::reads_env_file(body) {
        let found = report::finding(path, "Docker Compose env_file can point at plaintext env");
        r.push(found);
        assert(report::finding_models(r@) =~= seq![found@]);
    } else {
        assert(report::finding_models(r@) =~= Seq::empty());
    }
    r
}

/// The error that the file at position `i` gives.
fn locate(fault: ReadFault, i: usize) -> (r: ScanError)
    ensures
        r == located(fault, i as int),
{
    match fault {
        ReadFault::Unreadable => ScanError::Unreadable(i),
        ReadFault::OverCap => ScanError::OverCap(i),
    }
}

/// The outcome of a check as values.
pub open spec fn findings_outcome(r: Result<Vec<Finding>, ScanError>) -> Result<
    Seq<FindingModel>,
    ScanError,
> {
    match r {
        Ok(findings) => Ok(report::finding_models(findings@)),
        Err(error) => Err(error),
    }
}

/// The text of the file at position `i`, which has to be there in full.
fn read_full_text(read: Option<&FileRead>, max_bytes: u64, i: usize) -> (r: Result<
    String,
    ScanError,
>)
    ensures
        match r {
            Ok(body) => full_text(read_model(read), max_bytes, i as int) == Ok::<
                Seq<char>,
                ScanError,
            >(body@),
            Err(error) => full_text(read_model(read), max_bytes, i as int) == Err::<
                Seq<char>,
                ScanError,
            >(error),
        },
{
    match read {
        None => Err(ScanError::Unreadable(i)),
        Some(found) => match content::read_text_limited_with_cap(found, max_bytes) {
            Ok(body) => Ok(body),
            Err(fault) => Err(locate(fault, i)),
        },
    }
}

/// The text of the file at position `i`, where it is a text that is short enough.
fn read_short_text(read: Option<&FileRead>, max_bytes: u64, i: usize) -> (r: Result<
    Option<String>,
    ScanError,
>)
    ensures
        match r {
            Ok(Some(body)) => read is Some && short_text(read_model(read), max_bytes, i as int)
                == Ok::<Option<Seq<char>>, ScanError>(Some(body@)),
            Ok(None) => short_text(read_model(read), max_bytes, i as int) == Ok::<
                Option<Seq<char>>,
                ScanError,
            >(None),
            Err(error) => short_text(read_model(read), max_bytes, i as int) == Err::<
                Option<Seq<char>>,
                ScanError,
            >(error),
        },
{
    match read {
        None => Err(ScanError::Unreadable(i)),
        Some(found) => match content::read_text_if_small(found, max_bytes) {
            Ok(body) => Ok(body),
            Err(fault) => Err(locate(fault, i)),
        },
    }
}

/// What was read, without the reference.
pub open spec fn read_model(read: Option<&FileRead>) -> Option<FileRead> {
    match read {
        Some(found) => Some(*found),
        None => None,
    }
}

impl ContentCheck {
    /// Tests whether this check looks into the file at `path`.
    pub fn looks_into(self, path: &str) -> (r: bool)
        ensures
            r == self.concerns(path@),
    {
        match self {
            ContentCheck::Examples => dotenv::is_dotenv_example_path(&text::chars_of(path)),
            ContentCheck::RawPatterns => paths::is_text_scan_candidate(path),
            ContentCheck::Scripts => text::has_suffix(&text::chars_of(path), "package.json"),
            ContentCheck::Compose => paths::is_compose_file(path),
        }
    }

    /// What this check finds in the file at `path`, which stands at position `i`.
    pub fn find_in(
        self,
        path: &str,
        read: Option<&FileRead>,
        policy: &ScanPolicy,
        i: usize,
    ) -> (r: Result<Vec<Finding>, ScanError>)
        ensures
            findings_outcome(r) == self.findings_in(path@, read_model(read), policy@, i as int),
    {
        let max_bytes = policy.max_file_bytes;
        let none: Vec<Finding> = Vec::new();
        assert(report::finding_models(none@) =~= Seq::empty());
        if !self.looks_into(path) {
            return Ok(none);
        }
        match self {
            ContentCheck::RawPatterns => match read_short_text(read, max_bytes, i) {
                Err(error) => Err(error),
                Ok(None) => Ok(none),
                Ok(Some(body)) => match read {
                    Some(found) => Ok(
                        find_raw_patterns(
                            path,
                            body.as_str(),
                            &found.high_entropy,
                            &policy.ignore_detectors,
                        ),
                    ),
                    None => Ok(none),
                },
            },
            ContentCheck::Examples => match read_full_text(read, max_bytes, i) {
                Err(error) => Err(error),
                Ok(body) => Ok(find_concrete_example(path, body.as_str())),
            },
            ContentCheck::Scripts => match read_full_text(read, max_bytes, i) {
                Err(error) => Err(error),
                Ok(body) => {
                    let document = outside::parse_json_object(body.as_str());
                    Ok(find_dotenv_scripts(path, &document))
                },
            },
            ContentCheck::Compose => match read_full_text(read, max_bytes, i) {
                Err(error) => Err(error),
                Ok(body) => Ok(find_compose_env_file(path, body.as_str())),
            },
        }
    }

    /// What this check finds in one file more. A file before it that stopped the check stops it
    /// still.
    fn extend(
        self,
        found: Result<Vec<Finding>, ScanError>,
        path: &str,
        read: Option<&FileRead>,
        policy: &ScanPolicy,
        i: usize,
    ) -> (r: Result<Vec<Finding>, ScanError>)
        ensures
            findings_outcome(r) == (match findings_outcome(found) {
                Err(error) => Err::<Seq<FindingModel>, ScanError>(error),
                Ok(before) => match self.findings_in(path@, read_model(read), policy@, i as int) {
                    Err(error) => Err(error),
                    Ok(own) => Ok(before + own),
                },
            }),
    {
        match found {
            Err(error) => Err(error),
            Ok(before) => match self.find_in(path, read, policy, i) {
                Err(error) => Err(error),
                Ok(own) => {
                    let mut all = before;
                    let mut own = own;
                    assert(report::finding_models(all@ + own@) =~= report::finding_models(all@)
                        + report::finding_models(own@));
                    all.append(&mut own);
                    Ok(all)
                },
            },
        }
    }
}

impl ScanInput {
    /// What the checks look at before a file was read.
    pub fn new(
        files: Vec<String>,
        tracked_files: Vec<String>,
        existing_state: Vec<String>,
        staged: Option<Vec<String>>,
        policy: ScanPolicy,
    ) -> (r: ScanInput)
        ensures
            r@ == (InputModel {
                files: text::texts(files@),
                reads: Seq::empty(),
                tracked_files: text::texts(tracked_files@),
                existing_state: text::texts(existing_state@),
                staged: listing::list_texts(staged),
                policy: policy@,
            }),
    {
        let examples: Vec<Finding> = Vec::new();
        let patterns: Vec<Finding> = Vec::new();
        let scripts: Vec<Finding> = Vec::new();
        let compose: Vec<Finding> = Vec::new();
        assert(report::finding_models(examples@) =~= Seq::empty());
        assert(report::finding_models(patterns@) =~= Seq::empty());
        assert(report::finding_models(scripts@) =~= Seq::empty());
        assert(report::finding_models(compose@) =~= Seq::empty());
        ScanInput {
            files,
            tracked_files,
            existing_state,
            staged,
            policy,
            reads: Ghost(Seq::empty()),
            taken: 0,
            examples: Ok(examples),
            patterns: Ok(patterns),
            scripts: Ok(scripts),
            compose: Ok(compose),
        }
    }

    /// The files that are scanned.
    pub fn files(&self) -> (r: &Vec<String>)
        ensures
            text::texts(r@) == self@.files,
    {
        &self.files
    }

    /// What the checks look at once the next file was read.
    pub fn with_read(self, read: &FileRead) -> (r: ScanInput)
        ensures
            r@ == (InputModel { reads: self@.reads.push(*read), ..self@ }),
    {
        proof {
            use_type_invariant(&self);
        }
        let ghost before = self@;
        let ghost after = InputModel { reads: before.reads.push(*read), ..before };
        let ScanInput {
            files,
            tracked_files,
            existing_state,
            staged,
            policy,
            reads,
            taken,
            examples,
            patterns,
            scripts,
            compose,
        } = self;
        let ghost n = taken as nat;
        proof {
            assert forall|i: int| 0 <= i < n implies #[trigger] before.read_at(i) == after.read_at(
                i,
            ) by {
                assert(after.reads[i] == before.reads[i]);
            }
            lemma_gathered_prefix(ContentCheck::Examples, before, after, n);
            lemma_gathered_prefix(ContentCheck::RawPatterns, before, after, n);
            lemma_gathered_prefix(ContentCheck::Scripts, before, after, n);
            lemma_gathered_prefix(ContentCheck::Compose, before, after, n);
        }
        if taken < files.len() {
            let path = files[taken].as_str();
            proof {
                assert(after.files[taken as int] == path@);
                assert(after.read_at(taken as int) == Some(*read));
            }
            let examples = ContentCheck::Examples.extend(
                examples,
                path,
                Some(read),
                &policy,
                taken,
            );
            let patterns = ContentCheck::RawPatterns.extend(
                patterns,
                path,
                Some(read),
                &policy,
                taken,
            );
            let scripts = ContentCheck::Scripts.extend(scripts, path, Some(read), &policy, taken);
            let compose = ContentCheck::Compose.extend(compose, path, Some(read), &policy, taken);
            ScanInput {
                files,
                tracked_files,
                existing_state,
                staged,
                policy,
                reads: Ghost(after.reads),
                taken: taken + 1,
                examples,
                patterns,
                scripts,
                compose,
            }
        } else {
            ScanInput {
                files,
                tracked_files,
                existing_state,
                staged,
                policy,
                reads: Ghost(after.reads),
                taken,
                examples,
                patterns,
                scripts,
                compose,
            }
        }
    }

    /// What a check finds in all files, those that were not read among them.
    fn gather(&self, check: ContentCheck) -> (r: Result<Vec<Finding>, ScanError>)
        ensures
            findings_outcome(r) == check.outcome(self@),
    {
        proof {
            use_type_invariant(self);
        }
        let kept = match check {
            ContentCheck::Examples => &self.examples,
            ContentCheck::RawPatterns => &self.patterns,
            ContentCheck::Scripts => &self.scripts,
            ContentCheck::Compose => &self.compose,
        };
        let mut found = match kept {
            Ok(findings) => Ok(report::copy_findings(findings)),
            Err(error) => Err(*error),
        };
        let mut i: usize = self.taken;
        while i < self.files.len()
            invariant
                self.taken <= i <= self.files@.len(),
                i < self.files@.len() ==> self.taken == self@.reads.len(),
                findings_outcome(found) == check.gathered(self@, i as nat),
            decreases self.files@.len() - i,
        {
            let path = self.files[i].as_str();
            assert(self@.files[i as int] == path@);
            assert(self@.read_at(i as int) is None);
            found = check.extend(found, path, None, &self.policy, i);
            i = i + 1;
        }
        found
    }

    /// The tracked files that are looked at.
    fn keep_tracked(&self) -> (r: Vec<String>)
        ensures
            text::texts(r@) == self@.tracked_here(),
    {
        let ghost all = text::texts(self.tracked_files@);
        let mut r: Vec<String> = Vec::new();
        let mut i: usize = 0;
        match &self.staged {
            None => {
                while i < self.tracked_files.len()
                    invariant
                        i <= self.tracked_files@.len(),
                        all == text::texts(self.tracked_files@),
                        text::texts(r@) == all.take(i as int),
                    decreases self.tracked_files@.len() - i,
                {
                    proof {
                        assert(all.take(i + 1) == all.take(i as int).push(all[i as int]));
                        order::lemma_texts_push(r@, self.tracked_files@[i as int]);
                    }
                    r.push(self.tracked_files[i].clone());
                    i = i + 1;
                }
            },
            Some(list) => {
                let ghost rule = among_rule(text::texts(list@));
                proof {
                    reveal(Seq::filter);
                    assert(all.take(0).filter(rule) == Seq::<Seq<char>>::empty());
                }
                while i < self.tracked_files.len()
                    invariant
                        i <= self.tracked_files@.len(),
                        all == text::texts(self.tracked_files@),
                        rule == among_rule(text::texts(list@)),
                        text::texts(r@) == all.take(i as int).filter(rule),
                    decreases self.tracked_files@.len() - i,
                {
                    proof {
                        reveal(Seq::filter);
                        assert(all.take(i + 1).drop_last() == all.take(i as int));
                        order::lemma_texts_push(r@, self.tracked_files@[i as int]);
                    }
                    if text::is_listed(list, self.tracked_files[i].as_str()) {
                        r.push(self.tracked_files[i].clone());
                    }
                    i = i + 1;
                }
            },
        }
        assert(all.take(i as int) == all);
        r
    }

    /// Tests whether the scan stays with staged paths at `location`: one of them is there, or it
    /// is not to stay with them.
    fn stays_with(&self, location: &str) -> (r: bool)
        ensures
            r == (self@.staged matches Some(list) ==> reaches(list, location@)),
    {
        match &self.staged {
            None => true,
            Some(list) => {
                let ghost all = text::texts(list@);
                let mut pattern = String::from_str(location);
                pattern.append("/**");
                let mut i: usize = 0;
                while i < list.len()
                    invariant
                        i <= list@.len(),
                        all == text::texts(list@),
                        self@.staged == Some(all),
                        pattern@ == location@ + "/**"@,
                        forall|k: int| 0 <= k < i ==> !paths::covers(pattern@, #[trigger] all[k]),
                    decreases list@.len() - i,
                {
                    assert(all[i as int] == list@[i as int]@);
                    if paths::pattern_matches(list[i].as_str(), pattern.as_str()) {
                        return true;
                    }
                    i = i + 1;
                }
                false
            },
        }
    }
}

/// The outcome of a check as values.
pub open spec fn check_outcome(r: Result<ScanCheck, ScanError>) -> Result<CheckModel, ScanError> {
    match r {
        Ok(check) => Ok(check@),
        Err(error) => Err(error),
    }
}

/// The check `name` with `findings`, unless they could not be gathered.
pub open spec fn try_check(
    name: Seq<char>,
    ok: Seq<char>,
    fail: Seq<char>,
    findings: Result<Seq<FindingModel>, ScanError>,
) -> Result<CheckModel, ScanError> {
    match findings {
        Ok(found) => Ok(report::check_of(name, ok, fail, found)),
        Err(error) => Err(error),
    }
}

/// What the check of examples says.
pub open spec fn example_files_check(input: InputModel) -> Result<CheckModel, ScanError> {
    try_check(
        "example env files"@,
        "safe placeholders"@,
        "replace concrete example values with placeholders"@,
        ContentCheck::Examples.outcome(input),
    )
}

/// Checks that the examples of dotenv files show placeholders.
pub fn check_example_files(input: &ScanInput) -> (r: Result<ScanCheck, ScanError>)
    ensures
        check_outcome(r) == example_files_check(input@),
{
    match input.gather(ContentCheck::Examples) {
        Err(error) => Err(error),
        Ok(findings) => Ok(
            report::check(
                "example env files",
                "safe placeholders",
                "replace concrete example values with placeholders",
                findings,
            ),
        ),
    }
}

/// What the check of secret patterns says.
pub open spec fn raw_secret_patterns_check(input: InputModel) -> Result<CheckModel, ScanError> {
    try_check(
        "raw secret patterns"@,
        "none"@,
        "remove or replace high-confidence secret-like text"@,
        ContentCheck::RawPatterns.outcome(input),
    )
}

/// Checks that no detector finds a secret in a scanned file.
pub fn check_raw_secret_patterns(input: &ScanInput) -> (r: Result<ScanCheck, ScanError>)
    ensures
        check_outcome(r) == raw_secret_patterns_check(input@),
{
    match input.gather(ContentCheck::RawPatterns) {
        Err(error) => Err(error),
        Ok(findings) => Ok(
            report::check(
                "raw secret patterns",
                "none",
                "remove or replace high-confidence secret-like text",
                findings,
            ),
        ),
    }
}

/// What the check of package scripts says.
pub open spec fn package_scripts_check(input: InputModel) -> Result<CheckModel, ScanError> {
    try_check(
        "package scripts"@,
        "no plaintext dotenv loaders"@,
        "remove dotenv value loaders from package scripts"@,
        ContentCheck::Scripts.outcome(input),
    )
}

/// Checks that no package script loads a dotenv file that holds values.
pub fn check_package_scripts(input: &ScanInput) -> (r: Result<ScanCheck, ScanError>)
    ensures
        check_outcome(r) == package_scripts_check(input@),
{
    match input.gather(ContentCheck::Scripts) {
        Err(error) => Err(error),
        Ok(findings) => Ok(
            report::check(
                "package scripts",
                "no plaintext dotenv loaders",
                "remove dotenv value loaders from package scripts",
                findings,
            ),
        ),
    }
}

/// What the check of Docker Compose files says.
pub open spec fn compose_env_files_check(input: InputModel) -> Result<CheckModel, ScanError> {
    try_check(
        "Docker Compose env_file"@,
        "none"@,
        "remove env_file references or document a safe allowlist"@,
        ContentCheck::Compose.outcome(input),
    )
}

/// Checks that no Docker Compose file reads a plaintext environment file.
pub fn check_compose_env_files(input: &ScanInput) -> (r: Result<ScanCheck, ScanError>)
    ensures
        check_outcome(r) == compose_env_files_check(input@),
{
    match input.gather(ContentCheck::Compose) {
        Err(error) => Err(error),
        Ok(findings) => Ok(
            report::check(
                "Docker Compose env_file",
                "none",
                "remove env_file references or document a safe allowlist",
                findings,
            ),
        ),
    }
}

/// A check looks into the file at `path`.
pub open spec fn contents_matter(path: Seq<char>) -> bool {
    ||| ContentCheck::Examples.concerns(path)
    ||| ContentCheck::RawPatterns.concerns(path)
    ||| ContentCheck::Scripts.concerns(path)
    ||| ContentCheck::Compose.concerns(path)
}

/// Tests whether a check looks into the file at `path`: others need not be read.
pub fn needs_contents(path: &str) -> (r: bool)
    ensures
        r == contents_matter(path@),
{
    ContentCheck::Examples.looks_into(path) || ContentCheck::RawPatterns.looks_into(path)
        || ContentCheck::Scripts.looks_into(path) || ContentCheck::Compose.looks_into(path)
}

} // verus!

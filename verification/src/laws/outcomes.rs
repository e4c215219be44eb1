//! What the checks of a scan report, check by check, said of the files, what was read of them and
//! the policy.
use crate::checks;
use crate::checks::{ContentCheck, InputModel};
use crate::content;
use crate::content::{FileRead, ReadFault};
use crate::detect;
use crate::dotenv;
use crate::error::ScanError;
use crate::laws::characters;
use crate::laws::files;
use crate::laws::lists;
use crate::laws::names;
use crate::laws::places;
use crate::laws::values;
use crate::order;
use crate::outside;
use crate::package;
use crate::paths;
use crate::policy;
use crate::policy::ScanOptions;
use crate::report;
use crate::report::{CheckModel, FindingModel, ReportModel, Severity};
use crate::scan;
use crate::scan::Repository;
use crate::text;
use vstd::prelude::*;

verus! {

/// A blocker at `path` with `detail`, without a line or with one.
pub open spec fn blocked(path: Seq<char>, line: Option<nat>, detail: Seq<char>) -> FindingModel {
    FindingModel { severity: Severity::Blocker, path, line, detail }
}

/// The check is called `name`, passed just where it has no findings, and says `ok` where it
/// passed and `fail` where it did not.
pub open spec fn says(check: CheckModel, name: Seq<char>, ok: Seq<char>, fail: Seq<char>) -> bool {
    &&& check.name == name
    &&& check.passed <==> check.findings.len() == 0
    &&& check.passed ==> check.detail == ok
    &&& !check.passed ==> check.detail == fail
}

/// A scan makes eight checks, in this order and under these names.
pub proof fn law_checks(input: InputModel)
    requires
        scan::checked(input) is Ok,
    ensures
        ({
            let made = scan::checked(input)->Ok_0;
            &&& made.len() == 8
            &&& says(made[0], "tracked dotenv files"@, "none"@, "remove tracked dotenv files"@)
            &&& says(made[1], "working tree dotenv files"@, "none"@, "remove dotenv value files"@)
            &&& says(
                made[2],
                "example env files"@,
                "safe placeholders"@,
                "replace concrete example values with placeholders"@,
            )
            &&& says(
                made[3],
                "sensitive file names"@,
                "none"@,
                "remove private key, credential, or environment state files"@,
            )
            &&& says(
                made[4],
                "raw secret patterns"@,
                "none"@,
                "remove or replace high-confidence secret-like text"@,
            )
            &&& says(
                made[5],
                "repo-local secret state"@,
                "none"@,
                "move secret state outside the repository"@,
            )
            &&& says(
                made[6],
                "package scripts"@,
                "no plaintext dotenv loaders"@,
                "remove dotenv value loaders from package scripts"@,
            )
            &&& says(
                made[7],
                "Docker Compose env_file"@,
                "none"@,
                "remove env_file references or document a safe allowlist"@,
            )
        }),
{
}

/// The first check reports the tracked dotenv files that hold values and are not allowed, among
/// the staged ones where the scan stays with these, and nothing else.
pub proof fn law_tracked_dotenv_findings(input: InputModel, finding: FindingModel)
    requires
        scan::checked(input) is Ok,
    ensures
        scan::checked(input)->Ok_0[0].findings.contains(finding) <==> (finding == blocked(
            finding.path,
            None,
            "tracked dotenv value file"@,
        ) && input.tracked_files.contains(finding.path) && (input.staged matches Some(list)
            ==> list.contains(finding.path)) && dotenv::dotenv_value_path(finding.path)
            && !paths::covered(input.policy.allow_value_env_paths, finding.path)),
{
    let here = input.tracked_here();
    let kept = order::sorted_set(here);
    let rule = checks::dotenv_rule(
        input.policy.allow_value_env_paths,
        "tracked dotenv value file"@,
    );
    lists::lemma_filter_map_contains(kept, rule, finding);
    order::lemma_sorted_set(here);
    let path = finding.path;
    assert(kept.contains(path) <==> here.contains(path));
    if input.staged is Some {
        let list = input.staged->0;
        let among = checks::among_rule(list);
        if here.contains(path) {
            input.tracked_files.lemma_filter_contains_rev(among, path);
            let i = choose|i: int| 0 <= i < here.len() && here[i] == path;
            input.tracked_files.lemma_filter_pred(among, i);
        }
        if input.tracked_files.contains(path) && list.contains(path) {
            let i = choose|i: int|
                0 <= i < input.tracked_files.len() && input.tracked_files[i] == path;
            input.tracked_files.lemma_filter_contains(among, i);
        }
    }
    if kept.filter_map(rule).contains(finding) {
        let i = choose|i: int| 0 <= i < kept.len() && rule(#[trigger] kept[i]) == Some(finding);
        assert(kept.contains(kept[i]));
    }
    if kept.contains(path) {
        let i = choose|i: int| 0 <= i < kept.len() && kept[i] == path;
        assert(rule(kept[i]) == rule(path));
    }
}

/// The second check reports the scanned dotenv files that hold values and are not allowed.
pub proof fn law_working_tree_dotenv_findings(input: InputModel, finding: FindingModel)
    requires
        scan::checked(input) is Ok,
    ensures
        scan::checked(input)->Ok_0[1].findings.contains(finding) <==> (finding == blocked(
            finding.path,
            None,
            "dotenv value file in working tree"@,
        ) && input.files.contains(finding.path) && dotenv::dotenv_value_path(finding.path)
            && !paths::covered(input.policy.allow_value_env_paths, finding.path)),
{
    let rule = checks::dotenv_rule(
        input.policy.allow_value_env_paths,
        "dotenv value file in working tree"@,
    );
    lists::lemma_filter_map_contains(input.files, rule, finding);
    if input.files.filter_map(rule).contains(finding) {
        let i = choose|i: int|
            0 <= i < input.files.len() && rule(#[trigger] input.files[i]) == Some(finding);
        assert(input.files.contains(input.files[i]));
    }
    if input.files.contains(finding.path) {
        let i = choose|i: int| 0 <= i < input.files.len() && input.files[i] == finding.path;
        assert(rule(input.files[i]) == rule(finding.path));
    }
}

/// The fourth check reports the scanned files with a sensitive name under the label of the rule,
/// unless that label is ignored.
pub proof fn law_file_name_findings(input: InputModel, finding: FindingModel)
    requires
        scan::checked(input) is Ok,
    ensures
        scan::checked(input)->Ok_0[3].findings.contains(finding) <==> (finding == blocked(
            finding.path,
            None,
            finding.detail,
        ) && input.files.contains(finding.path) && paths::sensitive_file_label(finding.path)
            == Some(finding.detail) && !input.policy.ignore_detectors.contains(finding.detail)),
{
    let rule = checks::file_name_rule(input.policy.ignore_detectors);
    lists::lemma_filter_map_contains(input.files, rule, finding);
    if input.files.filter_map(rule).contains(finding) {
        let i = choose|i: int|
            0 <= i < input.files.len() && rule(#[trigger] input.files[i]) == Some(finding);
        assert(input.files.contains(input.files[i]));
    }
    if input.files.contains(finding.path) {
        let i = choose|i: int| 0 <= i < input.files.len() && input.files[i] == finding.path;
        assert(rule(input.files[i]) == rule(finding.path));
    }
}

/// `location` is one of the eight places where tools keep secrets inside a repository.
pub open spec fn keeps_state(location: Seq<char>) -> bool {
    ||| location == ".envforge/token"@
    ||| location == ".envforge/session.json"@
    ||| location == ".envforge/tokens.json"@
    ||| location == ".envforge/tokens"@
    ||| location == ".closeenv/tmp"@
    ||| location == ".closeenv/session.json"@
    ||| location == ".envrc"@
    ||| location == ".direnv"@
}

/// The sixth check reports those of the eight places that are there; where the scan stays with
/// staged paths, those that are staged or hold a staged path.
pub proof fn law_state_findings(input: InputModel, finding: FindingModel)
    requires
        scan::checked(input) is Ok,
        input.staged matches Some(list) ==> forall|i: int|
            0 <= i < list.len() ==> !(#[trigger] list[i]).contains('\\'),
    ensures
        scan::checked(input)->Ok_0[5].findings.contains(finding) <==> (finding == blocked(
            finding.path,
            None,
            "repo-local secret or environment state"@,
        ) && keeps_state(finding.path) && input.existing_state.contains(finding.path) && (
        input.staged matches Some(list) ==> exists|i: int|
            0 <= i < list.len() && (#[trigger] list[i] == finding.path || characters::begins(
                list[i],
                finding.path + seq!['/'],
            )))),
{
    reveal_strlit(".envforge/token");
    reveal_strlit(".envforge/session.json");
    reveal_strlit(".envforge/tokens.json");
    reveal_strlit(".envforge/tokens");
    reveal_strlit(".closeenv/tmp");
    reveal_strlit(".closeenv/session.json");
    reveal_strlit(".envrc");
    reveal_strlit(".direnv");
    let all = checks::state_locations();
    let rule = checks::state_rule(input.existing_state, input.staged);
    lists::lemma_filter_map_contains(all, rule, finding);
    let place = finding.path;
    assert(all[0] == ".envforge/token"@ && all[1] == ".envforge/session.json"@ && all[2]
        == ".envforge/tokens.json"@ && all[3] == ".envforge/tokens"@ && all[4] == ".closeenv/tmp"@
        && all[5] == ".closeenv/session.json"@ && all[6] == ".envrc"@ && all[7] == ".direnv"@);
    assert(keeps_state(place) ==> exists|i: int| 0 <= i < 8 && #[trigger] all[i] == place);
    if keeps_state(place) {
        assert forall|k: int| 0 <= k < place.len() implies #[trigger] place[k] != '\\' by {}
        if input.staged is Some {
            let list = input.staged->0;
            assert forall|i: int| 0 <= i < list.len() implies paths::covers(
                place + "/**"@,
                #[trigger] list[i],
            ) == (list[i] == place || characters::begins(list[i], place + seq!['/'])) by {
                lemma_below(place, list[i]);
            }
        }
        let i = choose|i: int| 0 <= i < 8 && #[trigger] all[i] == place;
        assert(rule(all[i]) == rule(place));
    }
    if all.filter_map(rule).contains(finding) {
        let i = choose|i: int| 0 <= i < all.len() && rule(#[trigger] all[i]) == Some(finding);
        assert(all[i] == place);
    }
}

proof fn lemma_below(place: Seq<char>, path: Seq<char>)
    requires
        !path.contains('\\'),
        forall|k: int| 0 <= k < place.len() ==> #[trigger] place[k] != '\\',
    ensures
        paths::covers(place + "/**"@, path) <==> path == place || characters::begins(
            path,
            place + seq!['/'],
        ),
{
    places::law_directory_pattern(place, path);
    names::law_slashes(place);
    names::law_slashes(path);
    assert(paths::slashed(place) =~= place);
    assert(paths::slashed(path) =~= path) by {
        assert forall|i: int| 0 <= i < path.len() implies #[trigger] paths::slashed(path)[i]
            == path[i] by {
            assert(path.contains(path[i]));
        }
    }
    assert(place.push('/') =~= place + seq!['/']);
    characters::law_occurrences_only_there(path, place + seq!['/'], 0);
}

/// What was read of the file at position `i`: the text of an example, a package and a Compose
/// file has to be there in full, or the scan fails; a file that is searched for secrets is left
/// out where it is too long or holds a zero byte.
pub open spec fn read_fully(input: InputModel, i: int, body: Seq<char>) -> bool {
    &&& 0 <= i < input.files.len()
    &&& i < input.reads.len()
    &&& input.reads[i].reported_len matches Some(len) && len <= input.policy.max_file_bytes
    &&& input.reads[i].bytes matches Some(found) && found@.len() <= input.policy.max_file_bytes
        && body == outside::decoded(found@)
}

/// The file at position `i` is short enough and holds no zero byte, and its text is `body`.
pub open spec fn read_as_text(input: InputModel, i: int, body: Seq<char>) -> bool {
    &&& 0 <= i < input.files.len()
    &&& i < input.reads.len()
    &&& input.reads[i].reported_len matches Some(len) && len <= input.policy.max_file_bytes
    &&& input.reads[i].bytes matches Some(found) && !found@.contains(0u8) && body
        == outside::decoded(found@)
}

proof fn lemma_gathered(check: ContentCheck, input: InputModel, finding: FindingModel)
    requires
        check.outcome(input) is Ok,
    ensures
        check.outcome(input)->Ok_0.contains(finding) <==> exists|i: int|
            0 <= i < input.files.len() && (#[trigger] check.findings_at(input, i)) is Ok
                && check.findings_at(input, i)->Ok_0.contains(finding),
        forall|i: int|
            0 <= i < input.files.len() ==> (#[trigger] check.findings_at(input, i)) is Ok,
{
    values::lemma_gathered_contains(check, input, input.files.len(), finding);
    lemma_all_ok(check, input, input.files.len());
}

proof fn lemma_all_ok(check: ContentCheck, input: InputModel, n: nat)
    requires
        check.gathered(input, n) is Ok,
    ensures
        forall|i: int| 0 <= i < n ==> (#[trigger] check.findings_at(input, i)) is Ok,
    decreases n,
{
    if n > 0 {
        lemma_all_ok(check, input, (n - 1) as nat);
    }
}

/// The third check reports what the examples among the scanned files give.
pub proof fn law_example_findings(input: InputModel, finding: FindingModel)
    requires
        scan::checked(input) is Ok,
    ensures
        scan::checked(input)->Ok_0[2].findings.contains(finding) <==> exists|
            i: int,
            body: Seq<char>,
        |
            #[trigger] read_fully(input, i, body) && dotenv::dotenv_example_path(input.files[i])
                && checks::example_findings(input.files[i], body).contains(finding),
{
    let check = ContentCheck::Examples;
    lemma_gathered(check, input, finding);
    if check.outcome(input)->Ok_0.contains(finding) {
        let i = choose|i: int|
            0 <= i < input.files.len() && (#[trigger] check.findings_at(input, i)) is Ok
                && check.findings_at(input, i)->Ok_0.contains(finding);
        assert(read_fully(input, i, input.text_at(i)->Ok_0));
    }
    if exists|i: int, body: Seq<char>| #[trigger]
        read_fully(input, i, body) && dotenv::dotenv_example_path(input.files[i])
            && checks::example_findings(input.files[i], body).contains(finding) {
        let (i, body) = choose|i: int, body: Seq<char>| #[trigger]
            read_fully(input, i, body) && dotenv::dotenv_example_path(input.files[i])
                && checks::example_findings(input.files[i], body).contains(finding);
        assert(check.findings_at(input, i)->Ok_0.contains(finding));
    }
}

/// The seventh check reports what the files whose paths end in `package.json` give.
pub proof fn law_script_findings(input: InputModel, finding: FindingModel)
    requires
        scan::checked(input) is Ok,
    ensures
        scan::checked(input)->Ok_0[6].findings.contains(finding) <==> exists|
            i: int,
            body: Seq<char>,
        |
            #[trigger] read_fully(input, i, body) && characters::ends(
                input.files[i],
                "package.json"@,
            ) && checks::script_findings(
                input.files[i],
                outside::json_members(body),
            ).contains(finding),
{
    let check = ContentCheck::Scripts;
    lemma_gathered(check, input, finding);
    assert forall|path: Seq<char>| #[trigger] characters::ends(path, "package.json"@)
        == text::ends_with(path, "package.json"@) by {
        characters::law_occurrences_only_there(path, "package.json"@, 0);
    }
    if check.outcome(input)->Ok_0.contains(finding) {
        let i = choose|i: int|
            0 <= i < input.files.len() && (#[trigger] check.findings_at(input, i)) is Ok
                && check.findings_at(input, i)->Ok_0.contains(finding);
        assert(characters::ends(input.files[i], "package.json"@));
        assert(read_fully(input, i, input.text_at(i)->Ok_0));
    }
    if exists|i: int, body: Seq<char>| #[trigger]
        read_fully(input, i, body) && characters::ends(input.files[i], "package.json"@)
            && checks::script_findings(
            input.files[i],
            outside::json_members(body),
        ).contains(finding) {
        let (i, body) = choose|i: int, body: Seq<char>| #[trigger]
            read_fully(input, i, body) && characters::ends(input.files[i], "package.json"@)
                && checks::script_findings(
                input.files[i],
                outside::json_members(body),
            ).contains(finding);
        assert(check.findings_at(input, i)->Ok_0.contains(finding));
    }
}

/// The eighth check reports each scanned Compose file with a line that starts, after white space,
/// with `env_file:`.
pub proof fn law_compose_findings(input: InputModel, finding: FindingModel)
    requires
        scan::checked(input) is Ok,
    ensures
        scan::checked(input)->Ok_0[7].findings.contains(finding) <==> (finding == blocked(
            finding.path,
            None,
            "Docker Compose env_file can point at plaintext env"@,
        ) && exists|i: int, body: Seq<char>|
            #[trigger] read_fully(input, i, body) && finding.path == input.files[i] && (
            files::has_name(finding.path, "compose.yaml"@) || files::has_name(
                finding.path,
                "compose.yml"@,
            ) || files::has_name(finding.path, "docker-compose.yaml"@) || files::has_name(
                finding.path,
                "docker-compose.yml"@,
            )) && exists|at: int| files::env_file_at(body, at)),
{
    let check = ContentCheck::Compose;
    lemma_gathered(check, input, finding);
    assert forall|body: Seq<char>| #[trigger]
        paths::names_env_file(body) == exists|at: int| files::env_file_at(body, at) by {
        files::law_env_file_lines(body);
    }
    files::law_compose_names(finding.path);
    if check.outcome(input)->Ok_0.contains(finding) {
        let i = choose|i: int|
            0 <= i < input.files.len() && (#[trigger] check.findings_at(input, i)) is Ok
                && check.findings_at(input, i)->Ok_0.contains(finding);
        let body = input.text_at(i)->Ok_0;
        assert(paths::names_env_file(body));
        assert(read_fully(input, i, body));
    }
    if finding == blocked(
        finding.path,
        None,
        "Docker Compose env_file can point at plaintext env"@,
    ) && exists|i: int, body: Seq<char>| #[trigger]
        read_fully(input, i, body) && finding.path == input.files[i] && paths::compose_file(
            finding.path,
        ) && exists|at: int| files::env_file_at(body, at) {
        let (i, body) = choose|i: int, body: Seq<char>| #[trigger]
            read_fully(input, i, body) && finding.path == input.files[i] && paths::compose_file(
                finding.path,
            ) && exists|at: int| files::env_file_at(body, at);
        assert(paths::names_env_file(body));
        let own = check.findings_at(input, i)->Ok_0;
        assert(own[0] == finding);
        assert(own.contains(finding));
    }
}

/// The fifth check reports each detection in a scanned text with its path, label and line, unless
/// the label is ignored or the path has the ending of a binary file.
pub proof fn law_pattern_findings(input: InputModel, finding: FindingModel)
    requires
        scan::checked(input) is Ok,
    ensures
        scan::checked(input)->Ok_0[4].findings.contains(finding) <==> (finding == blocked(
            finding.path,
            finding.line,
            finding.detail,
        ) && finding.line is Some && !input.policy.ignore_detectors.contains(finding.detail)
            && exists|i: int, body: Seq<char>|
            #[trigger] read_as_text(input, i, body) && finding.path == input.files[i]
                && paths::text_scan_candidate(finding.path) && detect::detections(
                body,
                input.reads[i].high_entropy@,
            ).contains((finding.detail, finding.line->0))),
{
    let check = ContentCheck::RawPatterns;
    let ignored = input.policy.ignore_detectors;
    lemma_gathered(check, input, finding);
    if check.outcome(input)->Ok_0.contains(finding) {
        let i = choose|i: int|
            0 <= i < input.files.len() && (#[trigger] check.findings_at(input, i)) is Ok
                && check.findings_at(input, i)->Ok_0.contains(finding);
        let body = input.small_text_at(i)->Ok_0->0;
        let rule = checks::raw_rule(input.files[i], ignored);
        let found = detect::detections(body, input.reads[i].high_entropy@);
        lists::lemma_filter_map_contains(found, rule, finding);
        let k = choose|k: int| 0 <= k < found.len() && rule(#[trigger] found[k]) == Some(finding);
        assert(found.contains(found[k]));
        assert(found[k] == (finding.detail, finding.line->0));
        assert(read_as_text(input, i, body));
    }
    if finding == blocked(finding.path, finding.line, finding.detail) && finding.line is Some
        && !ignored.contains(finding.detail) && exists|i: int, body: Seq<char>|
        #[trigger] read_as_text(input, i, body) && finding.path == input.files[i]
            && paths::text_scan_candidate(finding.path) && detect::detections(
            body,
            input.reads[i].high_entropy@,
        ).contains((finding.detail, finding.line->0)) {
        let (i, body) = choose|i: int, body: Seq<char>|
            #[trigger] read_as_text(input, i, body) && finding.path == input.files[i]
                && paths::text_scan_candidate(finding.path) && detect::detections(
                body,
                input.reads[i].high_entropy@,
            ).contains((finding.detail, finding.line->0));
        let rule = checks::raw_rule(input.files[i], ignored);
        let found = detect::detections(body, input.reads[i].high_entropy@);
        let k = choose|k: int|
            0 <= k < found.len() && found[k] == (finding.detail, finding.line->0);
        assert(rule(found[k]) == Some(finding));
        lists::lemma_filter_map_contains(found, rule, finding);
        assert(check.findings_at(input, i)->Ok_0.contains(finding));
    }
}

/// The file at position `i` keeps the scan from being made: an example, a package or a Compose
/// file of which no text or too much of it is there, or a file to be searched of which nothing is
/// known or no bytes are there although it is short enough.
pub open spec fn stands_in_the_way(input: InputModel, i: int) -> bool {
    let path = input.files[i];
    let in_full = dotenv::dotenv_example_path(path) || characters::ends(path, "package.json"@)
        || paths::compose_file(path);
    let max_bytes = input.policy.max_file_bytes;
    &&& 0 <= i < input.files.len()
    &&& if i >= input.reads.len() {
        in_full || paths::text_scan_candidate(path)
    } else {
        match (input.reads[i].reported_len, input.reads[i].bytes) {
            (None, _) => in_full || paths::text_scan_candidate(path),
            (Some(len), None) => in_full || (len <= max_bytes && paths::text_scan_candidate(path)),
            (Some(len), Some(found)) => in_full && (len > max_bytes || found@.len() > max_bytes),
        }
    }
}

/// The checks are made exactly where no file stands in the way.
pub proof fn law_when_checks_are_made(input: InputModel)
    ensures
        scan::checked(input) is Ok <==> forall|i: int|
            0 <= i < input.files.len() ==> !#[trigger] stands_in_the_way(input, i),
{
    let n = input.files.len();
    assert forall|path: Seq<char>| #[trigger] characters::ends(path, "package.json"@)
        == text::ends_with(path, "package.json"@) by {
        characters::law_occurrences_only_there(path, "package.json"@, 0);
    }
    lemma_made(ContentCheck::Examples, input, n);
    lemma_made(ContentCheck::RawPatterns, input, n);
    lemma_made(ContentCheck::Scripts, input, n);
    lemma_made(ContentCheck::Compose, input, n);
    assert forall|i: int| 0 <= i < n implies #[trigger] stands_in_the_way(input, i) == !(
    ContentCheck::Examples.findings_at(input, i) is Ok && ContentCheck::RawPatterns.findings_at(
        input,
        i,
    ) is Ok && ContentCheck::Scripts.findings_at(input, i) is Ok
        && ContentCheck::Compose.findings_at(input, i) is Ok) by {
        assert(characters::ends(input.files[i], "package.json"@) == text::ends_with(
            input.files[i],
            "package.json"@,
        ));
    }
    if scan::checked(input) is Ok {
        assert forall|i: int| 0 <= i < n implies !#[trigger] stands_in_the_way(input, i) by {
            assert(ContentCheck::Examples.findings_at(input, i) is Ok);
            assert(ContentCheck::RawPatterns.findings_at(input, i) is Ok);
            assert(ContentCheck::Scripts.findings_at(input, i) is Ok);
            assert(ContentCheck::Compose.findings_at(input, i) is Ok);
        }
    }
    if forall|i: int| 0 <= i < n ==> !#[trigger] stands_in_the_way(input, i) {
        assert forall|i: int| 0 <= i < n implies (#[trigger] ContentCheck::Examples.findings_at(
            input,
            i,
        )) is Ok by {
            assert(!stands_in_the_way(input, i));
        }
        assert forall|i: int| 0 <= i < n implies (#[trigger] ContentCheck::RawPatterns.findings_at(
            input,
            i,
        )) is Ok by {
            assert(!stands_in_the_way(input, i));
        }
        assert forall|i: int| 0 <= i < n implies (#[trigger] ContentCheck::Scripts.findings_at(
            input,
            i,
        )) is Ok by {
            assert(!stands_in_the_way(input, i));
        }
        assert forall|i: int| 0 <= i < n implies (#[trigger] ContentCheck::Compose.findings_at(
            input,
            i,
        )) is Ok by {
            assert(!stands_in_the_way(input, i));
        }
    }
}

proof fn lemma_made(check: ContentCheck, input: InputModel, n: nat)
    ensures
        check.gathered(input, n) is Ok <==> forall|i: int|
            0 <= i < n ==> (#[trigger] check.findings_at(input, i)) is Ok,
    decreases n,
{
    if n > 0 {
        lemma_made(check, input, (n - 1) as nat);
        if check.gathered(input, n) is Ok {
            assert(check.findings_at(input, n - 1) is Ok);
        }
    }
}

/// The text of a file: it is there where the file is not longer than the limit, it is the decoded
/// bytes, and a greater limit changes nothing; a file that is searched has a text where it is
/// short enough and holds no zero byte.
pub proof fn law_file_texts(read: FileRead, max_bytes: u64, more: u64)
    requires
        max_bytes <= more,
    ensures
        content::limited_text(read, max_bytes) is Ok ==> content::limited_text(read, more)
            == content::limited_text(read, max_bytes),
        match (read.reported_len, read.bytes) {
            (Some(len), Some(found)) => len <= max_bytes ==> {
                &&& found@.len() <= max_bytes ==> content::limited_text(read, max_bytes) == Ok::<
                    Seq<char>,
                    ReadFault,
                >(outside::decoded(found@))
                &&& found@.len() > max_bytes ==> content::limited_text(read, max_bytes) == Err::<
                    Seq<char>,
                    ReadFault,
                >(ReadFault::OverCap)
                &&& content::small_text(read, max_bytes) == Ok::<Option<Seq<char>>, ReadFault>(
                    if found@.contains(0u8) {
                        None
                    } else {
                        Some(outside::decoded(found@))
                    },
                )
            },
            _ => true,
        },
        read.reported_len is None ==> content::limited_text(read, max_bytes) == Err::<
            Seq<char>,
            ReadFault,
        >(ReadFault::Unreadable) && content::small_text(read, max_bytes) == Err::<
            Option<Seq<char>>,
            ReadFault,
        >(ReadFault::Unreadable),
        read.reported_len matches Some(len) && read.bytes is None && len <= max_bytes
            ==> content::limited_text(read, max_bytes) == Err::<Seq<char>, ReadFault>(
            ReadFault::Unreadable,
        ) && content::small_text(read, max_bytes) == Err::<Option<Seq<char>>, ReadFault>(
            ReadFault::Unreadable,
        ),
{
}

/// The findings of earlier files come first.
pub proof fn law_findings_in_the_order_of_files(
    check: ContentCheck,
    input: InputModel,
    m: nat,
    n: nat,
)
    requires
        m <= n,
        check.gathered(input, n) is Ok,
    ensures
        check.gathered(input, m) is Ok,
        check.gathered(input, m)->Ok_0.is_prefix_of(check.gathered(input, n)->Ok_0),
    decreases n - m,
{
    let all = check.gathered(input, n)->Ok_0;
    if m < n {
        law_findings_in_the_order_of_files(check, input, m, (n - 1) as nat);
        let before = check.gathered(input, (n - 1) as nat)->Ok_0;
        let first = check.gathered(input, m)->Ok_0;
        assert(all == before + check.findings_at(input, n - 1)->Ok_0);
        assert(first =~= all.subrange(0, first.len() as int)) by {
            assert(first =~= before.subrange(0, first.len() as int));
        }
    } else {
        assert(all =~= all.subrange(0, all.len() as int));
    }
}

/// What the checks of a scan look at: the files that were listed, what was read, what git tracks
/// and has staged, and what is there of the places of tools.
pub proof fn law_scan_input(repository: Repository, options: ScanOptions, files: Seq<Seq<char>>)
    ensures
        ({
            let input = repository.input(options, files);
            &&& input.files == files
            &&& input.reads == repository.reads@
            &&& input.tracked_files == text::texts(repository.tracked_files@)
            &&& input.existing_state == text::texts(repository.existing_state@)
            &&& input.staged == crate::listing::staged_paths(repository.listing, options.mode)
            &&& input.policy == policy::with_options(
                policy::configured_policy(repository.config),
                options,
            )
            &&& repository.policy(options) == input.policy
        }),
{
}

/// The details that a report counts are in ascending order, each once and with the number of
/// times that it stands there.
pub proof fn law_counted_details(all: Seq<Seq<char>>)
    ensures
        ({
            let counted = report::counts(all);
            &&& forall|i: int, j: int|
                0 <= i < j < counted.len() ==> order::at_most(
                    (#[trigger] counted[i]).0,
                    (#[trigger] counted[j]).0,
                ) && counted[i].0 != counted[j].0
            &&& forall|i: int|
                0 <= i < counted.len() ==> (#[trigger] counted[i]).1 == all.to_multiset().count(
                    counted[i].0,
                ) && counted[i].1 > 0
        }),
{
    order::lemma_sorted_set(all);
    all.to_multiset_ensures();
    let kept = order::sorted_set(all);
    let counted = report::counts(all);
    assert forall|i: int| 0 <= i < counted.len() implies (#[trigger] counted[i]).1
        == all.to_multiset().count(counted[i].0) && counted[i].1 > 0 by {
        assert(kept.contains(kept[i]));
        assert(all.contains(kept[i]));
    }
    assert forall|i: int, j: int| 0 <= i < j < counted.len() implies order::at_most(
        (#[trigger] counted[i]).0,
        (#[trigger] counted[j]).0,
    ) && counted[i].0 != counted[j].0 by {
        assert(counted[i].0 == kept[i] && counted[j].0 == kept[j]);
    }
}

/// The contents of a file matter where it is an example, a file to be searched, a package or a
/// Compose file.
pub proof fn law_contents_that_matter(path: Seq<char>)
    ensures
        checks::contents_matter(path) <==> (dotenv::dotenv_example_path(path)
            || paths::text_scan_candidate(path) || characters::ends(path, "package.json"@)
            || paths::compose_file(path)),
{
    characters::law_occurrences_only_there(path, "package.json"@, 0);
}

/// The values whose entropy decides are those of the text that is searched, line by line; where
/// there is no such text there are none.
pub proof fn law_undecided_values(read: FileRead, max_bytes: u64)
    ensures
        match (read.reported_len, read.bytes) {
            (Some(len), Some(found)) => if len <= max_bytes && !found@.contains(0u8) {
                let body = outside::decoded(found@);
                let undecided = content::undecided_values(read, max_bytes);
                &&& undecided.len() == text::lines(body).len()
                &&& forall|i: int|
                    0 <= i < undecided.len() ==> #[trigger] undecided[i] == detect::suspect_value(
                        text::lines(body)[i],
                    )
            } else {
                content::undecided_values(read, max_bytes).len() == 0
            },
            _ => content::undecided_values(read, max_bytes).len() == 0,
        },
{
}

/// The scripts of a package that load a dotenv file: those members of its first `scripts` that
/// are strings and hold such a word, in their order.
pub proof fn law_loading_scripts(
    before: Seq<(Seq<char>, Option<Seq<(Seq<char>, Option<Seq<char>>)>>)>,
    first: Seq<(Seq<char>, Option<Seq<char>>)>,
    name: Seq<char>,
    script: Seq<char>,
    rest: Seq<(Seq<char>, Option<Seq<char>>)>,
    after: Seq<(Seq<char>, Option<Seq<(Seq<char>, Option<Seq<char>>)>>)>,
)
    requires
        forall|i: int| 0 <= i < before.len() ==> (#[trigger] before[i]).0 != "scripts"@,
    ensures
        package::loading_scripts(None).len() == 0,
        package::loading_scripts(Some(before)).len() == 0,
        package::loading_scripts(Some(before + seq![("scripts"@, None)] + after)).len() == 0,
        package::loading_scripts(
            Some(before + seq![("scripts"@, Some(first + seq![(name, None)] + rest))] + after),
        ) == package::loading_scripts(Some(seq![("scripts"@, Some(first))]))
            + package::loading_scripts(Some(seq![("scripts"@, Some(rest))])),
        package::loading_scripts(
            Some(
                before + seq![("scripts"@, Some(first + seq![(name, Some(script))] + rest))]
                    + after,
            ),
        ) == package::loading_scripts(Some(seq![("scripts"@, Some(first))])) + (
        if paths::loads_dotenv_value(script) {
            seq![name]
        } else {
            Seq::empty()
        }) + package::loading_scripts(Some(seq![("scripts"@, Some(rest))])),
        package::loading_scripts(Some(seq![("scripts"@, Some(Seq::empty()))])).len() == 0,
{
    let rule = package::script_rule();
    let key = "scripts"@;
    lemma_members(before, None, after);
    lemma_members(before, Some(first + seq![(name, None)] + rest), after);
    lemma_members(before, Some(first + seq![(name, Some(script))] + rest), after);
    lemma_members(Seq::empty(), Some(first), Seq::empty());
    lemma_members(Seq::empty(), Some(rest), Seq::empty());
    lemma_members(Seq::empty(), Some(Seq::empty()), Seq::empty());
    let none = Seq::<(Seq<char>, Option<Seq<(Seq<char>, Option<Seq<char>>)>>)>::empty();
    assert(none + seq![(key, Some(first))] + none =~= seq![(key, Some(first))]);
    assert(none + seq![(key, Some(rest))] + none =~= seq![(key, Some(rest))]);
    let leaves = Seq::<(Seq<char>, Option<Seq<char>>)>::empty();
    assert(none + seq![(key, Some(leaves))] + none =~= seq![(key, Some(leaves))]);
    lemma_no_members(before);
    let silent = seq![(name, None::<Seq<char>>)];
    let spoken = seq![(name, Some(script))];
    lists::lemma_filter_map_add(first + silent, rest, rule);
    lists::lemma_filter_map_add(first, silent, rule);
    lists::lemma_filter_map_add(first + spoken, rest, rule);
    lists::lemma_filter_map_add(first, spoken, rule);
    assert(silent.drop_last() =~= leaves);
    assert(spoken.drop_last() =~= leaves);
    assert(leaves.filter_map(rule) =~= Seq::empty());
    assert(silent.filter_map(rule) =~= Seq::empty());
    assert(spoken.filter_map(rule) =~= (if paths::loads_dotenv_value(script) {
        seq![name]
    } else {
        Seq::empty()
    }));
    assert(first.filter_map(rule) + Seq::<Seq<char>>::empty() =~= first.filter_map(rule));
}

proof fn lemma_members(
    before: Seq<(Seq<char>, Option<Seq<(Seq<char>, Option<Seq<char>>)>>)>,
    inner: Option<Seq<(Seq<char>, Option<Seq<char>>)>>,
    after: Seq<(Seq<char>, Option<Seq<(Seq<char>, Option<Seq<char>>)>>)>,
)
    requires
        forall|i: int| 0 <= i < before.len() ==> (#[trigger] before[i]).0 != "scripts"@,
    ensures
        package::inner_members(before + seq![("scripts"@, inner)] + after, "scripts"@) == inner,
    decreases before.len(),
{
    let all = before + seq![("scripts"@, inner)] + after;
    if before.len() == 0 {
        assert(all[0] == ("scripts"@, inner));
    } else {
        let rest = before.drop_first();
        assert(all[0] == before[0]);
        assert(all.drop_first() =~= rest + seq![("scripts"@, inner)] + after);
        assert forall|i: int| 0 <= i < rest.len() implies (#[trigger] rest[i]).0 != "scripts"@ by {
            assert(rest[i] == before[i + 1]);
        }
        lemma_members(rest, inner, after);
    }
}

proof fn lemma_no_members(
    before: Seq<(Seq<char>, Option<Seq<(Seq<char>, Option<Seq<char>>)>>)>,
)
    requires
        forall|i: int| 0 <= i < before.len() ==> (#[trigger] before[i]).0 != "scripts"@,
    ensures
        package::inner_members(before, "scripts"@) is None,
    decreases before.len(),
{
    if before.len() > 0 {
        let rest = before.drop_first();
        assert forall|i: int| 0 <= i < rest.len() implies (#[trigger] rest[i]).0 != "scripts"@ by {
            assert(rest[i] == before[i + 1]);
        }
        lemma_no_members(rest);
    }
}

/// What a package gives: for each loading script, in order, a blocker at the path that names the
/// script, unless the name itself could give something away.
pub proof fn law_script_details(
    path: Seq<char>,
    document: Option<Seq<(Seq<char>, Option<Seq<(Seq<char>, Option<Seq<char>>)>>)>>,
)
    ensures
        checks::script_findings(path, document).len() == package::loading_scripts(document).len(),
        forall|i: int|
            0 <= i < package::loading_scripts(document).len() ==> #[trigger]
            checks::script_findings(path, document)[i] == blocked(
                path,
                None,
                if detect::reveals(package::loading_scripts(document)[i]) {
                    "a script loads a dotenv value file"@
                } else {
                    "script "@ + package::loading_scripts(document)[i]
                        + " loads a dotenv value file"@
                },
            ),
{
}

/// A report says where it was made, how many files were scanned and left out, and how long it
/// took, and holds the checks as they were made.
pub proof fn law_report_says_what_was_scanned(
    repository: Repository,
    options: ScanOptions,
    duration_ms: u128,
    made: ReportModel,
)
    requires
        scan::scanned(repository, options, duration_ms) == Ok::<ReportModel, ScanError>(made),
    ensures
        made.root == repository.root@,
        made.duration_ms == duration_ms,
        crate::listing::collected(repository.listing, repository.policy(options)) matches Ok(
            (files, skipped),
        ) && made.scanned_files == files.len() && made.skipped_files == skipped && scan::checked(
            repository.input(options, files),
        ) == Ok::<Seq<CheckModel>, ScanError>(made.checks),
        made.passed <==> forall|k: int|
            0 <= k < made.checks.len() ==> (#[trigger] made.checks[k]).findings.len() == 0,
{
    let input = repository.input(
        options,
        crate::listing::collected(repository.listing, repository.policy(options))->Ok_0.0,
    );
    law_checks(input);
    let all = made.checks;
    assert(all[0].passed == (all[0].findings.len() == 0));
    assert(all[1].passed == (all[1].findings.len() == 0));
    assert(all[2].passed == (all[2].findings.len() == 0));
    assert(all[3].passed == (all[3].findings.len() == 0));
    assert(all[4].passed == (all[4].findings.len() == 0));
    assert(all[5].passed == (all[5].findings.len() == 0));
    assert(all[6].passed == (all[6].findings.len() == 0));
    assert(all[7].passed == (all[7].findings.len() == 0));
    assert forall|k: int| 0 <= k < all.len() implies (#[trigger] all[k]).passed == (
    all[k].findings.len() == 0) by {
        assert(k == 0 || k == 1 || k == 2 || k == 3 || k == 4 || k == 5 || k == 6 || k == 7);
    }
    if made.passed {
        assert forall|k: int| 0 <= k < made.checks.len() implies (#[trigger]
        made.checks[k]).findings.len() == 0 by {
            assert(made.checks[k].passed);
        }
    }
}

} // verus!

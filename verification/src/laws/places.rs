//! Which files a pattern covers and a scan looks at.
use crate::checks;
use crate::dotenv;
use crate::laws::policies;
use crate::laws::values;
use crate::listing;
use crate::listing::{Listing, Walk};
use crate::order;
use crate::paths;
use crate::policy::{PolicyModel, ScanMode, ScanOptions};
use crate::report;
use crate::report::FindingModel;
use crate::scan;
use crate::scan::Repository;
use crate::text;
use vstd::prelude::*;

verus! {

proof fn lemma_slashed_twice(s: Seq<char>)
    ensures
        paths::slashed(paths::slashed(s)) == paths::slashed(s),
{
    assert(paths::slashed(paths::slashed(s)) =~= paths::slashed(s));
}

/// In patterns and in paths, backslashes are slashes.
pub proof fn law_backslashes_are_slashes(pattern: Seq<char>, path: Seq<char>)
    ensures
        paths::covers(pattern, path) <==> paths::covers(
            paths::slashed(pattern),
            paths::slashed(path),
        ),
{
    lemma_slashed_twice(pattern);
    lemma_slashed_twice(path);
}

/// A pattern that does not end in `/**` covers the path that it is, and no other.
pub proof fn law_exact_pattern(pattern: Seq<char>, path: Seq<char>)
    requires
        !text::ends_with(paths::slashed(pattern), "/**"@),
    ensures
        paths::covers(pattern, path) <==> paths::slashed(path) == paths::slashed(pattern),
{
}

/// A directory followed by `/**` covers the directory and what is below it, and nothing else.
pub proof fn law_directory_pattern(dir: Seq<char>, path: Seq<char>)
    ensures
        paths::covers(dir + "/**"@, path) <==> paths::slashed(path) == paths::slashed(dir)
            || text::starts_with(paths::slashed(path), paths::slashed(dir).push('/')),
{
    reveal_strlit("/**");
    let pattern = dir + "/**"@;
    let q = paths::slashed(pattern);
    assert(q.subrange(q.len() - 3, q.len() as int) =~= "/**"@);
    assert(q.take(q.len() - 3) =~= paths::slashed(dir));
}

/// A path does not name both an example of a dotenv file and a dotenv file that holds values.
pub proof fn law_examples_hold_no_values(path: Seq<char>)
    ensures
        !(dotenv::dotenv_example_path(path) && dotenv::dotenv_value_path(path)),
{
}

proof fn lemma_kept(candidates: Seq<Seq<char>>, policy: PolicyModel, path: Seq<char>)
    ensures
        candidates.filter(listing::candidate_rule(policy.ignore_paths)).contains(path)
            <==> candidates.contains(path) && !paths::covered(policy.ignore_paths, path)
            && !paths::has_pruned_component(path),
{
    let rule = listing::candidate_rule(policy.ignore_paths);
    let kept = candidates.filter(rule);
    if kept.contains(path) {
        candidates.lemma_filter_contains_rev(rule, path);
        let i = choose|i: int| 0 <= i < kept.len() && kept[i] == path;
        candidates.lemma_filter_pred(rule, i);
    }
    if candidates.contains(path) && rule(path) {
        let i = choose|i: int| 0 <= i < candidates.len() && candidates[i] == path;
        candidates.lemma_filter_contains(rule, i);
    }
}

/// Of the paths that git lists, those are scanned that are neither ignored nor in a pruned
/// directory, in ascending order and once each, and there are no more of them than the policy
/// accepts. The others are counted as skipped.
pub proof fn law_git_listing(candidates: Seq<Seq<char>>, policy: PolicyModel)
    requires
        listing::filtered(candidates, policy) is Ok,
    ensures
        ({
            let (files, skipped) = listing::filtered(candidates, policy)->Ok_0;
            &&& order::strictly_ascending(files)
            &&& forall|path: Seq<char>| #[trigger]
                files.contains(path) <==> candidates.contains(path) && !paths::covered(
                    policy.ignore_paths,
                    path,
                ) && !paths::has_pruned_component(path)
            &&& files.len() + skipped <= candidates.len()
            &&& files.len() <= policy.max_files
            &&& candidates.no_duplicates() ==> files.len() + skipped == candidates.len()
        }),
{
    let rule = listing::candidate_rule(policy.ignore_paths);
    let kept = candidates.filter(rule);
    let files = order::sorted_set(kept);
    order::lemma_sorted_set(kept);
    order::lemma_sorted_contains(kept, Seq::empty());
    candidates.lemma_filter_len(rule);
    lemma_without_repeats_len(order::sorted(kept));
    assert forall|path: Seq<char>| #[trigger]
        files.contains(path) <==> candidates.contains(path) && !paths::covered(
            policy.ignore_paths,
            path,
        ) && !paths::has_pruned_component(path) by {
        lemma_kept(candidates, policy, path);
    }
    if candidates.no_duplicates() {
        lemma_filter_no_duplicates(candidates, rule);
        assert(files.no_duplicates());
        assert(files.to_set() =~= kept.to_set());
        files.unique_seq_to_set();
        kept.unique_seq_to_set();
    }
}

proof fn lemma_without_repeats_len(s: Seq<Seq<char>>)
    ensures
        order::without_repeats(s).len() <= s.len(),
    decreases s.len(),
{
    if s.len() > 1 {
        lemma_without_repeats_len(s.drop_last());
    }
}

proof fn lemma_filter_no_duplicates(s: Seq<Seq<char>>, rule: spec_fn(Seq<char>) -> bool)
    requires
        s.no_duplicates(),
    ensures
        s.filter(rule).no_duplicates(),
    decreases s.len(),
{
    reveal(Seq::filter);
    if s.len() > 0 {
        let front = s.drop_last();
        lemma_filter_no_duplicates(front, rule);
        let kept = front.filter(rule);
        if rule(s.last()) {
            assert(!kept.contains(s.last())) by {
                if kept.contains(s.last()) {
                    front.lemma_filter_contains_rev(rule, s.last());
                }
            }
        }
    }
}

/// A walk that stayed among what it may reach gives files that are neither ignored nor below an
/// ignored directory or one that it stays out of, in ascending order, and once each where it
/// found none twice.
pub proof fn law_walk_listing(walk: Walk, policy: PolicyModel)
    requires
        walk@.stays_inside(policy.ignore_paths),
        listing::collected(Listing::Directories(walk), policy) is Ok,
    ensures
        ({
            let (files, skipped) = listing::collected(Listing::Directories(walk), policy)->Ok_0;
            &&& vstd::relations::sorted_by(files, order::text_order())
            &&& forall|path: Seq<char>| #[trigger]
                files.contains(path) ==> listing::reachable_file(
                    path,
                    policy.ignore_paths,
                    walk@.include_ignored,
                )
            &&& walk@.files.no_duplicates() ==> order::strictly_ascending(files)
            &&& files.len() == walk@.files.len()
            &&& files.len() <= policy.max_files
        }),
{
    let (files, skipped) = listing::collected(Listing::Directories(walk), policy)->Ok_0;
    order::lemma_total_order();
    walk@.files.lemma_sort_by_ensures(order::text_order());
    order::lemma_sorted_contains(walk@.files, Seq::empty());
    if walk@.files.no_duplicates() {
        lemma_sorted_once(walk@.files);
    }
    assert forall|path: Seq<char>| #[trigger] files.contains(path) implies listing::reachable_file(
        path,
        policy.ignore_paths,
        walk@.include_ignored,
    ) by {
        order::lemma_sorted_contains(walk@.files, path);
        let i = choose|i: int| 0 <= i < walk@.files.len() && walk@.files[i] == path;
        assert(listing::reachable_file(
            walk@.files[i],
            policy.ignore_paths,
            walk@.include_ignored,
        ));
    }
}

/// What holds nothing twice is in strict order once it is sorted.
pub proof fn lemma_sorted_once(s: Seq<Seq<char>>)
    requires
        s.no_duplicates(),
    ensures
        order::strictly_ascending(order::sorted(s)),
{
    let r = order::sorted(s);
    order::lemma_total_order();
    s.lemma_sort_by_ensures(order::text_order());
    s.lemma_multiset_has_no_duplicates();
    r.lemma_multiset_has_no_duplicates_conv();
    assert forall|i: int, j: int|
        #![trigger r[i], r[j]]
        0 <= i < j < r.len() implies order::at_most(r[i], r[j]) && r[i] != r[j] by {
        assert(order::text_order()(r[i], r[j]));
    }
}

/// Where staged files were asked for and git listed them, what is found is at a path that git
/// listed, or is the state of a tool at a location where git listed a path.
pub proof fn law_staged_scan_stays_with_staged_files(
    repository: Repository,
    candidates: Vec<String>,
    options: ScanOptions,
    duration_ms: u128,
    finding: FindingModel,
)
    requires
        options.mode == ScanMode::Staged,
        repository.listing == Listing::Git(candidates),
        scan::scanned(repository, options, duration_ms) is Ok,
        report::all_findings(
            scan::scanned(repository, options, duration_ms)->Ok_0.checks,
        ).contains(finding),
    ensures
        text::texts(candidates@).contains(finding.path) || (checks::state_locations().contains(
            finding.path,
        ) && checks::reaches(text::texts(candidates@), finding.path) && finding.detail
            == "repo-local secret or environment state"@),
{
    let policy = repository.policy(options);
    let files = listing::collected(repository.listing, policy)->Ok_0.0;
    let input = repository.input(options, files);
    let list = text::texts(candidates@);
    values::law_checks_are_value_free(input);
    law_git_listing(list, policy);
    assert(values::value_free(finding, input));
    if exists|i: int| #[trigger] values::content_finding(finding, input, i) {
        let i = choose|i: int| #[trigger] values::content_finding(finding, input, i);
        assert(files[i] == finding.path);
        assert(files.contains(finding.path));
    } else if input.tracked_here().contains(finding.path) {
        let rule = checks::among_rule(list);
        let kept = input.tracked_here();
        let i = choose|i: int| 0 <= i < kept.len() && kept[i] == finding.path;
        input.tracked_files.lemma_filter_pred(rule, i);
    }
}

/// A tracked dotenv file that is staged is found in a staged scan, whatever paths are ignored,
/// unless the policy allows it.
pub proof fn law_staged_scan_finds_tracked_dotenv_files(
    repository: Repository,
    candidates: Vec<String>,
    options: ScanOptions,
    files: Seq<Seq<char>>,
    path: Seq<char>,
)
    requires
        options.mode == ScanMode::Staged,
        repository.listing == Listing::Git(candidates),
        text::texts(candidates@).contains(path),
        text::texts(repository.tracked_files@).contains(path),
        dotenv::dotenv_value_path(path),
        !paths::covered(repository.policy(options).allow_value_env_paths, path),
    ensures
        checks::tracked_dotenv_check(repository.input(options, files)).findings.contains(
            report::blocker(path, "tracked dotenv value file"@),
        ),
        !checks::tracked_dotenv_check(repository.input(options, files)).passed,
{
    let input = repository.input(options, files);
    let all = input.tracked_files;
    let rule = checks::among_rule(text::texts(candidates@));
    let i = choose|i: int| 0 <= i < all.len() && all[i] == path;
    all.lemma_filter_contains(rule, i);
    policies::law_allowed_dotenv_files(input, path);
}

/// The files of a listing that was made under this policy are not ignored.
pub open spec fn respects(listing: Listing, policy: PolicyModel) -> bool {
    match listing {
        Listing::Git(_) => true,
        Listing::Directories(walk) => walk@.stays_inside(policy.ignore_paths),
    }
}

/// What is found at an ignored path is a tracked dotenv file or the state of a tool: ignored
/// files themselves are not scanned.
pub proof fn law_ignored_files_are_not_scanned(
    repository: Repository,
    options: ScanOptions,
    duration_ms: u128,
    finding: FindingModel,
)
    requires
        respects(repository.listing, repository.policy(options)),
        scan::scanned(repository, options, duration_ms) is Ok,
        report::all_findings(
            scan::scanned(repository, options, duration_ms)->Ok_0.checks,
        ).contains(finding),
        paths::covered(repository.policy(options).ignore_paths, finding.path),
    ensures
        finding.detail == "tracked dotenv value file"@ || finding.detail
            == "repo-local secret or environment state"@,
{
    let policy = repository.policy(options);
    let found = listing::collected(repository.listing, policy);
    let files = found->Ok_0.0;
    let input = repository.input(options, files);
    values::law_checks_are_value_free(input);
    match repository.listing {
        Listing::Git(candidates) => law_git_listing(text::texts(candidates@), policy),
        Listing::Directories(walk) => law_walk_listing(walk, policy),
    }
    assert(!files.contains(finding.path));
    assert(values::value_free(finding, input));
    if exists|i: int| #[trigger] values::content_finding(finding, input, i) {
        let i = choose|i: int| #[trigger] values::content_finding(finding, input, i);
        assert(files[i] == finding.path);
    }
}

} // verus!

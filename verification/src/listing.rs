//! Which files of a repository are scanned.
use crate::error::ScanError;
use crate::order;
use crate::outside;
use crate::paths;
use crate::policy;
use crate::policy::{PolicyModel, ScanMode, ScanOptions, ScanPolicy};
use crate::text;
use vstd::prelude::*;

verus! {

/// How long a run of git may take, in milliseconds.
pub const GIT_TIMEOUT_MS: u64 = 10_000;

/// How long to wait before git is looked at again, in milliseconds.
pub const GIT_POLL_MS: u64 = 25;

/// What a directory entry is.
#[derive(Debug, Clone, Copy, PartialEq, Eq, Structural)]
pub enum EntryKind {
    Symlink,
    Dir,
    File,
    Other,
}

/// What becomes of a directory entry.
#[derive(Debug, Clone, Copy, PartialEq, Eq, Structural)]
pub enum EntryFate {
    /// It is left out and counted.
    Skip,
    /// It is a directory that will be read later.
    Descend,
    /// It is a file of the repository.
    List,
    /// It is passed over.
    Pass,
}

/// A walk through the directories of a repository: the files that were found, the entries that
/// were left out, and the directories that have still to be read, each as the names that
/// lead to it from the root. It takes in ignored files or not.
#[derive(Debug)]
pub struct Walk {
    files: Vec<String>,
    skipped: Vec<String>,
    pending: Vec<Vec<String>>,
    include_ignored: bool,
}

/// What a walk has found and has still to do.
#[verifier::ext_equal]
pub struct WalkModel {
    pub files: Seq<Seq<char>>,
    pub skipped: Seq<Seq<char>>,
    pub pending: Seq<Seq<Seq<char>>>,
    pub include_ignored: bool,
}

/// The contents of lists of strings.
pub open spec fn lists(v: Seq<Vec<String>>) -> Seq<Seq<Seq<char>>> {
    v.map_values(|p: Vec<String>| text::texts(p@))
}

impl View for Walk {
    type V = WalkModel;

    closed spec fn view(&self) -> WalkModel {
        WalkModel {
            files: text::texts(self.files@),
            skipped: text::texts(self.skipped@),
            pending: lists(self.pending@),
            include_ignored: self.include_ignored,
        }
    }
}

/// What becomes of the entry `name` of the directory `dir`.
pub open spec fn entry_fate(
    dir: Seq<Seq<char>>,
    name: Seq<char>,
    kind: EntryKind,
    ignore_paths: Seq<Seq<char>>,
    include_ignored: bool,
) -> EntryFate {
    if paths::covered(ignore_paths, paths::joined(dir.push(name))) {
        EntryFate::Skip
    } else {
        match kind {
            EntryKind::Symlink => EntryFate::Skip,
            EntryKind::Dir => if paths::stays_out_of(name, include_ignored) {
                EntryFate::Skip
            } else {
                EntryFate::Descend
            },
            EntryKind::File => EntryFate::List,
            EntryKind::Other => EntryFate::Pass,
        }
    }
}

/// The directory that `components` lead to can be reached: neither it nor a directory above it
/// is ignored or one that the walk stays out of.
pub open spec fn reachable(
    components: Seq<Seq<char>>,
    ignore_paths: Seq<Seq<char>>,
    include_ignored: bool,
) -> bool {
    &&& forall|i: int|
        0 <= i < components.len() ==> !paths::stays_out_of(
            #[trigger] components[i],
            include_ignored,
        )
    &&& forall|n: int|
        1 <= n <= components.len() ==> !paths::covered(
            ignore_paths,
            paths::joined(#[trigger] components.take(n)),
        )
}

/// `path` leads through a reachable directory to an entry that is not ignored.
pub open spec fn reachable_file(
    path: Seq<char>,
    ignore_paths: Seq<Seq<char>>,
    include_ignored: bool,
) -> bool {
    &&& !paths::covered(ignore_paths, path)
    &&& exists|dir: Seq<Seq<char>>, name: Seq<char>|
        #![trigger dir.push(name)]
        reachable(dir, ignore_paths, include_ignored) && path == paths::joined(dir.push(name))
}

impl WalkModel {
    /// The walk before its first step: the root has still to be read.
    pub open spec fn start(include_ignored: bool) -> WalkModel {
        WalkModel {
            files: Seq::empty(),
            skipped: Seq::empty(),
            pending: seq![Seq::<Seq<char>>::empty()],
            include_ignored,
        }
    }

    /// The walk after the entry `name` of the directory `dir` was looked at.
    pub open spec fn after_entry(
        self,
        dir: Seq<Seq<char>>,
        name: Seq<char>,
        fate: EntryFate,
    ) -> WalkModel {
        let path = paths::joined(dir.push(name));
        match fate {
            EntryFate::Skip => WalkModel { skipped: self.skipped.push(path), ..self },
            EntryFate::Descend => WalkModel { pending: self.pending.push(dir.push(name)), ..self },
            EntryFate::List => WalkModel { files: self.files.push(path), ..self },
            EntryFate::Pass => self,
        }
    }

    /// Every file that was found and every directory that will be read is reachable.
    pub open spec fn stays_inside(self, ignore_paths: Seq<Seq<char>>) -> bool {
        &&& forall|i: int|
            0 <= i < self.files.len() ==> reachable_file(
                #[trigger] self.files[i],
                ignore_paths,
                self.include_ignored,
            )
        &&& forall|i: int|
            0 <= i < self.pending.len() ==> reachable(
                #[trigger] self.pending[i],
                ignore_paths,
                self.include_ignored,
            )
    }
}

impl Walk {
    /// A walk that starts at the root. With `include_ignored` it enters dependencies and build
    /// outputs too.
    pub fn new(include_ignored: bool) -> (r: Walk)
        ensures
            r@ == WalkModel::start(include_ignored),
            forall|ignore_paths: Seq<Seq<char>>| #[trigger] r@.stays_inside(ignore_paths),
    {
        let root: Vec<String> = Vec::new();
        let mut pending: Vec<Vec<String>> = Vec::new();
        pending.push(root);
        let r = Walk { files: Vec::new(), skipped: Vec::new(), pending, include_ignored };
        proof {
            assert(text::texts(root@) =~= Seq::<Seq<char>>::empty());
            assert(lists(pending@) =~= seq![Seq::<Seq<char>>::empty()]);
            assert(r@ =~= WalkModel::start(include_ignored));
        }
        r
    }

    /// The directory to read next: the one that was found last. None where the walk is done.
    pub fn next_dir(&mut self) -> (r: Option<Vec<String>>)
        ensures
            match r {
                Some(dir) => old(self)@.pending.len() > 0 && text::texts(dir@)
                    == old(self)@.pending.last() && final(self)@ == (WalkModel {
                    pending: old(self)@.pending.drop_last(),
                    ..old(self)@
                }),
                None => old(self)@.pending.len() == 0 && final(self)@ == old(self)@,
            },
            forall|ignore_paths: Seq<Seq<char>>|
                old(self)@.stays_inside(ignore_paths) ==> #[trigger] final(self)@.stays_inside(
                    ignore_paths,
                ) && (r matches Some(dir) ==> reachable(
                    text::texts(dir@),
                    ignore_paths,
                    old(self)@.include_ignored,
                )),
    {
        let ghost before = self@;
        let r = self.pending.pop();
        proof {
            if r is Some {
                assert(lists(self.pending@) =~= before.pending.drop_last());
            }
            assert(self@.files == before.files);
            assert(self@.skipped == before.skipped);
            assert forall|ignore_paths: Seq<Seq<char>>| before.stays_inside(ignore_paths) implies (
            #[trigger] self@.stays_inside(ignore_paths)) && (r matches Some(dir) ==> reachable(
                text::texts(dir@),
                ignore_paths,
                before.include_ignored,
            )) by {
                assert(forall|i: int|
                    0 <= i < self@.pending.len() ==> #[trigger] self@.pending[i]
                        == before.pending[i]);
                if r is Some {
                    assert(reachable(
                        before.pending[before.pending.len() - 1],
                        ignore_paths,
                        before.include_ignored,
                    ));
                }
            }
        }
        r
    }

    /// Tests whether the entry `name` of the directory `dir` is ignored, whatever it is.
    pub fn ignores(dir: &[String], name: &str, policy: &ScanPolicy) -> (r: bool)
        ensures
            r == paths::covered(
                policy@.ignore_paths,
                paths::joined(text::texts(dir@).push(name@)),
            ),
    {
        let path = entry_path(dir, name);
        policy::path_is_ignored(path.as_str(), policy)
    }

    /// Looks at the entry `name` of the directory `dir`. Fails where the repository turns out
    /// to have more files than the policy accepts.
    pub fn visit_entry(
        &mut self,
        dir: &[String],
        name: &str,
        kind: EntryKind,
        policy: &ScanPolicy,
    ) -> (r: Result<EntryFate, ScanError>)
        ensures
            final(self)@ == old(self)@.after_entry(
                text::texts(dir@),
                name@,
                entry_fate(
                    text::texts(dir@),
                    name@,
                    kind,
                    policy@.ignore_paths,
                    old(self)@.include_ignored,
                ),
            ),
            r == (if final(self)@.files.len() > old(self)@.files.len() && final(self)@.files.len()
                > policy@.max_files {
                Err::<EntryFate, ScanError>(ScanError::TooManyFiles)
            } else {
                Ok(
                    entry_fate(
                        text::texts(dir@),
                        name@,
                        kind,
                        policy@.ignore_paths,
                        old(self)@.include_ignored,
                    ),
                )
            }),
            old(self)@.stays_inside(policy@.ignore_paths) && reachable(
                text::texts(dir@),
                policy@.ignore_paths,
                old(self)@.include_ignored,
            ) ==> final(self)@.stays_inside(policy@.ignore_paths),
    {
        let ghost before = self@;
        let ghost names = text::texts(dir@);
        let ghost fate = entry_fate(
            names,
            name@,
            kind,
            policy@.ignore_paths,
            before.include_ignored,
        );
        let path = entry_path(dir, name);
        let ignored = policy::path_is_ignored(path.as_str(), policy);
        let found = if ignored {
            EntryFate::Skip
        } else {
            match kind {
                EntryKind::Symlink => EntryFate::Skip,
                EntryKind::Dir => if paths::is_left_out(&text::chars_of(name), self.include_ignored) {
                    EntryFate::Skip
                } else {
                    EntryFate::Descend
                },
                EntryKind::File => EntryFate::List,
                EntryKind::Other => EntryFate::Pass,
            }
        };
        assert(found == fate);
        proof {
            lemma_after_entry(before, names, name@, kind, policy@.ignore_paths);
        }
        match found {
            EntryFate::Skip => {
                proof {
                    order::lemma_texts_push(self.skipped@, path);
                }
                self.skipped.push(path);
            },
            EntryFate::Descend => {
                let child = entry_components(dir, name);
                assert(lists(self.pending@.push(child)) =~= lists(self.pending@).push(
                    text::texts(child@),
                ));
                self.pending.push(child);
            },
            EntryFate::List => {
                proof {
                    order::lemma_texts_push(self.files@, path);
                }
                self.files.push(path);
                assert(self@ =~= before.after_entry(names, name@, fate));
                if self.files.len() > policy.max_files {
                    return Err(ScanError::TooManyFiles);
                }
            },
            EntryFate::Pass => {},
        }
        assert(self@ =~= before.after_entry(names, name@, fate));
        Ok(found)
    }

    /// Tests whether no directory is left to read.
    pub fn is_done(&self) -> (r: bool)
        ensures
            r == (self@.pending.len() == 0),
    {
        self.pending.len() == 0
    }

    /// The files that the walk found, in ascending order, and how many entries it left out.
    pub fn finish(&self) -> (r: (Vec<String>, usize))
        ensures
            text::texts(r.0@) == order::sorted(self@.files),
            r.1 == self@.skipped.len(),
    {
        (order::sort_texts(&self.files), self.skipped.len())
    }
}

/// Looking at an entry keeps a walk among what it may reach.
proof fn lemma_after_entry(
    walk: WalkModel,
    dir: Seq<Seq<char>>,
    name: Seq<char>,
    kind: EntryKind,
    ignore_paths: Seq<Seq<char>>,
)
    ensures
        walk.stays_inside(ignore_paths) && reachable(dir, ignore_paths, walk.include_ignored)
            ==> walk.after_entry(
            dir,
            name,
            entry_fate(dir, name, kind, ignore_paths, walk.include_ignored),
        ).stays_inside(ignore_paths),
{
    let include_ignored = walk.include_ignored;
    if walk.stays_inside(ignore_paths) && reachable(dir, ignore_paths, include_ignored) {
        let fate = entry_fate(dir, name, kind, ignore_paths, include_ignored);
        let next = walk.after_entry(dir, name, fate);
        let child = dir.push(name);
        if fate == EntryFate::Descend {
            assert forall|n: int| 1 <= n <= child.len() implies !paths::covered(
                ignore_paths,
                paths::joined(#[trigger] child.take(n)),
            ) by {
                if n < child.len() {
                    assert(child.take(n) == dir.take(n));
                } else {
                    assert(child.take(n) == child);
                }
            }
            assert(reachable(child, ignore_paths, include_ignored));
        }
        if fate == EntryFate::List {
            assert(reachable_file(paths::joined(child), ignore_paths, include_ignored));
        }
        assert forall|i: int| 0 <= i < next.files.len() implies reachable_file(
            #[trigger] next.files[i],
            ignore_paths,
            include_ignored,
        ) by {
            if i < walk.files.len() {
                assert(next.files[i] == walk.files[i]);
            }
        }
        assert forall|i: int| 0 <= i < next.pending.len() implies reachable(
            #[trigger] next.pending[i],
            ignore_paths,
            include_ignored,
        ) by {
            if i < walk.pending.len() {
                assert(next.pending[i] == walk.pending[i]);
            }
        }
    }
}

/// The names that lead to the entry `name` of the directory `dir`.
fn entry_components(dir: &[String], name: &str) -> (r: Vec<String>)
    ensures
        text::texts(r@) == text::texts(dir@).push(name@),
{
    let ghost all = text::texts(dir@);
    let mut r: Vec<String> = Vec::new();
    let mut i: usize = 0;
    while i < dir.len()
        invariant
            i <= dir@.len(),
            all == text::texts(dir@),
            text::texts(r@) == all.take(i as int),
        decreases dir@.len() - i,
    {
        let next = dir[i].clone();
        proof {
            order::lemma_texts_push(r@, next);
            assert(all.take(i + 1) == all.take(i as int).push(all[i as int]));
        }
        r.push(next);
        i = i + 1;
    }
    let last = String::from_str(name);
    proof {
        assert(all.take(i as int) == all);
        order::lemma_texts_push(r@, last);
    }
    r.push(last);
    r
}

/// The path of the entry `name` of the directory `dir`.
fn entry_path(dir: &[String], name: &str) -> (r: String)
    ensures
        r@ == paths::joined(text::texts(dir@).push(name@)),
{
    let components = entry_components(dir, name);
    paths::normalize_path(&components)
}

/// The paths that are neither ignored nor in a pruned directory pass.
pub open spec fn candidate_rule(ignore_paths: Seq<Seq<char>>) -> spec_fn(Seq<char>) -> bool {
    |path: Seq<char>| !paths::covered(ignore_paths, path) && !paths::has_pruned_component(path)
}

/// The files among `candidates` that are scanned, in ascending order and once each, and how
/// many candidates were left out. Fails where more candidates remain than the policy accepts.
pub open spec fn filtered(
    candidates: Seq<Seq<char>>,
    policy: PolicyModel,
) -> Result<(Seq<Seq<char>>, nat), ScanError> {
    let kept = candidates.filter(candidate_rule(policy.ignore_paths));
    if kept.len() > policy.max_files {
        Err(ScanError::TooManyFiles)
    } else {
        Ok((order::sorted_set(kept), (candidates.len() - kept.len()) as nat))
    }
}

/// The outcome of a listing as values.
pub open spec fn listing_outcome(r: Result<(Vec<String>, usize), ScanError>) -> Result<
    (Seq<Seq<char>>, nat),
    ScanError,
> {
    match r {
        Ok((files, skipped)) => Ok((text::texts(files@), skipped as nat)),
        Err(error) => Err(error),
    }
}

/// The files among `candidates` that are scanned.
pub fn filter_candidate_files(candidates: &[String], policy: &ScanPolicy) -> (r: Result<
    (Vec<String>, usize),
    ScanError,
>)
    ensures
        listing_outcome(r) == filtered(text::texts(candidates@), policy@),
{
    let ghost all = text::texts(candidates@);
    let ghost rule = candidate_rule(policy@.ignore_paths);
    let mut kept: Vec<String> = Vec::new();
    let mut skipped: usize = 0;
    let mut i: usize = 0;
    proof {
        reveal(Seq::filter);
        assert(all.take(0).filter(rule) == Seq::<Seq<char>>::empty());
    }
    while i < candidates.len()
        invariant
            i <= candidates@.len(),
            all == text::texts(candidates@),
            rule == candidate_rule(policy@.ignore_paths),
            text::texts(kept@) == all.take(i as int).filter(rule),
            kept@.len() + skipped == i,
            kept@.len() <= policy@.max_files,
        decreases candidates@.len() - i,
    {
        let path = candidates[i].as_str();
        proof {
            reveal(Seq::filter);
            assert(all.take(i + 1).drop_last() == all.take(i as int));
            order::lemma_texts_push(kept@, candidates@[i as int]);
        }
        if policy::path_is_ignored(path, policy) || paths::has_pruned_part(path) {
            skipped = skipped + 1;
        } else {
            kept.push(candidates[i].clone());
            if kept.len() > policy.max_files {
                proof {
                    lemma_filter_take_grows(all, rule, i + 1);
                }
                return Err(ScanError::TooManyFiles);
            }
        }
        i = i + 1;
    }
    assert(all.take(i as int) == all);
    Ok((order::sort_set(&kept), skipped))
}

/// A start of a list has no more passing elements than the list.
proof fn lemma_filter_take_grows(
    s: Seq<Seq<char>>,
    rule: spec_fn(Seq<char>) -> bool,
    n: int,
)
    requires
        0 <= n <= s.len(),
    ensures
        s.take(n).filter(rule).len() <= s.filter(rule).len(),
    decreases s.len() - n,
{
    if n < s.len() {
        reveal(Seq::filter);
        assert(s.take(n + 1).drop_last() == s.take(n));
        lemma_filter_take_grows(s, rule, n + 1);
    } else {
        assert(s.take(n) == s);
    }
}

/// How the files of a repository were listed.
#[derive(Debug)]
pub enum Listing {
    /// By git: the paths that it printed.
    Git(Vec<String>),
    /// By a walk through the directories.
    Directories(Walk),
}

/// The files of a repository that are scanned and how many entries were left out. Fails where
/// there are more files than the policy accepts, or where the walk is not done.
pub open spec fn collected(listing: Listing, policy: PolicyModel) -> Result<
    (Seq<Seq<char>>, nat),
    ScanError,
> {
    match listing {
        Listing::Git(candidates) => filtered(text::texts(candidates@), policy),
        Listing::Directories(walk) => if walk@.files.len() > policy.max_files {
            Err(ScanError::TooManyFiles)
        } else if walk@.pending.len() > 0 {
            Err(ScanError::UnfinishedWalk)
        } else {
            Ok((order::sorted(walk@.files), walk@.skipped.len()))
        },
    }
}

/// The files of a repository that are scanned and how many entries were left out.
pub fn collect_files(listing: &Listing, policy: &ScanPolicy) -> (r: Result<
    (Vec<String>, usize),
    ScanError,
>)
    ensures
        listing_outcome(r) == collected(*listing, policy@),
{
    match listing {
        Listing::Git(candidates) => filter_candidate_files(candidates, policy),
        Listing::Directories(walk) => {
            let (files, skipped) = walk.finish();
            assert(text::texts(files@).len() == walk@.files.len()) by {
                order::lemma_sorted_contains(walk@.files, Seq::empty());
            }
            if files.len() > policy.max_files {
                Err(ScanError::TooManyFiles)
            } else if !walk.is_done() {
                Err(ScanError::UnfinishedWalk)
            } else {
                Ok((files, skipped))
            }
        },
    }
}

/// The contents of an optional list of strings.
pub open spec fn list_texts(list: Option<Vec<String>>) -> Option<Seq<Seq<char>>> {
    match list {
        Some(found) => Some(text::texts(found@)),
        None => None,
    }
}

/// The paths that are staged, ignored ones too, where staged files were asked for and git listed
/// them. A walk knows of no staged paths.
pub open spec fn staged_paths(listing: Listing, mode: ScanMode) -> Option<Seq<Seq<char>>> {
    match (mode, listing) {
        (ScanMode::Staged, Listing::Git(candidates)) => Some(text::texts(candidates@)),
        _ => None,
    }
}

/// The paths that are staged, where staged files were asked for and git listed them.
pub fn keep_staged(listing: Listing, mode: ScanMode) -> (r: Option<Vec<String>>)
    ensures
        list_texts(r) == staged_paths(listing, mode),
{
    match (mode, listing) {
        (ScanMode::Staged, Listing::Git(candidates)) => Some(candidates),
        _ => None,
    }
}

/// The arguments with which git lists the files of a repository, where git is to list them:
/// the repository is kept by git and ignored files are not asked for.
pub open spec fn git_arguments(options: ScanOptions, has_git_dir: bool) -> Option<Seq<Seq<char>>> {
    if options.include_ignored || !has_git_dir {
        None
    } else {
        match options.mode {
            ScanMode::WorkingTree => Some(seq!["ls-files"@, "-co"@, "--exclude-standard"@]),
            ScanMode::Staged => Some(
                seq!["diff"@, "--name-only"@, "--cached"@, "--diff-filter=ACMR"@],
            ),
        }
    }
}

/// The arguments with which git lists the files of a repository, where git is to list them.
pub fn git_scan_files(options: &ScanOptions, has_git_dir: bool) -> (r: Option<Vec<&'static str>>)
    ensures
        match r {
            Some(arguments) => git_arguments(*options, has_git_dir) == Some(
                text::strs(arguments@),
            ),
            None => git_arguments(*options, has_git_dir) is None,
        },
{
    if options.include_ignored || !has_git_dir {
        return None;
    }
    let arguments: Vec<&'static str> = match options.mode {
        ScanMode::WorkingTree => vec!["ls-files", "-co", "--exclude-standard"],
        ScanMode::Staged => vec!["diff", "--name-only", "--cached", "--diff-filter=ACMR"],
    };
    proof {
        match options.mode {
            ScanMode::WorkingTree => {
                assert(text::strs(arguments@) =~= seq![
                    "ls-files"@,
                    "-co"@,
                    "--exclude-standard"@,
                ]);
            },
            ScanMode::Staged => {
                assert(text::strs(arguments@) =~= seq![
                    "diff"@,
                    "--name-only"@,
                    "--cached"@,
                    "--diff-filter=ACMR"@,
                ]);
            },
        }
    }
    Some(arguments)
}

/// The arguments with which git lists the files that it tracks, where the repository is kept by
/// git.
pub fn git_tracked_files(has_git_dir: bool) -> (r: Option<Vec<&'static str>>)
    ensures
        match r {
            Some(arguments) => has_git_dir && text::strs(arguments@) == seq!["ls-files"@],
            None => !has_git_dir,
        },
{
    if has_git_dir {
        let arguments: Vec<&'static str> = vec!["ls-files"];
        assert(text::strs(arguments@) =~= seq!["ls-files"@]);
        Some(arguments)
    } else {
        None
    }
}

/// The lines of what git printed.
pub fn split_file_list(printed: &str) -> (r: Vec<String>)
    ensures
        text::texts(r@) == text::lines(printed@),
{
    let chars = text::chars_of(printed);
    let lines = text::split_lines(&chars);
    let ghost all = text::lines(printed@);
    let mut r: Vec<String> = Vec::new();
    let mut i: usize = 0;
    while i < lines.len()
        invariant
            i <= lines@.len(),
            text::contents(lines@) == all,
            text::texts(r@) == all.take(i as int),
        decreases lines@.len() - i,
    {
        let next = text::string_of(lines[i]);
        proof {
            assert(lines@[i as int]@ == all[i as int]);
            order::lemma_texts_push(r@, next);
            assert(all.take(i + 1) == all.take(i as int).push(all[i as int]));
        }
        r.push(next);
        i = i + 1;
    }
    assert(all.take(i as int) == all);
    r
}

/// The files that git printed; none where git failed or took too long.
pub fn git_file_list(succeeded: bool, output: &[u8]) -> (r: Vec<String>)
    ensures
        text::texts(r@) == (if succeeded {
            text::lines(outside::decoded(output@))
        } else {
            Seq::empty()
        }),
{
    if succeeded {
        let printed = outside::decode(output);
        split_file_list(printed.as_str())
    } else {
        let r: Vec<String> = Vec::new();
        assert(text::texts(r@) =~= Seq::empty());
        r
    }
}

/// What to do with a run of git.
#[derive(Debug, Clone, Copy, PartialEq, Eq, Structural)]
pub enum WaitStep {
    /// It ended: with success or not.
    Ended(bool),
    /// It took too long and is to be stopped; it counts as failed.
    Stop,
    /// It is to be looked at again after [`GIT_POLL_MS`].
    Sleep,
}

/// What to do with a run of git, given whether it ended with success, if it ended, and for how
/// many milliseconds it has been running.
pub fn wait_step(ended: Option<bool>, elapsed_ms: u64) -> (r: WaitStep)
    ensures
        r == (match ended {
            Some(success) => WaitStep::Ended(success),
            None => if elapsed_ms >= GIT_TIMEOUT_MS {
                WaitStep::Stop
            } else {
                WaitStep::Sleep
            },
        }),
{
    match ended {
        Some(success) => WaitStep::Ended(success),
        None => if elapsed_ms >= GIT_TIMEOUT_MS {
            WaitStep::Stop
        } else {
            WaitStep::Sleep
        },
    }
}

/// The directories in which git is looked for, as the system writes a list of them.
pub open spec fn search_path(windows: bool) -> Seq<char> {
    if windows {
        "C:\\Windows\\System32;C:\\Windows;C:\\Windows\\System32\\WindowsPowerShell\\v1.0"@
    } else {
        "/usr/bin:/bin:/usr/sbin:/sbin:/opt/homebrew/bin:/usr/local/bin"@
    }
}

/// The directories in which git is looked for.
pub fn safe_path_value(windows: bool) -> (r: &'static str)
    ensures
        r@ == search_path(windows),
{
    if windows {
        "C:\\Windows\\System32;C:\\Windows;C:\\Windows\\System32\\WindowsPowerShell\\v1.0"
    } else {
        "/usr/bin:/bin:/usr/sbin:/sbin:/opt/homebrew/bin:/usr/local/bin"
    }
}

} // verus!

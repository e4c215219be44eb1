//! Which directories, files and paths the rules on names mean, said in the names themselves.
use crate::laws::characters;
use crate::laws::lines;
use crate::laws::places;
use crate::laws::walks;
use crate::listing;
use crate::listing::{EntryFate, EntryKind, Listing, Walk, WalkModel};
use crate::order;
use crate::paths;
use crate::policy::PolicyModel;
use crate::text;
use crate::text::CharClass;
use vstd::prelude::*;

verus! {

/// The rule on the characters of a component.
pub open spec fn component_rule() -> spec_fn(char) -> bool {
    |c: char| c != '/'
}

/// `name` is the component of `path` that begins at `i`: it holds no slash, and next to it there
/// are slashes or the ends of the path.
pub open spec fn component_at(path: Seq<char>, name: Seq<char>, i: int) -> bool {
    &&& characters::stands_at(path, name, i)
    &&& forall|k: int| 0 <= k < name.len() ==> #[trigger] name[k] != '/'
    &&& i > 0 ==> path[i - 1] == '/'
    &&& i + name.len() < path.len() ==> path[i + name.len()] == '/'
}

/// `name` is a component of `path`.
pub open spec fn has_component(path: Seq<char>, name: Seq<char>) -> bool {
    exists|i: int| component_at(path, name, i)
}

/// A component of `path` has one of the thirteen names of directories that are left out.
pub open spec fn passes_left_out_dir(path: Seq<char>) -> bool {
    ||| has_component(path, ".git"@)
    ||| has_component(path, ".hg"@)
    ||| has_component(path, ".svn"@)
    ||| has_component(path, "node_modules"@)
    ||| has_component(path, "target"@)
    ||| has_component(path, "dist"@)
    ||| has_component(path, "build"@)
    ||| has_component(path, ".next"@)
    ||| has_component(path, ".nuxt"@)
    ||| has_component(path, ".turbo"@)
    ||| has_component(path, "coverage"@)
    ||| has_component(path, ".cache"@)
    ||| has_component(path, "vendor"@)
}

/// The pieces of a path between slashes are its components.
pub proof fn law_components(path: Seq<char>, name: Seq<char>)
    ensures
        text::pieces(path, CharClass::NotSlash).contains(name) <==> has_component(path, name),
{
    let class = CharClass::NotSlash;
    let rule = component_rule();
    let parts = text::pieces(path, class);
    assert(characters::same_rule(class, rule));
    if parts.contains(name) {
        let n = choose|n: int| 0 <= n < parts.len() && parts[n] == name;
        let (i, j) = characters::law_piece_stands_alone(path, class, rule, n);
        assert forall|k: int| 0 <= k < name.len() implies #[trigger] name[k] != '/' by {
            assert(rule(path[i + k]));
        }
        assert(component_at(path, name, i));
    }
    if has_component(path, name) {
        let i = choose|i: int| component_at(path, name, i);
        let j = i + name.len();
        assert forall|k: int| i <= k < j implies rule(#[trigger] path[k]) by {
            assert(path.subrange(i, j)[k - i] == name[k - i]);
        }
        let n = characters::law_what_stands_alone_is_a_piece(path, class, rule, i, j);
        assert(parts[n] == name);
    }
}

/// A path is in a pruned directory exactly where one of its components has one of the thirteen
/// names.
pub proof fn law_left_out_paths(path: Seq<char>)
    ensures
        paths::has_pruned_component(path) <==> passes_left_out_dir(path),
{
    let parts = text::pieces(path, CharClass::NotSlash);
    assert forall|name: Seq<char>| #[trigger]
        has_component(path, name) == parts.contains(name) by {
        law_components(path, name);
    }
    if paths::has_pruned_component(path) {
        let k = choose|k: int| 0 <= k < parts.len() && paths::pruned_dir_name(#[trigger] parts[k]);
        assert(parts.contains(parts[k]));
        assert(has_component(path, parts[k]));
    }
}

/// Where no pattern ignores anything, git's listing keeps exactly the paths without a component
/// of one of the thirteen names, and where no path has one, nothing is skipped.
pub proof fn law_git_listing_without_patterns(candidates: Seq<Seq<char>>, policy: PolicyModel)
    requires
        policy.ignore_paths.len() == 0,
    ensures
        match listing::filtered(candidates, policy) {
            Ok((files, skipped)) => {
                &&& forall|path: Seq<char>| #[trigger]
                    files.contains(path) <==> candidates.contains(path) && !passes_left_out_dir(
                        path,
                    )
                &&& (forall|i: int|
                    0 <= i < candidates.len() ==> !passes_left_out_dir(#[trigger] candidates[i]))
                    ==> skipped == 0
                &&& (forall|i: int|
                    0 <= i < candidates.len() ==> passes_left_out_dir(#[trigger] candidates[i]))
                    ==> skipped == candidates.len()
            },
            Err(_) => candidates.len() > policy.max_files,
        },
{
    let rule = listing::candidate_rule(policy.ignore_paths);
    let kept = candidates.filter(rule);
    candidates.lemma_filter_len(rule);
    assert forall|path: Seq<char>| paths::has_pruned_component(path) == #[trigger]
        passes_left_out_dir(path) by {
        law_left_out_paths(path);
    }
    assert forall|path: Seq<char>| #[trigger] rule(path) == !passes_left_out_dir(path) by {
        assert(!paths::covered(policy.ignore_paths, path));
    }
    if listing::filtered(candidates, policy) is Ok {
        places::law_git_listing(candidates, policy);
        let (files, skipped) = listing::filtered(candidates, policy)->Ok_0;
        assert forall|path: Seq<char>| #[trigger]
            files.contains(path) <==> candidates.contains(path) && !passes_left_out_dir(path) by {
            assert(!paths::covered(policy.ignore_paths, path));
        }
        if forall|i: int|
            0 <= i < candidates.len() ==> !passes_left_out_dir(#[trigger] candidates[i]) {
            lemma_filter_all(candidates, rule);
        }
        if forall|i: int|
            0 <= i < candidates.len() ==> passes_left_out_dir(#[trigger] candidates[i]) {
            lemma_filter_none(candidates, rule);
        }
    }
}

proof fn lemma_filter_all(s: Seq<Seq<char>>, rule: spec_fn(Seq<char>) -> bool)
    requires
        forall|i: int| 0 <= i < s.len() ==> rule(#[trigger] s[i]),
    ensures
        s.filter(rule) == s,
    decreases s.len(),
{
    reveal(Seq::filter);
    if s.len() > 0 {
        lemma_filter_all(s.drop_last(), rule);
        assert(s =~= s.drop_last().push(s.last()));
    }
}

proof fn lemma_filter_none(s: Seq<Seq<char>>, rule: spec_fn(Seq<char>) -> bool)
    requires
        forall|i: int| 0 <= i < s.len() ==> !rule(#[trigger] s[i]),
    ensures
        s.filter(rule).len() == 0,
    decreases s.len(),
{
    reveal(Seq::filter);
    if s.len() > 0 {
        lemma_filter_none(s.drop_last(), rule);
    }
}

/// A listing by git that leaves nothing out and is not too long keeps every path.
pub proof fn law_git_listing_has_room(candidates: Seq<Seq<char>>, policy: PolicyModel)
    ensures
        candidates.len() <= policy.max_files ==> listing::filtered(candidates, policy) is Ok,
        policy.ignore_paths.len() == 0 && candidates.len() > policy.max_files && (forall|i: int|
            0 <= i < candidates.len() ==> !passes_left_out_dir(#[trigger] candidates[i]))
            ==> listing::filtered(candidates, policy) is Err,
{
    let rule = listing::candidate_rule(policy.ignore_paths);
    candidates.lemma_filter_len(rule);
    if policy.ignore_paths.len() == 0 && forall|i: int|
        0 <= i < candidates.len() ==> !passes_left_out_dir(#[trigger] candidates[i]) {
        assert forall|i: int| 0 <= i < candidates.len() implies rule(#[trigger] candidates[i]) by {
            law_left_out_paths(candidates[i]);
            assert(!paths::covered(policy.ignore_paths, candidates[i]));
        }
        lemma_filter_all(candidates, rule);
    }
}

/// What becomes of an entry that no pattern ignores: a directory is entered unless it has one of
/// the thirteen names, or one of the three names of version control where the walk takes in
/// ignored files; a file is listed whatever it is called; a symbolic link is skipped, and
/// anything else is passed over. An entry that a pattern ignores is skipped.
pub proof fn law_walk_entries(
    dir: Seq<Seq<char>>,
    name: Seq<char>,
    ignore_paths: Seq<Seq<char>>,
    include_ignored: bool,
)
    ensures
        ({
            let fate = |kind: EntryKind|
                listing::entry_fate(dir, name, kind, ignore_paths, include_ignored);
            let version_control = name == ".git"@ || name == ".hg"@ || name == ".svn"@;
            let left_out = version_control || name == "node_modules"@ || name == "target"@ || name
                == "dist"@ || name == "build"@ || name == ".next"@ || name == ".nuxt"@ || name
                == ".turbo"@ || name == "coverage"@ || name == ".cache"@ || name == "vendor"@;
            if paths::covered(ignore_paths, paths::joined(dir.push(name))) {
                forall|kind: EntryKind| #[trigger] fate(kind) == EntryFate::Skip
            } else {
                &&& fate(EntryKind::File) == EntryFate::List
                &&& fate(EntryKind::Symlink) == EntryFate::Skip
                &&& fate(EntryKind::Other) == EntryFate::Pass
                &&& fate(EntryKind::Dir) == (if version_control || (left_out && !include_ignored) {
                    EntryFate::Skip
                } else {
                    EntryFate::Descend
                })
            }
        }),
{
}

/// A walk takes down every entry that it looks at just once: a file among the files, a directory
/// that it enters among those to be read, anything that it skips among the skipped; what it passes
/// over leaves it as it was.
pub proof fn law_walk_counts(walk: WalkModel, dir: Seq<Seq<char>>, name: Seq<char>)
    ensures
        ({
            let path = paths::joined(dir.push(name));
            let skipped = walk.after_entry(dir, name, EntryFate::Skip);
            let entered = walk.after_entry(dir, name, EntryFate::Descend);
            let taken = walk.after_entry(dir, name, EntryFate::List);
            &&& skipped.skipped == walk.skipped + seq![path]
            &&& skipped.files == walk.files && skipped.pending == walk.pending
            &&& entered.pending == walk.pending + seq![dir + seq![name]]
            &&& entered.files == walk.files && entered.skipped == walk.skipped
            &&& taken.files == walk.files + seq![path]
            &&& taken.skipped == walk.skipped && taken.pending == walk.pending
            &&& walk.after_entry(dir, name, EntryFate::Pass) == walk
            &&& WalkModel::start(true).pending == seq![Seq::<Seq<char>>::empty()]
            &&& WalkModel::start(false).pending == seq![Seq::<Seq<char>>::empty()]
            &&& WalkModel::start(true).include_ignored && !WalkModel::start(false).include_ignored
            &&& forall|fate: EntryFate|
                (#[trigger] walk.after_entry(dir, name, fate)).include_ignored
                    == walk.include_ignored
        }),
{
    assert(dir.push(name) =~= dir + seq![name]);
    let path = paths::joined(dir.push(name));
    assert(walk.skipped.push(path) =~= walk.skipped + seq![path]);
    assert(walk.files.push(path) =~= walk.files + seq![path]);
    assert(walk.pending.push(dir.push(name)) =~= walk.pending + seq![dir.push(name)]);
}

/// A walk gives its files and the number of what it skipped exactly where it is done and found no
/// more files than the policy accepts.
pub proof fn law_walk_collects(walk: Walk, policy: PolicyModel)
    ensures
        match listing::collected(Listing::Directories(walk), policy) {
            Ok((files, skipped)) => walk@.pending.len() == 0 && walk@.files.len()
                <= policy.max_files && files.to_multiset() == walk@.files.to_multiset() && skipped
                == walk@.skipped.len(),
            Err(error) => walk@.pending.len() > 0 || walk@.files.len() > policy.max_files,
        },
{
    order::lemma_total_order();
    walk@.files.lemma_sort_by_ensures(order::text_order());
}

/// `name` is one of the thirteen names of directories that are left out.
pub open spec fn left_out_name(name: Seq<char>) -> bool {
    ||| name == ".git"@
    ||| name == ".hg"@
    ||| name == ".svn"@
    ||| name == "node_modules"@
    ||| name == "target"@
    ||| name == "dist"@
    ||| name == "build"@
    ||| name == ".next"@
    ||| name == ".nuxt"@
    ||| name == ".turbo"@
    ||| name == "coverage"@
    ||| name == ".cache"@
    ||| name == "vendor"@
}

/// Where no pattern ignores anything, a walk that is done has found every file below directories
/// without one of the thirteen names, and no other.
pub proof fn law_walk_without_patterns(
    tree: spec_fn(Seq<Seq<char>>) -> Seq<(Seq<char>, EntryKind)>,
    steps: nat,
    path: Seq<char>,
)
    requires
        walks::walked(tree, Seq::empty(), false, steps).pending.len() == 0,
    ensures
        walks::walked(tree, Seq::empty(), false, steps).files.contains(path) <==> exists|
            dir: Seq<Seq<char>>,
            name: Seq<char>,
        |
            #![trigger dir.push(name)]
            walks::leads(tree, dir) && tree(dir).contains((name, EntryKind::File)) && path
                == paths::joined(dir.push(name)) && forall|i: int|
                0 <= i < dir.len() ==> !left_out_name(#[trigger] dir[i]),
{
    let none = Seq::<Seq<char>>::empty();
    let found = walks::walked(tree, none, false, steps).files;
    walks::law_walk_finds_what_can_be_reached(tree, none, false, steps);
    if found.contains(path) {
        assert(walks::is_file_of(tree, none, false, path));
        let (dir, name) = choose|dir: Seq<Seq<char>>, name: Seq<char>|
            #![trigger dir.push(name)]
            walks::has_file(tree, none, false, dir, name) && path == paths::joined(dir.push(name));
        assert forall|i: int| 0 <= i < dir.len() implies !left_out_name(#[trigger] dir[i]) by {
            assert(!paths::stays_out_of(dir[i], false));
        }
    }
    if exists|dir: Seq<Seq<char>>, name: Seq<char>|
        #![trigger dir.push(name)]
        walks::leads(tree, dir) && tree(dir).contains((name, EntryKind::File)) && path
            == paths::joined(dir.push(name)) && forall|i: int|
            0 <= i < dir.len() ==> !left_out_name(#[trigger] dir[i]) {
        let (dir, name) = choose|dir: Seq<Seq<char>>, name: Seq<char>|
            #![trigger dir.push(name)]
            walks::leads(tree, dir) && tree(dir).contains((name, EntryKind::File)) && path
                == paths::joined(dir.push(name)) && forall|i: int|
                0 <= i < dir.len() ==> !left_out_name(#[trigger] dir[i]);
        assert forall|i: int| 0 <= i < dir.len() implies !paths::stays_out_of(
            #[trigger] dir[i],
            false,
        ) by {
            assert(!left_out_name(dir[i]));
        }
        assert(listing::reachable(dir, none, false));
        assert(walks::has_file(tree, none, false, dir, name));
        assert(walks::is_file_of(tree, none, false, path));
    }
}

/// A list of patterns covers what one of its patterns covers; no patterns cover nothing.
pub proof fn law_pattern_lists(
    patterns: Seq<Seq<char>>,
    pattern: Seq<char>,
    more: Seq<Seq<char>>,
    path: Seq<char>,
)
    ensures
        !paths::covered(Seq::empty(), path),
        paths::covered(seq![pattern], path) <==> paths::covers(pattern, path),
        paths::covered(patterns + more, path) <==> paths::covered(patterns, path)
            || paths::covered(more, path),
{
    let all = patterns + more;
    if paths::covers(pattern, path) {
        assert(paths::covers(seq![pattern][0], path));
    }
    if paths::covered(all, path) {
        let i = choose|i: int| 0 <= i < all.len() && paths::covers(#[trigger] all[i], path);
        if i < patterns.len() {
            assert(paths::covers(patterns[i], path));
        } else {
            assert(paths::covers(more[i - patterns.len()], path));
        }
    }
    if paths::covered(patterns, path) {
        let i = choose|i: int|
            0 <= i < patterns.len() && paths::covers(#[trigger] patterns[i], path);
        assert(paths::covers(all[i], path));
    }
    if paths::covered(more, path) {
        let i = choose|i: int| 0 <= i < more.len() && paths::covers(#[trigger] more[i], path);
        assert(paths::covers(all[patterns.len() + i], path));
    }
}

/// Every path is covered by itself as a pattern unless it ends in `/**`; a directory followed by
/// `/**` covers itself and whatever follows it behind a slash, and no path that goes on
/// otherwise. Neither a part of a path nor a path that a pattern is only a part of is covered.
pub proof fn law_patterns(path: Seq<char>, dir: Seq<char>, c: char, rest: Seq<char>)
    requires
        !path.contains('\\'),
        !dir.contains('\\'),
        !rest.contains('\\'),
        c != '\\',
    ensures
        !characters::ends(path, "/**"@) ==> paths::covers(path, path),
        paths::covers(dir + "/**"@, dir),
        paths::covers(dir + "/**"@, dir + seq!['/'] + rest),
        c != '/' ==> !paths::covers(dir + "/**"@, dir + seq![c] + rest),
        !characters::ends(dir, "/**"@) ==> !paths::covers(dir, dir + seq![c] + rest),
        !characters::ends(dir + seq![c] + rest, "/**"@) ==> !paths::covers(
            dir + seq![c] + rest,
            dir,
        ),
{
    let longer = dir + seq![c] + rest;
    let below = dir + seq!['/'] + rest;
    let pattern = dir + "/**"@;
    reveal_strlit("/**");
    assert forall|s: Seq<char>| !s.contains('\\') implies #[trigger] paths::slashed(s) == s by {
        assert forall|i: int| 0 <= i < s.len() implies #[trigger] paths::slashed(s)[i] == s[i] by {
            assert(s.contains(s[i]));
        }
        assert(paths::slashed(s) =~= s);
    }
    assert forall|i: int| 0 <= i < longer.len() implies #[trigger] longer[i] != '\\' by {
        if i < dir.len() {
            assert(dir.contains(dir[i]));
        } else if i > dir.len() {
            assert(rest.contains(rest[i - dir.len() - 1]));
        }
    }
    assert(!longer.contains('\\'));
    assert forall|i: int| 0 <= i < below.len() implies #[trigger] below[i] != '\\' by {
        if i < dir.len() {
            assert(dir.contains(dir[i]));
        } else if i > dir.len() {
            assert(rest.contains(rest[i - dir.len() - 1]));
        }
    }
    assert(!below.contains('\\'));
    characters::law_occurrences_only_there(path, "/**"@, 0);
    characters::law_occurrences_only_there(dir, "/**"@, 0);
    characters::law_occurrences_only_there(longer, "/**"@, 0);
    places::law_directory_pattern(dir, dir);
    places::law_directory_pattern(dir, below);
    places::law_directory_pattern(dir, longer);
    assert(below.subrange(0, dir.len() as int + 1) =~= dir.push('/'));
    if c != '/' && text::starts_with(longer, dir.push('/')) {
        assert(longer.subrange(0, dir.len() as int + 1)[dir.len() as int] == '/');
        assert(longer[dir.len() as int] == c);
    }
    assert(longer.len() > dir.len());
}

/// The components of a path that is made of names are these names.
pub proof fn law_joined_names(names: Seq<Seq<char>>)
    requires
        names.len() > 0,
        forall|i: int| 0 <= i < names.len() ==> !(#[trigger] names[i]).contains('/'),
    ensures
        text::pieces(paths::joined(names), CharClass::NotSlash) == names,
    decreases names.len(),
{
    let class = CharClass::NotSlash;
    let last = names.last();
    assert forall|i: int| 0 <= i < last.len() implies class.holds(#[trigger] last[i]) by {
        assert(last.contains(last[i]));
    }
    lines::lemma_one_piece(last, class);
    if names.len() == 1 {
        assert(names =~= seq![last]);
    } else {
        let front = names.drop_last();
        law_joined_names(front);
        lines::lemma_pieces_join(paths::joined(front), '/', last, class);
        assert(names =~= front + seq![last]);
    }
}

/// Backslashes become slashes, and nothing else changes.
pub proof fn law_slashes(s: Seq<char>)
    ensures
        paths::slashed(s).len() == s.len(),
        forall|i: int|
            0 <= i < s.len() ==> #[trigger] paths::slashed(s)[i] == (if s[i] as int == 92 {
                '/'
            } else {
                s[i]
            }),
{
}

} // verus!

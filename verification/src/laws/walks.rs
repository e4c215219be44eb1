//! What a walk through the directories of a repository finds.
use crate::laws::places;
use crate::listing;
use crate::listing::{EntryKind, WalkModel};
use crate::order;
use crate::paths;
use vstd::prelude::*;

verus! {

/// The walk after all `entries` of the directory `dir` were looked at.
pub open spec fn after_entries(
    walk: WalkModel,
    dir: Seq<Seq<char>>,
    entries: Seq<(Seq<char>, EntryKind)>,
    ignore_paths: Seq<Seq<char>>,
) -> WalkModel
    decreases entries.len(),
{
    if entries.len() == 0 {
        walk
    } else {
        let (name, kind) = entries.last();
        after_entries(walk, dir, entries.drop_last(), ignore_paths).after_entry(
            dir,
            name,
            listing::entry_fate(dir, name, kind, ignore_paths, walk.include_ignored),
        )
    }
}

/// The walk without the directory that is read next.
pub open spec fn popped(walk: WalkModel) -> WalkModel {
    WalkModel { pending: walk.pending.drop_last(), ..walk }
}

/// The walk after `steps` directories of `tree` were read, which gives the entries of every
/// directory.
pub open spec fn walked(
    tree: spec_fn(Seq<Seq<char>>) -> Seq<(Seq<char>, EntryKind)>,
    ignore_paths: Seq<Seq<char>>,
    include_ignored: bool,
    steps: nat,
) -> WalkModel
    decreases steps,
{
    if steps == 0 {
        WalkModel::start(include_ignored)
    } else {
        let walk = walked(tree, ignore_paths, include_ignored, (steps - 1) as nat);
        if walk.pending.len() == 0 {
            walk
        } else {
            let dir = walk.pending.last();
            after_entries(popped(walk), dir, tree(dir), ignore_paths)
        }
    }
}

/// The names `dir` lead from directory to directory.
pub open spec fn leads(
    tree: spec_fn(Seq<Seq<char>>) -> Seq<(Seq<char>, EntryKind)>,
    dir: Seq<Seq<char>>,
) -> bool {
    forall|n: int|
        0 <= n < dir.len() ==> tree(dir.take(n)).contains((#[trigger] dir[n], EntryKind::Dir))
}

/// The directory `dir` can be reached and has a file `name` that is not ignored.
pub open spec fn has_file(
    tree: spec_fn(Seq<Seq<char>>) -> Seq<(Seq<char>, EntryKind)>,
    ignore_paths: Seq<Seq<char>>,
    include_ignored: bool,
    dir: Seq<Seq<char>>,
    name: Seq<char>,
) -> bool {
    &&& leads(tree, dir)
    &&& listing::reachable(dir, ignore_paths, include_ignored)
    &&& tree(dir).contains((name, EntryKind::File))
    &&& !paths::covered(ignore_paths, paths::joined(dir.push(name)))
}

proof fn lemma_after_entries(
    walk: WalkModel,
    dir: Seq<Seq<char>>,
    entries: Seq<(Seq<char>, EntryKind)>,
    ignore_paths: Seq<Seq<char>>,
)
    ensures
        ({
            let next = after_entries(walk, dir, entries, ignore_paths);
            &&& next.include_ignored == walk.include_ignored
            &&& forall|path: Seq<char>| #[trigger]
                next.files.contains(path) <==> walk.files.contains(path) || exists|name: Seq<char>|
                    #![trigger dir.push(name)]
                    entries.contains((name, EntryKind::File)) && path == paths::joined(
                        dir.push(name),
                    ) && !paths::covered(ignore_paths, path)
            &&& forall|child: Seq<Seq<char>>| #[trigger]
                next.pending.contains(child) <==> walk.pending.contains(child)
                    || exists|name: Seq<char>|
                    #![trigger dir.push(name)]
                    entries.contains((name, EntryKind::Dir)) && child == dir.push(name)
                        && !paths::stays_out_of(name, walk.include_ignored) && !paths::covered(
                        ignore_paths,
                        paths::joined(child),
                    )
        }),
    decreases entries.len(),
{
    if entries.len() > 0 {
        let front = entries.drop_last();
        let (last, kind) = entries.last();
        let before = after_entries(walk, dir, front, ignore_paths);
        let next = after_entries(walk, dir, entries, ignore_paths);
        let own = dir.push(last);
        lemma_after_entries(walk, dir, front, ignore_paths);
        lemma_last(entries);
        assert forall|path: Seq<char>| #[trigger]
            next.files.contains(path) <==> walk.files.contains(path) || exists|name: Seq<char>|
                #![trigger dir.push(name)]
                entries.contains((name, EntryKind::File)) && path == paths::joined(dir.push(name))
                    && !paths::covered(ignore_paths, path) by {
            if next.files == before.files.push(paths::joined(own)) {
                lemma_push_contains(before.files, paths::joined(own), path);
            }
            if exists|name: Seq<char>|
                #![trigger dir.push(name)]
                entries.contains((name, EntryKind::File)) && path == paths::joined(dir.push(name))
                    && !paths::covered(ignore_paths, path) {
                let name = choose|name: Seq<char>|
                    #![trigger dir.push(name)]
                    entries.contains((name, EntryKind::File)) && path == paths::joined(
                        dir.push(name),
                    ) && !paths::covered(ignore_paths, path);
                if front.contains((name, EntryKind::File)) {
                    assert(before.files.contains(path));
                }
            }
            assert(before.files.contains(path) ==> next.files.contains(path));
        }
        assert forall|child: Seq<Seq<char>>| #[trigger]
            next.pending.contains(child) <==> walk.pending.contains(child)
                || exists|name: Seq<char>|
                #![trigger dir.push(name)]
                entries.contains((name, EntryKind::Dir)) && child == dir.push(name)
                    && !paths::stays_out_of(name, walk.include_ignored) && !paths::covered(
                    ignore_paths,
                    paths::joined(child),
                ) by {
            if next.pending == before.pending.push(own) {
                lemma_push_contains(before.pending, own, child);
            }
            if exists|name: Seq<char>|
                #![trigger dir.push(name)]
                entries.contains((name, EntryKind::Dir)) && child == dir.push(name)
                    && !paths::stays_out_of(name, walk.include_ignored) && !paths::covered(
                    ignore_paths,
                    paths::joined(child),
                ) {
                let name = choose|name: Seq<char>|
                    #![trigger dir.push(name)]
                    entries.contains((name, EntryKind::Dir)) && child == dir.push(name)
                        && !paths::stays_out_of(name, walk.include_ignored) && !paths::covered(
                        ignore_paths,
                        paths::joined(child),
                    );
                if front.contains((name, EntryKind::Dir)) {
                    assert(before.pending.contains(child));
                }
            }
            assert(before.pending.contains(child) ==> next.pending.contains(child));
        }
    }
}

proof fn lemma_push_contains<A>(s: Seq<A>, x: A, y: A)
    ensures
        s.push(x).contains(y) <==> s.contains(y) || y == x,
{
    if s.contains(y) {
        let i = choose|i: int| 0 <= i < s.len() && s[i] == y;
        assert(s.push(x)[i] == y);
    }
    assert(s.push(x)[s.len() as int] == x);
}

proof fn lemma_last<A>(s: Seq<A>)
    requires
        s.len() > 0,
    ensures
        forall|x: A| #[trigger] s.contains(x) <==> s.drop_last().contains(x) || x == s.last(),
{
    assert forall|x: A| #[trigger] s.contains(x) <==> s.drop_last().contains(x) || x
        == s.last() by {
        assert(s.drop_last().push(s.last()) =~= s);
        lemma_push_contains(s.drop_last(), s.last(), x);
    }
}

/// `path` is the path of a file that `tree` has.
pub open spec fn is_file_of(
    tree: spec_fn(Seq<Seq<char>>) -> Seq<(Seq<char>, EntryKind)>,
    ignore_paths: Seq<Seq<char>>,
    include_ignored: bool,
    path: Seq<char>,
) -> bool {
    exists|dir: Seq<Seq<char>>, name: Seq<char>|
        #![trigger dir.push(name)]
        has_file(tree, ignore_paths, include_ignored, dir, name) && path == paths::joined(dir.push(name))
}

proof fn lemma_child_is_reached(
    tree: spec_fn(Seq<Seq<char>>) -> Seq<(Seq<char>, EntryKind)>,
    ignore_paths: Seq<Seq<char>>,
    include_ignored: bool,
    dir: Seq<Seq<char>>,
    name: Seq<char>,
)
    requires
        leads(tree, dir),
        listing::reachable(dir, ignore_paths, include_ignored),
        tree(dir).contains((name, EntryKind::Dir)),
        !paths::stays_out_of(name, include_ignored),
        !paths::covered(ignore_paths, paths::joined(dir.push(name))),
    ensures
        leads(tree, dir.push(name)),
        listing::reachable(dir.push(name), ignore_paths, include_ignored),
{
    let child = dir.push(name);
    assert forall|n: int| 0 <= n < child.len() implies tree(child.take(n)).contains(
        (#[trigger] child[n], EntryKind::Dir),
    ) by {
        assert(child.take(n) == dir.take(n));
        if n == dir.len() {
            assert(dir.take(n) == dir);
        } else {
            assert(child[n] == dir[n]);
        }
    }
    assert forall|n: int| 1 <= n <= child.len() implies !paths::covered(
        ignore_paths,
        paths::joined(#[trigger] child.take(n)),
    ) by {
        if n < child.len() {
            assert(child.take(n) == dir.take(n));
        } else {
            assert(child.take(n) == child);
        }
    }
}

/// A walk finds nothing that it may not reach.
proof fn lemma_walk_is_sound(
    tree: spec_fn(Seq<Seq<char>>) -> Seq<(Seq<char>, EntryKind)>,
    ignore_paths: Seq<Seq<char>>,
    include_ignored: bool,
    steps: nat,
)
    ensures
        ({
            let walk = walked(tree, ignore_paths, include_ignored, steps);
            &&& walk.include_ignored == include_ignored
            &&& forall|dir: Seq<Seq<char>>| #[trigger]
                walk.pending.contains(dir) ==> leads(tree, dir) && listing::reachable(
                    dir,
                    ignore_paths,
                    include_ignored,
                )
            &&& forall|path: Seq<char>| #[trigger]
                walk.files.contains(path) ==> is_file_of(tree, ignore_paths, include_ignored, path)
        }),
    decreases steps,
{
    if steps > 0 {
        let before = walked(tree, ignore_paths, include_ignored, (steps - 1) as nat);
        lemma_walk_is_sound(tree, ignore_paths, include_ignored, (steps - 1) as nat);
        if before.pending.len() > 0 {
            let dir = before.pending.last();
            let walk = walked(tree, ignore_paths, include_ignored, steps);
            lemma_last(before.pending);
            assert(before.pending.contains(dir));
            lemma_after_entries(popped(before), dir, tree(dir), ignore_paths);
            assert forall|child: Seq<Seq<char>>| #[trigger]
                walk.pending.contains(child) implies leads(tree, child) && listing::reachable(
                child,
                ignore_paths,
                include_ignored,
            ) by {
                if popped(before).pending.contains(child) {
                    assert(before.pending.contains(child));
                } else {
                    let name = choose|name: Seq<char>|
                        #![trigger dir.push(name)]
                        tree(dir).contains((name, EntryKind::Dir)) && child == dir.push(name)
                            && !paths::stays_out_of(name, include_ignored) && !paths::covered(
                            ignore_paths,
                            paths::joined(child),
                        );
                    lemma_child_is_reached(tree, ignore_paths, include_ignored, dir, name);
                }
            }
            assert forall|path: Seq<char>| #[trigger]
                walk.files.contains(path) implies is_file_of(tree, ignore_paths, include_ignored, path) by {
                if !before.files.contains(path) {
                    let name = choose|name: Seq<char>|
                        #![trigger dir.push(name)]
                        tree(dir).contains((name, EntryKind::File)) && path == paths::joined(
                            dir.push(name),
                        ) && !paths::covered(ignore_paths, path);
                    assert(has_file(tree, ignore_paths, include_ignored, dir, name));
                }
            }
        }
    } else {
        let root = Seq::<Seq<char>>::empty();
        let walk = WalkModel::start(include_ignored);
        assert forall|dir: Seq<Seq<char>>| #[trigger] walk.pending.contains(dir) implies leads(
            tree,
            dir,
        ) && listing::reachable(dir, ignore_paths, include_ignored) by {
            assert(dir == root);
        }
    }
}

/// The directory `dir` was read in one of the first `steps` steps.
spec fn was_read(
    tree: spec_fn(Seq<Seq<char>>) -> Seq<(Seq<char>, EntryKind)>,
    ignore_paths: Seq<Seq<char>>,
    include_ignored: bool,
    steps: nat,
    dir: Seq<Seq<char>>,
) -> bool
    decreases steps,
{
    if steps == 0 {
        false
    } else {
        let before = walked(tree, ignore_paths, include_ignored, (steps - 1) as nat);
        ||| was_read(tree, ignore_paths, include_ignored, (steps - 1) as nat, dir)
        ||| before.pending.len() > 0 && before.pending.last() == dir
    }
}

/// The directory `dir` was read or will be.
spec fn is_known(
    tree: spec_fn(Seq<Seq<char>>) -> Seq<(Seq<char>, EntryKind)>,
    ignore_paths: Seq<Seq<char>>,
    include_ignored: bool,
    steps: nat,
    dir: Seq<Seq<char>>,
) -> bool {
    ||| was_read(tree, ignore_paths, include_ignored, steps, dir)
    ||| walked(tree, ignore_paths, include_ignored, steps).pending.contains(dir)
}

/// A walk keeps track of all that it may reach: the files of the directories that it read, and
/// their directories.
proof fn lemma_walk_is_complete(
    tree: spec_fn(Seq<Seq<char>>) -> Seq<(Seq<char>, EntryKind)>,
    ignore_paths: Seq<Seq<char>>,
    include_ignored: bool,
    steps: nat,
)
    ensures
        is_known(tree, ignore_paths, include_ignored, steps, Seq::empty()),
        forall|dir: Seq<Seq<char>>, name: Seq<char>|
            #![trigger dir.push(name)]
            was_read(tree, ignore_paths, include_ignored, steps, dir) && tree(dir).contains((name, EntryKind::File))
                && !paths::covered(ignore_paths, paths::joined(dir.push(name))) ==> walked(
                tree,
                ignore_paths,
                include_ignored,
                steps,
            ).files.contains(paths::joined(dir.push(name))),
        forall|dir: Seq<Seq<char>>, name: Seq<char>|
            #![trigger dir.push(name)]
            was_read(tree, ignore_paths, include_ignored, steps, dir) && tree(dir).contains((name, EntryKind::Dir))
                && !paths::stays_out_of(name, include_ignored) && !paths::covered(
                ignore_paths,
                paths::joined(dir.push(name)),
            ) ==> is_known(tree, ignore_paths, include_ignored, steps, dir.push(name)),
    decreases steps,
{
    if steps == 0 {
        let root = Seq::<Seq<char>>::empty();
        assert(WalkModel::start(include_ignored).pending[0] == root);
        assert(WalkModel::start(include_ignored).pending.contains(root));
    } else {
        let earlier = (steps - 1) as nat;
        let before = walked(tree, ignore_paths, include_ignored, earlier);
        lemma_walk_is_complete(tree, ignore_paths, include_ignored, earlier);
        lemma_walk_is_sound(tree, ignore_paths, include_ignored, earlier);
        if before.pending.len() > 0 {
            let current = before.pending.last();
            let walk = walked(tree, ignore_paths, include_ignored, steps);
            lemma_last(before.pending);
            lemma_after_entries(popped(before), current, tree(current), ignore_paths);
            assert forall|dir: Seq<Seq<char>>| #[trigger]
                is_known(tree, ignore_paths, include_ignored, earlier, dir) implies is_known(
                tree,
                ignore_paths,
                include_ignored,
                steps,
                dir,
            ) by {
                if !was_read(tree, ignore_paths, include_ignored, earlier, dir) && dir != current {
                    assert(before.pending.contains(dir));
                    assert(popped(before).pending.contains(dir));
                    assert(walk.pending.contains(dir));
                }
            }
            assert(is_known(tree, ignore_paths, include_ignored, earlier, Seq::empty()));
            assert forall|dir: Seq<Seq<char>>, name: Seq<char>|
                #![trigger dir.push(name)]
                was_read(tree, ignore_paths, include_ignored, steps, dir) && tree(dir).contains(
                    (name, EntryKind::File),
                ) && !paths::covered(
                    ignore_paths,
                    paths::joined(dir.push(name)),
                ) implies walk.files.contains(paths::joined(dir.push(name))) by {
                if dir != current {
                    assert(was_read(tree, ignore_paths, include_ignored, earlier, dir));
                    assert(before.files.contains(paths::joined(dir.push(name))));
                    assert(popped(before).files.contains(paths::joined(dir.push(name))));
                }
            }
            assert forall|dir: Seq<Seq<char>>, name: Seq<char>|
                #![trigger dir.push(name)]
                was_read(tree, ignore_paths, include_ignored, steps, dir) && tree(dir).contains(
                    (name, EntryKind::Dir),
                ) && !paths::stays_out_of(name, include_ignored) && !paths::covered(
                    ignore_paths,
                    paths::joined(dir.push(name)),
                ) implies is_known(tree, ignore_paths, include_ignored, steps, dir.push(name)) by {
                if dir != current {
                    assert(was_read(tree, ignore_paths, include_ignored, earlier, dir));
                    assert(is_known(tree, ignore_paths, include_ignored, earlier, dir.push(name)));
                } else {
                    assert(walk.pending.contains(dir.push(name)));
                }
            }
        }
    }
}

/// A walk that is done has read every directory that it may reach.
proof fn lemma_all_read(
    tree: spec_fn(Seq<Seq<char>>) -> Seq<(Seq<char>, EntryKind)>,
    ignore_paths: Seq<Seq<char>>,
    include_ignored: bool,
    steps: nat,
    dir: Seq<Seq<char>>,
)
    requires
        walked(tree, ignore_paths, include_ignored, steps).pending.len() == 0,
        leads(tree, dir),
        listing::reachable(dir, ignore_paths, include_ignored),
    ensures
        was_read(tree, ignore_paths, include_ignored, steps, dir),
    decreases dir.len(),
{
    lemma_walk_is_complete(tree, ignore_paths, include_ignored, steps);
    let n = dir.len() - 1;
    if dir.len() == 0 {
        assert(dir == Seq::<Seq<char>>::empty());
    } else {
        let parent = dir.drop_last();
        let name = dir.last();
        assert(dir.take(n) == parent);
        assert(tree(dir.take(n)).contains((dir[n], EntryKind::Dir)));
        assert(leads(tree, parent)) by {
            assert forall|k: int| 0 <= k < parent.len() implies tree(parent.take(k)).contains(
                (#[trigger] parent[k], EntryKind::Dir),
            ) by {
                assert(parent.take(k) == dir.take(k));
                assert(parent[k] == dir[k]);
            }
        }
        assert(listing::reachable(parent, ignore_paths, include_ignored)) by {
            assert forall|k: int| 0 <= k < parent.len() implies !paths::stays_out_of(
                #[trigger] parent[k],
                include_ignored,
            ) by {
                assert(parent[k] == dir[k]);
            }
            assert forall|k: int| 1 <= k <= parent.len() implies !paths::covered(
                ignore_paths,
                paths::joined(#[trigger] parent.take(k)),
            ) by {
                assert(parent.take(k) == dir.take(k));
            }
        }
        lemma_all_read(tree, ignore_paths, include_ignored, steps, parent);
        assert(parent.push(name) == dir);
        assert(dir.take(dir.len() as int) == dir);
        assert(!paths::stays_out_of(dir[n], include_ignored));
        assert(is_known(tree, ignore_paths, include_ignored, steps, parent.push(name)));
    }
}

/// A walk that is done has found the files that can be reached without passing an ignored
/// directory or one that it stays out of, and that are not ignored, and no others.
pub proof fn law_walk_finds_what_can_be_reached(
    tree: spec_fn(Seq<Seq<char>>) -> Seq<(Seq<char>, EntryKind)>,
    ignore_paths: Seq<Seq<char>>,
    include_ignored: bool,
    steps: nat,
)
    requires
        walked(tree, ignore_paths, include_ignored, steps).pending.len() == 0,
    ensures
        forall|path: Seq<char>| #[trigger]
            walked(tree, ignore_paths, include_ignored, steps).files.contains(path) <==> is_file_of(
                tree,
                ignore_paths,
                include_ignored,
                path,
            ),
{
    let walk = walked(tree, ignore_paths, include_ignored, steps);
    lemma_walk_is_sound(tree, ignore_paths, include_ignored, steps);
    lemma_walk_is_complete(tree, ignore_paths, include_ignored, steps);
    assert forall|path: Seq<char>| is_file_of(
        tree,
        ignore_paths,
        include_ignored,
        path,
    ) implies #[trigger] walk.files.contains(path) by {
        let (dir, name) = choose|dir: Seq<Seq<char>>, name: Seq<char>|
            #![trigger dir.push(name)]
            has_file(tree, ignore_paths, include_ignored, dir, name) && path == paths::joined(dir.push(name));
        lemma_all_read(tree, ignore_paths, include_ignored, steps, dir);
    }
}

/// A walk that takes in ignored files, where no path is ignored, finds every file but those in
/// the directories of version control.
pub proof fn law_full_walk(
    tree: spec_fn(Seq<Seq<char>>) -> Seq<(Seq<char>, EntryKind)>,
    steps: nat,
    dir: Seq<Seq<char>>,
    name: Seq<char>,
)
    requires
        walked(tree, Seq::empty(), true, steps).pending.len() == 0,
        leads(tree, dir),
        tree(dir).contains((name, EntryKind::File)),
        forall|i: int|
            0 <= i < dir.len() ==> !paths::version_control_dir_name(#[trigger] dir[i]),
    ensures
        walked(tree, Seq::empty(), true, steps).files.contains(paths::joined(dir.push(name))),
{
    let none = Seq::<Seq<char>>::empty();
    law_walk_finds_what_can_be_reached(tree, none, true, steps);
    assert(listing::reachable(dir, none, true));
    assert(has_file(tree, none, true, dir, name));
    assert(is_file_of(tree, none, true, paths::joined(dir.push(name))));
}

/// No name holds a slash.
pub open spec fn slash_free(names: Seq<Seq<char>>) -> bool {
    forall|i: int| 0 <= i < names.len() ==> !(#[trigger] names[i]).contains('/')
}

/// The names of the entries differ, and none holds a slash.
pub open spec fn well_named(entries: Seq<(Seq<char>, EntryKind)>) -> bool {
    &&& forall|i: int, j: int|
        0 <= i < j < entries.len() ==> (#[trigger] entries[i]).0 != (#[trigger] entries[j]).0
    &&& forall|i: int| 0 <= i < entries.len() ==> !(#[trigger] entries[i]).0.contains('/')
}

/// The paths of different names differ.
proof fn lemma_joined_injective(a: Seq<Seq<char>>, b: Seq<Seq<char>>)
    requires
        a.len() > 0,
        b.len() > 0,
        slash_free(a),
        slash_free(b),
        paths::joined(a) == paths::joined(b),
    ensures
        a == b,
    decreases a.len(),
{
    let p = paths::joined(a);
    let x = paths::joined(a.drop_last());
    let y = paths::joined(b.drop_last());
    assert(!a.last().contains('/')) by {
        assert(a.last() == a[a.len() - 1]);
    }
    assert(!b.last().contains('/')) by {
        assert(b.last() == b[b.len() - 1]);
    }
    if a.len() == 1 && b.len() == 1 {
        assert(a == b);
    } else if a.len() == 1 {
        assert(p[y.len() as int] == '/');
        assert(a[0].contains('/'));
    } else if b.len() == 1 {
        assert(p[x.len() as int] == '/');
        assert(b[0].contains('/'));
    } else {
        assert(p == x.push('/') + a.last());
        assert(p == y.push('/') + b.last());
        assert(p[x.len() as int] == '/' && p[y.len() as int] == '/');
        if x.len() < y.len() {
            assert(a.last()[y.len() - x.len() - 1] == p[y.len() as int]);
            assert(a.last().contains('/'));
        }
        if y.len() < x.len() {
            assert(b.last()[x.len() - y.len() - 1] == p[x.len() as int]);
            assert(b.last().contains('/'));
        }
        assert(x =~= p.take(x.len() as int));
        assert(y =~= p.take(y.len() as int));
        assert(a.last() =~= p.skip(x.len() as int + 1));
        assert(b.last() =~= p.skip(y.len() as int + 1));
        assert(slash_free(a.drop_last())) by {
            assert forall|i: int| 0 <= i < a.len() - 1 implies !(#[trigger] a.drop_last()[i]).contains(
                '/',
            ) by {
                assert(a.drop_last()[i] == a[i]);
            }
        }
        assert(slash_free(b.drop_last())) by {
            assert forall|i: int| 0 <= i < b.len() - 1 implies !(#[trigger] b.drop_last()[i]).contains(
                '/',
            ) by {
                assert(b.drop_last()[i] == b[i]);
            }
        }
        lemma_joined_injective(a.drop_last(), b.drop_last());
        assert(a == a.drop_last().push(a.last()));
        assert(b == b.drop_last().push(b.last()));
    }
}

proof fn lemma_push_slash_free(dir: Seq<Seq<char>>, name: Seq<char>)
    requires
        slash_free(dir),
        !name.contains('/'),
    ensures
        slash_free(dir.push(name)),
{
    assert forall|i: int| 0 <= i < dir.push(name).len() implies !(#[trigger] dir.push(
        name,
    )[i]).contains('/') by {
        if i < dir.len() {
            assert(dir.push(name)[i] == dir[i]);
        }
    }
}

proof fn lemma_push_once<A>(s: Seq<A>, x: A)
    requires
        s.no_duplicates(),
        !s.contains(x),
    ensures
        s.push(x).no_duplicates(),
{
    assert forall|i: int, j: int|
        0 <= i < s.len() + 1 && 0 <= j < s.len() + 1 && i != j implies s.push(x)[i] != s.push(
        x,
    )[j] by {
        if i < s.len() {
            assert(s.contains(s[i]));
        }
        if j < s.len() {
            assert(s.contains(s[j]));
        }
    }
}

/// Reading a directory whose entries are new finds nothing twice.
proof fn lemma_entries_once(
    walk: WalkModel,
    dir: Seq<Seq<char>>,
    entries: Seq<(Seq<char>, EntryKind)>,
    ignore_paths: Seq<Seq<char>>,
)
    requires
        walk.pending.no_duplicates(),
        walk.files.no_duplicates(),
        slash_free(dir),
        well_named(entries),
        forall|name: Seq<char>| !walk.pending.contains(#[trigger] dir.push(name)),
        forall|name: Seq<char>|
            !name.contains('/') ==> !walk.files.contains(
                paths::joined(#[trigger] dir.push(name)),
            ),
    ensures
        after_entries(walk, dir, entries, ignore_paths).pending.no_duplicates(),
        after_entries(walk, dir, entries, ignore_paths).files.no_duplicates(),
    decreases entries.len(),
{
    if entries.len() > 0 {
        let front = entries.drop_last();
        let last = entries.last().0;
        let before = after_entries(walk, dir, front, ignore_paths);
        let own = dir.push(last);
        assert(entries.last() == entries[entries.len() - 1]);
        assert(forall|i: int| 0 <= i < front.len() ==> #[trigger] front[i] == entries[i]);
        assert(well_named(front));
        lemma_entries_once(walk, dir, front, ignore_paths);
        lemma_after_entries(walk, dir, front, ignore_paths);
        lemma_push_slash_free(dir, last);
        assert(!before.pending.contains(own)) by {
            if before.pending.contains(own) {
                assert(!walk.pending.contains(dir.push(last)));
                let name = choose|name: Seq<char>|
                    #![trigger dir.push(name)]
                    front.contains((name, EntryKind::Dir)) && own == dir.push(name);
                assert(dir.push(name).last() == own.last());
                let i = choose|i: int| 0 <= i < front.len() && front[i] == (name, EntryKind::Dir);
                assert(entries[i].0 == entries[entries.len() - 1].0);
            }
        }
        assert(!before.files.contains(paths::joined(own))) by {
            if before.files.contains(paths::joined(own)) {
                assert(!walk.files.contains(paths::joined(dir.push(last))));
                let name = choose|name: Seq<char>|
                    #![trigger dir.push(name)]
                    front.contains((name, EntryKind::File)) && paths::joined(own) == paths::joined(
                        dir.push(name),
                    );
                let i = choose|i: int| 0 <= i < front.len() && front[i] == (name, EntryKind::File);
                assert(!front[i].0.contains('/'));
                lemma_push_slash_free(dir, name);
                lemma_joined_injective(own, dir.push(name));
                assert(dir.push(name).last() == own.last());
                assert(entries[i].0 == entries[entries.len() - 1].0);
            }
        }
        lemma_push_once(before.pending, own);
        lemma_push_once(before.files, paths::joined(own));
    }
}

/// `path` leads to an entry of a directory that was read.
spec fn is_from_read(
    tree: spec_fn(Seq<Seq<char>>) -> Seq<(Seq<char>, EntryKind)>,
    ignore_paths: Seq<Seq<char>>,
    include_ignored: bool,
    steps: nat,
    path: Seq<char>,
) -> bool {
    exists|dir: Seq<Seq<char>>, name: Seq<char>|
        #![trigger dir.push(name)]
        was_read(tree, ignore_paths, include_ignored, steps, dir) && slash_free(dir.push(name))
            && path == paths::joined(dir.push(name))
}

/// A directory was read before it is known that it has entries, and none is read twice.
proof fn lemma_walk_once(
    tree: spec_fn(Seq<Seq<char>>) -> Seq<(Seq<char>, EntryKind)>,
    ignore_paths: Seq<Seq<char>>,
    include_ignored: bool,
    steps: nat,
)
    requires
        forall|dir: Seq<Seq<char>>| well_named(#[trigger] tree(dir)),
    ensures
        ({
            let walk = walked(tree, ignore_paths, include_ignored, steps);
            &&& walk.pending.no_duplicates()
            &&& walk.files.no_duplicates()
            &&& forall|dir: Seq<Seq<char>>| #[trigger]
                walk.pending.contains(dir) ==> !was_read(
                    tree,
                    ignore_paths,
                    include_ignored,
                    steps,
                    dir,
                )
            &&& forall|dir: Seq<Seq<char>>| #[trigger]
                is_known(tree, ignore_paths, include_ignored, steps, dir) ==> slash_free(dir) && (
                dir.len() > 0 ==> was_read(
                    tree,
                    ignore_paths,
                    include_ignored,
                    steps,
                    dir.drop_last(),
                ))
            &&& forall|path: Seq<char>| #[trigger]
                walk.files.contains(path) ==> is_from_read(
                    tree,
                    ignore_paths,
                    include_ignored,
                    steps,
                    path,
                )
        }),
    decreases steps,
{
    let walk = walked(tree, ignore_paths, include_ignored, steps);
    if steps == 0 {
        assert forall|dir: Seq<Seq<char>>| #[trigger]
            is_known(tree, ignore_paths, include_ignored, steps, dir) implies dir.len() == 0 by {
            assert(walk.pending.contains(dir));
        }
    } else {
        let earlier = (steps - 1) as nat;
        let before = walked(tree, ignore_paths, include_ignored, earlier);
        lemma_walk_once(tree, ignore_paths, include_ignored, earlier);
        if before.pending.len() > 0 {
            let current = before.pending.last();
            let rest = popped(before);
            let entries = tree(current);
            lemma_last(before.pending);
            assert(before.pending.contains(current));
            assert(is_known(tree, ignore_paths, include_ignored, earlier, current));
            assert(well_named(tree(current)));
            assert(!rest.pending.contains(current)) by {
                if rest.pending.contains(current) {
                    let i = choose|i: int| 0 <= i < rest.pending.len() && rest.pending[i] == current;
                    assert(before.pending[i] == before.pending[before.pending.len() - 1]);
                }
            }
            assert forall|name: Seq<char>| !rest.pending.contains(
                #[trigger] current.push(name),
            ) by {
                let child = current.push(name);
                if rest.pending.contains(child) {
                    assert(before.pending.contains(child));
                    assert(is_known(tree, ignore_paths, include_ignored, earlier, child));
                    assert(child.drop_last() == current);
                }
            }
            assert forall|name: Seq<char>| !name.contains('/') implies !rest.files.contains(
                paths::joined(#[trigger] current.push(name)),
            ) by {
                let path = paths::joined(current.push(name));
                if rest.files.contains(path) {
                    assert(before.files.contains(path));
                    let (dir, other) = choose|dir: Seq<Seq<char>>, other: Seq<char>|
                        #![trigger dir.push(other)]
                        was_read(tree, ignore_paths, include_ignored, earlier, dir) && slash_free(
                            dir.push(other),
                        ) && path == paths::joined(dir.push(other));
                    lemma_push_slash_free(current, name);
                    lemma_joined_injective(current.push(name), dir.push(other));
                    assert(current == current.push(name).drop_last());
                    assert(dir == dir.push(other).drop_last());
                }
            }
            lemma_entries_once(rest, current, tree(current), ignore_paths);
            lemma_after_entries(rest, current, tree(current), ignore_paths);
            assert forall|dir: Seq<Seq<char>>| #[trigger] walk.pending.contains(dir) implies !was_read(
                tree,
                ignore_paths,
                include_ignored,
                steps,
                dir,
            ) && slash_free(dir) && (dir.len() > 0 ==> was_read(
                tree,
                ignore_paths,
                include_ignored,
                steps,
                dir.drop_last(),
            )) by {
                if rest.pending.contains(dir) {
                    assert(before.pending.contains(dir));
                    assert(is_known(tree, ignore_paths, include_ignored, earlier, dir));
                } else {
                    let name = choose|name: Seq<char>|
                        #![trigger current.push(name)]
                        tree(current).contains((name, EntryKind::Dir)) && dir == current.push(name);
                    let i = choose|i: int|
                        0 <= i < entries.len() && entries[i] == (name, EntryKind::Dir);
                    assert(!entries[i].0.contains('/'));
                    lemma_push_slash_free(current, name);
                    assert(dir.drop_last() == current);
                    assert(dir != current);
                    if was_read(tree, ignore_paths, include_ignored, earlier, dir) {
                        assert(is_known(tree, ignore_paths, include_ignored, earlier, dir));
                    }
                }
            }
            assert forall|dir: Seq<Seq<char>>| #[trigger]
                is_known(tree, ignore_paths, include_ignored, steps, dir) implies slash_free(dir)
                && (dir.len() > 0 ==> was_read(
                tree,
                ignore_paths,
                include_ignored,
                steps,
                dir.drop_last(),
            )) by {
                if !walk.pending.contains(dir) {
                    assert(is_known(tree, ignore_paths, include_ignored, earlier, dir));
                }
            }
            assert forall|path: Seq<char>| #[trigger] walk.files.contains(path) implies is_from_read(
                tree,
                ignore_paths,
                include_ignored,
                steps,
                path,
            ) by {
                if rest.files.contains(path) {
                    assert(before.files.contains(path));
                    let (dir, name) = choose|dir: Seq<Seq<char>>, name: Seq<char>|
                        #![trigger dir.push(name)]
                        was_read(tree, ignore_paths, include_ignored, earlier, dir) && slash_free(
                            dir.push(name),
                        ) && path == paths::joined(dir.push(name));
                    assert(was_read(tree, ignore_paths, include_ignored, steps, dir));
                    assert(slash_free(dir.push(name)));
                } else {
                    let name = choose|name: Seq<char>|
                        #![trigger current.push(name)]
                        tree(current).contains((name, EntryKind::File)) && path == paths::joined(
                            current.push(name),
                        );
                    let i = choose|i: int|
                        0 <= i < entries.len() && entries[i] == (name, EntryKind::File);
                    assert(!entries[i].0.contains('/'));
                    lemma_push_slash_free(current, name);
                    assert(was_read(tree, ignore_paths, include_ignored, steps, current));
                }
            }
        } else {
            assert forall|dir: Seq<Seq<char>>| #[trigger]
                is_known(tree, ignore_paths, include_ignored, steps, dir) implies is_known(
                tree,
                ignore_paths,
                include_ignored,
                earlier,
                dir,
            ) by {}
            assert forall|path: Seq<char>| #[trigger] walk.files.contains(path) implies is_from_read(
                tree,
                ignore_paths,
                include_ignored,
                steps,
                path,
            ) by {
                let (dir, name) = choose|dir: Seq<Seq<char>>, name: Seq<char>|
                    #![trigger dir.push(name)]
                    was_read(tree, ignore_paths, include_ignored, earlier, dir) && slash_free(
                        dir.push(name),
                    ) && path == paths::joined(dir.push(name));
                assert(was_read(tree, ignore_paths, include_ignored, steps, dir));
                assert(slash_free(dir.push(name)));
            }
        }
    }
}

/// Where the names in every directory differ and hold no slash, a walk finds no file twice: its
/// files in order are in strict order.
pub proof fn law_walk_finds_files_once(
    tree: spec_fn(Seq<Seq<char>>) -> Seq<(Seq<char>, EntryKind)>,
    ignore_paths: Seq<Seq<char>>,
    include_ignored: bool,
    steps: nat,
)
    requires
        forall|dir: Seq<Seq<char>>| well_named(#[trigger] tree(dir)),
    ensures
        walked(tree, ignore_paths, include_ignored, steps).files.no_duplicates(),
        order::strictly_ascending(
            order::sorted(walked(tree, ignore_paths, include_ignored, steps).files),
        ),
{
    lemma_walk_once(tree, ignore_paths, include_ignored, steps);
    places::lemma_sorted_once(walked(tree, ignore_paths, include_ignored, steps).files);
}

} // verus!

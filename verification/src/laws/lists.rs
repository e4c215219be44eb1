//! What the laws need to know of lists.
use vstd::prelude::*;

verus! {

/// A rule's results are those that it gives for an element.
pub proof fn lemma_filter_map_contains<A, B>(s: Seq<A>, rule: spec_fn(A) -> Option<B>, x: B)
    ensures
        s.filter_map(rule).contains(x) <==> exists|i: int|
            0 <= i < s.len() && rule(#[trigger] s[i]) == Some(x),
    decreases s.len(),
{
    let out = s.filter_map(rule);
    if s.len() > 0 {
        let rest = s.drop_last();
        lemma_filter_map_contains(rest, rule, x);
        if out.contains(x) {
            if rest.filter_map(rule).contains(x) {
                let i = choose|i: int| 0 <= i < rest.len() && rule(#[trigger] rest[i]) == Some(x);
                assert(rule(s[i]) == Some(x));
            } else {
                assert(rule(s[s.len() - 1]) == Some(x));
            }
        }
        if exists|i: int| 0 <= i < s.len() && rule(#[trigger] s[i]) == Some(x) {
            let i = choose|i: int| 0 <= i < s.len() && rule(#[trigger] s[i]) == Some(x);
            if i < s.len() - 1 {
                assert(rule(rest[i]) == Some(x));
                let j = choose|j: int|
                    0 <= j < rest.filter_map(rule).len() && rest.filter_map(rule)[j] == x;
                assert(out[j] == x);
            } else {
                assert(out[out.len() - 1] == x);
            }
        }
    }
}

/// A rule that leaves out some of the results of another gives what passes of them.
pub proof fn lemma_filter_map_filter<A, B>(
    s: Seq<A>,
    rule: spec_fn(A) -> Option<B>,
    narrow: spec_fn(A) -> Option<B>,
    passes: spec_fn(B) -> bool,
)
    requires
        forall|x: A|
            #[trigger] narrow(x) == (match rule(x) {
                Some(y) => if passes(y) {
                    Some(y)
                } else {
                    None
                },
                None => None,
            }),
    ensures
        s.filter_map(narrow) == s.filter_map(rule).filter(passes),
    decreases s.len(),
{
    reveal(Seq::filter);
    if s.len() > 0 {
        let rest = s.drop_last();
        lemma_filter_map_filter(rest, rule, narrow, passes);
        match rule(s.last()) {
            Some(y) => {
                let before = rest.filter_map(rule);
                assert((before + seq![y]).drop_last() == before);
                assert((before + seq![y]).last() == y);
                assert(before.filter(passes).push(y) == before.filter(passes) + seq![y]);
            },
            None => {},
        }
    }
}

/// A rule gives for two lists one after the other what it gives for each.
pub proof fn lemma_filter_map_add<A, B>(a: Seq<A>, b: Seq<A>, rule: spec_fn(A) -> Option<B>)
    ensures
        (a + b).filter_map(rule) == a.filter_map(rule) + b.filter_map(rule),
    decreases b.len(),
{
    if b.len() == 0 {
        assert(a + b =~= a);
        assert(a.filter_map(rule) + b.filter_map(rule) =~= a.filter_map(rule));
    } else {
        let rest = b.drop_last();
        assert((a + b).drop_last() =~= a + rest);
        assert((a + b).last() == b.last());
        lemma_filter_map_add(a, rest, rule);
        assert((a + b).filter_map(rule) =~= a.filter_map(rule) + b.filter_map(rule));
    }
}

/// A rule gives the same for lists for whose elements it gives the same.
pub proof fn lemma_filter_map_same<A, B>(a: Seq<A>, b: Seq<A>, rule: spec_fn(A) -> Option<B>)
    requires
        a.len() == b.len(),
        forall|i: int| 0 <= i < a.len() ==> rule(#[trigger] a[i]) == rule(b[i]),
    ensures
        a.filter_map(rule) == b.filter_map(rule),
    decreases a.len(),
{
    if a.len() > 0 {
        assert forall|i: int| 0 <= i < a.len() - 1 implies rule(#[trigger] a.drop_last()[i]) == rule(
            b.drop_last()[i],
        ) by {
            assert(a.drop_last()[i] == a[i]);
        }
        lemma_filter_map_same(a.drop_last(), b.drop_last(), rule);
        assert(rule(a[a.len() - 1]) == rule(b[b.len() - 1]));
    }
}

/// A rule whose results are those of another, each changed, gives what the other gives, each
/// changed.
pub proof fn lemma_filter_map_changed<A, B>(
    s: Seq<A>,
    rule: spec_fn(A) -> Option<B>,
    changed: spec_fn(A) -> Option<B>,
    change: spec_fn(B) -> B,
)
    requires
        forall|x: A|
            #[trigger] changed(x) == (match rule(x) {
                Some(y) => Some(change(y)),
                None => None,
            }),
    ensures
        s.filter_map(changed) == s.filter_map(rule).map_values(change),
    decreases s.len(),
{
    if s.len() > 0 {
        let rest = s.drop_last();
        lemma_filter_map_changed(rest, rule, changed, change);
        assert(s.filter_map(changed) =~= s.filter_map(rule).map_values(change));
    } else {
        assert(s.filter_map(changed) =~= s.filter_map(rule).map_values(change));
    }
}

} // verus!

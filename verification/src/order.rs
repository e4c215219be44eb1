//! The order of texts, sorted lists and sorted sets of texts.
use crate::text;
use vstd::prelude::*;
use vstd::slice::slice_subrange;

verus! {

broadcast use vstd::string::group_string_axioms;

/// `a` comes before `b` or is `b`: texts are ordered by their first different character, and
/// a text comes before its continuations. UTF-8 keeps this order, so it is also the order of
/// the texts' bytes.
pub open spec fn at_most(a: Seq<char>, b: Seq<char>) -> bool
    decreases a.len(),
{
    if a.len() == 0 {
        true
    } else if b.len() == 0 {
        false
    } else if a[0] != b[0] {
        a[0] < b[0]
    } else {
        at_most(a.drop_first(), b.drop_first())
    }
}

/// The order of texts as a relation.
pub open spec fn text_order() -> spec_fn(Seq<char>, Seq<char>) -> bool {
    |a: Seq<char>, b: Seq<char>| at_most(a, b)
}

/// `s` in ascending order, repetitions kept.
pub open spec fn sorted(s: Seq<Seq<char>>) -> Seq<Seq<char>> {
    s.sort_by(text_order())
}

/// `s` with every element that equals the one before it left out.
pub open spec fn without_repeats(s: Seq<Seq<char>>) -> Seq<Seq<char>>
    decreases s.len(),
{
    if s.len() <= 1 {
        s
    } else if s[s.len() - 1] == s[s.len() - 2] {
        without_repeats(s.drop_last())
    } else {
        without_repeats(s.drop_last()).push(s.last())
    }
}

/// The different elements of `s` in ascending order.
pub open spec fn sorted_set(s: Seq<Seq<char>>) -> Seq<Seq<char>> {
    without_repeats(sorted(s))
}

/// Every element comes before the next and differs from it.
pub open spec fn strictly_ascending(s: Seq<Seq<char>>) -> bool {
    forall|i: int, j: int|
        #![trigger s[i], s[j]]
        0 <= i < j < s.len() ==> at_most(s[i], s[j]) && s[i] != s[j]
}

proof fn lemma_reflexive(a: Seq<char>)
    ensures
        at_most(a, a),
    decreases a.len(),
{
    if a.len() > 0 {
        lemma_reflexive(a.drop_first());
    }
}

proof fn lemma_antisymmetric(a: Seq<char>, b: Seq<char>)
    requires
        at_most(a, b),
        at_most(b, a),
    ensures
        a == b,
    decreases a.len(),
{
    if a.len() > 0 && b.len() > 0 {
        lemma_antisymmetric(a.drop_first(), b.drop_first());
        assert(a == seq![a[0]] + a.drop_first());
        assert(b == seq![b[0]] + b.drop_first());
    } else {
        assert(a == b);
    }
}

proof fn lemma_transitive(a: Seq<char>, b: Seq<char>, c: Seq<char>)
    requires
        at_most(a, b),
        at_most(b, c),
    ensures
        at_most(a, c),
    decreases a.len(),
{
    if a.len() > 0 && b.len() > 0 && c.len() > 0 && a[0] == b[0] && b[0] == c[0] {
        lemma_transitive(a.drop_first(), b.drop_first(), c.drop_first());
    }
}

proof fn lemma_connected(a: Seq<char>, b: Seq<char>)
    ensures
        at_most(a, b) || at_most(b, a),
    decreases a.len(),
{
    if a.len() > 0 && b.len() > 0 && a[0] == b[0] {
        lemma_connected(a.drop_first(), b.drop_first());
    }
}

/// The order of texts is total.
pub proof fn lemma_total_order()
    ensures
        vstd::relations::total_ordering(text_order()),
{
    let r = text_order();
    assert forall|a: Seq<char>| #[trigger] r(a, a) by {
        lemma_reflexive(a);
    }
    assert forall|a: Seq<char>, b: Seq<char>| #[trigger] r(a, b) && #[trigger] r(b, a) implies a
        == b by {
        lemma_antisymmetric(a, b);
    }
    assert forall|a: Seq<char>, b: Seq<char>, c: Seq<char>| #[trigger]
        r(a, b) && #[trigger] r(b, c) implies r(a, c) by {
        lemma_transitive(a, b, c);
    }
    assert forall|a: Seq<char>, b: Seq<char>| #[trigger] r(a, b) || #[trigger] r(b, a) by {
        lemma_connected(a, b);
    }
}

/// Tests whether `a` comes before `b` or is `b`.
pub fn is_at_most(a: &str, b: &str) -> (r: bool)
    ensures
        r == at_most(a@, b@),
{
    let mut other = b.chars();
    assert(a@.skip(0) == a@ && b@.skip(0) == b@);
    for x in it: a.chars()
        invariant
            it.seq() == a@,
            it.index() <= b@.len(),
            vstd::std_specs::iter::IteratorSpec::remaining(&other) == b@.skip(it.index() as int),
            at_most(a@, b@) == at_most(a@.skip(it.index() as int), b@.skip(it.index() as int)),
    {
        let ghost i = it.index() as int;
        assert(a@.skip(i)[0] == x);
        assert(a@.skip(i).drop_first() == a@.skip(i + 1));
        match other.next() {
            None => return false,
            Some(y) => {
                assert(b@.skip(i).drop_first() == b@.skip(i + 1));
                if x != y {
                    return x < y;
                }
            },
        }
    }
    true
}

/// `s` ends with an element that no element of it comes after.
proof fn lemma_sorted_push(s: Seq<Seq<char>>, x: Seq<char>)
    requires
        vstd::relations::sorted_by(s, text_order()),
        forall|k: int| 0 <= k < s.len() ==> at_most(s[k], x),
    ensures
        vstd::relations::sorted_by(s.push(x), text_order()),
{
}

/// Appending a string appends its content.
pub proof fn lemma_texts_push(s: Seq<String>, x: String)
    ensures
        text::texts(s.push(x)) == text::texts(s).push(x@),
{
    assert(text::texts(s.push(x)) =~= text::texts(s).push(x@));
}

proof fn lemma_push_to_multiset(
    whole: Seq<Seq<char>>,
    one: Seq<Seq<char>>,
    other: Seq<Seq<char>>,
    x: Seq<char>,
)
    requires
        whole.to_multiset() =~= one.to_multiset().add(other.to_multiset()),
    ensures
        whole.push(x).to_multiset() =~= one.push(x).to_multiset().add(other.to_multiset()),
        whole.push(x).to_multiset() =~= other.to_multiset().add(one.push(x).to_multiset()),
{
    broadcast use vstd::multiset::group_multiset_axioms;
    broadcast use vstd::seq_lib::group_to_multiset_ensures;

}

/// The two sorted lists as one sorted list.
fn merge(left: &Vec<String>, right: &Vec<String>) -> (r: Vec<String>)
    requires
        vstd::relations::sorted_by(text::texts(left@), text_order()),
        vstd::relations::sorted_by(text::texts(right@), text_order()),
    ensures
        vstd::relations::sorted_by(text::texts(r@), text_order()),
        text::texts(r@).to_multiset() =~= text::texts(left@).to_multiset().add(
            text::texts(right@).to_multiset(),
        ),
{
    broadcast use vstd::multiset::group_multiset_axioms;
    broadcast use vstd::seq_lib::group_to_multiset_ensures;

    let mut r: Vec<String> = Vec::new();
    let mut i: usize = 0;
    let mut j: usize = 0;
    let ghost a = text::texts(left@);
    let ghost b = text::texts(right@);
    while i < left.len() || j < right.len()
        invariant
            i <= left@.len(),
            j <= right@.len(),
            a == text::texts(left@),
            b == text::texts(right@),
            vstd::relations::sorted_by(a, text_order()),
            vstd::relations::sorted_by(b, text_order()),
            vstd::relations::sorted_by(text::texts(r@), text_order()),
            text::texts(r@).to_multiset() =~= a.take(i as int).to_multiset().add(
                b.take(j as int).to_multiset(),
            ),
            forall|k: int, m: int|
                0 <= k < r@.len() && i <= m < a.len() ==> at_most(
                    #[trigger] text::texts(r@)[k],
                    #[trigger] a[m],
                ),
            forall|k: int, m: int|
                0 <= k < r@.len() && j <= m < b.len() ==> at_most(
                    #[trigger] text::texts(r@)[k],
                    #[trigger] b[m],
                ),
        decreases left@.len() - i + right@.len() - j,
    {
        let from_left = if i == left.len() {
            false
        } else if j == right.len() {
            true
        } else {
            is_at_most(left[i].as_str(), right[j].as_str())
        };
        let ghost before = text::texts(r@);

        if from_left {
            let next = left[i].clone();
            proof {
                assert(next@ == a[i as int]);
                lemma_texts_push(r@, next);
                lemma_sorted_push(before, next@);
                assert(a.take(i + 1) == a.take(i as int).push(a[i as int]));
                lemma_push_to_multiset(before, a.take(i as int), b.take(j as int), next@);
                assert forall|m: int| i < m < a.len() implies at_most(next@, #[trigger] a[m]) by {
                    assert(text_order()(a[i as int], a[m]));
                }
                assert forall|m: int| j <= m < b.len() implies at_most(next@, #[trigger] b[m]) by {
                    if m > j {
                        assert(text_order()(b[j as int], b[m]));
                        lemma_transitive(next@, b[j as int], b[m]);
                    }
                }
            }
            r.push(next);
            i = i + 1;
        } else {
            let next = right[j].clone();
            proof {
                assert(next@ == b[j as int]);
                lemma_texts_push(r@, next);
                lemma_sorted_push(before, next@);
                assert(b.take(j + 1) == b.take(j as int).push(b[j as int]));
                assert(before.to_multiset() =~= b.take(j as int).to_multiset().add(
                    a.take(i as int).to_multiset(),
                ));
                lemma_push_to_multiset(before, b.take(j as int), a.take(i as int), next@);
                if i < a.len() {
                    lemma_connected(a[i as int], b[j as int]);
                }
                assert forall|m: int| j < m < b.len() implies at_most(next@, #[trigger] b[m]) by {
                    assert(text_order()(b[j as int], b[m]));
                }
                assert forall|m: int| i <= m < a.len() implies at_most(next@, #[trigger] a[m]) by {
                    if m > i {
                        assert(text_order()(a[i as int], a[m]));
                        lemma_transitive(next@, a[i as int], a[m]);
                    }
                }
            }
            r.push(next);
            j = j + 1;
        }
    }
    proof {
        assert(a.take(i as int) == a);
        assert(b.take(j as int) == b);
    }
    r
}

/// `list` in ascending order, repetitions kept.
pub fn sort_texts(list: &[String]) -> (r: Vec<String>)
    ensures
        text::texts(r@) == sorted(text::texts(list@)),
    decreases list@.len(),
{
    let ghost all = text::texts(list@);
    proof {
        lemma_total_order();
        all.lemma_sort_by_ensures(text_order());
    }
    if list.len() <= 1 {
        let mut r: Vec<String> = Vec::new();
        if list.len() == 1 {
            r.push(list[0].clone());
        }
        proof {
            assert(text::texts(r@) =~= all);
            vstd::seq_lib::lemma_sorted_unique(text::texts(r@), sorted(all), text_order());
        }
        r
    } else {
        let half: usize = list.len() / 2;
        let front = slice_subrange(list, 0, half);
        let back = slice_subrange(list, half, list.len());
        let left = sort_texts(front);
        let right = sort_texts(back);
        proof {
            let x = text::texts(front@);
            let y = text::texts(back@);
            assert(all =~= x + y);
            x.lemma_sort_by_ensures(text_order());
            y.lemma_sort_by_ensures(text_order());
            vstd::seq_lib::lemma_multiset_commutative(x, y);
        }
        let r = merge(&left, &right);
        proof {
            vstd::seq_lib::lemma_sorted_unique(text::texts(r@), sorted(all), text_order());
        }
        r
    }
}

/// The different texts of `list` in ascending order.
pub fn sort_set(list: &[String]) -> (r: Vec<String>)
    ensures
        text::texts(r@) == sorted_set(text::texts(list@)),
{
    let all = sort_texts(list);
    let ghost whole = text::texts(all@);
    let mut r: Vec<String> = Vec::new();
    let mut i: usize = 0;
    while i < all.len()
        invariant
            i <= all@.len(),
            whole == text::texts(all@),
            text::texts(r@) == without_repeats(whole.take(i as int)),
        decreases all@.len() - i,
    {
        proof {
            assert(whole.take(i + 1).drop_last() == whole.take(i as int));
            lemma_texts_push(r@, all@[i as int]);
        }
        if i == 0 || all[i] != all[i - 1] {
            r.push(all[i].clone());
        }
        assert(whole.take(i + 1).last() == whole[i as int]);
        if i == 0 {
            assert(whole.take(1) == seq![whole[0]]);
            assert(text::texts(r@) == seq![whole[0]]);
        }
        i = i + 1;
    }
    assert(whole.take(i as int) == whole);
    r
}

/// A sorted set holds what the list holds, once each and in ascending order.
pub proof fn lemma_sorted_set(s: Seq<Seq<char>>)
    ensures
        strictly_ascending(sorted_set(s)),
        forall|x: Seq<char>| #[trigger] sorted_set(s).contains(x) <==> s.contains(x),
{
    lemma_total_order();
    s.lemma_sort_by_ensures(text_order());
    lemma_without_repeats(sorted(s));
    assert forall|x: Seq<char>| #[trigger] sorted_set(s).contains(x) <==> s.contains(x) by {
        lemma_sorted_contains(s, x);
    }
}

/// Sorting keeps what a list holds.
pub proof fn lemma_sorted_contains(s: Seq<Seq<char>>, x: Seq<char>)
    ensures
        sorted(s).contains(x) <==> s.contains(x),
        sorted(s).len() == s.len(),
{
    broadcast use vstd::seq_lib::group_to_multiset_ensures;

    lemma_total_order();
    s.lemma_sort_by_ensures(text_order());
    assert(s.to_multiset().count(x) == sorted(s).to_multiset().count(x));
    assert(sorted(s).to_multiset().len() == s.to_multiset().len());
}

/// A sorted list without its repeats holds what the list holds, once each and in ascending order.
pub proof fn lemma_without_repeats(s: Seq<Seq<char>>)
    requires
        vstd::relations::sorted_by(s, text_order()),
    ensures
        strictly_ascending(without_repeats(s)),
        forall|x: Seq<char>| #[trigger] without_repeats(s).contains(x) <==> s.contains(x),
        s.len() > 0 ==> without_repeats(s).len() > 0 && without_repeats(s).last() == s.last(),
    decreases s.len(),
{
    if s.len() > 1 {
        let front = s.drop_last();
        let kept = without_repeats(front);
        assert(vstd::relations::sorted_by(front, text_order())) by {
            assert forall|i: int, j: int| 0 <= i < j < front.len() implies #[trigger] text_order()(
                front[i],
                front[j],
            ) by {
                assert(text_order()(s[i], s[j]));
            }
        }
        lemma_without_repeats(front);
        assert(s == front.push(s.last()));
        assert(text_order()(s[s.len() - 2], s[s.len() - 1]));
        assert forall|x: Seq<char>| #[trigger] without_repeats(s).contains(x) <==> s.contains(
            x,
        ) by {
            if s.contains(x) {
                let i = choose|i: int| 0 <= i < s.len() && s[i] == x;
                if i < front.len() {
                    assert(front[i] == x);
                    assert(kept.contains(x));
                    let k = choose|k: int| 0 <= k < kept.len() && kept[k] == x;
                    assert(without_repeats(s)[k] == x);
                } else {
                    assert(without_repeats(s).last() == x);
                }
            }
            if without_repeats(s).contains(x) {
                let k = choose|k: int|
                    0 <= k < without_repeats(s).len() && without_repeats(s)[k] == x;
                if k < kept.len() {
                    assert(kept.contains(x));
                    assert(front.contains(x));
                    let i = choose|i: int| 0 <= i < front.len() && front[i] == x;
                    assert(s[i] == x);
                } else {
                    assert(s.last() == x);
                }
            }
        }
        if s[s.len() - 1] != s[s.len() - 2] {
            assert forall|i: int, j: int|
                0 <= i < j < without_repeats(s).len() implies at_most(
                without_repeats(s)[i],
                without_repeats(s)[j],
            ) && without_repeats(s)[i] != without_repeats(s)[j] by {
                assert(without_repeats(s)[i] == kept[i]);
                if j < kept.len() {
                    assert(at_most(kept[i], kept[j]) && kept[i] != kept[j]);
                    assert(without_repeats(s)[j] == kept[j]);
                } else {
                    assert(without_repeats(s)[j] == s.last());
                    assert(kept.last() == front.last());
                    assert(at_most(kept.last(), s.last()));
                    if i < kept.len() - 1 {
                        lemma_transitive(kept[i], kept.last(), s.last());
                        if kept[i] == s.last() {
                            lemma_antisymmetric(kept[i], kept.last());
                        }
                    }
                }
            }
        }
    }
}

} // verus!

//! What the laws need to know of the lines of a text.
use crate::text;
use crate::text::CharClass;
use vstd::prelude::*;

verus! {

/// A run ends at the end of the text or before the first character outside the class.
pub proof fn lemma_run(s: Seq<char>, class: CharClass)
    ensures
        text::run(s, class) <= s.len(),
        forall|i: int| 0 <= i < text::run(s, class) ==> class.holds(#[trigger] s[i]),
        text::run(s, class) < s.len() ==> !class.holds(s[text::run(s, class) as int]),
    decreases s.len(),
{
    if s.len() > 0 && class.holds(s[0]) {
        let rest = s.drop_first();
        lemma_run(rest, class);
        assert forall|i: int| 0 <= i < text::run(s, class) implies class.holds(#[trigger] s[i]) by {
            if i > 0 {
                assert(rest[i - 1] == s[i]);
            }
        }
    }
}

/// A run does not go beyond a character outside the class.
pub proof fn lemma_run_join(a: Seq<char>, c: char, b: Seq<char>, class: CharClass)
    requires
        !class.holds(c),
    ensures
        text::run(a.push(c) + b, class) == text::run(a, class),
    decreases a.len(),
{
    let s = a.push(c) + b;
    if a.len() == 0 {
        assert(s[0] == c);
    } else {
        assert(s[0] == a[0]);
        if class.holds(a[0]) {
            assert(s.drop_first() =~= a.drop_first().push(c) + b);
            lemma_run_join(a.drop_first(), c, b, class);
        }
    }
}

/// The pieces of two texts with a character outside the class between them are the pieces of
/// both.
pub proof fn lemma_pieces_join(a: Seq<char>, c: char, b: Seq<char>, class: CharClass)
    requires
        !class.holds(c),
    ensures
        text::pieces(a.push(c) + b, class) == text::pieces(a, class) + text::pieces(b, class),
    decreases a.len(),
{
    let s = a.push(c) + b;
    let n = text::run(a, class) as int;
    lemma_run(a, class);
    lemma_run_join(a, c, b, class);
    assert(s.take(n) =~= a.take(n));
    if n >= a.len() {
        assert(a.take(n) =~= a);
        assert(s.skip(n + 1) =~= b);
        assert(text::pieces(s, class) =~= text::pieces(a, class) + text::pieces(b, class));
    } else {
        assert(s.skip(n + 1) =~= a.skip(n + 1).push(c) + b);
        lemma_pieces_join(a.skip(n + 1), c, b, class);
        assert(text::pieces(s, class) =~= text::pieces(a, class) + text::pieces(b, class));
    }
}

/// There is a piece, and pieces hold characters of the class alone.
pub proof fn lemma_pieces_hold(s: Seq<char>, class: CharClass)
    ensures
        text::pieces(s, class).len() > 0,
        forall|k: int, i: int|
            0 <= k < text::pieces(s, class).len() && 0 <= i < text::pieces(s, class)[k].len()
                ==> class.holds(#[trigger] text::pieces(s, class)[k][i]),
    decreases s.len(),
{
    let all = text::pieces(s, class);
    let n = text::run(s, class) as int;
    lemma_run(s, class);
    if n < s.len() {
        let rest = text::pieces(s.skip(n + 1), class);
        lemma_pieces_hold(s.skip(n + 1), class);
        assert forall|k: int, i: int|
            0 <= k < all.len() && 0 <= i < all[k].len() implies class.holds(
            #[trigger] all[k][i],
        ) by {
            if k > 0 {
                assert(all[k] == rest[k - 1]);
                assert(class.holds(rest[k - 1][i]));
            } else {
                assert(all[0] == s.take(n));
            }
        }
    }
}

/// A text of characters of the class is its only piece.
pub proof fn lemma_one_piece(s: Seq<char>, class: CharClass)
    requires
        forall|i: int| 0 <= i < s.len() ==> class.holds(#[trigger] s[i]),
    ensures
        text::pieces(s, class) == seq![s],
{
    lemma_run(s, class);
}

/// The lines of a text behind which another line begins: all its pieces, each without a carriage
/// return at its end.
pub open spec fn closed_lines(s: Seq<char>) -> Seq<Seq<char>> {
    text::pieces(s, CharClass::NotNewline).map_values(|line: Seq<char>| text::without_return(line))
}

/// The lines of two texts with a line feed between them.
pub proof fn lemma_lines_join(a: Seq<char>, b: Seq<char>)
    ensures
        text::lines(a.push('\n') + b) == closed_lines(a) + text::lines(b),
{
    let class = CharClass::NotNewline;
    let all = text::pieces(a.push('\n') + b, class);
    let p = text::pieces(a, class);
    let q = text::pieces(b, class);
    lemma_pieces_join(a, '\n', b, class);
    lemma_pieces_hold(b, class);
    let rule = |line: Seq<char>| text::without_return(line);
    assert(all.last() == q.last());
    assert(all.drop_last() =~= p + q.drop_last());
    assert(all.drop_last().map_values(rule) =~= p.map_values(rule) + q.drop_last().map_values(
        rule,
    ));
    assert(text::lines(a.push('\n') + b) =~= closed_lines(a) + text::lines(b));
}

/// The lines of a text and its lines where another line begins behind it: a carriage return at
/// the end of the last line and an empty last line make the difference.
pub proof fn lemma_closed_lines(s: Seq<char>)
    ensures
        ({
            let open = text::lines(s);
            let closed = closed_lines(s);
            &&& closed.len() > 0
            &&& open.len() == closed.len() || (open.len() + 1 == closed.len()
                && closed.last().len() == 0)
            &&& forall|i: int|
                0 <= i < open.len() ==> (#[trigger] open[i] == closed[i] || open[i]
                    == closed[i].push('\r'))
            &&& forall|i: int, j: int|
                0 <= i < open.len() && 0 <= j < open[i].len() ==> #[trigger] open[i][j] != '\n'
        }),
{
    let class = CharClass::NotNewline;
    let all = text::pieces(s, class);
    let open = text::lines(s);
    let closed = closed_lines(s);
    lemma_pieces_hold(s, class);
    assert forall|i: int| 0 <= i < open.len() implies (#[trigger] open[i] == closed[i] || open[i]
        == closed[i].push('\r')) by {
        if i == all.len() - 1 {
            let last = all.last();
            assert(open[i] == last);
            if last.last() == '\r' {
                assert(closed[i] == last.drop_last());
                assert(last == last.drop_last().push('\r'));
            }
        }
    }
    assert forall|i: int, j: int|
        0 <= i < open.len() && 0 <= j < open[i].len() implies #[trigger] open[i][j] != '\n' by {
        assert(class.holds(all[i][j]));
    }
}

/// The lines of a text without line breaks: the text itself, unless it is empty.
pub proof fn lemma_one_line(s: Seq<char>)
    requires
        !s.contains('\n'),
    ensures
        text::pieces(s, CharClass::NotNewline) == seq![s],
        text::lines(s) == (if s.len() == 0 {
            Seq::empty()
        } else {
            seq![s]
        }),
{
    assert forall|i: int| 0 <= i < s.len() implies CharClass::NotNewline.holds(
        #[trigger] s[i],
    ) by {
        assert(s.contains(s[i]));
    }
    lemma_one_piece(s, CharClass::NotNewline);
    let none = Seq::<Seq<char>>::empty();
    assert(seq![s].drop_last() =~= none);
    assert(text::lines(s) =~= (if s.len() == 0 {
        Seq::empty()
    } else {
        seq![s]
    }));
}

/// `part` is a stretch of `whole`.
pub open spec fn is_stretch(part: Seq<char>, whole: Seq<char>) -> bool {
    exists|i: int, j: int| 0 <= i <= j <= whole.len() && part == #[trigger] whole.subrange(i, j)
}

/// A stretch of a stretch is a stretch.
pub proof fn lemma_stretch_of_stretch(a: Seq<char>, b: Seq<char>, c: Seq<char>)
    requires
        is_stretch(a, b),
        is_stretch(b, c),
    ensures
        is_stretch(a, c),
{
    let (i, j) = choose|i: int, j: int|
        0 <= i <= j <= b.len() && a == #[trigger] b.subrange(i, j);
    let (k, l) = choose|k: int, l: int|
        0 <= k <= l <= c.len() && b == #[trigger] c.subrange(k, l);
    assert(a =~= c.subrange(k + i, k + j));
}

/// What is left of a text once it is trimmed is a stretch of it that neither starts nor ends with
/// a character of the class.
pub proof fn lemma_trim(s: Seq<char>, class: CharClass)
    ensures
        is_stretch(text::trim_front(s, class), s),
        is_stretch(text::trim_class(s, class), s),
        text::trim_class(s, class).len() > 0 ==> !class.holds(text::trim_class(s, class)[0])
            && !class.holds(text::trim_class(s, class).last()),
{
    let n = text::run(s, class) as int;
    lemma_run(s, class);
    let front = text::trim_front(s, class);
    assert(front =~= s.subrange(n, s.len() as int));
    lemma_trim_back(front, class);
    lemma_stretch_of_stretch(text::trim_class(s, class), front, s);
}

proof fn lemma_trim_back(s: Seq<char>, class: CharClass)
    ensures
        is_stretch(text::trim_back(s, class), s),
        text::trim_back(s, class).len() > 0 ==> text::trim_back(s, class)[0] == s[0]
            && !class.holds(text::trim_back(s, class).last()),
    decreases s.len(),
{
    if s.len() > 0 && class.holds(s.last()) {
        let shorter = s.drop_last();
        lemma_trim_back(shorter, class);
        assert(shorter =~= s.subrange(0, s.len() - 1));
        lemma_stretch_of_stretch(text::trim_back(s, class), shorter, s);
    } else {
        assert(s =~= s.subrange(0, s.len() as int));
    }
}

/// What does not stand in a text does not stand in a stretch of it.
pub proof fn lemma_stretch_lacks(part: Seq<char>, whole: Seq<char>, needle: Seq<char>)
    requires
        is_stretch(part, whole),
        !text::occurs(whole, needle),
    ensures
        !text::occurs(part, needle),
{
    let (i, j) = choose|i: int, j: int|
        0 <= i <= j <= whole.len() && part == #[trigger] whole.subrange(i, j);
    if text::occurs(part, needle) {
        let k = choose|k: int| text::occurs_at(part, needle, k);
        assert(whole.subrange(i + k, i + k + needle.len()) =~= part.subrange(
            k,
            k + needle.len(),
        ));
        assert(text::occurs_at(whole, needle, i + k));
    }
}

/// A character that a text lacks is not in a stretch of it.
pub proof fn lemma_stretch_lacks_char(part: Seq<char>, whole: Seq<char>, c: char)
    requires
        is_stretch(part, whole),
        !whole.contains(c),
    ensures
        !part.contains(c),
{
    let (i, j) = choose|i: int, j: int|
        0 <= i <= j <= whole.len() && part == #[trigger] whole.subrange(i, j);
    if part.contains(c) {
        let k = choose|k: int| 0 <= k < part.len() && part[k] == c;
        assert(whole[i + k] == c);
    }
}

} // verus!

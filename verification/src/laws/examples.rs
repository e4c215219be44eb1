//! What a line of a dotenv file sets and which values an example may show, said in characters.
use crate::checks;
use crate::detect;
use crate::dotenv;
use crate::laws::characters;
use crate::laws::lines;
use crate::laws::lists;
use crate::laws::values;
use crate::report;
use crate::secrets;
use crate::text;
use crate::text::CharClass;
use vstd::prelude::*;

verus! {

/// `key` is made of ASCII letters, digits and `_` and does not start with a digit.
pub open spec fn plain_key(key: Seq<char>) -> bool {
    &&& key.len() > 0
    &&& !('0' <= key[0] && key[0] <= '9')
    &&& forall|i: int|
        0 <= i < key.len() ==> characters::letter_or_digit(#[trigger] key[i]) || key[i] == '_'
}

/// The names of variables and the four prefixes of public ones.
pub proof fn law_keys(key: Seq<char>)
    ensures
        dotenv::env_key(key) <==> plain_key(key),
        dotenv::public_env_key(key) <==> (characters::begins(key, "PUBLIC_"@)
            || characters::begins(key, "VITE_"@) || characters::begins(key, "NEXT_PUBLIC_"@)
            || characters::begins(key, "REACT_APP_"@)),
{
    characters::law_occurrences_only_there(key, "PUBLIC_"@, 0);
    characters::law_occurrences_only_there(key, "VITE_"@, 0);
    characters::law_occurrences_only_there(key, "NEXT_PUBLIC_"@, 0);
    characters::law_occurrences_only_there(key, "REACT_APP_"@, 0);
    if dotenv::env_key(key) {
        assert forall|i: int| 0 <= i < key.len() implies characters::letter_or_digit(
            #[trigger] key[i],
        ) || key[i] == '_' by {}
    }
    if plain_key(key) {
        assert(characters::letter_or_digit(key[0]) || key[0] == '_');
        assert forall|i: int| 1 <= i < key.len() implies #[trigger] key[i] == '_'
            || text::ascii_alphanumeric(key[i]) by {
            assert(characters::letter_or_digit(key[i]) || key[i] == '_');
        }
    }
}

/// At `i` stands something that reads like `word` in lower case.
pub open spec fn read_at(s: Seq<char>, word: Seq<char>, i: int) -> bool {
    0 <= i <= s.len() - word.len() && characters::reads_like(
        s.subrange(i, i + word.len()),
        word,
    )
}

/// `v` is one of the six fixed words, starts with `your_` or holds `replace`, in any case of
/// letters.
pub open spec fn stands_for_a_value(v: Seq<char>) -> bool {
    ||| characters::reads_like(v, "example"@)
    ||| characters::reads_like(v, "example-value"@)
    ||| characters::reads_like(v, "changeme"@)
    ||| characters::reads_like(v, "change-me"@)
    ||| characters::reads_like(v, "dummy"@)
    ||| characters::reads_like(v, "your-value"@)
    ||| read_at(v, "your_"@, 0)
    ||| exists|i: int| read_at(v, "replace"@, i)
}

/// `v` is empty, or stands between `<` and `>` or between `${` and `}`.
pub open spec fn leaves_open(v: Seq<char>) -> bool {
    ||| v.len() == 0
    ||| v[0] == '<' && v.last() == '>'
    ||| v.len() >= 2 && v[0] == '$' && v[1] == '{' && v.last() == '}'
}

/// What reads like a word stands in the lower-case text.
pub proof fn lemma_read_at(s: Seq<char>, word: Seq<char>, i: int)
    ensures
        read_at(s, word, i) <==> text::occurs_at(text::lower(s), word, i),
{
    if 0 <= i <= s.len() - word.len() {
        let part = s.subrange(i, i + word.len());
        characters::law_lower_case(part, word);
        assert(text::lower(s).subrange(i, i + word.len()) =~= text::lower(part));
    }
}

/// An example may show a value just where, without the white space around it, it leaves the
/// value open or stands for one, or where the variable is public and the value holds no secret
/// that can be told for sure.
pub proof fn law_shown_values(key: Seq<char>, before: Seq<char>, v: Seq<char>, after: Seq<char>)
    requires
        characters::all_blank(before),
        characters::all_blank(after),
        v.len() > 0 ==> !characters::blank(v[0]) && !characters::blank(v.last()),
    ensures
        dotenv::example_value_safe(key, before + v + after) <==> (leaves_open(v)
            || stands_for_a_value(v) || ((characters::begins(key, "PUBLIC_"@)
            || characters::begins(key, "VITE_"@) || characters::begins(key, "NEXT_PUBLIC_"@)
            || characters::begins(key, "REACT_APP_"@)) && !secrets::carries_secret(v))),
{
    characters::law_trim(before, v, after);
    law_keys(key);
    characters::law_lower_case(v, "example"@);
    characters::law_lower_case(v, "example-value"@);
    characters::law_lower_case(v, "changeme"@);
    characters::law_lower_case(v, "change-me"@);
    characters::law_lower_case(v, "dummy"@);
    characters::law_lower_case(v, "your-value"@);
    lemma_read_at(v, "your_"@, 0);
    let word = text::lower(v);
    assert forall|i: int| #[trigger] read_at(v, "replace"@, i) == text::occurs_at(
        word,
        "replace"@,
        i,
    ) by {
        lemma_read_at(v, "replace"@, i);
    }
    if text::occurs(word, "replace"@) {
        let i = choose|i: int| text::occurs_at(word, "replace"@, i);
        assert(read_at(v, "replace"@, i));
    }
    if exists|i: int| read_at(v, "replace"@, i) {
        let i = choose|i: int| read_at(v, "replace"@, i);
        assert(text::occurs_at(word, "replace"@, i));
    }
    assert(dotenv::blank_or_reference(v) <==> leaves_open(v)) by {
        reveal_strlit("<");
        reveal_strlit(">");
        reveal_strlit("${");
        reveal_strlit("}");
        if v.len() > 0 {
            assert(v.subrange(0, 1) =~= seq![v[0]]);
            assert("<"@ =~= seq!['<']);
            assert(">"@ =~= seq!['>']);
            assert("}"@ =~= seq!['}']);
            assert("${"@ =~= seq!['$', '{']);
            assert(seq!['<'][0] == '<' && seq!['>'][0] == '>' && seq!['}'][0] == '}');
            assert(seq!['$', '{'][0] == '$' && seq!['$', '{'][1] == '{');
            assert(v.subrange(v.len() - 1, v.len() as int) =~= seq![v.last()]);
            assert(seq![v[0]][0] == v[0]);
            assert(seq![v.last()][0] == v.last());
            if v.len() >= 2 {
                assert(v.subrange(0, 2) =~= seq![v[0], v[1]]);
                assert(seq![v[0], v[1]][0] == v[0] && seq![v[0], v[1]][1] == v[1]);
            }
        }
    }
}

/// For a variable that is not public no example may show a value that starts with neither `<`
/// nor `$`, is none of the six words, does not start with `your_` and does not hold `replace`.
pub proof fn law_concrete_values(key: Seq<char>, value: Seq<char>)
    requires
        !characters::begins(key, "PUBLIC_"@),
        !characters::begins(key, "VITE_"@),
        !characters::begins(key, "NEXT_PUBLIC_"@),
        !characters::begins(key, "REACT_APP_"@),
        text::trim(value).len() > 0,
        text::trim(value)[0] != '<',
        text::trim(value)[0] != '$',
        !stands_for_a_value(text::trim(value)),
    ensures
        !dotenv::example_value_safe(key, value),
{
    let (before, after) = characters::lemma_trimmed(value);
    law_shown_values(key, before, text::trim(value), after);
}

/// A line that assigns: white space, perhaps `export `, the name of a variable, white space, `=`
/// and the right side.
pub open spec fn assignment(
    indent: Seq<char>,
    exported: bool,
    key: Seq<char>,
    gap: Seq<char>,
    right: Seq<char>,
) -> Seq<char> {
    indent + (if exported {
        "export "@
    } else {
        Seq::empty()
    }) + key + gap + seq!['='] + right
}

/// A value between white space, double quotes inside that and single quotes inside these.
pub open spec fn wrapped(
    before: Seq<char>,
    open: (Seq<char>, Seq<char>),
    v: Seq<char>,
    close: (Seq<char>, Seq<char>),
    after: Seq<char>,
) -> Seq<char> {
    before + (open.0 + (open.1 + v + close.1) + close.0) + after
}

/// Every character of `s` is `c`.
pub open spec fn all_are(s: Seq<char>, c: char) -> bool {
    forall|i: int| 0 <= i < s.len() ==> #[trigger] s[i] == c
}

/// A line that assigns sets the variable to the right side up to the first ` #`, without the
/// white space around it and then without the quotes around it: first `"`, then `'`. The word
/// `export` with a space behind it is not read as a name.
pub proof fn law_assignments(
    indent: Seq<char>,
    exported: bool,
    key: Seq<char>,
    gap: Seq<char>,
    before: Seq<char>,
    open: (Seq<char>, Seq<char>),
    v: Seq<char>,
    close: (Seq<char>, Seq<char>),
    after: Seq<char>,
    comment: Seq<char>,
)
    requires
        characters::all_blank(indent),
        plain_key(key),
        characters::all_blank(gap),
        characters::all_blank(before),
        characters::all_blank(after),
        all_are(open.0, '"') && all_are(close.0, '"'),
        all_are(open.1, '\'') && all_are(close.1, '\''),
        v.len() > 0 ==> !characters::blank(v[0]) && !characters::blank(v.last()) && v[0] != '"'
            && v.last() != '"' && v[0] != '\'' && v.last() != '\'',
        exported || key != "export"@ || gap.len() == 0 || gap[0] != ' ',
        !characters::stands_in(wrapped(before, open, v, close, after), " #"@),
    ensures
        ({
            let right = wrapped(before, open, v, close, after);
            &&& dotenv::dotenv_pair(assignment(indent, exported, key, gap, right)) == Some((key, v))
            &&& dotenv::dotenv_pair(
                assignment(indent, exported, key, gap, right + " #"@ + comment),
            ) == Some((key, v))
        }),
{
    let right = wrapped(before, open, v, close, after);
    lemma_assignment(indent, exported, key, gap, right);
    lemma_assignment(indent, exported, key, gap, right + " #"@ + comment);
    lemma_comment(right, comment);
    lemma_wrapped(before, open, v, close, after);
}

/// The bare value of a wrapped one.
pub proof fn lemma_wrapped(
    before: Seq<char>,
    open: (Seq<char>, Seq<char>),
    v: Seq<char>,
    close: (Seq<char>, Seq<char>),
    after: Seq<char>,
)
    requires
        characters::all_blank(before),
        characters::all_blank(after),
        all_are(open.0, '"') && all_are(close.0, '"'),
        all_are(open.1, '\'') && all_are(close.1, '\''),
        v.len() > 0 ==> !characters::blank(v[0]) && !characters::blank(v.last()) && v[0] != '"'
            && v.last() != '"' && v[0] != '\'' && v.last() != '\'',
    ensures
        dotenv::bare_value(wrapped(before, open, v, close, after)) == v,
{
    let inner = open.1 + v + close.1;
    let middle = open.0 + inner + close.0;
    assert(inner.len() > 0 ==> !characters::blank(inner[0]) && !characters::blank(inner.last())
        && inner[0] != '"' && inner.last() != '"') by {
        lemma_ends(open.1, v, close.1);
    }
    assert(middle.len() > 0 ==> !characters::blank(middle[0]) && !characters::blank(
        middle.last(),
    )) by {
        lemma_ends(open.0, inner, close.0);
    }
    characters::law_trim(before, middle, after);
    characters::law_trim_class(CharClass::DoubleQuote, open.0, inner, close.0);
    characters::law_trim_class(CharClass::SingleQuote, open.1, v, close.1);
}

proof fn lemma_ends(a: Seq<char>, b: Seq<char>, c: Seq<char>)
    ensures
        ({
            let s = a + b + c;
            s.len() > 0 ==> {
                &&& a.len() > 0 && s[0] == a[0] || b.len() > 0 && s[0] == b[0] || c.len() > 0
                    && s[0] == c[0]
                &&& c.len() > 0 && s.last() == c[c.len() - 1] || b.len() > 0 && s.last() == b.last()
                    || a.len() > 0 && s.last() == a[a.len() - 1]
            }
        }),
{
}

proof fn lemma_comment(right: Seq<char>, comment: Seq<char>)
    requires
        !characters::stands_in(right, " #"@),
    ensures
        dotenv::without_comment(right) == right,
        dotenv::without_comment(right + " #"@ + comment) == right,
{
    reveal_strlit(" #");
    let whole = right + " #"@ + comment;
    let n = right.len() as int;
    characters::law_position(right, " #"@);
    characters::law_position(whole, " #"@);
    assert(whole.subrange(n, n + 2) =~= " #"@);
    assert(characters::stands_at(whole, " #"@, n));
    assert forall|k: int| 0 <= k < n implies !characters::stands_at(whole, " #"@, k) by {
        if characters::stands_at(whole, " #"@, k) {
            assert(whole.subrange(k, k + 2)[1] == '#');
            assert(whole.subrange(k, k + 2)[0] == ' ');
            if k + 1 < n {
                assert(right.subrange(k, k + 2) =~= whole.subrange(k, k + 2));
                assert(characters::stands_at(right, " #"@, k));
            } else {
                assert(whole[n] == ' ');
            }
        }
    }
    assert(whole.take(n) =~= right);
}

proof fn lemma_assignment(
    indent: Seq<char>,
    exported: bool,
    key: Seq<char>,
    gap: Seq<char>,
    right: Seq<char>,
)
    requires
        characters::all_blank(indent),
        plain_key(key),
        characters::all_blank(gap),
        exported || key != "export"@ || gap.len() == 0 || gap[0] != ' ',
    ensures
        dotenv::dotenv_pair(assignment(indent, exported, key, gap, right)) == Some(
            (key, dotenv::bare_value(dotenv::without_comment(right))),
        ),
{
    reveal_strlit("export ");
    let word = if exported {
        "export "@
    } else {
        Seq::empty()
    };
    let line = assignment(indent, exported, key, gap, right);
    let left = key + gap;
    let rest = left + seq!['='] + right;
    let start = word + rest;
    law_keys(key);
    assert(characters::letter_or_digit(key[0]) || key[0] == '_');
    assert(rest[0] == key[0]);
    assert(start[0] == (if exported {
        'e'
    } else {
        key[0]
    }));
    assert(line =~= indent + start);
    lemma_front(indent, start);
    if exported {
        assert(start.subrange(0, 7) =~= "export "@);
        assert(start.skip(7) =~= rest);
    } else {
        assert(start =~= rest);
        if text::starts_with(start, "export "@) {
            lemma_no_export(key, gap, right);
        }
    }
    assert(dotenv::without_prefix(start, "export "@) == rest);
    let class = CharClass::NotEquals;
    assert forall|i: int| 0 <= i < left.len() implies class.holds(#[trigger] left[i]) by {
        if i < key.len() {
            assert(characters::letter_or_digit(key[i]) || key[i] == '_');
        } else {
            assert(characters::blank(gap[i - key.len()]));
        }
    }
    lines::lemma_run(left, class);
    lines::lemma_run_join(left, '=', right, class);
    assert(left.push('=') + right =~= rest);
    if text::run(left, class) < left.len() {
        assert(class.holds(left[text::run(left, class) as int]));
    }
    let n = left.len() as int;
    assert(rest.take(n) =~= left);
    assert(rest.skip(n + 1) =~= right);
    characters::law_trim(Seq::empty(), key, gap);
    assert(Seq::<char>::empty() + key + gap =~= left);
    assert(characters::letter_or_digit(key[key.len() - 1]) || key[key.len() - 1] == '_');
}

proof fn lemma_front(indent: Seq<char>, start: Seq<char>)
    requires
        characters::all_blank(indent),
        start.len() > 0,
        !characters::blank(start[0]),
    ensures
        text::trim_front(indent + start, CharClass::White) == start,
{
    let class = CharClass::White;
    let whole = indent + start;
    let n = text::run(whole, class) as int;
    lines::lemma_run(whole, class);
    if n < indent.len() {
        assert(characters::blank(indent[n]));
        assert(whole[n] == indent[n]);
    }
    if n > indent.len() {
        assert(class.holds(whole[indent.len() as int]));
    }
    assert(whole.skip(n) =~= start);
}

proof fn lemma_no_export(key: Seq<char>, gap: Seq<char>, right: Seq<char>)
    requires
        plain_key(key),
        characters::all_blank(gap),
    ensures
        text::starts_with(key + gap + seq!['='] + right, "export "@) ==> key == "export"@
            && gap.len() > 0 && gap[0] == ' ',
{
    reveal_strlit("export ");
    let s = key + gap + seq!['='] + right;
    if text::starts_with(s, "export "@) {
        let word = "export "@;
        assert forall|i: int| 0 <= i < 7 implies #[trigger] s[i] == word[i] by {
            assert(s.subrange(0, 7)[i] == s[i]);
        }
        let n = key.len() as int;
        if n > 6 {
            assert(s[6] == key[6]);
            assert(characters::letter_or_digit(key[6]) || key[6] == '_');
        } else if n < 6 {
            assert(s[n] == word[n]);
            assert(characters::letter_or_digit(word[n]));
            if gap.len() > 0 {
                assert(s[n] == gap[0]);
                assert(characters::blank(gap[0]));
            } else {
                assert(s[n] == '=');
            }
        } else {
            reveal_strlit("export");
            assert(key =~= "export"@) by {
                assert forall|i: int| 0 <= i < 6 implies #[trigger] key[i] == "export"@[i] by {
                    assert(s[i] == key[i]);
                }
            }
            assert(s[6] == word[6]);
            if gap.len() == 0 {
                assert(s[6] == '=');
            } else {
                assert(s[6] == gap[0]);
            }
        }
    }
}

/// Lines that set nothing: white space alone, comments, lines without `=`, and lines whose left
/// side is not the name of a variable.
pub proof fn law_lines_that_set_nothing(indent: Seq<char>, left: Seq<char>, right: Seq<char>)
    requires
        characters::all_blank(indent),
    ensures
        dotenv::dotenv_pair(indent) is None,
        dotenv::dotenv_pair(indent + seq!['#'] + right) is None,
        left.len() > 0 && !characters::blank(left[0]) && !left.contains('=')
            ==> dotenv::dotenv_pair(indent + left) is None,
        left.len() > 0 && !characters::blank(left[0]) && left[0] != '#' && !left.contains('=')
            && !characters::begins(left + seq!['='] + right, "export "@) && !plain_key(
            text::trim(left),
        ) ==> dotenv::dotenv_pair(indent + left + seq!['='] + right) is None,
{
    let class = CharClass::White;
    reveal_strlit("export ");
    lines::lemma_run(indent, class);
    if text::run(indent, class) < indent.len() {
        assert(characters::blank(indent[text::run(indent, class) as int]));
    }
    assert(text::trim_front(indent, class) =~= Seq::<char>::empty());
    assert(indent + seq!['#'] + right =~= indent + (seq!['#'] + right));
    lemma_front(indent, seq!['#'] + right);
    if left.len() > 0 && !characters::blank(left[0]) && !left.contains('=') {
        lemma_front(indent, left);
        let rest = dotenv::without_prefix(left, "export "@);
        lines::lemma_run(rest, CharClass::NotEquals);
        let n = text::run(rest, CharClass::NotEquals) as int;
        if n < rest.len() {
            assert(left.contains(rest[n])) by {
                if rest != left {
                    assert(rest[n] == left[n + 7]);
                }
            }
        }
        let whole = left + seq!['='] + right;
        assert(indent + left + seq!['='] + right =~= indent + whole);
        lemma_front(indent, whole);
        characters::law_occurrences_only_there(whole, "export "@, 0);
        lines::lemma_run(left, CharClass::NotEquals);
        let m = text::run(left, CharClass::NotEquals) as int;
        if m < left.len() {
            assert(left.contains(left[m]));
        }
        lines::lemma_run_join(left, '=', right, CharClass::NotEquals);
        assert(left.push('=') + right =~= whole);
        assert(whole.take(left.len() as int) =~= left);
        law_keys(text::trim(left));
    }
}

/// What stands in front of the first `=`, without white space around it and without one `export `
/// in front of it, is the name of the variable, and where it cannot be one the line sets nothing.
pub proof fn law_left_sides(indent: Seq<char>, left: Seq<char>, right: Seq<char>)
    requires
        characters::all_blank(indent),
        !left.contains('='),
    ensures
        ({
            let name = text::trim(left);
            let pair = if plain_key(name) {
                Some((name, dotenv::bare_value(dotenv::without_comment(right))))
            } else {
                None
            };
            &&& dotenv::dotenv_pair(indent + "export "@ + left + seq!['='] + right) == pair
            &&& left.len() > 0 && !characters::blank(left[0]) && left[0] != '#'
                && !characters::begins(left + seq!['='] + right, "export "@) ==> dotenv::dotenv_pair(
                indent + left + seq!['='] + right,
            ) == pair
        }),
{
    reveal_strlit("export ");
    let class = CharClass::NotEquals;
    let whole = left + seq!['='] + right;
    lines::lemma_run(left, class);
    let m = text::run(left, class) as int;
    if m < left.len() {
        assert(left.contains(left[m]));
    }
    lines::lemma_run_join(left, '=', right, class);
    assert(left.push('=') + right =~= whole);
    assert(whole.take(left.len() as int) =~= left);
    assert(whole.skip(left.len() as int + 1) =~= right);
    law_keys(text::trim(left));
    let start = "export "@ + whole;
    assert(indent + "export "@ + left + seq!['='] + right =~= indent + start);
    assert(start[0] == 'e');
    lemma_front(indent, start);
    assert(start.subrange(0, 7) =~= "export "@);
    assert(start.skip(7) =~= whole);
    if left.len() > 0 && !characters::blank(left[0]) && left[0] != '#' && !characters::begins(
        whole,
        "export "@,
    ) {
        assert(indent + left + seq!['='] + right =~= indent + whole);
        assert(whole[0] == left[0]);
        lemma_front(indent, whole);
        characters::law_occurrences_only_there(whole, "export "@, 0);
    }
}

/// The pairs of a dotenv file are those of its lines in a row.
pub proof fn law_pairs_line_by_line(line: Seq<char>, rest: Seq<char>)
    requires
        !line.contains('\n'),
        line.len() > 0 ==> line.last() != '\r',
    ensures
        dotenv::dotenv_pairs(Seq::empty()).len() == 0,
        dotenv::dotenv_pairs(line) == one_pair(dotenv::dotenv_pair(line)),
        dotenv::dotenv_pairs(line + seq!['\n'] + rest) == one_pair(dotenv::dotenv_pair(line))
            + dotenv::dotenv_pairs(rest),
{
    let rule = dotenv::pair_rule();
    let none = Seq::<char>::empty();
    characters::law_lines(line, rest);
    lemma_one_filtered(line);
    lists::lemma_filter_map_add(seq![line], text::lines(rest), rule);
    assert(Seq::<Seq<char>>::empty().filter_map(rule).len() == 0);
    if line.len() == 0 {
        assert(line =~= none);
        law_lines_that_set_nothing(none, none, none);
        assert(dotenv::dotenv_pairs(line) =~= one_pair(dotenv::dotenv_pair(line)));
    }
}

/// No pair or one.
pub open spec fn one_pair(pair: Option<(Seq<char>, Seq<char>)>) -> Seq<(Seq<char>, Seq<char>)> {
    match pair {
        Some(p) => seq![p],
        None => Seq::empty(),
    }
}

proof fn lemma_one_filtered(line: Seq<char>)
    ensures
        seq![line].filter_map(dotenv::pair_rule()) == one_pair(dotenv::dotenv_pair(line)),
{
    let rule = dotenv::pair_rule();
    let s = seq![line];
    assert(s.drop_last() =~= Seq::<Seq<char>>::empty());
    assert(s.drop_last().filter_map(rule) =~= Seq::empty());
    assert(s.last() == line);
    assert(s.filter_map(rule) =~= one_pair(dotenv::dotenv_pair(line)));
}

/// An example file with a line that sets a variable that is not public to a concrete value has
/// exactly one finding, whatever its other lines are.
pub proof fn law_examples_with_concrete_values(
    path: Seq<char>,
    a: Seq<char>,
    key: Seq<char>,
    value: Seq<char>,
    b: Seq<char>,
)
    requires
        plain_key(key),
        !characters::begins(key, "PUBLIC_"@),
        !characters::begins(key, "VITE_"@),
        !characters::begins(key, "NEXT_PUBLIC_"@),
        !characters::begins(key, "REACT_APP_"@),
        value.len() > 0,
        !value.contains('\n'),
        !characters::blank(value[0]) && !characters::blank(value.last()),
        value[0] != '"' && value[0] != '\'' && value.last() != '"' && value.last() != '\'',
        value[0] != '<',
        value[0] != '$',
        !stands_for_a_value(value),
        !characters::stands_in(value, " #"@),
    ensures
        checks::example_findings(path, key + seq!['='] + value).len() == 1,
        checks::example_findings(path, a + seq!['\n'] + key + seq!['='] + value).len() == 1,
        checks::example_findings(
            path,
            a + seq!['\n'] + key + seq!['='] + value + seq!['\n'] + b,
        ).len() == 1,
{
    let none = Seq::<char>::empty();
    let line = key + seq!['='] + value;
    characters::law_trim(none, value, none);
    assert(none + value + none =~= value);
    law_concrete_values(key, value);
    assert(wrapped(none, (none, none), value, (none, none), none) =~= value);
    law_assignments(
        none,
        false,
        key,
        none,
        none,
        (none, none),
        value,
        (none, none),
        none,
        none,
    );
    assert(assignment(none, false, key, none, value) =~= line);
    assert(dotenv::dotenv_pair(line) == Some((key, value)));
    assert(!line.contains('\n')) by {
        assert forall|i: int| 0 <= i < line.len() implies #[trigger] line[i] != '\n' by {
            if i < key.len() {
                assert(characters::letter_or_digit(key[i]) || key[i] == '_');
            } else if i > key.len() {
                assert(value.contains(value[i - key.len() - 1]));
            }
        }
    }
    assert(line.last() == value.last());
    law_pairs_line_by_line(line, b);
    let rule = dotenv::pair_rule();
    lines::lemma_lines_join(a, line);
    lines::lemma_lines_join(a, line + seq!['\n'] + b);
    lists::lemma_filter_map_add(lines::closed_lines(a), text::lines(line), rule);
    lists::lemma_filter_map_add(
        lines::closed_lines(a),
        text::lines(line + seq!['\n'] + b),
        rule,
    );
    let before = lines::closed_lines(a).filter_map(rule);
    let second = a + seq!['\n'] + key + seq!['='] + value;
    let third = a + seq!['\n'] + key + seq!['='] + value + seq!['\n'] + b;
    assert(a.push('\n') + line =~= second);
    assert(a.push('\n') + (line + seq!['\n'] + b) =~= third);
    assert(dotenv::dotenv_pairs(line)[0] == (key, value));
    assert(dotenv::dotenv_pairs(second)[before.len() as int] == (key, value));
    assert(dotenv::dotenv_pairs(third)[before.len() as int] == (key, value));
    values::law_examples_need_placeholders(path, line);
    values::law_examples_need_placeholders(path, second);
    values::law_examples_need_placeholders(path, third);
}

/// The finding of an example is a blocker at the path, without a line, that names the first
/// variable with a value that may not be shown, unless the name itself could give something away.
pub proof fn law_example_finding(
    path: Seq<char>,
    body: Seq<char>,
    before: Seq<(Seq<char>, Seq<char>)>,
    key: Seq<char>,
    value: Seq<char>,
    after: Seq<(Seq<char>, Seq<char>)>,
)
    requires
        dotenv::dotenv_pairs(body) == before + seq![(key, value)] + after,
        !dotenv::example_value_safe(key, value),
        forall|i: int|
            0 <= i < before.len() ==> dotenv::example_value_safe(
                (#[trigger] before[i]).0,
                before[i].1,
            ),
    ensures
        checks::example_findings(path, body) == seq![
            report::FindingModel {
                severity: report::Severity::Blocker,
                path,
                detail: if detect::reveals(key) {
                    "a variable has a concrete value in an example env file"@
                } else {
                    key + " has a concrete value in an example env file"@
                },
                line: None,
            },
        ],
{
    lemma_first_is(before, key, value, after);
}

proof fn lemma_first_is(
    before: Seq<(Seq<char>, Seq<char>)>,
    key: Seq<char>,
    value: Seq<char>,
    after: Seq<(Seq<char>, Seq<char>)>,
)
    requires
        !dotenv::example_value_safe(key, value),
        forall|i: int|
            0 <= i < before.len() ==> dotenv::example_value_safe(
                (#[trigger] before[i]).0,
                before[i].1,
            ),
    ensures
        checks::first_concrete(before + seq![(key, value)] + after) == Some(key),
    decreases before.len(),
{
    let all = before + seq![(key, value)] + after;
    if before.len() == 0 {
        assert(all[0] == (key, value));
    } else {
        let rest = before.drop_first();
        assert(all[0] == before[0]);
        assert(all.drop_first() =~= rest + seq![(key, value)] + after);
        assert forall|i: int| 0 <= i < rest.len() implies dotenv::example_value_safe(
            (#[trigger] rest[i]).0,
            rest[i].1,
        ) by {
            assert(rest[i] == before[i + 1]);
        }
        lemma_first_is(rest, key, value, after);
    }
}

} // verus!

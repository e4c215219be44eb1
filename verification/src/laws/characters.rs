//! What the functions on characters and text do, said in characters, concatenation and lengths
//! alone.
use crate::laws::lines;
use crate::text;
use crate::text::CharClass;
use vstd::prelude::*;

verus! {

/// `a` to `z`, `A` to `Z` or `0` to `9`.
pub open spec fn letter_or_digit(c: char) -> bool {
    ('a' <= c && c <= 'z') || ('A' <= c && c <= 'Z') || ('0' <= c && c <= '9')
}

/// The code point of `c` is that of a white space character of Unicode.
pub open spec fn blank(c: char) -> bool {
    let n = c as int;
    ||| 9 <= n <= 13
    ||| n == 32
    ||| n == 133
    ||| n == 160
    ||| n == 5760
    ||| 8192 <= n <= 8202
    ||| n == 8232
    ||| n == 8233
    ||| n == 8239
    ||| n == 8287
    ||| n == 12288
}

/// `c` is a letter, a digit or one of `_-.+/~`.
pub open spec fn token_char(c: char) -> bool {
    letter_or_digit(c) || c == '_' || c == '-' || c == '.' || c == '+' || c == '/' || c == '~'
}

/// `c` is not white space and none of `"'<>()`.
pub open spec fn url_char(c: char) -> bool {
    !blank(c) && c != '"' && c != '\'' && c != '<' && c != '>' && c != '(' && c != ')'
}

/// `c` is a letter, a digit or one of `_-.+/=`.
pub open spec fn bearer_char(c: char) -> bool {
    letter_or_digit(c) || c == '_' || c == '-' || c == '.' || c == '+' || c == '/' || c == '='
}

/// `c` separates the words of a script: white space, a quote or `=`.
pub open spec fn script_separator(c: char) -> bool {
    blank(c) || c == '"' || c == '\'' || c == '='
}

/// Every character of `s` is white space.
pub open spec fn all_blank(s: Seq<char>) -> bool {
    forall|i: int| 0 <= i < s.len() ==> blank(#[trigger] s[i])
}

/// Every character of `s` is an ASCII letter or digit.
pub open spec fn all_letters_or_digits(s: Seq<char>) -> bool {
    forall|i: int| 0 <= i < s.len() ==> letter_or_digit(#[trigger] s[i])
}

/// `s` starts with `prefix`.
pub open spec fn begins(s: Seq<char>, prefix: Seq<char>) -> bool {
    prefix.len() <= s.len() && s.take(prefix.len() as int) == prefix
}

/// `s` ends with `suffix`.
pub open spec fn ends(s: Seq<char>, suffix: Seq<char>) -> bool {
    suffix.len() <= s.len() && s.skip(s.len() - suffix.len()) == suffix
}

/// `part` stands in `s` at `i`.
pub open spec fn stands_at(s: Seq<char>, part: Seq<char>, i: int) -> bool {
    0 <= i <= s.len() - part.len() && s.subrange(i, i + part.len()) == part
}

/// `part` stands somewhere in `s`.
pub open spec fn stands_in(s: Seq<char>, part: Seq<char>) -> bool {
    exists|i: int| stands_at(s, part, i)
}

/// `s` reads like `word` once its upper-case ASCII letters are made lower-case.
pub open spec fn reads_like(s: Seq<char>, word: Seq<char>) -> bool {
    &&& s.len() == word.len()
    &&& forall|i: int|
        #![trigger s[i]]
        #![trigger word[i]]
        0 <= i < s.len() ==> (if 'A' <= s[i] && s[i] <= 'Z' {
            s[i] as int + 32 == word[i] as int
        } else {
            s[i] == word[i]
        })
}

/// The classes of characters hold these characters and no others, and the change of case moves
/// ASCII letters by thirty-two code points and leaves every other character alone.
pub proof fn law_characters(c: char)
    ensures
        text::ascii_lower(c) <==> 97 <= c as int <= 122,
        text::ascii_upper(c) <==> 65 <= c as int <= 90,
        text::ascii_digit(c) <==> 48 <= c as int <= 57,
        text::ascii_letter(c) <==> (97 <= c as int <= 122 || 65 <= c as int <= 90),
        text::ascii_alphanumeric(c) <==> letter_or_digit(c),
        text::white_space(c) <==> blank(c),
        text::lower_char(c) as int == (if 65 <= c as int <= 90 {
            c as int + 32
        } else {
            c as int
        }),
        text::upper_char(c) as int == (if 97 <= c as int <= 122 {
            c as int - 32
        } else {
            c as int
        }),
        CharClass::White.holds(c) <==> blank(c),
        CharClass::NotWhite.holds(c) <==> !blank(c),
        CharClass::DoubleQuote.holds(c) <==> c as int == 34,
        CharClass::SingleQuote.holds(c) <==> c as int == 39,
        CharClass::Token.holds(c) <==> token_char(c),
        CharClass::Url.holds(c) <==> url_char(c),
        CharClass::ScriptWord.holds(c) <==> !script_separator(c),
        CharClass::Alphanumeric.holds(c) <==> letter_or_digit(c),
        CharClass::Bearer.holds(c) <==> bearer_char(c),
        CharClass::Signature.holds(c) <==> (letter_or_digit(c) || c == '-' || c == '_' || c
            == '%'),
        CharClass::NotSlash.holds(c) <==> c as int != 47,
        CharClass::NotDot.holds(c) <==> c as int != 46,
        CharClass::NotNewline.holds(c) <==> c as int != 10,
        CharClass::NotEquals.holds(c) <==> c as int != 61,
{
}

/// Where a text stands in another, the other is what comes before it, the text itself and what
/// comes after it; it starts or ends with the text where nothing comes before or after.
pub proof fn law_occurrences(a: Seq<char>, part: Seq<char>, b: Seq<char>)
    ensures
        text::occurs_at(a + part + b, part, a.len() as int),
        text::occurs(a + part + b, part),
        text::starts_with(part + b, part),
        text::ends_with(a + part, part),
{
    assert((a + part + b).subrange(a.len() as int, (a.len() + part.len()) as int) =~= part);
    assert((part + b).subrange(0, part.len() as int) =~= part);
    assert((a + part).subrange(a.len() as int, (a.len() + part.len()) as int) =~= part);
    assert(text::occurs_at(a + part + b, part, a.len() as int));
}

/// A text stands, starts or ends there where it can be cut out, and nowhere else.
pub proof fn law_occurrences_only_there(s: Seq<char>, part: Seq<char>, i: int)
    ensures
        text::occurs_at(s, part, i) <==> stands_at(s, part, i),
        text::occurs(s, part) <==> stands_in(s, part),
        text::starts_with(s, part) <==> begins(s, part),
        text::ends_with(s, part) <==> ends(s, part),
{
    if text::occurs(s, part) {
        let k = choose|k: int| text::occurs_at(s, part, k);
        assert(stands_at(s, part, k));
    }
    if stands_in(s, part) {
        let k = choose|k: int| stands_at(s, part, k);
        assert(text::occurs_at(s, part, k));
    }
    if part.len() <= s.len() {
        assert(s.subrange(0, part.len() as int) =~= s.take(part.len() as int));
        assert(s.subrange(s.len() - part.len(), s.len() as int) =~= s.skip(
            s.len() - part.len(),
        ));
    }
}

/// The position of a text is the first place at which it stands, and there is one exactly where
/// it stands somewhere.
pub proof fn law_position(s: Seq<char>, part: Seq<char>)
    ensures
        match text::position(s, part) {
            Some(i) => stands_at(s, part, i) && forall|k: int|
                0 <= k < i ==> !stands_at(s, part, k),
            None => !stands_in(s, part),
        },
{
    text::lemma_position_occurs(s, part);
    law_occurrences_only_there(s, part, 0);
    assert forall|k: int| stands_at(s, part, k) == text::occurs_at(s, part, k) by {
        law_occurrences_only_there(s, part, k);
    }
}

/// A text in lower case has the same length and reads like the text; the same text in another
/// case of ASCII letters gives the same.
pub proof fn law_lower_case(s: Seq<char>, word: Seq<char>)
    ensures
        text::lower(s).len() == s.len(),
        text::lower(s) == word <==> reads_like(s, word),
{
    assert forall|i: int| 0 <= i < s.len() implies (#[trigger] text::lower(s)[i]) as int == (if 65
        <= s[i] as int <= 90 {
        s[i] as int + 32
    } else {
        s[i] as int
    }) by {
        law_characters(s[i]);
    }
    if reads_like(s, word) {
        assert(text::lower(s) =~= word);
    }
}

/// How many bytes a text takes: one for each character below 128, two below 2048, three below
/// 65536 and four for the others.
pub proof fn law_byte_length(s: Seq<char>, c: char)
    ensures
        text::byte_len(Seq::<char>::empty()) == 0,
        text::byte_len(seq![c] + s) == text::byte_len(s) + (if (c as int) < 128 {
            1int
        } else if (c as int) < 2048 {
            2
        } else if (c as int) < 65536 {
            3
        } else {
            4
        }),
{
    assert((seq![c] + s).drop_first() =~= s);
}

/// The length of two texts in a row is the sum of their lengths.
pub proof fn law_byte_length_adds(a: Seq<char>, b: Seq<char>)
    ensures
        text::byte_len(a + b) == text::byte_len(a) + text::byte_len(b),
    decreases a.len(),
{
    if a.len() == 0 {
        assert(a + b =~= b);
        law_byte_length(a, 'a');
        assert(a =~= Seq::<char>::empty());
    } else {
        let rest = a.drop_first();
        law_byte_length_adds(rest, b);
        law_byte_length(rest, a[0]);
        law_byte_length(rest + b, a[0]);
        assert(seq![a[0]] + rest =~= a);
        assert(seq![a[0]] + (rest + b) =~= a + b);
    }
}

/// ASCII text takes one byte for each character.
pub proof fn law_ascii_length(s: Seq<char>)
    requires
        forall|i: int| 0 <= i < s.len() ==> (#[trigger] s[i]) as int <= 127,
    ensures
        text::byte_len(s) == s.len(),
    decreases s.len(),
{
    if s.len() == 0 {
        law_byte_length(s, 'a');
        assert(s =~= Seq::<char>::empty());
    } else {
        let rest = s.drop_first();
        law_ascii_length(rest);
        law_byte_length(rest, s[0]);
        assert(seq![s[0]] + rest =~= s);
    }
}

/// No text takes fewer bytes than it has characters.
pub proof fn law_length_bound(s: Seq<char>)
    ensures
        text::byte_len(s) >= s.len(),
    decreases s.len(),
{
    if s.len() > 0 {
        let rest = s.drop_first();
        law_length_bound(rest);
        law_byte_length(rest, s[0]);
        assert(seq![s[0]] + rest =~= s);
    }
}

/// A rule on characters.
pub open spec fn same_rule(class: CharClass, rule: spec_fn(char) -> bool) -> bool {
    forall|c: char| #[trigger] class.holds(c) == rule(c)
}

/// The characters of `s` from `i` up to `j` obey `rule`, and the characters next to them, where
/// there are any, do not.
pub open spec fn stands_alone(s: Seq<char>, rule: spec_fn(char) -> bool, i: int, j: int) -> bool {
    &&& 0 <= i <= j <= s.len()
    &&& forall|k: int| i <= k < j ==> rule(#[trigger] s[k])
    &&& i > 0 ==> !rule(s[i - 1])
    &&& j < s.len() ==> !rule(s[j])
}

/// Every piece of a text stands alone in it.
pub proof fn law_piece_stands_alone(
    s: Seq<char>,
    class: CharClass,
    rule: spec_fn(char) -> bool,
    n: int,
) -> (r: (int, int))
    requires
        same_rule(class, rule),
        0 <= n < text::pieces(s, class).len(),
    ensures
        stands_alone(s, rule, r.0, r.1),
        text::pieces(s, class)[n] == s.subrange(r.0, r.1),
    decreases s.len(),
{
    let end = text::run(s, class) as int;
    lines::lemma_run(s, class);
    assert(forall|k: int| 0 <= k < end ==> class.holds(#[trigger] s[k]));
    if end >= s.len() {
        assert(s =~= s.subrange(0, s.len() as int));
        (0, s.len() as int)
    } else if n == 0 {
        assert(s.take(end) =~= s.subrange(0, end));
        assert(!class.holds(s[end]));
        (0, end)
    } else {
        let rest = s.skip(end + 1);
        let (i, j) = law_piece_stands_alone(rest, class, rule, n - 1);
        assert(rest.subrange(i, j) =~= s.subrange(i + end + 1, j + end + 1));
        assert forall|k: int| i + end + 1 <= k < j + end + 1 implies rule(#[trigger] s[k]) by {
            assert(rule(rest[k - end - 1]));
        }
        assert(!class.holds(s[end]));
        if i > 0 {
            assert(rest[i - 1] == s[i + end]);
        }
        (i + end + 1, j + end + 1)
    }
}

/// Whatever stands alone in a text is one of its pieces.
pub proof fn law_what_stands_alone_is_a_piece(
    s: Seq<char>,
    class: CharClass,
    rule: spec_fn(char) -> bool,
    i: int,
    j: int,
) -> (n: int)
    requires
        same_rule(class, rule),
        stands_alone(s, rule, i, j),
    ensures
        0 <= n < text::pieces(s, class).len(),
        text::pieces(s, class)[n] == s.subrange(i, j),
    decreases s.len(),
{
    let end = text::run(s, class) as int;
    lines::lemma_run(s, class);
    assert forall|k: int| 0 <= k < s.len() implies #[trigger] class.holds(s[k]) == rule(
        s[k],
    ) by {}
    if i == 0 {
        if j < end {
            assert(class.holds(s[j]));
        }
        if end < j {
            assert(rule(s[end]));
        }
        assert(s.take(end) =~= s.subrange(0, end));
        assert(s =~= s.subrange(0, s.len() as int));
        0
    } else {
        if i - 1 < end {
            assert(class.holds(s[i - 1]));
        }
        let rest = s.skip(end + 1);
        assert forall|k: int| i - end - 1 <= k < j - end - 1 implies rule(#[trigger] rest[k]) by {
            assert(rule(s[k + end + 1]));
        }
        let n = law_what_stands_alone_is_a_piece(rest, class, rule, i - end - 1, j - end - 1);
        assert(rest.subrange(i - end - 1, j - end - 1) =~= s.subrange(i, j));
        n + 1
    }
}

/// Trimming takes the white space in front of a text and behind it, and nothing else.
pub proof fn law_trim(before: Seq<char>, s: Seq<char>, after: Seq<char>)
    requires
        all_blank(before),
        all_blank(after),
        s.len() > 0 ==> !blank(s[0]) && !blank(s.last()),
    ensures
        text::trim(before + s + after) == s,
        s.len() > 0 ==> text::trim_front(before + s + after, CharClass::White) == s + after,
{
    let class = CharClass::White;
    assert forall|i: int| 0 <= i < before.len() implies class.holds(#[trigger] before[i]) by {}
    assert forall|i: int| 0 <= i < after.len() implies class.holds(#[trigger] after[i]) by {}
    law_trim_class(class, before, s, after);
}

/// Trimming by any class takes the characters of the class in front of a text and behind it, and
/// nothing else.
pub proof fn law_trim_class(class: CharClass, before: Seq<char>, s: Seq<char>, after: Seq<char>)
    requires
        forall|i: int| 0 <= i < before.len() ==> class.holds(#[trigger] before[i]),
        forall|i: int| 0 <= i < after.len() ==> class.holds(#[trigger] after[i]),
        s.len() > 0 ==> !class.holds(s[0]) && !class.holds(s.last()),
    ensures
        text::trim_class(before + s + after, class) == s,
        s.len() > 0 ==> text::trim_front(before + s + after, class) == s + after,
{
    let whole = before + s + after;
    let n = text::run(whole, class) as int;
    lines::lemma_run(whole, class);
    if s.len() > 0 {
        if n > before.len() {
            assert(class.holds(whole[before.len() as int]));
        }
        if n < before.len() {
            assert(whole[n] == before[n]);
        }
        assert(whole.skip(n) =~= s + after);
        lemma_trim_back(class, s, after);
    } else {
        if n < whole.len() {
            if n < before.len() {
                assert(whole[n] == before[n]);
            } else {
                assert(whole[n] == after[n - before.len()]);
            }
        }
        assert(whole.skip(n) =~= Seq::<char>::empty());
        assert(s =~= Seq::<char>::empty());
    }
}

proof fn lemma_trim_back(class: CharClass, s: Seq<char>, after: Seq<char>)
    requires
        forall|i: int| 0 <= i < after.len() ==> class.holds(#[trigger] after[i]),
        s.len() > 0 ==> !class.holds(s.last()),
    ensures
        text::trim_back(s + after, class) == s,
    decreases after.len(),
{
    if after.len() == 0 {
        assert(s + after =~= s);
    } else {
        assert((s + after).drop_last() =~= s + after.drop_last());
        assert((s + after).last() == after.last());
        lemma_trim_back(class, s, after.drop_last());
    }
}

/// Every text is white space, a text that neither starts nor ends with any, and white space.
pub proof fn lemma_trimmed(s: Seq<char>) -> (r: (Seq<char>, Seq<char>))
    ensures
        all_blank(r.0),
        all_blank(r.1),
        s == r.0 + text::trim(s) + r.1,
        text::trim(s).len() > 0 ==> !blank(text::trim(s)[0]) && !blank(text::trim(s).last()),
{
    let class = CharClass::White;
    let n = text::run(s, class) as int;
    let before = s.take(n);
    let front = s.skip(n);
    assert(all_blank(before) && 0 <= n <= s.len()) by {
        lines::lemma_run(s, class);
        assert forall|i: int| 0 <= i < before.len() implies blank(#[trigger] before[i]) by {
            assert(class.holds(s[i]));
        }
    }
    let after = lemma_behind(front);
    let kept = text::trim(s);
    assert(kept.len() > 0 ==> !blank(kept[0]) && !blank(kept.last())) by {
        lines::lemma_trim(s, class);
        assert(kept == text::trim_class(s, class));
    }
    lemma_cut(s, n, kept, after);
    (before, after)
}

proof fn lemma_cut(s: Seq<char>, n: int, kept: Seq<char>, after: Seq<char>)
    requires
        0 <= n <= s.len(),
        s.skip(n) == kept + after,
    ensures
        s == s.take(n) + kept + after,
{
    assert(s =~= s.take(n) + s.skip(n));
    assert(s.take(n) + kept + after =~= s.take(n) + (kept + after));
}

proof fn lemma_behind(s: Seq<char>) -> (r: Seq<char>)
    ensures
        all_blank(r),
        s == text::trim_back(s, CharClass::White) + r,
    decreases s.len(),
{
    let class = CharClass::White;
    if s.len() > 0 && class.holds(s.last()) {
        let r = lemma_behind(s.drop_last());
        let more = r.push(s.last());
        assert forall|i: int| 0 <= i < more.len() implies blank(#[trigger] more[i]) by {
            if i < r.len() {
                assert(blank(r[i]));
            }
        }
        let kept = text::trim_back(s, class);
        assert(s.drop_last() == kept + r);
        assert(s =~= s.drop_last().push(s.last()));
        assert(kept + more =~= (kept + r).push(s.last()));
        more
    } else {
        assert(s =~= s + Seq::<char>::empty());
        Seq::empty()
    }
}

/// The lines of a text: a line feed ends a line, which loses one carriage return at its end; the
/// rest of the text gives the lines that it has alone.
pub proof fn law_lines(line: Seq<char>, rest: Seq<char>)
    requires
        !line.contains('\n'),
    ensures
        text::lines(Seq::<char>::empty()) == Seq::<Seq<char>>::empty(),
        line.len() > 0 ==> text::lines(line) == seq![line],
        text::lines(line + seq!['\n'] + rest) == seq![
            if line.len() > 0 && line.last() == '\r' {
                line.take(line.len() - 1)
            } else {
                line
            },
        ] + text::lines(rest),
{
    let none = Seq::<char>::empty();
    lines::lemma_one_line(none);
    lines::lemma_one_line(line);
    lines::lemma_lines_join(line, rest);
    assert(line.push('\n') + rest =~= line + seq!['\n'] + rest);
    let kept = text::without_return(line);
    if line.len() > 0 {
        assert(line.drop_last() =~= line.take(line.len() - 1));
    }
    assert(lines::closed_lines(line) =~= seq![kept]);
}

/// The base name of a path is what follows its last slash.
pub proof fn law_base_name(dir: Seq<char>, name: Seq<char>)
    requires
        !name.contains('/'),
    ensures
        text::base_name(name) == name,
        text::base_name(dir + seq!['/'] + name) == name,
{
    let class = CharClass::NotSlash;
    assert forall|i: int| 0 <= i < name.len() implies class.holds(#[trigger] name[i]) by {
        assert(name.contains(name[i]));
    }
    lines::lemma_one_piece(name, class);
    lines::lemma_pieces_join(dir, '/', name, class);
    lines::lemma_pieces_hold(dir, class);
    assert(dir.push('/') + name =~= dir + seq!['/'] + name);
}

} // verus!

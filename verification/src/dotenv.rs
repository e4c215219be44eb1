//! Dotenv files: their names, their entries and the values that examples may show.
use crate::secrets;
use crate::text;
use crate::text::CharClass;
use vstd::prelude::*;
use vstd::slice::slice_subrange;

verus! {

/// `path` names an example of a dotenv file.
pub open spec fn dotenv_example_path(path: Seq<char>) -> bool {
    let name = text::base_name(path);
    ||| name == ".env.example"@
    ||| name == ".env.sample"@
    ||| text::occurs(name, ".example"@)
    ||| text::occurs(name, ".sample"@)
}

/// `path` names a dotenv file that holds values.
pub open spec fn dotenv_value_path(path: Seq<char>) -> bool {
    let name = text::base_name(path);
    &&& name == ".env"@ || text::starts_with(name, ".env."@)
    &&& !dotenv_example_path(path)
    &&& !text::occurs(name, "template"@)
}

/// `key` is the name of an environment variable: letters, digits and underscores, no digit
/// first.
pub open spec fn env_key(key: Seq<char>) -> bool {
    &&& key.len() > 0
    &&& key[0] == '_' || text::ascii_letter(key[0])
    &&& forall|i: int|
        1 <= i < key.len() ==> #[trigger] key[i] == '_' || text::ascii_alphanumeric(key[i])
}

/// `key` names a variable that is published with the program.
pub open spec fn public_env_key(key: Seq<char>) -> bool {
    ||| text::starts_with(key, "PUBLIC_"@)
    ||| text::starts_with(key, "VITE_"@)
    ||| text::starts_with(key, "NEXT_PUBLIC_"@)
    ||| text::starts_with(key, "REACT_APP_"@)
}

/// `value` up to the first ` #`.
pub open spec fn without_comment(value: Seq<char>) -> Seq<char> {
    match text::position(value, " #"@) {
        Some(i) => value.take(i),
        None => value,
    }
}

/// `s` without `prefix` at its start.
pub open spec fn without_prefix(s: Seq<char>, prefix: Seq<char>) -> Seq<char> {
    if text::starts_with(s, prefix) {
        s.skip(prefix.len() as int)
    } else {
        s
    }
}

/// `value` without white space and then quotes at its two ends: first `"`, then `'`.
pub open spec fn bare_value(value: Seq<char>) -> Seq<char> {
    text::trim_class(
        text::trim_class(text::trim(value), CharClass::DoubleQuote),
        CharClass::SingleQuote,
    )
}

/// What stands before the first `=` of `s` and what stands after it.
pub open spec fn split_assignment(s: Seq<char>) -> Option<(Seq<char>, Seq<char>)> {
    let n = text::run(s, CharClass::NotEquals) as int;
    if n < s.len() {
        Some((s.take(n), s.skip(n + 1)))
    } else {
        None
    }
}

/// The name and the value that a line of a dotenv file sets.
pub open spec fn dotenv_pair(line: Seq<char>) -> Option<(Seq<char>, Seq<char>)> {
    let start = text::trim_front(line, CharClass::White);
    if start.len() == 0 || start[0] == '#' {
        None
    } else {
        match split_assignment(without_prefix(start, "export "@)) {
            None => None,
            Some((key, value)) => if env_key(text::trim(key)) {
                Some((text::trim(key), bare_value(without_comment(value))))
            } else {
                None
            },
        }
    }
}

/// The rule that turns lines into pairs.
pub open spec fn pair_rule() -> spec_fn(Seq<char>) -> Option<(Seq<char>, Seq<char>)> {
    |line: Seq<char>| dotenv_pair(line)
}

/// The names and values that a dotenv file sets, in the order of its lines.
pub open spec fn dotenv_pairs(body: Seq<char>) -> Seq<(Seq<char>, Seq<char>)> {
    text::lines(body).filter_map(pair_rule())
}

/// `value` is one of the fixed placeholders, in any case of letters.
pub open spec fn placeholder(value: Seq<char>) -> bool {
    let word = text::lower(value);
    ||| word == "example"@
    ||| word == "example-value"@
    ||| word == "changeme"@
    ||| word == "change-me"@
    ||| word == "dummy"@
    ||| word == "your-value"@
    ||| text::starts_with(word, "your_"@)
    ||| text::occurs(word, "replace"@)
}

/// `value` is empty or stands between `<` and `>` or between `${` and `}`.
pub open spec fn blank_or_reference(value: Seq<char>) -> bool {
    ||| value.len() == 0
    ||| text::starts_with(value, "<"@) && text::ends_with(value, ">"@)
    ||| text::starts_with(value, "${"@) && text::ends_with(value, "}"@)
}

/// An example may show `value` for `key`: it is a placeholder, or the variable is public and
/// the value holds no secret that can be told for sure.
pub open spec fn example_value_safe(key: Seq<char>, value: Seq<char>) -> bool {
    let shown = text::trim(value);
    ||| blank_or_reference(shown)
    ||| placeholder(shown)
    ||| public_env_key(key) && !secrets::carries_secret(shown)
}

/// The contents of pairs of strings.
pub open spec fn pair_texts(v: Seq<(String, String)>) -> Seq<(Seq<char>, Seq<char>)> {
    v.map_values(|p: (String, String)| (p.0@, p.1@))
}

/// Tests whether `path` names an example of a dotenv file.
pub fn is_dotenv_example_path(path: &[char]) -> (r: bool)
    ensures
        r == dotenv_example_path(path@),
{
    let name = text::last_component(path);
    text::same(name, ".env.example") || text::same(name, ".env.sample") || text::contains(
        name,
        ".example",
    ) || text::contains(name, ".sample")
}

/// Tests whether `path` names a dotenv file that holds values.
pub fn is_dotenv_value_path(path: &[char]) -> (r: bool)
    ensures
        r == dotenv_value_path(path@),
{
    let name = text::last_component(path);
    (text::same(name, ".env") || text::has_prefix(name, ".env.")) && !is_dotenv_example_path(path)
        && !text::contains(name, "template")
}

/// Tests whether `key` is the name of an environment variable.
pub fn is_env_key(key: &[char]) -> (r: bool)
    ensures
        r == env_key(key@),
{
    if key.len() == 0 {
        return false;
    }
    let first = key[0];
    if !(first == '_' || ('a' <= first && first <= 'z') || ('A' <= first && first <= 'Z')) {
        return false;
    }
    let mut i: usize = 1;
    while i < key.len()
        invariant
            1 <= i <= key@.len(),
            forall|k: int|
                1 <= k < i ==> #[trigger] key@[k] == '_' || text::ascii_alphanumeric(key@[k]),
        decreases key@.len() - i,
    {
        if key[i] != '_' && !text::is_ascii_alphanumeric(key[i]) {
            return false;
        }
        i = i + 1;
    }
    true
}

/// Tests whether `key` names a variable that is published with the program.
pub fn is_public_env_key(key: &[char]) -> (r: bool)
    ensures
        r == public_env_key(key@),
{
    text::has_prefix(key, "PUBLIC_") || text::has_prefix(key, "VITE_") || text::has_prefix(
        key,
        "NEXT_PUBLIC_",
    ) || text::has_prefix(key, "REACT_APP_")
}

/// `value` up to the first ` #`.
pub fn strip_inline_comment<'a>(value: &'a [char]) -> (r: &'a [char])
    ensures
        r@ == without_comment(value@),
{
    match text::find(value, " #") {
        Some(i) => slice_subrange(value, 0, i),
        None => value,
    }
}

/// `value` without white space and quotes at its two ends.
pub fn strip_quotes<'a>(value: &'a [char]) -> (r: &'a [char])
    ensures
        r@ == bare_value(value@),
{
    text::trim_both(
        text::trim_both(text::trim_white(value), CharClass::DoubleQuote),
        CharClass::SingleQuote,
    )
}

/// What stands before the first `=` of `line` and what stands after it.
pub fn split_at_equals<'a>(line: &'a [char]) -> (r: Option<(&'a [char], &'a [char])>)
    ensures
        match r {
            Some(pair) => split_assignment(line@) == Some((pair.0@, pair.1@)),
            None => split_assignment(line@) is None,
        },
{
    let n = text::run_len(line, CharClass::NotEquals);
    if n < line.len() {
        Some((slice_subrange(line, 0, n), slice_subrange(line, n + 1, line.len())))
    } else {
        None
    }
}

/// The name and the value that a line of a dotenv file sets.
fn parse_dotenv_line<'a>(line: &'a [char]) -> (r: Option<(&'a [char], &'a [char])>)
    ensures
        match r {
            Some(pair) => dotenv_pair(line@) == Some((pair.0@, pair.1@)),
            None => dotenv_pair(line@) is None,
        },
{
    let start = text::trim_start_class(line, CharClass::White);
    if start.len() == 0 || start[0] == '#' {
        return None;
    }
    let assignment = if text::has_prefix(start, "export ") {
        proof {
            reveal_strlit("export ");
        }
        slice_subrange(start, 7, start.len())
    } else {
        start
    };
    match split_at_equals(assignment) {
        None => None,
        Some((key, value)) => {
            let name = text::trim_white(key);
            if is_env_key(name) {
                Some((name, strip_quotes(strip_inline_comment(value))))
            } else {
                None
            }
        },
    }
}

/// The names and values that a dotenv file sets, in the order of its lines.
pub fn parse_dotenv_pairs(body: &str) -> (r: Vec<(String, String)>)
    ensures
        pair_texts(r@) == dotenv_pairs(body@),
{
    let chars = text::chars_of(body);
    let lines = text::split_lines(&chars);
    let ghost all = text::lines(body@);
    let mut r: Vec<(String, String)> = Vec::new();
    let mut i: usize = 0;
    assert(all.take(0) == Seq::<Seq<char>>::empty());
    while i < lines.len()
        invariant
            i <= lines@.len(),
            text::contents(lines@) == all,
            pair_texts(r@) == all.take(i as int).filter_map(pair_rule()),
        decreases lines@.len() - i,
    {
        proof {
            assert(lines@[i as int]@ == all[i as int]);
            assert(all.take(i + 1).drop_last() == all.take(i as int));
        }
        match parse_dotenv_line(lines[i]) {
            None => {},
            Some((key, value)) => {
                let pair = (text::string_of(key), text::string_of(value));
                assert(pair_texts(r@.push(pair)) == pair_texts(r@).push((key@, value@)));
                r.push(pair);
            },
        }
        i = i + 1;
    }
    assert(all.take(i as int) == all);
    r
}

/// Tests whether an example may show `value` for `key`.
pub fn example_value_is_safe(key: &[char], value: &[char]) -> (r: bool)
    ensures
        r == example_value_safe(key@, value@),
{
    let shown = text::trim_white(value);
    if shown.len() == 0 || (text::has_prefix(shown, "<") && text::has_suffix(shown, ">")) || (
    text::has_prefix(shown, "${") && text::has_suffix(shown, "}")) {
        return true;
    }
    let word = text::lowered(shown);
    if text::same(&word, "example") || text::same(&word, "example-value") || text::same(
        &word,
        "changeme",
    ) || text::same(&word, "change-me") || text::same(&word, "dummy") || text::same(
        &word,
        "your-value",
    ) || text::has_prefix(&word, "your_") || text::contains(&word, "replace") {
        return true;
    }
    is_public_env_key(key) && !secrets::contains_unmistakable_secret(shown)
}

} // verus!
